use e57_to_las::converter::{
    run_merged, run_split, worker_count, ChunkBuffer, ConversionOptions, ParallelOptions,
    PartitionData, CHANNEL_CAPACITY, CHUNK_SIZE,
};
use e57_to_las::pointcloud::PointCloud;
use e57_to_las::point::{CartesianCoordinate, Point};
use e57_to_las::spatial_point::SpatialPoint;
use e57_to_las::stations::station_points;
use e57_to_las::transform::{Transform, Translation};

fn record(x: i64) -> Point {
    Point {
        cartesian: CartesianCoordinate::Valid { x, y: 0, z: 0 },
        color: None,
        color_invalid: 0,
        intensity: None,
        intensity_invalid: 0,
    }
}

fn invalid_record() -> Point {
    Point {
        cartesian: CartesianCoordinate::Invalid,
        color: None,
        color_invalid: 0,
        intensity: None,
        intensity_invalid: 0,
    }
}

fn bare_pointcloud(records: u64) -> PointCloud {
    PointCloud {
        records,
        transform: None,
        cartesian_bounds: None,
        has_color: false,
        has_timestamp: false,
        acquisition_start: None,
    }
}

#[test]
fn test_worker_count_budget() {
    // Eight partitions under a budget of four: exactly four workers.
    assert_eq!(worker_count(4, 8), 4);
    // More budget than partitions: one worker per partition.
    assert_eq!(worker_count(8, 4), 4);
    // Always at least one worker.
    assert_eq!(worker_count(0, 5), 1);
    assert_eq!(worker_count(4, 0), 1);
}

#[test]
fn test_parallel_options() {
    assert_eq!(ParallelOptions::new(6).workers, 6);
    assert!(CHUNK_SIZE == 200_000 && CHANNEL_CAPACITY == 8);
}

#[test]
fn test_chunk_buffer_batches() {
    let mut buffer = ChunkBuffer::new(3);
    let mut chunks: Vec<Vec<_>> = Vec::new();
    for i in 0..7 {
        if let Some(chunk) = buffer.push(
            e57_to_las::point::LasPoint {
                x: i,
                y: 0,
                z: 0,
                intensity: 0,
                color: None,
                gps_time: None,
            },
        ) {
            chunks.push(chunk);
        }
    }
    let rest = buffer.take_rest();
    assert_eq!(chunks.len(), 2);
    assert_eq!(chunks[0].len(), 3);
    assert_eq!(chunks[1].len(), 3);
    assert_eq!(rest.len(), 1);
    // Arrival order is kept across chunk boundaries.
    let xs: Vec<i64> = chunks
        .into_iter()
        .flatten()
        .chain(rest.into_iter())
        .map(|p| p.x)
        .collect();
    assert_eq!(xs, vec![0, 1, 2, 3, 4, 5, 6]);
}

#[test]
fn test_merged_run_round_trip() {
    // Two partitions of valid-coordinate records, no color, no time:
    // exactly as many output records as inputs, order preserved within
    // each partition.
    let first = PartitionData {
        pointcloud: bare_pointcloud(3),
        points: vec![record(1), record(2), record(3)],
    };
    let second = PartitionData {
        pointcloud: bare_pointcloud(2),
        points: vec![record(10), record(20)],
    };
    let out = run_merged(&vec![first, second], &ConversionOptions::default()).unwrap();
    assert_eq!(out.points.len(), 5);
    assert_eq!(out.dropped, 0);
    let xs: Vec<i64> = out.points.iter().map(|p| p.x).collect();
    assert_eq!(xs, vec![1, 2, 3, 10, 20]);
    assert_eq!(out.header.point_format.id, 0);
}

#[test]
fn test_merged_run_counts_dropped() {
    // A partition with two invalid records among five yields three output
    // records, with the two reflected in the drop counter.
    let partition = PartitionData {
        pointcloud: bare_pointcloud(5),
        points: vec![
            record(1),
            invalid_record(),
            record(2),
            invalid_record(),
            record(3),
        ],
    };
    let out = run_merged(&vec![partition], &ConversionOptions::default()).unwrap();
    assert_eq!(out.points.len(), 3);
    assert_eq!(out.dropped, 2);
    let xs: Vec<i64> = out.points.iter().map(|p| p.x).collect();
    assert_eq!(xs, vec![1, 2, 3]);
}

#[test]
fn test_merged_run_eight_partitions() {
    // The job-accounting half of the concurrency scenario: eight
    // partitions, each converted exactly once, the final record count
    // equal to the sum of per-partition counts minus dropped records.
    let mut partitions = Vec::new();
    let mut expected_total = 0u64;
    for p in 0..8i64 {
        let mut points = Vec::new();
        for r in 0..(p + 1) {
            points.push(record(p * 100 + r));
        }
        if p % 2 == 0 {
            points.push(invalid_record());
        }
        expected_total += (p + 1) as u64;
        partitions.push(PartitionData { pointcloud: bare_pointcloud(points.len() as u64), points });
    }
    let out = run_merged(&partitions, &ConversionOptions::default()).unwrap();
    assert_eq!(out.dropped, 4);
    assert_eq!(out.points.len() as u64, expected_total);
    // And the worker budget for this dataset caps at four.
    assert_eq!(worker_count(4, partitions.len()), 4);
}

#[test]
fn test_split_run_keeps_partitions_apart() {
    let first = PartitionData {
        pointcloud: bare_pointcloud(2),
        points: vec![record(1), invalid_record()],
    };
    let second = PartitionData {
        pointcloud: bare_pointcloud(2),
        points: vec![record(5), record(6)],
    };
    let outs = run_split(&vec![first, second], &ConversionOptions::default()).unwrap();
    assert_eq!(outs.len(), 2);
    assert_eq!(outs[0].points.len(), 1);
    assert_eq!(outs[0].dropped, 1);
    assert_eq!(outs[1].points.len(), 2);
    assert_eq!(outs[1].dropped, 0);
    let xs: Vec<i64> = outs[1].points.iter().map(|p| p.x).collect();
    assert_eq!(xs, vec![5, 6]);
}

#[test]
fn test_runs_reject_unsupported_version() {
    let opts = ConversionOptions {
        scale: e57_to_las::las::Scale::MilliMeter,
        las_version: (1, 5),
    };
    assert!(run_merged(&Vec::new(), &opts).is_err());
    assert!(run_split(&Vec::new(), &opts).is_err());
}

#[test]
fn test_empty_dataset() {
    // An empty dataset still yields a usable, empty run: no records, no
    // drops, and the header falls back to the preset scale at offset zero.
    let out = run_merged(&Vec::new(), &ConversionOptions::default()).unwrap();
    assert_eq!(out.points.len(), 0);
    assert_eq!(out.dropped, 0);
    assert_eq!(out.header.x.offset, 0);
    assert_eq!(out.header.x.scale, e57_to_las::las::Scale::MilliMeter.value());

    let outs = run_split(&Vec::new(), &ConversionOptions::default()).unwrap();
    assert!(outs.is_empty());
}

#[test]
fn test_error_variants() {
    let err = run_merged(
        &Vec::new(),
        &ConversionOptions {
            scale: e57_to_las::las::Scale::MilliMeter,
            las_version: (3, 0),
        },
    )
    .unwrap_err();
    assert!(matches!(
        err,
        e57_to_las::error::Error::InvalidLasVersion(_)
    ));
    // The internal-failure variant exists for the shell around the
    // library, which maps thread panics into it.
    let internal = e57_to_las::error::Error::Internal(String::from("worker ended early"));
    assert!(matches!(internal, e57_to_las::error::Error::Internal(_)));
}

#[test]
fn test_station_points_take_translations() {
    let mut moved = bare_pointcloud(0);
    let t = Transform::new(
        Transform::identity().rotation,
        Translation { x: 700, y: -800, z: 900 },
    )
    .unwrap();
    moved.transform = Some(t);
    let stations = station_points(&vec![bare_pointcloud(0), moved]);
    assert_eq!(stations[0], SpatialPoint { x: 0, y: 0, z: 0 });
    assert_eq!(stations[1], SpatialPoint { x: 700, y: -800, z: 900 });
}
