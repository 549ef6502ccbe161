use crate::error::Error;
use crate::las::{
    spec_build_header, spec_combined_bounds, spec_format_id, spec_version_at_least_1_4,
    spec_version_supported, LasHeader, LasHeaderExt, PointFormat, Scale,
};
use crate::point::{spec_to_las_point, LasPoint, Point};
use crate::pointcloud::{spec_global_bounds, PointCloud};
use vstd::prelude::*;

verus! {

/// Marker for the single-threaded pipeline.
pub struct Sequential;

/// Marker for the multi-threaded pipeline.
pub struct Parallel;

/// Marker for writing all partitions into one output stream.
pub struct Merged;

/// Marker for writing each partition to its own output stream.
pub struct Split;

/// The options of one conversion run; immutable for its duration.
#[derive(Clone, Copy, Debug)]
pub struct ConversionOptions {
    /// The scale preset that resolution starts from.
    pub scale: Scale,
    /// The output format version, as `(major, minor)`.
    pub las_version: (u8, u8),
}

impl ConversionOptions {
    /// Usable options: a positive scale preset.
    pub open spec fn is_valid(self) -> bool {
        self.scale.is_valid()
    }
}

impl Default for ConversionOptions {
    /// The millimeter preset and the newest supported format version.
    fn default() -> (r: Self)
        ensures
            r.scale == Scale::MilliMeter,
            r.las_version == (1u8, 4u8),
    {
        ConversionOptions { scale: Scale::MilliMeter, las_version: (1, 4) }
    }
}

/// The worker budget of the multi-threaded pipeline. There is no
/// process-wide default: the shell passes its own parallelism in, so
/// several pipelines can run with independent budgets.
#[derive(Clone, Copy, Debug, PartialEq, Eq, Structural)]
pub struct ParallelOptions {
    /// How many worker threads the pipeline may spawn.
    pub workers: usize,
}

impl ParallelOptions {
    /// A budget of `workers` threads.
    pub fn new(workers: usize) -> (r: Self)
        ensures
            r.workers == workers,
    {
        ParallelOptions { workers }
    }
}

/// How many workers a run spawns for a given budget and partition count:
/// one per partition up to the budget, and at least one.
pub open spec fn spec_worker_count(workers: int, partitions: int) -> int {
    let limited = if partitions <= workers {
        partitions
    } else {
        workers
    };
    if limited >= 1 {
        limited
    } else {
        1
    }
}

/// The number of worker threads that a run with the given budget spawns
/// over a dataset of `partitions` partitions.
pub fn worker_count(workers: usize, partitions: usize) -> (r: usize)
    ensures
        r as int == spec_worker_count(workers as int, partitions as int),
        1 <= r,
        partitions >= 1 ==> r <= partitions,
        r <= workers || r == 1,
{
    let limited = if partitions <= workers {
        partitions
    } else {
        workers
    };
    if limited >= 1 {
        limited
    } else {
        1
    }
}

/// How many records a chunk holds at most: the unit of transfer between the
/// workers and the writer.
pub const CHUNK_SIZE: usize = 200_000;

/// How many chunks the channel to the writer buffers before workers block:
/// together with the chunk size this caps the pipeline's memory, whatever
/// the dataset's size.
pub const CHANNEL_CAPACITY: usize = 8;

/// A worker's accumulator of converted records: records are pushed one at a
/// time, and whenever the buffer reaches its capacity the full chunk is
/// handed back for the channel to the writer, leaving the buffer empty.
pub struct ChunkBuffer {
    capacity: usize,
    buffer: Vec<LasPoint>,
}

impl ChunkBuffer {
    /// The records the buffer currently holds, in arrival order.
    pub closed spec fn contents(self) -> Seq<LasPoint> {
        self.buffer@
    }

    /// The chunk size the buffer was built with.
    pub closed spec fn spec_capacity(self) -> int {
        self.capacity as int
    }

    /// The buffer never reaches its capacity between calls: a full chunk is
    /// handed out the moment it fills.
    pub closed spec fn wf(self) -> bool {
        self.capacity >= 1 && self.buffer@.len() < self.capacity
    }

    /// An empty buffer that fills chunks of `capacity` records.
    pub fn new(capacity: usize) -> (r: ChunkBuffer)
        requires
            capacity >= 1,
        ensures
            r.wf(),
            r.spec_capacity() == capacity,
            r.contents() == Seq::<LasPoint>::empty(),
    {
        ChunkBuffer { capacity, buffer: Vec::new() }
    }

    /// Add one record. Returns the full chunk, in arrival order, exactly
    /// when this record fills the buffer to capacity; the buffer is empty
    /// again afterwards.
    pub fn push(&mut self, point: LasPoint) -> (full: Option<Vec<LasPoint>>)
        requires
            old(self).wf(),
        ensures
            final(self).wf(),
            final(self).spec_capacity() == old(self).spec_capacity(),
            (match full {
                Some(chunk) => {
                    &&& chunk@ == old(self).contents().push(point)
                    &&& chunk@.len() == old(self).spec_capacity()
                    &&& final(self).contents() == Seq::<LasPoint>::empty()
                },
                None => {
                    &&& final(self).contents() == old(self).contents().push(point)
                    &&& final(self).contents().len() < old(self).spec_capacity()
                },
            }),
    {
        self.buffer.push(point);
        if self.buffer.len() == self.capacity {
            let mut chunk: Vec<LasPoint> = Vec::new();
            core::mem::swap(&mut self.buffer, &mut chunk);
            Some(chunk)
        } else {
            None
        }
    }

    /// Take whatever the buffer still holds: the final partial chunk,
    /// flushed at partition end. The buffer is empty afterwards.
    pub fn take_rest(&mut self) -> (rest: Vec<LasPoint>)
        requires
            old(self).wf(),
        ensures
            final(self).wf(),
            final(self).spec_capacity() == old(self).spec_capacity(),
            rest@ == old(self).contents(),
            final(self).contents() == Seq::<LasPoint>::empty(),
    {
        let mut rest: Vec<LasPoint> = Vec::new();
        core::mem::swap(&mut self.buffer, &mut rest);
        rest
    }
}

/// The records a partition converts to, in record order: each record with a
/// valid coordinate becomes one output record, invalid-coordinate records
/// are dropped.
pub open spec fn spec_convert_partition(
    points: Seq<Point>,
    format: PointFormat,
    gps_time: Option<i64>,
) -> Seq<LasPoint>
    decreases points.len(),
{
    if points.len() == 0 {
        Seq::empty()
    } else {
        let rest = spec_convert_partition(points.drop_last(), format, gps_time);
        match spec_to_las_point(points.last(), format, gps_time) {
            Some(p) => rest.push(p),
            None => rest,
        }
    }
}

/// How many records of the sequence carry an invalid coordinate.
pub open spec fn spec_invalid_count(points: Seq<Point>) -> int
    decreases points.len(),
{
    if points.len() == 0 {
        0int
    } else {
        spec_invalid_count(points.drop_last()) + (if points.last().cartesian is Invalid {
            1int
        } else {
            0int
        })
    }
}

/// Converted and dropped records of a partition always account for every
/// input record: the counts add up, and the drop count never goes negative
/// or past the total.
pub proof fn lemma_convert_partition_counts(
    points: Seq<Point>,
    format: PointFormat,
    gps_time: Option<i64>,
)
    ensures
        spec_convert_partition(points, format, gps_time).len() + spec_invalid_count(points)
            == points.len(),
        0 <= spec_invalid_count(points) <= points.len(),
    decreases points.len(),
{
    if points.len() > 0 {
        lemma_convert_partition_counts(points.drop_last(), format, gps_time);
    }
}

/// A partition whose records all carry valid coordinates converts in full:
/// one output record per input record, in the same order.
pub proof fn lemma_convert_partition_all_valid(
    points: Seq<Point>,
    format: PointFormat,
    gps_time: Option<i64>,
)
    requires
        forall|i: int| 0 <= i < points.len() ==> !(#[trigger] points[i].cartesian is Invalid),
    ensures
        spec_convert_partition(points, format, gps_time).len() == points.len(),
        forall|i: int|
            0 <= i < points.len() ==> #[trigger] spec_convert_partition(points, format, gps_time)[i]
                == spec_to_las_point(points[i], format, gps_time)->Some_0,
    decreases points.len(),
{
    if points.len() > 0 {
        let rest = points.drop_last();
        assert(forall|i: int| 0 <= i < rest.len() ==> rest[i] == points[i]);
        lemma_convert_partition_all_valid(rest, format, gps_time);
        assert(!(points.last().cartesian is Invalid));
        let converted = spec_convert_partition(points, format, gps_time);
        assert forall|i: int| 0 <= i < points.len() implies #[trigger] converted[i]
            == spec_to_las_point(points[i], format, gps_time)->Some_0 by {
            if i < points.len() - 1 {
                assert(converted[i] == spec_convert_partition(rest, format, gps_time)[i]);
            }
        }
    }
}

/// Convert one partition's records to the given record layout, with
/// `gps_time` the partition's acquisition-start reference. Returns the
/// converted records in record order, together with how many records were
/// dropped for an invalid coordinate.
pub fn convert_pointcloud_points(
    points: &Vec<Point>,
    format: PointFormat,
    gps_time: Option<i64>,
) -> (r: (Vec<LasPoint>, usize))
    ensures
        r.0@ == spec_convert_partition(points@, format, gps_time),
        r.1 as int == spec_invalid_count(points@),
        r.0@.len() + r.1 as int == points@.len(),
{
    let mut out: Vec<LasPoint> = Vec::new();
    let mut dropped: usize = 0;
    let mut i: usize = 0;
    proof {
        assert(points@.take(0int) =~= Seq::<Point>::empty());
    }
    while i < points.len()
        invariant
            0 <= i <= points@.len(),
            out@ == spec_convert_partition(points@.take(i as int), format, gps_time),
            dropped as int == spec_invalid_count(points@.take(i as int)),
            out@.len() + dropped as int == i,
        decreases points@.len() - i,
    {
        proof {
            assert(points@.take(i + 1int).drop_last() =~= points@.take(i as int));
            assert(points@.take(i + 1int).last() == points@[i as int]);
        }
        match points[i].to_las_point(format, gps_time) {
            Some(p) => out.push(p),
            None => {
                dropped = dropped + 1;
            },
        }
        i = i + 1;
    }
    proof {
        assert(points@.take(points@.len() as int) =~= points@);
    }
    (out, dropped)
}

/// The records of one partition held in memory together with the
/// partition's metadata: the unit of work that one pipeline worker
/// processes.
#[derive(Debug)]
pub struct PartitionData {
    /// The partition's metadata.
    pub pointcloud: PointCloud,
    /// The partition's records, in record order.
    pub points: Vec<Point>,
}

impl PartitionData {
    /// A usable unit of work: its metadata is valid.
    pub open spec fn is_valid(self) -> bool {
        self.pointcloud.is_valid()
    }
}

/// The metadata of every partition, in order.
pub open spec fn spec_pointclouds(s: Seq<PartitionData>) -> Seq<PointCloud> {
    s.map_values(|pd: PartitionData| pd.pointcloud)
}

/// The record layout of a merged run: chosen from whether any partition
/// carries color and whether any carries timestamps.
pub open spec fn spec_merged_format(s: Seq<PartitionData>, opts: ConversionOptions) -> PointFormat {
    let pcs = spec_pointclouds(s);
    PointFormat {
        id: spec_format_id(
            crate::las::spec_any_color(pcs),
            crate::las::spec_any_timestamp(pcs),
            spec_version_at_least_1_4(opts.las_version),
        ),
        has_color: crate::las::spec_any_color(pcs),
        has_gps_time: crate::las::spec_any_timestamp(pcs),
    }
}

/// All converted records of a merged run, partition by partition in
/// partition order, each partition's records in record order.
pub open spec fn spec_merged_points(s: Seq<PartitionData>, format: PointFormat) -> Seq<LasPoint>
    decreases s.len(),
{
    if s.len() == 0 {
        Seq::empty()
    } else {
        spec_merged_points(s.drop_last(), format) + spec_convert_partition(
            s.last().points@,
            format,
            s.last().pointcloud.acquisition_start,
        )
    }
}

/// How many records a run drops over all partitions.
pub open spec fn spec_total_dropped(s: Seq<PartitionData>) -> int
    decreases s.len(),
{
    if s.len() == 0 {
        0int
    } else {
        spec_total_dropped(s.drop_last()) + spec_invalid_count(s.last().points@)
    }
}

/// How many records a run reads over all partitions.
pub open spec fn spec_total_points(s: Seq<PartitionData>) -> int
    decreases s.len(),
{
    if s.len() == 0 {
        0int
    } else {
        spec_total_points(s.drop_last()) + s.last().points@.len()
    }
}

/// A run never drops more records than it reads, and never a negative
/// count.
pub proof fn lemma_total_dropped_bounds(s: Seq<PartitionData>)
    ensures
        0 <= spec_total_dropped(s) <= spec_total_points(s),
    decreases s.len(),
{
    if s.len() > 0 {
        lemma_total_dropped_bounds(s.drop_last());
        lemma_convert_partition_counts(
            s.last().points@,
            PointFormat { id: 0, has_color: false, has_gps_time: false },
            None,
        );
    }
}

/// A merged run accounts for every record it reads: the converted records
/// and the dropped ones add up to the dataset's total, whatever the record
/// layout. With no invalid records this makes the output count the input
/// count exactly.
pub proof fn lemma_merged_points_counts(s: Seq<PartitionData>, format: PointFormat)
    ensures
        spec_merged_points(s, format).len() + spec_total_dropped(s) == spec_total_points(s),
    decreases s.len(),
{
    if s.len() > 0 {
        lemma_merged_points_counts(s.drop_last(), format);
        lemma_convert_partition_counts(
            s.last().points@,
            format,
            s.last().pointcloud.acquisition_start,
        );
    }
}

/// A prefix of a run reads at most as many records as the whole run.
proof fn lemma_total_points_prefix(s: Seq<PartitionData>, i: int)
    requires
        0 <= i <= s.len(),
    ensures
        spec_total_points(s.take(i)) <= spec_total_points(s),
    decreases s.len() - i,
{
    if i < s.len() {
        lemma_total_points_prefix(s, i + 1);
        assert(s.take(i + 1).drop_last() =~= s.take(i));
        assert(s.take(i + 1).last() == s[i]);
    } else {
        assert(s.take(i) =~= s);
    }
}

/// What a merged run produces: the one header, every converted record, and
/// the count of dropped records.
#[derive(Debug)]
pub struct MergedOutput {
    /// The single output stream's header.
    pub header: LasHeader,
    /// Every converted record: partitions in partition order, records in
    /// record order within each partition.
    pub points: Vec<LasPoint>,
    /// How many records were dropped for an invalid coordinate.
    pub dropped: u64,
}

/// Run a merged conversion over in-memory partitions: build the one header
/// from all partitions' metadata, convert every partition's records, and
/// count the dropped ones. This is the pipeline's data path; the shell adds
/// the streams, the worker threads and the bounded channel around it.
pub fn run_merged(partitions: &Vec<PartitionData>, opts: &ConversionOptions) -> (r: Result<
    MergedOutput,
    Error,
>)
    requires
        opts.is_valid(),
        forall|i: int| 0 <= i < partitions@.len() ==> #[trigger] partitions@[i].is_valid(),
        spec_total_points(partitions@) <= u64::MAX,
    ensures
        r is Ok <==> spec_version_supported(opts.las_version),
        r is Err ==> r->Err_0 is InvalidLasVersion,
        r is Ok ==> ({
            let out = r->Ok_0;
            let format = spec_merged_format(partitions@, *opts);
            &&& out.header == spec_build_header(
                format,
                spec_combined_bounds(spec_pointclouds(partitions@)),
                *opts,
            )
            &&& out.points@ == spec_merged_points(partitions@, format)
            &&& out.dropped as int == spec_total_dropped(partitions@)
        }),
{
    let ghost all = partitions@;
    let mut pcs: Vec<PointCloud> = Vec::new();
    let mut i: usize = 0;
    proof {
        assert(spec_pointclouds(all.take(0int)) =~= pcs@);
    }
    while i < partitions.len()
        invariant
            0 <= i <= all.len(),
            all == partitions@,
            pcs@ == spec_pointclouds(all.take(i as int)),
        decreases all.len() - i,
    {
        pcs.push(partitions[i].pointcloud);
        proof {
            assert(spec_pointclouds(all.take(i + 1int)) =~= spec_pointclouds(
                all.take(i as int),
            ).push(all[i as int].pointcloud));
        }
        i = i + 1;
    }
    proof {
        assert(all.take(all.len() as int) =~= all);
        assert(pcs@ == spec_pointclouds(all));
        assert forall|j: int| 0 <= j < pcs@.len() implies #[trigger] pcs@[j].is_valid() by {
            assert(pcs@[j] == all[j].pointcloud);
            assert(all[j].is_valid());
        }
    }
    let header = match LasHeader::from_pointclouds(&pcs, opts) {
        Ok(h) => h,
        Err(e) => {
            return Err(e);
        },
    };
    let format = header.point_format;
    let mut out_points: Vec<LasPoint> = Vec::new();
    let mut dropped: u64 = 0;
    let mut i: usize = 0;
    proof {
        assert(spec_merged_points(all.take(0int), format) =~= out_points@);
    }
    while i < partitions.len()
        invariant
            0 <= i <= all.len(),
            all == partitions@,
            forall|j: int| 0 <= j < all.len() ==> #[trigger] all[j].is_valid(),
            spec_total_points(all) <= u64::MAX,
            out_points@ == spec_merged_points(all.take(i as int), format),
            dropped as int == spec_total_dropped(all.take(i as int)),
            spec_total_dropped(all.take(i as int)) <= spec_total_points(all.take(i as int)),
        decreases all.len() - i,
    {
        let pd = &partitions[i];
        let (mut pts, d) = convert_pointcloud_points(
            &pd.points,
            format,
            pd.pointcloud.acquisition_start,
        );
        proof {
            assert(all.take(i + 1int).drop_last() =~= all.take(i as int));
            assert(all.take(i + 1int).last() == all[i as int]);
            lemma_convert_partition_counts(
                all[i as int].points@,
                format,
                all[i as int].pointcloud.acquisition_start,
            );
            lemma_total_points_prefix(all, i + 1int);
        }
        out_points.append(&mut pts);
        dropped = dropped + (d as u64);
        i = i + 1;
    }
    proof {
        assert(all.take(all.len() as int) =~= all);
    }
    Ok(MergedOutput { header, points: out_points, dropped })
}

/// The record layout of one partition's own output stream, chosen from the
/// partition's own attribute flags.
pub open spec fn spec_split_format(pc: PointCloud, opts: ConversionOptions) -> PointFormat {
    PointFormat {
        id: spec_format_id(
            pc.has_color,
            pc.has_timestamp,
            spec_version_at_least_1_4(opts.las_version),
        ),
        has_color: pc.has_color,
        has_gps_time: pc.has_timestamp,
    }
}

/// What a split run produces for one partition: its own header, its
/// converted records, and its dropped-record count.
#[derive(Debug)]
pub struct SplitOutput {
    /// The header of this partition's own output stream.
    pub header: LasHeader,
    /// The partition's converted records, in record order.
    pub points: Vec<LasPoint>,
    /// How many of the partition's records were dropped for an invalid
    /// coordinate.
    pub dropped: u64,
}

/// One partition's split output is correct: its header comes from its own
/// metadata, its records are the partition's converted records in record
/// order, and its drop count is the partition's invalid-coordinate count.
pub open spec fn spec_split_output_ok(
    out: SplitOutput,
    pd: PartitionData,
    opts: ConversionOptions,
) -> bool {
    let format = spec_split_format(pd.pointcloud, opts);
    &&& out.header == spec_build_header(format, spec_global_bounds(pd.pointcloud), opts)
    &&& out.points@ == spec_convert_partition(
        pd.points@,
        format,
        pd.pointcloud.acquisition_start,
    )
    &&& out.dropped as int == spec_invalid_count(pd.points@)
}

/// Run a split conversion over in-memory partitions: each partition gets
/// its own header from its own metadata, and its records stay in their own
/// output, strictly ordered.
pub fn run_split(partitions: &Vec<PartitionData>, opts: &ConversionOptions) -> (r: Result<
    Vec<SplitOutput>,
    Error,
>)
    requires
        opts.is_valid(),
        forall|i: int| 0 <= i < partitions@.len() ==> #[trigger] partitions@[i].is_valid(),
    ensures
        r is Ok <==> spec_version_supported(opts.las_version),
        r is Err ==> r->Err_0 is InvalidLasVersion,
        r is Ok ==> r->Ok_0@.len() == partitions@.len(),
        r is Ok ==> forall|i: int|
            0 <= i < partitions@.len() ==> spec_split_output_ok(
                #[trigger] r->Ok_0@[i],
                partitions@[i],
                *opts,
            ),
{
    let (major, minor) = opts.las_version;
    if !(major == 1 && minor <= 4) {
        return Err(Error::InvalidLasVersion("must be between 1.0 and 1.4".to_owned()));
    }
    let ghost all = partitions@;
    let mut outs: Vec<SplitOutput> = Vec::new();
    let mut i: usize = 0;
    while i < partitions.len()
        invariant
            0 <= i <= all.len(),
            all == partitions@,
            forall|j: int| 0 <= j < all.len() ==> #[trigger] all[j].is_valid(),
            opts.is_valid(),
            spec_version_supported(opts.las_version),
            outs@.len() == i,
            forall|j: int|
                0 <= j < i ==> spec_split_output_ok(#[trigger] outs@[j], all[j], *opts),
        decreases all.len() - i,
    {
        let pd = &partitions[i];
        proof {
            assert(all[i as int].is_valid());
        }
        let header = match LasHeader::from_pointcloud(&pd.pointcloud, opts) {
            Ok(h) => h,
            Err(e) => {
                return Err(e);
            },
        };
        let (pts, d) = convert_pointcloud_points(
            &pd.points,
            header.point_format,
            pd.pointcloud.acquisition_start,
        );
        outs.push(SplitOutput { header, points: pts, dropped: d as u64 });
        i = i + 1;
    }
    Ok(outs)
}

} // verus!
