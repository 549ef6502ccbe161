[package]
name = "e57_to_las"
version = "0.1.0"
edition = "2021"
publish = false

[dependencies]
anyhow = "*"
e57 = "*"
las = "*"
num_cpus = "*"
rayon = "*"
serde = { version = "*", features = ["derive"] }
serde_json = "*"
thiserror = "*"
uuid = { version = "*", features = ["v4"] }
