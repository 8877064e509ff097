//! Planning and bookkeeping logic of the dataprep packing tools: benchmark
//! records, file partitioning, and unpacking, each written as verified
//! decisions that the I/O layer drives.

pub mod bencher;
pub mod cli;
pub mod fs_partition;
pub mod pack_plan;
pub mod paths;
pub mod types;
pub mod unpack;
pub mod unpack_to_disk;
