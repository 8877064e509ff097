//! The commands of the benchmarking tool.

use vstd::prelude::*;

verus! {

/// A command of the benchmarking tool.
#[derive(Clone, Debug)]
pub enum Commands {
    /// Pack a directory.
    Pack {
        /// Input directories and files.
        input_dir: String,
        /// Output directory.
        output_dir: String,
        /// Manifest file location.
        manifest_file: String,
        /// Target chunk size.
        target_chunk_size: u64,
        /// Follow symlinks.
        follow_links: bool,
    },
    /// Unpack a directory.
    Unpack {
        /// Input file root.
        input_dir: String,
        /// Where to get the manifest file.
        manifest_file: String,
        /// Output directory to repopulate with reinflated files.
        output_dir: String,
    },
}

/// The command line of the benchmarking tool.
#[derive(Clone, Debug)]
pub struct Args {
    /// The command to run.
    pub command: Commands,
}

} // verus!
