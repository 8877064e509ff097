//! Plain models of what the pipelines read of the file system and of the
//! packing schemes.

use vstd::prelude::*;

verus! {

/// What the pipelines read of a file's metadata.
#[derive(Clone, Copy, Debug, PartialEq, Eq, Structural)]
pub struct FileMetadata {
    /// The entry is a directory.
    pub is_dir: bool,
    /// The entry is a symbolic link.
    pub is_symlink: bool,
    /// The size of the file in bytes.
    pub len: u64,
}

/// What the spider recorded of a file system entry.
#[derive(Clone, Debug)]
pub struct SpiderMetadata {
    /// The root directory that the spider walked.
    pub original_root: String,
    /// The location of the entry, relative to the root.
    pub original_location: String,
    /// The canonical path of the entry.
    pub canonicalized_path: String,
    /// The entry's metadata.
    pub original_metadata: FileMetadata,
}

/// How a file is compressed.
#[derive(Clone, Debug)]
pub struct CompressionScheme {
    /// The name of the compression algorithm (such as `ZSTD`).
    pub compression_info: String,
}

/// How a file is cut into chunks.
#[derive(Clone, Copy, Debug, PartialEq, Eq, Structural)]
pub struct PartitionScheme {
    /// The size of a chunk in bytes.
    pub chunk_size: u64,
    /// The number of chunks.
    pub num_chunks: u64,
}

/// How a file is encrypted.
#[derive(Clone, Debug)]
pub struct EncryptionScheme {
    /// The age identity (secret key, in its text form) that decrypts the file.
    pub identity: String,
}

/// Where the packed chunks of a file are.
#[derive(Clone, Debug)]
pub struct WriteoutScheme {
    /// The location of each chunk, in order.
    pub chunk_locations: Vec<String>,
}

} // verus!
