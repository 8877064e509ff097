//! The plan that packing builds up for each group of files.

use crate::types::{CompressionScheme, EncryptionScheme, PartitionScheme, SpiderMetadata};
use std::sync::Arc;
use vstd::prelude::*;

verus! {

/// The data processing steps for a file.
#[derive(Clone, Debug)]
pub struct PackPlan {
    /// How the file is compressed.
    pub compression: CompressionScheme,
    /// How the file is partitioned.
    pub partition: PartitionScheme,
    /// How the file is encrypted.
    pub encryption: EncryptionScheme,
    /// The directory that the packed files are written to.
    pub writeout: String,
}

/// How a file system entry is packed: a directory or a symbolic link is only
/// recreated, while a group of identical files goes through compression,
/// partitioning and encryption once.
#[derive(Clone, Debug)]
pub enum PackPipelinePlan {
    /// A directory: create it.
    Directory(Arc<SpiderMetadata>),
    /// A symbolic link: create it, pointing at the given location.
    Symlink(Arc<SpiderMetadata>, String),
    /// A group of identical files, and how they are processed.
    FileGroup(Vec<Arc<SpiderMetadata>>, PackPlan),
}

} // verus!
