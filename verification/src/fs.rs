//! The filesystem-facing surface: a raw file read out of a partition, and
//! the trait a filesystem content driver implements over one partition's
//! extent.

use vstd::prelude::*;

verus! {

/// A file's content as read from a partition, together with its path and
/// size.
pub struct RawFile {
    pub path: String,
    pub size: usize,
    pub data: Vec<u8>,
}

/// What a filesystem content driver offers over one partition's extent on
/// one device.
pub trait Filesystem: Sized {
    /// Opens the filesystem spanning `lba_start..=lba_end` on the device
    /// named by `media_id`.
    fn new(media_id: u32, lba_start: u64, lba_end: u64) -> Self;

    /// Reads the file at `path` out of the filesystem.
    fn get_file(&self, path: String) -> RawFile;
}

} // verus!
