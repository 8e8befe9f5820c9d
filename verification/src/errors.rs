//! Error taxonomy for partition-table parsing and relocation planning.

use vstd::prelude::*;

verus! {

/// Every failure a caller can see, kept distinguishable so that an
/// unattended caller can decide between retrying, aborting and alerting.
#[derive(Clone, Copy, Debug, PartialEq, Eq, Structural)]
pub enum PartitionError {
    /// The 512-byte boot sector lacks the `55 AA` legacy signature.
    InvalidSignature,
    /// The GPT header does not start with the `EFI PART` signature.
    BadSignature,
    /// A stored CRC32 does not match the checksum recomputed over the data.
    ChecksumMismatch,
    /// A partition-entry array buffer is too short for the declared entries.
    Truncated,
    /// A requested destination range intersects another partition or runs
    /// past the last usable block of the device.
    Overlap,
    /// No block-aligned scratch buffer fits in the memory budget.
    InsufficientMemory,
    /// No known device carries the requested media identity.
    DeviceNotFound,
    /// The device reported an error while reading blocks.
    ReadFailure,
    /// The device reported an error while writing blocks.
    WriteFailure,
}

} // verus!
