//! Relocation planner: validates that moving a partition to a new start
//! address is safe, and computes a memory-budget-aware chunked transfer
//! plan. Pure validation: nothing here touches the device, so a rejected
//! request provably issues no write.

use vstd::prelude::*;

use crate::errors::PartitionError;
use crate::gpt::{entry_used, GPTDisk, GPTPartition, GptEntryV, Guid};

verus! {

/// Bytes held back from the free-memory figure before sizing the scratch
/// buffer, so the move cannot starve firmware services of memory: 32 MiB.
pub const SAFETY_MARGIN_BYTES: u64 = 32 * 1024 * 1024;

/// The half-open candidate range `[new_start, new_start + len)` intersects
/// the closed extent `[first, last]`.
pub open spec fn ranges_overlap(new_start: int, len: int, first: int, last: int) -> bool {
    new_start <= last && first < new_start + len
}

/// The number of blocks a partition entry spans, its last block inclusive.
pub open spec fn spec_len_blocks(e: GptEntryV) -> int {
    e.last_lba - e.first_lba + 1
}

/// Entry `i` of the table blocks the candidate range: it is a used slot,
/// it is not the partition being moved, and its extent intersects the
/// candidate range.
pub open spec fn blocks_candidate(
    entries: Seq<GptEntryV>,
    i: int,
    target_guid: Guid,
    new_start: int,
    len: int,
) -> bool {
    &&& entry_used(entries[i])
    &&& entries[i].part_guid != target_guid
    &&& ranges_overlap(new_start, len, entries[i].first_lba as int, entries[i].last_lba as int)
}

/// Some other used partition's extent intersects the candidate range.
pub open spec fn spec_overlaps_other(
    entries: Seq<GptEntryV>,
    target_guid: Guid,
    new_start: int,
    len: int,
) -> bool {
    exists|i: int|
        0 <= i < entries.len() && #[trigger] blocks_candidate(entries, i, target_guid, new_start, len)
}

/// The candidate range runs past the last usable block of the device.
pub open spec fn spec_exceeds_device(new_start: int, len: int, last_usable: int) -> bool {
    new_start + len - 1 > last_usable
}

/// The move must be rejected with `Overlap`: the candidate range either
/// exceeds the device or intersects another partition.
pub open spec fn spec_move_blocked(
    entries: Seq<GptEntryV>,
    target: GptEntryV,
    new_start: u64,
    last_usable: u64,
) -> bool {
    ||| spec_exceeds_device(new_start as int, spec_len_blocks(target), last_usable as int)
    ||| spec_overlaps_other(entries, target.part_guid, new_start as int, spec_len_blocks(target))
}

/// The scratch-buffer size in bytes granted by the memory budget: the free
/// bytes minus the safety margin, rounded down to a whole number of device
/// blocks; zero when nothing block-sized fits.
pub open spec fn spec_chunk_bytes(free_bytes: u64, block_size: u32) -> int {
    if free_bytes <= SAFETY_MARGIN_BYTES {
        0
    } else {
        (free_bytes - SAFETY_MARGIN_BYTES) - ((free_bytes - SAFETY_MARGIN_BYTES) % (
        block_size as int))
    }
}

/// Sizes the scratch buffer from the currently free memory.
///
/// The result is always a multiple of `block_size` — a partial-block I/O
/// request is invalid on block interfaces — and never exceeds `free_bytes`
/// minus the safety margin.
pub fn compute_chunk_bytes(free_bytes: u64, block_size: u32) -> (r: u64)
    requires
        block_size >= 1,
    ensures
        r == spec_chunk_bytes(free_bytes, block_size),
        r % (block_size as u64) == 0,
        free_bytes > SAFETY_MARGIN_BYTES ==> r <= free_bytes - SAFETY_MARGIN_BYTES,
        free_bytes <= SAFETY_MARGIN_BYTES ==> r == 0,
{
    if free_bytes <= SAFETY_MARGIN_BYTES {
        0
    } else {
        let usable = free_bytes - SAFETY_MARGIN_BYTES;
        proof {
            assert(0 <= (usable as int) % (block_size as int) <= usable && (((usable as int) - (
            usable as int) % (block_size as int)) % (block_size as int)) == 0) by (nonlinear_arith)
                requires
                    block_size >= 1,
                    usable >= 0,
            ;
        }
        usable - usable % (block_size as u64)
    }
}

/// An ephemeral, single-use description of one chunked copy: constructed
/// immediately before a move, consumed once by the block mover, never
/// persisted.
#[derive(Clone, Copy, Debug, PartialEq, Eq, Structural)]
pub struct RelocationPlan {
    /// The GUID of the partition whose payload moves.
    pub target_guid: Guid,
    /// First block of the destination range.
    pub dest_start_lba: u64,
    /// Length of the partition payload, in blocks.
    pub len_blocks: u64,
    /// The device's I/O granularity in bytes.
    pub block_size: u32,
    /// Scratch-buffer size in bytes, block-aligned.
    pub chunk_bytes: u64,
    /// Scratch-buffer size in blocks.
    pub chunk_blocks: u64,
    /// Number of whole-chunk transfers.
    pub full_chunks: u64,
    /// Blocks left for the final, short transfer; zero when none is needed.
    pub remainder_blocks: u64,
}

/// The internal consistency a plan built by `plan` always has.
pub open spec fn plan_wf(p: RelocationPlan) -> bool {
    &&& p.block_size >= 1
    &&& p.len_blocks >= 1
    &&& p.chunk_blocks >= 1
    &&& p.chunk_bytes == p.chunk_blocks * p.block_size
    &&& p.full_chunks == p.len_blocks as int / p.chunk_blocks as int
    &&& p.remainder_blocks == p.len_blocks as int % p.chunk_blocks as int
}

/// The plan that `plan` builds when it accepts a request.
pub open spec fn spec_plan_value(target: GptEntryV, new_start: u64, free: u64, bs: u32) -> RelocationPlan {
    let len = spec_len_blocks(target) as u64;
    let cbytes = spec_chunk_bytes(free, bs) as u64;
    let cblocks = (cbytes as int / bs as int) as u64;
    RelocationPlan {
        target_guid: target.part_guid,
        dest_start_lba: new_start,
        len_blocks: len,
        block_size: bs,
        chunk_bytes: cbytes,
        chunk_blocks: cblocks,
        full_chunks: (len as int / cblocks as int) as u64,
        remainder_blocks: (len as int % cblocks as int) as u64,
    }
}

/// Validates a requested partition move and computes its transfer plan.
///
/// The overlap and memory checks both happen before any destructive write
/// is possible: this function only reads the table. `Overlap` is returned
/// exactly when the candidate range intersects another used partition's
/// extent or runs past the device's last usable block; `InsufficientMemory`
/// exactly when no block-sized scratch buffer fits in the budget.
pub fn plan(disk: &GPTDisk, target: &GPTPartition, new_start_lba: u64, free_bytes: u64) -> (r:
    Result<RelocationPlan, PartitionError>)
    requires
        disk.blocksize >= 1,
        target.first_lba <= target.last_lba,
        target.last_lba - target.first_lba < u64::MAX,
    ensures
        ({
            let blocked = spec_move_blocked(
                disk.partitions.deep_view(),
                target@,
                new_start_lba,
                disk.header.last_lba,
            );
            let chunk = spec_chunk_bytes(free_bytes, disk.blocksize);
            &&& (blocked <==> r == Err::<RelocationPlan, PartitionError>(PartitionError::Overlap))
            &&& (!blocked && chunk == 0 ==> r == Err::<RelocationPlan, PartitionError>(
                PartitionError::InsufficientMemory,
            ))
            &&& (!blocked && chunk != 0 ==> r == Ok::<RelocationPlan, PartitionError>(
                spec_plan_value(target@, new_start_lba, free_bytes, disk.blocksize),
            ))
            &&& (r matches Ok(p) ==> plan_wf(p))
        }),
{
    let ghost dv = disk.partitions.deep_view();
    let ghost len_spec = spec_len_blocks(target@);
    let len_minus_1 = target.last_lba - target.first_lba;
    let end: u128 = (new_start_lba as u128) + (len_minus_1 as u128);

    // The destination must stay within the usable area of the device.
    if end > (disk.header.last_lba as u128) {
        return Err(PartitionError::Overlap);
    }

    // No other used partition's extent may intersect the destination range.
    let n = disk.partitions.len();
    let mut i: usize = 0;
    while i < n
        invariant
            n == disk.partitions@.len(),
            dv == disk.partitions.deep_view(),
            i <= n,
            len_spec == spec_len_blocks(target@),
            len_minus_1 == target.last_lba - target.first_lba,
            end == new_start_lba + len_minus_1,
            forall|j: int|
                0 <= j < i ==> !#[trigger] blocks_candidate(
                    dv,
                    j,
                    target@.part_guid,
                    new_start_lba as int,
                    len_spec,
                ),
        decreases n - i,
    {
        let e = &disk.partitions[i];
        if (e.part_type_guid.time_low != 0 || e.part_type_guid.time_mid != 0
            || e.part_type_guid.time_high != 0 || e.part_type_guid.tail != 0) && !(e.part_guid
            == target.part_guid) {
            if new_start_lba <= e.last_lba && (e.first_lba as u128) <= end {
                proof {
                    assert(blocks_candidate(
                        dv,
                        i as int,
                        target@.part_guid,
                        new_start_lba as int,
                        len_spec,
                    ));
                }
                return Err(PartitionError::Overlap);
            }
        }
        i = i + 1;
    }

    // Size the scratch buffer from what is free right now; the budget is
    // recomputed per operation because boot-time free memory varies.
    let chunk_bytes = compute_chunk_bytes(free_bytes, disk.blocksize);
    if chunk_bytes == 0 {
        return Err(PartitionError::InsufficientMemory);
    }
    let bs = disk.blocksize as u64;
    let chunk_blocks = chunk_bytes / bs;
    let len_blocks = len_minus_1 + 1;
    proof {
        assert(chunk_bytes >= bs && chunk_bytes / bs >= 1) by (nonlinear_arith)
            requires
                bs >= 1,
                chunk_bytes > 0,
                chunk_bytes % bs == 0,
        ;
        assert(chunk_blocks * bs == chunk_bytes) by (nonlinear_arith)
            requires
                bs >= 1,
                chunk_blocks == chunk_bytes / bs,
                chunk_bytes % bs == 0,
        ;
    }
    let full_chunks = len_blocks / chunk_blocks;
    let remainder_blocks = len_blocks % chunk_blocks;
    Ok(
        RelocationPlan {
            target_guid: target.part_guid(),
            dest_start_lba: new_start_lba,
            len_blocks,
            block_size: disk.blocksize,
            chunk_bytes,
            chunk_blocks,
            full_chunks,
            remainder_blocks,
        },
    )
}

} // verus!
