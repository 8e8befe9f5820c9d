//! Relocation and exchange of GPT partitions: the decision layer that
//! turns a requested move or swap into a validated plan, a transfer
//! schedule, and the updated partition-entry array. The surrounding
//! program performs the scheduled block transfers and writes the entry
//! array back only after every data transfer of an operation succeeded.

use vstd::prelude::*;

use crate::errors::PartitionError;
use crate::gpt::{GPTDisk, GPTPartition, GptEntryV, Guid};
use crate::mover::{relocation_steps, spec_num_steps, spec_step, spec_total_blocks, CopyStep};
use crate::planner::{
    plan, plan_wf, spec_chunk_bytes, spec_len_blocks, spec_move_blocked, spec_plan_value,
    RelocationPlan,
};
use vstd::slice::slice_to_vec;

verus! {

/// Everything one relocation leg needs: the validated plan, the exact
/// transfer schedule, and the partition-entry array as it must read after
/// the leg's data transfers have all succeeded.
#[derive(Debug)]
pub struct MovePlan {
    pub plan: RelocationPlan,
    pub steps: Vec<CopyStep>,
    pub updated_partitions: Vec<GPTPartition>,
}

/// `e` with its position fields replaced.
pub open spec fn spec_with_pos(e: GptEntryV, first: u64, last: u64) -> GptEntryV {
    GptEntryV { first_lba: first, last_lba: last, ..e }
}

/// The entry array after moving the partition named `guid` to start at
/// `new_start`, keeping its length of `len_minus_1 + 1` blocks; every
/// other entry is untouched.
pub open spec fn spec_move_entry(e: GptEntryV, guid: Guid, new_start: u64, len_minus_1: u64) -> GptEntryV {
    if e.part_guid == guid {
        spec_with_pos(e, new_start, (new_start + len_minus_1) as u64)
    } else {
        e
    }
}

/// Pointwise application of `spec_move_entry` over a whole entry array.
pub open spec fn spec_move_entries(
    entries: Seq<GptEntryV>,
    guid: Guid,
    new_start: u64,
    len_minus_1: u64,
) -> Seq<GptEntryV> {
    Seq::new(entries.len(), |i: int| spec_move_entry(entries[i], guid, new_start, len_minus_1))
}

/// `mp` is exactly the relocation that moving `target` within `entries`
/// to `new_start` demands, sourced at `src`.
pub open spec fn move_plan_matches(
    mp: MovePlan,
    entries: Seq<GptEntryV>,
    target: GptEntryV,
    new_start: u64,
    free: u64,
    bs: u32,
    src: u64,
) -> bool {
    &&& mp.plan == spec_plan_value(target, new_start, free, bs)
    &&& plan_wf(mp.plan)
    &&& mp.steps@.len() == spec_num_steps(mp.plan)
    &&& (forall|i: int|
        0 <= i < mp.steps@.len() ==> #[trigger] mp.steps@[i] == spec_step(
            mp.plan,
            src,
            new_start,
            i,
        ))
    &&& spec_total_blocks(mp.steps@) == mp.plan.len_blocks
    &&& mp.updated_partitions.deep_view() == spec_move_entries(
        entries,
        target.part_guid,
        new_start,
        (target.last_lba - target.first_lba) as u64,
    )
}

/// A value copy of one entry, equal in view to the original.
fn clone_partition(e: &GPTPartition) -> (r: GPTPartition)
    ensures
        r@ == e@,
{
    GPTPartition {
        part_type_guid: e.part_type_guid,
        part_guid: e.part_guid,
        first_lba: e.first_lba,
        last_lba: e.last_lba,
        attr_flags: e.attr_flags,
        part_name: slice_to_vec(e.part_name.as_slice()),
    }
}

/// A value copy of a whole entry array, equal in view to the original.
fn clone_partitions(v: &Vec<GPTPartition>) -> (out: Vec<GPTPartition>)
    ensures
        out.deep_view() == v.deep_view(),
{
    let mut out: Vec<GPTPartition> = Vec::new();
    let n = v.len();
    let mut i: usize = 0;
    while i < n
        invariant
            n == v@.len(),
            i <= n,
            out.deep_view().len() == i,
            forall|j: int| 0 <= j < i ==> out.deep_view()[j] == #[trigger] v.deep_view()[j],
        decreases n - i,
    {
        let ghost prev = out.deep_view();
        out.push(clone_partition(&v[i]));
        proof {
            assert(out.deep_view() =~= prev.push(v@[i as int]@));
        }
        i = i + 1;
    }
    proof {
        assert(out.deep_view() =~= v.deep_view());
    }
    out
}

/// Rewrites the entry array for a completed move of the partition named
/// `guid` to `new_start`.
fn apply_move(
    partitions: &Vec<GPTPartition>,
    guid: Guid,
    new_start: u64,
    len_minus_1: u64,
) -> (out: Vec<GPTPartition>)
    requires
        new_start + len_minus_1 <= u64::MAX,
    ensures
        out.deep_view() == spec_move_entries(partitions.deep_view(), guid, new_start, len_minus_1),
{
    let mut out: Vec<GPTPartition> = Vec::new();
    let n = partitions.len();
    let mut i: usize = 0;
    while i < n
        invariant
            new_start + len_minus_1 <= u64::MAX,
            n == partitions@.len(),
            i <= n,
            out.deep_view().len() == i,
            forall|j: int|
                0 <= j < i ==> out.deep_view()[j] == spec_move_entry(
                    #[trigger] partitions.deep_view()[j],
                    guid,
                    new_start,
                    len_minus_1,
                ),
        decreases n - i,
    {
        let e = &partitions[i];
        let ghost prev = out.deep_view();
        if e.part_guid == guid {
            out.push(
                GPTPartition {
                    part_type_guid: e.part_type_guid,
                    part_guid: e.part_guid,
                    first_lba: new_start,
                    last_lba: new_start + len_minus_1,
                    attr_flags: e.attr_flags,
                    part_name: slice_to_vec(e.part_name.as_slice()),
                },
            );
        } else {
            out.push(clone_partition(e));
        }
        proof {
            assert(out.deep_view() =~= prev.push(
                spec_move_entry(partitions@[i as int]@, guid, new_start, len_minus_1),
            ));
        }
        i = i + 1;
    }
    proof {
        assert(out.deep_view() =~= spec_move_entries(
            partitions.deep_view(),
            guid,
            new_start,
            len_minus_1,
        ));
    }
    out
}

/// Plans a move of one GPT partition to begin at a different block address.
///
/// Validation happens before anything destructive: `Overlap` exactly when
/// the destination range intersects another used partition or runs past
/// the device's last usable block, `InsufficientMemory` exactly when no
/// block-sized scratch buffer fits. On success the result carries the
/// plan, the ordered transfer schedule, and the entry array to write back
/// once all transfers have succeeded.
pub fn move_gpt_partition_safe(
    disk: &GPTDisk,
    target: &GPTPartition,
    new_lba_start: u64,
    free_bytes: u64,
) -> (r: Result<MovePlan, PartitionError>)
    requires
        disk.blocksize >= 1,
        target.first_lba <= target.last_lba,
        target.last_lba - target.first_lba < u64::MAX,
    ensures
        ({
            let blocked = spec_move_blocked(
                disk.partitions.deep_view(),
                target@,
                new_lba_start,
                disk.header.last_lba,
            );
            let chunk = spec_chunk_bytes(free_bytes, disk.blocksize);
            &&& (blocked <==> r == Err::<MovePlan, PartitionError>(PartitionError::Overlap))
            &&& (!blocked && chunk == 0 ==> r == Err::<MovePlan, PartitionError>(
                PartitionError::InsufficientMemory,
            ))
            &&& (!blocked && chunk != 0 ==> r is Ok)
            &&& (r matches Ok(mp) ==> move_plan_matches(
                mp,
                disk.partitions.deep_view(),
                target@,
                new_lba_start,
                free_bytes,
                disk.blocksize,
                target@.first_lba,
            ))
        }),
{
    let p = match plan(disk, target, new_lba_start, free_bytes) {
        Ok(p) => p,
        Err(e) => { return Err(e) },
    };
    let len_minus_1 = target.last_lba - target.first_lba;
    proof {
        assert(p.len_blocks == spec_len_blocks(target@));
        assert(target.first_lba + p.len_blocks - 1 == target.last_lba);
        assert(new_lba_start + p.len_blocks - 1 <= disk.header.last_lba);
    }
    let steps = relocation_steps(&p, target.first_lba, new_lba_start);
    let updated = apply_move(&disk.partitions, target.part_guid, new_lba_start, len_minus_1);
    Ok(MovePlan { plan: p, steps, updated_partitions: updated })
}

/// The entry array after a metadata-only exchange of the two partitions'
/// position fields: entries carrying `a`'s GUID take `b`'s extent, entries
/// carrying `b`'s GUID take `a`'s extent, all others are untouched.
pub open spec fn spec_fast_swap(entries: Seq<GptEntryV>, a: GptEntryV, b: GptEntryV) -> Seq<GptEntryV> {
    Seq::new(
        entries.len(),
        |i: int|
            if entries[i].part_guid == a.part_guid {
                spec_with_pos(entries[i], b.first_lba, b.last_lba)
            } else if entries[i].part_guid == b.part_guid {
                spec_with_pos(entries[i], a.first_lba, a.last_lba)
            } else {
                entries[i]
            },
    )
}

/// Rewrites the entry array for a metadata-only swap.
fn apply_fast_swap(
    partitions: &Vec<GPTPartition>,
    part_1: &GPTPartition,
    part_2: &GPTPartition,
) -> (out: Vec<GPTPartition>)
    ensures
        out.deep_view() == spec_fast_swap(partitions.deep_view(), part_1@, part_2@),
{
    let mut out: Vec<GPTPartition> = Vec::new();
    let n = partitions.len();
    let mut i: usize = 0;
    while i < n
        invariant
            n == partitions@.len(),
            i <= n,
            out.deep_view().len() == i,
            forall|j: int|
                0 <= j < i ==> out.deep_view()[j] == spec_fast_swap(
                    partitions.deep_view(),
                    part_1@,
                    part_2@,
                )[j],
        decreases n - i,
    {
        let e = &partitions[i];
        let ghost prev = out.deep_view();
        if e.part_guid == part_1.part_guid {
            out.push(
                GPTPartition {
                    part_type_guid: e.part_type_guid,
                    part_guid: e.part_guid,
                    first_lba: part_2.first_lba,
                    last_lba: part_2.last_lba,
                    attr_flags: e.attr_flags,
                    part_name: slice_to_vec(e.part_name.as_slice()),
                },
            );
        } else if e.part_guid == part_2.part_guid {
            out.push(
                GPTPartition {
                    part_type_guid: e.part_type_guid,
                    part_guid: e.part_guid,
                    first_lba: part_1.first_lba,
                    last_lba: part_1.last_lba,
                    attr_flags: e.attr_flags,
                    part_name: slice_to_vec(e.part_name.as_slice()),
                },
            );
        } else {
            out.push(clone_partition(e));
        }
        proof {
            assert(out.deep_view() =~= prev.push(
                spec_fast_swap(partitions.deep_view(), part_1@, part_2@)[i as int],
            ));
        }
        i = i + 1;
    }
    proof {
        assert(out.deep_view() =~= spec_fast_swap(partitions.deep_view(), part_1@, part_2@));
    }
    out
}

/// The outcome of planning a swap: either a metadata-only exchange of the
/// two entries' positions, or two relocation legs whose transfers must
/// both succeed before the final entry array is written, exactly once.
#[derive(Debug)]
pub enum SwapPlan {
    /// Equal payload lengths: only the entry array changes; no payload
    /// bytes move.
    Fast { updated_partitions: Vec<GPTPartition> },
    /// Unequal payload lengths: the first partition's payload moves to the
    /// caller-chosen scratch area, then the second partition's payload
    /// moves to the first's old start. The final entry array is the one of
    /// `leg_b`.
    Slow { leg_a: MovePlan, leg_b: MovePlan },
}

/// Plans the exchange of two GPT partitions' positions.
///
/// When the two payloads have the same length, the swap is metadata-only:
/// rewriting potentially gigabytes of payload to exchange equally sized
/// partitions would be pure waste. Otherwise two relocation legs are
/// planned: the first partition's payload leaves for `scratch_lba` so that
/// the second's can take over its old start; growing one partition into
/// the other's space necessarily displaces the other's data first. Either
/// leg's validation failure is reported before any transfer is scheduled.
pub fn swap_gpt_partitions(
    disk: &GPTDisk,
    part_1: &GPTPartition,
    part_2: &GPTPartition,
    free_bytes: u64,
    scratch_lba: u64,
) -> (r: Result<SwapPlan, PartitionError>)
    requires
        disk.blocksize >= 1,
        part_1@.part_guid != part_2@.part_guid,
        part_1.first_lba <= part_1.last_lba,
        part_1.last_lba - part_1.first_lba < u64::MAX,
        part_2.first_lba <= part_2.last_lba,
        part_2.last_lba - part_2.first_lba < u64::MAX,
    ensures
        ({
            let dv = disk.partitions.deep_view();
            let len_eq = spec_len_blocks(part_1@) == spec_len_blocks(part_2@);
            let blocked_a = spec_move_blocked(dv, part_1@, scratch_lba, disk.header.last_lba);
            let chunk = spec_chunk_bytes(free_bytes, disk.blocksize);
            let dv1 = spec_move_entries(
                dv,
                part_1@.part_guid,
                scratch_lba,
                (part_1@.last_lba - part_1@.first_lba) as u64,
            );
            let blocked_b = spec_move_blocked(dv1, part_2@, part_1@.first_lba, disk.header.last_lba);
            &&& (len_eq ==> (r matches Ok(sp) && sp matches SwapPlan::Fast { updated_partitions }
                && updated_partitions.deep_view() == spec_fast_swap(dv, part_1@, part_2@)))
            &&& (!len_eq && blocked_a ==> r == Err::<SwapPlan, PartitionError>(
                PartitionError::Overlap,
            ))
            &&& (!len_eq && !blocked_a && chunk == 0 ==> r == Err::<SwapPlan, PartitionError>(
                PartitionError::InsufficientMemory,
            ))
            &&& (!len_eq && !blocked_a && chunk != 0 && blocked_b ==> r == Err::<
                SwapPlan,
                PartitionError,
            >(PartitionError::Overlap))
            &&& (!len_eq && !blocked_a && chunk != 0 && !blocked_b ==> (r matches Ok(sp)
                && sp matches SwapPlan::Slow { leg_a, leg_b } && move_plan_matches(
                leg_a,
                dv,
                part_1@,
                scratch_lba,
                free_bytes,
                disk.blocksize,
                part_1@.first_lba,
            ) && move_plan_matches(
                leg_b,
                dv1,
                part_2@,
                part_1@.first_lba,
                free_bytes,
                disk.blocksize,
                part_2@.first_lba,
            )))
        }),
{
    let len1_minus_1 = part_1.last_lba - part_1.first_lba;
    let len2_minus_1 = part_2.last_lba - part_2.first_lba;
    if len1_minus_1 == len2_minus_1 {
        let updated = apply_fast_swap(&disk.partitions, part_1, part_2);
        return Ok(SwapPlan::Fast { updated_partitions: updated });
    }
    let leg_a = match move_gpt_partition_safe(disk, part_1, scratch_lba, free_bytes) {
        Ok(m) => m,
        Err(e) => { return Err(e) },
    };
    let disk1 = GPTDisk {
        media_id: disk.media_id,
        blocksize: disk.blocksize,
        header: disk.header,
        partitions: clone_partitions(&leg_a.updated_partitions),
    };
    let leg_b = match move_gpt_partition_safe(&disk1, part_2, part_1.first_lba, free_bytes) {
        Ok(m) => m,
        Err(e) => { return Err(e) },
    };
    Ok(SwapPlan::Slow { leg_a, leg_b })
}

/// Swapping two equal-length partitions twice returns the entry array to
/// its original values exactly: the second metadata-only swap, applied to
/// the entries as the first left them, undoes the first. The positions
/// handed to the second swap are those the two partitions hold after the
/// first swap.
pub proof fn lemma_fast_swap_twice(entries: Seq<GptEntryV>, a: GptEntryV, b: GptEntryV)
    requires
        a.part_guid != b.part_guid,
        forall|k: int|
            0 <= k < entries.len() && (#[trigger] entries[k]).part_guid == a.part_guid
                ==> entries[k].first_lba == a.first_lba && entries[k].last_lba == a.last_lba,
        forall|k: int|
            0 <= k < entries.len() && (#[trigger] entries[k]).part_guid == b.part_guid
                ==> entries[k].first_lba == b.first_lba && entries[k].last_lba == b.last_lba,
    ensures
        spec_fast_swap(
            spec_fast_swap(entries, a, b),
            spec_with_pos(a, b.first_lba, b.last_lba),
            spec_with_pos(b, a.first_lba, a.last_lba),
        ) == entries,
{
    let once = spec_fast_swap(entries, a, b);
    let a2 = spec_with_pos(a, b.first_lba, b.last_lba);
    let b2 = spec_with_pos(b, a.first_lba, a.last_lba);
    let twice = spec_fast_swap(once, a2, b2);
    assert forall|k: int| 0 <= k < entries.len() implies twice[k] == entries[k] by {
        assert(once[k] == (if entries[k].part_guid == a.part_guid {
            spec_with_pos(entries[k], b.first_lba, b.last_lba)
        } else if entries[k].part_guid == b.part_guid {
            spec_with_pos(entries[k], a.first_lba, a.last_lba)
        } else {
            entries[k]
        }));
    }
    assert(twice =~= entries);
}

} // verus!
