//! Block mover schedule: the exact sequence of chunked read/write
//! transfers that carries one partition payload to its destination. The
//! schedule is computed and proved here; the surrounding program performs
//! each step against the device, in order, reusing one scratch buffer.

use vstd::prelude::*;

use crate::planner::{plan_wf, RelocationPlan};

verus! {

/// One transfer: read `blocks` blocks starting at `read_lba` into the
/// scratch buffer, then write them starting at `write_lba`.
#[derive(Clone, Copy, Debug, PartialEq, Eq, Structural)]
pub struct CopyStep {
    pub read_lba: u64,
    pub write_lba: u64,
    pub blocks: u64,
}

/// How many transfers a plan needs: its full chunks, plus one short final
/// transfer when a remainder is left.
pub open spec fn spec_num_steps(p: RelocationPlan) -> int {
    p.full_chunks + if p.remainder_blocks > 0 {
        1int
    } else {
        0int
    }
}

/// The `i`-th transfer of a plan, reading from the source extent and
/// writing to the destination extent at matching offsets.
pub open spec fn spec_step(p: RelocationPlan, src: u64, dest: u64, i: int) -> CopyStep {
    CopyStep {
        read_lba: (src + i * p.chunk_blocks) as u64,
        write_lba: (dest + i * p.chunk_blocks) as u64,
        blocks: if i < p.full_chunks {
            p.chunk_blocks
        } else {
            p.remainder_blocks
        },
    }
}

/// The total number of blocks a schedule transfers.
pub open spec fn spec_total_blocks(steps: Seq<CopyStep>) -> int
    decreases steps.len(),
{
    if steps.len() == 0 {
        0
    } else {
        spec_total_blocks(steps.drop_last()) + steps.last().blocks
    }
}

/// Computes the full transfer schedule for a plan.
///
/// The schedule covers the payload exactly: writes are issued in strictly
/// increasing block order, consecutive writes are contiguous, every write
/// stays inside the destination extent, each read sits at the same offset
/// within the source extent as its write within the destination, and the
/// step lengths sum to the payload length.
pub fn relocation_steps(p: &RelocationPlan, source_start_lba: u64, dest_start_lba: u64) -> (steps:
    Vec<CopyStep>)
    requires
        plan_wf(*p),
        source_start_lba + p.len_blocks - 1 <= u64::MAX,
        dest_start_lba + p.len_blocks - 1 <= u64::MAX,
    ensures
        steps@.len() == spec_num_steps(*p),
        forall|i: int|
            0 <= i < steps@.len() ==> steps@[i] == spec_step(*p, source_start_lba, dest_start_lba, i),
        forall|i: int| 0 <= i < steps@.len() ==> 1 <= (#[trigger] steps@[i]).blocks,
        forall|i: int|
            0 <= i < steps@.len() ==> dest_start_lba <= (#[trigger] steps@[i]).write_lba
                && steps@[i].write_lba + steps@[i].blocks <= dest_start_lba + p.len_blocks,
        forall|i: int|
            0 <= i < steps@.len() ==> (#[trigger] steps@[i]).read_lba - source_start_lba
                == steps@[i].write_lba - dest_start_lba,
        forall|i: int|
            0 <= i < steps@.len() - 1 ==> (#[trigger] steps@[i]).write_lba + steps@[i].blocks
                == steps@[i + 1].write_lba,
        spec_total_blocks(steps@) == p.len_blocks,
{
    proof {
        vstd::arithmetic::div_mod::lemma_fundamental_div_mod(
            p.len_blocks as int,
            p.chunk_blocks as int,
        );
        assert(p.len_blocks as int == p.chunk_blocks * p.full_chunks + p.remainder_blocks);
        if p.remainder_blocks > 0 {
            assert(p.full_chunks < u64::MAX) by (nonlinear_arith)
                requires
                    p.chunk_blocks >= 1,
                    p.remainder_blocks >= 1,
                    p.remainder_blocks < p.chunk_blocks,
                    p.len_blocks as int == p.chunk_blocks * p.full_chunks + p.remainder_blocks,
                    p.len_blocks <= u64::MAX,
                    p.full_chunks >= 0,
            ;
        }
    }
    let n_steps: u64 = if p.remainder_blocks > 0 {
        p.full_chunks + 1
    } else {
        p.full_chunks
    };
    let mut steps: Vec<CopyStep> = Vec::new();
    let mut i: u64 = 0;
    while i < n_steps
        invariant
            plan_wf(*p),
            source_start_lba + p.len_blocks - 1 <= u64::MAX,
            dest_start_lba + p.len_blocks - 1 <= u64::MAX,
            p.len_blocks as int == p.chunk_blocks * p.full_chunks + p.remainder_blocks,
            n_steps == spec_num_steps(*p),
            i <= n_steps,
            steps@.len() == i,
            forall|j: int|
                0 <= j < i ==> steps@[j] == spec_step(*p, source_start_lba, dest_start_lba, j),
            spec_total_blocks(steps@) == if i <= p.full_chunks {
                (i as int) * (p.chunk_blocks as int)
            } else {
                p.len_blocks as int
            },
        decreases n_steps - i,
    {
        proof {
            assert((i as int) * (p.chunk_blocks as int) + p.chunk_blocks <= p.chunk_blocks
                * p.full_chunks + p.remainder_blocks || i == p.full_chunks) by (nonlinear_arith)
                requires
                    i < spec_num_steps(*p),
                    spec_num_steps(*p) == p.full_chunks + if p.remainder_blocks > 0 {
                        1int
                    } else {
                        0int
                    },
                    p.chunk_blocks >= 1,
                    0 <= p.remainder_blocks < p.chunk_blocks,
                    0 <= i,
                    0 <= p.full_chunks,
            ;
            assert(i == p.full_chunks ==> (i as int) * (p.chunk_blocks as int) == p.chunk_blocks
                * p.full_chunks) by (nonlinear_arith);
            assert((i as int + 1) * (p.chunk_blocks as int) == (i as int) * (p.chunk_blocks as int)
                + p.chunk_blocks) by (nonlinear_arith);
        }
        let off = i * p.chunk_blocks;
        let blocks = if i < p.full_chunks {
            p.chunk_blocks
        } else {
            p.remainder_blocks
        };
        let step = CopyStep {
            read_lba: source_start_lba + off,
            write_lba: dest_start_lba + off,
            blocks,
        };
        let ghost prev = steps@;
        steps.push(step);
        proof {
            assert(steps@.drop_last() =~= prev);
        }
        i = i + 1;
    }
    proof {
        assert forall|k: int| 0 <= k < steps@.len() implies {
            let st = #[trigger] steps@[k];
            &&& dest_start_lba <= st.write_lba
            &&& st.write_lba + st.blocks <= dest_start_lba + p.len_blocks
            &&& st.read_lba - source_start_lba == st.write_lba - dest_start_lba
        } by {
            assert(steps@[k] == spec_step(*p, source_start_lba, dest_start_lba, k));
            assert(0 <= k * p.chunk_blocks && k * p.chunk_blocks + (if k < p.full_chunks {
                p.chunk_blocks as int
            } else {
                p.remainder_blocks as int
            }) <= p.len_blocks) by (nonlinear_arith)
                requires
                    0 <= k < spec_num_steps(*p),
                    spec_num_steps(*p) == p.full_chunks + if p.remainder_blocks > 0 {
                        1int
                    } else {
                        0int
                    },
                    p.len_blocks as int == p.chunk_blocks * p.full_chunks + p.remainder_blocks,
                    p.chunk_blocks >= 1,
                    0 <= p.remainder_blocks < p.chunk_blocks,
                    0 <= p.full_chunks,
            ;
        }
        assert forall|k: int|
            0 <= k < steps@.len() - 1 implies (#[trigger] steps@[k]).write_lba + steps@[k].blocks
            == steps@[k + 1].write_lba by {
            assert(steps@[k] == spec_step(*p, source_start_lba, dest_start_lba, k));
            assert(steps@[k + 1] == spec_step(*p, source_start_lba, dest_start_lba, k + 1));
            assert(k + 1 <= p.full_chunks);
            assert(0 <= k * p.chunk_blocks && (k + 1) * (p.chunk_blocks as int) == k * (
            p.chunk_blocks as int) + p.chunk_blocks && (k + 1) * (p.chunk_blocks as int)
                <= p.len_blocks - 1) by (nonlinear_arith)
                requires
                    0 <= k,
                    k + 1 <= p.full_chunks,
                    k + 1 < spec_num_steps(*p),
                    spec_num_steps(*p) == p.full_chunks + if p.remainder_blocks > 0 {
                        1int
                    } else {
                        0int
                    },
                    p.len_blocks as int == p.chunk_blocks * p.full_chunks + p.remainder_blocks,
                    p.chunk_blocks >= 1,
                    0 <= p.remainder_blocks < p.chunk_blocks,
                    0 <= p.full_chunks,
            ;
        }
    }
    steps
}

} // verus!
