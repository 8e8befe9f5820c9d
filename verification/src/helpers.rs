//! Small helpers around device discovery: the record a boot-sector scan
//! hands back for each device, and the free-memory tally that sizes the
//! relocation scratch buffer.

use vstd::prelude::*;

verus! {

/// One device's boot sector together with the media identity it was read
/// from, so the two always travel together.
pub struct BootRecord {
    pub data: [u8; 512],
    pub media_id: u32,
}

/// The sum of a sequence of page counts.
pub open spec fn spec_sum_pages(s: Seq<u64>) -> int
    decreases s.len(),
{
    if s.len() == 0 {
        0
    } else {
        spec_sum_pages(s.drop_last()) + s.last()
    }
}

/// Totals the page counts of a memory map's descriptors: the free-RAM
/// figure, in pages, that the relocation planner's memory budget starts
/// from. `None` when the total cannot be represented.
pub fn free_ram_pages(page_counts: &Vec<u64>) -> (r: Option<u64>)
    ensures
        spec_sum_pages(page_counts@) <= u64::MAX ==> r == Some(spec_sum_pages(page_counts@) as u64),
        spec_sum_pages(page_counts@) > u64::MAX ==> r is None,
{
    let mut total: u64 = 0;
    let n = page_counts.len();
    let mut i: usize = 0;
    while i < n
        invariant
            n == page_counts@.len(),
            i <= n,
            total == spec_sum_pages(page_counts@.take(i as int)),
        decreases n - i,
    {
        proof {
            assert(page_counts@.take(i + 1).drop_last() =~= page_counts@.take(i as int));
            lemma_sum_pages_monotonic(page_counts@, i + 1);
        }
        let c = page_counts[i];
        if c > u64::MAX - total {
            return None;
        }
        total = total + c;
        i = i + 1;
    }
    proof {
        assert(page_counts@.take(n as int) =~= page_counts@);
    }
    Some(total)
}

/// Every prefix sum of nonnegative page counts is at most the whole sum.
proof fn lemma_sum_pages_monotonic(s: Seq<u64>, i: int)
    requires
        0 <= i <= s.len(),
    ensures
        spec_sum_pages(s.take(i)) <= spec_sum_pages(s),
    decreases s.len() - i,
{
    if i == s.len() {
        assert(s.take(i) =~= s);
    } else {
        lemma_sum_pages_monotonic(s, i + 1);
        assert(s.take(i + 1).drop_last() =~= s.take(i));
    }
}

} // verus!
