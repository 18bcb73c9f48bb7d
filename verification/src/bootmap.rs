//! The boot-supplied memory map: an ordered sequence of
//! (physical base, size, region type) records terminated by a
//! zero-size sentinel. This core only enumerates it for diagnostic
//! display; it never mutates the records.

use vstd::prelude::*;

verus! {

/// One record of the boot-supplied memory map.
#[derive(Clone, Copy, PartialEq, Eq, Structural, Debug)]
pub struct MemoryRegion {
    pub addr: u64,
    pub size: u64,
    pub kind: u32,
}

/// The records standing before the first zero-size sentinel; the
/// sentinel itself and everything after it are not part of the map.
pub open spec fn spec_leading_regions(s: Seq<MemoryRegion>) -> Seq<MemoryRegion>
    decreases s.len(),
{
    if s.len() == 0 {
        Seq::empty()
    } else if s[0].size == 0 {
        Seq::empty()
    } else {
        seq![s[0]] + spec_leading_regions(s.drop_first())
    }
}

/// If the first `i` records are real and record `i` (or the end of
/// the sequence) stops the scan, the map is exactly the first `i`
/// records.
proof fn lemma_leading_regions_prefix(s: Seq<MemoryRegion>, i: int)
    requires
        0 <= i <= s.len(),
        forall|j: int| 0 <= j < i ==> s[j].size != 0,
        i == s.len() || s[i].size == 0,
    ensures
        spec_leading_regions(s) == s.take(i),
    decreases i,
{
    if s.len() == 0 {
        assert(spec_leading_regions(s) =~= s.take(i));
    } else if i == 0 {
        assert(spec_leading_regions(s) =~= s.take(0));
    } else {
        assert(s[0].size != 0);
        lemma_leading_regions_prefix(s.drop_first(), i - 1);
        assert(seq![s[0]] + s.drop_first().take(i - 1) =~= s.take(i));
    }
}

/// Enumerate the real records of the boot memory map: every record
/// before the first zero-size sentinel, in order.
pub fn enumerate_regions(regions: &Vec<MemoryRegion>) -> (r: Vec<MemoryRegion>)
    ensures
        r@ == spec_leading_regions(regions@),
{
    let mut out: Vec<MemoryRegion> = Vec::new();
    let n = regions.len();
    let mut i: usize = 0;
    while i < n
        invariant
            n == regions@.len(),
            i <= n,
            forall|j: int| 0 <= j < i ==> regions@[j].size != 0,
            out@ == regions@.take(i as int),
        decreases n - i,
    {
        let region = regions[i];
        if region.size == 0 {
            proof {
                lemma_leading_regions_prefix(regions@, i as int);
            }
            return out;
        }
        out.push(region);
        proof {
            assert(out@ =~= regions@.take(i as int + 1));
        }
        i += 1;
    }
    proof {
        lemma_leading_regions_prefix(regions@, n as int);
        assert(regions@.take(n as int) =~= regions@);
    }
    out
}

} // verus!
