//! The memory-mapped-device probe: translate a linear address into
//! the physical window believed to hold a device, read one natural-
//! width word from it, and compare against the expected signature.
//! The probe is read-only: writing through an unvalidated window is
//! out of scope and hazardous.

use vstd::prelude::*;

use crate::addr::LinearAddress;
use crate::mem::PhysMem;
use crate::translate::spec_translate;
use crate::translate::AddressSpace;
use crate::translate::TranslationResult;

verus! {

/// The 32-bit word the modeled physical memory holds at `pa`: the
/// unit holding `pa` must be modeled and `pa` must be 4-byte aligned;
/// the word is the low or high half of the 64-bit slot it falls in.
pub open spec fn spec_read_u32(mem: PhysMem, pa: u64) -> Option<u32> {
    let base = pa & 0xffff_ffff_ffff_f000u64;
    if mem.contains_table(base) && pa & 3 == 0 {
        let word = mem.entry_at(base, ((pa & 0xfff) >> 3) as int).bits;
        if pa & 4 == 4 {
            Some((word >> 32) as u32)
        } else {
            Some(word as u32)
        }
    } else {
        None
    }
}

/// What a probe reports: true exactly when the linear address
/// resolves, the resolved window is modeled and readable, and the
/// word there equals the expected signature.
pub open spec fn spec_probe(mem: PhysMem, root: u64, la: u64, expected: u32) -> bool {
    match spec_translate(mem, root, la) {
        TranslationResult::Resolved(pa) => spec_read_u32(mem, pa.raw) == Some(expected),
        TranslationResult::MissingMapping(_) => false,
    }
}

impl AddressSpace {
    /// Read the 32-bit word behind `la`, if `la` resolves to a
    /// modeled, 4-byte-aligned physical address.
    pub fn read_u32(&self, la: LinearAddress) -> (r: Option<u32>)
        requires
            self.wf(),
            self.cache_clean,
        ensures
            (match spec_translate(self.mem, self.root, la.raw) {
                TranslationResult::Resolved(pa) => r == spec_read_u32(self.mem, pa.raw),
                TranslationResult::MissingMapping(_) => r is None,
            }),
    {
        let resolved = self.translate(la);
        match resolved {
            TranslationResult::Resolved(pa) => {
                let base = pa.as_u64() & 0xffff_ffff_ffff_f000u64;
                proof {
                    let v = pa.raw;
                    assert((v & 0xffff_ffff_ffff_f000u64) & 0xfff == 0) by (bit_vector);
                    assert(((v & 0xfff) >> 3) < 512) by (bit_vector);
                }
                match self.mem.lookup(base) {
                    Some(unit) => {
                        if pa.as_u64() & 3 == 0 {
                            proof {
                                self.mem.lemma_table_len(base);
                            }
                            let slot = ((pa.as_u64() & 0xfff) >> 3) as usize;
                            let word = unit.entry(slot).bits;
                            if pa.as_u64() & 4 == 4 {
                                Some((word >> 32) as u32)
                            } else {
                                Some(word as u32)
                            }
                        } else {
                            None
                        }
                    },
                    None => None,
                }
            },
            TranslationResult::MissingMapping(_) => None,
        }
    }

    /// Probe the window behind `la` for a device signature: read one
    /// 32-bit word and compare. Read-only by construction.
    pub fn probe(&self, la: LinearAddress, expected: u32) -> (r: bool)
        requires
            self.wf(),
            self.cache_clean,
        ensures
            r == spec_probe(self.mem, self.root, la.raw, expected),
    {
        match self.read_u32(la) {
            Some(word) => word == expected,
            None => false,
        }
    }
}

} // verus!
