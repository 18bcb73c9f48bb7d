//! The address translator: resolve a linear address to a physical
//! address by decomposing it into four 9-bit table indices and walking
//! the hierarchy level 4 to level 1, short-circuiting at huge-page
//! terminals and stopping at the first not-present entry.

use vstd::prelude::*;

use crate::addr::spec_l1_index;
use crate::addr::spec_l2_index;
use crate::addr::spec_l3_index;
use crate::addr::spec_l4_index;
use crate::addr::spec_offset_1g;
use crate::addr::spec_offset_2m;
use crate::addr::spec_offset_4k;
use crate::addr::LinearAddress;
use crate::addr::PhysicalAddress;
use crate::mem::PhysMem;
use crate::table::PageTableEntry;

verus! {

/// The outcome of resolving one linear address: either the physical
/// address it maps to, or the level (4 down to 1) whose entry was not
/// present when the walk stopped.
#[derive(Clone, Copy, PartialEq, Eq, Structural, Debug)]
pub enum TranslationResult {
    Resolved(PhysicalAddress),
    MissingMapping(u8),
}

/// An entry terminates translation at `level`: level-1 entries always
/// do, level-3 and level-2 entries do when their huge-page flag is
/// set, and a level-4 entry never does.
pub open spec fn spec_terminal(level: int, e: PageTableEntry) -> bool {
    level == 1 || ((level == 2 || level == 3) && e.huge())
}

/// Every table the walk may dereference below `base` (present entries
/// that do not terminate translation) is modeled, down to `level`
/// levels. This is the shape the hardware guarantees of the structure
/// the boot environment hands over; the model states it explicitly.
pub open spec fn wf_tree(mem: PhysMem, base: u64, level: int) -> bool
    decreases level,
{
    &&& mem.contains_table(base)
    &&& (forall|i: int|
        0 <= i < 512 && (#[trigger] mem.entry_at(base, i)).present() && !spec_terminal(
            level,
            mem.entry_at(base, i),
        ) && level > 1 ==> wf_tree(mem, mem.entry_at(base, i).frame_base(), level - 1))
}

/// The level-4 entry a linear address selects.
pub open spec fn spec_l4_entry(mem: PhysMem, root: u64, la: u64) -> PageTableEntry {
    mem.entry_at(root, spec_l4_index(la) as int)
}

/// The level-3 entry a linear address selects, behind its level-4 entry.
pub open spec fn spec_l3_entry(mem: PhysMem, root: u64, la: u64) -> PageTableEntry {
    mem.entry_at(spec_l4_entry(mem, root, la).frame_base(), spec_l3_index(la) as int)
}

/// The level-2 entry a linear address selects, behind its level-3 entry.
pub open spec fn spec_l2_entry(mem: PhysMem, root: u64, la: u64) -> PageTableEntry {
    mem.entry_at(spec_l3_entry(mem, root, la).frame_base(), spec_l2_index(la) as int)
}

/// The level-1 entry a linear address selects, behind its level-2 entry.
pub open spec fn spec_l1_entry(mem: PhysMem, root: u64, la: u64) -> PageTableEntry {
    mem.entry_at(spec_l2_entry(mem, root, la).frame_base(), spec_l1_index(la) as int)
}

/// What translation returns: the first not-present entry on the
/// decoded path names the missing level; a terminal entry contributes
/// its frame base plus the offset bits remaining at its level — 12
/// for a 4 KiB page, 21 for 2 MiB, 30 for 1 GiB.
pub open spec fn spec_translate(mem: PhysMem, root: u64, la: u64) -> TranslationResult {
    let e4 = spec_l4_entry(mem, root, la);
    if !e4.present() {
        TranslationResult::MissingMapping(4)
    } else {
        let e3 = spec_l3_entry(mem, root, la);
        if !e3.present() {
            TranslationResult::MissingMapping(3)
        } else if e3.huge() {
            TranslationResult::Resolved(
                PhysicalAddress { raw: (e3.frame_base() + spec_offset_1g(la)) as u64 },
            )
        } else {
            let e2 = spec_l2_entry(mem, root, la);
            if !e2.present() {
                TranslationResult::MissingMapping(2)
            } else if e2.huge() {
                TranslationResult::Resolved(
                    PhysicalAddress { raw: (e2.frame_base() + spec_offset_2m(la)) as u64 },
                )
            } else {
                let e1 = spec_l1_entry(mem, root, la);
                if !e1.present() {
                    TranslationResult::MissingMapping(1)
                } else {
                    TranslationResult::Resolved(
                        PhysicalAddress { raw: (e1.frame_base() + spec_offset_4k(la)) as u64 },
                    )
                }
            }
        }
    }
}

/// A frame base (bits 12..=51) plus an offset below 2^30 stays within
/// u64, so the spec-level sum is never truncated.
proof fn lemma_frame_plus_offset_fits(bits: u64, off: u64)
    by (bit_vector)
    requires
        off < 0x40000000,
    ensures
        (bits & 0x000f_ffff_ffff_f000u64) + off < 0xffff_ffff_ffff_ffffu64,
        ((bits & 0x000f_ffff_ffff_f000u64) + off) as u64 == (bits & 0x000f_ffff_ffff_f000u64)
            + off,
{
}

/// A masked frame base plus an offset below 2^30 stays within u64,
/// so the spec-level sum is never truncated.
pub(crate) proof fn lemma_sum_fits(f: u64, off: u64)
    by (bit_vector)
    requires
        f & 0x000f_ffff_ffff_f000u64 == f,
        off < 0x40000000,
    ensures
        f + off < 0xffff_ffff_ffff_ffffu64,
        (f + off) as u64 == f + off,
{
}

/// The active address space as this core sees it: the modeled
/// physical memory, the physical base of the level-4 table the
/// top-level table register names, and whether the translation cache
/// still agrees with the tables. A remap leaves the cache stale; only
/// the required full flush makes translation trustworthy again.
pub struct AddressSpace {
    pub mem: PhysMem,
    pub root: u64,
    pub cache_clean: bool,
}

impl AddressSpace {
    /// The memory model is well formed and the whole reachable
    /// hierarchy under the root is modeled.
    pub open spec fn wf(self) -> bool {
        &&& self.mem.wf()
        &&& wf_tree(self.mem, self.root, 4)
    }

    pub fn new(mem: PhysMem, root: u64) -> (r: AddressSpace)
        ensures
            r.mem == mem,
            r.root == root,
            r.cache_clean,
    {
        AddressSpace { mem, root, cache_clean: true }
    }

    /// Invalidate every cached translation: the full flush the remap
    /// contract requires. After it, translation again reflects the
    /// tables.
    pub fn flush(&mut self)
        ensures
            final(self).mem == old(self).mem,
            final(self).root == old(self).root,
            final(self).cache_clean,
    {
        self.cache_clean = true;
    }

    /// Resolve `la`. With a clean translation cache the result is
    /// exactly what the tables say; after a remap whose flush was
    /// skipped the result is unspecified (neither guaranteed stale nor
    /// guaranteed fresh), and no caller may rely on it.
    pub fn translate(&self, la: LinearAddress) -> (r: TranslationResult)
        requires
            self.wf(),
        ensures
            self.cache_clean ==> r == spec_translate(self.mem, self.root, la.raw),
    {
        let ghost mem = self.mem;
        let ghost root = self.root;
        let root_table = self.mem.lookup(self.root).unwrap();
        proof {
            mem.lemma_table_len(root);
        }
        let e4 = root_table.entry(la.l4_index());
        if !e4.is_present() {
            return TranslationResult::MissingMapping(4);
        }
        proof {
            assert(e4 == mem.entry_at(root, spec_l4_index(la.raw) as int));
            assert(!spec_terminal(4, e4));
            assert(wf_tree(mem, e4.frame_base(), 3));
            mem.lemma_table_len(e4.frame_base());
        }
        let l3_table = self.mem.lookup(e4.frame_base_addr()).unwrap();
        let e3 = l3_table.entry(la.l3_index());
        if !e3.is_present() {
            return TranslationResult::MissingMapping(3);
        }
        if e3.is_huge() {
            proof {
                let v = la.raw;
                assert(v & 0x3fffffff < 0x40000000) by (bit_vector);
                lemma_frame_plus_offset_fits(e3.bits, spec_offset_1g(la.raw));
            }
            return TranslationResult::Resolved(
                PhysicalAddress::new(e3.frame_base_addr() + (la.as_u64() & 0x3fffffff)),
            );
        }
        proof {
            assert(e3 == mem.entry_at(e4.frame_base(), spec_l3_index(la.raw) as int));
            assert(!spec_terminal(3, e3));
            assert(wf_tree(mem, e3.frame_base(), 2));
            mem.lemma_table_len(e3.frame_base());
        }
        let l2_table = self.mem.lookup(e3.frame_base_addr()).unwrap();
        let e2 = l2_table.entry(la.l2_index());
        if !e2.is_present() {
            return TranslationResult::MissingMapping(2);
        }
        if e2.is_huge() {
            proof {
                let v = la.raw;
                assert(v & 0x1fffff < 0x40000000) by (bit_vector);
                lemma_frame_plus_offset_fits(e2.bits, spec_offset_2m(la.raw));
            }
            return TranslationResult::Resolved(
                PhysicalAddress::new(e2.frame_base_addr() + (la.as_u64() & 0x1fffff)),
            );
        }
        proof {
            assert(e2 == mem.entry_at(e3.frame_base(), spec_l2_index(la.raw) as int));
            assert(!spec_terminal(2, e2));
            assert(wf_tree(mem, e2.frame_base(), 1));
            mem.lemma_table_len(e2.frame_base());
        }
        let l1_table = self.mem.lookup(e2.frame_base_addr()).unwrap();
        let e1 = l1_table.entry(la.l1_index());
        if !e1.is_present() {
            return TranslationResult::MissingMapping(1);
        }
        proof {
            let v = la.raw;
            assert(v & 0xfff < 0x40000000) by (bit_vector);
            lemma_frame_plus_offset_fits(e1.bits, spec_offset_4k(la.raw));
        }
        TranslationResult::Resolved(PhysicalAddress::new(e1.frame_base_addr() + la.offset_4k()))
    }
}

/// A huge-page terminal takes the offset bits remaining at its own
/// level — 21 for a level-2 entry, 30 for a level-3 entry — and its
/// frame field is never dereferenced as a further table.
pub proof fn lemma_huge_terminal_offsets(mem: PhysMem, root: u64, la: u64)
    ensures
        spec_l4_entry(mem, root, la).present() && spec_l3_entry(mem, root, la).present()
            && spec_l3_entry(mem, root, la).huge() ==> spec_translate(mem, root, la)
            == TranslationResult::Resolved(
            (PhysicalAddress {
                raw: (spec_l3_entry(mem, root, la).frame_base() + spec_offset_1g(la)) as u64,
            }),
        ),
        spec_l4_entry(mem, root, la).present() && spec_l3_entry(mem, root, la).present()
            && !spec_l3_entry(mem, root, la).huge() && spec_l2_entry(mem, root, la).present()
            && spec_l2_entry(mem, root, la).huge() ==> spec_translate(mem, root, la)
            == TranslationResult::Resolved(
            (PhysicalAddress {
                raw: (spec_l2_entry(mem, root, la).frame_base() + spec_offset_2m(la)) as u64,
            }),
        ),
{
}

/// A walk that meets a not-present entry reports the missing level
/// and reads nothing behind that entry: translation names the level
/// of the first not-present entry on the path and never uses its
/// frame field.
pub proof fn lemma_missing_entry_stops_walk(mem: PhysMem, root: u64, la: u64)
    ensures
        !spec_l4_entry(mem, root, la).present() ==> spec_translate(mem, root, la)
            == TranslationResult::MissingMapping(4),
        spec_l4_entry(mem, root, la).present() && !spec_l3_entry(mem, root, la).present()
            ==> spec_translate(mem, root, la) == TranslationResult::MissingMapping(3),
        spec_l4_entry(mem, root, la).present() && spec_l3_entry(mem, root, la).present()
            && !spec_l3_entry(mem, root, la).huge() && !spec_l2_entry(mem, root, la).present()
            ==> spec_translate(mem, root, la) == TranslationResult::MissingMapping(2),
        spec_l4_entry(mem, root, la).present() && spec_l3_entry(mem, root, la).present()
            && !spec_l3_entry(mem, root, la).huge() && spec_l2_entry(mem, root, la).present()
            && !spec_l2_entry(mem, root, la).huge() && !spec_l1_entry(mem, root, la).present()
            ==> spec_translate(mem, root, la) == TranslationResult::MissingMapping(1),
{
}

} // verus!
