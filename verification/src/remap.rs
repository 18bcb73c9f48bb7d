//! The remap operator: point one existing entry of the hierarchy at
//! an arbitrary physical frame, preserving its flag bits, and leave
//! the translation cache stale until the required full flush. This
//! core does not allocate table levels, so remapping through a
//! not-present entry fails instead of building structure.

use vstd::prelude::*;

use crate::addr::spec_l1_index;
use crate::addr::spec_l2_index;
use crate::addr::spec_l3_index;
use crate::addr::spec_l4_index;
use crate::addr::spec_offset_2m;
use crate::addr::spec_offset_4k;
use crate::addr::Frame;
use crate::addr::FRAME_ADDR_MASK;
use crate::mem::PhysMem;
use crate::table::PageTableEntry;
use crate::translate::spec_l1_entry;
use crate::translate::spec_l2_entry;
use crate::translate::spec_l3_entry;
use crate::translate::spec_l4_entry;
use crate::translate::spec_terminal;
use crate::translate::spec_translate;
use crate::translate::wf_tree;
use crate::translate::AddressSpace;
use crate::translate::TranslationResult;
use crate::addr::PhysicalAddress;

verus! {

/// Why a remap request failed.
#[derive(Clone, Copy, PartialEq, Eq, Structural, Debug)]
pub enum RemapError {
    /// The walk to the requested slot stopped at this level: its
    /// entry is not present, or it terminates translation early and
    /// so has no table below it for the deeper slot asked for.
    MissingMapping(u8),
}

/// Where the requested slot lives: the base of the table holding it
/// and the slot index, or the level at which the walk stopped.
pub open spec fn spec_remap_target(
    mem: PhysMem,
    root: u64,
    i4: int,
    i3: int,
    i2: int,
    i1: Option<usize>,
) -> Result<(u64, int), u8> {
    let e4 = mem.entry_at(root, i4);
    if !e4.present() {
        Err(4)
    } else {
        let e3 = mem.entry_at(e4.frame_base(), i3);
        if !e3.present() || e3.huge() {
            Err(3)
        } else {
            let b2 = e3.frame_base();
            let e2 = mem.entry_at(b2, i2);
            match i1 {
                None => if e2.present() {
                    Ok((b2, i2))
                } else {
                    Err(2)
                },
                Some(v) => if !e2.present() || e2.huge() {
                    Err(2)
                } else {
                    let b1 = e2.frame_base();
                    if mem.entry_at(b1, v as int).present() {
                        Ok((b1, v as int))
                    } else {
                        Err(1)
                    }
                },
            }
        }
    }
}

impl AddressSpace {
    /// Locate the entry named by the index path — `i1` absent targets
    /// the level-2 entry itself — overwrite only its frame-address
    /// bits with `new_frame`, and mark the translation cache stale:
    /// no translation may be relied on until `flush` runs. The target
    /// entry must already be present; the first level with nothing to
    /// walk into is reported otherwise, and nothing changes.
    pub fn remap(
        &mut self,
        i4: usize,
        i3: usize,
        i2: usize,
        i1: Option<usize>,
        new_frame: Frame,
    ) -> (r: Result<(), RemapError>)
        requires
            old(self).wf(),
            i4 < 512,
            i3 < 512,
            i2 < 512,
            (match i1 {
                Some(v) => v < 512,
                None => true,
            }),
            new_frame.base.raw & FRAME_ADDR_MASK == new_frame.base.raw,
        ensures
            final(self).root == old(self).root,
            (match spec_remap_target(
                old(self).mem,
                old(self).root,
                i4 as int,
                i3 as int,
                i2 as int,
                i1,
            ) {
                Err(level) => r == Err::<(), RemapError>(RemapError::MissingMapping(level))
                    && *final(self) == *old(self),
                Ok(target) => {
                    &&& r == Ok::<(), RemapError>(())
                    &&& !final(self).cache_clean
                    &&& final(self).mem.wf()
                    &&& forall|b: u64|
                        final(self).mem.contains_table(b) == old(self).mem.contains_table(b)
                    &&& final(self).mem.table_at(target.0) == old(self).mem.table_at(
                        target.0,
                    ).update(
                        target.1,
                        (PageTableEntry {
                            bits: (old(self).mem.entry_at(target.0, target.1).bits
                                & !FRAME_ADDR_MASK) | new_frame.base.raw,
                        }),
                    )
                    &&& forall|b: u64|
                        b != target.0 && old(self).mem.contains_table(b)
                            ==> #[trigger] final(self).mem.table_at(b) == old(self).mem.table_at(b)
                },
            }),
    {
        let ghost mem = self.mem;
        let ghost root = self.root;
        let root_table = self.mem.lookup(self.root).unwrap();
        proof {
            mem.lemma_table_len(root);
        }
        let e4 = root_table.entry(i4);
        if !e4.is_present() {
            return Err(RemapError::MissingMapping(4));
        }
        proof {
            assert(e4 == mem.entry_at(root, i4 as int));
            assert(!spec_terminal(4, e4));
            assert(wf_tree(mem, e4.frame_base(), 3));
            mem.lemma_table_len(e4.frame_base());
        }
        let l3_table = self.mem.lookup(e4.frame_base_addr()).unwrap();
        let e3 = l3_table.entry(i3);
        if !e3.is_present() || e3.is_huge() {
            return Err(RemapError::MissingMapping(3));
        }
        proof {
            assert(e3 == mem.entry_at(e4.frame_base(), i3 as int));
            assert(!spec_terminal(3, e3));
            assert(wf_tree(mem, e3.frame_base(), 2));
            mem.lemma_table_len(e3.frame_base());
        }
        let b2 = e3.frame_base_addr();
        let l2_table = self.mem.lookup(b2).unwrap();
        let e2 = l2_table.entry(i2);
        match i1 {
            None => {
                if !e2.is_present() {
                    return Err(RemapError::MissingMapping(2));
                }
                self.mem.set_entry(b2, i2, e2.with_frame(new_frame.base.as_u64()));
                self.cache_clean = false;
                Ok(())
            },
            Some(v) => {
                if !e2.is_present() || e2.is_huge() {
                    return Err(RemapError::MissingMapping(2));
                }
                proof {
                    assert(e2 == mem.entry_at(e3.frame_base(), i2 as int));
                    assert(!spec_terminal(2, e2));
                    assert(wf_tree(mem, e2.frame_base(), 1));
                    mem.lemma_table_len(e2.frame_base());
                }
                let b1 = e2.frame_base_addr();
                let l1_table = self.mem.lookup(b1).unwrap();
                let e1 = l1_table.entry(v);
                if !e1.is_present() {
                    return Err(RemapError::MissingMapping(1));
                }
                self.mem.set_entry(b1, v, e1.with_frame(new_frame.base.as_u64()));
                self.cache_clean = false;
                Ok(())
            },
        }
    }
}

/// A remap of a terminal entry, followed by the required flush, is
/// visible to translation: any linear address whose decoded indices
/// reach the remapped slot resolves to the new frame plus the offset
/// bits of that slot's page size. (A translation observed between the
/// remap and the flush is unspecified and excluded here: the
/// translator promises nothing while the cache is stale.) The walk to
/// the slot must not pass through the slot itself, which no
/// hardware-built hierarchy does.
pub proof fn lemma_remap_then_flush_translates(
    pre: AddressSpace,
    post: AddressSpace,
    i4: usize,
    i3: usize,
    i2: usize,
    i1: Option<usize>,
    new_frame: Frame,
    la: u64,
    target_base: u64,
    target_slot: int,
)
    requires
        pre.wf(),
        i4 < 512,
        i3 < 512,
        i2 < 512,
        (match i1 {
            Some(v) => v < 512,
            None => true,
        }),
        new_frame.base.raw & FRAME_ADDR_MASK == new_frame.base.raw,
        spec_remap_target(pre.mem, pre.root, i4 as int, i3 as int, i2 as int, i1) == Ok::<
            (u64, int),
            u8,
        >((target_base, target_slot)),
        // when the level-2 entry itself is the target it must be a
        // huge-page terminal; a deeper target is terminal by nature
        (match i1 {
            None => spec_l2_entry(pre.mem, pre.root, la).huge(),
            Some(_) => true,
        }),
        // the address decodes to the remapped slot's path
        spec_l4_index(la) == i4 as u64,
        spec_l3_index(la) == i3 as u64,
        spec_l2_index(la) == i2 as u64,
        (match i1 {
            Some(v) => spec_l1_index(la) == v as u64,
            None => true,
        }),
        // the walk to the slot does not read the slot itself
        !(pre.root == target_base && i4 as int == target_slot),
        !(spec_l4_entry(pre.mem, pre.root, la).frame_base() == target_base && i3 as int
            == target_slot),
        !(spec_l3_entry(pre.mem, pre.root, la).frame_base() == target_base && i2 as int
            == target_slot),
        // what remap followed by flush leaves behind
        post.root == pre.root,
        post.mem.wf(),
        forall|b: u64| post.mem.contains_table(b) == pre.mem.contains_table(b),
        post.mem.table_at(target_base) == pre.mem.table_at(target_base).update(
            target_slot,
            (PageTableEntry {
                bits: (pre.mem.entry_at(target_base, target_slot).bits & !FRAME_ADDR_MASK)
                    | new_frame.base.raw,
            }),
        ),
        forall|b: u64|
            b != target_base && pre.mem.contains_table(b) ==> #[trigger] post.mem.table_at(b)
                == pre.mem.table_at(b),
    ensures
        spec_translate(post.mem, post.root, la) == TranslationResult::Resolved(
            (PhysicalAddress {
                raw: (match i1 {
                    None => (new_frame.base.raw + spec_offset_2m(la)) as u64,
                    Some(_) => (new_frame.base.raw + spec_offset_4k(la)) as u64,
                }),
            }),
        ),
{
    let mem0 = pre.mem;
    let mem1 = post.mem;
    let root = pre.root;
    let e4 = spec_l4_entry(mem0, root, la);
    let e3 = spec_l3_entry(mem0, root, la);
    let e2 = spec_l2_entry(mem0, root, la);
    let old_bits = mem0.entry_at(target_base, target_slot).bits;
    let new_entry = PageTableEntry { bits: (old_bits & !FRAME_ADDR_MASK) | new_frame.base.raw };
    crate::table::lemma_frame_bits_replaced(old_bits, new_frame.base.raw);
    // the walk above the slot reads unchanged entries
    assert(mem0.contains_table(root));
    assert(spec_l4_entry(mem1, root, la) == e4) by {
        if root == target_base {
            assert(mem1.table_at(root) == mem0.table_at(root).update(target_slot, new_entry));
        }
    }
    assert(e4.present());
    assert(!spec_terminal(4, e4));
    assert(wf_tree(mem0, e4.frame_base(), 3));
    assert(mem0.contains_table(e4.frame_base()));
    assert(spec_l3_entry(mem1, root, la) == e3) by {
        if e4.frame_base() == target_base {
            assert(mem1.table_at(target_base) == mem0.table_at(target_base).update(
                target_slot,
                new_entry,
            ));
        }
    }
    assert(e3.present() && !e3.huge());
    assert(!spec_terminal(3, e3));
    assert(wf_tree(mem0, e3.frame_base(), 2));
    assert(mem0.contains_table(e3.frame_base()));
    match i1 {
        None => {
            assert(target_base == e3.frame_base() && target_slot == i2 as int);
            mem0.lemma_table_len(target_base);
            assert(spec_l2_entry(mem1, root, la) == new_entry);
            assert(new_entry.present() == e2.present() && new_entry.huge() == e2.huge());
            assert(new_entry.frame_base() == new_frame.base.raw);
            let v = la;
            assert(v & 0x1fffff < 0x40000000) by (bit_vector);
            crate::translate::lemma_sum_fits(new_frame.base.raw, spec_offset_2m(la));
        },
        Some(s) => {
            assert(spec_l2_entry(mem1, root, la) == e2) by {
                if e3.frame_base() == target_base {
                    assert(mem1.table_at(target_base) == mem0.table_at(target_base).update(
                        target_slot,
                        new_entry,
                    ));
                }
            }
            assert(e2.present() && !e2.huge());
            assert(!spec_terminal(2, e2));
            assert(wf_tree(mem0, e2.frame_base(), 1));
            assert(mem0.contains_table(e2.frame_base()));
            assert(target_base == e2.frame_base() && target_slot == s as int);
            mem0.lemma_table_len(target_base);
            assert(spec_l1_entry(mem1, root, la) == new_entry);
            assert(new_entry.present());
            assert(new_entry.frame_base() == new_frame.base.raw);
            let v = la;
            assert(v & 0xfff < 0x40000000) by (bit_vector);
            crate::translate::lemma_sum_fits(new_frame.base.raw, spec_offset_4k(la));
        },
    }
}

} // verus!
