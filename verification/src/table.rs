//! One level of the four-level hierarchy: a table of exactly 512
//! entries, each entry holding flag bits and an embedded physical
//! frame reference.

use vstd::prelude::*;

use crate::addr::FRAME_ADDR_MASK;

verus! {

/// Number of entries in one table.
pub const TABLE_ENTRIES: usize = 512;

/// Bit 0: the entry maps something; a clear bit means the rest of the
/// entry is unspecified and must never be dereferenced.
pub const FLAG_PRESENT: u64 = 1;

/// Bit 1: the mapped region may be written through this entry.
pub const FLAG_WRITABLE: u64 = 2;

/// Bit 7: the entry terminates translation early, mapping a 1 GiB
/// (level 3) or 2 MiB (level 2) huge page instead of referencing a
/// further table.
pub const FLAG_HUGE_PAGE: u64 = 128;

/// One slot of a page table: the raw hardware bit pattern.
#[derive(Clone, Copy, PartialEq, Eq, Structural, Debug)]
pub struct PageTableEntry {
    pub bits: u64,
}

impl PageTableEntry {
    /// Whether the entry maps something.
    pub open spec fn present(self) -> bool {
        self.bits & FLAG_PRESENT == FLAG_PRESENT
    }

    /// Whether the mapping is writable.
    pub open spec fn writable(self) -> bool {
        self.bits & FLAG_WRITABLE == FLAG_WRITABLE
    }

    /// Whether the entry terminates translation as a huge page.
    pub open spec fn huge(self) -> bool {
        self.bits & FLAG_HUGE_PAGE == FLAG_HUGE_PAGE
    }

    /// The physical base of the frame or next-level table the entry
    /// references: bits 12..=51 of the raw pattern.
    pub open spec fn frame_base(self) -> u64 {
        self.bits & FRAME_ADDR_MASK
    }

    pub fn new(bits: u64) -> (r: PageTableEntry)
        ensures
            r.bits == bits,
    {
        PageTableEntry { bits }
    }

    /// An entry that maps nothing.
    pub fn absent() -> (r: PageTableEntry)
        ensures
            r.bits == 0,
            !r.present(),
    {
        proof {
            assert(0u64 & FLAG_PRESENT != FLAG_PRESENT) by (bit_vector);
        }
        PageTableEntry { bits: 0 }
    }

    pub fn is_present(self) -> (r: bool)
        ensures
            r == self.present(),
    {
        self.bits & FLAG_PRESENT == FLAG_PRESENT
    }

    pub fn is_writable(self) -> (r: bool)
        ensures
            r == self.writable(),
    {
        self.bits & FLAG_WRITABLE == FLAG_WRITABLE
    }

    pub fn is_huge(self) -> (r: bool)
        ensures
            r == self.huge(),
    {
        self.bits & FLAG_HUGE_PAGE == FLAG_HUGE_PAGE
    }

    pub fn frame_base_addr(self) -> (r: u64)
        ensures
            r == self.frame_base(),
    {
        self.bits & FRAME_ADDR_MASK
    }

    /// The entry with its frame-address bits replaced by `frame` and
    /// every flag bit kept as it was.
    pub fn with_frame(self, frame: u64) -> (r: PageTableEntry)
        requires
            frame & FRAME_ADDR_MASK == frame,
        ensures
            r.bits == (self.bits & !FRAME_ADDR_MASK) | frame,
            r.present() == self.present(),
            r.writable() == self.writable(),
            r.huge() == self.huge(),
            r.frame_base() == frame,
    {
        let bits = (self.bits & !FRAME_ADDR_MASK) | frame;
        proof {
            lemma_frame_bits_replaced(self.bits, frame);
        }
        PageTableEntry { bits }
    }
}

/// Replacing the frame-address bits keeps every flag bit and installs
/// exactly the new frame base.
pub(crate) proof fn lemma_frame_bits_replaced(old_bits: u64, frame: u64)
    by (bit_vector)
    requires
        frame & 0x000f_ffff_ffff_f000u64 == frame,
    ensures
        ((old_bits & !0x000f_ffff_ffff_f000u64) | frame) & 1 == old_bits & 1,
        ((old_bits & !0x000f_ffff_ffff_f000u64) | frame) & 2 == old_bits & 2,
        ((old_bits & !0x000f_ffff_ffff_f000u64) | frame) & 128 == old_bits & 128,
        ((old_bits & !0x000f_ffff_ffff_f000u64) | frame) & 0x000f_ffff_ffff_f000u64 == frame,
{
}

/// A 4 KiB unit of modeled physical memory holding exactly 512 raw
/// 64-bit slots: one level of the page-table hierarchy, or, for the
/// device probe, a window of memory-mapped register state.
#[derive(Debug)]
pub struct PageTable {
    pub entries: Vec<PageTableEntry>,
}

impl PageTable {
    /// A table is exactly 512 entries; anything else cannot come from
    /// the hardware-defined structure.
    pub open spec fn wf(self) -> bool {
        self.entries.len() == TABLE_ENTRIES
    }

    /// A table whose entries all map nothing.
    pub fn empty() -> (r: PageTable)
        ensures
            r.wf(),
            forall|i: int| 0 <= i < 512 ==> r.entries@[i].bits == 0,
    {
        let mut entries: Vec<PageTableEntry> = Vec::new();
        let mut i: usize = 0;
        while i < 512
            invariant
                i <= 512,
                entries.len() == i,
                forall|j: int| 0 <= j < i ==> entries@[j].bits == 0,
            decreases 512 - i,
        {
            entries.push(PageTableEntry { bits: 0 });
            i += 1;
        }
        PageTable { entries }
    }

    /// The entry in slot `i`.
    pub fn entry(&self, i: usize) -> (r: PageTableEntry)
        requires
            self.wf(),
            i < TABLE_ENTRIES,
        ensures
            r == self.entries@[i as int],
    {
        self.entries[i]
    }

    /// Overwrite slot `i`.
    pub fn set_entry(&mut self, i: usize, e: PageTableEntry)
        requires
            old(self).wf(),
            i < TABLE_ENTRIES,
        ensures
            final(self).wf(),
            final(self).entries@ == old(self).entries@.update(i as int, e),
    {
        self.entries.set(i, e);
    }
}

} // verus!
