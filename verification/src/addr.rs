//! Value types for physical and linear addresses, and the index
//! decomposition of a linear address into the four table indices and
//! the in-page offset.

use vstd::prelude::*;

verus! {

/// Size of one 4 KiB page, frame, or table, in bytes.
pub const PAGE_SIZE: u64 = 4096;

/// Mask selecting the frame-address bits (bits 12..=51) of a
/// page-table entry or of a 4 KiB-aligned physical address.
pub const FRAME_ADDR_MASK: u64 = 0x000f_ffff_ffff_f000u64;

/// An address as the memory controller sees it: it names actual
/// storage. Never interchangeable with a `LinearAddress`.
#[derive(Clone, Copy, PartialEq, Eq, Structural, Debug)]
pub struct PhysicalAddress {
    pub raw: u64,
}

/// An address as instructions see it, translated by the paging
/// hardware before any physical access.
#[derive(Clone, Copy, PartialEq, Eq, Structural, Debug)]
pub struct LinearAddress {
    pub raw: u64,
}

/// Table index taken from bits 39..=47 of a linear address.
pub open spec fn spec_l4_index(la: u64) -> u64 {
    (la >> 39) & 0x1ff
}

/// Table index taken from bits 30..=38 of a linear address.
pub open spec fn spec_l3_index(la: u64) -> u64 {
    (la >> 30) & 0x1ff
}

/// Table index taken from bits 21..=29 of a linear address.
pub open spec fn spec_l2_index(la: u64) -> u64 {
    (la >> 21) & 0x1ff
}

/// Table index taken from bits 12..=20 of a linear address.
pub open spec fn spec_l1_index(la: u64) -> u64 {
    (la >> 12) & 0x1ff
}

/// The 12-bit offset within a 4 KiB page.
pub open spec fn spec_offset_4k(la: u64) -> u64 {
    la & 0xfff
}

/// The 21-bit offset within a 2 MiB huge page.
pub open spec fn spec_offset_2m(la: u64) -> u64 {
    la & 0x1fffff
}

/// The 30-bit offset within a 1 GiB huge page.
pub open spec fn spec_offset_1g(la: u64) -> u64 {
    la & 0x3fffffff
}

impl PhysicalAddress {
    /// Whether this address could be the base of a 4 KiB frame or table.
    pub open spec fn is_aligned_4k(self) -> bool {
        self.raw & 0xfff == 0
    }

    pub fn new(raw: u64) -> (r: PhysicalAddress)
        ensures
            r.raw == raw,
    {
        PhysicalAddress { raw }
    }

    pub fn as_u64(self) -> (r: u64)
        ensures
            r == self.raw,
    {
        self.raw
    }
}

impl LinearAddress {
    pub fn new(raw: u64) -> (r: LinearAddress)
        ensures
            r.raw == raw,
    {
        LinearAddress { raw }
    }

    pub fn as_u64(self) -> (r: u64)
        ensures
            r == self.raw,
    {
        self.raw
    }

    /// Index into the level-4 table, decoded from bits 39..=47.
    pub fn l4_index(self) -> (r: usize)
        ensures
            r == spec_l4_index(self.raw),
            r < 512,
    {
        proof {
            let v = self.raw;
            assert((v >> 39) & 0x1ff < 512) by (bit_vector);
        }
        ((self.raw >> 39) & 0x1ff) as usize
    }

    /// Index into the level-3 table, decoded from bits 30..=38.
    pub fn l3_index(self) -> (r: usize)
        ensures
            r == spec_l3_index(self.raw),
            r < 512,
    {
        proof {
            let v = self.raw;
            assert((v >> 30) & 0x1ff < 512) by (bit_vector);
        }
        ((self.raw >> 30) & 0x1ff) as usize
    }

    /// Index into the level-2 table, decoded from bits 21..=29.
    pub fn l2_index(self) -> (r: usize)
        ensures
            r == spec_l2_index(self.raw),
            r < 512,
    {
        proof {
            let v = self.raw;
            assert((v >> 21) & 0x1ff < 512) by (bit_vector);
        }
        ((self.raw >> 21) & 0x1ff) as usize
    }

    /// Index into the level-1 table, decoded from bits 12..=20.
    pub fn l1_index(self) -> (r: usize)
        ensures
            r == spec_l1_index(self.raw),
            r < 512,
    {
        proof {
            let v = self.raw;
            assert((v >> 12) & 0x1ff < 512) by (bit_vector);
        }
        ((self.raw >> 12) & 0x1ff) as usize
    }

    /// The offset within a 4 KiB page.
    pub fn offset_4k(self) -> (r: u64)
        ensures
            r == spec_offset_4k(self.raw),
            r < 4096,
    {
        proof {
            let v = self.raw;
            assert(v & 0xfff < 4096) by (bit_vector);
        }
        self.raw & 0xfff
    }
}

/// A 4 KiB-aligned unit of physical memory. This core never owns
/// frames; it only names them.
#[derive(Clone, Copy, PartialEq, Eq, Structural, Debug)]
pub struct Frame {
    pub base: PhysicalAddress,
}

impl Frame {
    pub open spec fn wf(self) -> bool {
        self.base.raw & 0xfff == 0
    }

    /// The frame holding the given physical address.
    pub fn containing_address(pa: PhysicalAddress) -> (r: Frame)
        ensures
            r.base.raw == pa.raw & 0xfff_ffff_ffff_f000u64,
            r.wf(),
    {
        proof {
            let v = pa.raw;
            assert((v & 0xfff_ffff_ffff_f000u64) & 0xfff == 0) by (bit_vector);
        }
        Frame { base: PhysicalAddress { raw: pa.raw & 0xfff_ffff_ffff_f000u64 } }
    }
}

/// The linear-address-aligned counterpart of a `Frame`: the unit the
/// translator resolves.
#[derive(Clone, Copy, PartialEq, Eq, Structural, Debug)]
pub struct Page {
    pub base: LinearAddress,
}

impl Page {
    pub open spec fn wf(self) -> bool {
        self.base.raw & 0xfff == 0
    }

    /// The page holding the given linear address.
    pub fn containing_address(la: LinearAddress) -> (r: Page)
        ensures
            r.base.raw == la.raw & 0xfff_ffff_ffff_f000u64,
            r.wf(),
    {
        proof {
            let v = la.raw;
            assert((v & 0xfff_ffff_ffff_f000u64) & 0xfff == 0) by (bit_vector);
        }
        Page { base: LinearAddress { raw: la.raw & 0xfff_ffff_ffff_f000u64 } }
    }
}

} // verus!
