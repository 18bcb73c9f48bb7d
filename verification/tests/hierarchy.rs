// Walking, translating, remapping and probing synthetic hierarchies.

use paging_core::AddressSpace;
use paging_core::Frame;
use paging_core::LinearAddress;
use paging_core::PageTable;
use paging_core::PageTableEntry;
use paging_core::PhysMem;
use paging_core::PhysicalAddress;
use paging_core::RemapError;
use paging_core::TranslationResult;
use paging_core::walk_hierarchy;

const PRESENT: u64 = 1;
const WRITABLE: u64 = 2;
const HUGE: u64 = 128;

// A poison frame value: never inserted as a unit, so any attempt to
// dereference it is a loud failure instead of a silent wrong answer.
const POISON: u64 = 0xdead_d000;

fn table_with(slots: &[(usize, u64)]) -> PageTable {
    let mut t = PageTable::empty();
    for (i, bits) in slots {
        t.set_entry(*i, PageTableEntry::new(*bits));
    }
    t
}

/// Linear [0x0, 0x200000) mapped by a huge level-2 entry at frame
/// 0x2000; three tables deep, nothing below level 2.
fn three_level_hierarchy() -> AddressSpace {
    let mut mem = PhysMem::new();
    mem.insert_table(0x1000, table_with(&[(0, PRESENT | WRITABLE | 0x0200_0000)]));
    // level-3 table at 0x0200_0000: its entry 0 chains to the level-2 table
    mem.insert_table(0x0200_0000, table_with(&[(0, PRESENT | WRITABLE | 0x0300_0000)]));
    // level-2 table: entry 0 is a huge-page terminal at frame 0x2000
    mem.insert_table(0x0300_0000, table_with(&[(0, PRESENT | WRITABLE | HUGE | 0x2000)]));
    AddressSpace::new(mem, 0x1000)
}

/// A full four-level hierarchy mapping the first 4 KiB page of the
/// linear address space to the frame at `frame`.
fn four_level_hierarchy(frame: u64) -> AddressSpace {
    let mut mem = PhysMem::new();
    mem.insert_table(0x1000, table_with(&[(0, PRESENT | WRITABLE | 0x2000)]));
    mem.insert_table(0x2000, table_with(&[(0, PRESENT | WRITABLE | 0x3000)]));
    mem.insert_table(0x3000, table_with(&[(0, PRESENT | WRITABLE | 0x4000)]));
    mem.insert_table(0x4000, table_with(&[(0, PRESENT | WRITABLE | frame)]));
    AddressSpace::new(mem, 0x1000)
}

#[test]
fn three_level_hierarchy_translates_into_huge_page() {
    let space = three_level_hierarchy();
    // linear 0x0abc falls inside the huge mapping: 0x2000 + 0xabc
    let r = space.translate(LinearAddress::new(0x0abc));
    assert_eq!(r, TranslationResult::Resolved(PhysicalAddress::new(0x2abc)));
}

#[test]
fn huge_level_2_entry_takes_21_bit_offset() {
    let mut mem = PhysMem::new();
    mem.insert_table(0x1000, table_with(&[(0, PRESENT | 0x2000)]));
    mem.insert_table(0x2000, table_with(&[(0, PRESENT | 0x3000)]));
    // huge terminal at a 2 MiB-aligned frame
    mem.insert_table(0x3000, table_with(&[(0, PRESENT | HUGE | 0x4000_0000)]));
    let space = AddressSpace::new(mem, 0x1000);
    let r = space.translate(LinearAddress::new(0x12_3456));
    // 21 offset bits survive, not just the low 12
    assert_eq!(r, TranslationResult::Resolved(PhysicalAddress::new(0x4012_3456)));
    assert_ne!(r, TranslationResult::Resolved(PhysicalAddress::new(0x4000_0456)));
    // the huge entry's frame is data, not a table: the walker must
    // treat it as terminal and never dereference it
    let items = walk_hierarchy(&space.mem, space.root);
    assert_eq!(items.len(), 3);
    assert_eq!(items[2].level, 2);
    assert!(items.iter().all(|it| it.entry.is_present()));
}

#[test]
fn huge_level_3_entry_takes_30_bit_offset() {
    let mut mem = PhysMem::new();
    mem.insert_table(0x1000, table_with(&[(0, PRESENT | 0x2000)]));
    mem.insert_table(0x2000, table_with(&[(1, PRESENT | HUGE | 0x8000_0000)]));
    let space = AddressSpace::new(mem, 0x1000);
    // index path (0, 1), offset 0x1234_5678 within the 1 GiB page
    let la = (1u64 << 30) | 0x1234_5678;
    let r = space.translate(LinearAddress::new(la));
    assert_eq!(r, TranslationResult::Resolved(PhysicalAddress::new(0x9234_5678)));
}

#[test]
fn walker_enumerates_what_the_translator_resolves() {
    let frame = 0x5000;
    let space = four_level_hierarchy(frame);
    let items = walk_hierarchy(&space.mem, space.root);
    // one present entry per level
    assert_eq!(items.len(), 4);
    let leaf = items[3];
    assert_eq!(leaf.level, 1);
    assert_eq!((leaf.i4, leaf.i3, leaf.i2, leaf.i1), (0, 0, 0, 0));
    assert_eq!(leaf.entry.frame_base_addr(), frame);
    // any linear address decoding to the leaf's path resolves to the
    // leaf's frame plus the low 12 bits of the address
    let r = space.translate(LinearAddress::new(0x123));
    assert_eq!(r, TranslationResult::Resolved(PhysicalAddress::new(frame + 0x123)));
}

#[test]
fn missing_entries_name_their_level_and_stay_undereferenced() {
    let mut mem = PhysMem::new();
    // not-present entries carry a poison frame: the walk must skip
    // them without looking the frame up
    mem.insert_table(0x1000, table_with(&[(0, PRESENT | 0x2000), (1, POISON)]));
    mem.insert_table(0x2000, table_with(&[(0, PRESENT | 0x3000), (2, POISON)]));
    mem.insert_table(0x3000, table_with(&[(5, POISON)]));
    let space = AddressSpace::new(mem, 0x1000);

    // level-2 entry 0 of path (0,0) is absent
    let r = space.translate(LinearAddress::new(0x0));
    assert_eq!(r, TranslationResult::MissingMapping(2));
    // level-4 entry 1 is absent (poison bits leave the present bit clear)
    let r = space.translate(LinearAddress::new(1u64 << 39));
    assert_eq!(r, TranslationResult::MissingMapping(4));
    // level-3 entry 2 of path (0,2) is absent
    let r = space.translate(LinearAddress::new(2u64 << 30));
    assert_eq!(r, TranslationResult::MissingMapping(3));

    // the walker enumerates only the two present chain entries
    let items = walk_hierarchy(&space.mem, space.root);
    assert_eq!(items.len(), 2);
    assert!(items.iter().all(|it| it.entry.is_present()));
}

#[test]
fn missing_level_1_entry_reports_level_1() {
    let mut mem = PhysMem::new();
    mem.insert_table(0x1000, table_with(&[(0, PRESENT | 0x2000)]));
    mem.insert_table(0x2000, table_with(&[(0, PRESENT | 0x3000)]));
    mem.insert_table(0x3000, table_with(&[(0, PRESENT | 0x4000)]));
    mem.insert_table(0x4000, table_with(&[(7, PRESENT | 0x9000)]));
    let space = AddressSpace::new(mem, 0x1000);
    // slot 0 of the level-1 table is absent; slot 7 is mapped
    assert_eq!(space.translate(LinearAddress::new(0x0)), TranslationResult::MissingMapping(1));
    assert_eq!(
        space.translate(LinearAddress::new(7 << 12)),
        TranslationResult::Resolved(PhysicalAddress::new(0x9000))
    );
}

#[test]
fn remap_then_flush_translates_to_the_new_frame() {
    let mut space = four_level_hierarchy(0x5000);
    let device = Frame::containing_address(PhysicalAddress::new(0xd000_0000));
    let r = space.remap(0, 0, 0, Some(0), device);
    assert_eq!(r, Ok(()));
    space.flush();
    let t = space.translate(LinearAddress::new(0x123));
    assert_eq!(t, TranslationResult::Resolved(PhysicalAddress::new(0xd000_0123)));
    // flag bits survived the remap: the entry is still present+writable
    let items = walk_hierarchy(&space.mem, space.root);
    assert_eq!(items[3].entry.bits & (PRESENT | WRITABLE), PRESENT | WRITABLE);
}

#[test]
fn remap_of_a_huge_level_2_entry() {
    let mut space = three_level_hierarchy();
    let device = Frame::containing_address(PhysicalAddress::new(0xd000_0000));
    // no level-1 index: the level-2 entry itself is the target
    assert_eq!(space.remap(0, 0, 0, None, device), Ok(()));
    space.flush();
    let t = space.translate(LinearAddress::new(0x0abc));
    assert_eq!(t, TranslationResult::Resolved(PhysicalAddress::new(0xd000_0abc)));
}

#[test]
fn remap_through_missing_entries_fails_and_changes_nothing() {
    let mut space = four_level_hierarchy(0x5000);
    let device = Frame::containing_address(PhysicalAddress::new(0xd000_0000));
    // level-4 entry 1 is absent
    assert_eq!(space.remap(1, 0, 0, Some(0), device), Err(RemapError::MissingMapping(4)));
    // level-3 entry 3 is absent
    assert_eq!(space.remap(0, 3, 0, Some(0), device), Err(RemapError::MissingMapping(3)));
    // level-2 entry 9 is absent
    assert_eq!(space.remap(0, 0, 9, Some(0), device), Err(RemapError::MissingMapping(2)));
    // level-1 entry 1 is absent
    assert_eq!(space.remap(0, 0, 0, Some(1), device), Err(RemapError::MissingMapping(1)));
    // nothing changed, nothing stale: the original mapping stands
    let t = space.translate(LinearAddress::new(0x0));
    assert_eq!(t, TranslationResult::Resolved(PhysicalAddress::new(0x5000)));
}

#[test]
fn remap_below_a_huge_entry_reports_the_terminal_level() {
    let mut space = three_level_hierarchy();
    let device = Frame::containing_address(PhysicalAddress::new(0xd000_0000));
    // the level-2 entry is a huge terminal: there is no level-1 slot
    assert_eq!(space.remap(0, 0, 0, Some(0), device), Err(RemapError::MissingMapping(2)));
}

#[test]
fn probe_matches_the_device_signature() {
    let mut space = four_level_hierarchy(0xd000_0000);
    // the device window: a 4 KiB unit whose first 32-bit word is the
    // virtio signature
    let window = table_with(&[(0, 0x7472_6976)]);
    space.mem.insert_table(0xd000_0000, window);
    assert!(space.probe(LinearAddress::new(0x0), 0x7472_6976));
    assert!(!space.probe(LinearAddress::new(0x0), 0x1234_5678));
}

#[test]
fn probe_of_an_all_zero_window_rejects_the_signature() {
    let mut space = four_level_hierarchy(0xd000_0000);
    space.mem.insert_table(0xd000_0000, PageTable::empty());
    assert!(!space.probe(LinearAddress::new(0x0), 0x7472_6976));
}

#[test]
fn probe_of_an_unmapped_address_fails() {
    let space = four_level_hierarchy(0xd000_0000);
    // linear page 1 has no mapping at all
    assert!(!space.probe(LinearAddress::new(0x1000), 0x7472_6976));
}

#[test]
fn probe_reads_the_high_word_of_a_slot() {
    let mut space = four_level_hierarchy(0xd000_0000);
    let window = table_with(&[(0, 0x7472_6976_0000_0000)]);
    space.mem.insert_table(0xd000_0000, window);
    assert!(space.probe(LinearAddress::new(0x4), 0x7472_6976));
    assert!(!space.probe(LinearAddress::new(0x0), 0x7472_6976));
}
