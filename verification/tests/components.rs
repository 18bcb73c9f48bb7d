// The leaf components: address types, entries, the allocator stub,
// the boot memory map, and the trap-vector state machine.

use paging_core::enumerate_regions;
use paging_core::AllocationError;
use paging_core::EmptyFrameAllocator;
use paging_core::ExceptionContext;
use paging_core::FaultDisposition;
use paging_core::FaultKind;
use paging_core::Frame;
use paging_core::LinearAddress;
use paging_core::MemoryRegion;
use paging_core::Page;
use paging_core::PageTableEntry;
use paging_core::PhysicalAddress;
use paging_core::TrapVectorTable;

#[test]
fn linear_address_decomposes_into_indices_and_offset() {
    // indices 1, 2, 3, 4 and offset 0xabc
    let la = LinearAddress::new((1u64 << 39) | (2 << 30) | (3 << 21) | (4 << 12) | 0xabc);
    assert_eq!(la.l4_index(), 1);
    assert_eq!(la.l3_index(), 2);
    assert_eq!(la.l2_index(), 3);
    assert_eq!(la.l1_index(), 4);
    assert_eq!(la.offset_4k(), 0xabc);
}

#[test]
fn frames_and_pages_align_down() {
    let f = Frame::containing_address(PhysicalAddress::new(0x2abc));
    assert_eq!(f.base.as_u64(), 0x2000);
    let p = Page::containing_address(LinearAddress::new(0xd000_0123));
    assert_eq!(p.base.as_u64(), 0xd000_0000);
}

#[test]
fn entry_flags_decode_from_raw_bits() {
    let e = PageTableEntry::new(0x5000 | 1 | 2);
    assert!(e.is_present());
    assert!(e.is_writable());
    assert!(!e.is_huge());
    assert_eq!(e.frame_base_addr(), 0x5000);
    let absent = PageTableEntry::absent();
    assert!(!absent.is_present());
}

#[test]
fn replacing_a_frame_keeps_every_flag() {
    let e = PageTableEntry::new(0x5000 | 1 | 2 | 128);
    let r = e.with_frame(0xd000_0000);
    assert!(r.is_present());
    assert!(r.is_writable());
    assert!(r.is_huge());
    assert_eq!(r.frame_base_addr(), 0xd000_0000);
}

#[test]
fn allocator_is_always_exhausted() {
    let mut alloc = EmptyFrameAllocator::new();
    assert_eq!(alloc.allocate_frame(), Err(AllocationError::AllocatorExhausted));
    // exhaustion is idempotent: earlier calls change nothing
    assert_eq!(alloc.allocate_frame(), Err(AllocationError::AllocatorExhausted));
    assert_eq!(alloc.allocate_frame(), Err(AllocationError::AllocatorExhausted));
}

#[test]
fn memory_map_stops_at_the_zero_size_sentinel() {
    let regions = vec![
        MemoryRegion { addr: 0x0, size: 0x9fc00, kind: 1 },
        MemoryRegion { addr: 0, size: 0, kind: 0 },
    ];
    let real = enumerate_regions(&regions);
    assert_eq!(real.len(), 1);
    assert_eq!(real[0], MemoryRegion { addr: 0x0, size: 0x9fc00, kind: 1 });
}

#[test]
fn memory_map_without_sentinel_is_taken_whole() {
    let regions = vec![
        MemoryRegion { addr: 0x0, size: 0x9fc00, kind: 1 },
        MemoryRegion { addr: 0x100000, size: 0x7ee0000, kind: 1 },
    ];
    let real = enumerate_regions(&regions);
    assert_eq!(real.len(), 2);
}

#[test]
fn memory_map_ignores_records_after_the_sentinel() {
    let regions = vec![
        MemoryRegion { addr: 0x0, size: 0x1000, kind: 1 },
        MemoryRegion { addr: 0, size: 0, kind: 0 },
        MemoryRegion { addr: 0x5000, size: 0x1000, kind: 2 },
    ];
    let real = enumerate_regions(&regions);
    assert_eq!(real.len(), 1);
    assert_eq!(real[0].addr, 0x0);
}

#[test]
fn trap_table_installs_once_and_stays_installed() {
    let mut idt = TrapVectorTable::new();
    assert!(!idt.installed);
    assert!(idt.handler_registered(FaultKind::PageFault));
    assert!(idt.handler_registered(FaultKind::DoubleFault));
    idt.install();
    assert!(idt.installed);
    // a second installation observes the already-built table
    idt.install();
    assert!(idt.installed);
    assert!(idt.page_fault_registered);
    assert!(idt.double_fault_registered);
}

#[test]
fn both_fault_handlers_halt() {
    let mut idt = TrapVectorTable::new();
    idt.install();
    let page_fault = ExceptionContext {
        instruction_pointer: 0x1000,
        stack_pointer: 0x8000,
        error_code: 0b10,
        faulting_address: Some(0xdead_beef),
    };
    assert_eq!(idt.handle_page_fault(&page_fault), FaultDisposition::Halt);
    let double_fault = ExceptionContext {
        instruction_pointer: 0x1000,
        stack_pointer: 0x8000,
        error_code: 0,
        faulting_address: None,
    };
    assert_eq!(idt.handle_double_fault(&double_fault), FaultDisposition::Halt);
}

#[test]
fn page_fault_error_code_decodes_bit_by_bit() {
    let ctx = ExceptionContext {
        instruction_pointer: 0,
        stack_pointer: 0,
        error_code: 0b10011,
        faulting_address: Some(0),
    };
    let flags = ctx.decode_error();
    assert!(flags.protection_violation);
    assert!(flags.caused_by_write);
    assert!(!flags.user_mode);
    assert!(!flags.malformed_table);
    assert!(flags.instruction_fetch);
}
