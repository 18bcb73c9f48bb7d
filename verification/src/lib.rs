//! Address-translation core for a freestanding execution environment:
//! value types for physical and linear addresses, a model of the
//! four-level page-table hierarchy, a walker that enumerates present
//! mappings, a translator, a remap operation with its required
//! translation-cache flush, a trap-vector state machine, and a
//! memory-mapped-device signature probe.

mod addr;
mod bootmap;
mod frame_alloc;
mod hw;
mod mem;
mod mmio;
mod remap;
mod table;
mod translate;
mod trap;
mod walker;

pub use addr::Frame;
pub use addr::LinearAddress;
pub use addr::Page;
pub use addr::PhysicalAddress;
pub use bootmap::enumerate_regions;
pub use bootmap::MemoryRegion;
pub use frame_alloc::AllocationError;
pub use frame_alloc::EmptyFrameAllocator;
pub use hw::active_level_4_table_base;
pub use hw::flush_translation_cache_hardware;
pub use mem::PhysMem;
pub use remap::RemapError;
pub use table::PageTable;
pub use table::PageTableEntry;
pub use translate::AddressSpace;
pub use translate::TranslationResult;
pub use trap::ExceptionContext;
pub use trap::FaultDisposition;
pub use trap::FaultKind;
pub use trap::PageFaultErrorFlags;
pub use trap::TrapVectorTable;
pub use walker::walk_hierarchy;
pub use walker::WalkItem;
