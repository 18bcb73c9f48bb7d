//! The two touch points with the running hardware: reading the
//! top-level table register that names the active level-4 table, and
//! issuing the full translation-cache flush. Everything else this
//! core does works on the modeled tables, so these are the only
//! operations taken on trust.

use vstd::prelude::*;

use crate::addr::PhysicalAddress;

verus! {

/// Relies on x86_64's Cr3::read: the register value is masked to the
/// frame-address bits (12..=51) and aligned down to 4 KiB before the
/// frame's start address is handed back, so the low 12 bits are clear.
#[verifier::external_body]
fn read_top_level_table_register() -> (r: u64)
    ensures
        r & 0xfff == 0,
{
    x86_64::registers::control::Cr3::read().0.start_address().as_u64()
}

/// Relies on x86_64's tlb::flush_all: reloading the top-level table
/// register invalidates this hardware thread's whole translation
/// cache. Nothing is promised of its effect; callers sequence it as
/// the remap contract demands.
#[verifier::external_body]
fn reload_translation_cache() {
    x86_64::instructions::tlb::flush_all();
}

/// The physical base of the level-4 table the firmware or bootloader
/// installed: where a walk or a translation of the live hierarchy
/// starts. Only meaningful on hardware whose paging is enabled.
pub fn active_level_4_table_base() -> (r: PhysicalAddress)
    ensures
        r.is_aligned_4k(),
{
    PhysicalAddress::new(read_top_level_table_register())
}

/// Issue the full hardware flush that a remap of the live hierarchy
/// requires before any further translation may be trusted.
pub fn flush_translation_cache_hardware() {
    reload_translation_cache();
}

} // verus!
