//! The trap-vector table: a two-state machine (uninitialized, then
//! installed once and immutable) dispatching the two handled
//! exception conditions. Both handlers are terminal sinks: with no
//! demand paging there is nothing to recover, so the policy for each
//! is to diagnose and halt. The double-fault handler must do nothing
//! that could itself fault, so it decodes nothing and walks nothing.

use vstd::prelude::*;

verus! {

/// The hardware exception conditions this core installs handlers for.
#[derive(Clone, Copy, PartialEq, Eq, Structural, Debug)]
pub enum FaultKind {
    /// A translation failed.
    PageFault,
    /// Delivering another exception itself faulted.
    DoubleFault,
}

/// What a handler tells the dispatch mechanism to do. Both installed
/// handlers always halt; `Resume` exists so a future recovery policy
/// could return instead.
#[derive(Clone, Copy, PartialEq, Eq, Structural, Debug)]
pub enum FaultDisposition {
    Halt,
    Resume,
}

/// Context captured at fault time: the faulting instruction and stack
/// pointers, the hardware error code, and, for page faults only, the
/// linear address whose translation failed.
#[derive(Clone, Copy, PartialEq, Eq, Debug)]
pub struct ExceptionContext {
    pub instruction_pointer: u64,
    pub stack_pointer: u64,
    pub error_code: u64,
    pub faulting_address: Option<u64>,
}

/// The page-fault error code, decoded bit by bit.
#[derive(Clone, Copy, PartialEq, Eq, Structural, Debug)]
pub struct PageFaultErrorFlags {
    /// Set: a protection violation on a present entry; clear: the
    /// entry was not present.
    pub protection_violation: bool,
    /// The access was a write.
    pub caused_by_write: bool,
    /// The access came from user mode.
    pub user_mode: bool,
    /// A reserved bit was set in some entry on the path.
    pub malformed_table: bool,
    /// The access was an instruction fetch.
    pub instruction_fetch: bool,
}

impl ExceptionContext {
    /// Decode the hardware error code of a page fault.
    pub fn decode_error(&self) -> (r: PageFaultErrorFlags)
        ensures
            r.protection_violation == (self.error_code & 1 == 1),
            r.caused_by_write == (self.error_code & 2 == 2),
            r.user_mode == (self.error_code & 4 == 4),
            r.malformed_table == (self.error_code & 8 == 8),
            r.instruction_fetch == (self.error_code & 16 == 16),
    {
        PageFaultErrorFlags {
            protection_violation: self.error_code & 1 == 1,
            caused_by_write: self.error_code & 2 == 2,
            user_mode: self.error_code & 4 == 4,
            malformed_table: self.error_code & 8 == 8,
            instruction_fetch: self.error_code & 16 == 16,
        }
    }
}

/// Process-wide dispatch state: built once with both handlers
/// registered, then installed into the hardware dispatch mechanism
/// exactly once. After installation the table is immutable — the
/// hardware consults it directly on every exception.
pub struct TrapVectorTable {
    pub installed: bool,
    pub page_fault_registered: bool,
    pub double_fault_registered: bool,
}

impl TrapVectorTable {
    /// Build the table with handlers for both conditions registered;
    /// nothing is active until `install` runs.
    pub fn new() -> (r: TrapVectorTable)
        ensures
            !r.installed,
            r.page_fault_registered,
            r.double_fault_registered,
    {
        TrapVectorTable { installed: false, page_fault_registered: true, double_fault_registered: true }
    }

    /// Whether a handler for the given condition is registered.
    pub fn handler_registered(&self, kind: FaultKind) -> (r: bool)
        ensures
            r == (match kind {
                FaultKind::PageFault => self.page_fault_registered,
                FaultKind::DoubleFault => self.double_fault_registered,
            }),
    {
        match kind {
            FaultKind::PageFault => self.page_fault_registered,
            FaultKind::DoubleFault => self.double_fault_registered,
        }
    }

    /// The one-shot installation, to run before any operation that
    /// could plausibly fault. Idempotent by construction: a repeated
    /// call observes the already-installed table and changes nothing.
    pub fn install(&mut self)
        ensures
            final(self).installed,
            final(self).page_fault_registered == old(self).page_fault_registered,
            final(self).double_fault_registered == old(self).double_fault_registered,
            old(self).installed ==> *final(self) == *old(self),
    {
        if !self.installed {
            self.installed = true;
        }
    }

    /// The page-fault policy: always fatal, since no demand paging
    /// exists to resolve the fault; the caller emits the context
    /// through the diagnostic channel and then halts.
    pub fn handle_page_fault(&self, ctx: &ExceptionContext) -> (r: FaultDisposition)
        requires
            self.installed,
            self.page_fault_registered,
            ctx.faulting_address is Some,
        ensures
            r == FaultDisposition::Halt,
    {
        FaultDisposition::Halt
    }

    /// The double-fault policy: always fatal, and deliberately inert
    /// — nothing here may fault again, or the machine triple-faults
    /// and resets.
    pub fn handle_double_fault(&self, ctx: &ExceptionContext) -> (r: FaultDisposition)
        requires
            self.installed,
            self.double_fault_registered,
        ensures
            r == FaultDisposition::Halt,
    {
        FaultDisposition::Halt
    }
}

} // verus!
