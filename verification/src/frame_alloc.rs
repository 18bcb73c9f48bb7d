//! The physical-frame allocator stub. A real allocator is a future
//! collaborator; this one documents its absence by reporting
//! exhaustion on every request, so nothing in this core can come to
//! depend on allocation succeeding.

use vstd::prelude::*;

use crate::addr::Frame;

verus! {

/// Why a frame request failed.
#[derive(Clone, Copy, PartialEq, Eq, Structural, Debug)]
pub enum AllocationError {
    /// No frame is available; with the stub allocator, none ever is.
    AllocatorExhausted,
}

/// The deliberately minimal allocator: it owns no frames at all.
pub struct EmptyFrameAllocator;

impl EmptyFrameAllocator {
    pub fn new() -> (r: EmptyFrameAllocator) {
        EmptyFrameAllocator
    }

    /// Request a frame. Exhaustion is idempotent: the answer does not
    /// depend on any earlier call.
    pub fn allocate_frame(&mut self) -> (r: Result<Frame, AllocationError>)
        ensures
            r == Result::<Frame, AllocationError>::Err(AllocationError::AllocatorExhausted),
            *final(self) == *old(self),
    {
        Err(AllocationError::AllocatorExhausted)
    }
}

} // verus!
