//! The lifecycle of the firmware-backed allocator.
//!
//! The pool allocator the firmware lends is valid only between the
//! firmware handoff and the exit from boot services.  Its adapter keeps
//! an explicit lifecycle state and fails closed outside the active
//! window, rather than trusting caller discipline; the function
//! pointers themselves live with the adapter, outside this model.

use vstd::prelude::*;

verus! {

/// Where the boot allocator stands in its life.
#[derive(Clone, Copy, Debug, PartialEq, Eq, Structural)]
pub enum AllocPhase {
    /// Before the firmware handoff: no service to call.
    Uninitialized,
    /// Between handoff and the exit from boot services.
    Active,
    /// After the exit: the service is gone for good.
    Retired,
}

/// The decision state of the boot allocator adapter.
pub struct BootAllocState {
    phase: AllocPhase,
}

impl BootAllocState {
    pub closed spec fn spec_phase(&self) -> AllocPhase {
        self.phase
    }

    /// The state before the firmware handoff.
    pub fn new_uninit() -> (r: Self)
        ensures
            r.spec_phase() == AllocPhase::Uninitialized,
    {
        BootAllocState { phase: AllocPhase::Uninitialized }
    }

    /// The firmware handoff: the allocator becomes active, but a
    /// retired allocator never comes back.
    pub fn init_boot_alloc(&mut self)
        ensures
            final(self).spec_phase() == (if old(self).spec_phase() == AllocPhase::Retired {
                AllocPhase::Retired
            } else {
                AllocPhase::Active
            }),
    {
        if !matches!(self.phase, AllocPhase::Retired) {
            self.phase = AllocPhase::Active;
        }
    }

    /// The exit from boot services: the allocator is gone for good.
    pub fn exit_boot_alloc(&mut self)
        ensures
            final(self).spec_phase() == AllocPhase::Retired,
    {
        self.phase = AllocPhase::Retired;
    }

    /// Whether an allocation or release may be forwarded to the
    /// firmware: only inside the active window.
    pub fn may_use_pool(&self) -> (r: bool)
        ensures
            r == (self.spec_phase() == AllocPhase::Active),
    {
        matches!(self.phase, AllocPhase::Active)
    }
}

} // verus!
