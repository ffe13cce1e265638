//! The kernel's global allocator stub.
//!
//! Kernel code forbids infallible global allocation; the allocator
//! object itself carries no state, and its allocating entry points
//! (which only panic) stay with the kernel binary.

use vstd::prelude::*;

verus! {

/// The stateless kernel global allocator.
pub struct KernelGlobalAlloc {
    _ph: core::marker::PhantomData<()>,
}

impl KernelGlobalAlloc {
    pub fn new() -> Self {
        KernelGlobalAlloc { _ph: core::marker::PhantomData }
    }
}

} // verus!
