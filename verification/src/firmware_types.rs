//! Plain firmware table records.
//!
//! The memory map the firmware hands over at boot describes each
//! region with a fixed-layout descriptor of plain integers.

use vstd::prelude::*;

verus! {

/// One region of the firmware memory map.
#[derive(Clone, Copy, Debug)]
pub struct RawMemoryDescriptor {
    pub desc_type: u32,
    pub physical_start: u64,
    pub virtual_start: u64,
    pub number_of_pages: u64,
    pub attributes: u64,
}

} // verus!
