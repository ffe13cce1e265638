//! Reading the loaded kernel image's ELF64 header.
//!
//! The boot sequence only needs to check that the loaded bytes are a
//! 64-bit ELF image and to extract the entry-point virtual address and
//! the program-header table that says where the image's segments go.
//! Anything else about the image is none of this loader's business.

use crate::devpath::BootError;
use vstd::bytes::*;
use vstd::prelude::*;

verus! {

/// The bytes begin with the ELF magic and the class byte marks a
/// 64-bit image with a full 64-byte header present.
pub open spec fn spec_is_elf64(b: Seq<u8>) -> bool {
    &&& b.len() >= 64
    &&& b[0] == 0x7Fu8
    &&& b[1] == 0x45u8
    &&& b[2] == 0x4Cu8
    &&& b[3] == 0x46u8
    &&& b[4] == 2u8
}

/// The entry-point virtual address stored at offset 24.
pub open spec fn spec_elf64_entry(b: Seq<u8>) -> u64
    recommends
        spec_is_elf64(b),
{
    spec_u64_from_le_bytes(b.subrange(24, 32))
}

/// The entry-point address of a 64-bit ELF image.  Anything that is
/// not a 64-bit ELF image is rejected as a format error.
pub fn elf64_entry_point(image: &[u8]) -> (r: Result<u64, BootError>)
    ensures
        (r matches Ok(e)) <==> spec_is_elf64(image@),
        r matches Ok(e) ==> e == spec_elf64_entry(image@),
        r matches Err(e) ==> e == BootError::NotElf64,
{
    if image.len() < 64 {
        return Err(BootError::NotElf64);
    }
    if image[0] != 0x7F || image[1] != 0x45 || image[2] != 0x4C || image[3] != 0x46 {
        return Err(BootError::NotElf64);
    }
    if image[4] != 2 {
        return Err(BootError::NotElf64);
    }
    let entry = u64_from_le_bytes(vstd::slice::slice_subrange(image, 24, 32));
    Ok(entry)
}

/// One program header: where a run of image bytes goes in memory.
#[derive(Clone, Copy, Debug)]
pub struct Elf64Segment {
    pub p_type: u32,
    pub offset: u64,
    pub vaddr: u64,
    pub file_size: u64,
    pub mem_size: u64,
}

/// The program-header table's offset, entry size and entry count, from
/// the fixed offsets of the ELF64 header.
pub open spec fn spec_elf64_phoff(b: Seq<u8>) -> u64 {
    spec_u64_from_le_bytes(b.subrange(32, 40))
}

pub open spec fn spec_elf64_phentsize(b: Seq<u8>) -> u16 {
    spec_u16_from_le_bytes(b.subrange(54, 56))
}

pub open spec fn spec_elf64_phnum(b: Seq<u8>) -> u16 {
    spec_u16_from_le_bytes(b.subrange(56, 58))
}

/// The segment described by the program header at byte offset `at`.
pub open spec fn spec_segment_at(b: Seq<u8>, at: int) -> Elf64Segment
    recommends
        0 <= at,
        at + 56 <= b.len(),
{
    Elf64Segment {
        p_type: spec_u32_from_le_bytes(b.subrange(at, at + 4)),
        offset: spec_u64_from_le_bytes(b.subrange(at + 8, at + 16)),
        vaddr: spec_u64_from_le_bytes(b.subrange(at + 16, at + 24)),
        file_size: spec_u64_from_le_bytes(b.subrange(at + 32, at + 40)),
        mem_size: spec_u64_from_le_bytes(b.subrange(at + 40, at + 48)),
    }
}

/// Whether the whole program-header table lies inside the image, with
/// entries big enough to read.
pub open spec fn spec_phdrs_in_bounds(b: Seq<u8>) -> bool {
    &&& spec_elf64_phentsize(b) >= 56
    &&& spec_elf64_phoff(b) + spec_elf64_phnum(b) * spec_elf64_phentsize(b) <= b.len()
}

/// The program headers of a 64-bit ELF image, in table order.  Fails
/// on anything that is not a 64-bit ELF image and on a table that
/// reaches past the image or whose entries are too small.
pub fn elf64_program_headers(image: &[u8]) -> (r: Result<Vec<Elf64Segment>, BootError>)
    ensures
        (r matches Ok(v)) <==> (spec_is_elf64(image@) && spec_phdrs_in_bounds(image@)),
        r matches Ok(v) ==> {
            &&& v@.len() == spec_elf64_phnum(image@)
            &&& (forall|i: int|
                0 <= i < v@.len() ==> #[trigger] v@[i] == spec_segment_at(
                    image@,
                    spec_elf64_phoff(image@) + i * spec_elf64_phentsize(image@),
                ))
        },
        r matches Err(e) ==> e == BootError::NotElf64,
{
    if image.len() < 64 {
        return Err(BootError::NotElf64);
    }
    if image[0] != 0x7F || image[1] != 0x45 || image[2] != 0x4C || image[3] != 0x46 || image[4]
        != 2 {
        return Err(BootError::NotElf64);
    }
    let phoff = u64_from_le_bytes(vstd::slice::slice_subrange(image, 32, 40));
    let phentsize = u16_from_le_bytes(vstd::slice::slice_subrange(image, 54, 56));
    let phnum = u16_from_le_bytes(vstd::slice::slice_subrange(image, 56, 58));
    if phentsize < 56 {
        return Err(BootError::NotElf64);
    }
    proof {
        assert(0 <= (phnum as int) * (phentsize as int) <= u64::MAX) by (nonlinear_arith)
            requires
                0 <= phnum <= u16::MAX,
                0 <= phentsize <= u16::MAX,
        ;
    }
    let table_bytes: u64 = (phnum as u64) * (phentsize as u64);
    if phoff > image.len() as u64 || table_bytes > image.len() as u64 - phoff {
        proof {
            assert(spec_elf64_phoff(image@) + spec_elf64_phnum(image@) * spec_elf64_phentsize(
                image@,
            ) > image@.len());
        }
        return Err(BootError::NotElf64);
    }
    let mut segs: Vec<Elf64Segment> = Vec::new();
    let mut i: usize = 0;
    while i < phnum as usize
        invariant
            i <= phnum as usize,
            spec_is_elf64(image@),
            phoff == spec_elf64_phoff(image@),
            phentsize == spec_elf64_phentsize(image@),
            phnum == spec_elf64_phnum(image@),
            phentsize >= 56,
            phoff + phnum * phentsize <= image.len(),
            segs@.len() == i,
            forall|j: int|
                0 <= j < i ==> #[trigger] segs@[j] == spec_segment_at(
                    image@,
                    phoff + j * phentsize,
                ),
        decreases phnum as int - i,
    {
        proof {
            assert((i as int) * phentsize + phentsize <= phnum * phentsize && 0 <= (i as int)
                * phentsize) by (nonlinear_arith)
                requires
                    0 <= i < phnum,
                    phentsize >= 56,
            ;
            assert(phoff + (i as int) * phentsize + phentsize <= image.len());
        }
        let at: usize = (phoff as usize) + i * (phentsize as usize);
        let seg = Elf64Segment {
            p_type: u32_from_le_bytes(vstd::slice::slice_subrange(image, at, at + 4)),
            offset: u64_from_le_bytes(vstd::slice::slice_subrange(image, at + 8, at + 16)),
            vaddr: u64_from_le_bytes(vstd::slice::slice_subrange(image, at + 16, at + 24)),
            file_size: u64_from_le_bytes(vstd::slice::slice_subrange(image, at + 32, at + 40)),
            mem_size: u64_from_le_bytes(vstd::slice::slice_subrange(image, at + 40, at + 48)),
        };
        segs.push(seg);
        i = i + 1;
    }
    Ok(segs)
}

} // verus!
