//! The protective Master Boot Record.
//!
//! A GPT disk carries one legacy MBR in its first sector whose single
//! partition entry spans the whole disk (clamped to the 32-bit LBA
//! range), so that legacy tools do not mistake the disk for an
//! unpartitioned one.  No checksum is involved.

use crate::stream::{push_slice, push_u16_le};
use vstd::bytes::*;
use vstd::prelude::*;

verus! {

/// The one-byte OS type marking an entry as covering a GPT disk.
pub type MbrOsType = u8;

pub const OS_TYPE_UEFI_SYSTEM: MbrOsType = 0xEF;

pub const OS_TYPE_GPT_PROTECTIVE: MbrOsType = 0xEE;

pub const PROTECTIVE_MBR_SIGNATURE: u16 = 0xAA55;

/// One 16-byte partition entry of the MBR.
///
/// The two LBA fields are kept as raw little-endian bytes, as they sit
/// on disk.
pub struct MbrPartitionEntry {
    pub boot_indicator: u8,
    pub start_head: u8,
    pub start_sector: u8,
    pub start_track: u8,
    pub os_type: u8,
    pub end_head: u8,
    pub end_sector: u8,
    pub end_track: u8,
    pub starting_lba: [u8; 4],
    pub size_in_lba: [u8; 4],
}

/// The fixed 512-byte structure of the first sector.
pub struct MasterBootRecord {
    pub bootstrap_code: [u8; 440],
    pub unique_mbr_signature: [u8; 4],
    pub unknown: [u8; 2],
    pub partitions: [MbrPartitionEntry; 4],
    pub signature: u16,
}

/// The size field of the protective entry: the count of LBAs from LBA 1
/// to the end of the disk, saturated to the 32-bit range.
pub open spec fn spec_protective_size_lba(disk_size_lba: u64) -> u32 {
    if disk_size_lba == 0 {
        0u32
    } else if disk_size_lba - 1 > 0xFFFF_FFFF {
        0xFFFF_FFFFu32
    } else {
        (disk_size_lba - 1) as u32
    }
}

/// The 16 bytes of one MBR partition entry, in on-disk order.
pub open spec fn spec_mbr_entry_bytes(e: MbrPartitionEntry) -> Seq<u8> {
    seq![
        e.boot_indicator,
        e.start_head,
        e.start_sector,
        e.start_track,
        e.os_type,
        e.end_head,
        e.end_sector,
        e.end_track,
    ] + e.starting_lba@ + e.size_in_lba@
}

/// The 512 bytes of the whole record, in on-disk order.
pub open spec fn spec_mbr_bytes(m: MasterBootRecord) -> Seq<u8> {
    m.bootstrap_code@ + m.unique_mbr_signature@ + m.unknown@ + spec_mbr_entry_bytes(m.partitions[0])
        + spec_mbr_entry_bytes(m.partitions[1]) + spec_mbr_entry_bytes(m.partitions[2])
        + spec_mbr_entry_bytes(m.partitions[3]) + spec_u16_to_le_bytes(m.signature)
}

/// An all-zero entry, as the three unused slots hold.
fn zero_entry() -> (r: MbrPartitionEntry)
    ensures
        spec_mbr_entry_bytes(r) == crate::stream::zero_bytes(16),
{
    let r = MbrPartitionEntry {
        boot_indicator: 0,
        start_head: 0,
        start_sector: 0,
        start_track: 0,
        os_type: 0,
        end_head: 0,
        end_sector: 0,
        end_track: 0,
        starting_lba: [0u8; 4],
        size_in_lba: [0u8; 4],
    };
    proof {
        assert(spec_mbr_entry_bytes(r) =~= crate::stream::zero_bytes(16));
    }
    r
}

/// The protective entry: it starts at LBA 1 and spans the rest of the
/// disk, its size saturated to `0xFFFFFFFF` rather than wrapped; the
/// geometry bytes hold the conventional placeholders (start head 0,
/// start sector 2, end values saturated), as real CHS addressing is
/// obsolete.
pub fn make_gpt_protective_partition_entry(disk_size_lba: u64) -> (r: MbrPartitionEntry)
    ensures
        r.boot_indicator == 0,
        r.start_head == 0,
        r.start_sector == 0x02,
        r.start_track == 0,
        r.os_type == OS_TYPE_GPT_PROTECTIVE,
        r.end_head == 0xFF,
        r.end_sector == 0xFF,
        r.end_track == 0xFF,
        r.starting_lba@ == spec_u32_to_le_bytes(1u32),
        r.size_in_lba@ == spec_u32_to_le_bytes(spec_protective_size_lba(disk_size_lba)),
        spec_mbr_entry_bytes(r) == spec_protective_entry_bytes(disk_size_lba),
{
    let size: u32 = if disk_size_lba == 0 {
        0
    } else if disk_size_lba - 1 > 0xFFFF_FFFF {
        0xFFFF_FFFF
    } else {
        (disk_size_lba - 1) as u32
    };
    let size_b = u32_to_le_bytes(size);
    let start_b = u32_to_le_bytes(1u32);
    let r = MbrPartitionEntry {
        boot_indicator: 0,
        start_head: 0x00,
        start_sector: 0x02,
        start_track: 0x00,
        os_type: OS_TYPE_GPT_PROTECTIVE,
        end_head: 0xFF,
        end_sector: 0xFF,
        end_track: 0xFF,
        starting_lba: [start_b[0], start_b[1], start_b[2], start_b[3]],
        size_in_lba: [size_b[0], size_b[1], size_b[2], size_b[3]],
    };
    proof {
        assert(r.starting_lba@ =~= spec_u32_to_le_bytes(1u32));
        assert(r.size_in_lba@ =~= spec_u32_to_le_bytes(spec_protective_size_lba(disk_size_lba)));
        assert(spec_mbr_entry_bytes(r) =~= spec_protective_entry_bytes(disk_size_lba));
    }
    r
}

/// The 16 bytes of the protective entry for a disk of the given size.
pub open spec fn spec_protective_entry_bytes(disk_size_lba: u64) -> Seq<u8> {
    seq![0u8, 0u8, 0x02u8, 0u8, OS_TYPE_GPT_PROTECTIVE, 0xFFu8, 0xFFu8, 0xFFu8]
        + spec_u32_to_le_bytes(1u32) + spec_u32_to_le_bytes(
        spec_protective_size_lba(disk_size_lba),
    )
}

/// The full 512 bytes of the protective record for a disk of the given
/// size: 446 zero bytes, the protective entry, three zero entries, and
/// the boot signature.
pub open spec fn spec_protective_mbr_bytes(disk_size_lba: u64) -> Seq<u8> {
    crate::stream::zero_bytes(446) + spec_protective_entry_bytes(disk_size_lba)
        + crate::stream::zero_bytes(48) + spec_u16_to_le_bytes(PROTECTIVE_MBR_SIGNATURE)
}

/// The whole protective record: zeroed bootstrap area and disk
/// signature, the protective entry first, three zero entries, and the
/// boot signature.
pub fn make_gpt_protective_mbr(disk_size_lba: u64) -> (r: MasterBootRecord)
    ensures
        r.bootstrap_code@ == crate::stream::zero_bytes(440),
        r.unique_mbr_signature@ == crate::stream::zero_bytes(4),
        r.unknown@ == crate::stream::zero_bytes(2),
        spec_mbr_entry_bytes(r.partitions[0]) == spec_protective_entry_bytes(disk_size_lba),
        spec_mbr_entry_bytes(r.partitions[1]) == crate::stream::zero_bytes(16),
        spec_mbr_entry_bytes(r.partitions[2]) == crate::stream::zero_bytes(16),
        spec_mbr_entry_bytes(r.partitions[3]) == crate::stream::zero_bytes(16),
        r.signature == PROTECTIVE_MBR_SIGNATURE,
        spec_mbr_bytes(r) == spec_protective_mbr_bytes(disk_size_lba),
{
    let r = MasterBootRecord {
        bootstrap_code: [0u8; 440],
        unique_mbr_signature: [0u8; 4],
        unknown: [0u8; 2],
        partitions: [
            make_gpt_protective_partition_entry(disk_size_lba),
            zero_entry(),
            zero_entry(),
            zero_entry(),
        ],
        signature: PROTECTIVE_MBR_SIGNATURE,
    };
    proof {
        assert(r.bootstrap_code@ =~= crate::stream::zero_bytes(440));
        assert(r.unique_mbr_signature@ =~= crate::stream::zero_bytes(4));
        assert(r.unknown@ =~= crate::stream::zero_bytes(2));
        assert(spec_mbr_bytes(r) =~= spec_protective_mbr_bytes(disk_size_lba));
    }
    r
}

/// The record serialized to its 512 on-disk bytes.
pub fn mbr_to_bytes(m: &MasterBootRecord) -> (r: Vec<u8>)
    ensures
        r@ == spec_mbr_bytes(*m),
        r@.len() == 512,
{
    let mut out: Vec<u8> = Vec::new();
    push_slice(&mut out, m.bootstrap_code.as_slice());
    push_slice(&mut out, m.unique_mbr_signature.as_slice());
    push_slice(&mut out, m.unknown.as_slice());
    push_entry(&mut out, &m.partitions[0]);
    push_entry(&mut out, &m.partitions[1]);
    push_entry(&mut out, &m.partitions[2]);
    push_entry(&mut out, &m.partitions[3]);
    push_u16_le(&mut out, m.signature);
    proof {
        lemma_auto_spec_u16_to_from_le_bytes();
        assert(out@ =~= spec_mbr_bytes(*m));
    }
    out
}

fn push_entry(out: &mut Vec<u8>, e: &MbrPartitionEntry)
    ensures
        final(out)@ == old(out)@ + spec_mbr_entry_bytes(*e),
{
    out.push(e.boot_indicator);
    out.push(e.start_head);
    out.push(e.start_sector);
    out.push(e.start_track);
    out.push(e.os_type);
    out.push(e.end_head);
    out.push(e.end_sector);
    out.push(e.end_track);
    push_slice(out, e.starting_lba.as_slice());
    push_slice(out, e.size_in_lba.as_slice());
    proof {
        assert(out@ =~= old(out)@ + spec_mbr_entry_bytes(*e));
    }
}

/// Converts the given LBA to a CHS address clamped to the largest
/// representable value; the placeholder geometry makes every modern
/// disk clamp, so the answer is constant.
pub fn lba_to_chs_clamped(_lba: u32) -> (r: u32)
    ensures
        r == 0,
{
    0
}

} // verus!
