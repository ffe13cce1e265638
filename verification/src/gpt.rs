//! The GUID Partition Table model and its byte-exact serialization.
//!
//! A [`GptDisk`] owns the block size, the disk size in LBA, the ordered
//! partition list and both header copies.  The two headers mirror one
//! another: `my_lba` and `alternate_lba` are swapped and the partition
//! array sits just after the primary header near the front of the disk
//! and just before the backup header near its end.  Checksums are
//! stored, not derived: after every mutation [`GptDisk::update_crc`]
//! must run before serialization, and the partition-array checksum must
//! be computed first because the header checksum covers it.

use crate::checksum::{crc32, crc32_of};
use crate::guid::{mixed_endian, Guid};
use crate::memdisk::{resize_bytes, splice, lemma_splice_adjacent, lemma_splice_len, MemDisk, SeekPos};
use crate::stream::{push_slice, push_u32_le, push_u64_le, push_zeros, zero_bytes};
use vstd::bytes::*;
use vstd::slice::slice_subrange;
use vstd::prelude::*;

verus! {

pub const DEFAULT_BLOCK_SIZE: usize = 512;

/// One UTF-16LE code unit of a partition name.
pub type Utf16LEChar = u16;

pub const GPT_HEADER_SIGNATURE: u64 = 0x5452415020494645;

pub const GPT_REVISION: u32 = 0x00010000;

pub const GPT_HEADER_SIZE: u32 = 92;

pub const GPT_ENTRY_SIZE: u32 = 128;

/// The partition entry array spans LBA 2 through 33: at 128 bytes per
/// entry and 512-byte or larger blocks it holds at most 128 entries.
pub const GPT_MAX_PARTITIONS: usize = 128;

/// The all-zero type GUID marking an unused partition entry.
pub fn partition_type_unused() -> (r: Guid)
    ensures
        r@ == Guid::spec_from_u128(0),
{
    Guid::from_u128(0)
}

/// The well-known EFI System Partition type GUID.
pub fn partition_type_efi_system() -> (r: Guid)
    ensures
        r@ == Guid::spec_from_u128(0xC12A7328_F81F_11D2_BA4B_00A0C93EC93B),
{
    Guid::from_u128(0xC12A7328_F81F_11D2_BA4B_00A0C93EC93B)
}

/// A partition name from UTF-16 code units: at most 35 are kept, and
/// the rest of the 36 slots hold the zero code unit.
pub fn utf16_to_array_nul(units: &[u16]) -> (r: [Utf16LEChar; 36])
    ensures
        r@ == Seq::new(
            36,
            |i: int|
                if i < 35 && i < units@.len() {
                    units@[i]
                } else {
                    0u16
                },
        ),
{
    let mut buf: [u16; 36] = [0u16; 36];
    let take = if units.len() < 35 {
        units.len()
    } else {
        35
    };
    let mut i: usize = 0;
    while i < take
        invariant
            i <= take,
            take <= 35,
            take <= units@.len(),
            forall|j: int| 0 <= j < i ==> buf@[j] == units@[j],
            forall|j: int| i <= j < 36 ==> buf@[j] == 0u16,
        decreases take - i,
    {
        buf[i] = units[i];
        i = i + 1;
    }
    proof {
        assert(buf@ =~= Seq::new(
            36,
            |i: int|
                if i < 35 && i < units@.len() {
                    units@[i]
                } else {
                    0u16
                },
        ));
    }
    buf
}

/// Why a disk or partition could not be built.
#[derive(Clone, Copy, Debug, PartialEq, Eq, Structural)]
pub enum GptError {
    /// The disk is too small for headers, reserved zones and one
    /// partition, or the block size is under 512 bytes.
    InvalidGeometry,
    /// The partition entry array is full.
    TableFull,
    /// The requested partition would end past the last usable LBA.
    InsufficientSpace,
}

/// One header copy.  All fields sit on disk little-endian, in this
/// order, with four reserved zero bytes after `header_crc32` and the
/// GUID in mixed-endian form.
#[derive(Clone, Copy, Debug)]
pub struct GptHeader {
    pub signature: u64,
    pub revision: u32,
    pub header_size: u32,
    pub header_crc32: u32,
    pub my_lba: u64,
    pub alternate_lba: u64,
    pub first_usable_lba: u64,
    pub last_usable_lba: u64,
    pub disk_guid: Guid,
    pub partition_array_start_lba: u64,
    pub num_partition_entries: u32,
    pub partition_entry_size: u32,
    pub partition_array_crc32: u32,
}

/// A partition's 64-bit attribute bitfield.
#[derive(Clone, Copy, Debug)]
pub struct GptPartitionAttribs(pub u64);

impl GptPartitionAttribs {
    pub fn zero() -> (r: Self)
        ensures
            r.0 == 0,
    {
        GptPartitionAttribs(0)
    }

    pub fn from_raw(raw_bits: u64) -> (r: Self)
        ensures
            r.0 == raw_bits,
    {
        GptPartitionAttribs(raw_bits)
    }

    pub fn as_raw(&self) -> (r: &u64)
        ensures
            *r == self.0,
    {
        &self.0
    }
}

/// One partition: its type and unique identifiers, its inclusive LBA
/// range, attributes, and a 36-code-unit zero-padded UTF-16LE name.
#[derive(Clone, Copy, Debug)]
pub struct GptPartition {
    pub partition_type_guid: Guid,
    pub unique_guid: Guid,
    pub size_in_lba: u64,
    pub attributes: GptPartitionAttribs,
    pub partition_name: [Utf16LEChar; 36],
    pub start_lba: u64,
    pub end_lba_incl: u64,
}

/// The UTF-16LE bytes of a name: each code unit little-endian, in order.
pub open spec fn spec_name_bytes(name: Seq<u16>) -> Seq<u8>
    decreases name.len(),
{
    if name.len() == 0 {
        Seq::empty()
    } else {
        spec_u16_to_le_bytes(name[0]) + spec_name_bytes(name.drop_first())
    }
}

pub proof fn lemma_name_bytes_len(name: Seq<u16>)
    ensures
        spec_name_bytes(name).len() == 2 * name.len(),
    decreases name.len(),
{
    lemma_auto_spec_u16_to_from_le_bytes();
    if name.len() > 0 {
        lemma_name_bytes_len(name.drop_first());
    }
}

proof fn lemma_name_bytes_push(name: Seq<u16>, x: u16)
    ensures
        spec_name_bytes(name.push(x)) == spec_name_bytes(name) + spec_u16_to_le_bytes(x),
    decreases name.len(),
{
    let e = spec_u16_to_le_bytes(x);
    if name.len() == 0 {
        assert(name.push(x).drop_first() =~= Seq::<u16>::empty());
        assert(name.push(x)[0] == x);
        assert(spec_name_bytes(Seq::<u16>::empty()) == Seq::<u8>::empty());
        assert(spec_name_bytes(name.push(x)) == e + Seq::<u8>::empty());
        assert(e + Seq::<u8>::empty() =~= Seq::<u8>::empty() + e);
    } else {
        lemma_name_bytes_push(name.drop_first(), x);
        assert(name.push(x).drop_first() =~= name.drop_first().push(x));
        assert(name.push(x)[0] == name[0]);
        let h = spec_u16_to_le_bytes(name[0]);
        let t = spec_name_bytes(name.drop_first());
        assert(spec_name_bytes(name.push(x)) == h + (t + e));
        assert(h + (t + e) =~= (h + t) + e);
    }
}

fn push_name(out: &mut Vec<u8>, name: &[Utf16LEChar; 36])
    ensures
        final(out)@ == old(out)@ + spec_name_bytes(name@),
{
    let mut i: usize = 0;
    while i < 36
        invariant
            i <= 36,
            out@ == old(out)@ + spec_name_bytes(name@.take(i as int)),
        decreases 36 - i,
    {
        crate::stream::push_u16_le(out, name[i]);
        proof {
            lemma_name_bytes_push(name@.take(i as int), name@[i as int]);
            assert(name@.take(i + 1) =~= name@.take(i as int).push(name@[i as int]));
        }
        i = i + 1;
    }
    proof {
        assert(name@.take(36) =~= name@);
    }
}

/// The on-disk bytes of one partition entry: both GUIDs mixed-endian,
/// the LBA range, the attributes, the name, and zero padding up to the
/// configured entry size.
pub open spec fn spec_entry_bytes(p: GptPartition, entry_size: u32) -> Seq<u8>
    recommends
        entry_size >= 128,
{
    mixed_endian(p.partition_type_guid@) + mixed_endian(p.unique_guid@) + spec_u64_to_le_bytes(
        p.start_lba,
    ) + spec_u64_to_le_bytes(p.end_lba_incl) + spec_u64_to_le_bytes(p.attributes.0)
        + spec_name_bytes(p.partition_name@) + zero_bytes((entry_size - 128) as nat)
}

pub proof fn lemma_entry_bytes_len(p: GptPartition, entry_size: u32)
    requires
        entry_size >= 128,
    ensures
        spec_entry_bytes(p, entry_size).len() == entry_size,
{
    lemma_auto_spec_u64_to_from_le_bytes();
    lemma_name_bytes_len(p.partition_name@);
}

/// One partition entry serialized to its on-disk bytes.
pub fn entry_to_bytes(p: &GptPartition, entry_size: u32) -> (r: Vec<u8>)
    requires
        entry_size >= 128,
    ensures
        r@ == spec_entry_bytes(*p, entry_size),
        r@.len() == entry_size,
{
    let mut out: Vec<u8> = Vec::new();
    let type_mixed = p.partition_type_guid.to_mixed_bytes();
    push_slice(&mut out, type_mixed.as_slice());
    let unique_mixed = p.unique_guid.to_mixed_bytes();
    push_slice(&mut out, unique_mixed.as_slice());
    push_u64_le(&mut out, p.start_lba);
    push_u64_le(&mut out, p.end_lba_incl);
    push_u64_le(&mut out, p.attributes.0);
    push_name(&mut out, &p.partition_name);
    push_zeros(&mut out, (entry_size - 128) as usize);
    proof {
        assert(out@ =~= spec_entry_bytes(*p, entry_size));
        lemma_entry_bytes_len(*p, entry_size);
    }
    out
}

/// The on-disk bytes of a whole partition entry array: each entry in
/// order, each padded to the entry size.
pub open spec fn spec_array_bytes(ps: Seq<GptPartition>, entry_size: u32) -> Seq<u8>
    decreases ps.len(),
{
    if ps.len() == 0 {
        Seq::empty()
    } else {
        spec_entry_bytes(ps[0], entry_size) + spec_array_bytes(ps.drop_first(), entry_size)
    }
}

pub proof fn lemma_array_bytes_len(ps: Seq<GptPartition>, entry_size: u32)
    requires
        entry_size >= 128,
    ensures
        spec_array_bytes(ps, entry_size).len() == ps.len() * entry_size,
    decreases ps.len(),
{
    if ps.len() == 0 {
    } else {
        lemma_entry_bytes_len(ps[0], entry_size);
        lemma_array_bytes_len(ps.drop_first(), entry_size);
        assert(ps.len() * entry_size == entry_size + (ps.len() - 1) * entry_size)
            by (nonlinear_arith);
    }
}

pub proof fn lemma_array_bytes_push(ps: Seq<GptPartition>, entry_size: u32, p: GptPartition)
    ensures
        spec_array_bytes(ps.push(p), entry_size) == spec_array_bytes(ps, entry_size)
            + spec_entry_bytes(p, entry_size),
    decreases ps.len(),
{
    let e = spec_entry_bytes(p, entry_size);
    if ps.len() == 0 {
        assert(ps.push(p).drop_first() =~= Seq::<GptPartition>::empty());
        assert(ps.push(p)[0] == p);
        assert(spec_array_bytes(Seq::<GptPartition>::empty(), entry_size) == Seq::<u8>::empty());
        assert(spec_array_bytes(ps.push(p), entry_size) == e + Seq::<u8>::empty());
        assert(e + Seq::<u8>::empty() =~= Seq::<u8>::empty() + e);
    } else {
        lemma_array_bytes_push(ps.drop_first(), entry_size, p);
        assert(ps.push(p).drop_first() =~= ps.drop_first().push(p));
        assert(ps.push(p)[0] == ps[0]);
        let h = spec_entry_bytes(ps[0], entry_size);
        let t = spec_array_bytes(ps.drop_first(), entry_size);
        assert(spec_array_bytes(ps.push(p), entry_size) == h + (t + e));
        assert(h + (t + e) =~= (h + t) + e);
    }
}

/// The partition array serialized to its on-disk bytes.
pub fn array_to_bytes(ps: &Vec<GptPartition>, entry_size: u32) -> (r: Vec<u8>)
    requires
        entry_size >= 128,
        ps@.len() * entry_size <= usize::MAX,
    ensures
        r@ == spec_array_bytes(ps@, entry_size),
{
    let mut out: Vec<u8> = Vec::new();
    let mut i: usize = 0;
    while i < ps.len()
        invariant
            i <= ps@.len(),
            entry_size >= 128,
            out@ == spec_array_bytes(ps@.take(i as int), entry_size),
        decreases ps@.len() - i,
    {
        let mut e = entry_to_bytes(&ps[i], entry_size);
        out.append(&mut e);
        proof {
            lemma_array_bytes_push(ps@.take(i as int), entry_size, ps@[i as int]);
            assert(ps@.take(i + 1) =~= ps@.take(i as int).push(ps@[i as int]));
        }
        i = i + 1;
    }
    proof {
        assert(ps@.take(ps@.len() as int) =~= ps@);
    }
    out
}

/// The 92 on-disk bytes of a header, in field order, all little-endian,
/// with four reserved zero bytes after the header checksum and the disk
/// GUID mixed-endian.
pub open spec fn spec_header_bytes(h: GptHeader) -> Seq<u8> {
    spec_u64_to_le_bytes(h.signature) + spec_u32_to_le_bytes(h.revision) + spec_u32_to_le_bytes(
        h.header_size,
    ) + spec_u32_to_le_bytes(h.header_crc32) + spec_u32_to_le_bytes(0u32) + spec_u64_to_le_bytes(
        h.my_lba,
    ) + spec_u64_to_le_bytes(h.alternate_lba) + spec_u64_to_le_bytes(h.first_usable_lba)
        + spec_u64_to_le_bytes(h.last_usable_lba) + mixed_endian(h.disk_guid@)
        + spec_u64_to_le_bytes(h.partition_array_start_lba) + spec_u32_to_le_bytes(
        h.num_partition_entries,
    ) + spec_u32_to_le_bytes(h.partition_entry_size) + spec_u32_to_le_bytes(h.partition_array_crc32)
}

pub proof fn lemma_header_bytes_len(h: GptHeader)
    ensures
        spec_header_bytes(h).len() == 92,
{
    lemma_auto_spec_u32_to_from_le_bytes();
    lemma_auto_spec_u64_to_from_le_bytes();
}

/// What the header's own checksum is computed over: the header bytes
/// with the checksum field read as zero.
pub open spec fn spec_header_seed(h: GptHeader) -> Seq<u8> {
    spec_header_bytes(GptHeader { header_crc32: 0, ..h })
}

/// A header serialized to its 92 on-disk bytes.
pub fn header_to_bytes(h: &GptHeader) -> (r: Vec<u8>)
    ensures
        r@ == spec_header_bytes(*h),
        r@.len() == 92,
{
    let mut out: Vec<u8> = Vec::new();
    push_u64_le(&mut out, h.signature);
    push_u32_le(&mut out, h.revision);
    push_u32_le(&mut out, h.header_size);
    push_u32_le(&mut out, h.header_crc32);
    push_u32_le(&mut out, 0u32);
    push_u64_le(&mut out, h.my_lba);
    push_u64_le(&mut out, h.alternate_lba);
    push_u64_le(&mut out, h.first_usable_lba);
    push_u64_le(&mut out, h.last_usable_lba);
    let guid_mixed = h.disk_guid.to_mixed_bytes();
    push_slice(&mut out, guid_mixed.as_slice());
    push_u64_le(&mut out, h.partition_array_start_lba);
    push_u32_le(&mut out, h.num_partition_entries);
    push_u32_le(&mut out, h.partition_entry_size);
    push_u32_le(&mut out, h.partition_array_crc32);
    proof {
        assert(out@ =~= spec_header_bytes(*h));
        lemma_header_bytes_len(*h);
    }
    out
}

/// `h` holds exactly the field values the 92 bytes at the front of `s`
/// encode.
pub open spec fn header_matches_bytes(h: GptHeader, s: Seq<u8>) -> bool {
    &&& s.len() >= 92
    &&& h.signature == spec_u64_from_le_bytes(s.subrange(0, 8))
    &&& h.revision == spec_u32_from_le_bytes(s.subrange(8, 12))
    &&& h.header_size == spec_u32_from_le_bytes(s.subrange(12, 16))
    &&& h.header_crc32 == spec_u32_from_le_bytes(s.subrange(16, 20))
    &&& h.my_lba == spec_u64_from_le_bytes(s.subrange(24, 32))
    &&& h.alternate_lba == spec_u64_from_le_bytes(s.subrange(32, 40))
    &&& h.first_usable_lba == spec_u64_from_le_bytes(s.subrange(40, 48))
    &&& h.last_usable_lba == spec_u64_from_le_bytes(s.subrange(48, 56))
    &&& h.disk_guid@ == mixed_endian(s.subrange(56, 72))
    &&& h.partition_array_start_lba == spec_u64_from_le_bytes(s.subrange(72, 80))
    &&& h.num_partition_entries == spec_u32_from_le_bytes(s.subrange(80, 84))
    &&& h.partition_entry_size == spec_u32_from_le_bytes(s.subrange(84, 88))
    &&& h.partition_array_crc32 == spec_u32_from_le_bytes(s.subrange(88, 92))
}

/// Re-read a header from serialized bytes.  Fails exactly when fewer
/// than 92 bytes are given.
pub fn parse_gpt_header(s: &[u8]) -> (r: Option<GptHeader>)
    ensures
        (r matches Some(h)) <==> s@.len() >= 92,
        r matches Some(h) ==> header_matches_bytes(h, s@),
{
    if s.len() < 92 {
        return None;
    }
    let h = GptHeader {
        signature: u64_from_le_bytes(slice_subrange(s, 0, 8)),
        revision: u32_from_le_bytes(slice_subrange(s, 8, 12)),
        header_size: u32_from_le_bytes(slice_subrange(s, 12, 16)),
        header_crc32: u32_from_le_bytes(slice_subrange(s, 16, 20)),
        my_lba: u64_from_le_bytes(slice_subrange(s, 24, 32)),
        alternate_lba: u64_from_le_bytes(slice_subrange(s, 32, 40)),
        first_usable_lba: u64_from_le_bytes(slice_subrange(s, 40, 48)),
        last_usable_lba: u64_from_le_bytes(slice_subrange(s, 48, 56)),
        disk_guid: Guid::from_mixed_bytes(slice_subrange(s, 56, 72)),
        partition_array_start_lba: u64_from_le_bytes(slice_subrange(s, 72, 80)),
        num_partition_entries: u32_from_le_bytes(slice_subrange(s, 80, 84)),
        partition_entry_size: u32_from_le_bytes(slice_subrange(s, 84, 88)),
        partition_array_crc32: u32_from_le_bytes(slice_subrange(s, 88, 92)),
    };
    Some(h)
}

/// Law: re-reading a serialized header gives back exactly the header
/// that was written.
pub proof fn lemma_header_round_trip(h: GptHeader)
    ensures
        header_matches_bytes(h, spec_header_bytes(h)),
{
    lemma_auto_spec_u32_to_from_le_bytes();
    lemma_auto_spec_u64_to_from_le_bytes();
    lemma_header_bytes_len(h);
    let s = spec_header_bytes(h);
    assert(s.subrange(0, 8) =~= spec_u64_to_le_bytes(h.signature));
    assert(s.subrange(8, 12) =~= spec_u32_to_le_bytes(h.revision));
    assert(s.subrange(12, 16) =~= spec_u32_to_le_bytes(h.header_size));
    assert(s.subrange(16, 20) =~= spec_u32_to_le_bytes(h.header_crc32));
    assert(s.subrange(24, 32) =~= spec_u64_to_le_bytes(h.my_lba));
    assert(s.subrange(32, 40) =~= spec_u64_to_le_bytes(h.alternate_lba));
    assert(s.subrange(40, 48) =~= spec_u64_to_le_bytes(h.first_usable_lba));
    assert(s.subrange(48, 56) =~= spec_u64_to_le_bytes(h.last_usable_lba));
    assert(s.subrange(56, 72) =~= mixed_endian(h.disk_guid@));
    assert(s.subrange(72, 80) =~= spec_u64_to_le_bytes(h.partition_array_start_lba));
    assert(s.subrange(80, 84) =~= spec_u32_to_le_bytes(h.num_partition_entries));
    assert(s.subrange(84, 88) =~= spec_u32_to_le_bytes(h.partition_entry_size));
    assert(s.subrange(88, 92) =~= spec_u32_to_le_bytes(h.partition_array_crc32));
    crate::guid::lemma_mixed_endian_involutive(h.disk_guid@);
}

impl GptHeader {
    /// Recompute the header's own checksum: the CRC32 of its 92 bytes
    /// with the checksum field itself read as zero.
    pub fn update_header_crc32(&mut self)
        ensures
            *final(self) == (GptHeader {
                header_crc32: crc32_of(spec_header_seed(*old(self))),
                ..*old(self)
            }),
    {
        let mut seed = *self;
        seed.header_crc32 = 0;
        let bytes = header_to_bytes(&seed);
        self.header_crc32 = crc32(bytes.as_slice());
    }

    /// Recompute the partition-array checksum over the given partition
    /// list, each entry padded to `partition_entry_size` bytes.
    pub fn update_partition_array_crc32(
        &mut self,
        partitions: &Vec<GptPartition>,
        partition_entry_size: u32,
    )
        requires
            partition_entry_size >= 128,
            partitions@.len() * partition_entry_size <= usize::MAX,
        ensures
            *final(self) == (GptHeader {
                partition_array_crc32: crc32_of(
                    spec_array_bytes(partitions@, partition_entry_size),
                ),
                ..*old(self)
            }),
    {
        let bytes = array_to_bytes(partitions, partition_entry_size);
        self.partition_array_crc32 = crc32(bytes.as_slice());
    }
}

impl GptPartition {
    /// A fresh partition with a zeroed name.
    pub(crate) fn new(
        partition_type_guid: Guid,
        unique_guid: Guid,
        attributes: GptPartitionAttribs,
        start_lba: u64,
        end_lba_incl: u64,
    ) -> (r: GptPartition)
        requires
            start_lba <= end_lba_incl,
            end_lba_incl - start_lba + 1 <= u64::MAX,
        ensures
            r == (GptPartition {
                partition_type_guid,
                unique_guid,
                size_in_lba: (end_lba_incl - start_lba + 1) as u64,
                attributes,
                partition_name: r.partition_name,
                start_lba,
                end_lba_incl,
            }),
            r.partition_name@ == Seq::new(36, |i: int| 0u16),
    {
        let r = GptPartition {
            partition_type_guid,
            unique_guid,
            size_in_lba: (end_lba_incl - start_lba) + 1,
            attributes,
            partition_name: [0u16; 36],
            start_lba,
            end_lba_incl,
        };
        proof {
            assert(r.partition_name@ =~= Seq::new(36, |i: int| 0u16));
        }
        r
    }

    /// Fill the name from ASCII bytes, widened to UTF-16LE code units,
    /// truncated to 36 and zero-padded.
    pub fn set_name_ascii(&mut self, name_ascii: &[u8])
        ensures
            *final(self) == (GptPartition { partition_name: final(self).partition_name, ..*old(self) }),
            final(self).partition_name@ == Seq::new(
                36,
                |i: int|
                    if i < name_ascii@.len() && i < 36 {
                        name_ascii@[i] as u16
                    } else {
                        0u16
                    },
            ),
    {
        let real_len = if name_ascii.len() < 36 {
            name_ascii.len()
        } else {
            36
        };
        let mut i: usize = 0;
        while i < real_len
            invariant
                i <= real_len,
                real_len <= 36,
                real_len <= name_ascii@.len(),
                *self == (GptPartition { partition_name: self.partition_name, ..*old(self) }),
                forall|j: int|
                    0 <= j < i ==> self.partition_name@[j] == name_ascii@[j] as u16,
            decreases real_len - i,
        {
            self.partition_name[i] = name_ascii[i] as u16;
            i = i + 1;
        }
        let mut j: usize = real_len;
        while j < 36
            invariant
                real_len <= j <= 36,
                real_len <= name_ascii@.len(),
                real_len == vstd::math::min(name_ascii@.len() as int, 36),
                *self == (GptPartition { partition_name: self.partition_name, ..*old(self) }),
                forall|k: int|
                    0 <= k < real_len ==> self.partition_name@[k] == name_ascii@[k] as u16,
                forall|k: int| real_len <= k < j ==> self.partition_name@[k] == 0u16,
            decreases 36 - j,
        {
            self.partition_name[j] = 0;
            j = j + 1;
        }
        proof {
            assert(self.partition_name@ =~= Seq::new(
                36,
                |i: int|
                    if i < name_ascii@.len() && i < 36 {
                        name_ascii@[i] as u16
                    } else {
                        0u16
                    },
            ));
        }
    }
}

/// How a partition is created: its identifiers, requested size, the
/// attribute bits, its name, and how many spare LBAs to leave before it
/// beyond the single reserved one.
pub struct CreatePartitionOptions {
    pub partition_type: Guid,
    pub unique_guid: Guid,
    pub size_in_lba: u64,
    pub attributes: GptPartitionAttribs,
    pub partition_name: [Utf16LEChar; 36],
    pub padding_lba: u64,
}

impl CreatePartitionOptions {
    /// Options with no extra padding; a missing unique identifier is
    /// drawn at random.
    pub fn new(
        partition_type: Guid,
        unique_guid: Option<Guid>,
        size_in_lba: u64,
        attributes: GptPartitionAttribs,
        name: [Utf16LEChar; 36],
    ) -> (r: Self)
        ensures
            r.partition_type == partition_type,
            unique_guid matches Some(g) ==> r.unique_guid == g,
            r.size_in_lba == size_in_lba,
            r.attributes == attributes,
            r.partition_name == name,
            r.padding_lba == 0,
    {
        let real_unique = match unique_guid {
            Some(g) => g,
            None => crate::guid::random_guid(),
        };
        CreatePartitionOptions {
            partition_type,
            unique_guid: real_unique,
            size_in_lba,
            attributes,
            partition_name: name,
            padding_lba: 0,
        }
    }
}

/// Every partition sits inside the usable area, its LBA range is
/// ordered, and its stored size agrees with that range.
pub open spec fn partition_in_bounds(p: GptPartition, disk_size_lba: u64) -> bool {
    &&& 34 <= p.start_lba
    &&& p.start_lba <= p.end_lba_incl
    &&& p.end_lba_incl <= disk_size_lba - 34
    &&& p.size_in_lba == p.end_lba_incl - p.start_lba + 1
}

/// The partition list is ordered, within bounds, and successive
/// partitions are separated by at least the one reserved LBA.
pub open spec fn partitions_wf(ps: Seq<GptPartition>, disk_size_lba: u64) -> bool {
    &&& forall|i: int| 0 <= i < ps.len() ==> partition_in_bounds(#[trigger] ps[i], disk_size_lba)
    &&& forall|i: int|
        0 <= i < ps.len() - 1 ==> (#[trigger] ps[i]).end_lba_incl + 2 <= ps[i + 1].start_lba
}

/// A GPT disk model: geometry, the ordered partition list, and the two
/// mirrored header copies.
#[derive(Debug)]
pub struct GptDisk {
    block_size: u32,
    disk_size_lba: u64,
    partitions: Vec<GptPartition>,
    primary_header: GptHeader,
    backup_header: GptHeader,
}

impl GptDisk {
    pub closed spec fn spec_block_size(&self) -> u32 {
        self.block_size
    }

    pub closed spec fn spec_disk_size_lba(&self) -> u64 {
        self.disk_size_lba
    }

    pub closed spec fn spec_partitions(&self) -> Seq<GptPartition> {
        self.partitions@
    }

    pub closed spec fn spec_primary_header(&self) -> GptHeader {
        self.primary_header
    }

    pub closed spec fn spec_backup_header(&self) -> GptHeader {
        self.backup_header
    }

    /// The disk invariant: sane geometry, mirrored headers whose
    /// constant fields hold the values this layout fixes, entry counts
    /// that match the live list, and a well-formed partition list.
    pub closed spec fn wf(&self) -> bool {
        &&& self.block_size >= 512
        &&& self.disk_size_lba >= 68
        &&& self.partitions@.len() <= GPT_MAX_PARTITIONS
        &&& self.primary_header.signature == GPT_HEADER_SIGNATURE
        &&& self.primary_header.revision == GPT_REVISION
        &&& self.primary_header.header_size == GPT_HEADER_SIZE
        &&& self.primary_header.my_lba == 1
        &&& self.primary_header.alternate_lba == self.disk_size_lba - 1
        &&& self.primary_header.first_usable_lba == 34
        &&& self.primary_header.last_usable_lba == self.disk_size_lba - 34
        &&& self.primary_header.partition_array_start_lba == 2
        &&& self.primary_header.num_partition_entries == self.partitions@.len()
        &&& self.primary_header.partition_entry_size == GPT_ENTRY_SIZE
        &&& self.backup_header == (GptHeader {
            my_lba: (self.disk_size_lba - 1) as u64,
            alternate_lba: 1u64,
            partition_array_start_lba: (self.disk_size_lba - 33) as u64,
            header_crc32: self.backup_header.header_crc32,
            partition_array_crc32: self.backup_header.partition_array_crc32,
            ..self.primary_header
        })
        &&& partitions_wf(self.partitions@, self.disk_size_lba)
    }

    /// Create a new, empty disk.  A block size under 512 bytes or a
    /// disk without at least one usable LBA between the reserved zones
    /// is rejected.
    pub fn new_empty(block_size: u32, disk_size_lba: u64, disk_guid: Option<Guid>) -> (r: Result<
        GptDisk,
        GptError,
    >)
        ensures
            (r matches Err(e)) <==> (block_size < 512 || disk_size_lba < 68),
            r matches Err(e) ==> e == GptError::InvalidGeometry,
            r matches Ok(d) ==> {
                &&& d.wf()
                &&& d.spec_block_size() == block_size
                &&& d.spec_disk_size_lba() == disk_size_lba
                &&& d.spec_partitions() == Seq::<GptPartition>::empty()
                &&& (disk_guid matches Some(g) ==> d.spec_primary_header().disk_guid == g)
                &&& d.spec_primary_header().signature == GPT_HEADER_SIGNATURE
                &&& d.spec_primary_header().revision == GPT_REVISION
                &&& d.spec_primary_header().header_size == GPT_HEADER_SIZE
                &&& d.spec_primary_header().my_lba == 1
                &&& d.spec_primary_header().alternate_lba == disk_size_lba - 1
                &&& d.spec_primary_header().first_usable_lba == 34
                &&& d.spec_primary_header().last_usable_lba == disk_size_lba - 34
                &&& d.spec_primary_header().partition_array_start_lba == 2
                &&& d.spec_primary_header().num_partition_entries == 0
                &&& d.spec_primary_header().partition_entry_size == GPT_ENTRY_SIZE
                &&& d.spec_backup_header() == (GptHeader {
                    my_lba: (disk_size_lba - 1) as u64,
                    alternate_lba: 1u64,
                    partition_array_start_lba: (disk_size_lba - 33) as u64,
                    header_crc32: d.spec_backup_header().header_crc32,
                    ..d.spec_primary_header()
                })
                &&& d.spec_primary_header().header_crc32 == crc32_of(
                    spec_header_seed(d.spec_primary_header()),
                )
                &&& d.spec_backup_header().header_crc32 == crc32_of(
                    spec_header_seed(d.spec_backup_header()),
                )
                &&& d.spec_primary_header().partition_array_crc32 == 0
            },
    {
        if block_size < 512 || disk_size_lba < 68 {
            return Err(GptError::InvalidGeometry);
        }
        let real_disk_guid = match disk_guid {
            Some(g) => g,
            None => crate::guid::random_guid(),
        };
        let primary_header_lba: u64 = 1;
        let backup_header_lba: u64 = disk_size_lba - 1;
        let mut primary_header = GptHeader {
            signature: GPT_HEADER_SIGNATURE,
            revision: GPT_REVISION,
            header_size: GPT_HEADER_SIZE,
            header_crc32: 0,
            my_lba: primary_header_lba,
            alternate_lba: backup_header_lba,
            first_usable_lba: 34,
            last_usable_lba: disk_size_lba - 1 - 33,
            disk_guid: real_disk_guid,
            partition_array_start_lba: 2,
            num_partition_entries: 0,
            partition_entry_size: GPT_ENTRY_SIZE,
            partition_array_crc32: 0,
        };
        primary_header.update_header_crc32();
        let mut backup_header = primary_header;
        backup_header.my_lba = backup_header_lba;
        backup_header.alternate_lba = primary_header_lba;
        backup_header.partition_array_start_lba = disk_size_lba - 33;
        backup_header.update_header_crc32();
        Ok(
            GptDisk {
                block_size,
                disk_size_lba,
                primary_header,
                backup_header,
                partitions: Vec::new(),
            },
        )
    }

    /// Where the next partition would start: at the first usable LBA,
    /// or one reserved LBA plus the requested padding past the previous
    /// partition's end.
    pub open spec fn spec_next_start(&self, padding_lba: u64) -> int {
        if self.spec_partitions().len() == 0 {
            34
        } else {
            self.spec_partitions().last().end_lba_incl + 2 + padding_lba
        }
    }

    /// Where the requested partition would end: a requested size of
    /// zero still occupies one LBA.
    pub open spec fn spec_requested_end(&self, options: CreatePartitionOptions) -> int {
        self.spec_next_start(options.padding_lba) + (if options.size_in_lba == 0 {
            1int
        } else {
            options.size_in_lba as int
        }) - 1
    }

    /// Append a partition.  Fails exactly when the entry array is full
    /// or the new partition would end past the last usable LBA; a
    /// requested size of zero yields a partition of exactly one LBA,
    /// never an empty one.
    pub fn create_partition(&mut self, options: CreatePartitionOptions) -> (r: Result<
        usize,
        GptError,
    >)
        requires
            old(self).wf(),
        ensures
            final(self).wf(),
            final(self).spec_block_size() == old(self).spec_block_size(),
            final(self).spec_disk_size_lba() == old(self).spec_disk_size_lba(),
            (r == Err::<usize, GptError>(GptError::TableFull)) <==> old(
                self,
            ).spec_partitions().len() >= GPT_MAX_PARTITIONS,
            (r == Err::<usize, GptError>(GptError::InsufficientSpace)) <==> (old(
                self,
            ).spec_partitions().len() < GPT_MAX_PARTITIONS && old(self).spec_requested_end(options)
                > old(self).spec_disk_size_lba() - 34),
            (r matches Err(e)) <==> (old(self).spec_partitions().len() >= GPT_MAX_PARTITIONS || old(
                self,
            ).spec_requested_end(options) > old(self).spec_disk_size_lba() - 34),
            r matches Err(e) ==> *final(self) == *old(self),
            r matches Ok(i) ==> {
                &&& i == old(self).spec_partitions().len()
                &&& final(self).spec_partitions() == old(self).spec_partitions().push(
                    GptPartition {
                        partition_type_guid: options.partition_type,
                        unique_guid: options.unique_guid,
                        size_in_lba: (old(self).spec_requested_end(options) - old(
                            self,
                        ).spec_next_start(options.padding_lba) + 1) as u64,
                        attributes: options.attributes,
                        partition_name: options.partition_name,
                        start_lba: old(self).spec_next_start(options.padding_lba) as u64,
                        end_lba_incl: old(self).spec_requested_end(options) as u64,
                    },
                )
                &&& final(self).spec_primary_header() == (GptHeader {
                    num_partition_entries: (old(self).spec_partitions().len() + 1) as u32,
                    ..old(self).spec_primary_header()
                })
                &&& final(self).spec_backup_header() == (GptHeader {
                    num_partition_entries: (old(self).spec_partitions().len() + 1) as u32,
                    ..old(self).spec_backup_header()
                })
            },
    {
        if self.partitions.len() >= GPT_MAX_PARTITIONS {
            return Err(GptError::TableFull);
        }
        let padding = options.padding_lba;
        let start128: u128 = if self.partitions.len() == 0 {
            34
        } else {
            let prev = &self.partitions[self.partitions.len() - 1];
            prev.end_lba_incl as u128 + 2 + padding as u128
        };
        let eff_size: u128 = if options.size_in_lba == 0 {
            1
        } else {
            options.size_in_lba as u128
        };
        let end128: u128 = start128 + eff_size - 1;
        if end128 > (self.disk_size_lba - 34) as u128 {
            return Err(GptError::InsufficientSpace);
        }
        let start_lba = start128 as u64;
        let end_lba_incl = end128 as u64;
        let mut partition = GptPartition::new(
            options.partition_type,
            options.unique_guid,
            options.attributes,
            start_lba,
            end_lba_incl,
        );
        partition.partition_name = options.partition_name;
        let ghost old_parts = self.partitions@;
        self.partitions.push(partition);
        let num_parts = self.partitions.len() as u32;
        self.primary_header.num_partition_entries = num_parts;
        self.backup_header.num_partition_entries = num_parts;
        proof {
            assert forall|i: int|
                0 <= i < self.partitions@.len() implies partition_in_bounds(
                #[trigger] self.partitions@[i],
                self.disk_size_lba,
            ) by {
                if i < old_parts.len() {
                    assert(partition_in_bounds(old_parts[i], self.disk_size_lba));
                }
            }
            assert forall|i: int|
                0 <= i < self.partitions@.len() - 1 implies (#[trigger] self.partitions@[i]).end_lba_incl
                + 2 <= self.partitions@[i + 1].start_lba by {
                if i < old_parts.len() - 1 {
                    assert(old_parts[i].end_lba_incl + 2 <= old_parts[i + 1].start_lba);
                } else {
                    assert(partition_in_bounds(old_parts[i], self.disk_size_lba));
                }
            }
        }
        Ok(self.partitions.len() - 1)
    }

    /// Recompute all four stored checksums: both headers' partition
    /// array checksums first (the header checksum covers them), then
    /// both header checksums.
    pub fn update_crc(&mut self)
        requires
            old(self).wf(),
        ensures
            final(self).wf(),
            final(self).spec_block_size() == old(self).spec_block_size(),
            final(self).spec_disk_size_lba() == old(self).spec_disk_size_lba(),
            final(self).spec_partitions() == old(self).spec_partitions(),
            final(self).spec_primary_header() == spec_with_refreshed_crcs(
                old(self).spec_primary_header(),
                old(self).spec_partitions(),
            ),
            final(self).spec_backup_header() == spec_with_refreshed_crcs(
                old(self).spec_backup_header(),
                old(self).spec_partitions(),
            ),
    {
        proof {
            assert(self.partitions@.len() * 128 <= usize::MAX) by (nonlinear_arith)
                requires
                    self.partitions@.len() <= 128,
            ;
        }
        let primary_entry_size = self.primary_header.partition_entry_size;
        self.primary_header.update_partition_array_crc32(&self.partitions, primary_entry_size);
        let backup_entry_size = self.backup_header.partition_entry_size;
        self.backup_header.update_partition_array_crc32(&self.partitions, backup_entry_size);
        self.primary_header.update_header_crc32();
        self.backup_header.update_header_crc32();
    }

    pub fn partitions<'a>(&'a self) -> (r: PartitionIter<'a>)
        ensures
            r.disk == self,
            r.front == 0,
    {
        PartitionIter { disk: self, front: 0 }
    }

    pub fn partition_count(&self) -> (r: usize)
        ensures
            r == self.spec_partitions().len(),
    {
        self.partitions.len()
    }

    /// The partition at `idx`, as a copy.
    pub fn partition_at(&self, idx: usize) -> (r: GptPartition)
        requires
            idx < self.spec_partitions().len(),
        ensures
            r == self.spec_partitions()[idx as int],
    {
        self.partitions[idx]
    }

    pub fn disk_size_lba(&self) -> (r: u64)
        ensures
            r == self.spec_disk_size_lba(),
    {
        self.disk_size_lba
    }

    pub fn block_size(&self) -> (r: u32)
        ensures
            r == self.spec_block_size(),
    {
        self.block_size
    }

    pub fn primary_header(&self) -> (r: &GptHeader)
        ensures
            *r == self.spec_primary_header(),
    {
        &self.primary_header
    }

    pub fn backup_header(&self) -> (r: &GptHeader)
        ensures
            *r == self.spec_backup_header(),
    {
        &self.backup_header
    }
}

/// A header with both stored checksums recomputed from the current
/// partition list: the array checksum first, then the header checksum
/// over the bytes that include it.
pub open spec fn spec_with_refreshed_crcs(h: GptHeader, parts: Seq<GptPartition>) -> GptHeader {
    let h1 = GptHeader {
        partition_array_crc32: crc32_of(spec_array_bytes(parts, h.partition_entry_size)),
        ..h
    };
    GptHeader { header_crc32: crc32_of(spec_header_seed(h1)), ..h1 }
}

impl GptDisk {
    /// A writer that serializes this disk into `target`.
    pub fn writer<'a>(&'a self, target: MemDisk) -> (r: GptDiskWriter<'a>)
        requires
            self.wf(),
            target.wf(),
            self.spec_disk_size_lba() * self.spec_block_size() <= usize::MAX,
        ensures
            r.wf(),
            r.spec_disk() == *self,
            r.spec_target() == target@,
            !r.spec_initialized(),
    {
        GptDiskWriter { disk: self, target, initialized: false }
    }
}

/// The bytes of the disk's full on-disk image, laid over `base`: the
/// protective MBR at byte 0, the primary header at LBA 1 with its
/// array at LBA 2, and the backup array at LBA `disk_size_lba - 33`
/// with the backup header at the final LBA.
pub open spec fn spec_disk_image_on(d: GptDisk, base: Seq<u8>) -> Seq<u8>
    recommends
        base.len() == d.spec_disk_size_lba() * d.spec_block_size(),
{
    let bs = d.spec_block_size() as int;
    let dsz = d.spec_disk_size_lba() as int;
    let arr = spec_array_bytes(d.spec_partitions(), GPT_ENTRY_SIZE);
    let with_mbr = splice(base, 0, crate::mbr::spec_protective_mbr_bytes(d.spec_disk_size_lba()));
    let with_primary = splice(
        splice(with_mbr, 1 * bs, spec_header_bytes(d.spec_primary_header())),
        2 * bs,
        arr,
    );
    splice(
        splice(with_primary, (dsz - 1) * bs, spec_header_bytes(d.spec_backup_header())),
        (dsz - 33) * bs,
        arr,
    )
}

impl GptDisk {
    /// Serialize the whole disk into `target`, resized to the image
    /// size first: the protective MBR, then the primary header copy
    /// with its partition array, then the backup copy with its own.
    /// Partition contents are written separately.
    pub fn serialize_to(&self, target: MemDisk) -> (r: MemDisk)
        requires
            self.wf(),
            target.wf(),
            self.spec_disk_size_lba() * self.spec_block_size() <= usize::MAX,
        ensures
            r.wf(),
            r@ == spec_disk_image_on(
                *self,
                resize_bytes(target@, self.spec_disk_size_lba() * self.spec_block_size()),
            ),
    {
        let mut writer = self.writer(target);
        writer.write_protective_mbr();
        writer.write_gpt_header(true);
        writer.write_gpt_header(false);
        writer.flush()
    }
}

/// Serializes a disk model into an in-memory image: the protective MBR
/// at byte 0, each header at its LBA with its partition entry array at
/// the array's LBA, and partition contents into their LBA ranges.
/// Before the first write the target is resized to
/// `disk_size_lba * block_size` bytes.
pub struct GptDiskWriter<'a> {
    disk: &'a GptDisk,
    target: MemDisk,
    initialized: bool,
}

impl<'a> GptDiskWriter<'a> {
    pub closed spec fn spec_disk(&self) -> GptDisk {
        *self.disk
    }

    pub closed spec fn spec_target(&self) -> Seq<u8> {
        self.target@
    }

    pub closed spec fn spec_initialized(&self) -> bool {
        self.initialized
    }

    /// The byte size of the full image.
    pub open spec fn spec_total_bytes(&self) -> int {
        self.spec_disk().spec_disk_size_lba() * self.spec_disk().spec_block_size()
    }

    /// The target's bytes once it has been sized for the image: what
    /// any write method starts from.
    pub open spec fn spec_init_bytes(&self) -> Seq<u8> {
        if self.spec_initialized() {
            self.spec_target()
        } else {
            resize_bytes(self.spec_target(), self.spec_total_bytes())
        }
    }

    pub closed spec fn wf(&self) -> bool {
        &&& self.disk.wf()
        &&& self.target.wf()
        &&& self.spec_total_bytes() <= usize::MAX
        &&& (self.initialized ==> self.target@.len() == self.spec_total_bytes())
    }

    /// Resize the target to the image size, once; idempotent.
    fn ensure_init(&mut self)
        requires
            old(self).wf(),
        ensures
            final(self).wf(),
            final(self).spec_initialized(),
            final(self).spec_disk() == old(self).spec_disk(),
            final(self).spec_target() == old(self).spec_init_bytes(),
            final(self).spec_target().len() == final(self).spec_total_bytes(),
    {
        if !self.initialized {
            self.initialized = true;
            proof {
                assert(self.disk.spec_disk_size_lba() * self.disk.spec_block_size() >= 0)
                    by (nonlinear_arith);
            }
            let total = (self.disk.disk_size_lba() * self.disk.block_size() as u64) as usize;
            self.target.resize(total);
        } else {
            proof {
                assert(self.spec_init_bytes() =~= self.target@);
            }
        }
    }

    /// Write the 512-byte protective MBR at byte offset 0.
    pub fn write_protective_mbr(&mut self)
        requires
            old(self).wf(),
        ensures
            final(self).wf(),
            final(self).spec_initialized(),
            final(self).spec_disk() == old(self).spec_disk(),
            final(self).spec_target() == splice(
                old(self).spec_init_bytes(),
                0,
                crate::mbr::spec_protective_mbr_bytes(old(self).spec_disk().spec_disk_size_lba()),
            ),
    {
        self.ensure_init();
        let _ = self.target.seek(SeekPos::Start(0));
        let raw_mbr = crate::mbr::make_gpt_protective_mbr(self.disk.disk_size_lba());
        let mbr_bytes = crate::mbr::mbr_to_bytes(&raw_mbr);
        proof {
            assert(68 * 512 <= self.disk.spec_disk_size_lba() * self.disk.spec_block_size())
                by (nonlinear_arith)
                requires
                    self.disk.spec_disk_size_lba() >= 68,
                    self.disk.spec_block_size() >= 512,
            ;
        }
        let n = self.target.write(mbr_bytes.as_slice());
        proof {
            assert(mbr_bytes@.subrange(0, 512) =~= mbr_bytes@);
        }
    }

    /// Write one header copy at its LBA and its partition entry array
    /// at the array's start LBA.
    pub fn write_gpt_header(&mut self, primary: bool)
        requires
            old(self).wf(),
        ensures
            final(self).wf(),
            final(self).spec_initialized(),
            final(self).spec_disk() == old(self).spec_disk(),
            final(self).spec_target() == ({
                let d = old(self).spec_disk();
                let bs = d.spec_block_size() as int;
                let h = if primary {
                    d.spec_primary_header()
                } else {
                    d.spec_backup_header()
                };
                let pos_lba = if primary {
                    1int
                } else {
                    d.spec_disk_size_lba() - 1
                };
                let astart = if primary {
                    2int
                } else {
                    d.spec_disk_size_lba() - 33
                };
                splice(
                    splice(old(self).spec_init_bytes(), pos_lba * bs, spec_header_bytes(h)),
                    astart * bs,
                    spec_array_bytes(d.spec_partitions(), GPT_ENTRY_SIZE),
                )
            }),
    {
        self.ensure_init();
        let bs = self.disk.block_size() as u64;
        let ghost bsi = bs as int;
        let ghost total = self.spec_total_bytes();
        let ghost dsz = self.disk.spec_disk_size_lba() as int;
        let h: GptHeader = if primary {
            *self.disk.primary_header()
        } else {
            *self.disk.backup_header()
        };
        let pos_lba: u64 = if primary {
            1
        } else {
            self.disk.disk_size_lba() - 1
        };
        proof {
            assert((dsz - 1) * bsi + bsi == dsz * bsi && 0 <= (dsz - 1) * bsi && bsi * 1 == bsi)
                by (nonlinear_arith)
                requires
                    bsi >= 512,
                    dsz >= 68,
            ;
            assert(total == dsz * bsi);
        }
        let _ = self.target.seek(SeekPos::Start(pos_lba * bs));
        let header_bytes = header_to_bytes(&h);
        proof {
            assert(pos_lba * bsi + 92 <= total) by (nonlinear_arith)
                requires
                    bsi >= 512,
                    dsz >= 68,
                    total == dsz * bsi,
                    pos_lba == 1 || pos_lba == dsz - 1,
            ;
        }
        let n = self.target.write(header_bytes.as_slice());
        proof {
            assert(header_bytes@.subrange(0, 92) =~= header_bytes@);
        }
        let ghost after_header = self.target@;
        let astart: u64 = h.partition_array_start_lba;
        let ghost asi = astart as int;
        proof {
            assert(asi == 2 || asi == dsz - 33);
            assert(asi * bsi + 128 * 128 <= total && 0 <= asi * bsi) by (nonlinear_arith)
                requires
                    bsi >= 512,
                    dsz >= 68,
                    total == dsz * bsi,
                    asi == 2 || asi == dsz - 33,
            ;
        }
        let count = self.disk.partition_count();
        let ghost parts = self.disk.spec_partitions();
        let mut i: usize = 0;
        while i < count
            invariant
                self.wf(),
                self.spec_initialized(),
                self.disk == old(self).disk,
                i <= count,
                count == parts.len(),
                parts == self.disk.spec_partitions(),
                parts.len() <= 128,
                self.disk.wf(),
                bsi == self.disk.spec_block_size() as int,
                bs == self.disk.spec_block_size(),
                total == self.spec_total_bytes(),
                asi == astart as int,
                asi == 2 || asi == dsz - 33,
                dsz == self.disk.spec_disk_size_lba() as int,
                asi * bsi + 128 * 128 <= total,
                0 <= asi * bsi,
                after_header.len() == total,
                self.target@ == splice(
                    after_header,
                    asi * bsi,
                    spec_array_bytes(parts.take(i as int), GPT_ENTRY_SIZE),
                ),
            decreases count - i,
        {
            proof {
                lemma_array_bytes_len(parts.take(i as int), GPT_ENTRY_SIZE);
                assert(i * 128 <= 128 * 128 && (i as int) * 128 + 128 == (i + 1) * 128)
                    by (nonlinear_arith)
                    requires
                        0 <= i <= 128,
                ;
                assert(asi * bsi + (i as int) * 128 <= u64::MAX) by (nonlinear_arith)
                    requires
                        asi * bsi + 128 * 128 <= total,
                        total <= usize::MAX,
                        0 <= asi * bsi,
                        (i as int) * 128 <= 128 * 128,
                ;
            }
            let entry_pos: u64 = astart * bs + (i as u64) * 128;
            let _ = self.target.seek(SeekPos::Start(entry_pos));
            let p = self.disk.partition_at(i);
            let entry_bytes = entry_to_bytes(&p, GPT_ENTRY_SIZE);
            let ghost before = self.target@;
            let n = self.target.write(entry_bytes.as_slice());
            proof {
                lemma_splice_len(
                    after_header,
                    asi * bsi,
                    spec_array_bytes(parts.take(i as int), GPT_ENTRY_SIZE),
                );
                assert(entry_bytes@.subrange(0, 128) =~= entry_bytes@);
                lemma_array_bytes_push(parts.take(i as int), GPT_ENTRY_SIZE, parts[i as int]);
                assert(parts.take(i + 1) =~= parts.take(i as int).push(parts[i as int]));
                lemma_splice_adjacent(
                    after_header,
                    asi * bsi,
                    spec_array_bytes(parts.take(i as int), GPT_ENTRY_SIZE),
                    spec_entry_bytes(parts[i as int], GPT_ENTRY_SIZE),
                );
            }
            i = i + 1;
        }
        proof {
            assert(parts.take(parts.len() as int) =~= parts);
        }
    }

    /// Copy `content` into the partition's byte range, truncated at
    /// whichever ends first: the partition's capacity or the content,
    /// and zero the rest of the partition for determinism.  Bytes
    /// outside the partition's range are left as they were, so a long
    /// write never reaches past its own partition.
    pub fn write_partition_content(&mut self, partition: &GptPartition, content: &[u8]) -> (r:
        Result<(), GptError>)
        requires
            old(self).wf(),
        ensures
            final(self).wf(),
            final(self).spec_disk() == old(self).spec_disk(),
            ({
                let bs = old(self).spec_disk().spec_block_size() as int;
                let total = old(self).spec_total_bytes();
                let start_byte = partition.start_lba * bs;
                let cap = (partition.end_lba_incl + 1 - partition.start_lba) * bs;
                let n = vstd::math::min(content@.len() as int, cap);
                &&& ((r matches Err(e)) <==> (partition.start_lba > partition.end_lba_incl || (
                partition.end_lba_incl + 1) * bs > total))
                &&& (r matches Err(e) ==> e == GptError::InvalidGeometry && *final(self) == *old(
                    self,
                ))
                &&& (r matches Ok(u) ==> {
                    &&& final(self).spec_initialized()
                    &&& final(self).spec_target() == splice(
                        old(self).spec_init_bytes(),
                        start_byte,
                        content@.subrange(0, n) + crate::stream::zero_bytes((cap - n) as nat),
                    )
                })
            }),
    {
        let ghost bsi = self.disk.spec_block_size() as int;
        let ghost total = self.spec_total_bytes();
        let bs = self.disk.block_size() as u64;
        if partition.start_lba > partition.end_lba_incl {
            return Err(GptError::InvalidGeometry);
        }
        proof {
            assert(0 <= (partition.end_lba_incl + 1) * bsi <= u128::MAX) by (nonlinear_arith)
                requires
                    0 <= partition.end_lba_incl + 1 <= u64::MAX as int + 1,
                    0 <= bsi <= u32::MAX,
            ;
            assert(total == self.disk.spec_disk_size_lba() * bsi);
            assert(0 <= self.disk.spec_disk_size_lba() * bsi) by (nonlinear_arith)
                requires
                    0 <= self.disk.spec_disk_size_lba(),
                    0 <= bsi,
            ;
        }
        let end_excl_bytes: u128 = (partition.end_lba_incl as u128 + 1) * bs as u128;
        let total_exec: u64 = self.disk.disk_size_lba() * bs;
        if end_excl_bytes > total_exec as u128 {
            return Err(GptError::InvalidGeometry);
        }
        self.ensure_init();
        proof {
            assert(partition.start_lba * bsi + bsi <= (partition.end_lba_incl + 1) * bsi && 0
                <= partition.start_lba * bsi) by (nonlinear_arith)
                requires
                    0 <= partition.start_lba <= partition.end_lba_incl,
                    bsi >= 512,
            ;
        }
        let start_byte: u64 = partition.start_lba * bs;
        let cap: u128 = end_excl_bytes - start_byte as u128;
        proof {
            assert((partition.end_lba_incl + 1 - partition.start_lba) * bsi == cap
                && partition.start_lba * bsi + cap == (partition.end_lba_incl + 1) * bsi)
                by (nonlinear_arith)
                requires
                    cap == (partition.end_lba_incl + 1) * bsi - partition.start_lba * bsi,
            ;
        }
        let n: usize = if (content.len() as u128) < cap {
            content.len()
        } else {
            cap as usize
        };
        let _ = self.target.seek(SeekPos::Start(start_byte));
        let run = vstd::slice::slice_subrange(content, 0, n);
        let ghost before = self.target@;
        let written = self.target.write(run);
        proof {
            assert(run@.subrange(0, n as int) =~= content@.subrange(0, n as int));
        }
        let rest: usize = (cap - n as u128) as usize;
        let zeroed = self.target.write_zeros(rest);
        proof {
            lemma_splice_adjacent(
                before,
                start_byte as int,
                content@.subrange(0, n as int),
                zero_bytes(rest as nat),
            );
        }
        Ok(())
    }

    /// Hand the image back.
    pub fn flush(self) -> (r: MemDisk)
        requires
            self.wf(),
        ensures
            r.wf(),
            r@ == self.spec_target(),
    {
        self.target
    }
}

/// Law: after both checksums are refreshed, the checksum stored inside
/// the serialized header bytes equals the CRC32 of those same bytes
/// with the checksum field read as zero — so re-reading the serialized
/// header and recomputing its checksum independently reproduces it, for
/// every header and every non-empty partition list.
pub proof fn lemma_refreshed_header_crc_reproducible(h: GptHeader, parts: Seq<GptPartition>)
    requires
        parts.len() > 0,
    ensures
        ({
            let bytes = spec_header_bytes(spec_with_refreshed_crcs(h, parts));
            spec_u32_from_le_bytes(bytes.subrange(16, 20)) == crc32_of(
                splice(bytes, 16, spec_u32_to_le_bytes(0u32)),
            )
        }),
{
    lemma_auto_spec_u32_to_from_le_bytes();
    lemma_auto_spec_u64_to_from_le_bytes();
    let h1 = GptHeader {
        partition_array_crc32: crc32_of(spec_array_bytes(parts, h.partition_entry_size)),
        ..h
    };
    let h2 = spec_with_refreshed_crcs(h, parts);
    let bytes = spec_header_bytes(h2);
    lemma_header_bytes_len(h2);
    assert(bytes.subrange(16, 20) =~= spec_u32_to_le_bytes(h2.header_crc32));
    assert(splice(bytes, 16, spec_u32_to_le_bytes(0u32)) =~= spec_header_seed(h2));
    assert(GptHeader { header_crc32: 0, ..h2 } == GptHeader { header_crc32: 0, ..h1 });
}

/// Law: a refresh computes both headers' partition-array checksums
/// over the same logical partition list, so the two come out equal.
pub proof fn lemma_refreshed_array_crcs_equal(d: GptDisk)
    requires
        d.wf(),
    ensures
        spec_with_refreshed_crcs(
            d.spec_primary_header(),
            d.spec_partitions(),
        ).partition_array_crc32 == spec_with_refreshed_crcs(
            d.spec_backup_header(),
            d.spec_partitions(),
        ).partition_array_crc32,
{
}

/// Law: the serialized image of any well-formed disk holds, each at
/// its fixed offset, exactly the protective MBR record, the primary
/// header at LBA 1 with its partition array at LBA 2, and the backup
/// array with the backup header at the final LBA: re-reading any of
/// them from the image gives back what was written.
pub proof fn lemma_image_layout(d: GptDisk, base: Seq<u8>)
    requires
        d.wf(),
        base.len() == d.spec_disk_size_lba() * d.spec_block_size(),
    ensures
        ({
            let bs = d.spec_block_size() as int;
            let dsz = d.spec_disk_size_lba() as int;
            let img = spec_disk_image_on(d, base);
            let arr = spec_array_bytes(d.spec_partitions(), GPT_ENTRY_SIZE);
            &&& img.len() == base.len()
            &&& img.subrange(0, 512) == crate::mbr::spec_protective_mbr_bytes(
                d.spec_disk_size_lba(),
            )
            &&& img.subrange(1 * bs, 1 * bs + 92) == spec_header_bytes(d.spec_primary_header())
            &&& img.subrange(2 * bs, 2 * bs + arr.len()) == arr
            &&& img.subrange((dsz - 33) * bs, (dsz - 33) * bs + arr.len()) == arr
            &&& img.subrange((dsz - 1) * bs, (dsz - 1) * bs + 92) == spec_header_bytes(
                d.spec_backup_header(),
            )
        }),
{
    let bs = d.spec_block_size() as int;
    let dsz = d.spec_disk_size_lba() as int;
    let arr = spec_array_bytes(d.spec_partitions(), GPT_ENTRY_SIZE);
    lemma_header_bytes_len(d.spec_primary_header());
    lemma_header_bytes_len(d.spec_backup_header());
    lemma_array_bytes_len(d.spec_partitions(), GPT_ENTRY_SIZE);
    vstd::bytes::lemma_auto_spec_u16_to_from_le_bytes();
    vstd::bytes::lemma_auto_spec_u32_to_from_le_bytes();
    assert(crate::mbr::spec_protective_mbr_bytes(d.spec_disk_size_lba()).len() == 512);
    assert(arr.len() == d.spec_partitions().len() * 128);
    assert(arr.len() <= 128 * 128) by (nonlinear_arith)
        requires
            arr.len() == d.spec_partitions().len() * 128,
            d.spec_partitions().len() <= 128,
    ;
    assert(512 <= 1 * bs && 1 * bs + 92 <= 2 * bs && 2 * bs + arr.len() <= 34 * bs && 34 * bs <= (
    dsz - 33) * bs && (dsz - 33) * bs + arr.len() <= (dsz - 1) * bs && (dsz - 1) * bs + 92 <= dsz
        * bs) by (nonlinear_arith)
        requires
            bs >= 512,
            dsz >= 68,
            0 <= arr.len() <= 128 * 128,
    ;
    let img = spec_disk_image_on(d, base);
    assert(img.subrange(0, 512) =~= crate::mbr::spec_protective_mbr_bytes(
        d.spec_disk_size_lba(),
    ));
    assert(img.subrange(1 * bs, 1 * bs + 92) =~= spec_header_bytes(d.spec_primary_header()));
    assert(img.subrange(2 * bs, 2 * bs + arr.len()) =~= arr);
    assert(img.subrange((dsz - 33) * bs, (dsz - 33) * bs + arr.len()) =~= arr);
    assert(img.subrange((dsz - 1) * bs, (dsz - 1) * bs + 92) =~= spec_header_bytes(
        d.spec_backup_header(),
    ));
}

/// Law: parsing the serialized primary and backup headers of any
/// well-formed disk yields mirrored LBA fields: the primary's own LBA
/// is the backup's alternate and the other way round.
pub proof fn lemma_serialized_headers_mirrored(d: GptDisk, hp: GptHeader, hb: GptHeader)
    requires
        d.wf(),
        header_matches_bytes(hp, spec_header_bytes(d.spec_primary_header())),
        header_matches_bytes(hb, spec_header_bytes(d.spec_backup_header())),
    ensures
        hp.my_lba == hb.alternate_lba,
        hp.alternate_lba == hb.my_lba,
        hp.my_lba == 1,
        hb.my_lba == d.spec_disk_size_lba() - 1,
{
    lemma_header_round_trip(d.spec_primary_header());
    lemma_header_round_trip(d.spec_backup_header());
}

/// In a well-formed partition list the LBA ranges strictly ascend:
/// every earlier partition ends at least two LBAs before a later one
/// starts.
pub proof fn lemma_partitions_ordered(ps: Seq<GptPartition>, disk_size_lba: u64, i: int, j: int)
    requires
        partitions_wf(ps, disk_size_lba),
        0 <= i < j < ps.len(),
    ensures
        ps[i].end_lba_incl + 2 <= ps[j].start_lba,
    decreases j - i,
{
    if i + 1 == j {
        assert(ps[i].end_lba_incl + 2 <= ps[i + 1].start_lba);
    } else {
        lemma_partitions_ordered(ps, disk_size_lba, i, j - 1);
        assert(partition_in_bounds(ps[j - 1], disk_size_lba));
        assert(ps[j - 1].end_lba_incl + 2 <= ps[j].start_lba);
    }
}

/// Law: writing one partition's content — truncated to the smaller of
/// the content length and the partition's byte capacity, the rest of
/// the partition zeroed — leaves every other partition's byte range of
/// the image untouched.
pub proof fn lemma_partition_content_isolated(
    d: GptDisk,
    img: Seq<u8>,
    content: Seq<u8>,
    i: int,
    j: int,
)
    requires
        d.wf(),
        0 <= i < d.spec_partitions().len(),
        0 <= j < d.spec_partitions().len(),
        i != j,
        img.len() == d.spec_disk_size_lba() * d.spec_block_size(),
    ensures
        ({
            let bs = d.spec_block_size() as int;
            let p = d.spec_partitions()[i];
            let q = d.spec_partitions()[j];
            let cap = (p.end_lba_incl + 1 - p.start_lba) * bs;
            let n = vstd::math::min(content.len() as int, cap);
            let patch = content.subrange(0, n) + zero_bytes((cap - n) as nat);
            splice(img, p.start_lba * bs, patch).subrange(
                q.start_lba * bs,
                (q.end_lba_incl + 1) * bs,
            ) == img.subrange(q.start_lba * bs, (q.end_lba_incl + 1) * bs)
        }),
{
    let bs = d.spec_block_size() as int;
    let dsz = d.spec_disk_size_lba() as int;
    let ps = d.spec_partitions();
    let p = ps[i];
    let q = ps[j];
    assert(partition_in_bounds(p, d.spec_disk_size_lba()));
    assert(partition_in_bounds(q, d.spec_disk_size_lba()));
    let cap = (p.end_lba_incl + 1 - p.start_lba) * bs;
    let n = vstd::math::min(content.len() as int, cap);
    let patch = content.subrange(0, n) + zero_bytes((cap - n) as nat);
    assert(0 <= n <= cap) by (nonlinear_arith)
        requires
            n == vstd::math::min(content.len() as int, cap),
            cap == (p.end_lba_incl + 1 - p.start_lba) * bs,
            p.start_lba <= p.end_lba_incl,
            bs >= 512,
    ;
    assert(patch.len() == cap);
    assert(p.start_lba * bs + cap == (p.end_lba_incl + 1) * bs) by (nonlinear_arith)
        requires
            cap == (p.end_lba_incl + 1 - p.start_lba) * bs,
    ;
    assert((p.end_lba_incl + 1) * bs <= dsz * bs && 0 <= p.start_lba * bs) by (nonlinear_arith)
        requires
            p.end_lba_incl + 1 <= dsz,
            0 <= p.start_lba,
            bs >= 512,
    ;
    assert(img.len() == dsz * bs);
    if i < j {
        lemma_partitions_ordered(ps, d.spec_disk_size_lba(), i, j);
        assert((p.end_lba_incl + 1) * bs <= q.start_lba * bs) by (nonlinear_arith)
            requires
                p.end_lba_incl + 1 <= q.start_lba,
                bs >= 512,
        ;
    } else {
        lemma_partitions_ordered(ps, d.spec_disk_size_lba(), j, i);
        assert((q.end_lba_incl + 1) * bs <= p.start_lba * bs) by (nonlinear_arith)
            requires
                q.end_lba_incl + 1 <= p.start_lba,
                bs >= 512,
        ;
    }
    assert((q.end_lba_incl + 1) * bs <= dsz * bs && 0 <= q.start_lba * bs && q.start_lba * bs
        <= (q.end_lba_incl + 1) * bs) by (nonlinear_arith)
        requires
            q.end_lba_incl + 1 <= dsz,
            0 <= q.start_lba <= q.end_lba_incl + 1,
            bs >= 512,
    ;
    assert(splice(img, p.start_lba * bs, patch).subrange(
        q.start_lba * bs,
        (q.end_lba_incl + 1) * bs,
    ) =~= img.subrange(q.start_lba * bs, (q.end_lba_incl + 1) * bs));
}

/// Walks a disk's partitions in order.
pub struct PartitionIter<'a> {
    pub disk: &'a GptDisk,
    pub front: usize,
}

impl<'a> PartitionIter<'a> {
    /// The next partition, as a copy, or nothing past the end.
    pub fn next(&mut self) -> (r: Option<GptPartition>)
        ensures
            final(self).disk == old(self).disk,
            (r matches Some(p)) <==> old(self).front < old(self).disk.spec_partitions().len(),
            r matches Some(p) ==> {
                &&& p == old(self).disk.spec_partitions()[old(self).front as int]
                &&& final(self).front == old(self).front + 1
            },
            r is None ==> final(self).front == old(self).front,
    {
        if self.front < self.disk.partition_count() {
            let p = self.disk.partition_at(self.front);
            self.front = self.front + 1;
            Some(p)
        } else {
            None
        }
    }
}

} // verus!
