//! CRC32 over byte sequences.
//!
//! Every checksum the disk layout stores is the CRC32 (IEEE 802.3
//! polynomial, as in zlib) of one well-defined byte sequence.  The digest
//! itself is computed by the `crc` crate; its value is named by the
//! uninterpreted function [`crc32_of`], and every contract that mentions
//! a stored checksum speaks of that name.

use vstd::prelude::*;

verus! {

/// The CRC32 (IEEE 802.3, reflected, as in zlib) of a byte sequence.
pub uninterp spec fn crc32_of(bytes: Seq<u8>) -> u32;

/// Relies on `crc::Crc::<u32>::checksum` with the `CRC_32_ISO_HDLC`
/// algorithm (the IEEE 802.3 polynomial, reflected in and out,
/// initial value and final xor `0xFFFFFFFF`): a deterministic function
/// of the input bytes alone.
#[verifier::external_body]
pub(crate) fn crc32(bytes: &[u8]) -> (r: u32)
    ensures
        r == crc32_of(bytes@),
{
    crc::Crc::<u32>::new(&crc::CRC_32_ISO_HDLC).checksum(bytes)
}

} // verus!
