//! Walking firmware device paths to find the boot partition.
//!
//! A device path is a read-only chain of variable-length nodes, each
//! headed by a one-byte type, a one-byte subtype and a two-byte
//! little-endian total length; a node of the End type terminates the
//! chain.  A Media / Hard Drive Partition node carries a one-byte
//! signature-type tag at offset 41 and a sixteen-byte partition
//! signature at offset 24; when the tag marks a GUID signature, those
//! sixteen bytes are the mixed-endian encoding of the partition's
//! unique GUID.  The walker looks for the one volume whose path carries
//! the signature the image builder wrote.

use crate::guid::{mixed_endian, Guid};
use vstd::bytes::spec_u16_from_le_bytes;
use vstd::prelude::*;

verus! {

pub const DEVICE_TYPE_MEDIA: u8 = 0x04;

pub const DEVICE_TYPE_END: u8 = 0x7F;

pub const DEVICE_SUBTYPE_HARD_DRIVE: u8 = 0x01;

pub const SIG_TYPE_GUID_PARTN: u8 = 0x02;

/// A Media / Hard Drive node needs at least 42 bytes to carry its
/// signature and signature-type fields.
pub const MIN_HARD_DRIVE_NODE_LEN: u16 = 42;

/// Why no boot volume could be selected.
#[derive(Clone, Copy, Debug, PartialEq, Eq, Structural)]
pub enum BootError {
    /// No volume's device path carries the wanted partition signature.
    NoBootPartition,
    /// More than one volume carries it.
    AmbiguousBootPartition,
    /// The loaded kernel image is not a 64-bit ELF.
    NotElf64,
}

/// The declared total length of the node at `off`.
pub open spec fn spec_node_len(p: Seq<u8>, off: int) -> int
    recommends
        0 <= off,
        off + 4 <= p.len(),
{
    spec_u16_from_le_bytes(p.subrange(off + 2, off + 4)) as int
}

/// The node at `off` is a Media / Hard Drive Partition node long
/// enough to carry a signature, its signature type marks a GUID, and
/// its sixteen signature bytes equal `sig`.
pub open spec fn spec_node_matches(p: Seq<u8>, off: int, sig: Seq<u8>) -> bool
    recommends
        0 <= off,
        off + 4 <= p.len(),
        off + spec_node_len(p, off) <= p.len(),
{
    &&& p[off] == DEVICE_TYPE_MEDIA
    &&& p[off + 1] == DEVICE_SUBTYPE_HARD_DRIVE
    &&& spec_node_len(p, off) >= MIN_HARD_DRIVE_NODE_LEN
    &&& p[off + 41] == SIG_TYPE_GUID_PARTN
    &&& p.subrange(off + 24, off + 40) == sig
}

/// Some node of the chain starting at `off` matches `sig`.  The walk
/// stops without a match at an End node, at a truncated node header,
/// at a node length too short to advance, and at a node reaching past
/// the end of the buffer.
pub open spec fn spec_path_matches(p: Seq<u8>, sig: Seq<u8>, off: int) -> bool
    decreases p.len() - off,
{
    if off < 0 || off + 4 > p.len() {
        false
    } else if p[off] == DEVICE_TYPE_END {
        false
    } else {
        let l = spec_node_len(p, off);
        if l < 4 || off + l > p.len() {
            false
        } else {
            spec_node_matches(p, off, sig) || spec_path_matches(p, sig, off + l)
        }
    }
}

/// Compare the sixteen signature bytes of the node at `off` with `sig`.
fn sig_matches_at(path: &[u8], off: usize, sig: &[u8]) -> (r: bool)
    requires
        off + 40 <= path@.len(),
        sig@.len() == 16,
    ensures
        r == (path@.subrange(off + 24, off + 40) == sig@),
{
    let mut i: usize = 0;
    while i < 16
        invariant
            i <= 16,
            off + 40 <= path.len(),
            sig@.len() == 16,
            forall|k: int| 0 <= k < i ==> path@[off + 24 + k] == sig@[k],
        decreases 16 - i,
    {
        if path[off + 24 + i] != sig[i] {
            proof {
                assert(path@.subrange(off + 24, off + 40)[i as int] != sig@[i as int]);
            }
            return false;
        }
        i = i + 1;
    }
    proof {
        assert(path@.subrange(off + 24, off + 40) =~= sig@);
    }
    true
}

/// Walk one device path, looking for a Media / Hard Drive Partition
/// node whose GUID-typed signature equals `sig` (sixteen mixed-endian
/// bytes).
pub fn path_contains_signature(path: &[u8], sig: &[u8]) -> (r: bool)
    requires
        sig@.len() == 16,
    ensures
        r == spec_path_matches(path@, sig@, 0),
{
    let mut off: usize = 0;
    loop
        invariant
            sig@.len() == 16,
            0 <= off,
            spec_path_matches(path@, sig@, 0) == spec_path_matches(path@, sig@, off as int),
        ensures
            spec_path_matches(path@, sig@, 0) == false,
        decreases path@.len() - off,
    {
        if off > path.len() || path.len() - off < 4 {
            return false;
        }
        let dev_type = path[off];
        if dev_type == DEVICE_TYPE_END {
            return false;
        }
        let node_len_u16 = vstd::bytes::u16_from_le_bytes(
            vstd::slice::slice_subrange(path, off + 2, off + 4),
        );
        let node_len: usize = node_len_u16 as usize;
        if node_len < 4 || node_len > path.len() - off {
            return false;
        }
        if dev_type == DEVICE_TYPE_MEDIA && path[off + 1] == DEVICE_SUBTYPE_HARD_DRIVE
            && node_len >= MIN_HARD_DRIVE_NODE_LEN as usize {
            let sig_type = path[off + 41];
            if sig_type == SIG_TYPE_GUID_PARTN && sig_matches_at(path, off, sig) {
                return true;
            }
        }
        proof {
            assert(!spec_node_matches(path@, off as int, sig@));
        }
        off = off + node_len;
    }
}

/// Pick the volume whose device path carries the mixed-endian
/// signature of `target`.  Exactly one volume must carry it: none is a
/// discovery failure, several are ambiguous.
pub fn select_boot_volume(paths: &Vec<Vec<u8>>, target: &Guid) -> (r: Result<usize, BootError>)
    ensures
        ({
            let sig = mixed_endian(target@);
            &&& ((r == Err::<usize, BootError>(BootError::NoBootPartition)) <==> (forall|k: int|
                0 <= k < paths@.len() ==> !spec_path_matches(#[trigger] paths@[k]@, sig, 0)))
            &&& ((r == Err::<usize, BootError>(BootError::AmbiguousBootPartition)) <==> (exists|
                k1: int,
                k2: int,
            |
                0 <= k1 < k2 < paths@.len() && spec_path_matches(#[trigger] paths@[k1]@, sig, 0)
                    && spec_path_matches(#[trigger] paths@[k2]@, sig, 0)))
            &&& (r matches Ok(i) ==> {
                &&& 0 <= i < paths@.len()
                &&& spec_path_matches(paths@[i as int]@, sig, 0)
                &&& (forall|k: int|
                    0 <= k < paths@.len() && k != i ==> !spec_path_matches(
                        #[trigger] paths@[k]@,
                        sig,
                        0,
                    ))
            })
        }),
{
    let sig = target.to_mixed_bytes();
    let mut found: usize = 0;
    let mut count: usize = 0;
    let mut k: usize = 0;
    while k < paths.len()
        invariant
            sig@ == mixed_endian(target@),
            sig@.len() == 16,
            k <= paths@.len(),
            count <= k,
            count == 0 ==> (forall|j: int|
                0 <= j < k ==> !spec_path_matches(#[trigger] paths@[j]@, sig@, 0)),
            count >= 1 ==> {
                &&& found < k
                &&& spec_path_matches(paths@[found as int]@, sig@, 0)
            },
            count == 1 ==> (forall|j: int|
                0 <= j < k && j != found ==> !spec_path_matches(#[trigger] paths@[j]@, sig@, 0)),
            count >= 2 ==> (exists|k1: int, k2: int|
                0 <= k1 < k2 < k && spec_path_matches(#[trigger] paths@[k1]@, sig@, 0)
                    && spec_path_matches(#[trigger] paths@[k2]@, sig@, 0)),
        decreases paths@.len() - k,
    {
        if path_contains_signature(paths[k].as_slice(), sig.as_slice()) {
            if count >= 1 {
                proof {
                    assert(spec_path_matches(paths@[found as int]@, sig@, 0)
                        && spec_path_matches(paths@[k as int]@, sig@, 0) && found < k);
                }
            }
            found = k;
            count = if count < 2 {
                count + 1
            } else {
                2
            };
        }
        k = k + 1;
    }
    if count == 0 {
        Err(BootError::NoBootPartition)
    } else if count == 1 {
        Ok(found)
    } else {
        Err(BootError::AmbiguousBootPartition)
    }
}

} // verus!
