//! 128-bit identifiers and their GPT on-disk mixed-endian encoding.
//!
//! A `Guid` holds its sixteen bytes in canonical order: the order in which
//! the textual form `xxxxxxxx-xxxx-xxxx-xxxx-xxxxxxxxxxxx` writes them.
//! The GPT on-disk form stores the first three dash-separated fields
//! little-endian and the last eight bytes verbatim; that permutation is
//! its own inverse.

use vstd::bytes::*;
use vstd::prelude::*;

verus! {

/// A 128-bit identifier in canonical byte order.
#[derive(Clone, Copy, Debug)]
pub struct Guid {
    pub bytes: [u8; 16],
}

impl View for Guid {
    type V = Seq<u8>;

    open spec fn view(&self) -> Seq<u8> {
        self.bytes@
    }
}

/// The GPT mixed-endian byte permutation: the first three fields
/// (4, 2 and 2 bytes) are reversed, the final 8 bytes kept as they are.
pub open spec fn mixed_endian(s: Seq<u8>) -> Seq<u8>
    recommends
        s.len() == 16,
{
    seq![
        s[3], s[2], s[1], s[0],
        s[5], s[4],
        s[7], s[6],
        s[8], s[9], s[10], s[11], s[12], s[13], s[14], s[15],
    ]
}

/// Law: the mixed-endian permutation is an involution, so decoding an
/// encoded identifier gives the identifier back for every 128-bit value.
pub proof fn lemma_mixed_endian_involutive(s: Seq<u8>)
    requires
        s.len() == 16,
    ensures
        mixed_endian(mixed_endian(s)) == s,
{
    assert(mixed_endian(mixed_endian(s)) =~= s);
}

impl Guid {
    /// The canonical bytes of the 128-bit value `x`: most significant first.
    pub open spec fn spec_from_u128(x: u128) -> Seq<u8> {
        spec_u128_to_le_bytes(x).reverse()
    }

    pub fn from_u128(x: u128) -> (r: Guid)
        ensures
            r@ == Guid::spec_from_u128(x),
    {
        let le = u128_to_le_bytes(x);
        let bytes: [u8; 16] = [
            le[15], le[14], le[13], le[12], le[11], le[10], le[9], le[8],
            le[7], le[6], le[5], le[4], le[3], le[2], le[1], le[0],
        ];
        let r = Guid { bytes };
        proof {
            assert(r@ =~= spec_u128_to_le_bytes(x).reverse()) by {
                lemma_auto_spec_u128_to_from_le_bytes();
            }
        }
        r
    }

    /// The on-disk mixed-endian form of this identifier.
    pub fn to_mixed_bytes(&self) -> (r: Vec<u8>)
        ensures
            r@ == mixed_endian(self@),
    {
        let b = &self.bytes;
        let mut r: Vec<u8> = Vec::new();
        r.push(b[3]);
        r.push(b[2]);
        r.push(b[1]);
        r.push(b[0]);
        r.push(b[5]);
        r.push(b[4]);
        r.push(b[7]);
        r.push(b[6]);
        r.push(b[8]);
        r.push(b[9]);
        r.push(b[10]);
        r.push(b[11]);
        r.push(b[12]);
        r.push(b[13]);
        r.push(b[14]);
        r.push(b[15]);
        proof {
            assert(r@ =~= mixed_endian(self@));
        }
        r
    }

    /// Decode an on-disk mixed-endian form back into a canonical identifier.
    pub fn from_mixed_bytes(b: &[u8]) -> (r: Guid)
        requires
            b@.len() == 16,
        ensures
            r@ == mixed_endian(b@),
    {
        let bytes: [u8; 16] = [
            b[3], b[2], b[1], b[0],
            b[5], b[4],
            b[7], b[6],
            b[8], b[9], b[10], b[11], b[12], b[13], b[14], b[15],
        ];
        let r = Guid { bytes };
        proof {
            assert(r@ =~= mixed_endian(b@));
        }
        r
    }
}

pub open spec fn is_hex_digit(c: u8) -> bool {
    (0x30 <= c <= 0x39) || (0x61 <= c <= 0x66) || (0x41 <= c <= 0x46)
}

/// The value of one hexadecimal digit, either case.
pub open spec fn hex_val(c: u8) -> u8
    recommends
        is_hex_digit(c),
{
    if 0x30 <= c <= 0x39 {
        (c - 0x30) as u8
    } else if 0x61 <= c <= 0x66 {
        (c - 0x61 + 10) as u8
    } else {
        (c - 0x41 + 10) as u8
    }
}

/// Where byte `i` of the value starts in the 36-character textual form
/// `xxxxxxxx-xxxx-xxxx-xxxx-xxxxxxxxxxxx`: two digits per byte, with a
/// dash after bytes 3, 5, 7 and 9.
pub open spec fn guid_text_pos(i: int) -> int {
    if i < 4 {
        2 * i
    } else if i < 6 {
        2 * i + 1
    } else if i < 8 {
        2 * i + 2
    } else if i < 10 {
        2 * i + 3
    } else {
        2 * i + 4
    }
}

/// The text is 36 bytes: dashes at positions 8, 13, 18 and 23 and a
/// hexadecimal digit pair for each of the sixteen value bytes.
pub open spec fn guid_text_wf(s: Seq<u8>) -> bool {
    &&& s.len() == 36
    &&& s[8] == 0x2Du8
    &&& s[13] == 0x2Du8
    &&& s[18] == 0x2Du8
    &&& s[23] == 0x2Du8
    &&& forall|i: int|
        0 <= i < 16 ==> is_hex_digit(s[#[trigger] guid_text_pos(i)]) && is_hex_digit(
            s[guid_text_pos(i) + 1],
        )
}

/// The sixteen canonical bytes the text writes.
pub open spec fn spec_guid_of_text(s: Seq<u8>) -> Seq<u8>
    recommends
        guid_text_wf(s),
{
    Seq::new(
        16,
        |i: int| (hex_val(s[guid_text_pos(i)]) * 16 + hex_val(s[guid_text_pos(i) + 1])) as u8,
    )
}

/// The value of an ASCII hexadecimal digit, or nothing for any other
/// byte.
fn hex_digit_val(c: u8) -> (r: Option<u8>)
    ensures
        (r matches Some(v)) <==> is_hex_digit(c),
        r matches Some(v) ==> v == hex_val(c),
{
    if 0x30 <= c && c <= 0x39 {
        Some(c - 0x30)
    } else if 0x61 <= c && c <= 0x66 {
        Some(c - 0x61 + 10)
    } else if 0x41 <= c && c <= 0x46 {
        Some(c - 0x41 + 10)
    } else {
        None
    }
}

fn text_pos(i: usize) -> (r: usize)
    requires
        i < 16,
    ensures
        r == guid_text_pos(i as int),
{
    if i < 4 {
        2 * i
    } else if i < 6 {
        2 * i + 1
    } else if i < 8 {
        2 * i + 2
    } else if i < 10 {
        2 * i + 3
    } else {
        2 * i + 4
    }
}

impl Guid {
    /// Parse the canonical 36-character textual form, either digit
    /// case.  Fails exactly on text of the wrong shape.
    pub fn parse_ascii(s: &[u8]) -> (r: Option<Guid>)
        ensures
            (r matches Some(g)) <==> guid_text_wf(s@),
            r matches Some(g) ==> g@ == spec_guid_of_text(s@),
    {
        if s.len() != 36 {
            return None;
        }
        if s[8] != 0x2D || s[13] != 0x2D || s[18] != 0x2D || s[23] != 0x2D {
            return None;
        }
        let mut bytes: [u8; 16] = [0u8; 16];
        let mut i: usize = 0;
        while i < 16
            invariant
                i <= 16,
                s@.len() == 36,
                forall|j: int|
                    0 <= j < i ==> is_hex_digit(s@[#[trigger] guid_text_pos(j)]) && is_hex_digit(
                        s@[guid_text_pos(j) + 1],
                    ),
                forall|j: int|
                    0 <= j < i ==> bytes@[j] == (hex_val(s@[#[trigger] guid_text_pos(j)]) * 16
                        + hex_val(s@[guid_text_pos(j) + 1])) as u8,
            decreases 16 - i,
        {
            let p = text_pos(i);
            let hi = match hex_digit_val(s[p]) {
                Some(v) => v,
                None => {
                    return None;
                },
            };
            let lo = match hex_digit_val(s[p + 1]) {
                Some(v) => v,
                None => {
                    return None;
                },
            };
            bytes[i] = hi * 16 + lo;
            i = i + 1;
        }
        let g = Guid { bytes };
        proof {
            assert(g@ =~= spec_guid_of_text(s@));
        }
        Some(g)
    }
}

/// Relies on `uuid::Uuid::new_v4` for a freshly generated random
/// identifier and on `Uuid::as_bytes` returning its sixteen bytes in
/// canonical order.  The value is random: nothing is promised of it.
#[verifier::external_body]
pub fn random_guid() -> (r: Guid) {
    Guid { bytes: *uuid::Uuid::new_v4().as_bytes() }
}

/// The on-disk mixed-endian form of `guid`, read as one little-endian
/// 128-bit integer.
pub fn uuid_to_guid_mixed_endian(guid: &Guid) -> (r: u128)
    ensures
        r == spec_u128_from_le_bytes(mixed_endian(guid@)),
{
    let mixed = guid.to_mixed_bytes();
    u128_from_le_bytes(mixed.as_slice())
}

} // verus!
