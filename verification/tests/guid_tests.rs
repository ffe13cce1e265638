use gptboot::gpt::partition_type_efi_system;
use gptboot::guid::Guid;

#[test]
fn uuid_from_u128_endian() {
    assert_eq!(
        partition_type_efi_system().bytes,
        Guid::parse_ascii(b"C12A7328-F81F-11D2-BA4B-00A0C93EC93B").unwrap().bytes,
    );
}

#[test]
fn uuid_to_guid_mixed_endian() {
    assert_eq!(
        gptboot::guid::uuid_to_guid_mixed_endian(&partition_type_efi_system()),
        u128::from_ne_bytes(*b"\x28\x73\x2A\xC1\x1F\xF8\xD2\x11\xBA\x4B\x00\xA0\xC9\x3E\xC9\x3B"),
    );
}

#[test]
fn mixed_endian_round_trip_is_identity() {
    let values: [u128; 4] = [
        0,
        0xC12A7328_F81F_11D2_BA4B_00A0C93EC93B,
        0xA4A4A4A4_A4A4_A4A4_A4A4_A4A4A4A4A4A4,
        u128::MAX,
    ];
    for v in values {
        let g = Guid::from_u128(v);
        let mixed = g.to_mixed_bytes();
        let back = Guid::from_mixed_bytes(mixed.as_slice());
        assert_eq!(back.bytes, g.bytes);
    }
}

#[test]
fn from_u128_writes_canonical_bytes() {
    let g = Guid::from_u128(0xC12A7328_F81F_11D2_BA4B_00A0C93EC93B);
    assert_eq!(
        g.bytes,
        [
            0xC1, 0x2A, 0x73, 0x28, 0xF8, 0x1F, 0x11, 0xD2, 0xBA, 0x4B, 0x00, 0xA0, 0xC9, 0x3E,
            0xC9, 0x3B
        ],
    );
}

#[test]
fn mixed_endian_permutes_first_three_fields() {
    let g = Guid::from_u128(0x00010203_0405_0607_0809_0A0B0C0D0E0F);
    let mixed = g.to_mixed_bytes();
    assert_eq!(
        mixed.as_slice(),
        &[3, 2, 1, 0, 5, 4, 7, 6, 8, 9, 0xA, 0xB, 0xC, 0xD, 0xE, 0xF],
    );
}

#[test]
fn parse_ascii_accepts_lower_case() {
    let a = Guid::parse_ascii(b"c12a7328-f81f-11d2-ba4b-00a0c93ec93b").unwrap();
    let b = Guid::parse_ascii(b"C12A7328-F81F-11D2-BA4B-00A0C93EC93B").unwrap();
    assert_eq!(a.bytes, b.bytes);
}

#[test]
fn parse_ascii_rejects_malformed_text() {
    assert!(Guid::parse_ascii(b"").is_none());
    assert!(Guid::parse_ascii(b"C12A7328F81F11D2BA4B00A0C93EC93B").is_none());
    assert!(Guid::parse_ascii(b"C12A7328_F81F-11D2-BA4B-00A0C93EC93B").is_none());
    assert!(Guid::parse_ascii(b"G12A7328-F81F-11D2-BA4B-00A0C93EC93B").is_none());
    assert!(Guid::parse_ascii(b"C12A7328-F81F-11D2-BA4B-00A0C93EC93").is_none());
}

#[test]
fn uuid_to_guid_mixed_endian_zero_is_zero() {
    assert_eq!(gptboot::guid::uuid_to_guid_mixed_endian(&Guid::from_u128(0)), 0);
}
