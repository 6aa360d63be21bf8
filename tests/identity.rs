use type_identity::identity::{bytes_to_identity, identity_to_bytes, parse_identity, Identity};

#[test]
fn parses_hyphenated_text() {
    assert_eq!(
        parse_identity("12345678-1234-1234-1234-123456789abc"),
        Some(Identity { value: 0x12345678_1234_1234_1234_123456789abc })
    );
    assert_eq!(parse_identity("00000000-0000-0000-0000-000000000000"), Some(Identity { value: 0 }));
}

#[test]
fn parses_digits_in_either_case() {
    assert_eq!(
        parse_identity("F9168C5E-CEB2-4faa-B6BF-329BF39FA1E4"),
        Some(Identity { value: 0xf9168c5e_ceb2_4faa_b6bf_329bf39fa1e4 })
    );
}

#[test]
fn rejects_other_shapes() {
    assert_eq!(parse_identity(""), None);
    assert_eq!(parse_identity("67e5504410b1426f9247bb680e5fe0c8"), None);
    assert_eq!(parse_identity("{67e55044-10b1-426f-9247-bb680e5fe0c8}"), None);
    assert_eq!(parse_identity("urn:uuid:67e55044-10b1-426f-9247-bb680e5fe0c8"), None);
    assert_eq!(parse_identity("67e55044-10b1-426f-9247-bb680e5fe0c"), None);
    assert_eq!(parse_identity("67e55044-10b1-426f-9247-bb680e5fe0c8a"), None);
    assert_eq!(parse_identity("67e55044+10b1-426f-9247-bb680e5fe0c8"), None);
    assert_eq!(parse_identity("67e5504-410b1-426f-9247-bb680e5fe0c8"), None);
    assert_eq!(parse_identity("g7e55044-10b1-426f-9247-bb680e5fe0c8"), None);
}

#[test]
fn bytes_are_big_endian() {
    let bytes = identity_to_bytes(Identity { value: 0x12345678_1234_1234_1234_123456789abc });
    assert_eq!(
        bytes,
        [0x12, 0x34, 0x56, 0x78, 0x12, 0x34, 0x12, 0x34, 0x12, 0x34, 0x12, 0x34, 0x56, 0x78, 0x9a, 0xbc]
    );
    let back = bytes_to_identity([1, 2, 3, 4, 5, 6, 7, 8, 9, 10, 11, 12, 13, 14, 15, 16]);
    assert_eq!(back.value, 0x0102030405060708090a0b0c0d0e0f10);
}

#[test]
fn bytes_round_trip() {
    for value in [0u128, 1, 0xff, 0x0102030405060708090a0b0c0d0e0f10, u128::MAX, 1u128 << 127] {
        let id = Identity { value };
        assert_eq!(bytes_to_identity(identity_to_bytes(id)), id);
    }
    assert_eq!(identity_to_bytes(Identity { value: 0 }), [0u8; 16]);
}

#[test]
fn value_round_trip_keeps_bytes() {
    let bytes = [0xde, 0xad, 0xbe, 0xef, 0, 1, 2, 3, 0x80, 0x7f, 0xff, 0x10, 0x20, 0x30, 0x40, 0x50];
    assert_eq!(identity_to_bytes(bytes_to_identity(bytes)), bytes);
}
