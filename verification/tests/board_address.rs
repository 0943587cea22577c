use stm32_quad::address::{mac_from_hex, HexError};

#[test]
fn twelve_digits_give_six_bytes() {
    assert_eq!(mac_from_hex(b"98D3A1F5C4E2"), Ok([0x98, 0xD3, 0xA1, 0xF5, 0xC4, 0xE2]));
    assert_eq!(mac_from_hex(b"00ff10Ab7e01"), Ok([0x00, 0xFF, 0x10, 0xAB, 0x7E, 0x01]));
}

#[test]
fn odd_length_is_refused() {
    assert_eq!(mac_from_hex(b"98D3A1F5C4E"), Err(HexError::OddLength));
    assert_eq!(mac_from_hex(b"g"), Err(HexError::OddLength));
}

#[test]
fn first_bad_digit_is_reported() {
    assert_eq!(
        mac_from_hex(b"98D3A1F5C4Eg"),
        Err(HexError::InvalidHexCharacter { c: 'g', index: 11 })
    );
    assert_eq!(
        mac_from_hex(b"98:3A1F5C4zz"),
        Err(HexError::InvalidHexCharacter { c: ':', index: 2 })
    );
    assert_eq!(
        mac_from_hex(b"98D3A1F5C4E2XY"),
        Err(HexError::InvalidHexCharacter { c: 'X', index: 12 })
    );
}
