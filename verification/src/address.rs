use vstd::prelude::*;

verus! {

/// Why a hex string did not decode.
#[derive(Clone, Copy, Debug, PartialEq, Eq)]
pub enum HexError {
    /// A byte that is no hex digit, and its position.
    InvalidHexCharacter { c: char, index: usize },
    /// The string has an odd number of digits.
    OddLength,
    /// The string does not fit the container it is decoded into.
    InvalidStringLength,
}

/// The value of a hex digit (`0-9`, `a-f`, `A-F`), or `None` for any other byte.
pub open spec fn hex_digit(b: u8) -> Option<u8> {
    if 48 <= b <= 57 {
        Some((b - 48) as u8)
    } else if 65 <= b <= 70 {
        Some((b - 55) as u8)
    } else if 97 <= b <= 102 {
        Some((b - 87) as u8)
    } else {
        None
    }
}

/// Every byte of `s` is a hex digit.
pub open spec fn all_hex(s: Seq<u8>) -> bool {
    forall|i: int| 0 <= i < s.len() ==> #[trigger] hex_digit(s[i]) is Some
}

/// `s` is a hex string: an even number of hex digits.
pub open spec fn valid_hex(s: Seq<u8>) -> bool {
    s.len() % 2 == 0 && all_hex(s)
}

/// The bytes that the hex string `s` stands for, two digits per byte, the
/// high half first.
pub open spec fn hex_bytes(s: Seq<u8>) -> Seq<u8> {
    Seq::new(
        s.len() / 2,
        |i: int| (hex_digit(s[2 * i]).unwrap() * 16 + hex_digit(s[2 * i + 1]).unwrap()) as u8,
    )
}

/// The error that decoding the string `s`, not a hex string, reports: an odd
/// length first, else the first byte that is no hex digit.
pub open spec fn hex_error(s: Seq<u8>, e: HexError) -> bool {
    if s.len() % 2 == 1 {
        e == HexError::OddLength
    } else {
        match e {
            HexError::InvalidHexCharacter { c, index } => {
                &&& index < s.len()
                &&& hex_digit(s[index as int]) is None
                &&& forall|j: int| 0 <= j < index ==> #[trigger] hex_digit(s[j]) is Some
                &&& c == (s[index as int] as char)
            },
            _ => false,
        }
    }
}

/// The lower-case hex digit of a value below sixteen.
pub open spec fn lower_hex_digit(v: u8) -> u8 {
    if v < 10 {
        (48 + v) as u8
    } else {
        (87 + v) as u8
    }
}

/// The lower-case hex form of `bytes`: two digits per byte, the high half
/// first.
pub open spec fn to_hex(bytes: Seq<u8>) -> Seq<u8> {
    Seq::new(
        2 * bytes.len(),
        |i: int|
            lower_hex_digit(if i % 2 == 0 { bytes[i / 2] / 16 } else { bytes[i / 2] % 16 }),
    )
}

/// Digits read as their values: `0`-`9` are 0 to 9, and `a`-`f` as well as
/// `A`-`F` are 10 to 15; no other byte is a digit.
pub proof fn lemma_hex_digit_values(b: u8)
    ensures
        48 <= b <= 57 ==> hex_digit(b) == Some((b - 48) as u8),
        97 <= b <= 102 ==> hex_digit(b) == Some((b - 87) as u8),
        65 <= b <= 70 ==> hex_digit(b) == Some((b - 55) as u8),
        65 <= b <= 70 ==> hex_digit(b) == hex_digit((b + 32) as u8),
        !(48 <= b <= 57 || 97 <= b <= 102 || 65 <= b <= 70) ==> hex_digit(b) is None,
{
}

/// Writing bytes as hex and reading the string back gives the same bytes.
pub proof fn lemma_hex_roundtrip(bytes: Seq<u8>)
    ensures
        valid_hex(to_hex(bytes)),
        hex_bytes(to_hex(bytes)) == bytes,
{
    let h = to_hex(bytes);
    assert forall|i: int| 0 <= i < h.len() implies #[trigger] hex_digit(h[i]) is Some by {
        let v: u8 = if i % 2 == 0 { bytes[i / 2] / 16 } else { bytes[i / 2] % 16 };
        assert(v < 16);
    }
    assert(h.len() % 2 == 0);
    assert forall|i: int| 0 <= i < bytes.len() implies #[trigger] hex_bytes(h)[i] == bytes[i] by {
        let hi = bytes[i] / 16;
        let lo = bytes[i] % 16;
        assert((2 * i) % 2 == 0 && (2 * i) / 2 == i);
        assert((2 * i + 1) % 2 == 1 && (2 * i + 1) / 2 == i);
        assert(h[2 * i] == lower_hex_digit(hi));
        assert(h[2 * i + 1] == lower_hex_digit(lo));
        assert(hex_digit(lower_hex_digit(hi)) == Some(hi));
        assert(hex_digit(lower_hex_digit(lo)) == Some(lo));
        assert(hi * 16 + lo == bytes[i]);
    }
    assert(hex_bytes(h) =~= bytes);
}

/// Calls `hex::decode`. Per its source, an odd-length input gives
/// `OddLength`; else each pair of digits gives a byte, the high half first,
/// and the first byte that is no hex digit gives `InvalidHexCharacter` with
/// that byte as a character and its index.
#[verifier::external_body]
fn hex_decode(data: &[u8]) -> (r: Result<Vec<u8>, HexError>)
    ensures
        r is Ok <==> valid_hex(data@),
        r matches Ok(v) ==> v@ == hex_bytes(data@),
        r matches Err(e) ==> hex_error(data@, e),
{
    match hex::decode(data) {
        Ok(v) => Ok(v),
        Err(hex::FromHexError::InvalidHexCharacter { c, index }) => Err(
            HexError::InvalidHexCharacter { c, index },
        ),
        Err(hex::FromHexError::OddLength) => Err(HexError::OddLength),
        Err(hex::FromHexError::InvalidStringLength) => Err(HexError::InvalidStringLength),
    }
}

/// The six bytes of a Bluetooth address written as twelve hex digits, such
/// as `"98D3A1F5C4E2"`. A string that is no hex string is refused with the
/// error of [`hex_error`]; a hex string of another length than twelve digits
/// is outside what this accepts.
pub fn mac_from_hex(sensor_mac: &[u8]) -> (r: Result<[u8; 6], HexError>)
    requires
        valid_hex(sensor_mac@) ==> sensor_mac@.len() == 12,
    ensures
        r is Ok <==> valid_hex(sensor_mac@),
        r matches Ok(mac) ==> mac@ == hex_bytes(sensor_mac@),
        r matches Err(e) ==> hex_error(sensor_mac@, e),
{
    match hex_decode(sensor_mac) {
        Ok(raw) => {
            let mac: [u8; 6] = [raw[0], raw[1], raw[2], raw[3], raw[4], raw[5]];
            assert(mac@ =~= hex_bytes(sensor_mac@));
            Ok(mac)
        },
        Err(e) => Err(e),
    }
}

} // verus!
