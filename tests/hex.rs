use array_bytes::{
    bytes2hex, hex2array, hex2array_unchecked, hex2bytes, hex2bytes_unchecked, hex2slice,
    hex2slice_unchecked, hex_bytes2hex_str, hex_bytes2hex_str_unchecked, hex_into,
    hex_into_unchecked, hex_n_into, hex_n_into_unchecked, Error,
};

const LJF_HEX: &str = "0x4c6f7665204a616e6520466f7265766572";
const LJF: &[u8; 17] = b"Love Jane Forever";

#[derive(Debug, PartialEq)]
struct LjfVec(Vec<u8>);

impl From<Vec<u8>> for LjfVec {
    fn from(vec: Vec<u8>) -> Self {
        Self(vec)
    }
}

#[derive(Debug, PartialEq)]
struct LjfArray([u8; 17]);

impl From<[u8; 17]> for LjfArray {
    fn from(array: [u8; 17]) -> Self {
        Self(array)
    }
}

#[test]
fn bytes2hex_writes_prefix_and_lowercase_digits() {
    assert_eq!(bytes2hex("0x", LJF), String::from(LJF_HEX));
    assert_eq!(bytes2hex("", &[0x00, 0x0f, 0xf0, 0xff]), String::from("000ff0ff"));
    assert_eq!(bytes2hex("0x", &[]), String::from("0x"));
    assert_eq!(bytes2hex("", &[]), String::new());
}

#[test]
fn hex2bytes_decodes_example() {
    assert_eq!(hex2bytes(LJF_HEX.as_bytes()), Ok(LJF.to_vec()));
    assert_eq!(hex2bytes(&LJF_HEX.as_bytes()[2..]), Ok(LJF.to_vec()));
}

#[test]
fn hex2bytes_empty_inputs() {
    assert_eq!(hex2bytes(b""), Ok(vec![]));
    assert_eq!(hex2bytes(b"0x"), Ok(vec![]));
}

#[test]
fn hex2bytes_ignores_case() {
    assert_eq!(hex2bytes(b"0xAb"), Ok(vec![0xab]));
    assert_eq!(hex2bytes(b"0xab"), Ok(vec![0xab]));
    assert_eq!(hex2bytes(b"ABCDEF"), Ok(vec![0xab, 0xcd, 0xef]));
}

#[test]
fn hex2bytes_rejects_odd_length() {
    assert_eq!(hex2bytes(b"0xabc"), Err(Error::InvalidLength));
    assert_eq!(hex2bytes(b"a"), Err(Error::InvalidLength));
}

#[test]
fn hex2bytes_reports_first_invalid_character() {
    assert_eq!(hex2bytes(b"0xzz"), Err(Error::InvalidCharacter { character: 'z', index: 2 }));
    assert_eq!(hex2bytes(b"zz"), Err(Error::InvalidCharacter { character: 'z', index: 0 }));
    assert_eq!(hex2bytes(b"0x0g"), Err(Error::InvalidCharacter { character: 'g', index: 3 }));
    assert_eq!(hex2bytes(b"00 g"), Err(Error::InvalidCharacter { character: ' ', index: 2 }));
}

#[test]
fn hex2bytes_only_lowercase_prefix() {
    assert_eq!(hex2bytes(b"0X00"), Err(Error::InvalidCharacter { character: 'X', index: 1 }));
}

#[test]
fn hex2bytes_forces_the_lowercase_bit() {
    // 0x10 and 0x11 read as '0' and '1' once their 0x20 bit is on.
    assert_eq!(hex2bytes(&[0x10, 0x11]), Ok(vec![0x01]));
}

#[test]
fn hex2bytes_round_trips() {
    let data: Vec<u8> = (0..=255u8).collect();
    assert_eq!(hex2bytes(bytes2hex("0x", &data).as_bytes()), Ok(data.clone()));
    assert_eq!(hex2bytes(bytes2hex("", &data).as_bytes()), Ok(data.clone()));
    assert_eq!(hex2bytes(bytes2hex("", &[0x0a]).as_bytes()), Ok(vec![0x0a]));
}

#[test]
fn hex2bytes_unchecked_agrees_with_checked() {
    assert_eq!(hex2bytes_unchecked(LJF_HEX.as_bytes()), LJF.to_vec());
    for h in [&b"0xAbCd"[..], b"0x", b"", b"00ff10"] {
        assert_eq!(hex2bytes(h), Ok(hex2bytes_unchecked(h)));
    }
}

#[test]
fn hex2slice_fills_destination() {
    let mut out = [0u8; 17];
    assert_eq!(hex2slice(LJF_HEX.as_bytes(), &mut out), Ok(&LJF[..]));
    assert_eq!(&out, LJF);
}

#[test]
fn hex2slice_wrong_size_leaves_destination() {
    let mut out = [7u8; 3];
    assert_eq!(hex2slice(b"0x0011", &mut out), Err(Error::MismatchedLength { expect: 3 }));
    assert_eq!(out, [7u8; 3]);
    let mut out = [7u8; 1];
    assert_eq!(hex2slice(b"0x0011", &mut out), Err(Error::MismatchedLength { expect: 1 }));
    assert_eq!(out, [7u8; 1]);
}

#[test]
fn hex2slice_invalid_character_leaves_destination() {
    let mut out = [7u8; 2];
    assert_eq!(
        hex2slice(b"0x00zz", &mut out),
        Err(Error::InvalidCharacter { character: 'z', index: 4 })
    );
    assert_eq!(out, [7u8; 2]);
    assert_eq!(hex2slice(b"0x001", &mut out), Err(Error::InvalidLength));
    assert_eq!(out, [7u8; 2]);
}

#[test]
fn hex2slice_unchecked_fills_destination() {
    let mut out = [0u8; 17];
    assert_eq!(hex2slice_unchecked(LJF_HEX.as_bytes(), &mut out), &LJF[..]);
    assert_eq!(&out, LJF);
}

#[test]
fn hex2array_decodes() {
    assert_eq!(hex2array::<17>(LJF_HEX.as_bytes()), Ok(*LJF));
    assert_eq!(hex2array_unchecked::<17>(LJF_HEX.as_bytes()), *LJF);
}

#[test]
fn hex2array_length_mismatch() {
    assert_eq!(hex2array::<8>(b"0x00"), Err(Error::MismatchedLength { expect: 8 }));
    assert_eq!(hex2array::<1>(b"0x0"), Err(Error::InvalidLength));
    assert_eq!(hex2array::<1>(b"0xq0"), Err(Error::InvalidCharacter { character: 'q', index: 2 }));
}

#[test]
fn hex_into_converts() {
    assert_eq!(hex_into::<LjfVec>(LJF_HEX.as_bytes()), Ok(LjfVec(LJF.to_vec())));
    assert_eq!(hex_into_unchecked::<LjfVec>(LJF_HEX.as_bytes()), LjfVec(LJF.to_vec()));
    assert_eq!(hex_into::<LjfVec>(b"0x1"), Err(Error::InvalidLength));
}

#[test]
fn hex_n_into_converts() {
    assert_eq!(hex_n_into::<LjfArray, 17>(LJF_HEX.as_bytes()), Ok(LjfArray(*LJF)));
    assert_eq!(hex_n_into_unchecked::<LjfArray, 17>(LJF_HEX.as_bytes()), LjfArray(*LJF));
    assert_eq!(
        hex_n_into::<LjfArray, 17>(b"0x00"),
        Err(Error::MismatchedLength { expect: 17 })
    );
}

#[test]
fn hex_bytes2hex_str_checks_digits() {
    assert_eq!(hex_bytes2hex_str(LJF_HEX.as_bytes()), Ok(LJF_HEX));
    assert_eq!(hex_bytes2hex_str(b"abc"), Ok("abc"));
    assert_eq!(
        hex_bytes2hex_str(b"0x4g"),
        Err(Error::InvalidCharacter { character: 'g', index: 3 })
    );
    assert_eq!(hex_bytes2hex_str_unchecked(LJF_HEX.as_bytes()), LJF_HEX);
}
