use array_bytes::{Error, TryFromHex};

#[test]
fn parses_prefixed_numbers() {
    assert_eq!(u32::try_from_hex("0x522"), Ok(1314));
    assert_eq!(u8::try_from_hex("0x5"), Ok(5));
    assert_eq!(u8::try_from_hex("0"), Ok(0));
    assert_eq!(u64::try_from_hex("0xFFffFFff"), Ok(0xffff_ffff));
    assert_eq!(u128::try_from_hex("0x1"), Ok(1));
    assert_eq!(usize::try_from_hex("10"), Ok(16));
}

#[test]
fn parses_signed_numbers() {
    assert_eq!(i8::try_from_hex("0x-80"), Ok(-128));
    assert_eq!(i16::try_from_hex("-1"), Ok(-1));
    assert_eq!(i32::try_from_hex("0x+7f"), Ok(127));
    assert_eq!(i64::try_from_hex("0x7fffffffffffffff"), Ok(i64::MAX));
    assert_eq!(i128::try_from_hex("0x-0"), Ok(0));
    assert_eq!(isize::try_from_hex("0xa"), Ok(10));
}

#[test]
fn rejects_overflow() {
    assert!(matches!(u8::try_from_hex("0x100"), Err(Error::ParseIntError(_))));
    assert!(matches!(i8::try_from_hex("0x80"), Err(Error::ParseIntError(_))));
    assert!(matches!(i8::try_from_hex("0x-81"), Err(Error::ParseIntError(_))));
}

#[test]
fn rejects_malformed_numbers() {
    assert!(matches!(u16::try_from_hex("0x"), Err(Error::ParseIntError(_))));
    assert!(matches!(u16::try_from_hex(""), Err(Error::ParseIntError(_))));
    assert!(matches!(u16::try_from_hex("0xg"), Err(Error::ParseIntError(_))));
    assert!(matches!(u16::try_from_hex("-1"), Err(Error::ParseIntError(_))));
    assert!(matches!(i16::try_from_hex("-"), Err(Error::ParseIntError(_))));
    assert!(matches!(u32::try_from_hex("0x0x1"), Err(Error::ParseIntError(_))));
}
