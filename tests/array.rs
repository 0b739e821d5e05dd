use array_bytes::{
    slice2array, slice2array_unchecked, slice_n_into, slice_n_into_unchecked, vec2array,
    vec2array_unchecked, vec_n_into, vec_n_into_unchecked, Error,
};

#[derive(Debug, PartialEq)]
struct Ljf([u8; 17]);

impl From<[u8; 17]> for Ljf {
    fn from(array: [u8; 17]) -> Self {
        Self(array)
    }
}

#[test]
fn slice2array_matching_length() {
    assert_eq!(slice2array::<8, _>(&[0; 8]), Ok([0; 8]));
    assert_eq!(slice2array::<3, _>(&[1u16, 2, 3]), Ok([1u16, 2, 3]));
    assert_eq!(slice2array_unchecked::<8, _>(&[0; 8]), [0; 8]);
}

#[test]
fn slice2array_mismatched_length() {
    assert_eq!(slice2array::<8, u8>(&[0; 7]), Err(Error::MismatchedLength { expect: 8 }));
    assert_eq!(slice2array::<0, u8>(&[0]), Err(Error::MismatchedLength { expect: 0 }));
}

#[test]
fn slice_n_into_converts() {
    assert_eq!(slice_n_into::<17, u8, Ljf>(b"Love Jane Forever"), Ok(Ljf(*b"Love Jane Forever")));
    assert_eq!(
        slice_n_into_unchecked::<17, u8, Ljf>(b"Love Jane Forever"),
        Ljf(*b"Love Jane Forever")
    );
    assert_eq!(slice_n_into::<17, u8, Ljf>(b"Love"), Err(Error::MismatchedLength { expect: 17 }));
}

#[test]
fn vec2array_matching_length() {
    assert_eq!(vec2array::<8, _>(vec![0; 8]), Ok([0; 8]));
    assert_eq!(vec2array_unchecked::<8, _>(vec![0; 8]), [0; 8]);
    assert_eq!(vec2array::<0, u8>(vec![]), Ok([]));
}

#[test]
fn vec2array_mismatched_length() {
    assert_eq!(vec2array::<2, u8>(vec![1, 2, 3]), Err(Error::MismatchedLength { expect: 2 }));
}

#[test]
fn vec_n_into_converts() {
    assert_eq!(
        vec_n_into::<17, u8, Ljf>(b"Love Jane Forever".to_vec()),
        Ok(Ljf(*b"Love Jane Forever"))
    );
    assert_eq!(
        vec_n_into_unchecked::<17, u8, Ljf>(b"Love Jane Forever".to_vec()),
        Ljf(*b"Love Jane Forever")
    );
    assert_eq!(vec_n_into::<17, u8, Ljf>(vec![]), Err(Error::MismatchedLength { expect: 17 }));
}
