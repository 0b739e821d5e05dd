//! Slices and vectors narrowed to fixed-size arrays.

use vstd::prelude::*;
use vstd::std_specs::convert::FromSpec;
use crate::error::{Error, Result};

verus! {

/// `v` is what `V::from` gives for `a`, as far as `V` describes its `From`.
pub open spec fn converted<A, V: From<A>>(a: A, v: V) -> bool {
    <V as FromSpec<A>>::obeys_from_spec() ==> v == <V as FromSpec<A>>::from_spec(a)
}

/// Relies on `<[T; N]>::try_from(&[T])`: it succeeds exactly when the
/// slice holds `N` elements, and copies them in order.
#[verifier::external_body]
fn array_from_slice<T: Copy, const N: usize>(slice: &[T]) -> (r: Option<[T; N]>)
    ensures
        r is Some <==> slice@.len() == N,
        r matches Some(a) ==> a@ == slice@,
{
    slice.try_into().ok()
}

/// Relies on `<[T; N]>::try_from(Vec<T>)`: it succeeds exactly when the
/// vector holds `N` elements, and moves them in order.
#[verifier::external_body]
fn array_from_vec<T, const N: usize>(vec: Vec<T>) -> (r: Option<[T; N]>)
    ensures
        r is Some <==> vec@.len() == N,
        r matches Some(a) ==> a@ == vec@,
{
    vec.try_into().ok()
}

/// `&[T]` to `[T; N]`: fails with `MismatchedLength` when the slice does
/// not hold exactly `N` elements.
pub fn slice2array<const N: usize, T: Copy>(slice: &[T]) -> (r: Result<[T; N]>)
    ensures
        slice@.len() == N ==> (r matches Ok(a) && a@ == slice@),
        slice@.len() != N ==> r == Err::<[T; N], Error>(Error::MismatchedLength { expect: N }),
{
    match array_from_slice(slice) {
        Some(a) => Ok(a),
        None => Err(Error::MismatchedLength { expect: N }),
    }
}

/// Just like [`slice2array`] but without the checking: the caller vouches
/// for the length.
pub fn slice2array_unchecked<const N: usize, T: Copy>(slice: &[T]) -> (r: [T; N])
    requires
        slice@.len() == N,
    ensures
        r@ == slice@,
{
    match slice2array(slice) {
        Ok(a) => a,
        Err(_) => unreached(),
    }
}

/// Converts `&[T]` into a type that can be made from `[T; N]`.
pub fn slice_n_into<const N: usize, T: Copy, V: From<[T; N]>>(slice: &[T]) -> (r: Result<V>)
    ensures
        slice@.len() == N ==> (r matches Ok(v) && exists|a: [T; N]| a@ == slice@ && converted(a, v)),
        slice@.len() != N ==> r == Err::<V, Error>(Error::MismatchedLength { expect: N }),
{
    match slice2array::<N, T>(slice) {
        Ok(a) => Ok(V::from(a)),
        Err(e) => Err(e),
    }
}

/// Just like [`slice_n_into`] but without the checking.
pub fn slice_n_into_unchecked<const N: usize, T: Copy, V: From<[T; N]>>(slice: &[T]) -> (r: V)
    requires
        slice@.len() == N,
    ensures
        exists|a: [T; N]| a@ == slice@ && converted(a, r),
{
    V::from(slice2array_unchecked::<N, T>(slice))
}

/// [`Vec<T>`] to `[T; N]`: fails with `MismatchedLength` when the vector
/// does not hold exactly `N` elements.
pub fn vec2array<const N: usize, T>(vec: Vec<T>) -> (r: Result<[T; N]>)
    ensures
        vec@.len() == N ==> (r matches Ok(a) && a@ == vec@),
        vec@.len() != N ==> r == Err::<[T; N], Error>(Error::MismatchedLength { expect: N }),
{
    match array_from_vec(vec) {
        Some(a) => Ok(a),
        None => Err(Error::MismatchedLength { expect: N }),
    }
}

/// Just like [`vec2array`] but without the checking: the caller vouches
/// for the length.
pub fn vec2array_unchecked<const N: usize, T>(vec: Vec<T>) -> (r: [T; N])
    requires
        vec@.len() == N,
    ensures
        r@ == vec@,
{
    match vec2array(vec) {
        Ok(a) => a,
        Err(_) => unreached(),
    }
}

/// Converts [`Vec<T>`] into a type that can be made from `[T; N]`.
pub fn vec_n_into<const N: usize, T, V: From<[T; N]>>(vec: Vec<T>) -> (r: Result<V>)
    ensures
        vec@.len() == N ==> (r matches Ok(v) && exists|a: [T; N]| a@ == vec@ && converted(a, v)),
        vec@.len() != N ==> r == Err::<V, Error>(Error::MismatchedLength { expect: N }),
{
    match vec2array::<N, T>(vec) {
        Ok(a) => Ok(V::from(a)),
        Err(e) => Err(e),
    }
}

/// Just like [`vec_n_into`] but without the checking.
pub fn vec_n_into_unchecked<const N: usize, T, V: From<[T; N]>>(vec: Vec<T>) -> (r: V)
    requires
        vec@.len() == N,
    ensures
        exists|a: [T; N]| a@ == vec@ && converted(a, r),
{
    V::from(vec2array_unchecked::<N, T>(vec))
}

} // verus!
