//! From a vector to an array.

use crate::op::slice::as_array;
use crate::{viewed, Error};
use vstd::prelude::*;
use vstd::std_specs::convert::FromSpec;

verus! {

/// std's `TryFrom<Vec<T>>` for `[T; N]`: the items of `vec` as an array, which
/// succeeds exactly when `vec` has `N` items, and hands `vec` back otherwise.
#[verifier::external_body]
fn array_from_vec<T, const N: usize>(vec: Vec<T>) -> (r: Result<[T; N], Vec<T>>)
    ensures
        r is Ok <==> vec@.len() == N,
        r matches Ok(array) ==> array@ == vec@,
        r matches Err(rest) ==> rest == vec,
{
    <[T; N]>::try_from(vec)
}

/// Moves the items of `vec` into an array of `N` items. A vector of another
/// length is refused, never cut or padded.
pub fn vec2array<T, const N: usize>(vec: Vec<T>) -> (r: Result<[T; N], Error>)
    ensures
        as_array(vec@, N as nat, viewed(r)),
{
    match array_from_vec(vec) {
        Ok(array) => Ok(array),
        Err(_) => Err(Error::MismatchedLength { expect: N }),
    }
}

/// Moves the items of `vec` into an array of `N` items and converts that into
/// `V`. Whether it succeeds depends on the length alone; the array handed to
/// `V::from` holds the items of `vec`.
pub fn vec_n_into<T, V, const N: usize>(vec: Vec<T>) -> (r: Result<V, Error>) where V: From<[T; N]>
    ensures
        match r {
            Ok(value) => vec@.len() == N && (V::obeys_from_spec() ==> exists|array: [T; N]|
                array@ == vec@ && value == V::from_spec(array)),
            Err(Error::MismatchedLength { expect }) => vec@.len() != N && expect == N,
            Err(_) => false,
        },
{
    match vec2array::<T, N>(vec) {
        Ok(array) => Ok(V::from(array)),
        Err(e) => Err(e),
    }
}

/// Moves the items of `vec` into an array of `N` items without a way to
/// refuse it: the caller has made sure that `vec` has `N` items.
pub fn vec2array_unchecked<T, const N: usize>(vec: Vec<T>) -> (array: [T; N])
    requires
        vec@.len() == N,
    ensures
        array@ == vec@,
{
    vec2array(vec).expect("the vector has N items")
}

} // verus!
