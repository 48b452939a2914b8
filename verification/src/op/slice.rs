//! From a slice to an array.

use crate::{viewed, Error};
use core::array::TryFromSliceError;
use vstd::prelude::*;
use vstd::std_specs::convert::FromSpec;

verus! {

/// std's `TryFromSliceError`, carried as it comes.
#[verifier::external_type_specification]
#[verifier::external_body]
pub struct ExTryFromSliceError(TryFromSliceError);

/// std's `TryFrom<&[T]>` for `[T; N]`: a copy of `slice` as an array, which
/// succeeds exactly when `slice` has `N` items.
#[verifier::external_body]
fn array_from_slice<T, const N: usize>(slice: &[T]) -> (r: Result<[T; N], TryFromSliceError>) where
    T: Copy,

    ensures
        r is Ok <==> slice@.len() == N,
        r matches Ok(array) ==> array@ == slice@,
{
    <[T; N]>::try_from(slice)
}

/// std's `TryFrom<&[T]>` for `&[T; N]`: `slice` seen as an array, which
/// succeeds exactly when `slice` has `N` items.
#[verifier::external_body]
fn array_ref_from_slice<T, const N: usize>(slice: &[T]) -> (r: Result<&[T; N], TryFromSliceError>)
    ensures
        r is Ok <==> slice@.len() == N,
        r matches Ok(array) ==> array@ == slice@,
{
    <&[T; N]>::try_from(slice)
}

/// Whether `outcome` is `items` as an array of `n` items: the same items in
/// the same order where there are `n` of them, and otherwise
/// `MismatchedLength` with `n`.
pub open spec fn as_array<T>(items: Seq<T>, n: nat, outcome: Result<Seq<T>, Error>) -> bool {
    match outcome {
        Ok(array) => items.len() == n && array == items,
        Err(Error::MismatchedLength { expect }) => items.len() != n && expect == n,
        Err(_) => false,
    }
}

/// Copies `slice` into an array of `N` items. A slice of another length is
/// refused, never cut or padded.
pub fn slice2array<T, const N: usize>(slice: &[T]) -> (r: Result<[T; N], Error>) where T: Copy
    ensures
        as_array(slice@, N as nat, viewed(r)),
{
    match array_from_slice(slice) {
        Ok(array) => Ok(array),
        Err(_) => Err(Error::MismatchedLength { expect: N }),
    }
}

/// Borrows `slice` as an array of `N` items. A slice of another length is
/// refused.
pub fn slice2array_ref<T, const N: usize>(slice: &[T]) -> (r: Result<&[T; N], Error>) where T: Copy
    ensures
        as_array(slice@, N as nat, viewed(r)),
{
    match array_ref_from_slice(slice) {
        Ok(array) => Ok(array),
        Err(_) => Err(Error::MismatchedLength { expect: N }),
    }
}

/// Copies `slice` into an array of `N` items and converts that into `V`.
/// Whether it succeeds depends on the length alone; the array handed to
/// `V::from` holds the items of `slice`.
pub fn slice_n_into<T, V, const N: usize>(slice: &[T]) -> (r: Result<V, Error>) where
    T: Copy,
    V: From<[T; N]>,

    ensures
        match r {
            Ok(value) => slice@.len() == N && (V::obeys_from_spec() ==> exists|array: [T; N]|
                array@ == slice@ && value == V::from_spec(array)),
            Err(Error::MismatchedLength { expect }) => slice@.len() != N && expect == N,
            Err(_) => false,
        },
{
    match slice2array::<T, N>(slice) {
        Ok(array) => Ok(V::from(array)),
        Err(e) => Err(e),
    }
}

/// Copies `slice` into an array of `N` items without a way to refuse it:
/// the caller has made sure that `slice` has `N` items.
pub fn slice2array_unchecked<T, const N: usize>(slice: &[T]) -> (array: [T; N]) where T: Copy
    requires
        slice@.len() == N,
    ensures
        array@ == slice@,
{
    slice2array(slice).expect("the slice has N items")
}

} // verus!
