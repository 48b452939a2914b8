//! Slices and vectors as arrays of a fixed length.

use vstd::prelude::*;

pub mod slice;
pub mod vec;

pub use slice::{as_array, slice2array, slice2array_ref, slice2array_unchecked, slice_n_into};
pub use vec::{vec2array, vec2array_unchecked, vec_n_into};

verus! {

/// `any` cut or padded to `n` items: its first `n` items where it has that
/// many, else all of it with `element` repeated in front of it (`pad_start`)
/// or behind it.
pub open spec fn padded<T>(any: Seq<T>, element: T, n: nat, pad_start: bool) -> Seq<T> {
    if any.len() >= n {
        any.subrange(0, n as int)
    } else if pad_start {
        Seq::new((n - any.len()) as nat, |i: int| element) + any
    } else {
        any + Seq::new((n - any.len()) as nat, |i: int| element)
    }
}

/// Makes an array of `N` items from `any`: its first `N` items where it has
/// that many, else `element` as often as needed and then all of `any`.
pub fn prefix_with<T, const N: usize>(any: &[T], element: T) -> (array: [T; N]) where T: Copy
    ensures
        array@ == padded(any@, element, N as nat, true),
{
    pad_array(any, element, true)
}

/// Makes an array of `N` items from `any`: its first `N` items where it has
/// that many, else all of `any` and then `element` as often as needed.
pub fn suffix_with<T, const N: usize>(any: &[T], element: T) -> (array: [T; N]) where T: Copy
    ensures
        array@ == padded(any@, element, N as nat, false),
{
    pad_array(any, element, false)
}

/// Makes an array of `N` items from `any`, cutting what is too long and
/// padding what is too short with `element`, in front if `pad_start`.
pub fn pad_array<T, const N: usize>(any: &[T], element: T, pad_start: bool) -> (array: [T; N]) where
    T: Copy,

    ensures
        array@ == padded(any@, element, N as nat, pad_start),
{
    let len = any.len();
    if len == N {
        let array = slice2array::<T, N>(any).expect("the slice has N items");
        assert(array@ =~= padded(any@, element, N as nat, pad_start));
        array
    } else if len > N {
        let array = slice2array::<T, N>(vstd::slice::slice_subrange(any, 0, N)).expect(
            "the first N items are N items",
        );
        array
    } else {
        let mut array = [element;N];
        let start = if pad_start {
            N - len
        } else {
            0
        };
        let mut i: usize = 0;
        while i < len
            invariant
                i <= len,
                len == any@.len(),
                start + len <= N,
                forall|k: int| 0 <= k < start ==> array@[k] == element,
                forall|k: int| start <= k < start + i ==> array@[k] == any@[k - start],
                forall|k: int| start + i <= k < N ==> array@[k] == element,
            decreases len - i,
        {
            array[start + i] = any[i];
            i = i + 1;
        }
        assert(array@ =~= padded(any@, element, N as nat, pad_start));
        array
    }
}

} // verus!
