use array_bytes::{
    pad_array, prefix_with, slice2array, slice2array_ref, slice2array_unchecked, slice_n_into,
    suffix_with, vec2array, vec2array_unchecked, vec_n_into, Error,
};

#[derive(Debug, PartialEq)]
struct Triple([u16; 3]);
impl From<[u16; 3]> for Triple {
    fn from(array: [u16; 3]) -> Self {
        Self(array)
    }
}

#[test]
fn a_slice_of_the_right_length_becomes_an_array() {
    assert_eq!(slice2array::<_, 3>(&[5, 2, 0]), Ok([5, 2, 0]));
    assert_eq!(slice2array::<u8, 0>(&[]), Ok([]));
    assert_eq!(slice2array_ref::<_, 3>(&[5, 2, 0]), Ok(&[5, 2, 0]));
    assert_eq!(slice2array_unchecked::<_, 3>(&[5, 2, 0]), [5, 2, 0]);
    assert_eq!(slice_n_into::<u16, Triple, 3>(&[5, 2, 0]), Ok(Triple([5, 2, 0])));
}

#[test]
fn a_slice_of_another_length_is_never_cut_or_padded() {
    assert_eq!(slice2array::<_, 2>(&[5, 2, 0]), Err(Error::MismatchedLength { expect: 2 }));
    assert_eq!(slice2array::<_, 4>(&[5, 2, 0]), Err(Error::MismatchedLength { expect: 4 }));
    assert_eq!(slice2array::<u8, 1>(&[]), Err(Error::MismatchedLength { expect: 1 }));
    assert_eq!(slice2array::<u8, 0>(&[1]), Err(Error::MismatchedLength { expect: 0 }));
    assert_eq!(slice2array_ref::<_, 2>(&[5, 2, 0]), Err(Error::MismatchedLength { expect: 2 }));
    assert_eq!(slice2array_ref::<_, 4>(&[5, 2, 0]), Err(Error::MismatchedLength { expect: 4 }));
    assert_eq!(
        slice_n_into::<u16, Triple, 3>(&[5, 2]),
        Err(Error::MismatchedLength { expect: 3 })
    );
}

#[test]
fn a_vector_of_the_right_length_becomes_an_array() {
    assert_eq!(vec2array::<_, 3>(vec![5, 2, 0]), Ok([5, 2, 0]));
    assert_eq!(vec2array::<u8, 0>(vec![]), Ok([]));
    assert_eq!(
        vec2array::<_, 2>(vec![String::from("a"), String::from("b")]),
        Ok([String::from("a"), String::from("b")])
    );
    assert_eq!(vec2array_unchecked::<_, 3>(vec![5, 2, 0]), [5, 2, 0]);
    assert_eq!(vec_n_into::<u16, Triple, 3>(vec![5, 2, 0]), Ok(Triple([5, 2, 0])));
}

#[test]
fn a_vector_of_another_length_is_never_cut_or_padded() {
    assert_eq!(vec2array::<_, 2>(vec![5, 2, 0]), Err(Error::MismatchedLength { expect: 2 }));
    assert_eq!(vec2array::<_, 4>(vec![5, 2, 0]), Err(Error::MismatchedLength { expect: 4 }));
    assert_eq!(vec2array::<u8, 1>(vec![]), Err(Error::MismatchedLength { expect: 1 }));
    assert_eq!(
        vec_n_into::<u16, Triple, 3>(vec![5, 2, 0, 1]),
        Err(Error::MismatchedLength { expect: 3 })
    );
}

#[test]
fn padding_fills_the_front_or_the_back() {
    assert_eq!(prefix_with::<_, 5>(&[5, 2, 0], 9), [9, 9, 5, 2, 0]);
    assert_eq!(suffix_with::<_, 5>(&[5, 2, 0], 9), [5, 2, 0, 9, 9]);
    assert_eq!(prefix_with::<u8, 3>(&[], 7), [7, 7, 7]);
    assert_eq!(suffix_with::<u8, 3>(&[], 7), [7, 7, 7]);
    assert_eq!(prefix_with::<_, 2>(&['a'], 'x'), ['x', 'a']);
    assert_eq!(pad_array::<_, 4>(&[1, 2], 0, true), [0, 0, 1, 2]);
    assert_eq!(pad_array::<_, 4>(&[1, 2], 0, false), [1, 2, 0, 0]);
}

#[test]
fn what_is_too_long_keeps_its_first_items() {
    assert_eq!(prefix_with::<_, 2>(&[5, 2, 0, 1], 9), [5, 2]);
    assert_eq!(suffix_with::<_, 2>(&[5, 2, 0, 1], 9), [5, 2]);
    assert_eq!(prefix_with::<u8, 0>(&[5, 2, 0, 1], 9), []);
    assert_eq!(suffix_with::<u8, 0>(&[], 9), []);
    assert_eq!(pad_array::<_, 3>(&[1, 2, 3], 0, true), [1, 2, 3]);
    assert_eq!(pad_array::<_, 3>(&[1, 2, 3], 0, false), [1, 2, 3]);
    assert_eq!(pad_array::<_, 1>(&[1, 2, 3], 0, true), [1]);
}
