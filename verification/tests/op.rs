use array_bytes::{prefix_with, slice2array, slice_n_into, suffix_with, vec2array, vec_n_into};

#[derive(Debug, PartialEq)]
struct Ljfn([u8; 17]);
impl From<[u8; 17]> for Ljfn {
    fn from(array: [u8; 17]) -> Self {
        Self(array)
    }
}

#[test]
fn op_prefix_with_should_work() {
    assert_eq!(prefix_with::<_, 4>(&[1, 2, 3, 4], 0), [1, 2, 3, 4]);
    assert_eq!(prefix_with::<_, 4>(&[1, 2, 3, 4, 5, 6], 0), [1, 2, 3, 4]);
    assert_eq!(prefix_with::<_, 5>(&[1, 2, 3], 0), [0, 0, 1, 2, 3]);
}

#[test]
fn op_suffix_with_should_work() {
    assert_eq!(suffix_with::<_, 4>(&[1, 2, 3, 4], 0), [1, 2, 3, 4]);
    assert_eq!(suffix_with::<_, 4>(&[1, 2, 3, 4, 5, 6], 0), [1, 2, 3, 4]);
    assert_eq!(suffix_with::<_, 5>(&[1, 2, 3], 0), [1, 2, 3, 0, 0]);
}

#[test]
fn slice_slice2array_should_work() {
    assert_eq!(slice2array::<_, 8>(&[0; 8]), Ok([0; 8]));
}

#[test]
fn slice_slice_n_into_should_work() {
    assert_eq!(slice_n_into::<u8, Ljfn, 17>(b"Love Jane Forever"), Ok(Ljfn(*b"Love Jane Forever")));
}

#[test]
fn vec_vec2array_should_work() {
    assert_eq!(vec2array::<_, 8>(vec![0; 8]), Ok([0; 8]));
}

#[test]
fn vec_vec_n_into_should_work() {
    assert_eq!(
        vec_n_into::<u8, Ljfn, 17>(b"Love Jane Forever".to_vec()),
        Ok(Ljfn(*b"Love Jane Forever"))
    );
}
