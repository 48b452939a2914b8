//! Byte buffers that live on the stack while they are short.
//!
//! Both are `SmallVec`s of the `smallvec` crate. Verus does not look inside
//! them: what a buffer holds is known only through [`bytes_held`] and
//! [`digits_held`], and through what the functions below say of them.
//!
//! As vstd does for `Vec::push`, the contracts of the two `push` functions
//! leave aside a buffer that outgrows what the machine can allocate.

use smallvec::SmallVec;
use vstd::prelude::*;

verus! {

/// The decoded bytes of a hexadecimal text: a `SmallVec<[u8; 64]>`, which
/// allocates only when it holds more than 64 bytes.
#[verifier::external_body]
#[derive(Debug, PartialEq, Eq)]
pub struct SmallBytes {
    inner: SmallVec<[u8; 64]>,
}

/// The bytes that `buffer` holds, first to last.
pub uninterp spec fn bytes_held(buffer: SmallBytes) -> Seq<u8>;

impl View for SmallBytes {
    type V = Seq<u8>;

    open spec fn view(&self) -> Seq<u8> {
        bytes_held(*self)
    }
}

/// `SmallVec::with_capacity`: an empty buffer with room for `n` bytes. It
/// panics where `n` bytes cannot be laid out, so `n` is at most `isize::MAX`.
#[verifier::external_body]
pub(crate) fn small_bytes_with_capacity(n: usize) -> (buffer: SmallBytes)
    requires
        n <= isize::MAX,
    ensures
        bytes_held(buffer) == Seq::<u8>::empty(),
{
    SmallBytes { inner: SmallVec::with_capacity(n) }
}

/// `SmallVec::push`: appends `byte` after the bytes that `buffer` holds.
#[verifier::external_body]
pub(crate) fn small_bytes_push(buffer: &mut SmallBytes, byte: u8)
    ensures
        bytes_held(*final(buffer)) == bytes_held(*old(buffer)).push(byte),
{
    buffer.inner.push(byte)
}

/// `SmallVec::into_vec`: the bytes of `buffer`, in the same order, as a `Vec`.
#[verifier::external_body]
pub(crate) fn small_bytes_into_vec(buffer: SmallBytes) -> (bytes: Vec<u8>)
    ensures
        bytes@ == bytes_held(buffer),
{
    buffer.inner.into_vec()
}

/// `SmallVec::as_slice`: the bytes of `buffer`, in the same order, as a slice.
#[verifier::external_body]
pub(crate) fn small_bytes_as_slice(buffer: &SmallBytes) -> (bytes: &[u8])
    ensures
        bytes@ == bytes_held(*buffer),
{
    buffer.inner.as_slice()
}

impl SmallBytes {
    /// The bytes as a `Vec`.
    pub fn into_vec(self) -> (bytes: Vec<u8>)
        ensures
            bytes@ == self@,
    {
        small_bytes_into_vec(self)
    }

    /// The bytes as a slice.
    pub fn as_slice(&self) -> (bytes: &[u8])
        ensures
            bytes@ == self@,
    {
        small_bytes_as_slice(self)
    }
}

/// Hexadecimal text in the making: a `SmallVec<[u8; 128]>`, which allocates
/// only when it holds more than 128 bytes.
#[verifier::external_body]
pub struct SmallText {
    inner: SmallVec<[u8; 128]>,
}

/// The bytes that `buffer` holds, first to last.
pub uninterp spec fn digits_held(buffer: SmallText) -> Seq<u8>;

impl View for SmallText {
    type V = Seq<u8>;

    open spec fn view(&self) -> Seq<u8> {
        digits_held(*self)
    }
}

/// `SmallVec::with_capacity`: an empty buffer with room for `n` bytes. It
/// panics where `n` bytes cannot be laid out, so `n` is at most `isize::MAX`.
#[verifier::external_body]
pub(crate) fn small_text_with_capacity(n: usize) -> (buffer: SmallText)
    requires
        n <= isize::MAX,
    ensures
        digits_held(buffer) == Seq::<u8>::empty(),
{
    SmallText { inner: SmallVec::with_capacity(n) }
}

/// `SmallVec::push`: appends `byte` after the bytes that `buffer` holds.
#[verifier::external_body]
pub(crate) fn small_text_push(buffer: &mut SmallText, byte: u8)
    ensures
        digits_held(*final(buffer)) == digits_held(*old(buffer)).push(byte),
{
    buffer.inner.push(byte)
}

/// `SmallVec::into_vec`: the bytes of `buffer`, in the same order, as a `Vec`.
#[verifier::external_body]
pub(crate) fn small_text_into_vec(buffer: SmallText) -> (bytes: Vec<u8>)
    ensures
        bytes@ == digits_held(buffer),
{
    buffer.inner.into_vec()
}

} // verus!
