//! The scratch buffer of a channel: a `heapless::Vec` of fixed capacity.
//!
//! Verus does not look into the vector. Its contents have a name,
//! `buffer_bytes`, and each method that the channel calls has a wrapper whose
//! contract is taken on trust from the method's source.

use vstd::prelude::*;

verus! {

/// Capacity of the scratch buffer: a header, two public keys, two
/// authentication tags and some bytes to spare.
pub const INTERNAL_BUFFER_LEN: usize = 128;

/// `heapless::Vec`, a vector of fixed capacity; nothing of its inside is
/// known here.
#[verifier::external_type_specification]
#[verifier::external_body]
#[verifier::reject_recursive_types(T)]
pub struct ExHeaplessVec<T, const N: usize>(heapless::Vec<T, N>);

/// The bytes that a scratch buffer holds, in order.
pub uninterp spec fn buffer_bytes(buffer: heapless::Vec<u8, 128>) -> Seq<u8>;

/// `count` copies of `value`.
pub open spec fn repeated(value: u8, count: int) -> Seq<u8> {
    Seq::new(
        if count >= 0 {
            count as nat
        } else {
            0
        },
        |i: int| value,
    )
}

/// `heapless::Vec::new`: a vector that holds nothing.
#[verifier::external_body]
pub(crate) fn buffer_new() -> (buffer: heapless::Vec<u8, 128>)
    ensures
        buffer_bytes(buffer) == Seq::<u8>::empty(),
{
    heapless::Vec::new()
}

/// `heapless::Vec::truncate`: keeps the first `len` bytes; a `len` beyond
/// the end changes nothing.
#[verifier::external_body]
pub(crate) fn buffer_truncate(buffer: &mut heapless::Vec<u8, 128>, len: usize)
    ensures
        buffer_bytes(*final(buffer)) == if len <= buffer_bytes(*old(buffer)).len() {
            buffer_bytes(*old(buffer)).take(len as int)
        } else {
            buffer_bytes(*old(buffer))
        },
{
    buffer.truncate(len)
}

/// `heapless::Vec::resize`: refuses a length over the capacity and changes
/// nothing then; else appends copies of `value` up to `new_len`, or keeps the
/// first `new_len` bytes.
#[verifier::external_body]
pub(crate) fn buffer_resize(buffer: &mut heapless::Vec<u8, 128>, new_len: usize, value: u8) -> (r:
    Result<(), ()>)
    ensures
        new_len > 128 ==> r is Err && buffer_bytes(*final(buffer)) == buffer_bytes(*old(buffer)),
        new_len <= 128 ==> r is Ok && buffer_bytes(*final(buffer)) == if new_len > buffer_bytes(
            *old(buffer),
        ).len() {
            buffer_bytes(*old(buffer)) + repeated(value, new_len - buffer_bytes(*old(buffer)).len())
        } else {
            buffer_bytes(*old(buffer)).take(new_len as int)
        },
{
    buffer.resize(new_len, value)
}

/// `heapless::Vec::as_slice`: the contents, never more than the capacity.
#[verifier::external_body]
pub(crate) fn buffer_as_slice(buffer: &heapless::Vec<u8, 128>) -> (s: &[u8])
    ensures
        s@ == buffer_bytes(*buffer),
        s@.len() <= 128,
{
    buffer.as_slice()
}

/// `heapless::Vec::as_mut_slice`: the contents, to be written in place.
#[verifier::external_body]
pub(crate) fn buffer_as_mut_slice(buffer: &mut heapless::Vec<u8, 128>) -> (s: &mut [u8])
    ensures
        s@ == buffer_bytes(*old(buffer)),
        s@.len() <= 128,
        final(s)@ == buffer_bytes(*final(buffer)),
{
    buffer.as_mut_slice()
}

/// `Clone::clone` of `heapless::Vec`: a vector with the same contents.
#[verifier::external_body]
pub(crate) fn buffer_clone(buffer: &heapless::Vec<u8, 128>) -> (copy: heapless::Vec<u8, 128>)
    ensures
        buffer_bytes(copy) == buffer_bytes(*buffer),
{
    buffer.clone()
}

/// Empties the buffer and fills it with zeros up to its capacity.
pub fn zero_buffer(buffer: &mut heapless::Vec<u8, 128>)
    ensures
        buffer_bytes(*final(buffer)) == repeated(0, 128),
{
    buffer_truncate(buffer, 0);
    let _ = buffer_resize(buffer, INTERNAL_BUFFER_LEN, 0);
    assert(buffer_bytes(*buffer) =~= repeated(0, 128));
}

} // verus!
