//! The fixed-capacity buffers in which topic paths are built and collected
//! for one transport call.
//!
//! Both are `heapless` collections. Their behaviour is not verified here: the
//! contracts below state what the `heapless` sources show, and the rest of
//! the crate is proved against them.

use crate::bounded::byte_len;
use vstd::prelude::*;

verus! {

/// `heapless::String<N>`, a string of at most `N` bytes. Its contents are
/// hidden from the verifier.
#[verifier::external_type_specification]
#[verifier::external_body]
pub struct ExHeaplessString<const N: usize>(heapless::String<N>);

/// `heapless::Vec<T, N>`, a vector of at most `N` items. Its contents are
/// hidden from the verifier.
#[verifier::external_type_specification]
#[verifier::external_body]
#[verifier::reject_recursive_types(T)]
pub struct ExHeaplessVec<T, const N: usize>(heapless::Vec<T, N>);

/// Capacity in bytes of a topic path that goes into a batch.
pub const MAX_TOPIC_LEN: usize = 256;

/// The most topics that one subscribe or unsubscribe call of the transport
/// carries.
pub const BATCH_CAPACITY: usize = 5;

/// The topics of one subscribe or unsubscribe call.
pub type Batch = heapless::Vec<heapless::String<256>, 5>;

/// The text that a topic path buffer holds (what `as_str` returns).
pub uninterp spec fn path_text(path: heapless::String<256>) -> Seq<char>;

/// The topic paths that a batch holds, first added first, each as its text
/// (what `as_slice` returns, each item read with `as_str`).
pub uninterp spec fn batch_paths(batch: heapless::Vec<heapless::String<256>, 5>) -> Seq<Seq<char>>;

/// `heapless::String::new`: the new string is empty.
#[verifier::external_body]
pub(crate) fn new_path() -> (path: heapless::String<256>)
    ensures
        path_text(path) == Seq::<char>::empty(),
{
    heapless::String::new()
}

/// `heapless::String::push_str`: the text is appended when the bytes held
/// and the bytes of `part` together are at most the capacity of 256;
/// otherwise the call fails and the string is left as it was.
#[verifier::external_body]
pub(crate) fn push_text(path: &mut heapless::String<256>, part: &str) -> (r: Result<(), ()>)
    ensures
        r is Ok <==> byte_len(path_text(*old(path))) + byte_len(part@) <= 256,
        r is Ok ==> path_text(*final(path)) == path_text(*old(path)) + part@,
        r is Err ==> path_text(*final(path)) == path_text(*old(path)),
{
    path.push_str(part)
}

/// `heapless::Vec::new`: the new vector is empty.
#[verifier::external_body]
pub(crate) fn new_batch() -> (batch: heapless::Vec<heapless::String<256>, 5>)
    ensures
        batch_paths(batch) == Seq::<Seq<char>>::empty(),
{
    heapless::Vec::new()
}

/// `heapless::Vec::push`: the item is appended when fewer than 5 items are
/// held; otherwise the vector is left as it was and the item is handed back.
#[verifier::external_body]
pub(crate) fn push_path(
    batch: &mut heapless::Vec<heapless::String<256>, 5>,
    path: heapless::String<256>,
) -> (r: Result<(), heapless::String<256>>)
    ensures
        r is Ok <==> batch_paths(*old(batch)).len() < 5,
        r is Ok ==> batch_paths(*final(batch)) == batch_paths(*old(batch)).push(path_text(path)),
        r is Err ==> batch_paths(*final(batch)) == batch_paths(*old(batch)),
        r matches Err(back) ==> path_text(back) == path_text(path),
{
    batch.push(path)
}

} // verus!
