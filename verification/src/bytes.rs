//! Output buffers of stages, kept in `append_only_bytes` collections.

use append_only_bytes::{AppendOnlyBytes, BytesSlice};
use vstd::prelude::*;
use vstd::string::*;
use vstd::utf8::*;

verus! {

/// `append_only_bytes::AppendOnlyBytes`, an opaque buffer that only grows.
#[verifier::external_type_specification]
#[verifier::external_body]
pub struct ExAppendOnlyBytes(AppendOnlyBytes);

/// `append_only_bytes::BytesSlice`, an opaque shared view of such a buffer.
#[verifier::external_type_specification]
#[verifier::external_body]
pub struct ExBytesSlice(BytesSlice);

/// The bytes that have been appended to a buffer so far.
pub uninterp spec fn appended(buffer: AppendOnlyBytes) -> Seq<u8>;

/// The bytes that a slice of a buffer covers.
pub uninterp spec fn covered(slice: BytesSlice) -> Seq<u8>;

/// The largest number of bytes that a buffer is ever asked to hold. Growing by doubling stays
/// within the largest allocation up to here.
pub open spec fn max_buffer_len() -> int {
    isize::MAX / 2
}

/// `AppendOnlyBytes::new` makes an empty buffer.
pub assume_specification[ AppendOnlyBytes::new ]() -> (r: AppendOnlyBytes)
    ensures
        appended(r) == Seq::<u8>::empty(),
;

/// `AppendOnlyBytes::len` is the number of bytes appended so far.
pub assume_specification[ AppendOnlyBytes::len ](buffer: &AppendOnlyBytes) -> (r: usize)
    ensures
        r == appended(*buffer).len(),
;

/// `AppendOnlyBytes::as_bytes` shows all the bytes appended so far.
pub assume_specification[ AppendOnlyBytes::as_bytes ](buffer: &AppendOnlyBytes) -> (r: &[u8])
    ensures
        r@ == appended(*buffer),
;

/// `AppendOnlyBytes::push_slice` appends the given bytes. It may double its capacity to make room,
/// so the new length is kept to half of the largest allocation.
pub assume_specification[ AppendOnlyBytes::push_slice ](buffer: &mut AppendOnlyBytes, slice: &[u8])
    requires
        appended(*old(buffer)).len() + slice@.len() <= max_buffer_len(),
    ensures
        appended(*final(buffer)) == appended(*old(buffer)) + slice@,
;

/// `AppendOnlyBytes::slice` over the full range shares all the bytes appended so far.
#[verifier::external_body]
pub(crate) fn whole_slice(buffer: &AppendOnlyBytes) -> (r: BytesSlice)
    ensures
        covered(r) == appended(*buffer),
{
    buffer.slice(..)
}

/// `AppendOnlyBytes::slice_str` over the full range reads the bytes as text, and fails if and only
/// if they are not valid UTF-8.
#[verifier::external_body]
pub(crate) fn whole_text(buffer: &AppendOnlyBytes) -> (r: Option<&str>)
    ensures
        r is Some <==> valid_utf8(appended(*buffer)),
        r matches Some(text) ==> text.spec_bytes() == appended(*buffer),
{
    buffer.slice_str(..).ok()
}

} // verus!
