//! Comparisons of byte strings.

use vstd::prelude::*;
use vstd::string::StringSliceAdditionalSpecFns;

verus! {

/// The bytes that spell a text in UTF-8.
pub open spec fn utf8(text: &str) -> Seq<u8> {
    text.spec_bytes()
}

/// An ASCII text has one byte for each character.
pub proof fn lemma_ascii(text: &str)
    requires
        vstd::utf8::is_ascii_chars(text@),
    ensures
        utf8(text).len() == text@.len(),
        forall|i: int| 0 <= i < text@.len() ==> #[trigger] utf8(text)[i] == text@[i] as u8,
{
    vstd::utf8::is_ascii_chars_encode_utf8(text@);
}

/// Whether two byte strings are equal.
pub fn same_bytes(a: &[u8], b: &[u8]) -> (same: bool)
    ensures
        same == (a@ == b@),
{
    if a.len() != b.len() {
        return false;
    }
    let mut i: usize = 0;
    while i < a.len()
        invariant
            i <= a@.len(),
            a@.len() == b@.len(),
            forall|j: int| 0 <= j < i ==> a@[j] == b@[j],
        decreases a@.len() - i,
    {
        if a[i] != b[i] {
            return false;
        }
        i += 1;
    }
    assert(a@ =~= b@);
    true
}

/// Whether `text` begins with `prefix`.
pub open spec fn has_prefix(text: Seq<u8>, prefix: Seq<u8>) -> bool {
    prefix.len() <= text.len() && text.take(prefix.len() as int) == prefix
}

/// Whether `text` begins with `prefix`.
pub fn starts_with(text: &[u8], prefix: &[u8]) -> (starts: bool)
    ensures
        starts == has_prefix(text@, prefix@),
{
    if text.len() < prefix.len() {
        return false;
    }
    let head = vstd::slice::slice_subrange(text, 0, prefix.len());
    assert(head@ =~= text@.take(prefix@.len() as int));
    same_bytes(head, prefix)
}

/// Appends `more` to `text`.
pub fn append_bytes(text: &mut Vec<u8>, more: &[u8])
    ensures
        final(text)@ == old(text)@ + more@,
{
    text.extend_from_slice(more);
    assert(text@ =~= old(text)@ + more@);
}

/// The text that a byte string spells in UTF-8.
///
/// This specifies `core::str::from_utf8` of the standard library: it accepts
/// exactly the valid UTF-8 encodings, and hands back the string that the bytes
/// encode.
pub assume_specification[ core::str::from_utf8 ](bytes: &[u8]) -> (text: Result<
    &str,
    core::str::Utf8Error,
>)
    ensures
        text is Ok <==> vstd::utf8::valid_utf8(bytes@),
        text matches Ok(found) ==> utf8(found) == bytes@,
;

/// The error of `core::str::from_utf8`, which nothing here looks into.
#[verifier::external_type_specification]
#[verifier::external_body]
pub struct ExUtf8Error(core::str::Utf8Error);

} // verus!
