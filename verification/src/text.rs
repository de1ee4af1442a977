use vstd::prelude::*;

verus! {

/// What `String::from_utf8` makes of a byte sequence: `None` where the bytes
/// are not valid UTF-8, otherwise the decoded characters.
pub uninterp spec fn utf8_of(b: Seq<u8>) -> Option<Seq<char>>;

/// Relies on `String::from_utf8`: whether bytes decode, and to what text,
/// depends on the bytes alone.
#[verifier::external_body]
pub(crate) fn utf8_decode(bytes: Vec<u8>) -> (r: Option<String>)
    ensures
        match r {
            Some(s) => utf8_of(bytes@) == Some(s@),
            None => utf8_of(bytes@) is None,
        },
{
    String::from_utf8(bytes).ok()
}

} // verus!
