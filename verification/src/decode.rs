//! Percent-decoding of request paths, done by the `urlencoding` crate.

use crate::text::copy_of;
use vstd::prelude::*;

verus! {

/// What `urlencoding::decode` makes of `s`: the text with each `%XX` replaced
/// by the byte it stands for, read as UTF-8, or `None` where those bytes are
/// not UTF-8.
pub uninterp spec fn percent_decoded(s: Seq<char>) -> Option<Seq<char>>;

/// What is shown in place of a path that cannot be decoded.
pub open spec fn undecodable_text() -> Seq<char> {
    "[Parse URL Error]"@
}

/// `s` decoded, or the text that stands for a path that cannot be decoded.
pub open spec fn decoded_or_notice(s: Seq<char>) -> Seq<char> {
    match percent_decoded(s) {
        Some(d) => d,
        None => undecodable_text(),
    }
}

/// Calls `urlencoding::decode`. It fails only where the decoded bytes are not
/// UTF-8, and hands a text without `%` back as it is.
#[verifier::external_body]
pub(crate) fn percent_decode(s: &str) -> (r: Option<String>)
    ensures
        r is Some <==> percent_decoded(s@) is Some,
        r matches Some(d) ==> percent_decoded(s@) == Some(d@),
        !s@.contains('%') ==> r is Some && r->0@ == s@,
{
    match urlencoding::decode(s) {
        Ok(text) => Some(text.into_owned()),
        Err(_) => None,
    }
}

/// `s` decoded for display: undecodable input is replaced by a fixed notice.
pub fn decode_for_display(s: &str) -> (r: String)
    ensures
        r@ == decoded_or_notice(s@),
{
    match percent_decode(s) {
        Some(d) => d,
        None => copy_of("[Parse URL Error]"),
    }
}

} // verus!
