//! Recognising the identifier of a published video.

use biliup::video::Vid;
use std::str::FromStr;
use vstd::prelude::*;
use vstd::utf8::{encode_utf8, is_char_boundary};

verus! {

/// What `str::trim` makes of a text: the text without the white space at
/// its ends, white space being what Unicode calls so.
pub uninterp spec fn str_trimmed(text: Seq<char>) -> Seq<char>;

/// Whether `Vid::from_str` accepts a text as a video identifier.
pub uninterp spec fn vid_accepts(text: Seq<char>) -> bool;

/// Calls `str::trim`. The result is named, and trimming it again changes
/// nothing, since it has no white space left at its ends.
#[verifier::external_body]
fn trim(text: &str) -> (inner: &str)
    ensures
        inner@ == str_trimmed(text@),
        str_trimmed(inner@) == inner@,
{
    text.trim()
}

/// Whether a text begins with the letters `BV`.
pub open spec fn begins_bv(text: Seq<char>) -> bool {
    text.len() >= 2 && text[0] == 'B' && text[1] == 'V'
}

/// Calls `Vid::from_str` and tells whether it accepted the text. That
/// function trims the text and then cuts it after its second byte, which
/// panics unless a character ends there: so the text has to come trimmed and
/// with a character boundary at two. The result is named; of the name the
/// function's first arm shows that a text beginning with `BV` is accepted
/// whatever follows.
#[verifier::external_body]
fn parses_as_vid(text: &str) -> (accepted: bool)
    requires
        str_trimmed(text@) == text@,
        is_char_boundary(encode_utf8(text@), 2),
    ensures
        accepted == vid_accepts(text@),
        begins_bv(text@) ==> accepted,
{
    Vid::from_str(text).is_ok()
}

/// Whether a text, once trimmed, can be cut after its second byte: it has at
/// least two bytes and a character ends there.
pub open spec fn has_prefix(text: Seq<char>) -> bool {
    is_char_boundary(encode_utf8(str_trimmed(text)), 2)
}

/// Whether `input` names a video: trimmed, it can be cut after its second
/// byte and is accepted as an identifier. A text too short for that, or with
/// a character straddling its second byte, names none; one that, trimmed,
/// begins with `BV` and can be cut there names one.
pub fn is_vid(input: &str) -> (valid: bool)
    ensures
        valid == (has_prefix(input@) && vid_accepts(str_trimmed(input@))),
        has_prefix(input@) && begins_bv(str_trimmed(input@)) ==> valid,
{
    let inner = trim(input);
    if inner.is_char_boundary(2) {
        parses_as_vid(inner)
    } else {
        false
    }
}

} // verus!
