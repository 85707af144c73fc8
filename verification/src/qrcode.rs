//! Logging in by QR code: the address the code has to lead to.

use vstd::prelude::*;
use vstd::string::{StrSliceExecFns, StringExecFns};

verus! {

/// `text` with every occurrence of `from` replaced by `to`, going from left
/// to right and never looking again at what was already replaced.
pub open spec fn replaced(text: Seq<char>, from: Seq<char>, to: Seq<char>) -> Seq<char>
    decreases text.len(),
{
    if from.len() == 0 || text.len() < from.len() {
        text
    } else if text.subrange(0, from.len() as int) == from {
        to + replaced(text.skip(from.len() as int), from, to)
    } else {
        seq![text[0]] + replaced(text.skip(1), from, to)
    }
}

/// Whether `from` stands in `text` at position `at`.
fn stands_at(text: &str, at: usize, from: &str) -> (found: bool)
    requires
        at + from@.len() <= text@.len(),
        text@.len() <= usize::MAX,
    ensures
        found == (text@.subrange(at as int, at + from@.len()) == from@),
{
    let width: usize = from.unicode_len();
    let mut seen: usize = 0;
    while seen < width
        invariant
            seen <= width,
            width == from@.len(),
            at + width <= text@.len(),
            text@.len() <= usize::MAX,
            forall|i: int| 0 <= i < seen ==> text@[at + i] == from@[i],
        decreases width - seen,
    {
        if text.get_char(at + seen) != from.get_char(seen) {
            assert(text@.subrange(at as int, at + from@.len())[seen as int] != from@[seen as int]);
            return false;
        }
        seen = seen + 1;
    }
    assert(text@.subrange(at as int, at + from@.len()) =~= from@);
    true
}

/// `text` with every occurrence of `from` replaced by `to`.
fn replace_all(text: &str, from: &str, to: &str) -> (result: String)
    requires
        from@.len() > 0,
    ensures
        result@ == replaced(text@, from@, to@),
{
    let length: usize = text.unicode_len();
    let width: usize = from.unicode_len();
    let mut result = String::new();
    let mut at: usize = 0;
    assert(result@ + replaced(text@.skip(0), from@, to@) =~= replaced(text@, from@, to@)) by {
        assert(text@.skip(0) =~= text@);
    }
    while length - at >= width
        invariant
            at <= length,
            length == text@.len(),
            width == from@.len(),
            width > 0,
            result@ + replaced(text@.skip(at as int), from@, to@) == replaced(text@, from@, to@),
        decreases length - at,
    {
        let ghost rest = text@.skip(at as int);
        let ghost before = result@;
        assert(rest.subrange(0, width as int) =~= text@.subrange(at as int, at + width));
        if stands_at(text, at, from) {
            result.append(to);
            assert(rest.skip(width as int) =~= text@.skip(at + width));
            at = at + width;
            assert(result@ + replaced(text@.skip(at as int), from@, to@) =~= before + (to@
                + replaced(rest.skip(width as int), from@, to@)));
        } else {
            let one = text.substring_char(at, at + 1);
            assert(one@ =~= seq![rest[0]]);
            result.append(one);
            assert(rest.skip(1) =~= text@.skip(at + 1));
            at = at + 1;
            assert(result@ + replaced(text@.skip(at as int), from@, to@) =~= before + (seq![
                rest[0],
            ] + replaced(rest.skip(1), from@, to@)));
        }
    }
    let tail = text.substring_char(at, length);
    assert(tail@ =~= text@.skip(at as int));
    result.append(tail);
    result
}

/// The address to open for a QR login, given the address the login service
/// redirects to: the same address with `/confirm` turned into
/// `/common/confirm` wherever it occurs.
pub fn confirm_url(location: &str) -> (url: String)
    ensures
        url@ == replaced(location@, "/confirm"@, "/common/confirm"@),
{
    proof {
        reveal_strlit("/confirm");
    }
    replace_all(location, "/confirm", "/common/confirm")
}

} // verus!
