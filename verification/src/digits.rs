//! Finding the first run of decimal digits in a text, with the `regex` crate's
//! pattern `\d+`.
use vstd::prelude::*;

use regex::Regex;

use crate::text::spec_is_ascii_digit;

verus! {

/// Where the pattern `\d+` first matches in `text`, as `Regex::find` reports
/// it: the character range `(start, end)` of the leftmost-first match.
pub uninterp spec fn digit_run_match(text: Seq<char>) -> Option<(int, int)>;

/// Some ASCII digit occurs in `text`.
pub open spec fn has_ascii_digit(text: Seq<char>) -> bool {
    exists|i: int| 0 <= i < text.len() && #[trigger] spec_is_ascii_digit(text[i])
}

/// What the documentation of `regex` gives of a match `(a, b)` of `\d+`: `\d`
/// is the Unicode class `Nd`, which holds the ASCII digits and no other ASCII
/// character; the match is the leftmost one and `+` is greedy.
pub open spec fn digit_run_bounds(text: Seq<char>, a: int, b: int) -> bool {
    &&& 0 <= a < b <= text.len()
    &&& forall|i: int|
        a <= i < b ==> spec_is_ascii_digit(#[trigger] text[i]) || text[i] as u32 >= 0x80
    &&& forall|i: int| 0 <= i < a ==> !spec_is_ascii_digit(#[trigger] text[i])
    &&& b < text.len() ==> !spec_is_ascii_digit(text[b])
}

/// The leftmost run of ASCII digits in `text`, taken whole; for ASCII text it
/// is where `\d+` matches.
pub open spec fn first_ascii_digit_run(text: Seq<char>, a: int, b: int) -> bool {
    &&& 0 <= a < b <= text.len()
    &&& forall|i: int| a <= i < b ==> spec_is_ascii_digit(#[trigger] text[i])
    &&& forall|i: int| 0 <= i < a ==> !spec_is_ascii_digit(#[trigger] text[i])
    &&& b < text.len() ==> !spec_is_ascii_digit(text[b])
}

/// The text of the first match of `\d+` in `text` (`Regex::new(r"\d+")`,
/// then `Regex::find` and `Match::as_str`). This trusts that the match is the
/// character range that `digit_run_match` names and that it has the
/// properties `digit_run_bounds` lists, and that there is a match where an
/// ASCII digit occurs; the exact set of Unicode digits is left to the name.
#[verifier::external_body]
pub(crate) fn find_digit_run(text: &str) -> (m: Option<String>)
    ensures
        m is Some <==> digit_run_match(text@) is Some,
        has_ascii_digit(text@) ==> m is Some,
        m matches Some(s) ==> (digit_run_match(text@) matches Some((a, b)) && s@
            == text@.subrange(a, b) && digit_run_bounds(text@, a, b)),
{
    match Regex::new(r"\d+") {
        Ok(re) => match re.find(text) {
            Some(found) => Some(found.as_str().to_string()),
            None => None,
        },
        Err(_) => None,
    }
}

} // verus!
