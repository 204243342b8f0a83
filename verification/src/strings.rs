//! Conversions between bytes, `String`s and character vectors.
use vstd::prelude::*;
use vstd::utf8::*;

use crate::text::chars_of;

verus! {

/// What `String::from_utf8_lossy` makes of `bytes`: their UTF-8 decoding with
/// each invalid sequence replaced by U+FFFD.
pub uninterp spec fn utf8_lossy(bytes: Seq<u8>) -> Seq<char>;

/// What `str::to_lowercase` makes of `s`.
pub uninterp spec fn lowercase(s: Seq<char>) -> Seq<char>;

/// The ASCII lowercase of `c`; other characters are unchanged.
pub open spec fn ascii_lower(c: char) -> char {
    if 'A' <= c && c <= 'Z' {
        ((c as u32) + 32) as char
    } else {
        c
    }
}

/// Every character of `s` is ASCII.
pub open spec fn all_ascii(s: Seq<char>) -> bool {
    forall|i: int| 0 <= i < s.len() ==> (#[trigger] s[i] as u32) < 0x80
}

/// Appends `c` to `s` (`String::push`).
#[verifier::external_body]
fn push_char(s: &mut String, c: char)
    ensures
        final(s)@ == old(s)@.push(c),
{
    s.push(c)
}

/// Decodes `bytes` as `String::from_utf8_lossy` does. This trusts that
/// `from_utf8_lossy` gives the plain decoding of valid UTF-8; what it gives for
/// invalid input is left to the name `utf8_lossy`.
#[verifier::external_body]
pub(crate) fn decode_lossy(bytes: &[u8]) -> (s: String)
    ensures
        s@ == utf8_lossy(bytes@),
        valid_utf8(bytes@) ==> s@ == decode_utf8(bytes@),
{
    String::from_utf8_lossy(bytes).into_owned()
}

/// Decodes `bytes` as `String::from_utf8` does: this trusts that it succeeds
/// exactly on valid UTF-8, and then gives its decoding.
#[verifier::external_body]
pub(crate) fn decode_strict(bytes: Vec<u8>) -> (s: Option<String>)
    ensures
        s is Some <==> valid_utf8(bytes@),
        s matches Some(t) ==> t@ == decode_utf8(bytes@),
{
    String::from_utf8(bytes).ok()
}

/// The lowercase of `s` as `str::to_lowercase` gives it. This trusts that it
/// maps ASCII text character by character to its ASCII lowercase, as the
/// documentation says; on other text the result is left to the name `lowercase`.
#[verifier::external_body]
pub(crate) fn to_lowercase(s: &str) -> (t: String)
    ensures
        t@ == lowercase(s@),
        all_ascii(s@) ==> t@ == s@.map_values(|c: char| ascii_lower(c)),
{
    s.to_lowercase()
}

/// A `String` holding the characters `v`.
pub fn string_from_chars(v: &[char]) -> (s: String)
    ensures
        s@ == v@,
{
    let mut s = String::new();
    let mut i: usize = 0;
    while i < v.len()
        invariant
            i <= v@.len(),
            s@ == v@.subrange(0, i as int),
        decreases v@.len() - i,
    {
        push_char(&mut s, v[i]);
        assert(v@.subrange(0, i + 1) =~= v@.subrange(0, i as int).push(v@[i as int]));
        i += 1;
    }
    assert(v@.subrange(0, v@.len() as int) =~= v@);
    s
}

/// The characters of the UTF-8 decoding of `bytes`, with invalid sequences
/// replaced as `String::from_utf8_lossy` does.
pub fn lossy_chars(bytes: &[u8]) -> (v: Vec<char>)
    ensures
        v@ == utf8_lossy(bytes@),
        valid_utf8(bytes@) ==> v@ == decode_utf8(bytes@),
{
    let s = decode_lossy(bytes);
    chars_of(s.as_str())
}

} // verus!
