//! Character-level helpers over `str`, and facts about UTF-8 lengths.

use substring::Substring;
use vstd::prelude::*;
use vstd::utf8::*;

verus! {

/// The characters of `s` from `start` up to `end`, both clamped to the
/// length of `s`; empty when `end <= start`.
pub open spec fn char_slice(s: Seq<char>, start: int, end: int) -> Seq<char> {
    if end <= start {
        Seq::empty()
    } else {
        let lo = if start < s.len() { start } else { s.len() as int };
        let hi = if end < s.len() { end } else { s.len() as int };
        s.subrange(lo, hi)
    }
}

/// Relies on `substring::Substring::substring` for `str`: it returns the
/// characters with indices in `start..end`, clamped to the string's length,
/// and the empty string when `end <= start`.
#[verifier::external_body]
pub(crate) fn substring_of<'a>(s: &'a str, start: usize, end: usize) -> (r: &'a str)
    ensures
        r@ == char_slice(s@, start as int, end as int),
{
    s.substring(start, end)
}

/// Relies on `ToString` for `char`: the string holds that one character.
#[verifier::external_body]
pub(crate) fn char_to_string(c: char) -> (r: String)
    ensures
        r@ == seq![c],
{
    c.to_string()
}

/// True when `c` is encoded in a single UTF-8 byte.
pub open spec fn is_one_byte(c: char) -> bool {
    (c as u32) < 128
}

/// The number of bytes in the UTF-8 encoding of `s`.
pub open spec fn utf8_len(s: Seq<char>) -> int {
    encode_utf8(s).len() as int
}

/// The number of bytes in the UTF-8 encoding of `s`.
pub(crate) fn byte_len(s: &str) -> (n: usize)
    ensures
        n == utf8_len(s@),
{
    s.as_bytes().len()
}

/// One character takes one byte when it is below 128, and more otherwise.
pub proof fn lemma_scalar_len(c: char)
    ensures
        encode_scalar(c as u32).len() >= 1,
        encode_scalar(c as u32).len() == 1 <==> is_one_byte(c),
{
    char_is_scalar(c);
}

/// A character sequence takes at least one byte per character, and exactly
/// one per character when each character is a single byte.
pub proof fn lemma_utf8_len(s: Seq<char>)
    ensures
        utf8_len(s) >= s.len(),
        utf8_len(s) == s.len() <==> (forall|i: int| 0 <= i < s.len() ==> is_one_byte(#[trigger] s[i])),
    decreases s.len(),
{
    if s.len() > 0 {
        lemma_scalar_len(s[0]);
        lemma_utf8_len(s.drop_first());
        if forall|i: int| 0 <= i < s.len() ==> is_one_byte(#[trigger] s[i]) {
            assert forall|i: int| 0 <= i < s.drop_first().len() implies is_one_byte(
                #[trigger] s.drop_first()[i],
            ) by {
                assert(s.drop_first()[i] == s[i + 1]);
            }
        }
        if utf8_len(s) == s.len() {
            assert forall|i: int| 0 <= i < s.len() implies is_one_byte(#[trigger] s[i]) by {
                if i > 0 {
                    assert(s[i] == s.drop_first()[i - 1]);
                }
            }
        }
    }
}

/// The byte length of a non-empty sequence is that of its first character
/// plus that of the rest.
pub proof fn lemma_utf8_len_first(s: Seq<char>)
    requires
        s.len() > 0,
    ensures
        utf8_len(s) == encode_scalar(s[0] as u32).len() + utf8_len(s.drop_first()),
{
}

} // verus!
