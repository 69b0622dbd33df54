use vstd::prelude::*;
use vstd::std_specs::iter::IteratorSpec;
use vstd::slice::slice_subrange;
use unicode_segmentation::UnicodeSegmentation;

verus! {

broadcast use vstd::string::group_string_axioms;

/// Relies on `String::push`, which appends one character to the end of the
/// string.
#[verifier::external_body]
pub fn push_char(s: &mut String, c: char)
    ensures
        final(s)@ == old(s)@.push(c),
{
    s.push(c);
}

/// The characters of a string, in order, as a vector.
pub fn chars_of(s: &str) -> (r: Vec<char>)
    ensures
        r@ == s@,
{
    let mut it = s.chars();
    let mut r: Vec<char> = Vec::new();
    loop
        invariant
            r@ + it.remaining() =~= s@,
            it.obeys_prophetic_iter_laws(),
            it.decrease() is Some,
        ensures
            r@ == s@,
        decreases it.decrease()->0,
    {
        let ghost prev = it;
        match it.next() {
            Some(c) => { r.push(c); }
            None => {
                proof {
                    assert(prev.remaining().len() == 0);
                    assert(r@ =~= s@);
                }
                break;
            }
        }
    }
    r
}

/// The string holding exactly the given characters, in order.
pub fn string_from_chars(v: &[char]) -> (s: String)
    ensures
        s@ == v@,
{
    let mut s = String::new();
    let mut i: usize = 0;
    while i < v.len()
        invariant
            i <= v@.len(),
            s@ == v@.subrange(0, i as int),
        decreases v@.len() - i,
    {
        let c = *slice_subrange(v, i, i + 1).first().unwrap();
        push_char(&mut s, c);
        proof {
            assert(v@.subrange(0, i + 1 as int) =~= v@.subrange(0, i as int).push(v@[i as int]));
        }
        i = i + 1;
    }
    proof {
        assert(v@.subrange(0, v@.len() as int) =~= v@);
    }
    s
}

/// Whether a character has the Unicode `White_Space` property.
pub uninterp spec fn is_unicode_whitespace(c: char) -> bool;

/// Relies on `char::is_whitespace`: whether the character has the Unicode
/// `White_Space` property, a function of the character alone; its documented
/// members below `U+0080` are the five control characters `U+0009`..`U+000D`
/// and the space.
#[verifier::external_body]
pub fn char_is_whitespace(c: char) -> (r: bool)
    ensures
        r == is_unicode_whitespace(c),
        (c as u32) < 128 ==> r == (c == ' ' || c == '\t' || c == '\n' || c == '\u{000B}' || c
            == '\u{000C}' || c == '\r'),
{
    c.is_whitespace()
}

/// Whether a character has the Unicode `Alphabetic` property.
pub uninterp spec fn is_unicode_alphabetic(c: char) -> bool;

/// Relies on `char::is_alphabetic`: whether the character has the Unicode
/// `Alphabetic` property, a function of the character alone; its documented
/// members below `U+0080` are exactly the ASCII letters.
#[verifier::external_body]
pub fn char_is_alphabetic(c: char) -> (r: bool)
    ensures
        r == is_unicode_alphabetic(c),
        (c as u32) < 128 ==> r == (('a' <= c && c <= 'z') || ('A' <= c && c <= 'Z')),
{
    c.is_alphabetic()
}

/// The Unicode uppercase form of a character sequence.
pub uninterp spec fn upper_of(s: Seq<char>) -> Seq<char>;

/// Relies on `str::to_uppercase`: the Unicode uppercase of the text, a
/// function of the characters alone; an empty string stays empty.
#[verifier::external_body]
pub fn to_upper(s: &str) -> (r: String)
    ensures
        r@ == upper_of(s@),
        s@.len() == 0 ==> r@.len() == 0,
{
    s.to_uppercase()
}

/// The Unicode lowercase form of a character sequence.
pub uninterp spec fn lower_of(s: Seq<char>) -> Seq<char>;

/// Relies on `str::to_lowercase`: the Unicode lowercase of the text, a
/// function of the characters alone; an empty string stays empty.
#[verifier::external_body]
pub fn to_lower(s: &str) -> (r: String)
    ensures
        r@ == lower_of(s@),
        s@.len() == 0 ==> r@.len() == 0,
{
    s.to_lowercase()
}

/// Relies on unicode_segmentation's `graphemes`: the grapheme clusters of a
/// string concatenate back to the string, so the first cluster of a nonempty
/// string is a nonempty prefix, and its first character is the string's first
/// character.
#[verifier::external_body]
pub fn first_grapheme_char(s: &str) -> (r: Option<char>)
    ensures
        r == (if s@.len() == 0 {
            Option::<char>::None
        } else {
            Option::Some(s@[0])
        }),
{
    UnicodeSegmentation::graphemes(s, true).next().and_then(|g| g.chars().next())
}

/// Whether two string slices hold the same characters.
pub fn str_eq(a: &str, b: &str) -> (r: bool)
    ensures
        r == (a@ == b@),
{
    let s1 = a.to_owned();
    let s2 = b.to_owned();
    s1 == s2
}

} // verus!
