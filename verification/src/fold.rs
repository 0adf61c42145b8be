//! The trusted boundary around Unicode-aware character handling from the
//! standard library. Each wrapper names the std function it relies on; on
//! ASCII input each contract is exact, elsewhere the result is pinned to a
//! named function of the input alone.

use crate::text::{all_ascii, ascii_lower_seq, ascii_upper, is_ascii_char};
use vstd::prelude::*;

verus! {

/// What `str::to_lowercase` returns on input that is not all ASCII.
pub uninterp spec fn unicode_lower(s: Seq<char>) -> Seq<char>;

/// Unicode lowercasing of a whole sequence; on all-ASCII input it is the
/// per-character ASCII letter mapping.
pub open spec fn lower_spec(s: Seq<char>) -> Seq<char> {
    if all_ascii(s) {
        ascii_lower_seq(s)
    } else {
        unicode_lower(s)
    }
}

/// Relies on `str::to_lowercase`: the result is a function of the characters
/// alone, and the only ASCII characters the Unicode mapping changes are the
/// letters `A`..=`Z`, each mapped to its lowercase counterpart.
#[verifier::external_body]
pub(crate) fn lowercase(s: &str) -> (r: String)
    ensures
        r@ == lower_spec(s@),
        !all_ascii(s@) ==> r@ == unicode_lower(s@),
{
    s.to_lowercase()
}

/// What `char::to_uppercase` yields on a character outside ASCII.
pub uninterp spec fn unicode_upper_char(c: char) -> Seq<char>;

/// The full Unicode uppercase mapping of one character; on an ASCII
/// character it maps exactly the letters `a`..=`z`.
pub open spec fn upper_first_spec(c: char) -> Seq<char> {
    if is_ascii_char(c) {
        seq![ascii_upper(c)]
    } else {
        unicode_upper_char(c)
    }
}

/// Relies on `char::to_uppercase`: the result is a function of the character
/// alone and yields at least one character; the only ASCII characters with
/// an uppercase conversion are the letters `a`..=`z`.
#[verifier::external_body]
pub(crate) fn upper_chars(c: char) -> (r: Vec<char>)
    ensures
        r@ == upper_first_spec(c),
        !is_ascii_char(c) ==> r@ == unicode_upper_char(c),
        r@.len() >= 1,
{
    c.to_uppercase().collect()
}

/// What `char::is_alphanumeric` returns on a character outside ASCII.
pub uninterp spec fn unicode_alnum(c: char) -> bool;

/// Whether a character is alphanumeric; on ASCII these are exactly the
/// digits and letters.
pub open spec fn alnum_spec(c: char) -> bool {
    if is_ascii_char(c) {
        (('0' as u32) <= (c as u32) && (c as u32) <= ('9' as u32)) || (('a' as u32) <= (c as u32)
            && (c as u32) <= ('z' as u32)) || (('A' as u32) <= (c as u32) && (c as u32) <= (
        'Z' as u32))
    } else {
        unicode_alnum(c)
    }
}

/// Relies on `char::is_alphanumeric`: the result is a function of the
/// character alone; the ASCII alphanumerics are exactly the digits and
/// letters.
#[verifier::external_body]
pub(crate) fn is_alnum_char(c: char) -> (r: bool)
    ensures
        r == alnum_spec(c),
        !is_ascii_char(c) ==> r == unicode_alnum(c),
{
    c.is_alphanumeric()
}

/// Relies on `String::push`: appends exactly the given character.
#[verifier::external_body]
pub(crate) fn push_char(s: &mut String, c: char)
    ensures
        final(s)@ == old(s)@.push(c),
{
    s.push(c)
}

} // verus!
