//! Unicode character properties and case mapping, taken from `std`.

use vstd::prelude::*;

verus! {

pub open spec fn is_ascii_letter(c: char) -> bool {
    (65 <= (c as u32) <= 90) || (97 <= (c as u32) <= 122)
}

pub open spec fn is_ascii_digit(c: char) -> bool {
    48 <= (c as u32) <= 57
}

/// Whether `c` has the Unicode `Alphabetic` property (`char::is_alphabetic`).
pub uninterp spec fn spec_is_alphabetic(c: char) -> bool;

/// Whether `c` is alphabetic or numeric in Unicode's sense (`char::is_alphanumeric`).
pub uninterp spec fn spec_is_alphanumeric(c: char) -> bool;

/// Full Unicode lower-casing of a string (`str::to_lowercase`).
pub uninterp spec fn spec_to_lowercase(s: Seq<char>) -> Seq<char>;

/// ASCII lower-casing of one character.
pub open spec fn ascii_lower(c: char) -> char {
    if 65 <= (c as u32) <= 90 {
        (((c as u32) + 32) as u8) as char
    } else {
        c
    }
}

/// Calls `char::is_alphabetic`. The claim: the result is the `Alphabetic`
/// property of `c`, which among ASCII characters holds exactly of the letters.
#[verifier::external_body]
pub(crate) fn char_is_alphabetic(c: char) -> (res: bool)
    ensures
        res == spec_is_alphabetic(c),
        (c as u32) < 128 ==> (res <==> is_ascii_letter(c)),
{
    c.is_alphabetic()
}

/// Calls `char::is_alphanumeric`. The claim: the result is the named
/// property of `c`, which among ASCII characters holds exactly of the letters
/// and the digits.
#[verifier::external_body]
pub(crate) fn char_is_alphanumeric(c: char) -> (res: bool)
    ensures
        res == spec_is_alphanumeric(c),
        (c as u32) < 128 ==> (res <==> (is_ascii_letter(c) || is_ascii_digit(c))),
{
    c.is_alphanumeric()
}

/// Calls `str::to_lowercase`. The claim: the result is the Unicode lower-case
/// form of `s`, a function of `s` alone; on an all-ASCII string it maps each
/// character to its ASCII lower case and keeps the length.
#[verifier::external_body]
pub(crate) fn to_lowercase(s: &str) -> (res: String)
    ensures
        res@ == spec_to_lowercase(s@),
        (forall|i: int| 0 <= i < s@.len() ==> (#[trigger] s@[i] as u32) < 128) ==> res@
            == s@.map_values(|c: char| ascii_lower(c)),
{
    s.to_lowercase()
}

} // verus!
