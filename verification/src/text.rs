//! Text primitives of the standard library that the generator builds on.

use vstd::prelude::*;

verus! {

/// `String::push`: the character is appended at the end and nothing else
/// changes.
pub assume_specification[ std::string::String::push ](s: &mut std::string::String, c: char)
    ensures
        final(s)@ == old(s)@.push(c),
;

/// The uppercase mapping of one character, as `char::to_uppercase` yields it.
/// It may hold several characters; a character without an uppercase mapping
/// maps to itself.
pub uninterp spec fn uppercase_of(c: char) -> Seq<char>;

/// `char::to_uppercase`, collected into a string. The contract only names the
/// result: it is the uppercase mapping of `c`, whatever that is.
#[verifier::external_body]
pub(crate) fn uppercase(c: char) -> (upper: String)
    ensures
        upper@ == uppercase_of(c),
{
    c.to_uppercase().collect()
}

/// Whether a character is alphabetic, as `char::is_alphabetic` answers.
pub uninterp spec fn is_alphabetic_char(c: char) -> bool;

/// `char::is_alphabetic`. The contract only names the result: it is that
/// function's answer for `c`, whatever that is.
#[verifier::external_body]
pub(crate) fn alphabetic(c: char) -> (answer: bool)
    ensures
        answer == is_alphabetic_char(c),
{
    c.is_alphabetic()
}

/// `==` on `str`: true exactly when both hold the same characters.
pub assume_specification[ <str as PartialEq>::eq ](a: &str, b: &str) -> (same: bool)
    ensures
        same == (a@ == b@),
;

/// Whether two strings hold the same characters.
pub fn same_text(a: &str, b: &str) -> (same: bool)
    ensures
        same == (a@ == b@),
{
    *a == *b
}

} // verus!
