//! The character tests that the `unicode` library adds to strings: each looks
//! at the first character of the string, by its Unicode general category or
//! by white space.
use crate::strings::{is_white_space, white_space};
use vstd::prelude::*;

verus! {

/// Whether `c` is in the Unicode category "Letter, Lowercase" (Ll), as the
/// tables of the `unicode_categories` crate give it.
pub uninterp spec fn is_lowercase_letter(c: char) -> bool;

/// Whether `c` is in the Unicode category "Letter, Uppercase" (Lu), as the
/// tables of the `unicode_categories` crate give it.
pub uninterp spec fn is_uppercase_letter(c: char) -> bool;

/// Whether `c` is in one of the Unicode number categories (Nd, Nl, No), as
/// the tables of the `unicode_categories` crate give them.
pub uninterp spec fn is_number_char(c: char) -> bool;

/// `UnicodeCategories::is_letter_lowercase` of the `unicode_categories`
/// crate; its answer, a lookup in the crate's tables, is named.
#[verifier::external_body]
fn letter_lowercase(c: char) -> (r: bool)
    ensures
        r == is_lowercase_letter(c),
{
    unicode_categories::UnicodeCategories::is_letter_lowercase(c)
}

/// `UnicodeCategories::is_letter_uppercase` of the `unicode_categories`
/// crate; its answer, a lookup in the crate's tables, is named.
#[verifier::external_body]
fn letter_uppercase(c: char) -> (r: bool)
    ensures
        r == is_uppercase_letter(c),
{
    unicode_categories::UnicodeCategories::is_letter_uppercase(c)
}

/// `UnicodeCategories::is_number` of the `unicode_categories` crate; its
/// answer, lookups in the crate's tables, is named.
#[verifier::external_body]
fn number(c: char) -> (r: bool)
    ensures
        r == is_number_char(c),
{
    unicode_categories::UnicodeCategories::is_number(c)
}

/// The tests on the first character of a string.
#[derive(Clone, Copy, Debug, PartialEq, Eq, Structural)]
pub enum CharTest {
    LowercaseLetter,
    UppercaseLetter,
    Digit,
    Whitespace,
}

/// Whether `c` passes test `t`.
pub open spec fn passes(t: CharTest, c: char) -> bool {
    match t {
        CharTest::LowercaseLetter => is_lowercase_letter(c),
        CharTest::UppercaseLetter => is_uppercase_letter(c),
        CharTest::Digit => is_number_char(c),
        CharTest::Whitespace => is_white_space(c),
    }
}

/// The name of a test, as a method of strings.
pub open spec fn test_name(t: CharTest) -> Seq<char> {
    match t {
        CharTest::LowercaseLetter => "is_lowercase_letter"@,
        CharTest::UppercaseLetter => "is_uppercase_letter"@,
        CharTest::Digit => "is_digit"@,
        CharTest::Whitespace => "is_whitespace"@,
    }
}

impl CharTest {
    /// The name of the test, as a method of strings.
    pub fn name(&self) -> (r: &'static str)
        ensures
            r@ == test_name(*self),
    {
        match self {
            CharTest::LowercaseLetter => "is_lowercase_letter",
            CharTest::UppercaseLetter => "is_uppercase_letter",
            CharTest::Digit => "is_digit",
            CharTest::Whitespace => "is_whitespace",
        }
    }

    /// Whether the character `c` passes the test.
    pub fn check(&self, c: char) -> (r: bool)
        ensures
            r == passes(*self, c),
    {
        match self {
            CharTest::LowercaseLetter => letter_lowercase(c),
            CharTest::UppercaseLetter => letter_uppercase(c),
            CharTest::Digit => number(c),
            CharTest::Whitespace => white_space(c),
        }
    }

    /// Whether the first character of `s` passes the test.
    pub fn check_first(&self, s: &str) -> (r: bool)
        requires
            s@.len() > 0,
        ensures
            r == passes(*self, s@[0]),
    {
        let c = s.get_char(0);
        self.check(c)
    }
}

} // verus!
