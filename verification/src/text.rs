//! Character classification used by the scanner, and small string-building
//! helpers shared by the emitter and the error reporter.

use vstd::prelude::*;

verus! {

/// The characters the scanner skips between tokens: exactly ASCII whitespace
/// (space, tab, line feed, form feed, carriage return).
pub open spec fn is_ws_char(c: char) -> bool {
    c == ' ' || c == '\t' || c == '\n' || c == '\u{c}' || c == '\r'
}

/// ASCII decimal digits.
pub open spec fn is_digit_char(c: char) -> bool {
    '0' <= c && c <= '9'
}

/// ASCII letters.
pub open spec fn is_ascii_letter(c: char) -> bool {
    ('a' <= c && c <= 'z') || ('A' <= c && c <= 'Z')
}

/// What `char::is_alphabetic` returns on characters beyond ASCII.
pub uninterp spec fn unicode_alphabetic(c: char) -> bool;

/// What `char::is_alphanumeric` returns on characters beyond ASCII.
pub uninterp spec fn unicode_alphanumeric(c: char) -> bool;

/// Alphabetic characters, as the scanner classifies them: within ASCII,
/// exactly the letters; beyond ASCII, whatever `char::is_alphabetic` accepts.
pub open spec fn is_alpha_char(c: char) -> bool {
    if (c as u32) < 128 {
        is_ascii_letter(c)
    } else {
        unicode_alphabetic(c)
    }
}

/// Alphanumeric characters, as the scanner classifies them: within ASCII,
/// exactly the letters and digits; beyond ASCII, whatever
/// `char::is_alphanumeric` accepts.
pub open spec fn is_alnum_char(c: char) -> bool {
    if (c as u32) < 128 {
        is_ascii_letter(c) || is_digit_char(c)
    } else {
        unicode_alphanumeric(c)
    }
}

pub fn is_ws(c: char) -> (r: bool)
    ensures
        r == is_ws_char(c),
{
    c == ' ' || c == '\t' || c == '\n' || c == '\u{c}' || c == '\r'
}

pub fn is_digit(c: char) -> (r: bool)
    ensures
        r == is_digit_char(c),
{
    let n = c as u32;
    48 <= n && n <= 57
}

/// Relies on `char::is_alphabetic`: within ASCII it accepts exactly the
/// letters; beyond ASCII it is the Unicode `Alphabetic` property, named here
/// by `unicode_alphabetic`.
#[verifier::external_body]
pub(crate) fn is_alpha(c: char) -> (r: bool)
    ensures
        r == is_alpha_char(c),
        (c as u32) >= 128 ==> r == unicode_alphabetic(c),
{
    c.is_alphabetic()
}

/// Relies on `char::is_alphanumeric`: within ASCII it accepts exactly the
/// letters and decimal digits; beyond ASCII it is `char::is_alphabetic` or
/// a Unicode number category, named here by `unicode_alphanumeric`.
#[verifier::external_body]
pub(crate) fn is_alnum(c: char) -> (r: bool)
    ensures
        r == is_alnum_char(c),
        (c as u32) >= 128 ==> r == unicode_alphanumeric(c),
{
    c.is_alphanumeric()
}

/// Relies on `String::push`: appends the given character.
#[verifier::external_body]
pub(crate) fn push_char(s: &mut String, c: char)
    ensures
        final(s)@ == old(s)@.push(c),
{
    s.push(c);
}

/// A string of `n` copies of one character.
pub fn repeat_char(c: char, n: usize) -> (r: String)
    ensures
        r@ == Seq::new(n as nat, |i: int| c),
{
    let mut s = String::new();
    let mut i: usize = 0;
    while i < n
        invariant
            i <= n,
            s@ == Seq::new(i as nat, |j: int| c),
        decreases n - i,
    {
        push_char(&mut s, c);
        i = i + 1;
        proof {
            assert(s@ =~= Seq::new(i as nat, |j: int| c));
        }
    }
    s
}

} // verus!
