//! Character utilities shared by the lexer, the parser and the renderers:
//! Unicode character classes (named, relied on from `std`), ASCII character
//! classes (fully specified), ASCII case folding, and small verified string
//! helpers.
use vstd::prelude::*;
use vstd::string::StrSliceExecFns;
use vstd::string::StringExecFns;

verus! {

/// Whether `char::is_whitespace` holds of `c` (the Unicode `White_Space`
/// property); pinned down below only on the ASCII range.
pub uninterp spec fn is_unicode_whitespace(c: char) -> bool;

/// Whether `char::is_alphabetic` holds of `c` (the Unicode `Alphabetic`
/// property); pinned down below only on the ASCII range.
pub uninterp spec fn is_unicode_alphabetic(c: char) -> bool;

/// Whether `char::is_numeric` holds of `c` (the Unicode `Nd`/`Nl`/`No`
/// general categories); pinned down below only on the ASCII range.
pub uninterp spec fn is_unicode_numeric(c: char) -> bool;

/// Relies on char::is_whitespace: true exactly on characters with the
/// Unicode `White_Space` property. On ASCII these are space, tab, line
/// feed, carriage return, vertical tab and form feed, as documented.
#[verifier::external_body]
pub fn char_is_whitespace(c: char) -> (r: bool)
    ensures
        r == is_unicode_whitespace(c),
        (c == ' ' || c == '\t' || c == '\n' || c == '\r' || c == '\u{b}' || c == '\u{c}') ==> r,
        (c as u32) < 0x80 && !(c == ' ' || c == '\t' || c == '\n' || c == '\r' || c == '\u{b}'
            || c == '\u{c}') ==> !r,
{
    c.is_whitespace()
}

/// Relies on char::is_alphabetic: true exactly on characters with the
/// Unicode `Alphabetic` property. On ASCII these are the letters `a`-`z`
/// and `A`-`Z`, as documented.
#[verifier::external_body]
pub fn char_is_alphabetic(c: char) -> (r: bool)
    ensures
        r == is_unicode_alphabetic(c),
        ('a' <= c && c <= 'z') || ('A' <= c && c <= 'Z') ==> r,
        (c as u32) < 0x80 && !(('a' <= c && c <= 'z') || ('A' <= c && c <= 'Z')) ==> !r,
{
    c.is_alphabetic()
}

/// Relies on char::is_numeric: true exactly on characters in the Unicode
/// general categories `Nd`, `Nl` and `No`. On ASCII these are the digits
/// `0`-`9`, as documented.
#[verifier::external_body]
pub fn char_is_numeric(c: char) -> (r: bool)
    ensures
        r == is_unicode_numeric(c),
        ('0' <= c && c <= '9') ==> r,
        (c as u32) < 0x80 && !('0' <= c && c <= '9') ==> !r,
{
    c.is_numeric()
}

/// Relies on char::is_alphanumeric, documented as the disjunction of
/// char::is_alphabetic and char::is_numeric.
#[verifier::external_body]
pub fn char_is_alphanumeric(c: char) -> (r: bool)
    ensures
        r == (is_unicode_alphabetic(c) || is_unicode_numeric(c)),
{
    c.is_alphanumeric()
}

/// Relies on String::push: appends exactly the one character `c`.
#[verifier::external_body]
pub fn push_char(s: &mut String, c: char)
    ensures
        final(s)@ == old(s)@ + seq![c],
{
    s.push(c)
}

/// The characters of `s`, as an owned vector.
pub fn str_to_chars(s: &str) -> (v: Vec<char>)
    ensures
        v@ == s@,
{
    let n = s.unicode_len();
    let mut v: Vec<char> = Vec::new();
    let mut i: usize = 0;
    while i < n
        invariant
            n == s@.len(),
            i <= n,
            v@ == s@.subrange(0, i as int),
        decreases n - i,
    {
        v.push(s.get_char(i));
        i = i + 1;
        proof {
            assert(v@ =~= s@.subrange(0, i as int));
        }
    }
    proof {
        assert(v@ =~= s@);
    }
    v
}

/// Whether the character sequences of the two strings are equal.
pub fn str_eq_str(a: &str, b: &str) -> (r: bool)
    ensures
        r == (a@ == b@),
{
    let na = a.unicode_len();
    let nb = b.unicode_len();
    if na != nb {
        proof {
            assert(a@ != b@);
        }
        return false;
    }
    let mut i: usize = 0;
    while i < na
        invariant
            na == a@.len(),
            na == b@.len(),
            i <= na,
            forall|j: int| 0 <= j < i ==> a@[j] == b@[j],
        decreases na - i,
    {
        if a.get_char(i) != b.get_char(i) {
            return false;
        }
        i = i + 1;
    }
    proof {
        assert(a@ =~= b@);
    }
    true
}

/// An ASCII decimal digit.
pub open spec fn is_dec_digit(c: char) -> bool {
    '0' <= c && c <= '9'
}

/// An ASCII hexadecimal digit.
pub open spec fn is_hex_digit(c: char) -> bool {
    is_dec_digit(c) || ('a' <= c && c <= 'f') || ('A' <= c && c <= 'F')
}

pub fn char_is_dec_digit(c: char) -> (r: bool)
    ensures
        r == is_dec_digit(c),
{
    '0' <= c && c <= '9'
}

pub fn char_is_hex_digit(c: char) -> (r: bool)
    ensures
        r == is_hex_digit(c),
{
    char_is_dec_digit(c) || ('a' <= c && c <= 'f') || ('A' <= c && c <= 'F')
}

/// ASCII upper-casing of one character: `a`-`z` fold to `A`-`Z`, everything
/// else is unchanged.
pub open spec fn ascii_upper_char(c: char) -> char {
    if 'a' <= c && c <= 'z' {
        ((c as u32) - 0x20) as char
    } else {
        c
    }
}

/// ASCII upper-casing of a character sequence, pointwise.
pub open spec fn ascii_upper(s: Seq<char>) -> Seq<char> {
    s.map_values(|c: char| ascii_upper_char(c))
}

/// The ASCII upper-casing of `s`. Mnemonics are matched case-insensitively
/// through this fold, which touches only the letters `a`-`z`.
pub fn to_ascii_upper(s: &str) -> (r: String)
    ensures
        r@ == ascii_upper(s@),
{
    let n = s.unicode_len();
    let mut r = String::new();
    let mut i: usize = 0;
    while i < n
        invariant
            n == s@.len(),
            i <= n,
            r@ == ascii_upper(s@.subrange(0, i as int)),
        decreases n - i,
    {
        let c = s.get_char(i);
        let u: char = if 'a' <= c && c <= 'z' {
            let cu = c as u32;
            proof {
                assert(0x61 <= cu <= 0x7a);
            }
            ((cu - 0x20) as u8) as char
        } else {
            c
        };
        proof {
            assert(u == ascii_upper_char(s@[i as int]));
        }
        push_char(&mut r, u);
        i = i + 1;
        proof {
            assert(r@ =~= ascii_upper(s@.subrange(0, i as int)));
        }
    }
    proof {
        assert(s@.subrange(0, n as int) =~= s@);
    }
    r
}

} // verus!
