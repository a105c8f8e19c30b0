//! Identifiers: a letter or `_`, then letters, digits and `_`.
//!
//! Of the ASCII characters, the letters are `a` to `z` and `A` to `Z` and the
//! digits are `0` to `9`. Any other character is a letter, or a letter or
//! digit, where Unicode classifies it so.
use vstd::prelude::*;
use crate::text::{
    char_is_alphabetic, char_is_alphanumeric, chars_of, string_of, unicode_alphabetic,
    unicode_alphanumeric,
};

verus! {

/// Whether `c` is an ASCII character.
pub open spec fn is_ascii_char(c: char) -> bool {
    (c as u32) < 128
}

/// Whether `c` is one of the letters `a` to `z` and `A` to `Z`.
pub open spec fn is_ascii_letter(c: char) -> bool {
    let n = c as u32 as int;
    65 <= n <= 90 || 97 <= n <= 122
}

/// Whether `c` is one of the digits `0` to `9`.
pub open spec fn is_ascii_digit(c: char) -> bool {
    let n = c as u32 as int;
    48 <= n <= 57
}

/// Whether an identifier may start with `c`: with `_`, with an ASCII
/// letter, or with a character outside ASCII that Unicode classifies as
/// alphabetic.
pub open spec fn is_ident_start(c: char) -> bool {
    c == '_' || if is_ascii_char(c) {
        is_ascii_letter(c)
    } else {
        unicode_alphabetic(c)
    }
}

/// Whether an identifier may go on with `c`: with `_`, with an ASCII letter
/// or digit, or with a character outside ASCII that Unicode classifies as
/// alphabetic or numeric.
pub open spec fn is_ident_part(c: char) -> bool {
    c == '_' || if is_ascii_char(c) {
        is_ascii_letter(c) || is_ascii_digit(c)
    } else {
        unicode_alphanumeric(c)
    }
}

/// Whether an identifier may start with `c`.
pub fn starts_identifier(c: char) -> (r: bool)
    ensures
        r == is_ident_start(c),
{
    let n = c as u32;
    if c == '_' {
        true
    } else if n < 128 {
        (65 <= n && n <= 90) || (97 <= n && n <= 122)
    } else {
        char_is_alphabetic(c)
    }
}

/// Whether an identifier may go on with `c`.
pub fn continues_identifier(c: char) -> (r: bool)
    ensures
        r == is_ident_part(c),
{
    let n = c as u32;
    if c == '_' {
        true
    } else if n < 128 {
        (65 <= n && n <= 90) || (97 <= n && n <= 122) || (48 <= n && n <= 57)
    } else {
        char_is_alphanumeric(c)
    }
}

/// The end of the longest run of identifier characters in `s` that starts at
/// `i`.
pub open spec fn ident_end(s: Seq<char>, i: int) -> int
    decreases s.len() - i,
{
    if 0 <= i < s.len() && is_ident_part(s[i]) {
        ident_end(s, i + 1)
    } else {
        i
    }
}

/// The identifier at the start of `s`, with its length: `None` when `s` does
/// not start with one.
pub open spec fn identifier(s: Seq<char>) -> Option<(Seq<char>, nat)> {
    if s.len() > 0 && is_ident_start(s[0]) {
        let end = ident_end(s, 1);
        Some((s.subrange(0, end), end as nat))
    } else {
        None
    }
}

/// A run of identifier characters that starts inside `s` ends inside `s`.
pub proof fn lemma_ident_end_bounds(s: Seq<char>, i: int)
    requires
        0 <= i <= s.len(),
    ensures
        i <= ident_end(s, i) <= s.len(),
    decreases s.len() - i,
{
    if i < s.len() && is_ident_part(s[i]) {
        lemma_ident_end_bounds(s, i + 1);
    }
}

/// The length of the identifier at the start of `input`, 0 if there is none.
pub fn identifier_len(input: &[char]) -> (n: usize)
    ensures
        match identifier(input@) {
            Some((_, len)) => n == len && 1 <= n <= input@.len(),
            None => n == 0,
        },
{
    if input.len() == 0 {
        return 0;
    }
    let first = input[0];
    if !starts_identifier(first) {
        return 0;
    }
    let mut len: usize = 1;
    while len < input.len() && continues_identifier(input[len])
        invariant
            1 <= len <= input@.len(),
            ident_end(input@, 1) == ident_end(input@, len as int),
        decreases input@.len() - len,
    {
        len += 1;
    }
    len
}

/// Reads the identifier at the start of `input`: its text and its length in
/// characters.
pub fn scan_identifier(input: &[char]) -> (r: Option<(String, usize)>)
    ensures
        match r {
            Some((name, len)) => identifier(input@) == Some((name@, len as nat)),
            None => identifier(input@) is None,
        },
{
    let len = identifier_len(input);
    if len == 0 {
        None
    } else {
        proof {
            lemma_ident_end_bounds(input@, 1);
        }
        Some((string_of(input, 0, len), len))
    }
}

/// Reads the identifier at the start of `input`: its text and its length in
/// characters.
pub fn parse_identifier(input: &str) -> (r: Option<(String, usize)>)
    ensures
        match r {
            Some((name, len)) => identifier(input@) == Some((name@, len as nat)),
            None => identifier(input@) is None,
        },
{
    let chars = chars_of(input);
    scan_identifier(chars.as_slice())
}

/// An identifier, as its text.
#[derive(Debug)]
pub struct Ident(pub String);

impl Ident {
    /// Reads the identifier at the start of `input`.
    pub fn parse_from_str(input: &str) -> (r: Option<(Ident, usize)>)
        ensures
            match r {
                Some((ident, len)) => identifier(input@) == Some((ident.0@, len as nat)),
                None => identifier(input@) is None,
            },
    {
        match parse_identifier(input) {
            Some((name, len)) => Some((Ident(name), len)),
            None => None,
        }
    }
}

} // verus!
