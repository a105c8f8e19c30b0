//! Literals: integers in three bases, floats, characters and strings with
//! their escapes.
use vstd::prelude::*;
use crate::text::{chars_of, push_char, string_of};

verus! {

/// The value of `c` as a digit: 0 to 9 for `0`-`9`, 10 to 35 for the letters
/// of either case, and 36 for any other character.
pub open spec fn digit_value(c: char) -> int {
    let n = c as u32 as int;
    if 48 <= n <= 57 {
        n - 48
    } else if 97 <= n <= 122 {
        n - 87
    } else if 65 <= n <= 90 {
        n - 55
    } else {
        36
    }
}

/// The value of `c` as a digit, 36 if it is none.
pub fn digit_of(c: char) -> (d: u32)
    ensures
        d == digit_value(c),
        d <= 36,
{
    let n = c as u32;
    if 48 <= n && n <= 57 {
        n - 48
    } else if 97 <= n && n <= 122 {
        n - 87
    } else if 65 <= n && n <= 90 {
        n - 55
    } else {
        36
    }
}

/// The base of an integer literal.
#[derive(Clone, Copy, Debug, PartialEq, Eq, Structural)]
pub enum Base {
    Binary,
    Decimal,
    Hexadecimal,
}

/// The base that the start of `s` announces: `0x` for hexadecimal, `0b` for
/// binary, anything else for decimal.
pub open spec fn base_of(s: Seq<char>) -> Base {
    if s.len() >= 2 && s[0] == '0' && s[1] == 'x' {
        Base::Hexadecimal
    } else if s.len() >= 2 && s[0] == '0' && s[1] == 'b' {
        Base::Binary
    } else {
        Base::Decimal
    }
}

impl Base {
    /// The number of characters of the prefix that announces the base.
    pub open spec fn spec_prefix_len(self) -> nat {
        match self {
            Base::Binary => 2,
            Base::Decimal => 0,
            Base::Hexadecimal => 2,
        }
    }

    /// The number of digits of the base.
    pub open spec fn spec_radix(self) -> int {
        match self {
            Base::Binary => 2,
            Base::Decimal => 10,
            Base::Hexadecimal => 16,
        }
    }

    /// The base that the start of `input` announces.
    pub fn parse_from_str(input: &str) -> (base: Base)
        ensures
            base == base_of(input@),
    {
        let chars = chars_of(input);
        Base::of(chars.as_slice())
    }

    /// The base that the start of `input` announces.
    pub fn of(input: &[char]) -> (base: Base)
        ensures
            base == base_of(input@),
    {
        if input.len() >= 2 && input[0] == '0' && input[1] == 'x' {
            Base::Hexadecimal
        } else if input.len() >= 2 && input[0] == '0' && input[1] == 'b' {
            Base::Binary
        } else {
            Base::Decimal
        }
    }

    /// The number of characters of the prefix that announces the base.
    pub fn prefix_len(&self) -> (n: usize)
        ensures
            n == self.spec_prefix_len(),
    {
        match self {
            Base::Binary => 2,
            Base::Decimal => 0,
            Base::Hexadecimal => 2,
        }
    }

    /// The number of digits of the base.
    pub fn radix(&self) -> (r: u32)
        ensures
            r == self.spec_radix(),
    {
        match self {
            Base::Binary => 2,
            Base::Decimal => 10,
            Base::Hexadecimal => 16,
        }
    }
}

/// The end of the longest run of digits of the given radix in `s` that
/// starts at `i`.
pub open spec fn digits_end(s: Seq<char>, i: int, radix: int) -> int
    decreases s.len() - i,
{
    if 0 <= i < s.len() && digit_value(s[i]) < radix {
        digits_end(s, i + 1, radix)
    } else {
        i
    }
}

/// The number that the digits `s` write in the given radix, most significant
/// digit first.
pub open spec fn digits_value(s: Seq<char>, radix: int) -> int
    decreases s.len(),
{
    if s.len() == 0 {
        0
    } else {
        digits_value(s.drop_last(), radix) * radix + digit_value(s.last())
    }
}

/// The integer literal at the start of `s`, with its length: an optional
/// `0x` or `0b`, then at least one digit of the base. `None` when no digit
/// follows, or when the number does not fit in 64 signed bits.
pub open spec fn int_literal(s: Seq<char>) -> Option<(i64, nat)> {
    let base = base_of(s);
    let start = base.spec_prefix_len() as int;
    let end = digits_end(s, start, base.spec_radix());
    if end <= start {
        None
    } else {
        let value = digits_value(s.subrange(start, end), base.spec_radix());
        if value > i64::MAX {
            None
        } else {
            Some((value as i64, end as nat))
        }
    }
}

/// The float literal at the start of `s`, as its text, with its length: any
/// number of decimal digits, a dot, and at least one decimal digit.
pub open spec fn float_literal(s: Seq<char>) -> Option<(Seq<char>, nat)> {
    let dot = digits_end(s, 0, 10);
    if 0 <= dot < s.len() && s[dot] == '.' {
        let end = digits_end(s, dot + 1, 10);
        if end <= dot + 1 {
            None
        } else {
            Some((s.subrange(0, end), end as nat))
        }
    } else {
        None
    }
}

/// The character whose code is `16 * high + low`.
pub open spec fn byte_char(high: int, low: int) -> char {
    ((16 * high + low) as u8) as char
}

/// The character written at position `i` of `s`, with the number of
/// characters that write it: a plain character, or one of the escapes `\n`,
/// `\r`, `\t`, `\'`, `\\`, `\0` and `\xHH`. `None` at the end of `s` and for
/// any other escape.
pub open spec fn next_char(s: Seq<char>, i: int) -> Option<(char, nat)> {
    if !(0 <= i < s.len()) {
        None
    } else if s[i] != '\\' {
        Some((s[i], 1))
    } else if i + 1 >= s.len() {
        None
    } else if s[i + 1] == 'n' {
        Some(('\n', 2))
    } else if s[i + 1] == 'r' {
        Some(('\r', 2))
    } else if s[i + 1] == 't' {
        Some(('\t', 2))
    } else if s[i + 1] == '\'' {
        Some(('\'', 2))
    } else if s[i + 1] == '\\' {
        Some(('\\', 2))
    } else if s[i + 1] == '0' {
        Some(('\0', 2))
    } else if s[i + 1] == 'x' && i + 3 < s.len() && digit_value(s[i + 2]) < 16 && digit_value(
        s[i + 3],
    ) < 16 {
        Some((byte_char(digit_value(s[i + 2]), digit_value(s[i + 3])), 4))
    } else {
        None
    }
}

/// The character literal at the start of `s`, with its length: a quote, one
/// character or escape, a quote.
pub open spec fn char_literal(s: Seq<char>) -> Option<(char, nat)> {
    if s.len() > 0 && s[0] == '\'' {
        match next_char(s, 1) {
            Some((c, len)) => if 1 + len < s.len() && s[1 + len as int] == '\'' {
                Some((c, len + 2))
            } else {
                None
            },
            None => None,
        }
    } else {
        None
    }
}

/// The rest of a string literal from position `i` on, `text` being what was
/// read so far: characters and escapes up to the first plain `"`.
pub open spec fn string_body(s: Seq<char>, i: int, text: Seq<char>) -> Option<(Seq<char>, nat)>
    decreases s.len() - i,
{
    match next_char(s, i) {
        None => None,
        Some((c, len)) => if c == '"' && len == 1 {
            Some((text, (i + 1) as nat))
        } else {
            string_body(s, i + len, text.push(c))
        },
    }
}

/// The string literal at the start of `s`, as the text it denotes, with its
/// length: a `"`, characters and escapes, and a closing `"`.
pub open spec fn string_literal(s: Seq<char>) -> Option<(Seq<char>, nat)> {
    if s.len() > 0 && s[0] == '"' {
        string_body(s, 1, Seq::empty())
    } else {
        None
    }
}

/// A run of digits that starts inside `s` ends inside `s`.
pub proof fn lemma_digits_end_bounds(s: Seq<char>, i: int, radix: int)
    requires
        0 <= i <= s.len(),
    ensures
        i <= digits_end(s, i, radix) <= s.len(),
    decreases s.len() - i,
{
    if i < s.len() && digit_value(s[i]) < radix {
        lemma_digits_end_bounds(s, i + 1, radix);
    }
}

/// Digits write a number that is not negative, and no smaller than what any
/// of their prefixes writes.
pub proof fn lemma_digits_value_prefix(s: Seq<char>, k: int, radix: int)
    requires
        radix >= 1,
        0 <= k <= s.len(),
    ensures
        0 <= digits_value(s.subrange(0, k), radix) <= digits_value(s, radix),
    decreases s.len(),
{
    if k == s.len() {
        assert(s.subrange(0, k) =~= s);
        if s.len() > 0 {
            lemma_digits_value_prefix(s.drop_last(), k - 1, radix);
            assert(s.drop_last().subrange(0, k - 1) =~= s.drop_last());
            assert(digits_value(s.drop_last(), radix) * radix >= 0) by (nonlinear_arith)
                requires
                    digits_value(s.drop_last(), radix) >= 0,
                    radix >= 1,
            ;
        }
    } else {
        lemma_digits_value_prefix(s.drop_last(), k, radix);
        assert(s.drop_last().subrange(0, k) =~= s.subrange(0, k));
        let rest = digits_value(s.drop_last(), radix);
        assert(rest * radix >= rest) by (nonlinear_arith)
            requires
                rest >= 0,
                radix >= 1,
        ;
    }
}

/// Reads the integer literal at the start of `input`: its value and its
/// length in characters.
pub fn scan_int_literal(input: &[char]) -> (r: Option<(i64, usize)>)
    ensures
        match r {
            Some((value, len)) => int_literal(input@) == Some((value, len as nat)),
            None => int_literal(input@) is None,
        },
{
    let base = Base::of(input);
    let start = base.prefix_len();
    let radix = base.radix();
    let mut len: usize = start;
    while len < input.len() && digit_of(input[len]) < radix
        invariant
            start <= len <= input@.len(),
            digits_end(input@, start as int, radix as int) == digits_end(
                input@,
                len as int,
                radix as int,
            ),
        decreases input@.len() - len,
    {
        len += 1;
    }
    if len == start {
        return None;
    }
    let ghost digits = input@.subrange(start as int, len as int);
    let mut value: u64 = 0;
    let mut i: usize = start;
    while i < len
        invariant
            start <= i <= len <= input@.len(),
            2 <= radix <= 16,
            digits == input@.subrange(start as int, len as int),
            digits_end(input@, start as int, radix as int) == len,
            radix == base_of(input@).spec_radix(),
            start == base_of(input@).spec_prefix_len(),
            value == digits_value(input@.subrange(start as int, i as int), radix as int),
            value <= i64::MAX,
        decreases len - i,
    {
        let digit = digit_of(input[i]);
        let ghost before = input@.subrange(start as int, i as int);
        let ghost after = input@.subrange(start as int, i + 1);
        assert(after.drop_last() =~= before);
        assert(after.last() == input@[i as int]);
        assert(value * radix <= 0x7fff_ffff_ffff_ffff * 16) by (nonlinear_arith)
            requires
                value <= 0x7fff_ffff_ffff_ffff,
                radix <= 16,
        ;
        let next: u128 = (value as u128) * (radix as u128) + (digit as u128);
        if next > 0x7fff_ffff_ffff_ffff {
            proof {
                assert(digits.subrange(0, i + 1 - start) =~= after);
                lemma_digits_value_prefix(digits, i + 1 - start, radix as int);
            }
            return None;
        }
        value = next as u64;
        i += 1;
    }
    assert(input@.subrange(start as int, i as int) == digits);
    Some((value as i64, len))
}

/// Reads the float literal at the start of `input`: its text and its length
/// in characters.
pub fn scan_float_literal(input: &[char]) -> (r: Option<(String, usize)>)
    ensures
        match r {
            Some((text, len)) => float_literal(input@) == Some((text@, len as nat)),
            None => float_literal(input@) is None,
        },
{
    let mut dot: usize = 0;
    while dot < input.len() && digit_of(input[dot]) < 10
        invariant
            dot <= input@.len(),
            digits_end(input@, 0, 10) == digits_end(input@, dot as int, 10),
        decreases input@.len() - dot,
    {
        dot += 1;
    }
    if dot >= input.len() || input[dot] != '.' {
        return None;
    }
    let mut end: usize = dot + 1;
    while end < input.len() && digit_of(input[end]) < 10
        invariant
            dot + 1 <= end <= input@.len(),
            digits_end(input@, dot + 1, 10) == digits_end(input@, end as int, 10),
        decreases input@.len() - end,
    {
        end += 1;
    }
    if end == dot + 1 {
        return None;
    }
    Some((string_of(input, 0, end), end))
}

/// Reads the character or escape at position `at` of `input`: the character
/// it denotes and the number of characters that write it.
pub fn parse_next_char(input: &[char], at: usize) -> (r: Option<(char, usize)>)
    ensures
        match r {
            Some((c, len)) => next_char(input@, at as int) == Some((c, len as nat)) && at + len
                <= input@.len() && len >= 1,
            None => next_char(input@, at as int) is None,
        },
{
    if at >= input.len() {
        return None;
    }
    let first = input[at];
    if first != '\\' {
        return Some((first, 1));
    }
    if input.len() - at < 2 {
        return None;
    }
    let second = input[at + 1];
    if second == 'n' {
        Some(('\n', 2))
    } else if second == 'r' {
        Some(('\r', 2))
    } else if second == 't' {
        Some(('\t', 2))
    } else if second == '\'' {
        Some(('\'', 2))
    } else if second == '\\' {
        Some(('\\', 2))
    } else if second == '0' {
        Some(('\0', 2))
    } else if second == 'x' && input.len() - at >= 4 {
        let high = digit_of(input[at + 2]);
        let low = digit_of(input[at + 3]);
        if high < 16 && low < 16 {
            let code: u8 = (16 * high + low) as u8;
            Some((code as char, 4))
        } else {
            None
        }
    } else {
        None
    }
}

/// Reads the character literal at the start of `input`: the character it
/// denotes and its length in characters.
pub fn scan_char_literal(input: &[char]) -> (r: Option<(char, usize)>)
    ensures
        match r {
            Some((c, len)) => char_literal(input@) == Some((c, len as nat)),
            None => char_literal(input@) is None,
        },
{
    if input.len() == 0 || input[0] != '\'' {
        return None;
    }
    match parse_next_char(input, 1) {
        Some((c, len)) => {
            if 1 + len < input.len() && input[1 + len] == '\'' {
                Some((c, len + 2))
            } else {
                None
            }
        },
        None => None,
    }
}

/// Reads the string literal at the start of `input`: the text it denotes and
/// its length in characters.
pub fn scan_string_literal(input: &[char]) -> (r: Option<(String, usize)>)
    ensures
        match r {
            Some((text, len)) => string_literal(input@) == Some((text@, len as nat)),
            None => string_literal(input@) is None,
        },
{
    if input.len() == 0 || input[0] != '"' {
        return None;
    }
    let total = input.len();
    let mut at: usize = 1;
    let mut text = String::new();
    loop
        invariant
            total == input@.len(),
            1 <= at <= input@.len(),
            input@[0] == '"',
            string_literal(input@) == string_body(input@, at as int, text@),
        decreases input@.len() - at,
    {
        match parse_next_char(input, at) {
            None => {
                return None;
            },
            Some((c, len)) => {
                if c == '"' && len == 1 {
                    return Some((text, at + 1));
                }
                push_char(&mut text, c);
                at += len;
            },
        }
    }
}

/// Reads the integer literal at the start of `input`: its value and its
/// length in characters.
pub fn parse_int_literal(input: &str) -> (r: Option<(i64, usize)>)
    ensures
        match r {
            Some((value, len)) => int_literal(input@) == Some((value, len as nat)),
            None => int_literal(input@) is None,
        },
{
    let chars = chars_of(input);
    scan_int_literal(chars.as_slice())
}

/// Reads the float literal at the start of `input`: its text and its length
/// in characters.
pub fn parse_float_literal(input: &str) -> (r: Option<(String, usize)>)
    ensures
        match r {
            Some((text, len)) => float_literal(input@) == Some((text@, len as nat)),
            None => float_literal(input@) is None,
        },
{
    let chars = chars_of(input);
    scan_float_literal(chars.as_slice())
}

/// Reads the character literal at the start of `input`: the character it
/// denotes and its length in characters.
pub fn parse_char_literal(input: &str) -> (r: Option<(char, usize)>)
    ensures
        match r {
            Some((c, len)) => char_literal(input@) == Some((c, len as nat)),
            None => char_literal(input@) is None,
        },
{
    let chars = chars_of(input);
    scan_char_literal(chars.as_slice())
}

/// Reads the string literal at the start of `input`: the text it denotes
/// and its length in characters.
pub fn parse_string_literal(input: &str) -> (r: Option<(String, usize)>)
    ensures
        match r {
            Some((text, len)) => string_literal(input@) == Some((text@, len as nat)),
            None => string_literal(input@) is None,
        },
{
    let chars = chars_of(input);
    scan_string_literal(chars.as_slice())
}

} // verus!
