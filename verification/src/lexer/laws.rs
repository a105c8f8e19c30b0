//! What holds of the cutting of a text into tokens, for all texts.
use vstd::prelude::*;
use crate::lexer::identifier::{ident_end, identifier, is_ident_part, lemma_ident_end_bounds};
use crate::lexer::literal::{
    base_of, char_literal, digit_value, digits_end, float_literal, int_literal,
    lemma_digits_end_bounds, lemma_digits_value_prefix, next_char, string_body, string_literal,
};
use crate::lexer::raw_lexer::{
    block_comment_close, block_comment_open, is_space, lemma_match_end_bounds,
    lemma_trivia_end_bounds, line_comment_close, line_comment_open, match_end, next_token,
    occurs_at, tokens_from, trivia_end,
};
use crate::lexer::token::{
    lemma_lex_token_bounds, lemma_reserved_first_char, lemma_reserved_lexeme_len,
    lemma_string_body_bounds, lex_basic, lex_basic_upto, lex_identifier, lex_literal, lex_token,
    reserved_token, starts_with_true, TokenView,
};

verus! {

/// A token with the text that it was read from and the white space and
/// comments that were skipped before it.
pub struct Lexeme {
    pub skipped: Seq<char>,
    pub raw: Seq<char>,
    pub token: TokenView,
}

/// The tokens of `s` from position `i` on, each with its text and with what
/// was skipped before it.
pub open spec fn lexemes_from(s: Seq<char>, i: int) -> Seq<Lexeme>
    decreases s.len() - i,
{
    if !(0 <= i <= s.len()) {
        Seq::empty()
    } else {
        proof {
            lemma_trivia_end_bounds(s, i);
            lemma_lex_token_bounds(s.subrange(trivia_end(s, i), s.len() as int));
        }
        match next_token(s, i) {
            (Some(token), start, end) => seq![
                Lexeme { skipped: s.subrange(i, start), raw: s.subrange(start, end), token },
            ] + lexemes_from(s, end),
            (None, _, _) => Seq::empty(),
        }
    }
}

/// The position in `s` where the reading of tokens from position `i` on
/// stops: the end of `s`, or the first place after white space and
/// comments where no token can be read.
pub open spec fn lexing_end(s: Seq<char>, i: int) -> int
    decreases s.len() - i,
{
    if !(0 <= i <= s.len()) {
        i
    } else {
        proof {
            lemma_trivia_end_bounds(s, i);
            lemma_lex_token_bounds(s.subrange(trivia_end(s, i), s.len() as int));
        }
        match next_token(s, i) {
            (Some(_), _, end) => lexing_end(s, end),
            (None, start, _) => start,
        }
    }
}

/// The position in `s` where the last token read from position `i` on
/// ends; `i` if there is none.
pub open spec fn last_token_end(s: Seq<char>, i: int) -> int
    decreases s.len() - i,
{
    if !(0 <= i <= s.len()) {
        i
    } else {
        proof {
            lemma_trivia_end_bounds(s, i);
            lemma_lex_token_bounds(s.subrange(trivia_end(s, i), s.len() as int));
        }
        match next_token(s, i) {
            (Some(_), _, end) => last_token_end(s, end),
            (None, _, _) => i,
        }
    }
}

/// The texts of lexemes and what was skipped before each, put together in
/// their order.
pub open spec fn joined(lexemes: Seq<Lexeme>) -> Seq<char>
    decreases lexemes.len(),
{
    if lexemes.len() == 0 {
        Seq::empty()
    } else {
        lexemes[0].skipped + lexemes[0].raw + joined(lexemes.drop_first())
    }
}

/// The tokens of the lexemes, in their order.
pub open spec fn tokens_of(lexemes: Seq<Lexeme>) -> Seq<TokenView> {
    Seq::new(lexemes.len(), |k: int| lexemes[k].token)
}

/// The tokens that the lexer gives are the tokens of the lexemes: one
/// lexeme for each token, in the same order.
pub proof fn lemma_lexemes_are_the_tokens(s: Seq<char>, i: int)
    ensures
        tokens_from(s, i) == tokens_of(lexemes_from(s, i)),
    decreases s.len() - i,
{
    if 0 <= i <= s.len() {
        lemma_trivia_end_bounds(s, i);
        lemma_lex_token_bounds(s.subrange(trivia_end(s, i), s.len() as int));
        match next_token(s, i) {
            (Some(token), start, end) => {
                lemma_lexemes_are_the_tokens(s, end);
                assert(tokens_from(s, i) =~= tokens_of(lexemes_from(s, i)));
            },
            (None, _, _) => {
                assert(tokens_from(s, i) =~= tokens_of(lexemes_from(s, i)));
            },
        }
    } else {
        assert(tokens_from(s, i) =~= tokens_of(lexemes_from(s, i)));
    }
}

/// Every lexeme holds what the lexer skipped, which is white space and
/// comments and nothing else, and the text of its token, from which alone
/// the token is read.
pub proof fn lemma_first_lexeme(s: Seq<char>, i: int)
    requires
        0 <= i <= s.len(),
        lexemes_from(s, i).len() > 0,
    ensures
        ({
            let first = lexemes_from(s, i)[0];
            let start = trivia_end(s, i);
            &&& i <= start <= start + first.raw.len() <= s.len()
            &&& first.skipped == s.subrange(i, start)
            &&& first.raw == s.subrange(start, start + first.raw.len())
            &&& first.raw.len() >= 1
            &&& lex_token(s.subrange(start, s.len() as int)) == Some(
                (first.token, first.raw.len()),
            )
            &&& lex_token(first.raw) == Some((first.token, first.raw.len()))
            &&& is_trivia(first.skipped)
        }),
{
    lemma_trivia_end_bounds(s, i);
    let start = trivia_end(s, i);
    let rest = s.subrange(start, s.len() as int);
    lemma_lex_token_bounds(rest);
    lemma_token_of_its_lexeme(rest);
    let len = lexemes_from(s, i)[0].raw.len();
    assert(rest.subrange(0, len as int) =~= s.subrange(start, start + len));
    lemma_skipped_is_trivia(s, i);
}

/// The texts of the tokens, with what was skipped before each, make up the
/// text from where the lexer started to where its last token ends; what
/// follows, up to where the lexer stops, is white space and comments.
pub proof fn lemma_lexemes_cover_the_text(s: Seq<char>, i: int)
    requires
        0 <= i <= s.len(),
    ensures
        i <= last_token_end(s, i) <= lexing_end(s, i) <= s.len(),
        joined(lexemes_from(s, i)) == s.subrange(i, last_token_end(s, i)),
        lexing_end(s, i) == trivia_end(s, last_token_end(s, i)),
    decreases s.len() - i,
{
    lemma_trivia_end_bounds(s, i);
    lemma_lex_token_bounds(s.subrange(trivia_end(s, i), s.len() as int));
    match next_token(s, i) {
        (Some(token), start, end) => {
            lemma_lexemes_cover_the_text(s, end);
            let all = lexemes_from(s, i);
            assert(all.drop_first() =~= lexemes_from(s, end));
            assert(joined(all) =~= s.subrange(i, last_token_end(s, i)));
        },
        (None, _, _) => {
            assert(joined(lexemes_from(s, i)) =~= s.subrange(i, last_token_end(s, i)));
        },
    }
}

/// Looking for a reserved prefix of at most `len` characters finds one that
/// is no shorter than any reserved prefix of at most `len` characters.
pub proof fn lemma_lex_basic_upto_longest(s: Seq<char>, len: nat, k: nat)
    requires
        1 <= k <= len <= s.len(),
        reserved_token(s.subrange(0, k as int)) is Some,
    ensures
        lex_basic_upto(s, len) matches Some((token, n)) && k <= n <= len && reserved_token(
            s.subrange(0, n as int),
        ) == Some(token),
    decreases len,
{
    if reserved_token(s.subrange(0, len as int)) is None {
        lemma_lex_basic_upto_longest(s, (len - 1) as nat, k);
    }
}

/// The operator or punctuation mark that is read at the start of a text is
/// the longest entry of the reserved table that the text starts with.
pub proof fn lemma_lex_basic_longest(s: Seq<char>, k: nat)
    requires
        k <= s.len(),
        reserved_token(s.subrange(0, k as int)) is Some,
    ensures
        lex_basic(s) matches Some((token, n)) && k <= n && reserved_token(s.subrange(0, n as int))
            == Some(token),
{
    lemma_reserved_lexeme_len(s.subrange(0, k as int));
    lemma_lex_basic_upto_longest(s, if s.len() < 8 { s.len() } else { 8 }, k);
}

/// Whether no integer token of `tokens` is negative.
pub open spec fn integers_not_negative(tokens: Seq<TokenView>) -> bool {
    forall|k: int|
        0 <= k < tokens.len() ==> (#[trigger] tokens[k] matches TokenView::Integer(v) ==> v >= 0)
}

/// No entry of the reserved table is a literal or an identifier.
pub proof fn lemma_reserved_token_is_plain(s: Seq<char>)
    ensures
        reserved_token(s) matches Some(token) ==> !(token is Integer) && !(token is Identifier)
            && !(token is Float) && !(token is String) && !(token is Bool) && !(token is Char),
{
}

/// An operator or punctuation mark is no integer.
pub proof fn lemma_basic_token_is_no_integer(s: Seq<char>, len: nat)
    ensures
        lex_basic_upto(s, len) matches Some((token, _)) ==> !(token is Integer),
    decreases len,
{
    if len != 0 && len <= s.len() {
        lemma_reserved_token_is_plain(s.subrange(0, len as int));
        if reserved_token(s.subrange(0, len as int)) is None {
            lemma_basic_token_is_no_integer(s, (len - 1) as nat);
        }
    }
}

/// An integer token that is read from a text is not negative: a minus sign
/// is a token of its own.
pub proof fn lemma_integer_token_not_negative(s: Seq<char>)
    ensures
        lex_token(s) matches Some((TokenView::Integer(v), _)) ==> v >= 0,
{
    lemma_basic_token_is_no_integer(s, if s.len() < 8 { s.len() } else { 8 });
    if let Some((word, _)) = identifier(s) {
        lemma_reserved_token_is_plain(word);
    }
    let base = base_of(s);
    let start = base.spec_prefix_len() as int;
    let radix = base.spec_radix();
    if start <= s.len() {
        lemma_digits_end_bounds(s, start, radix);
        let end = digits_end(s, start, radix);
        let digits = s.subrange(start, end);
        lemma_digits_value_prefix(digits, digits.len() as int, radix);
        assert(digits.subrange(0, digits.len() as int) =~= digits);
    }
}

/// No integer token that the lexer gives is negative.
pub proof fn lemma_tokens_integers_not_negative(s: Seq<char>, i: int)
    ensures
        integers_not_negative(tokens_from(s, i)),
    decreases s.len() - i,
{
    if 0 <= i <= s.len() {
        lemma_trivia_end_bounds(s, i);
        let start = trivia_end(s, i);
        lemma_lex_token_bounds(s.subrange(start, s.len() as int));
        lemma_integer_token_not_negative(s.subrange(start, s.len() as int));
        match next_token(s, i) {
            (Some(token), _, end) => {
                lemma_tokens_integers_not_negative(s, end);
                let rest = tokens_from(s, end);
                let all = tokens_from(s, i);
                assert forall|k: int| 0 <= k < all.len() implies (#[trigger] all[k] matches TokenView::Integer(
                    v,
                ) ==> v >= 0) by {
                    if k > 0 {
                        assert(all[k] == rest[k - 1]);
                    }
                }
            },
            (None, _, _) => {},
        }
    }
}

/// A run of identifier characters in the first `n` characters of a text is
/// the run in the whole text, cut off at `n`.
pub proof fn lemma_ident_end_of_prefix(s: Seq<char>, i: int, n: int)
    requires
        0 <= i <= n <= s.len(),
    ensures
        ident_end(s.subrange(0, n), i) == (if ident_end(s, i) <= n {
            ident_end(s, i)
        } else {
            n
        }),
    decreases n - i,
{
    let p = s.subrange(0, n);
    lemma_ident_end_bounds(s, i);
    if i < n {
        assert(p[i] == s[i]);
        if is_ident_part(s[i]) {
            lemma_ident_end_of_prefix(s, i + 1, n);
        }
    }
}

/// A run of digits in the first `n` characters of a text is the run in the
/// whole text, cut off at `n`.
pub proof fn lemma_digits_end_of_prefix(s: Seq<char>, i: int, n: int, radix: int)
    requires
        0 <= i <= n <= s.len(),
    ensures
        digits_end(s.subrange(0, n), i, radix) == (if digits_end(s, i, radix) <= n {
            digits_end(s, i, radix)
        } else {
            n
        }),
    decreases n - i,
{
    let p = s.subrange(0, n);
    lemma_digits_end_bounds(s, i, radix);
    if i < n {
        assert(p[i] == s[i]);
        if digit_value(s[i]) < radix {
            lemma_digits_end_of_prefix(s, i + 1, n, radix);
        }
    }
}

/// A float literal at the start of the first `n` characters of a text
/// starts a float literal of the whole text; and the float literal of a
/// text is the float literal of its own characters.
pub proof fn lemma_float_of_prefix(s: Seq<char>, n: int)
    requires
        0 <= n <= s.len(),
    ensures
        float_literal(s.subrange(0, n)) is Some ==> float_literal(s) is Some,
        float_literal(s) matches Some((text, end)) ==> (end == n ==> float_literal(
            s.subrange(0, n),
        ) == Some((text, end))),
{
    let p = s.subrange(0, n);
    lemma_digits_end_bounds(s, 0, 10);
    lemma_digits_end_of_prefix(s, 0, n, 10);
    let dot = digits_end(s, 0, 10);
    if dot < n {
        assert(p[dot] == s[dot]);
        lemma_digits_end_bounds(s, dot + 1, 10);
        lemma_digits_end_of_prefix(s, dot + 1, n, 10);
        let end = digits_end(s, dot + 1, 10);
        if end == n {
            assert(p.subrange(0, end) =~= s.subrange(0, end));
        }
    }
}

/// The integer literal of a text is the integer literal of its own
/// characters.
pub proof fn lemma_int_of_its_lexeme(s: Seq<char>)
    ensures
        int_literal(s) matches Some((value, end)) ==> end <= s.len() && int_literal(
            s.subrange(0, end as int),
        ) == Some((value, end)),
{
    let base = base_of(s);
    let start = base.spec_prefix_len() as int;
    let radix = base.spec_radix();
    if int_literal(s) is Some {
        if start > s.len() {
            assert(digits_end(s, start, radix) == start);
        }
        lemma_digits_end_bounds(s, start, radix);
        let end = digits_end(s, start, radix);
        let p = s.subrange(0, end);
        if p.len() >= 2 {
            assert(p[0] == s[0] && p[1] == s[1]);
        }
        assert(base_of(p) == base);
        lemma_digits_end_of_prefix(s, start, end, radix);
        assert(p.subrange(start, end) =~= s.subrange(start, end));
    }
}

/// A character or escape that ends within the first `n` characters of a
/// text reads the same in those characters alone.
pub proof fn lemma_next_char_of_prefix(s: Seq<char>, i: int, n: int)
    requires
        0 <= n <= s.len(),
        next_char(s, i) matches Some((_, len)) && i + len <= n,
    ensures
        next_char(s.subrange(0, n), i) == next_char(s, i),
{
    let p = s.subrange(0, n);
    let len = next_char(s, i).unwrap().1;
    assert(p[i] == s[i]);
    if len >= 2 {
        assert(p[i + 1] == s[i + 1]);
    }
    if len == 4 {
        assert(p[i + 2] == s[i + 2]);
        assert(p[i + 3] == s[i + 3]);
    }
}

/// The rest of a string literal reads the same in its own characters
/// alone.
pub proof fn lemma_string_body_of_its_lexeme(s: Seq<char>, i: int, text: Seq<char>)
    requires
        0 <= i <= s.len(),
    ensures
        string_body(s, i, text) matches Some((all, end)) ==> end <= s.len() && string_body(
            s.subrange(0, end as int),
            i,
            text,
        ) == Some((all, end)),
    decreases s.len() - i,
{
    lemma_string_body_bounds(s, i, text);
    if let Some((all, end)) = string_body(s, i, text) {
        if let Some((c, len)) = next_char(s, i) {
            if c == '"' && len == 1 {
                lemma_next_char_of_prefix(s, i, end as int);
            } else {
                lemma_string_body_bounds(s, i + len, text.push(c));
                lemma_string_body_of_its_lexeme(s, i + len, text.push(c));
                lemma_next_char_of_prefix(s, i, end as int);
            }
        }
    }
}

/// No entry of the reserved table starts like a literal.
pub proof fn lemma_reserved_lexeme_is_no_literal(s: Seq<char>)
    requires
        reserved_token(s) is Some,
    ensures
        lex_literal(s) is None,
{
    lemma_reserved_first_char(s);
    assert(digits_end(s, 0, 10) == 0);
    if s[0] == '.' {
        assert(digits_end(s, 1, 10) == 1);
    }
}

/// The token that is read at the start of a text is the token that is read
/// from its own characters alone: what follows a token has no part in it.
pub proof fn lemma_token_of_its_lexeme(s: Seq<char>)
    ensures
        lex_token(s) matches Some((token, len)) ==> 1 <= len <= s.len() && lex_token(
            s.subrange(0, len as int),
        ) == Some((token, len)),
{
    lemma_lex_token_bounds(s);
    if let Some((token, len)) = lex_token(s) {
        let p = s.subrange(0, len as int);
        assert(p[0] == s[0]);
        if lex_identifier(s) is Some {
            lemma_ident_end_bounds(s, 1);
            lemma_ident_end_of_prefix(s, 1, len as int);
            assert(p.subrange(0, len as int) =~= s.subrange(0, len as int));
        } else if lex_literal(s) is Some {
            if float_literal(s) is Some {
                lemma_float_of_prefix(s, len as int);
            } else if int_literal(s) is Some {
                lemma_float_of_prefix(s, len as int);
                lemma_int_of_its_lexeme(s);
            } else {
                assert(digits_end(p, 0, 10) == 0);
                if string_literal(s) is Some {
                    lemma_string_body_of_its_lexeme(s, 1, Seq::empty());
                } else if char_literal(s) is Some {
                    let inner = next_char(s, 1).unwrap().1;
                    lemma_next_char_of_prefix(s, 1, len as int);
                    assert(p[1 + inner as int] == s[1 + inner as int]);
                } else if starts_with_true(s) {
                    assert(p[1] == s[1] && p[2] == s[2] && p[3] == s[3]);
                } else {
                    assert(p[1] == s[1] && p[2] == s[2] && p[3] == s[3] && p[4] == s[4]);
                }
            }
        } else {
            let upto: nat = if s.len() < 8 {
                s.len()
            } else {
                8
            };
            lemma_lex_basic_found(s, upto);
            assert(p.subrange(0, len as int) =~= p);
            assert(p =~= s.subrange(0, len as int));
            lemma_reserved_lexeme_is_no_literal(p);
            lemma_reserved_lexeme_len(p);
        }
    }
}

/// What the search for a reserved prefix finds is in the reserved table.
pub proof fn lemma_lex_basic_found(s: Seq<char>, len: nat)
    ensures
        lex_basic_upto(s, len) matches Some((token, n)) ==> 1 <= n <= len && n <= s.len()
            && reserved_token(s.subrange(0, n as int)) == Some(token),
    decreases len,
{
    if len != 0 && len <= s.len() && reserved_token(s.subrange(0, len as int)) is None {
        lemma_lex_basic_found(s, (len - 1) as nat);
    }
}

/// Whether a text is made of white space and comments only.
pub open spec fn is_trivia(text: Seq<char>) -> bool {
    trivia_end(text, 0) == text.len()
}

/// The search for a pattern that ends within a part of a text finds the
/// same place in that part alone.
pub proof fn lemma_match_end_in_part(s: Seq<char>, from: int, to: int, k: int, pattern: Seq<char>)
    requires
        0 <= from <= k <= s.len(),
        match_end(s, k, pattern) <= to <= s.len(),
    ensures
        match_end(s.subrange(from, to), k - from, pattern) == match_end(s, k, pattern) - from,
    decreases s.len() - k,
{
    let part = s.subrange(from, to);
    lemma_match_end_bounds(s, k, pattern);
    if k < s.len() {
        if occurs_at(s, k, pattern) {
            assert(part.subrange(k - from, k - from + pattern.len()) =~= s.subrange(
                k,
                k + pattern.len(),
            ));
        } else {
            lemma_match_end_bounds(s, k + 1, pattern);
            if occurs_at(part, k - from, pattern) {
                assert(part.subrange(k - from, k - from + pattern.len()) =~= s.subrange(
                    k,
                    k + pattern.len(),
                ));
            }
            lemma_match_end_in_part(s, from, to, k + 1, pattern);
        }
    }
}

/// From any place that the skipping of white space and comments passes,
/// the skipping goes the same way in the skipped text alone.
pub proof fn lemma_skipping_in_part(s: Seq<char>, from: int, k: int)
    requires
        0 <= from <= k <= s.len(),
        trivia_end(s, k) == trivia_end(s, from),
    ensures
        trivia_end(s.subrange(from, trivia_end(s, from)), k - from) == trivia_end(s, from) - from,
    decreases s.len() - k,
{
    let to = trivia_end(s, from);
    let part = s.subrange(from, to);
    lemma_trivia_end_bounds(s, k);
    if k < to {
        let line = line_comment_open();
        let block = block_comment_open();
        if occurs_at(s, k, line) {
            let m = match_end(s, k + 2, line_comment_close());
            lemma_match_end_bounds(s, k + 2, line_comment_close());
            lemma_trivia_end_bounds(s, m);
            assert(part.subrange(k - from, k - from + 2) =~= s.subrange(k, k + 2));
            lemma_match_end_in_part(s, from, to, k + 2, line_comment_close());
            lemma_skipping_in_part(s, from, m);
        } else if occurs_at(s, k, block) {
            let m = match_end(s, k + 2, block_comment_close());
            lemma_match_end_bounds(s, k + 2, block_comment_close());
            lemma_trivia_end_bounds(s, m);
            assert(part.subrange(k - from, k - from + 2) =~= s.subrange(k, k + 2));
            if occurs_at(part, k - from, line) {
                assert(part.subrange(k - from, k - from + 2) =~= s.subrange(k, k + 2));
            }
            lemma_match_end_in_part(s, from, to, k + 2, block_comment_close());
            lemma_skipping_in_part(s, from, m);
        } else {
            assert(part[k - from] == s[k]);
            if occurs_at(part, k - from, line) || occurs_at(part, k - from, block) {
                assert(part.subrange(k - from, k - from + 2) =~= s.subrange(k, k + 2));
            }
            assert(is_space(s[k]));
            lemma_skipping_in_part(s, from, k + 1);
        }
    }
}

/// What the lexer skips before a token is made of white space and comments
/// only.
pub proof fn lemma_skipped_is_trivia(s: Seq<char>, i: int)
    requires
        0 <= i <= s.len(),
    ensures
        is_trivia(s.subrange(i, trivia_end(s, i))),
{
    lemma_trivia_end_bounds(s, i);
    lemma_skipping_in_part(s, i, i);
}

} // verus!
