//! The raw lexer: a cursor over the source text that yields one token at a
//! time, skipping white space and comments.
use vstd::prelude::*;
use vstd::slice::slice_subrange;
use crate::lexer::laws::{is_trivia, lemma_skipped_is_trivia};
use crate::lexer::token::{lemma_lex_token_bounds, lex_token, Token, TokenView};
use crate::text::chars_of;

verus! {

/// Whether `c` is ASCII white space: a space, a tab, a line feed, a form
/// feed or a carriage return.
pub open spec fn is_space(c: char) -> bool {
    c == ' ' || c == '\t' || c == '\n' || c == '\x0C' || c == '\r'
}

/// Whether `pattern` stands in `s` at position `i`.
pub open spec fn occurs_at(s: Seq<char>, i: int, pattern: Seq<char>) -> bool {
    0 <= i && i + pattern.len() <= s.len() && s.subrange(i, i + pattern.len()) == pattern
}

/// The position just after the first occurrence of `pattern` in `s` at or
/// after `i`; the end of `s` if there is none.
pub open spec fn match_end(s: Seq<char>, i: int, pattern: Seq<char>) -> int
    decreases s.len() - i,
{
    if !(0 <= i < s.len()) {
        s.len() as int
    } else if occurs_at(s, i, pattern) {
        i + pattern.len()
    } else {
        match_end(s, i + 1, pattern)
    }
}

/// A search that starts inside `s` ends inside `s`, no earlier than it
/// started.
pub proof fn lemma_match_end_bounds(s: Seq<char>, i: int, pattern: Seq<char>)
    requires
        0 <= i <= s.len(),
    ensures
        i <= match_end(s, i, pattern) <= s.len(),
    decreases s.len() - i,
{
    if i < s.len() && !occurs_at(s, i, pattern) {
        lemma_match_end_bounds(s, i + 1, pattern);
    }
}

/// The two characters that open a line comment.
pub open spec fn line_comment_open() -> Seq<char> {
    seq!['/', '/']
}

/// The character that closes a line comment.
pub open spec fn line_comment_close() -> Seq<char> {
    seq!['\n']
}

/// The two characters that open a block comment.
pub open spec fn block_comment_open() -> Seq<char> {
    seq!['/', '*']
}

/// The two characters that close a block comment.
pub open spec fn block_comment_close() -> Seq<char> {
    seq!['*', '/']
}

/// The position of the first character of `s` at or after `i` that is
/// neither white space nor part of a comment; the end of `s` if there is
/// none. A line comment runs from `//` to the end of the line, a block
/// comment from `/*` to the next `*/`; a comment that is not closed runs to
/// the end of `s`.
pub open spec fn trivia_end(s: Seq<char>, i: int) -> int
    decreases s.len() - i,
{
    if !(0 <= i < s.len()) {
        i
    } else if occurs_at(s, i, line_comment_open()) {
        proof {
            lemma_match_end_bounds(s, i + 2, line_comment_close());
        }
        trivia_end(s, match_end(s, i + 2, line_comment_close()))
    } else if occurs_at(s, i, block_comment_open()) {
        proof {
            lemma_match_end_bounds(s, i + 2, block_comment_close());
        }
        trivia_end(s, match_end(s, i + 2, block_comment_close()))
    } else if is_space(s[i]) {
        trivia_end(s, i + 1)
    } else {
        i
    }
}

/// Skipping white space and comments from inside `s` ends inside `s`, no
/// earlier than it started.
pub proof fn lemma_trivia_end_bounds(s: Seq<char>, i: int)
    requires
        0 <= i <= s.len(),
    ensures
        i <= trivia_end(s, i) <= s.len(),
    decreases s.len() - i,
{
    if i < s.len() {
        if occurs_at(s, i, line_comment_open()) {
            lemma_match_end_bounds(s, i + 2, line_comment_close());
            lemma_trivia_end_bounds(s, match_end(s, i + 2, line_comment_close()));
        } else if occurs_at(s, i, block_comment_open()) {
            lemma_match_end_bounds(s, i + 2, block_comment_close());
            lemma_trivia_end_bounds(s, match_end(s, i + 2, block_comment_close()));
        } else if is_space(s[i]) {
            lemma_trivia_end_bounds(s, i + 1);
        }
    }
}

/// The next token of `s` at or after `i`, with the position where it starts
/// and the position where it ends: white space and comments are skipped,
/// then one token is read. Where no token follows, the token is `None` and
/// both positions are where the skipping stopped.
pub open spec fn next_token(s: Seq<char>, i: int) -> (Option<TokenView>, int, int) {
    let start = trivia_end(s, i);
    match lex_token(s.subrange(start, s.len() as int)) {
        Some((token, len)) => (Some(token), start, start + len),
        None => (None, start, start),
    }
}

/// All the tokens of `s` from position `i` on, up to the end of `s` or to
/// the first place where no token can be read.
pub open spec fn tokens_from(s: Seq<char>, i: int) -> Seq<TokenView>
    decreases s.len() - i,
{
    if !(0 <= i <= s.len()) {
        Seq::empty()
    } else {
        proof {
            lemma_trivia_end_bounds(s, i);
            lemma_lex_token_bounds(s.subrange(trivia_end(s, i), s.len() as int));
        }
        match next_token(s, i) {
            (Some(token), _, end) => seq![token] + tokens_from(s, end),
            (None, _, _) => Seq::empty(),
        }
    }
}

/// All the tokens of a source text.
pub open spec fn tokenize(s: Seq<char>) -> Seq<TokenView> {
    tokens_from(s, 0)
}

/// A cursor over a source text.
pub struct RawLexer {
    input: Vec<char>,
    index: usize,
}

impl RawLexer {
    #[verifier::type_invariant]
    spec fn well_formed(&self) -> bool {
        self.index <= self.input@.len()
    }

    /// The source text.
    pub closed spec fn input(&self) -> Seq<char> {
        self.input@
    }

    /// The position of the cursor in the source text, in characters.
    pub closed spec fn index(&self) -> int {
        self.index as int
    }

    /// A cursor at the start of `input`.
    pub fn new(input: &str) -> (r: Self)
        ensures
            r.input() == input@,
            r.index() == 0,
    {
        Self { input: chars_of(input), index: 0 }
    }

    /// Whether `pattern` stands at the cursor.
    fn looking_at(&self, pattern: &[char]) -> (r: bool)
        ensures
            r == occurs_at(self.input(), self.index(), pattern@),
    {
        proof {
            use_type_invariant(self);
        }
        if pattern.len() > self.input.len() - self.index {
            return false;
        }
        let mut k: usize = 0;
        while k < pattern.len()
            invariant
                k <= pattern@.len(),
                self.index + pattern@.len() <= self.input.len(),
                forall|j: int| 0 <= j < k ==> self.input@[self.index + j] == pattern@[j],
            decreases pattern@.len() - k,
        {
            if self.input[self.index + k] != pattern[k] {
                assert(self.input@.subrange(
                    self.index as int,
                    self.index + pattern@.len(),
                )[k as int] != pattern@[k as int]);
                return false;
            }
            k += 1;
        }
        assert(self.input@.subrange(self.index as int, self.index + pattern@.len()) =~= pattern@);
        true
    }

    /// Moves the cursor just past the next occurrence of `pattern`, or to
    /// the end of the text if there is none.
    pub fn consume_until_match(&mut self, pattern: &str)
        ensures
            final(self).input() == old(self).input(),
            final(self).index() == match_end(old(self).input(), old(self).index(), pattern@),
    {
        let chars = chars_of(pattern);
        self.skip_past(chars.as_slice());
    }

    /// Moves the cursor just past the next occurrence of `pattern`, or to
    /// the end of the text if there is none.
    pub fn skip_past(&mut self, pattern: &[char])
        ensures
            final(self).input() == old(self).input(),
            final(self).index() == match_end(old(self).input(), old(self).index(), pattern@),
    {
        proof {
            use_type_invariant(&*self);
        }
        loop
            invariant
                self.input@ == old(self).input@,
                self.index <= self.input@.len(),
                match_end(old(self).input(), old(self).index(), pattern@) == match_end(
                    self.input@,
                    self.index as int,
                    pattern@,
                ),
            decreases self.input@.len() - self.index,
        {
            if self.index >= self.input.len() {
                return ;
            }
            if self.looking_at(pattern) {
                self.index += pattern.len();
                return ;
            }
            self.index += 1;
        }
    }

    /// Moves the cursor past white space and comments, to the start of the
    /// next token or to the end of the text.
    pub fn consume_till_next_token(&mut self)
        ensures
            final(self).input() == old(self).input(),
            final(self).index() == trivia_end(old(self).input(), old(self).index()),
    {
        proof {
            use_type_invariant(&*self);
        }
        let line_open: Vec<char> = vec!['/', '/'];
        let line_close: Vec<char> = vec!['\n'];
        let block_open: Vec<char> = vec!['/', '*'];
        let block_close: Vec<char> = vec!['*', '/'];
        assert(line_open@ =~= line_comment_open());
        assert(line_close@ =~= line_comment_close());
        assert(block_open@ =~= block_comment_open());
        assert(block_close@ =~= block_comment_close());
        loop
            invariant
                self.input@ == old(self).input@,
                self.index <= self.input@.len(),
                line_open@ == line_comment_open(),
                line_close@ == line_comment_close(),
                block_open@ == block_comment_open(),
                block_close@ == block_comment_close(),
                trivia_end(old(self).input(), old(self).index()) == trivia_end(
                    self.input@,
                    self.index as int,
                ),
            decreases self.input@.len() - self.index,
        {
            if self.index >= self.input.len() {
                return ;
            }
            if self.looking_at(line_open.as_slice()) {
                proof {
                    lemma_match_end_bounds(self.input@, self.index + 2, line_comment_close());
                }
                self.index += 2;
                self.skip_past(line_close.as_slice());
                proof {
                    use_type_invariant(&*self);
                }
                continue ;
            }
            if self.looking_at(block_open.as_slice()) {
                proof {
                    lemma_match_end_bounds(self.input@, self.index + 2, block_comment_close());
                }
                self.index += 2;
                self.skip_past(block_close.as_slice());
                proof {
                    use_type_invariant(&*self);
                }
                continue ;
            }
            let c = self.input[self.index];
            if c == ' ' || c == '\t' || c == '\n' || c == '\x0C' || c == '\r' {
                self.index += 1;
                continue ;
            }
            return ;
        }
    }

    /// Reads the next token and moves the cursor past it. `None` at the end
    /// of the text and where no token can be read; the cursor then stays
    /// where the skipping of white space and comments stopped.
    ///
    /// What the cursor passes is first white space and comments only, and
    /// then the text of the token, from which alone the token is read.
    pub fn next(&mut self) -> (r: Option<Token>)
        ensures
            final(self).input() == old(self).input(),
            0 <= old(self).index() <= final(self).index() <= final(self).input().len(),
            ({
                let (token, start, end) = next_token(old(self).input(), old(self).index());
                &&& final(self).index() == end
                &&& old(self).index() <= start <= end
                &&& is_trivia(old(self).input().subrange(old(self).index(), start))
                &&& match r {
                    Some(t) => {
                        &&& token == Some(t@)
                        &&& start < end
                        &&& lex_token(old(self).input().subrange(start, end)) == Some(
                            (t@, (end - start) as nat),
                        )
                    },
                    None => token is None,
                }
            }),
    {
        proof {
            use_type_invariant(&*self);
            lemma_trivia_end_bounds(self.input@, self.index as int);
            lemma_skipped_is_trivia(self.input@, self.index as int);
        }
        self.consume_till_next_token();
        proof {
            use_type_invariant(&*self);
        }
        let view = slice_subrange(self.input.as_slice(), self.index, self.input.len());
        match Token::scan(view) {
            Some((token, len)) => {
                assert(view@.subrange(0, len as int) =~= self.input@.subrange(
                    self.index as int,
                    self.index + len,
                ));
                self.index += len;
                Some(token)
            },
            None => None,
        }
    }
}

} // verus!
