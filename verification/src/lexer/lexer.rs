//! The lexer proper: the tokens of a source text behind a cursor that can
//! look at the next token without taking it.
use vstd::prelude::*;
use crate::lexer::laws::{integers_not_negative, lemma_tokens_integers_not_negative};
use crate::lexer::raw_lexer::{tokens_from, tokenize, trivia_end, RawLexer};
use crate::lexer::token::{lemma_lex_token_bounds, Token, TokenView};
use crate::parser::helpers::{outcome, ParseError, ParseErrorView, Parsed};

verus! {

/// The token at position `pos` of `tokens`, `None` past the end.
pub open spec fn token_at(tokens: Seq<TokenView>, pos: nat) -> Option<TokenView> {
    if pos < tokens.len() {
        Some(tokens[pos as int])
    } else {
        None
    }
}

/// Taking the next token: it is used up if there is one; the end of the
/// input is an error.
pub open spec fn expect_next(tokens: Seq<TokenView>, pos: nat) -> Parsed<TokenView> {
    match token_at(tokens, pos) {
        Some(token) => Parsed { value: Ok(token), used: 1 },
        None => Parsed { value: Err(ParseErrorView::UnexpectedEOF), used: 0 },
    }
}

/// Taking the token `want`: it is used up if it is next; any other token is
/// an error that names it and uses nothing up.
pub open spec fn expect_token(tokens: Seq<TokenView>, pos: nat, want: TokenView) -> Parsed<
    TokenView,
> {
    match token_at(tokens, pos) {
        Some(token) => if token == want {
            Parsed { value: Ok(token), used: 1 }
        } else {
            Parsed { value: Err(ParseErrorView::UnexpectedToken(token)), used: 0 }
        },
        None => Parsed { value: Err(ParseErrorView::UnexpectedEOF), used: 0 },
    }
}

/// Taking an identifier, as its name.
pub open spec fn expect_ident(tokens: Seq<TokenView>, pos: nat) -> Parsed<Seq<char>> {
    match token_at(tokens, pos) {
        Some(TokenView::Identifier(name)) => Parsed { value: Ok(name), used: 1 },
        Some(token) => Parsed { value: Err(ParseErrorView::UnexpectedToken(token)), used: 0 },
        None => Parsed { value: Err(ParseErrorView::UnexpectedEOF), used: 0 },
    }
}

/// Taking a string literal, as the text it denotes.
pub open spec fn expect_string(tokens: Seq<TokenView>, pos: nat) -> Parsed<Seq<char>> {
    match token_at(tokens, pos) {
        Some(TokenView::String(text)) => Parsed { value: Ok(text), used: 1 },
        Some(token) => Parsed { value: Err(ParseErrorView::UnexpectedToken(token)), used: 0 },
        None => Parsed { value: Err(ParseErrorView::UnexpectedEOF), used: 0 },
    }
}

/// Taking an integer literal, as its value.
pub open spec fn expect_int(tokens: Seq<TokenView>, pos: nat) -> Parsed<i64> {
    match token_at(tokens, pos) {
        Some(TokenView::Integer(value)) => Parsed { value: Ok(value), used: 1 },
        Some(token) => Parsed { value: Err(ParseErrorView::UnexpectedToken(token)), used: 0 },
        None => Parsed { value: Err(ParseErrorView::UnexpectedEOF), used: 0 },
    }
}

/// Taking a float literal, as its text.
pub open spec fn expect_float(tokens: Seq<TokenView>, pos: nat) -> Parsed<Seq<char>> {
    match token_at(tokens, pos) {
        Some(TokenView::Float(text)) => Parsed { value: Ok(text), used: 1 },
        Some(token) => Parsed { value: Err(ParseErrorView::UnexpectedToken(token)), used: 0 },
        None => Parsed { value: Err(ParseErrorView::UnexpectedEOF), used: 0 },
    }
}

/// Taking a character literal, as its character.
pub open spec fn expect_char(tokens: Seq<TokenView>, pos: nat) -> Parsed<char> {
    match token_at(tokens, pos) {
        Some(TokenView::Char(c)) => Parsed { value: Ok(c), used: 1 },
        Some(token) => Parsed { value: Err(ParseErrorView::UnexpectedToken(token)), used: 0 },
        None => Parsed { value: Err(ParseErrorView::UnexpectedEOF), used: 0 },
    }
}

/// Taking a boolean literal, as its value.
pub open spec fn expect_bool(tokens: Seq<TokenView>, pos: nat) -> Parsed<bool> {
    match token_at(tokens, pos) {
        Some(TokenView::Bool(b)) => Parsed { value: Ok(b), used: 1 },
        Some(token) => Parsed { value: Err(ParseErrorView::UnexpectedToken(token)), used: 0 },
        None => Parsed { value: Err(ParseErrorView::UnexpectedEOF), used: 0 },
    }
}

/// The tokens of a source text, with a cursor.
///
/// The text is cut into tokens when the lexer is made; the cursor then
/// moves over them, so that looking ahead costs nothing.
pub struct Lexer {
    tokens: Vec<Token>,
    pos: usize,
}

impl Lexer {
    #[verifier::type_invariant]
    spec fn well_formed(&self) -> bool {
        self.pos <= self.tokens@.len() && integers_not_negative(self.tokens.deep_view())
    }

    /// All the tokens of the source text, those already taken included.
    pub closed spec fn tokens(&self) -> Seq<TokenView> {
        self.tokens.deep_view()
    }

    /// The number of tokens already taken.
    pub closed spec fn pos(&self) -> nat {
        self.pos as nat
    }

    /// The number of tokens still to be taken.
    pub open spec fn remaining(&self) -> nat {
        if self.pos() <= self.tokens().len() {
            (self.tokens().len() - self.pos()) as nat
        } else {
            0
        }
    }

    /// The next token, if there is one.
    pub open spec fn spec_peek(&self) -> Option<TokenView> {
        token_at(self.tokens(), self.pos())
    }

    /// Whether this lexer is `before` after `used` more tokens were taken.
    pub open spec fn follows(&self, before: Lexer, used: nat) -> bool {
        &&& self.tokens() == before.tokens()
        &&& self.pos() == before.pos() + used
        &&& self.pos() <= self.tokens().len()
        &&& integers_not_negative(self.tokens())
    }

    /// Cuts `input` into tokens, up to its end or to the first place where
    /// no token can be read, and puts the cursor before the first.
    pub fn new(input: &str) -> (r: Self)
        ensures
            r.tokens() == tokenize(input@),
            r.pos() == 0,
            integers_not_negative(r.tokens()),
    {
        let mut raw = RawLexer::new(input);
        let mut tokens: Vec<Token> = Vec::new();
        loop
            invariant
                raw.input() == input@,
                0 <= raw.index() <= input@.len(),
                tokenize(input@) == tokens.deep_view() + tokens_from(input@, raw.index()),
            decreases input@.len() - raw.index(),
        {
            let ghost before = tokens.deep_view();
            let ghost at = raw.index();
            match raw.next() {
                Some(token) => {
                    tokens.push(token);
                    assert(tokens.deep_view() =~= before + seq![token@]);
                    assert(tokens.deep_view() + tokens_from(input@, raw.index()) =~= before
                        + tokens_from(input@, at));
                    proof {
                        lemma_lex_token_bounds(
                            input@.subrange(trivia_end(input@, at), input@.len() as int),
                        );
                    }
                },
                None => {
                    assert(tokens.deep_view() + tokens_from(input@, at) =~= tokens.deep_view());
                    proof {
                        lemma_tokens_integers_not_negative(input@, 0);
                    }
                    return Lexer { tokens, pos: 0 };
                },
            }
        }
    }

    /// Looks at the next token without taking it.
    pub fn peek(&self) -> (r: Option<&Token>)
        ensures
            r.deep_view() == self.spec_peek(),
            self.pos() <= self.tokens().len(),
            integers_not_negative(self.tokens()),
    {
        proof {
            use_type_invariant(self);
        }
        if self.pos < self.tokens.len() {
            Some(&self.tokens[self.pos])
        } else {
            None
        }
    }

    /// Looks at the token that is `offset` tokens after the next one,
    /// without taking any.
    pub fn peek_at(&self, offset: usize) -> (r: Option<&Token>)
        ensures
            r.deep_view() == token_at(self.tokens(), self.pos() + offset as nat),
            self.pos() <= self.tokens().len(),
            integers_not_negative(self.tokens()),
    {
        proof {
            use_type_invariant(self);
        }
        if offset < self.tokens.len() - self.pos {
            Some(&self.tokens[self.pos + offset])
        } else {
            None
        }
    }

    /// Takes the next token, if there is one.
    pub fn next(&mut self) -> (r: Option<Token>)
        ensures
            r.deep_view() == old(self).spec_peek(),
            final(self).follows(*old(self), if r is Some { 1nat } else { 0nat }),
    {
        proof {
            use_type_invariant(&*self);
        }
        if self.pos < self.tokens.len() {
            let token = self.tokens[self.pos].clone();
            self.pos += 1;
            Some(token)
        } else {
            None
        }
    }

    /// Takes the next token if it is `token`; any other token is left in
    /// place and named in the error.
    pub fn parse_token(&mut self, token: &Token) -> (r: Result<Token, ParseError>)
        ensures
            outcome(r) == expect_token(old(self).tokens(), old(self).pos(), token@).value,
            final(self).follows(
                *old(self),
                expect_token(old(self).tokens(), old(self).pos(), token@).used,
            ),
    {
        proof {
            use_type_invariant(&*self);
        }
        if self.pos < self.tokens.len() {
            let found = self.tokens[self.pos].clone();
            if found == *token {
                self.pos += 1;
                Ok(found)
            } else {
                Err(ParseError::UnexpectedToken(found))
            }
        } else {
            Err(ParseError::UnexpectedEOF())
        }
    }

    /// Takes the next token; the end of the input is an error.
    pub fn expect_next(&mut self) -> (r: Result<Token, ParseError>)
        ensures
            outcome(r) == expect_next(old(self).tokens(), old(self).pos()).value,
            final(self).follows(*old(self), expect_next(old(self).tokens(), old(self).pos()).used),
    {
        proof {
            use_type_invariant(&*self);
        }
        if self.pos < self.tokens.len() {
            let found = self.tokens[self.pos].clone();
            self.pos += 1;
            Ok(found)
        } else {
            Err(ParseError::UnexpectedEOF())
        }
    }

    /// Looks at the next token; the end of the input is an error.
    pub fn expect_peek(&self) -> (r: Result<&Token, ParseError>)
        ensures
            self.pos() <= self.tokens().len(),
            integers_not_negative(self.tokens()),
            match r {
                Ok(token) => self.spec_peek() == Some(token@),
                Err(e) => self.spec_peek() is None && e@ == ParseErrorView::UnexpectedEOF,
            },
    {
        proof {
            use_type_invariant(self);
        }
        if self.pos < self.tokens.len() {
            Ok(&self.tokens[self.pos])
        } else {
            Err(ParseError::UnexpectedEOF())
        }
    }

    /// Takes an identifier and returns its name.
    pub fn parse_ident(&mut self) -> (r: Result<String, ParseError>)
        ensures
            outcome(r) == expect_ident(old(self).tokens(), old(self).pos()).value,
            final(self).follows(*old(self), expect_ident(old(self).tokens(), old(self).pos()).used),
    {
        proof {
            use_type_invariant(&*self);
        }
        if self.pos < self.tokens.len() {
            match &self.tokens[self.pos] {
                Token::Identifier(name) => {
                    let name = name.clone();
                    self.pos += 1;
                    Ok(name)
                },
                other => Err(ParseError::UnexpectedToken(other.clone())),
            }
        } else {
            Err(ParseError::UnexpectedEOF())
        }
    }

    /// Takes a string literal and returns the text it denotes.
    pub fn parse_string(&mut self) -> (r: Result<String, ParseError>)
        ensures
            outcome(r) == expect_string(old(self).tokens(), old(self).pos()).value,
            final(self).follows(
                *old(self),
                expect_string(old(self).tokens(), old(self).pos()).used,
            ),
    {
        proof {
            use_type_invariant(&*self);
        }
        if self.pos < self.tokens.len() {
            match &self.tokens[self.pos] {
                Token::String(text) => {
                    let text = text.clone();
                    self.pos += 1;
                    Ok(text)
                },
                other => Err(ParseError::UnexpectedToken(other.clone())),
            }
        } else {
            Err(ParseError::UnexpectedEOF())
        }
    }

    /// Takes an integer literal and returns its value.
    pub fn parse_int(&mut self) -> (r: Result<i64, ParseError>)
        ensures
            outcome(r) == expect_int(old(self).tokens(), old(self).pos()).value,
            final(self).follows(*old(self), expect_int(old(self).tokens(), old(self).pos()).used),
            r matches Ok(value) ==> value >= 0,
    {
        proof {
            use_type_invariant(&*self);
        }
        if self.pos < self.tokens.len() {
            match &self.tokens[self.pos] {
                Token::Integer(value) => {
                    let value = *value;
                    self.pos += 1;
                    Ok(value)
                },
                other => Err(ParseError::UnexpectedToken(other.clone())),
            }
        } else {
            Err(ParseError::UnexpectedEOF())
        }
    }

    /// Takes a float literal and returns its text.
    pub fn parse_float(&mut self) -> (r: Result<String, ParseError>)
        ensures
            outcome(r) == expect_float(old(self).tokens(), old(self).pos()).value,
            final(self).follows(*old(self), expect_float(old(self).tokens(), old(self).pos()).used),
    {
        proof {
            use_type_invariant(&*self);
        }
        if self.pos < self.tokens.len() {
            match &self.tokens[self.pos] {
                Token::Float(text) => {
                    let text = text.clone();
                    self.pos += 1;
                    Ok(text)
                },
                other => Err(ParseError::UnexpectedToken(other.clone())),
            }
        } else {
            Err(ParseError::UnexpectedEOF())
        }
    }

    /// Takes a character literal and returns its character.
    pub fn parse_char(&mut self) -> (r: Result<char, ParseError>)
        ensures
            outcome(r) == expect_char(old(self).tokens(), old(self).pos()).value,
            final(self).follows(*old(self), expect_char(old(self).tokens(), old(self).pos()).used),
    {
        proof {
            use_type_invariant(&*self);
        }
        if self.pos < self.tokens.len() {
            match &self.tokens[self.pos] {
                Token::Char(c) => {
                    let c = *c;
                    self.pos += 1;
                    Ok(c)
                },
                other => Err(ParseError::UnexpectedToken(other.clone())),
            }
        } else {
            Err(ParseError::UnexpectedEOF())
        }
    }

    /// Takes a boolean literal and returns its value.
    pub fn parse_bool(&mut self) -> (r: Result<bool, ParseError>)
        ensures
            outcome(r) == expect_bool(old(self).tokens(), old(self).pos()).value,
            final(self).follows(*old(self), expect_bool(old(self).tokens(), old(self).pos()).used),
    {
        proof {
            use_type_invariant(&*self);
        }
        if self.pos < self.tokens.len() {
            match &self.tokens[self.pos] {
                Token::Bool(b) => {
                    let b = *b;
                    self.pos += 1;
                    Ok(b)
                },
                other => Err(ParseError::UnexpectedToken(other.clone())),
            }
        } else {
            Err(ParseError::UnexpectedEOF())
        }
    }
}

} // verus!
