//! What the parsers share: the parse error and the check for repeated keys.
use vstd::prelude::*;
use crate::lexer::lexer::Lexer;
use crate::lexer::token::{Token, TokenView};

verus! {

/// Why a parse failed.
#[derive(Debug)]
pub enum ParseError {
    /// A token that cannot stand where it was found.
    UnexpectedToken(Token),
    /// The input ended where a token was needed.
    UnexpectedEOF(),
    /// Any other failure, with a message.
    Unknown(String),
}

/// The mathematical value of a [`ParseError`].
pub enum ParseErrorView {
    UnexpectedToken(TokenView),
    UnexpectedEOF,
    Unknown(Seq<char>),
}

impl View for ParseError {
    type V = ParseErrorView;

    open spec fn view(&self) -> ParseErrorView {
        match self {
            ParseError::UnexpectedToken(token) => ParseErrorView::UnexpectedToken(token@),
            ParseError::UnexpectedEOF() => ParseErrorView::UnexpectedEOF,
            ParseError::Unknown(message) => ParseErrorView::Unknown(message@),
        }
    }
}

impl Clone for ParseError {
    fn clone(&self) -> (r: Self)
        ensures
            r@ == self@,
    {
        match self {
            ParseError::UnexpectedToken(token) => ParseError::UnexpectedToken(token.clone()),
            ParseError::UnexpectedEOF() => ParseError::UnexpectedEOF(),
            ParseError::Unknown(message) => ParseError::Unknown(message.clone()),
        }
    }
}

/// What a parse gives in the model: its value or its error, and the number
/// of tokens that it used up. A failed parse may have used tokens up too.
pub struct Parsed<T> {
    pub value: Result<T, ParseErrorView>,
    pub used: nat,
}

/// The mathematical value of the result of a parse.
pub open spec fn outcome<T: DeepView>(r: Result<T, ParseError>) -> Result<T::V, ParseErrorView> {
    match r {
        Ok(value) => Ok(value.deep_view()),
        Err(e) => Err(e@),
    }
}

/// Whether a parser that returned `r` and took the lexer from `before` to
/// `after` did what the model `expected` says: the same value or error, the
/// same number of tokens used up, the tokens themselves unchanged.
pub open spec fn parses_as<T: DeepView>(
    r: Result<T, ParseError>,
    before: Lexer,
    after: Lexer,
    expected: Parsed<T::V>,
) -> bool {
    outcome(r) == expected.value && after.follows(before, expected.used)
}

/// The number of tokens of `tokens` from position `pos` on.
pub open spec fn tokens_left(tokens: Seq<TokenView>, pos: nat) -> nat {
    if pos <= tokens.len() {
        (tokens.len() - pos) as nat
    } else {
        0
    }
}

/// Whether two entries of a keyed list have the same key.
pub open spec fn has_duplicate_key<V>(entries: Seq<(Seq<char>, V)>) -> bool {
    exists|i: int, j: int| 0 <= i < j < entries.len() && entries[i].0 == entries[j].0
}

/// Whether a key occurs twice depends on the keys alone.
pub proof fn lemma_duplicate_key_by_keys<A, B>(a: Seq<(Seq<char>, A)>, b: Seq<(Seq<char>, B)>)
    requires
        a.len() == b.len(),
        forall|i: int| 0 <= i < a.len() ==> a[i].0 == b[i].0,
    ensures
        has_duplicate_key(a) == has_duplicate_key(b),
{
    if has_duplicate_key(a) {
        let (i, j) = choose|i: int, j: int| 0 <= i < j < a.len() && a[i].0 == a[j].0;
        assert(0 <= i < j < b.len() && b[i].0 == b[j].0);
    }
    if has_duplicate_key(b) {
        let (i, j) = choose|i: int, j: int| 0 <= i < j < b.len() && b[i].0 == b[j].0;
        assert(0 <= i < j < a.len() && a[i].0 == a[j].0);
    }
}

/// The error for a key that occurs twice.
pub open spec fn duplicate_key_error() -> ParseErrorView {
    ParseErrorView::Unknown("Duplicate key"@)
}

/// A keyed list with the keys as sequences of characters.
pub open spec fn keyed<T>(entries: Seq<(String, T)>) -> Seq<(Seq<char>, T)> {
    Seq::new(entries.len(), |i: int| (entries[i].0@, entries[i].1))
}

/// Accepts a keyed list as the fields of a record: the list itself, in its
/// order, if no key occurs twice, else the error `Unknown("Duplicate key")`.
pub fn build_hashmap_from_entries<T>(entries: Vec<(String, T)>) -> (r: Result<
    Vec<(String, T)>,
    ParseError,
>)
    ensures
        match r {
            Ok(fields) => !has_duplicate_key(keyed(entries@)) && fields == entries,
            Err(e) => has_duplicate_key(keyed(entries@)) && e@ == duplicate_key_error(),
        },
{
    let ghost keys = keyed(entries@);
    let mut j: usize = 0;
    while j < entries.len()
        invariant
            j <= entries.len(),
            keys == keyed(entries@),
            forall|a: int, b: int| 0 <= a < b < j ==> keys[a].0 != keys[b].0,
        decreases entries.len() - j,
    {
        let mut i: usize = 0;
        while i < j
            invariant
                i <= j < entries.len(),
                keys == keyed(entries@),
                forall|a: int| 0 <= a < i ==> keys[a].0 != keys[j as int].0,
            decreases j - i,
        {
            if entries[i].0 == entries[j].0 {
                assert(keys[i as int].0 == keys[j as int].0);
                return Err(ParseError::Unknown(String::from_str("Duplicate key")));
            }
            i += 1;
        }
        j += 1;
    }
    Ok(entries)
}

} // verus!
