//! The token model: every kind of token, and the table of reserved words,
//! operators and punctuation.
use vstd::prelude::*;
use vstd::std_specs::cmp::PartialEqSpecImpl;
use crate::lexer::identifier::{identifier, identifier_len, lemma_ident_end_bounds};
use crate::lexer::literal::{
    base_of, char_literal, digit_value, digits_end, float_literal, int_literal,
    lemma_digits_end_bounds,
    next_char, scan_char_literal, scan_float_literal, scan_int_literal, scan_string_literal,
    string_body, string_literal,
};
use crate::lexer::laws::lemma_token_of_its_lexeme;
use crate::text::{chars_of, str_eq, string_of};

verus! {

/// A token of the source language.
///
/// The words `true` and `false` are the boolean literals. A float literal
/// carries its decimal text (digits, a dot, digits): turning
/// that text into a binary floating-point number is left to the caller.
#[derive(Debug)]
pub enum Token {
    Identifier(String),
    // Literals
    Integer(i64),
    Float(String),
    String(String),
    Bool(bool),
    Char(char),
    // Misc keywords
    Import,
    As,
    From,
    Let,
    Yeet,
    Null,
    // Control flow
    If,
    Else,
    While,
    For,
    Return,
    Break,
    Continue,
    Loop,
    // Built-in types
    Type,
    IntType,
    FloatType,
    StringType,
    BoolType,
    CharType,
    VoidType,
    // Assignment
    Assign,
    // Arithmetic
    Add,
    Sub,
    Div,
    Mul,
    AddAssign,
    SubAssign,
    DivAssign,
    MulAssign,
    Mod,
    // Comparison
    Equal,
    GreaterEqual,
    GreaterThan,
    LessEqual,
    LessThan,
    // Logical
    And,
    Or,
    Not,
    // Punctuation
    LParen,
    RParen,
    LBracket,
    RBracket,
    LBrace,
    RBrace,
    Comma,
    Semicolon,
    Colon,
    Dot,
    Ref,
    FuncArrow,
}

/// The mathematical value of a [`Token`]: the same variants, with sequences
/// of characters in place of strings.
pub enum TokenView {
    Identifier(Seq<char>),
    Integer(i64),
    Float(Seq<char>),
    String(Seq<char>),
    Bool(bool),
    Char(char),
    Import,
    As,
    From,
    Let,
    Yeet,
    Null,
    If,
    Else,
    While,
    For,
    Return,
    Break,
    Continue,
    Loop,
    Type,
    IntType,
    FloatType,
    StringType,
    BoolType,
    CharType,
    VoidType,
    Assign,
    Add,
    Sub,
    Div,
    Mul,
    AddAssign,
    SubAssign,
    DivAssign,
    MulAssign,
    Mod,
    Equal,
    GreaterEqual,
    GreaterThan,
    LessEqual,
    LessThan,
    And,
    Or,
    Not,
    LParen,
    RParen,
    LBracket,
    RBracket,
    LBrace,
    RBrace,
    Comma,
    Semicolon,
    Colon,
    Dot,
    Ref,
    FuncArrow,
}

impl View for Token {
    type V = TokenView;

    open spec fn view(&self) -> TokenView {
        match self {
            Token::Identifier(s) => TokenView::Identifier(s@),
            Token::Integer(v) => TokenView::Integer(*v),
            Token::Float(s) => TokenView::Float(s@),
            Token::String(s) => TokenView::String(s@),
            Token::Bool(b) => TokenView::Bool(*b),
            Token::Char(c) => TokenView::Char(*c),
            Token::Import => TokenView::Import,
            Token::As => TokenView::As,
            Token::From => TokenView::From,
            Token::Let => TokenView::Let,
            Token::Yeet => TokenView::Yeet,
            Token::Null => TokenView::Null,
            Token::If => TokenView::If,
            Token::Else => TokenView::Else,
            Token::While => TokenView::While,
            Token::For => TokenView::For,
            Token::Return => TokenView::Return,
            Token::Break => TokenView::Break,
            Token::Continue => TokenView::Continue,
            Token::Loop => TokenView::Loop,
            Token::Type => TokenView::Type,
            Token::IntType => TokenView::IntType,
            Token::FloatType => TokenView::FloatType,
            Token::StringType => TokenView::StringType,
            Token::BoolType => TokenView::BoolType,
            Token::CharType => TokenView::CharType,
            Token::VoidType => TokenView::VoidType,
            Token::Assign => TokenView::Assign,
            Token::Add => TokenView::Add,
            Token::Sub => TokenView::Sub,
            Token::Div => TokenView::Div,
            Token::Mul => TokenView::Mul,
            Token::AddAssign => TokenView::AddAssign,
            Token::SubAssign => TokenView::SubAssign,
            Token::DivAssign => TokenView::DivAssign,
            Token::MulAssign => TokenView::MulAssign,
            Token::Mod => TokenView::Mod,
            Token::Equal => TokenView::Equal,
            Token::GreaterEqual => TokenView::GreaterEqual,
            Token::GreaterThan => TokenView::GreaterThan,
            Token::LessEqual => TokenView::LessEqual,
            Token::LessThan => TokenView::LessThan,
            Token::And => TokenView::And,
            Token::Or => TokenView::Or,
            Token::Not => TokenView::Not,
            Token::LParen => TokenView::LParen,
            Token::RParen => TokenView::RParen,
            Token::LBracket => TokenView::LBracket,
            Token::RBracket => TokenView::RBracket,
            Token::LBrace => TokenView::LBrace,
            Token::RBrace => TokenView::RBrace,
            Token::Comma => TokenView::Comma,
            Token::Semicolon => TokenView::Semicolon,
            Token::Colon => TokenView::Colon,
            Token::Dot => TokenView::Dot,
            Token::Ref => TokenView::Ref,
            Token::FuncArrow => TokenView::FuncArrow,
        }
    }
}

impl DeepView for Token {
    type V = TokenView;

    open spec fn deep_view(&self) -> TokenView {
        self@
    }
}

impl Clone for Token {
    fn clone(&self) -> (r: Self)
        ensures
            r@ == self@,
    {
        match self {
            Token::Identifier(s) => Token::Identifier(s.clone()),
            Token::Integer(v) => Token::Integer(*v),
            Token::Float(s) => Token::Float(s.clone()),
            Token::String(s) => Token::String(s.clone()),
            Token::Bool(b) => Token::Bool(*b),
            Token::Char(c) => Token::Char(*c),
            Token::Import => Token::Import,
            Token::As => Token::As,
            Token::From => Token::From,
            Token::Let => Token::Let,
            Token::Yeet => Token::Yeet,
            Token::Null => Token::Null,
            Token::If => Token::If,
            Token::Else => Token::Else,
            Token::While => Token::While,
            Token::For => Token::For,
            Token::Return => Token::Return,
            Token::Break => Token::Break,
            Token::Continue => Token::Continue,
            Token::Loop => Token::Loop,
            Token::Type => Token::Type,
            Token::IntType => Token::IntType,
            Token::FloatType => Token::FloatType,
            Token::StringType => Token::StringType,
            Token::BoolType => Token::BoolType,
            Token::CharType => Token::CharType,
            Token::VoidType => Token::VoidType,
            Token::Assign => Token::Assign,
            Token::Add => Token::Add,
            Token::Sub => Token::Sub,
            Token::Div => Token::Div,
            Token::Mul => Token::Mul,
            Token::AddAssign => Token::AddAssign,
            Token::SubAssign => Token::SubAssign,
            Token::DivAssign => Token::DivAssign,
            Token::MulAssign => Token::MulAssign,
            Token::Mod => Token::Mod,
            Token::Equal => Token::Equal,
            Token::GreaterEqual => Token::GreaterEqual,
            Token::GreaterThan => Token::GreaterThan,
            Token::LessEqual => Token::LessEqual,
            Token::LessThan => Token::LessThan,
            Token::And => Token::And,
            Token::Or => Token::Or,
            Token::Not => Token::Not,
            Token::LParen => Token::LParen,
            Token::RParen => Token::RParen,
            Token::LBracket => Token::LBracket,
            Token::RBracket => Token::RBracket,
            Token::LBrace => Token::LBrace,
            Token::RBrace => Token::RBrace,
            Token::Comma => Token::Comma,
            Token::Semicolon => Token::Semicolon,
            Token::Colon => Token::Colon,
            Token::Dot => Token::Dot,
            Token::Ref => Token::Ref,
            Token::FuncArrow => Token::FuncArrow,
        }
    }
}

impl PartialEq for Token {
    /// Two tokens are equal when they are of the same kind and carry the same
    /// value.
    fn eq(&self, other: &Self) -> (r: bool) {
        match (self, other) {
            (Token::Identifier(a), Token::Identifier(b)) => *a == *b,
            (Token::Integer(a), Token::Integer(b)) => *a == *b,
            (Token::Float(a), Token::Float(b)) => *a == *b,
            (Token::String(a), Token::String(b)) => *a == *b,
            (Token::Bool(a), Token::Bool(b)) => *a == *b,
            (Token::Char(a), Token::Char(b)) => *a == *b,
            (Token::Import, Token::Import) => true,
            (Token::As, Token::As) => true,
            (Token::From, Token::From) => true,
            (Token::Let, Token::Let) => true,
            (Token::Yeet, Token::Yeet) => true,
            (Token::Null, Token::Null) => true,
            (Token::If, Token::If) => true,
            (Token::Else, Token::Else) => true,
            (Token::While, Token::While) => true,
            (Token::For, Token::For) => true,
            (Token::Return, Token::Return) => true,
            (Token::Break, Token::Break) => true,
            (Token::Continue, Token::Continue) => true,
            (Token::Loop, Token::Loop) => true,
            (Token::Type, Token::Type) => true,
            (Token::IntType, Token::IntType) => true,
            (Token::FloatType, Token::FloatType) => true,
            (Token::StringType, Token::StringType) => true,
            (Token::BoolType, Token::BoolType) => true,
            (Token::CharType, Token::CharType) => true,
            (Token::VoidType, Token::VoidType) => true,
            (Token::Assign, Token::Assign) => true,
            (Token::Add, Token::Add) => true,
            (Token::Sub, Token::Sub) => true,
            (Token::Div, Token::Div) => true,
            (Token::Mul, Token::Mul) => true,
            (Token::AddAssign, Token::AddAssign) => true,
            (Token::SubAssign, Token::SubAssign) => true,
            (Token::DivAssign, Token::DivAssign) => true,
            (Token::MulAssign, Token::MulAssign) => true,
            (Token::Mod, Token::Mod) => true,
            (Token::Equal, Token::Equal) => true,
            (Token::GreaterEqual, Token::GreaterEqual) => true,
            (Token::GreaterThan, Token::GreaterThan) => true,
            (Token::LessEqual, Token::LessEqual) => true,
            (Token::LessThan, Token::LessThan) => true,
            (Token::And, Token::And) => true,
            (Token::Or, Token::Or) => true,
            (Token::Not, Token::Not) => true,
            (Token::LParen, Token::LParen) => true,
            (Token::RParen, Token::RParen) => true,
            (Token::LBracket, Token::LBracket) => true,
            (Token::RBracket, Token::RBracket) => true,
            (Token::LBrace, Token::LBrace) => true,
            (Token::RBrace, Token::RBrace) => true,
            (Token::Comma, Token::Comma) => true,
            (Token::Semicolon, Token::Semicolon) => true,
            (Token::Colon, Token::Colon) => true,
            (Token::Dot, Token::Dot) => true,
            (Token::Ref, Token::Ref) => true,
            (Token::FuncArrow, Token::FuncArrow) => true,
            _ => false,
        }
    }
}

impl PartialEqSpecImpl for Token {
    open spec fn obeys_eq_spec() -> bool {
        true
    }

    open spec fn eq_spec(&self, other: &Self) -> bool {
        self@ == other@
    }
}

/// The token that a lexeme of the reserved table stands for: a reserved
/// word, an operator or a punctuation mark. `None` for any other text.
pub open spec fn reserved_token(s: Seq<char>) -> Option<TokenView> {
    if s == "import"@ {
        Some(TokenView::Import)
    } else if s == "as"@ {
        Some(TokenView::As)
    } else if s == "from"@ {
        Some(TokenView::From)
    } else if s == "let"@ {
        Some(TokenView::Let)
    } else if s == "yeet"@ {
        Some(TokenView::Yeet)
    } else if s == "null"@ {
        Some(TokenView::Null)
    } else if s == "if"@ {
        Some(TokenView::If)
    } else if s == "else"@ {
        Some(TokenView::Else)
    } else if s == "while"@ {
        Some(TokenView::While)
    } else if s == "for"@ {
        Some(TokenView::For)
    } else if s == "return"@ {
        Some(TokenView::Return)
    } else if s == "break"@ {
        Some(TokenView::Break)
    } else if s == "continue"@ {
        Some(TokenView::Continue)
    } else if s == "loop"@ {
        Some(TokenView::Loop)
    } else if s == "type"@ {
        Some(TokenView::Type)
    } else if s == "int"@ {
        Some(TokenView::IntType)
    } else if s == "float"@ {
        Some(TokenView::FloatType)
    } else if s == "string"@ {
        Some(TokenView::StringType)
    } else if s == "bool"@ {
        Some(TokenView::BoolType)
    } else if s == "char"@ {
        Some(TokenView::CharType)
    } else if s == "void"@ {
        Some(TokenView::VoidType)
    } else if s == "="@ {
        Some(TokenView::Assign)
    } else if s == "+"@ {
        Some(TokenView::Add)
    } else if s == "-"@ {
        Some(TokenView::Sub)
    } else if s == "/"@ {
        Some(TokenView::Div)
    } else if s == "*"@ {
        Some(TokenView::Mul)
    } else if s == "+="@ {
        Some(TokenView::AddAssign)
    } else if s == "-="@ {
        Some(TokenView::SubAssign)
    } else if s == "/="@ {
        Some(TokenView::DivAssign)
    } else if s == "*="@ {
        Some(TokenView::MulAssign)
    } else if s == "%"@ {
        Some(TokenView::Mod)
    } else if s == "=="@ {
        Some(TokenView::Equal)
    } else if s == ">="@ {
        Some(TokenView::GreaterEqual)
    } else if s == ">"@ {
        Some(TokenView::GreaterThan)
    } else if s == "<="@ {
        Some(TokenView::LessEqual)
    } else if s == "<"@ {
        Some(TokenView::LessThan)
    } else if s == "&&"@ {
        Some(TokenView::And)
    } else if s == "||"@ {
        Some(TokenView::Or)
    } else if s == "!"@ {
        Some(TokenView::Not)
    } else if s == "("@ {
        Some(TokenView::LParen)
    } else if s == ")"@ {
        Some(TokenView::RParen)
    } else if s == "["@ {
        Some(TokenView::LBracket)
    } else if s == "]"@ {
        Some(TokenView::RBracket)
    } else if s == "{"@ {
        Some(TokenView::LBrace)
    } else if s == "}"@ {
        Some(TokenView::RBrace)
    } else if s == ","@ {
        Some(TokenView::Comma)
    } else if s == ";"@ {
        Some(TokenView::Semicolon)
    } else if s == ":"@ {
        Some(TokenView::Colon)
    } else if s == "."@ {
        Some(TokenView::Dot)
    } else if s == "&"@ {
        Some(TokenView::Ref)
    } else if s == "=>"@ {
        Some(TokenView::FuncArrow)
    } else if s == "and"@ {
        Some(TokenView::And)
    } else if s == "or"@ {
        Some(TokenView::Or)
    } else if s == "not"@ {
        Some(TokenView::Not)
    } else {
        None
    }
}

/// Every entry of the reserved table has at least one character and at
/// most eight.
pub proof fn lemma_reserved_lexeme_len(s: Seq<char>)
    ensures
        reserved_token(s) is Some ==> 1 <= s.len() <= 8,
{
    reveal_strlit("import");
    reveal_strlit("as");
    reveal_strlit("from");
    reveal_strlit("let");
    reveal_strlit("yeet");
    reveal_strlit("null");
    reveal_strlit("if");
    reveal_strlit("else");
    reveal_strlit("while");
    reveal_strlit("for");
    reveal_strlit("return");
    reveal_strlit("break");
    reveal_strlit("continue");
    reveal_strlit("loop");
    reveal_strlit("type");
    reveal_strlit("int");
    reveal_strlit("float");
    reveal_strlit("string");
    reveal_strlit("bool");
    reveal_strlit("char");
    reveal_strlit("void");
    reveal_strlit("=");
    reveal_strlit("+");
    reveal_strlit("-");
    reveal_strlit("/");
    reveal_strlit("*");
    reveal_strlit("+=");
    reveal_strlit("-=");
    reveal_strlit("/=");
    reveal_strlit("*=");
    reveal_strlit("%");
    reveal_strlit("==");
    reveal_strlit(">=");
    reveal_strlit(">");
    reveal_strlit("<=");
    reveal_strlit("<");
    reveal_strlit("&&");
    reveal_strlit("||");
    reveal_strlit("!");
    reveal_strlit("(");
    reveal_strlit(")");
    reveal_strlit("[");
    reveal_strlit("]");
    reveal_strlit("{");
    reveal_strlit("}");
    reveal_strlit(",");
    reveal_strlit(";");
    reveal_strlit(":");
    reveal_strlit(".");
    reveal_strlit("&");
    reveal_strlit("=>");
    reveal_strlit("and");
    reveal_strlit("or");
    reveal_strlit("not");
}

/// The characters of every entry of the reserved table, and of the words
/// `true` and `false`.
pub proof fn lemma_reserved_lexemes()
    ensures
        "import"@ == seq!['i', 'm', 'p', 'o', 'r', 't'],
        "as"@ == seq!['a', 's'],
        "from"@ == seq!['f', 'r', 'o', 'm'],
        "let"@ == seq!['l', 'e', 't'],
        "yeet"@ == seq!['y', 'e', 'e', 't'],
        "null"@ == seq!['n', 'u', 'l', 'l'],
        "if"@ == seq!['i', 'f'],
        "else"@ == seq!['e', 'l', 's', 'e'],
        "while"@ == seq!['w', 'h', 'i', 'l', 'e'],
        "for"@ == seq!['f', 'o', 'r'],
        "return"@ == seq!['r', 'e', 't', 'u', 'r', 'n'],
        "break"@ == seq!['b', 'r', 'e', 'a', 'k'],
        "continue"@ == seq!['c', 'o', 'n', 't', 'i', 'n', 'u', 'e'],
        "loop"@ == seq!['l', 'o', 'o', 'p'],
        "type"@ == seq!['t', 'y', 'p', 'e'],
        "int"@ == seq!['i', 'n', 't'],
        "float"@ == seq!['f', 'l', 'o', 'a', 't'],
        "string"@ == seq!['s', 't', 'r', 'i', 'n', 'g'],
        "bool"@ == seq!['b', 'o', 'o', 'l'],
        "char"@ == seq!['c', 'h', 'a', 'r'],
        "void"@ == seq!['v', 'o', 'i', 'd'],
        "="@ == seq!['='],
        "+"@ == seq!['+'],
        "-"@ == seq!['-'],
        "/"@ == seq!['/'],
        "*"@ == seq!['*'],
        "+="@ == seq!['+', '='],
        "-="@ == seq!['-', '='],
        "/="@ == seq!['/', '='],
        "*="@ == seq!['*', '='],
        "%"@ == seq!['%'],
        "=="@ == seq!['=', '='],
        ">="@ == seq!['>', '='],
        ">"@ == seq!['>'],
        "<="@ == seq!['<', '='],
        "<"@ == seq!['<'],
        "&&"@ == seq!['&', '&'],
        "||"@ == seq!['|', '|'],
        "!"@ == seq!['!'],
        "("@ == seq!['('],
        ")"@ == seq![')'],
        "["@ == seq!['['],
        "]"@ == seq![']'],
        "{"@ == seq!['{'],
        "}"@ == seq!['}'],
        ","@ == seq![','],
        ";"@ == seq![';'],
        ":"@ == seq![':'],
        "."@ == seq!['.'],
        "&"@ == seq!['&'],
        "=>"@ == seq!['=', '>'],
        "and"@ == seq!['a', 'n', 'd'],
        "or"@ == seq!['o', 'r'],
        "not"@ == seq!['n', 'o', 't'],
        "true"@ == seq!['t', 'r', 'u', 'e'],
        "false"@ == seq!['f', 'a', 'l', 's', 'e'],
{
    reveal_strlit("import");
    reveal_strlit("as");
    reveal_strlit("from");
    reveal_strlit("let");
    reveal_strlit("yeet");
    reveal_strlit("null");
    reveal_strlit("if");
    reveal_strlit("else");
    reveal_strlit("while");
    reveal_strlit("for");
    reveal_strlit("return");
    reveal_strlit("break");
    reveal_strlit("continue");
    reveal_strlit("loop");
    reveal_strlit("type");
    reveal_strlit("int");
    reveal_strlit("float");
    reveal_strlit("string");
    reveal_strlit("bool");
    reveal_strlit("char");
    reveal_strlit("void");
    reveal_strlit("=");
    reveal_strlit("+");
    reveal_strlit("-");
    reveal_strlit("/");
    reveal_strlit("*");
    reveal_strlit("+=");
    reveal_strlit("-=");
    reveal_strlit("/=");
    reveal_strlit("*=");
    reveal_strlit("%");
    reveal_strlit("==");
    reveal_strlit(">=");
    reveal_strlit(">");
    reveal_strlit("<=");
    reveal_strlit("<");
    reveal_strlit("&&");
    reveal_strlit("||");
    reveal_strlit("!");
    reveal_strlit("(");
    reveal_strlit(")");
    reveal_strlit("[");
    reveal_strlit("]");
    reveal_strlit("{");
    reveal_strlit("}");
    reveal_strlit(",");
    reveal_strlit(";");
    reveal_strlit(":");
    reveal_strlit(".");
    reveal_strlit("&");
    reveal_strlit("=>");
    reveal_strlit("and");
    reveal_strlit("or");
    reveal_strlit("not");
    reveal_strlit("true");
    reveal_strlit("false");
    assert("import"@ =~= seq!['i', 'm', 'p', 'o', 'r', 't']);
    assert("as"@ =~= seq!['a', 's']);
    assert("from"@ =~= seq!['f', 'r', 'o', 'm']);
    assert("let"@ =~= seq!['l', 'e', 't']);
    assert("yeet"@ =~= seq!['y', 'e', 'e', 't']);
    assert("null"@ =~= seq!['n', 'u', 'l', 'l']);
    assert("if"@ =~= seq!['i', 'f']);
    assert("else"@ =~= seq!['e', 'l', 's', 'e']);
    assert("while"@ =~= seq!['w', 'h', 'i', 'l', 'e']);
    assert("for"@ =~= seq!['f', 'o', 'r']);
    assert("return"@ =~= seq!['r', 'e', 't', 'u', 'r', 'n']);
    assert("break"@ =~= seq!['b', 'r', 'e', 'a', 'k']);
    assert("continue"@ =~= seq!['c', 'o', 'n', 't', 'i', 'n', 'u', 'e']);
    assert("loop"@ =~= seq!['l', 'o', 'o', 'p']);
    assert("type"@ =~= seq!['t', 'y', 'p', 'e']);
    assert("int"@ =~= seq!['i', 'n', 't']);
    assert("float"@ =~= seq!['f', 'l', 'o', 'a', 't']);
    assert("string"@ =~= seq!['s', 't', 'r', 'i', 'n', 'g']);
    assert("bool"@ =~= seq!['b', 'o', 'o', 'l']);
    assert("char"@ =~= seq!['c', 'h', 'a', 'r']);
    assert("void"@ =~= seq!['v', 'o', 'i', 'd']);
    assert("="@ =~= seq!['=']);
    assert("+"@ =~= seq!['+']);
    assert("-"@ =~= seq!['-']);
    assert("/"@ =~= seq!['/']);
    assert("*"@ =~= seq!['*']);
    assert("+="@ =~= seq!['+', '=']);
    assert("-="@ =~= seq!['-', '=']);
    assert("/="@ =~= seq!['/', '=']);
    assert("*="@ =~= seq!['*', '=']);
    assert("%"@ =~= seq!['%']);
    assert("=="@ =~= seq!['=', '=']);
    assert(">="@ =~= seq!['>', '=']);
    assert(">"@ =~= seq!['>']);
    assert("<="@ =~= seq!['<', '=']);
    assert("<"@ =~= seq!['<']);
    assert("&&"@ =~= seq!['&', '&']);
    assert("||"@ =~= seq!['|', '|']);
    assert("!"@ =~= seq!['!']);
    assert("("@ =~= seq!['(']);
    assert(")"@ =~= seq![')']);
    assert("["@ =~= seq!['[']);
    assert("]"@ =~= seq![']']);
    assert("{"@ =~= seq!['{']);
    assert("}"@ =~= seq!['}']);
    assert(","@ =~= seq![',']);
    assert(";"@ =~= seq![';']);
    assert(":"@ =~= seq![':']);
    assert("."@ =~= seq!['.']);
    assert("&"@ =~= seq!['&']);
    assert("=>"@ =~= seq!['=', '>']);
    assert("and"@ =~= seq!['a', 'n', 'd']);
    assert("or"@ =~= seq!['o', 'r']);
    assert("not"@ =~= seq!['n', 'o', 't']);
    assert("true"@ =~= seq!['t', 'r', 'u', 'e']);
    assert("false"@ =~= seq!['f', 'a', 'l', 's', 'e']);
}

/// No entry of the reserved table starts with a digit or a quote; the only
/// one that starts with a dot is the dot; none starts with `true` or
/// `false`.
pub proof fn lemma_reserved_first_char(s: Seq<char>)
    requires
        reserved_token(s) is Some,
    ensures
        s.len() >= 1,
        digit_value(s[0]) >= 10,
        s[0] != '"',
        s[0] != '\'',
        s[0] == '.' ==> s.len() == 1,
        !starts_with_true(s),
        !starts_with_false(s),
{
    reveal_strlit("import");
    reveal_strlit("as");
    reveal_strlit("from");
    reveal_strlit("let");
    reveal_strlit("yeet");
    reveal_strlit("null");
    reveal_strlit("if");
    reveal_strlit("else");
    reveal_strlit("while");
    reveal_strlit("for");
    reveal_strlit("return");
    reveal_strlit("break");
    reveal_strlit("continue");
    reveal_strlit("loop");
    reveal_strlit("type");
    reveal_strlit("int");
    reveal_strlit("float");
    reveal_strlit("string");
    reveal_strlit("bool");
    reveal_strlit("char");
    reveal_strlit("void");
    reveal_strlit("=");
    reveal_strlit("+");
    reveal_strlit("-");
    reveal_strlit("/");
    reveal_strlit("*");
    reveal_strlit("+=");
    reveal_strlit("-=");
    reveal_strlit("/=");
    reveal_strlit("*=");
    reveal_strlit("%");
    reveal_strlit("==");
    reveal_strlit(">=");
    reveal_strlit(">");
    reveal_strlit("<=");
    reveal_strlit("<");
    reveal_strlit("&&");
    reveal_strlit("||");
    reveal_strlit("!");
    reveal_strlit("(");
    reveal_strlit(")");
    reveal_strlit("[");
    reveal_strlit("]");
    reveal_strlit("{");
    reveal_strlit("}");
    reveal_strlit(",");
    reveal_strlit(";");
    reveal_strlit(":");
    reveal_strlit(".");
    reveal_strlit("&");
    reveal_strlit("=>");
    reveal_strlit("and");
    reveal_strlit("or");
    reveal_strlit("not");
}

impl Token {
    /// Looks a lexeme up in the table of reserved words, operators and
    /// punctuation.
    pub fn match_basic_token(s: &str) -> (r: Option<Token>)
        ensures
            r.is_some() == reserved_token(s@).is_some(),
            r matches Some(t) ==> Some(t@) == reserved_token(s@),
    {
        if str_eq(s, "import") {
            Some(Token::Import)
        } else if str_eq(s, "as") {
            Some(Token::As)
        } else if str_eq(s, "from") {
            Some(Token::From)
        } else if str_eq(s, "let") {
            Some(Token::Let)
        } else if str_eq(s, "yeet") {
            Some(Token::Yeet)
        } else if str_eq(s, "null") {
            Some(Token::Null)
        } else if str_eq(s, "if") {
            Some(Token::If)
        } else if str_eq(s, "else") {
            Some(Token::Else)
        } else if str_eq(s, "while") {
            Some(Token::While)
        } else if str_eq(s, "for") {
            Some(Token::For)
        } else if str_eq(s, "return") {
            Some(Token::Return)
        } else if str_eq(s, "break") {
            Some(Token::Break)
        } else if str_eq(s, "continue") {
            Some(Token::Continue)
        } else if str_eq(s, "loop") {
            Some(Token::Loop)
        } else if str_eq(s, "type") {
            Some(Token::Type)
        } else if str_eq(s, "int") {
            Some(Token::IntType)
        } else if str_eq(s, "float") {
            Some(Token::FloatType)
        } else if str_eq(s, "string") {
            Some(Token::StringType)
        } else if str_eq(s, "bool") {
            Some(Token::BoolType)
        } else if str_eq(s, "char") {
            Some(Token::CharType)
        } else if str_eq(s, "void") {
            Some(Token::VoidType)
        } else if str_eq(s, "=") {
            Some(Token::Assign)
        } else if str_eq(s, "+") {
            Some(Token::Add)
        } else if str_eq(s, "-") {
            Some(Token::Sub)
        } else if str_eq(s, "/") {
            Some(Token::Div)
        } else if str_eq(s, "*") {
            Some(Token::Mul)
        } else if str_eq(s, "+=") {
            Some(Token::AddAssign)
        } else if str_eq(s, "-=") {
            Some(Token::SubAssign)
        } else if str_eq(s, "/=") {
            Some(Token::DivAssign)
        } else if str_eq(s, "*=") {
            Some(Token::MulAssign)
        } else if str_eq(s, "%") {
            Some(Token::Mod)
        } else if str_eq(s, "==") {
            Some(Token::Equal)
        } else if str_eq(s, ">=") {
            Some(Token::GreaterEqual)
        } else if str_eq(s, ">") {
            Some(Token::GreaterThan)
        } else if str_eq(s, "<=") {
            Some(Token::LessEqual)
        } else if str_eq(s, "<") {
            Some(Token::LessThan)
        } else if str_eq(s, "&&") {
            Some(Token::And)
        } else if str_eq(s, "||") {
            Some(Token::Or)
        } else if str_eq(s, "!") {
            Some(Token::Not)
        } else if str_eq(s, "(") {
            Some(Token::LParen)
        } else if str_eq(s, ")") {
            Some(Token::RParen)
        } else if str_eq(s, "[") {
            Some(Token::LBracket)
        } else if str_eq(s, "]") {
            Some(Token::RBracket)
        } else if str_eq(s, "{") {
            Some(Token::LBrace)
        } else if str_eq(s, "}") {
            Some(Token::RBrace)
        } else if str_eq(s, ",") {
            Some(Token::Comma)
        } else if str_eq(s, ";") {
            Some(Token::Semicolon)
        } else if str_eq(s, ":") {
            Some(Token::Colon)
        } else if str_eq(s, ".") {
            Some(Token::Dot)
        } else if str_eq(s, "&") {
            Some(Token::Ref)
        } else if str_eq(s, "=>") {
            Some(Token::FuncArrow)
        } else if str_eq(s, "and") {
            Some(Token::And)
        } else if str_eq(s, "or") {
            Some(Token::Or)
        } else if str_eq(s, "not") {
            Some(Token::Not)
        } else {
            None
        }
    }
}

/// The token that a word stands for: the reserved token if the word is in
/// the table, a boolean literal for `true` and `false`, else an identifier.
pub open spec fn word_token(word: Seq<char>) -> TokenView {
    match reserved_token(word) {
        Some(token) => token,
        None => if word == "true"@ {
            TokenView::Bool(true)
        } else if word == "false"@ {
            TokenView::Bool(false)
        } else {
            TokenView::Identifier(word)
        },
    }
}

/// The token that an identifier-shaped word at the start of `s` gives, with
/// its length.
pub open spec fn lex_identifier(s: Seq<char>) -> Option<(TokenView, nat)> {
    match identifier(s) {
        Some((word, len)) => Some((word_token(word), len)),
        None => None,
    }
}

/// Whether `s` starts with the word `true`.
pub open spec fn starts_with_true(s: Seq<char>) -> bool {
    s.len() >= 4 && s[0] == 't' && s[1] == 'r' && s[2] == 'u' && s[3] == 'e'
}

/// Whether `s` starts with the word `false`.
pub open spec fn starts_with_false(s: Seq<char>) -> bool {
    s.len() >= 5 && s[0] == 'f' && s[1] == 'a' && s[2] == 'l' && s[3] == 's' && s[4] == 'e'
}

/// The literal token at the start of `s`, with its length. The forms are
/// tried in this order: float, integer, string, character, `true`, `false`.
pub open spec fn lex_literal(s: Seq<char>) -> Option<(TokenView, nat)> {
    if let Some((text, len)) = float_literal(s) {
        Some((TokenView::Float(text), len))
    } else if let Some((value, len)) = int_literal(s) {
        Some((TokenView::Integer(value), len))
    } else if let Some((text, len)) = string_literal(s) {
        Some((TokenView::String(text), len))
    } else if let Some((c, len)) = char_literal(s) {
        Some((TokenView::Char(c), len))
    } else if starts_with_true(s) {
        Some((TokenView::Bool(true), 4))
    } else if starts_with_false(s) {
        Some((TokenView::Bool(false), 5))
    } else {
        None
    }
}

/// The longest prefix of `s` of at most `len` characters that is in the
/// reserved table, as its token, with its length.
pub open spec fn lex_basic_upto(s: Seq<char>, len: nat) -> Option<(TokenView, nat)>
    decreases len,
{
    if len == 0 || len > s.len() {
        None
    } else {
        match reserved_token(s.subrange(0, len as int)) {
            Some(token) => Some((token, len)),
            None => lex_basic_upto(s, (len - 1) as nat),
        }
    }
}

/// The longest entry of the reserved table, in characters.
pub const MAX_BASIC_TOKEN_LEN: usize = 8;

/// The operator or punctuation mark at the start of `s`, with its length:
/// the longest prefix of at most eight characters that is in the reserved
/// table.
pub open spec fn lex_basic(s: Seq<char>) -> Option<(TokenView, nat)> {
    lex_basic_upto(s, if s.len() < 8 { s.len() } else { 8 })
}

/// The token at the start of `s`, with its length. A word is tried first,
/// then a literal, then an operator or punctuation mark.
pub open spec fn lex_token(s: Seq<char>) -> Option<(TokenView, nat)> {
    if lex_identifier(s) is Some {
        lex_identifier(s)
    } else if lex_literal(s) is Some {
        lex_literal(s)
    } else {
        lex_basic(s)
    }
}

/// The rest of a string literal ends inside the text.
pub proof fn lemma_string_body_bounds(s: Seq<char>, i: int, text: Seq<char>)
    requires
        0 <= i <= s.len(),
    ensures
        string_body(s, i, text) matches Some((_, end)) ==> i < end <= s.len(),
    decreases s.len() - i,
{
    if let Some((c, len)) = next_char(s, i) {
        if !(c == '"' && len == 1) {
            lemma_string_body_bounds(s, i + len, text.push(c));
        }
    }
}

/// A reserved prefix of at most `len` characters is no longer than `len`.
pub proof fn lemma_lex_basic_bounds(s: Seq<char>, len: nat)
    ensures
        lex_basic_upto(s, len) matches Some((_, n)) ==> 1 <= n <= len && n <= s.len(),
    decreases len,
{
    if len != 0 && len <= s.len() && reserved_token(s.subrange(0, len as int)) is None {
        lemma_lex_basic_bounds(s, (len - 1) as nat);
    }
}

/// A token spans at least one character and ends inside the text.
pub proof fn lemma_lex_token_bounds(s: Seq<char>)
    ensures
        lex_token(s) matches Some((_, len)) ==> 1 <= len <= s.len(),
{
    if s.len() > 0 {
        lemma_ident_end_bounds(s, 1);
    }
    lemma_digits_end_bounds(s, 0, 10);
    let dot = digits_end(s, 0, 10);
    if dot < s.len() {
        lemma_digits_end_bounds(s, dot + 1, 10);
    }
    let base = base_of(s);
    lemma_digits_end_bounds(s, base.spec_prefix_len() as int, base.spec_radix());
    if s.len() > 0 {
        lemma_string_body_bounds(s, 1, Seq::empty());
    }
    lemma_lex_basic_bounds(s, if s.len() < 8 { s.len() } else { 8 });
}

impl Token {
    /// Reads the token at the start of `input`: the token and its length in
    /// characters. `None` at the end of the input and where no token starts.
    ///
    /// The token is read from its own characters alone: what follows them
    /// has no part in it.
    pub fn scan(input: &[char]) -> (r: Option<(Token, usize)>)
        ensures
            match r {
                Some((token, len)) => {
                    &&& lex_token(input@) == Some((token@, len as nat))
                    &&& 1 <= len <= input@.len()
                    &&& lex_token(input@.subrange(0, len as int)) == Some((token@, len as nat))
                },
                None => lex_token(input@) is None,
            },
            input@.len() == 0 ==> r is None,
    {
        proof {
            lemma_lex_token_bounds(input@);
            lemma_token_of_its_lexeme(input@);
        }
        if let Some(found) = Token::scan_identifier(input) {
            return Some(found);
        }
        if let Some(found) = Token::scan_literal(input) {
            return Some(found);
        }
        Token::scan_basic_token(input)
    }

    /// Reads the word at the start of `input`: a reserved word's token, a
    /// boolean literal, or an identifier.
    pub fn scan_identifier(input: &[char]) -> (r: Option<(Token, usize)>)
        ensures
            match r {
                Some((token, len)) => lex_identifier(input@) == Some((token@, len as nat)),
                None => lex_identifier(input@) is None,
            },
    {
        let len = identifier_len(input);
        if len == 0 {
            return None;
        }
        proof {
            lemma_ident_end_bounds(input@, 1);
        }
        let word = string_of(input, 0, len);
        match Token::match_basic_token(word.as_str()) {
            Some(token) => Some((token, len)),
            None => {
                if str_eq(word.as_str(), "true") {
                    Some((Token::Bool(true), len))
                } else if str_eq(word.as_str(), "false") {
                    Some((Token::Bool(false), len))
                } else {
                    Some((Token::Identifier(word), len))
                }
            },
        }
    }

    /// Reads the literal at the start of `input`.
    pub fn scan_literal(input: &[char]) -> (r: Option<(Token, usize)>)
        ensures
            match r {
                Some((token, len)) => lex_literal(input@) == Some((token@, len as nat)),
                None => lex_literal(input@) is None,
            },
    {
        if let Some((text, len)) = scan_float_literal(input) {
            return Some((Token::Float(text), len));
        }
        if let Some((value, len)) = scan_int_literal(input) {
            return Some((Token::Integer(value), len));
        }
        if let Some((text, len)) = scan_string_literal(input) {
            return Some((Token::String(text), len));
        }
        if let Some((c, len)) = scan_char_literal(input) {
            return Some((Token::Char(c), len));
        }
        if input.len() >= 4 && input[0] == 't' && input[1] == 'r' && input[2] == 'u' && input[3]
            == 'e' {
            return Some((Token::Bool(true), 4));
        }
        if input.len() >= 5 && input[0] == 'f' && input[1] == 'a' && input[2] == 'l' && input[3]
            == 's' && input[4] == 'e' {
            return Some((Token::Bool(false), 5));
        }
        None
    }

    /// Reads the operator or punctuation mark at the start of `input`, the
    /// longest first.
    pub fn scan_basic_token(input: &[char]) -> (r: Option<(Token, usize)>)
        ensures
            match r {
                Some((token, len)) => lex_basic(input@) == Some((token@, len as nat)),
                None => lex_basic(input@) is None,
            },
    {
        let mut len: usize = if input.len() < MAX_BASIC_TOKEN_LEN {
            input.len()
        } else {
            MAX_BASIC_TOKEN_LEN
        };
        while len > 0
            invariant
                len <= input@.len(),
                lex_basic(input@) == lex_basic_upto(input@, len as nat),
            decreases len,
        {
            let word = string_of(input, 0, len);
            if let Some(token) = Token::match_basic_token(word.as_str()) {
                return Some((token, len));
            }
            len -= 1;
        }
        None
    }
}

impl Token {
    /// Reads the token at the start of `input`: the token and its length in
    /// characters. `None` at the end of the input and where no token starts.
    ///
    /// The token is read from its own characters alone: what follows them
    /// has no part in it.
    pub fn parse_from_str(input: &str) -> (r: Option<(Token, usize)>)
        ensures
            match r {
                Some((token, len)) => {
                    &&& lex_token(input@) == Some((token@, len as nat))
                    &&& 1 <= len <= input@.len()
                    &&& lex_token(input@.subrange(0, len as int)) == Some((token@, len as nat))
                },
                None => lex_token(input@) is None,
            },
            input@.len() == 0 ==> r is None,
    {
        let chars = chars_of(input);
        Token::scan(chars.as_slice())
    }

    /// Reads the word at the start of `input`: a reserved word's token, a
    /// boolean literal, or an identifier.
    pub fn parse_identifier(input: &str) -> (r: Option<(Token, usize)>)
        ensures
            match r {
                Some((token, len)) => lex_identifier(input@) == Some((token@, len as nat)),
                None => lex_identifier(input@) is None,
            },
    {
        let chars = chars_of(input);
        Token::scan_identifier(chars.as_slice())
    }

    /// Reads the literal at the start of `input`.
    pub fn parse_literal(input: &str) -> (r: Option<(Token, usize)>)
        ensures
            match r {
                Some((token, len)) => lex_literal(input@) == Some((token@, len as nat)),
                None => lex_literal(input@) is None,
            },
    {
        let chars = chars_of(input);
        Token::scan_literal(chars.as_slice())
    }

    /// Reads the operator or punctuation mark at the start of `input`, the
    /// longest first.
    pub fn parse_basic_token(input: &str) -> (r: Option<(Token, usize)>)
        ensures
            match r {
                Some((token, len)) => lex_basic(input@) == Some((token@, len as nat)),
                None => lex_basic(input@) is None,
            },
    {
        let chars = chars_of(input);
        Token::scan_basic_token(chars.as_slice())
    }
}

} // verus!
