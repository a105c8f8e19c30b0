use compiler_rs::lexer::identifier::{parse_identifier, scan_identifier, Ident};
use compiler_rs::lexer::lexer::Lexer;
use compiler_rs::lexer::literal::{
    parse_char_literal, parse_float_literal, parse_int_literal, parse_next_char,
    parse_string_literal, scan_char_literal, scan_float_literal, scan_int_literal,
    scan_string_literal, Base,
};
use compiler_rs::lexer::raw_lexer::RawLexer;
use compiler_rs::lexer::token::Token;
use compiler_rs::parser::helpers::ParseError;
use compiler_rs::text::{chars_of, string_of};

fn chars(s: &str) -> Vec<char> {
    s.chars().collect()
}

fn tokens(source: &str) -> Vec<Token> {
    let mut lexer = Lexer::new(source);
    let mut out = Vec::new();
    while let Some(token) = lexer.next() {
        out.push(token);
    }
    out
}

#[test]
fn chars_of_gives_the_characters_in_order() {
    assert_eq!(chars_of("h\u{e9}llo"), vec!['h', '\u{e9}', 'l', 'l', 'o']);
    assert_eq!(chars_of(""), Vec::<char>::new());
}

#[test]
fn string_of_takes_the_range() {
    let text = chars("hello world");
    assert_eq!(string_of(&text, 6, 11), "world");
    assert_eq!(string_of(&text, 3, 3), "");
}

#[test]
fn identifier_stops_at_the_first_other_character() {
    assert_eq!(parse_identifier("foo_1 bar"), Some(("foo_1".to_string(), 5)));
    assert_eq!(parse_identifier("_x"), Some(("_x".to_string(), 2)));
    assert_eq!(parse_identifier("x+y"), Some(("x".to_string(), 1)));
}

#[test]
fn identifier_needs_a_letter_or_underscore_first() {
    assert_eq!(parse_identifier("1abc"), None);
    assert_eq!(parse_identifier(""), None);
    assert_eq!(parse_identifier(" a"), None);
}

#[test]
fn identifier_takes_letters_outside_ascii() {
    assert_eq!(parse_identifier("\u{e9}t\u{e9}=1"), Some(("\u{e9}t\u{e9}".to_string(), 3)));
}

#[test]
fn ident_wraps_the_name() {
    let (ident, len) = Ident::parse_from_str("abc def").unwrap();
    assert_eq!(ident.0, "abc");
    assert_eq!(len, 3);
    assert!(Ident::parse_from_str("9").is_none());
}

#[test]
fn base_is_read_from_the_prefix() {
    assert_eq!(Base::parse_from_str("0x1f"), Base::Hexadecimal);
    assert_eq!(Base::parse_from_str("0b101"), Base::Binary);
    assert_eq!(Base::parse_from_str("017"), Base::Decimal);
    assert_eq!(Base::parse_from_str("0"), Base::Decimal);
    assert_eq!(Base::Hexadecimal.prefix_len(), 2);
    assert_eq!(Base::Binary.prefix_len(), 2);
    assert_eq!(Base::Decimal.prefix_len(), 0);
    assert_eq!(Base::Hexadecimal.radix(), 16);
    assert_eq!(Base::Binary.radix(), 2);
    assert_eq!(Base::Decimal.radix(), 10);
}

#[test]
fn int_literal_in_three_bases() {
    assert_eq!(parse_int_literal("42;"), Some((42, 2)));
    assert_eq!(parse_int_literal("0x1F rest"), Some((31, 4)));
    assert_eq!(parse_int_literal("0xff"), Some((255, 4)));
    assert_eq!(parse_int_literal("0b1011"), Some((11, 6)));
    assert_eq!(parse_int_literal("007"), Some((7, 3)));
}

#[test]
fn int_literal_needs_a_digit() {
    assert_eq!(parse_int_literal(""), None);
    assert_eq!(parse_int_literal("x"), None);
    assert_eq!(parse_int_literal("0x"), None);
    assert_eq!(parse_int_literal("0xg"), None);
    assert_eq!(parse_int_literal("0b2"), None);
}

#[test]
fn int_literal_stops_at_a_digit_of_another_base() {
    assert_eq!(parse_int_literal("0b102"), Some((2, 4)));
    assert_eq!(parse_int_literal("12a"), Some((12, 2)));
}

#[test]
fn int_literal_must_fit_in_64_signed_bits() {
    assert_eq!(parse_int_literal("9223372036854775807"), Some((i64::MAX, 19)));
    assert_eq!(parse_int_literal("9223372036854775808"), None);
    assert_eq!(parse_int_literal("0x7fffffffffffffff"), Some((i64::MAX, 18)));
    assert_eq!(parse_int_literal("0x8000000000000000"), None);
    assert_eq!(parse_int_literal("99999999999999999999999999"), None);
}

#[test]
fn float_literal_keeps_its_text() {
    assert_eq!(parse_float_literal("3.14+"), Some(("3.14".to_string(), 4)));
    assert_eq!(parse_float_literal(".5"), Some((".5".to_string(), 2)));
    assert_eq!(parse_float_literal("10.0.1"), Some(("10.0".to_string(), 4)));
}

#[test]
fn float_literal_needs_a_dot_and_a_digit_after_it() {
    assert_eq!(parse_float_literal("3"), None);
    assert_eq!(parse_float_literal("3."), None);
    assert_eq!(parse_float_literal("3.x"), None);
    assert_eq!(parse_float_literal("x.5"), None);
    assert_eq!(parse_float_literal(""), None);
}

#[test]
fn float_text_converts_to_the_number() {
    let (text, _) = parse_float_literal("12.5").unwrap();
    assert_eq!(text.parse::<f64>().unwrap(), 12.5);
}

#[test]
fn next_char_reads_plain_characters_and_escapes() {
    assert_eq!(parse_next_char(&chars("ab"), 0), Some(('a', 1)));
    assert_eq!(parse_next_char(&chars("ab"), 1), Some(('b', 1)));
    assert_eq!(parse_next_char(&chars("ab"), 2), None);
    assert_eq!(parse_next_char(&chars("\\n"), 0), Some(('\n', 2)));
    assert_eq!(parse_next_char(&chars("\\r"), 0), Some(('\r', 2)));
    assert_eq!(parse_next_char(&chars("\\t"), 0), Some(('\t', 2)));
    assert_eq!(parse_next_char(&chars("\\'"), 0), Some(('\'', 2)));
    assert_eq!(parse_next_char(&chars("\\\\"), 0), Some(('\\', 2)));
    assert_eq!(parse_next_char(&chars("\\0"), 0), Some(('\0', 2)));
    assert_eq!(parse_next_char(&chars("\\x41"), 0), Some(('A', 4)));
    assert_eq!(parse_next_char(&chars("\\xfF"), 0), Some(('\u{ff}', 4)));
}

#[test]
fn next_char_refuses_other_escapes() {
    assert_eq!(parse_next_char(&chars("\\"), 0), None);
    assert_eq!(parse_next_char(&chars("\\q"), 0), None);
    assert_eq!(parse_next_char(&chars("\\\""), 0), None);
    assert_eq!(parse_next_char(&chars("\\x4"), 0), None);
    assert_eq!(parse_next_char(&chars("\\x4g"), 0), None);
}

#[test]
fn char_literal_is_one_character_between_quotes() {
    assert_eq!(parse_char_literal("'a'"), Some(('a', 3)));
    assert_eq!(parse_char_literal("'\\n' "), Some(('\n', 4)));
    assert_eq!(parse_char_literal("'\\x41'"), Some(('A', 6)));
    assert_eq!(parse_char_literal("'''"), Some(('\'', 3)));
    assert_eq!(parse_char_literal("'ab'"), None);
    assert_eq!(parse_char_literal("'a"), None);
    assert_eq!(parse_char_literal("''"), None);
    assert_eq!(parse_char_literal("a'"), None);
}

#[test]
fn string_literal_runs_to_the_first_plain_quote() {
    assert_eq!(parse_string_literal("\"hi\" x"), Some(("hi".to_string(), 4)));
    assert_eq!(parse_string_literal("\"\""), Some(("".to_string(), 2)));
    assert_eq!(parse_string_literal("\"a\\tb\\n\""), Some(("a\tb\n".to_string(), 8)));
    assert_eq!(parse_string_literal("\"\\x22\""), Some(("\"".to_string(), 6)));
}

#[test]
fn string_literal_must_be_closed_and_well_escaped() {
    assert_eq!(parse_string_literal("\"abc"), None);
    assert_eq!(parse_string_literal("\"a\\qb\""), None);
    assert_eq!(parse_string_literal("abc\""), None);
    assert_eq!(parse_string_literal(""), None);
}

#[test]
fn reserved_table_holds_words_and_marks() {
    assert_eq!(Token::match_basic_token("import"), Some(Token::Import));
    assert_eq!(Token::match_basic_token("yeet"), Some(Token::Yeet));
    assert_eq!(Token::match_basic_token("null"), Some(Token::Null));
    assert_eq!(Token::match_basic_token("as"), Some(Token::As));
    assert_eq!(Token::match_basic_token("string"), Some(Token::StringType));
    assert_eq!(Token::match_basic_token("and"), Some(Token::And));
    assert_eq!(Token::match_basic_token("&&"), Some(Token::And));
    assert_eq!(Token::match_basic_token("or"), Some(Token::Or));
    assert_eq!(Token::match_basic_token("||"), Some(Token::Or));
    assert_eq!(Token::match_basic_token("not"), Some(Token::Not));
    assert_eq!(Token::match_basic_token("!"), Some(Token::Not));
    assert_eq!(Token::match_basic_token("=>"), Some(Token::FuncArrow));
    assert_eq!(Token::match_basic_token("+="), Some(Token::AddAssign));
    assert_eq!(Token::match_basic_token("uint"), None);
    assert_eq!(Token::match_basic_token("any"), None);
    assert_eq!(Token::match_basic_token("true"), None);
    assert_eq!(Token::match_basic_token(""), None);
}

#[test]
fn a_reserved_word_is_not_an_identifier() {
    assert_eq!(Token::parse_identifier("let x"), Some((Token::Let, 3)));
    assert_eq!(Token::parse_identifier("letter"), Some((Token::Identifier("letter".to_string()), 6)));
    assert_eq!(Token::parse_identifier("int["), Some((Token::IntType, 3)));
    assert_eq!(Token::parse_identifier("+"), None);
    assert_eq!(Token::parse_identifier("true;"), Some((Token::Bool(true), 4)));
    assert_eq!(Token::parse_identifier("false"), Some((Token::Bool(false), 5)));
    assert_eq!(
        Token::parse_identifier("truest"),
        Some((Token::Identifier("truest".to_string()), 6))
    );
    assert_eq!(
        Token::parse_identifier("falsehood"),
        Some((Token::Identifier("falsehood".to_string()), 9))
    );
}

#[test]
fn literal_forms_are_tried_in_order() {
    assert_eq!(Token::parse_literal("1.5"), Some((Token::Float("1.5".to_string()), 3)));
    assert_eq!(Token::parse_literal("15"), Some((Token::Integer(15), 2)));
    assert_eq!(Token::parse_literal("\"s\""), Some((Token::String("s".to_string()), 3)));
    assert_eq!(Token::parse_literal("'c'"), Some((Token::Char('c'), 3)));
    assert_eq!(Token::parse_literal("true"), Some((Token::Bool(true), 4)));
    assert_eq!(Token::parse_literal("false!"), Some((Token::Bool(false), 5)));
    assert_eq!(Token::parse_literal("tru"), None);
}

#[test]
fn the_longest_operator_wins() {
    assert_eq!(Token::parse_basic_token("==1"), Some((Token::Equal, 2)));
    assert_eq!(Token::parse_basic_token("=1"), Some((Token::Assign, 1)));
    assert_eq!(Token::parse_basic_token("=>"), Some((Token::FuncArrow, 2)));
    assert_eq!(Token::parse_basic_token(">="), Some((Token::GreaterEqual, 2)));
    assert_eq!(Token::parse_basic_token("<="), Some((Token::LessEqual, 2)));
    assert_eq!(Token::parse_basic_token("+="), Some((Token::AddAssign, 2)));
    assert_eq!(Token::parse_basic_token("-="), Some((Token::SubAssign, 2)));
    assert_eq!(Token::parse_basic_token("*="), Some((Token::MulAssign, 2)));
    assert_eq!(Token::parse_basic_token("/="), Some((Token::DivAssign, 2)));
    assert_eq!(Token::parse_basic_token("&&"), Some((Token::And, 2)));
    assert_eq!(Token::parse_basic_token("&x"), Some((Token::Ref, 1)));
    assert_eq!(Token::parse_basic_token("||"), Some((Token::Or, 2)));
    assert_eq!(Token::parse_basic_token("|"), None);
    assert_eq!(Token::parse_basic_token("#"), None);
    assert_eq!(Token::parse_basic_token(""), None);
}

#[test]
fn token_dispatch_tries_word_then_literal_then_mark() {
    assert_eq!(Token::parse_from_str("while("), Some((Token::While, 5)));
    assert_eq!(Token::parse_from_str("0x10;"), Some((Token::Integer(16), 4)));
    assert_eq!(Token::parse_from_str(";"), Some((Token::Semicolon, 1)));
    assert_eq!(Token::parse_from_str("true"), Some((Token::Bool(true), 4)));
    assert_eq!(Token::parse_from_str("false;"), Some((Token::Bool(false), 5)));
    assert_eq!(Token::parse_from_str(""), None);
    assert_eq!(Token::parse_from_str("@"), None);
}

#[test]
fn raw_lexer_skips_white_space_and_comments() {
    let mut raw = RawLexer::new("  // line\n /* block\n */ let\t\r\nx");
    assert_eq!(raw.next(), Some(Token::Let));
    assert_eq!(raw.next(), Some(Token::Identifier("x".to_string())));
    assert_eq!(raw.next(), None);
    assert_eq!(raw.next(), None);
}

#[test]
fn raw_lexer_runs_an_open_comment_to_the_end() {
    let mut raw = RawLexer::new("a /* never closed");
    assert_eq!(raw.next(), Some(Token::Identifier("a".to_string())));
    assert_eq!(raw.next(), None);
    let mut raw = RawLexer::new("b // no newline");
    assert_eq!(raw.next(), Some(Token::Identifier("b".to_string())));
    assert_eq!(raw.next(), None);
}

#[test]
fn raw_lexer_moves_past_a_pattern() {
    let mut raw = RawLexer::new("ab*/cd");
    raw.consume_until_match("*/");
    assert_eq!(raw.next(), Some(Token::Identifier("cd".to_string())));
    let mut raw = RawLexer::new("ab");
    raw.consume_until_match("\n");
    assert_eq!(raw.next(), None);
}

#[test]
fn raw_lexer_skips_trivia_only() {
    let mut raw = RawLexer::new(" \t/*x*/ //y\n z");
    raw.consume_till_next_token();
    assert_eq!(raw.next(), Some(Token::Identifier("z".to_string())));
}

#[test]
fn block_comments_do_not_nest() {
    assert_eq!(
        tokens("/* a /* b */ c */"),
        vec![Token::Identifier("c".to_string()), Token::Mul, Token::Div]
    );
}

#[test]
fn lexer_gives_the_tokens_of_a_statement() {
    assert_eq!(
        tokens("let x: int = 1 + 2 * 3;"),
        vec![
            Token::Let,
            Token::Identifier("x".to_string()),
            Token::Colon,
            Token::IntType,
            Token::Assign,
            Token::Integer(1),
            Token::Add,
            Token::Integer(2),
            Token::Mul,
            Token::Integer(3),
            Token::Semicolon,
        ]
    );
}

#[test]
fn lexer_knows_every_reserved_word() {
    assert_eq!(
        tokens("import from as let type yeet if else while for loop return break continue null"),
        vec![
            Token::Import,
            Token::From,
            Token::As,
            Token::Let,
            Token::Type,
            Token::Yeet,
            Token::If,
            Token::Else,
            Token::While,
            Token::For,
            Token::Loop,
            Token::Return,
            Token::Break,
            Token::Continue,
            Token::Null,
        ]
    );
    assert_eq!(
        tokens("int float string bool char void and or not"),
        vec![
            Token::IntType,
            Token::FloatType,
            Token::StringType,
            Token::BoolType,
            Token::CharType,
            Token::VoidType,
            Token::And,
            Token::Or,
            Token::Not,
        ]
    );
}

#[test]
fn lexer_knows_every_operator_and_mark() {
    assert_eq!(
        tokens("+ - * / % += -= *= /= == >= > <= < && || ! = ( ) [ ] { } , ; : . & =>"),
        vec![
            Token::Add,
            Token::Sub,
            Token::Mul,
            Token::Div,
            Token::Mod,
            Token::AddAssign,
            Token::SubAssign,
            Token::MulAssign,
            Token::DivAssign,
            Token::Equal,
            Token::GreaterEqual,
            Token::GreaterThan,
            Token::LessEqual,
            Token::LessThan,
            Token::And,
            Token::Or,
            Token::Not,
            Token::Assign,
            Token::LParen,
            Token::RParen,
            Token::LBracket,
            Token::RBracket,
            Token::LBrace,
            Token::RBrace,
            Token::Comma,
            Token::Semicolon,
            Token::Colon,
            Token::Dot,
            Token::Ref,
            Token::FuncArrow,
        ]
    );
}

#[test]
fn lexer_stops_where_no_token_can_be_read() {
    assert_eq!(tokens("a # b"), vec![Token::Identifier("a".to_string())]);
    assert_eq!(tokens("x \"open"), vec![Token::Identifier("x".to_string())]);
    assert_eq!(tokens(""), Vec::<Token>::new());
    assert_eq!(tokens("   // only a comment"), Vec::<Token>::new());
}

#[test]
fn a_dot_before_digits_makes_a_float() {
    assert_eq!(
        tokens("a.5"),
        vec![Token::Identifier("a".to_string()), Token::Float(".5".to_string())]
    );
    assert_eq!(
        tokens("a.b"),
        vec![Token::Identifier("a".to_string()), Token::Dot, Token::Identifier("b".to_string())]
    );
}

#[test]
fn tokens_and_skipped_text_make_up_the_source() {
    let source = "let  a /* c */= 0x1F ;// end\n b";
    let text = chars(source);
    let mut raw = RawLexer::new(source);
    let mut rebuilt = String::new();
    let mut at = 0usize;
    let expected = [("let", 0, 3), ("a", 5, 6), ("=", 14, 15), ("0x1F", 16, 20), (";", 21, 22), ("b", 30, 31)];
    for (lexeme, start, end) in expected {
        let token = raw.next().unwrap();
        let (again, len) = Token::scan(&text[start..]).unwrap();
        assert_eq!(again, token);
        assert_eq!(len, end - start);
        assert_eq!(Token::scan(&text[start..end]), Some((token.clone(), end - start)));
        assert_eq!(Token::parse_from_str(lexeme), Some((token.clone(), end - start)));
        let skipped = string_of(&text, at, start);
        let mut only_skipped = RawLexer::new(&skipped);
        assert_eq!(only_skipped.next(), None);
        assert_eq!(string_of(&text, start, end), lexeme);
        rebuilt.push_str(&string_of(&text, at, start));
        rebuilt.push_str(lexeme);
        at = end;
    }
    assert_eq!(raw.next(), None);
    assert_eq!(rebuilt, source);
}

#[test]
fn peek_does_not_take_the_token() {
    let mut lexer = Lexer::new("a b");
    assert_eq!(lexer.peek(), Some(&Token::Identifier("a".to_string())));
    assert_eq!(lexer.peek(), Some(&Token::Identifier("a".to_string())));
    assert_eq!(lexer.peek_at(1), Some(&Token::Identifier("b".to_string())));
    assert_eq!(lexer.peek_at(2), None);
    assert_eq!(lexer.next(), Some(Token::Identifier("a".to_string())));
    assert_eq!(lexer.peek(), Some(&Token::Identifier("b".to_string())));
    assert_eq!(lexer.next(), Some(Token::Identifier("b".to_string())));
    assert_eq!(lexer.peek(), None);
    assert_eq!(lexer.next(), None);
}

#[test]
fn parse_token_takes_only_the_token_asked_for() {
    let mut lexer = Lexer::new("( x");
    assert!(matches!(lexer.parse_token(&Token::RParen), Err(ParseError::UnexpectedToken(Token::LParen))));
    assert!(matches!(lexer.parse_token(&Token::LParen), Ok(Token::LParen)));
    assert!(matches!(lexer.parse_token(&Token::LParen), Err(ParseError::UnexpectedToken(Token::Identifier(_)))));
    assert!(matches!(lexer.parse_ident(), Ok(name) if name == "x"));
    assert!(matches!(lexer.parse_token(&Token::LParen), Err(ParseError::UnexpectedEOF())));
}

#[test]
fn expect_next_and_expect_peek_fail_at_the_end() {
    let mut lexer = Lexer::new(";");
    assert!(matches!(lexer.expect_peek(), Ok(&Token::Semicolon)));
    assert!(matches!(lexer.expect_next(), Ok(Token::Semicolon)));
    assert!(matches!(lexer.expect_peek(), Err(ParseError::UnexpectedEOF())));
    assert!(matches!(lexer.expect_next(), Err(ParseError::UnexpectedEOF())));
}

#[test]
fn typed_helpers_take_their_kind_of_token() {
    let mut lexer = Lexer::new("name \"text\" 42 1.5 'c'");
    assert!(matches!(lexer.parse_int(), Err(ParseError::UnexpectedToken(Token::Identifier(_)))));
    assert!(matches!(lexer.parse_ident(), Ok(name) if name == "name"));
    assert!(matches!(lexer.parse_ident(), Err(ParseError::UnexpectedToken(Token::String(_)))));
    assert!(matches!(lexer.parse_string(), Ok(text) if text == "text"));
    assert!(matches!(lexer.parse_string(), Err(ParseError::UnexpectedToken(Token::Integer(42)))));
    assert!(matches!(lexer.parse_int(), Ok(42)));
    assert!(matches!(lexer.parse_char(), Err(ParseError::UnexpectedToken(Token::Float(_)))));
    assert!(matches!(lexer.parse_float(), Ok(text) if text == "1.5"));
    assert!(matches!(lexer.parse_bool(), Err(ParseError::UnexpectedToken(Token::Char('c')))));
    assert!(matches!(lexer.parse_char(), Ok('c')));
    assert!(matches!(lexer.parse_bool(), Err(ParseError::UnexpectedEOF())));
    assert!(matches!(lexer.parse_float(), Err(ParseError::UnexpectedEOF())));
}

#[test]
fn token_clone_and_equality() {
    let token = Token::String("a".to_string());
    assert_eq!(token.clone(), token);
    assert_ne!(Token::String("a".to_string()), Token::Identifier("a".to_string()));
    assert_ne!(Token::Integer(1), Token::Integer(2));
    assert_ne!(Token::LParen, Token::RParen);
}

#[test]
fn true_and_false_are_boolean_literals() {
    let mut lexer = Lexer::new("true;");
    assert!(matches!(lexer.parse_bool(), Ok(true)));
    assert_eq!(lexer.peek(), Some(&Token::Semicolon));
    assert_eq!(
        tokens("true false truth not_false"),
        vec![
            Token::Bool(true),
            Token::Bool(false),
            Token::Identifier("truth".to_string()),
            Token::Identifier("not_false".to_string()),
        ]
    );
    let mut lexer = Lexer::new("false x");
    assert!(matches!(lexer.parse_ident(), Err(ParseError::UnexpectedToken(Token::Bool(false)))));
    assert!(matches!(lexer.parse_bool(), Ok(false)));
    assert!(matches!(lexer.parse_bool(), Err(ParseError::UnexpectedToken(Token::Identifier(_)))));
}

#[test]
fn slices_of_characters_are_read_like_strings() {
    let text = chars("0x1F+");
    assert_eq!(scan_int_literal(&text), Some((31, 4)));
    assert_eq!(scan_float_literal(&chars("2.50x")), Some(("2.50".to_string(), 4)));
    assert_eq!(scan_char_literal(&chars("'z'")), Some(('z', 3)));
    assert_eq!(scan_string_literal(&chars("\"ab\"c")), Some(("ab".to_string(), 4)));
    assert_eq!(scan_identifier(&chars("ab cd")), Some(("ab".to_string(), 2)));
    assert_eq!(Base::of(&chars("0b1")), Base::Binary);
    assert_eq!(Token::scan_identifier(&chars("while")), Some((Token::While, 5)));
    assert_eq!(Token::scan_literal(&chars("7")), Some((Token::Integer(7), 1)));
    assert_eq!(Token::scan_basic_token(&chars("=>x")), Some((Token::FuncArrow, 2)));
    assert_eq!(Token::scan(&[]), None);
    let mut raw = RawLexer::new("a--b");
    raw.skip_past(&['-', '-']);
    assert_eq!(raw.next(), Some(Token::Identifier("b".to_string())));
}

#[test]
fn a_string_literal_is_counted_in_characters() {
    assert_eq!(parse_string_literal("\"\u{e9}\" x"), Some(("\u{e9}".to_string(), 3)));
    assert_eq!(Token::parse_from_str(""), None);
}
