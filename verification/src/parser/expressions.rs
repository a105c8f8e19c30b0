//! Expressions: the precedence-climbing parser.
use vstd::prelude::*;
use crate::lexer::lexer::Lexer;
use crate::lexer::token::Token;
pub use crate::parser::ast::Expression;
use crate::parser::grammar::{
    spec_array_literal, spec_atom, spec_e1, spec_e2, spec_e3, spec_e4, spec_e5, spec_e5_rest,
    spec_e6, spec_e6_rest, spec_e7, spec_e8, spec_e9, spec_e9_rest, spec_expression_list,
    spec_field, spec_field_list, spec_function_literal, spec_grouping, spec_is_func_literal,
    spec_parse_block, spec_parse_expression, spec_struct_literal,
};
use crate::parser::laws::{lemma_parse_expression_well_formed, well_formed_expr};
use crate::parser::helpers::{
    build_hashmap_from_entries, keyed, lemma_duplicate_key_by_keys, parses_as, ParseError,
    ParseErrorView,
};
use crate::parser::statements::parse_block;
use crate::parser::types::{parse_type, parse_typed_names, Type};

verus! {

/// Reads an expression. The expression is well formed.
#[verifier::spinoff_prover]
pub fn parse_expression(lexer: &mut Lexer) -> (r: Result<Expression, ParseError>)
    ensures
        parses_as(
            r,
            *old(lexer),
            *final(lexer),
            spec_parse_expression(old(lexer).tokens(), old(lexer).pos()),
        ),
        r matches Ok(e) ==> well_formed_expr(e@),
    decreases old(lexer).remaining(), 11nat,
{
    reveal_with_fuel(spec_parse_expression, 1);
    reveal_with_fuel(spec_e1, 1);
    let ghost tokens = lexer.tokens();
    let ghost start = lexer.pos();
    let r = parse_e1(lexer);
    proof {
        lemma_parse_expression_well_formed(tokens, start);
    }
    r
}

/// Reads `a or b`.
#[verifier::spinoff_prover]
pub fn parse_e1(lexer: &mut Lexer) -> (r: Result<Expression, ParseError>)
    ensures
        parses_as(r, *old(lexer), *final(lexer), spec_e1(old(lexer).tokens(), old(lexer).pos())),
    decreases old(lexer).remaining(), 10nat,
{
    reveal_with_fuel(spec_e1, 1);
    reveal_with_fuel(spec_e2, 1);
    let lhs = parse_e2(lexer)?;
    if let Ok(_) = lexer.parse_token(&Token::Or) {
        let rhs = parse_e1(lexer)?;
        Ok(Expression::Or(Box::new(lhs), Box::new(rhs)))
    } else {
        Ok(lhs)
    }
}

/// Reads `a and b`.
#[verifier::spinoff_prover]
pub fn parse_e2(lexer: &mut Lexer) -> (r: Result<Expression, ParseError>)
    ensures
        parses_as(r, *old(lexer), *final(lexer), spec_e2(old(lexer).tokens(), old(lexer).pos())),
    decreases old(lexer).remaining(), 9nat,
{
    reveal_with_fuel(spec_e2, 1);
    reveal_with_fuel(spec_e3, 1);
    let lhs = parse_e3(lexer)?;
    if let Ok(_) = lexer.parse_token(&Token::And) {
        let rhs = parse_e2(lexer)?;
        Ok(Expression::And(Box::new(lhs), Box::new(rhs)))
    } else {
        Ok(lhs)
    }
}

/// Reads `not a`.
#[verifier::spinoff_prover]
pub fn parse_e3(lexer: &mut Lexer) -> (r: Result<Expression, ParseError>)
    ensures
        parses_as(r, *old(lexer), *final(lexer), spec_e3(old(lexer).tokens(), old(lexer).pos())),
    decreases old(lexer).remaining(), 8nat,
{
    reveal_with_fuel(spec_e3, 1);
    reveal_with_fuel(spec_e4, 1);
    if let Ok(_) = lexer.parse_token(&Token::Not) {
        let expr = parse_e3(lexer)?;
        Ok(Expression::Not(Box::new(expr)))
    } else {
        parse_e4(lexer)
    }
}

/// Reads a comparison.
#[verifier::spinoff_prover]
pub fn parse_e4(lexer: &mut Lexer) -> (r: Result<Expression, ParseError>)
    ensures
        parses_as(r, *old(lexer), *final(lexer), spec_e4(old(lexer).tokens(), old(lexer).pos())),
    decreases old(lexer).remaining(), 7nat,
{
    reveal_with_fuel(spec_e4, 1);
    reveal_with_fuel(spec_e5, 1);
    let lhs = parse_e5(lexer)?;
    match lexer.expect_peek() {
        Err(e) => Err(e),
        Ok(Token::Equal) => {
            lexer.next();
            let rhs = parse_e4(lexer)?;
            Ok(Expression::Equal(Box::new(lhs), Box::new(rhs)))
        },
        Ok(Token::GreaterThan) => {
            lexer.next();
            let rhs = parse_e4(lexer)?;
            Ok(Expression::GreaterThan(Box::new(lhs), Box::new(rhs)))
        },
        Ok(Token::GreaterEqual) => {
            lexer.next();
            let rhs = parse_e4(lexer)?;
            Ok(Expression::GreaterEqual(Box::new(lhs), Box::new(rhs)))
        },
        Ok(Token::LessThan) => {
            lexer.next();
            let rhs = parse_e4(lexer)?;
            Ok(Expression::LessThan(Box::new(lhs), Box::new(rhs)))
        },
        Ok(Token::LessEqual) => {
            lexer.next();
            let rhs = parse_e4(lexer)?;
            Ok(Expression::LessEqual(Box::new(lhs), Box::new(rhs)))
        },
        Ok(_) => Ok(lhs),
    }
}

/// Reads a sum.
#[verifier::spinoff_prover]
pub fn parse_e5(lexer: &mut Lexer) -> (r: Result<Expression, ParseError>)
    ensures
        parses_as(r, *old(lexer), *final(lexer), spec_e5(old(lexer).tokens(), old(lexer).pos())),
    decreases old(lexer).remaining(), 6nat,
{
    reveal_with_fuel(spec_e5, 1);
    reveal_with_fuel(spec_e5_rest, 1);
    reveal_with_fuel(spec_e6, 1);
    let ghost tokens = lexer.tokens();
    let ghost start = lexer.pos();
    let mut lhs = parse_e6(lexer)?;
    let ghost first = spec_e6(tokens, start);
    loop
        invariant
            lexer.tokens() == tokens,
            tokens == old(lexer).tokens(),
            start == old(lexer).pos(),
            first == spec_e6(tokens, start),
            first.value is Ok,
            start + first.used <= lexer.pos() <= tokens.len(),
            ({
                let whole = spec_e5_rest(tokens, start + first.used, first.value->Ok_0);
                let rest = spec_e5_rest(tokens, lexer.pos(), lhs@);
                whole.value == rest.value && whole.used == lexer.pos() - (start + first.used)
                    + rest.used
            }),
        decreases lexer.remaining(),
    {
        reveal_with_fuel(spec_e5, 1);
        reveal_with_fuel(spec_e5_rest, 1);
        reveal_with_fuel(spec_e6, 1);
        match lexer.peek() {
            Some(Token::Add) => {
                lexer.next();
                let rhs = parse_e6(lexer)?;
                lhs = Expression::Add(Box::new(lhs), Box::new(rhs));
            },
            Some(Token::Sub) => {
                lexer.next();
                let rhs = parse_e6(lexer)?;
                lhs = Expression::Sub(Box::new(lhs), Box::new(rhs));
            },
            _ => {
                return Ok(lhs);
            },
        }
    }
}

/// Reads a product.
#[verifier::spinoff_prover]
pub fn parse_e6(lexer: &mut Lexer) -> (r: Result<Expression, ParseError>)
    ensures
        parses_as(r, *old(lexer), *final(lexer), spec_e6(old(lexer).tokens(), old(lexer).pos())),
    decreases old(lexer).remaining(), 5nat,
{
    reveal_with_fuel(spec_e6, 1);
    reveal_with_fuel(spec_e6_rest, 1);
    reveal_with_fuel(spec_e7, 1);
    let ghost tokens = lexer.tokens();
    let ghost start = lexer.pos();
    let mut lhs = parse_e7(lexer)?;
    let ghost first = spec_e7(tokens, start);
    loop
        invariant
            lexer.tokens() == tokens,
            tokens == old(lexer).tokens(),
            start == old(lexer).pos(),
            first == spec_e7(tokens, start),
            first.value is Ok,
            start + first.used <= lexer.pos() <= tokens.len(),
            ({
                let whole = spec_e6_rest(tokens, start + first.used, first.value->Ok_0);
                let rest = spec_e6_rest(tokens, lexer.pos(), lhs@);
                whole.value == rest.value && whole.used == lexer.pos() - (start + first.used)
                    + rest.used
            }),
        decreases lexer.remaining(),
    {
        reveal_with_fuel(spec_e6, 1);
        reveal_with_fuel(spec_e6_rest, 1);
        reveal_with_fuel(spec_e7, 1);
        match lexer.peek() {
            Some(Token::Mul) => {
                lexer.next();
                let rhs = parse_e7(lexer)?;
                lhs = Expression::Mul(Box::new(lhs), Box::new(rhs));
            },
            Some(Token::Div) => {
                lexer.next();
                let rhs = parse_e7(lexer)?;
                lhs = Expression::Div(Box::new(lhs), Box::new(rhs));
            },
            Some(Token::Mod) => {
                lexer.next();
                let rhs = parse_e7(lexer)?;
                lhs = Expression::Mod(Box::new(lhs), Box::new(rhs));
            },
            _ => {
                return Ok(lhs);
            },
        }
    }
}

/// Reads `-a`.
#[verifier::spinoff_prover]
pub fn parse_e7(lexer: &mut Lexer) -> (r: Result<Expression, ParseError>)
    ensures
        parses_as(r, *old(lexer), *final(lexer), spec_e7(old(lexer).tokens(), old(lexer).pos())),
    decreases old(lexer).remaining(), 4nat,
{
    reveal_with_fuel(spec_e7, 1);
    reveal_with_fuel(spec_e8, 1);
    if let Ok(_) = lexer.parse_token(&Token::Sub) {
        let expr = parse_e7(lexer)?;
        Ok(Expression::Neg(Box::new(expr)))
    } else {
        parse_e8(lexer)
    }
}

/// Reads `&a` and `*a`.
#[verifier::spinoff_prover]
pub fn parse_e8(lexer: &mut Lexer) -> (r: Result<Expression, ParseError>)
    ensures
        parses_as(r, *old(lexer), *final(lexer), spec_e8(old(lexer).tokens(), old(lexer).pos())),
    decreases old(lexer).remaining(), 3nat,
{
    reveal_with_fuel(spec_e8, 1);
    reveal_with_fuel(spec_e9, 1);
    if let Ok(_) = lexer.parse_token(&Token::Ref) {
        let expr = parse_e8(lexer)?;
        Ok(Expression::Ref(Box::new(expr)))
    } else if let Ok(_) = lexer.parse_token(&Token::Mul) {
        let expr = parse_e8(lexer)?;
        Ok(Expression::Deref(Box::new(expr)))
    } else {
        parse_e9(lexer)
    }
}

/// Reads an atom and the calls, indexings and field accesses after it.
#[verifier::spinoff_prover]
pub fn parse_e9(lexer: &mut Lexer) -> (r: Result<Expression, ParseError>)
    ensures
        parses_as(r, *old(lexer), *final(lexer), spec_e9(old(lexer).tokens(), old(lexer).pos())),
    decreases old(lexer).remaining(), 2nat,
{
    reveal_with_fuel(spec_e9, 1);
    reveal_with_fuel(spec_e9_rest, 1);
    reveal_with_fuel(spec_atom, 1);
    reveal_with_fuel(spec_expression_list, 1);
    reveal_with_fuel(spec_parse_expression, 1);
    let ghost tokens = lexer.tokens();
    let ghost start = lexer.pos();
    let mut expr = parse_literal(lexer)?;
    let ghost first = spec_atom(tokens, start);
    loop
        invariant
            lexer.tokens() == tokens,
            tokens == old(lexer).tokens(),
            start == old(lexer).pos(),
            first == spec_atom(tokens, start),
            first.value is Ok,
            start + first.used <= lexer.pos() <= tokens.len(),
            ({
                let whole = spec_e9_rest(tokens, start + first.used, first.value->Ok_0);
                let rest = spec_e9_rest(tokens, lexer.pos(), expr@);
                whole.value == rest.value && whole.used == lexer.pos() - (start + first.used)
                    + rest.used
            }),
        decreases lexer.remaining(),
    {
        reveal_with_fuel(spec_e9, 1);
        reveal_with_fuel(spec_e9_rest, 1);
        reveal_with_fuel(spec_atom, 1);
        reveal_with_fuel(spec_expression_list, 1);
        reveal_with_fuel(spec_parse_expression, 1);
        match lexer.expect_peek() {
            Err(e) => {
                return Err(e);
            },
            Ok(Token::LParen) => {
                lexer.next();
                let args = parse_expression_list(lexer, &Token::RParen)?;
                let callee = Box::new(expr);
                proof {
                    Expression::lemma_call_model(callee, args);
                }
                expr = Expression::Call { expr: callee, args };
            },
            Ok(Token::LBracket) => {
                lexer.next();
                let index = parse_expression(lexer)?;
                lexer.parse_token(&Token::RBracket)?;
                expr = Expression::Index { expr: Box::new(expr), index: Box::new(index) };
            },
            Ok(Token::Dot) => {
                lexer.next();
                let field = lexer.parse_ident()?;
                expr = Expression::Dot { expr: Box::new(expr), field };
            },
            Ok(_) => {
                return Ok(expr);
            },
        }
    }
}

/// Reads an atom.
#[verifier::spinoff_prover]
pub fn parse_literal(lexer: &mut Lexer) -> (r: Result<Expression, ParseError>)
    ensures
        parses_as(r, *old(lexer), *final(lexer), spec_atom(old(lexer).tokens(), old(lexer).pos())),
    decreases old(lexer).remaining(), 1nat,
{
    reveal_with_fuel(spec_atom, 1);
    reveal_with_fuel(spec_struct_literal, 1);
    reveal_with_fuel(spec_array_literal, 1);
    reveal_with_fuel(spec_grouping, 1);
    reveal_with_fuel(spec_function_literal, 1);
    match lexer.expect_peek() {
        Err(e) => Err(e),
        Ok(Token::Integer(_)) => {
            let value = lexer.parse_int()?;
            Ok(Expression::Int(value))
        },
        Ok(Token::Null) => {
            lexer.next();
            Ok(Expression::Null)
        },
        Ok(Token::Float(_)) => {
            let text = lexer.parse_float()?;
            Ok(Expression::Float(text))
        },
        Ok(Token::Char(_)) => {
            let c = lexer.parse_char()?;
            Ok(Expression::Char(c))
        },
        Ok(Token::Bool(_)) => {
            let b = lexer.parse_bool()?;
            Ok(Expression::Bool(b))
        },
        Ok(Token::String(_)) => {
            let text = lexer.parse_string()?;
            Ok(Expression::String(text))
        },
        Ok(Token::Identifier(_)) => {
            let name = lexer.parse_ident()?;
            Ok(Expression::Identifier(name))
        },
        Ok(Token::LBrace) => parse_struct_literal(lexer),
        Ok(Token::LBracket) => parse_array_literal(lexer),
        Ok(Token::LParen) => {
            if let Ok(_) = is_func_literal(lexer) {
                parse_function_literal(lexer)
            } else {
                parse_grouping(lexer)
            }
        },
        Ok(token) => Err(ParseError::UnexpectedToken(token.clone())),
    }
}

/// Reads a record literal.
#[verifier::spinoff_prover]
pub fn parse_struct_literal(lexer: &mut Lexer) -> (r: Result<Expression, ParseError>)
    ensures
        parses_as(
            r,
            *old(lexer),
            *final(lexer),
            spec_struct_literal(old(lexer).tokens(), old(lexer).pos()),
        ),
    decreases old(lexer).remaining(), 0nat,
{
    reveal_with_fuel(spec_struct_literal, 1);
    reveal_with_fuel(spec_field_list, 1);
    lexer.parse_token(&Token::LBrace)?;
    let fields = parse_field_list(lexer)?;
    proof {
        lemma_duplicate_key_by_keys(keyed(fields@), fields.deep_view());
    }
    let fields = build_hashmap_from_entries(fields)?;
    proof {
        Expression::lemma_struct_model(fields);
    }
    Ok(Expression::StructLiteral(fields))
}

/// Reads an array literal.
#[verifier::spinoff_prover]
pub fn parse_array_literal(lexer: &mut Lexer) -> (r: Result<Expression, ParseError>)
    ensures
        parses_as(
            r,
            *old(lexer),
            *final(lexer),
            spec_array_literal(old(lexer).tokens(), old(lexer).pos()),
        ),
    decreases old(lexer).remaining(), 0nat,
{
    reveal_with_fuel(spec_array_literal, 1);
    reveal_with_fuel(spec_expression_list, 1);
    lexer.parse_token(&Token::LBracket)?;
    let items = parse_expression_list(lexer, &Token::RBracket)?;
    proof {
        Expression::lemma_array_model(items);
    }
    Ok(Expression::ArrayLiteral(items))
}

/// Reads a parenthesised list of expressions.
#[verifier::spinoff_prover]
pub fn parse_grouping(lexer: &mut Lexer) -> (r: Result<Expression, ParseError>)
    ensures
        parses_as(
            r,
            *old(lexer),
            *final(lexer),
            spec_grouping(old(lexer).tokens(), old(lexer).pos()),
        ),
    decreases old(lexer).remaining(), 0nat,
{
    reveal_with_fuel(spec_grouping, 1);
    reveal_with_fuel(spec_expression_list, 1);
    lexer.parse_token(&Token::LParen)?;
    let mut items = parse_expression_list(lexer, &Token::RParen)?;
    if items.len() == 1 {
        let ghost all = items.deep_view();
        let only = items.pop();
        match only {
            Some(expr) => {
                assert(expr@ == all[0]);
                Ok(expr)
            },
            None => Ok(Expression::Null),
        }
    } else {
        proof {
            Expression::lemma_tuple_model(items);
        }
        Ok(Expression::TupleLiteral(items))
    }
}

/// Tells, without taking any token, whether a function literal starts
/// here.
#[verifier::spinoff_prover]
pub fn is_func_literal(lexer: &Lexer) -> (r: Result<(), ParseError>)
    ensures
        match r {
            Ok(_) => spec_is_func_literal(lexer.tokens(), lexer.pos()) is Ok,
            Err(e) => spec_is_func_literal(lexer.tokens(), lexer.pos()) == Err::<
                (),
                ParseErrorView,
            >(e@),
        },
{
    match lexer.peek_at(0) {
        None => {
            return Err(ParseError::UnexpectedEOF());
        },
        Some(Token::LParen) => {},
        Some(token) => {
            return Err(ParseError::UnexpectedToken(token.clone()));
        },
    }
    match lexer.peek_at(1) {
        None => {
            return Err(ParseError::UnexpectedEOF());
        },
        Some(Token::RParen) => {
            return Ok(());
        },
        Some(Token::Identifier(_)) => {},
        Some(token) => {
            return Err(ParseError::UnexpectedToken(token.clone()));
        },
    }
    match lexer.peek_at(2) {
        None => Err(ParseError::UnexpectedEOF()),
        Some(Token::Colon) => Ok(()),
        Some(token) => Err(ParseError::UnexpectedToken(token.clone())),
    }
}

/// Reads a function literal.
#[verifier::spinoff_prover]
pub fn parse_function_literal(lexer: &mut Lexer) -> (r: Result<Expression, ParseError>)
    ensures
        parses_as(
            r,
            *old(lexer),
            *final(lexer),
            spec_function_literal(old(lexer).tokens(), old(lexer).pos()),
        ),
    decreases old(lexer).remaining(), 0nat,
{
    reveal_with_fuel(spec_function_literal, 1);
    reveal_with_fuel(spec_parse_block, 1);
    lexer.parse_token(&Token::LParen)?;
    let args = parse_typed_names(lexer, &Token::RParen)?;
    let ret = if let Ok(_) = lexer.parse_token(&Token::Colon) {
        parse_type(lexer)?
    } else {
        Type::Void
    };
    lexer.parse_token(&Token::FuncArrow)?;
    let body = parse_block(lexer, true)?;
    proof {
        Expression::lemma_function_model(args, ret, body);
    }
    Ok(Expression::FunctionLiteral { args, ret, body })
}

/// Reads the rest of a list of expressions after its opening token, up to
/// the token `end`.
#[verifier::spinoff_prover]
pub fn parse_expression_list(lexer: &mut Lexer, end: &Token) -> (r: Result<
    Vec<Expression>,
    ParseError,
>)
    ensures
        parses_as(
            r,
            *old(lexer),
            *final(lexer),
            spec_expression_list(old(lexer).tokens(), old(lexer).pos(), Seq::empty(), end@),
        ),
    decreases old(lexer).remaining(), 12nat,
{
    reveal_with_fuel(spec_expression_list, 1);
    reveal_with_fuel(spec_parse_expression, 1);
    let ghost tokens = lexer.tokens();
    let ghost start = lexer.pos();
    let mut items: Vec<Expression> = Vec::new();
    assert(items.deep_view() =~= Seq::empty());
    loop
        invariant
            lexer.tokens() == tokens,
            start <= lexer.pos(),
            tokens == old(lexer).tokens(),
            start == old(lexer).pos(),
            ({
                let whole = spec_expression_list(tokens, start, Seq::empty(), end@);
                let rest = spec_expression_list(tokens, lexer.pos(), items.deep_view(), end@);
                whole.value == rest.value && whole.used == lexer.pos() - start + rest.used
            }),
        decreases lexer.remaining(),
    {
        reveal_with_fuel(spec_expression_list, 1);
        reveal_with_fuel(spec_parse_expression, 1);
        if let Ok(_) = lexer.parse_token(end) {
            return Ok(items);
        }
        let ghost before = items.deep_view();
        let item = parse_expression(lexer)?;
        items.push(item);
        assert(items.deep_view() =~= before.push(item@));
        if let Ok(_) = lexer.parse_token(end) {
            return Ok(items);
        }
        lexer.parse_token(&Token::Comma)?;
    }
}

/// Reads one `name: e` of a record literal.
#[verifier::spinoff_prover]
pub fn parse_field(lexer: &mut Lexer) -> (r: Result<(String, Expression), ParseError>)
    ensures
        parses_as(r, *old(lexer), *final(lexer), spec_field(old(lexer).tokens(), old(lexer).pos())),
    decreases old(lexer).remaining(), 12nat,
{
    reveal_with_fuel(spec_field, 1);
    reveal_with_fuel(spec_parse_expression, 1);
    let name = lexer.parse_ident()?;
    lexer.parse_token(&Token::Colon)?;
    let expr = parse_expression(lexer)?;
    Ok((name, expr))
}

/// Reads the rest of the fields of a record literal after its `{`.
#[verifier::spinoff_prover]
pub fn parse_field_list(lexer: &mut Lexer) -> (r: Result<Vec<(String, Expression)>, ParseError>)
    ensures
        parses_as(
            r,
            *old(lexer),
            *final(lexer),
            spec_field_list(old(lexer).tokens(), old(lexer).pos(), Seq::empty()),
        ),
    decreases old(lexer).remaining(), 13nat,
{
    reveal_with_fuel(spec_field_list, 1);
    reveal_with_fuel(spec_field, 1);
    let ghost tokens = lexer.tokens();
    let ghost start = lexer.pos();
    let mut items: Vec<(String, Expression)> = Vec::new();
    assert(items.deep_view() =~= Seq::empty());
    loop
        invariant
            lexer.tokens() == tokens,
            start <= lexer.pos(),
            tokens == old(lexer).tokens(),
            start == old(lexer).pos(),
            ({
                let whole = spec_field_list(tokens, start, Seq::empty());
                let rest = spec_field_list(tokens, lexer.pos(), items.deep_view());
                whole.value == rest.value && whole.used == lexer.pos() - start + rest.used
            }),
        decreases lexer.remaining(),
    {
        reveal_with_fuel(spec_field_list, 1);
        reveal_with_fuel(spec_field, 1);
        if let Ok(_) = lexer.parse_token(&Token::RBrace) {
            return Ok(items);
        }
        let ghost before = items.deep_view();
        let item = parse_field(lexer)?;
        let ghost entry = item.deep_view();
        items.push(item);
        assert(items.deep_view() =~= before.push(entry));
        if let Ok(_) = lexer.parse_token(&Token::RBrace) {
            return Ok(items);
        }
        lexer.parse_token(&Token::Comma)?;
    }
}

} // verus!
