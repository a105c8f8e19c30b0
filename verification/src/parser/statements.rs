//! Statements: the parser of statements and blocks.
use vstd::prelude::*;
use crate::lexer::lexer::{token_at, Lexer};
use crate::lexer::token::{Token, TokenView};
use crate::parser::ast::{ExprView, Expression};
pub use crate::parser::ast::{Block, ElseStatement, ImportIdentifier, Statement};
use crate::parser::expressions::parse_expression;
use crate::parser::grammar::{
    lemma_statement_uses_tokens, spec_assign_or_expr, spec_block_rest, spec_if_tail,
    spec_import, spec_import_item, spec_import_list, spec_parse_block, spec_parse_expression,
    spec_parse_statement, spec_return, spec_type_annotation, spec_type_def, spec_var_def,
    spec_while,
};
use crate::lexer::laws::integers_not_negative;
use crate::parser::helpers::{parses_as, ParseError};
use crate::parser::laws::{
    lemma_parse_block_well_formed, lemma_parse_statement_well_formed, well_formed_block,
    well_formed_stmt,
};
use crate::parser::types::{parse_type, Type};

verus! {

/// Reads one name of an import.
#[verifier::spinoff_prover]
pub fn parse_import_item(lexer: &mut Lexer) -> (r: Result<ImportIdentifier, ParseError>)
    ensures
        parses_as(
            r,
            *old(lexer),
            *final(lexer),
            spec_import_item(old(lexer).tokens(), old(lexer).pos()),
        ),
{
    let name = lexer.parse_ident()?;
    match lexer.expect_peek() {
        Err(e) => Err(e),
        Ok(Token::As) => {
            lexer.next();
            let alias = lexer.parse_ident()?;
            Ok(ImportIdentifier { name, alias })
        },
        Ok(_) => {
            let alias = name.clone();
            Ok(ImportIdentifier { name, alias })
        },
    }
}

/// Reads the rest of the names of an import after the word `import`, up to
/// the word `from`.
#[verifier::spinoff_prover]
pub fn parse_import_list(lexer: &mut Lexer) -> (r: Result<Vec<ImportIdentifier>, ParseError>)
    ensures
        parses_as(
            r,
            *old(lexer),
            *final(lexer),
            spec_import_list(old(lexer).tokens(), old(lexer).pos(), Seq::empty()),
        ),
{
    reveal_with_fuel(spec_import_list, 1);
    let ghost tokens = lexer.tokens();
    let ghost start = lexer.pos();
    let mut items: Vec<ImportIdentifier> = Vec::new();
    assert(items.deep_view() =~= Seq::empty());
    loop
        invariant
            lexer.tokens() == tokens,
            start <= lexer.pos(),
            tokens == old(lexer).tokens(),
            start == old(lexer).pos(),
            ({
                let whole = spec_import_list(tokens, start, Seq::empty());
                let rest = spec_import_list(tokens, lexer.pos(), items.deep_view());
                whole.value == rest.value && whole.used == lexer.pos() - start + rest.used
            }),
        decreases lexer.remaining(),
    {
        reveal_with_fuel(spec_import_list, 1);
        if let Ok(_) = lexer.parse_token(&Token::From) {
            return Ok(items);
        }
        let ghost before = items.deep_view();
        let item = parse_import_item(lexer)?;
        items.push(item);
        assert(items.deep_view() =~= before.push(item@));
        if let Ok(_) = lexer.parse_token(&Token::From) {
            return Ok(items);
        }
        lexer.parse_token(&Token::Comma)?;
    }
}

/// Reads a block: with `enclosed_by_brackets`, from `{` to the matching
/// `}`; without, to the end of the input. The block is well formed.
#[verifier::spinoff_prover]
pub fn parse_block(lexer: &mut Lexer, enclosed_by_brackets: bool) -> (r: Result<
    Vec<Statement>,
    ParseError,
>)
    ensures
        parses_as(
            r,
            *old(lexer),
            *final(lexer),
            spec_parse_block(old(lexer).tokens(), old(lexer).pos(), enclosed_by_brackets),
        ),
        r matches Ok(block) ==> well_formed_block(block.deep_view()),
    decreases old(lexer).remaining(), 16nat,
{
    reveal_with_fuel(spec_parse_block, 1);
    reveal_with_fuel(spec_block_rest, 1);
    reveal_with_fuel(spec_parse_statement, 1);
    let ghost tokens = lexer.tokens();
    let ghost start = lexer.pos();
    let mut statements: Vec<Statement> = Vec::new();
    assert(statements.deep_view() =~= Seq::empty());
    if enclosed_by_brackets {
        lexer.parse_token(&Token::LBrace)?;
    }
    let ghost first = lexer.pos();
    proof {
        if integers_not_negative(tokens) {
            lemma_parse_block_well_formed(tokens, start, enclosed_by_brackets);
        }
    }
    loop
        invariant
            lexer.tokens() == tokens,
            integers_not_negative(tokens) ==> (spec_parse_block(
                tokens,
                start,
                enclosed_by_brackets,
            ).value matches Ok(block) ==> well_formed_block(block)),
            start <= first <= lexer.pos(),
            tokens == old(lexer).tokens(),
            start == old(lexer).pos(),
            first == start + (if enclosed_by_brackets { 1nat } else { 0nat }),
            enclosed_by_brackets ==> token_at(tokens, start) == Some(TokenView::LBrace),
            ({
                let whole = spec_block_rest(tokens, first, Seq::empty(), enclosed_by_brackets);
                let rest = spec_block_rest(
                    tokens,
                    lexer.pos(),
                    statements.deep_view(),
                    enclosed_by_brackets,
                );
                whole.value == rest.value && whole.used == lexer.pos() - first + rest.used
            }),
        decreases lexer.remaining(),
    {
        reveal_with_fuel(spec_parse_block, 1);
        reveal_with_fuel(spec_block_rest, 1);
        reveal_with_fuel(spec_parse_statement, 1);
        if enclosed_by_brackets {
            if let Ok(_) = lexer.parse_token(&Token::RBrace) {
                return Ok(statements);
            }
        }
        match lexer.peek() {
            Some(_) => {
                let ghost before = statements.deep_view();
                let ghost at = lexer.pos();
                let statement = parse_statement(lexer)?;
                proof {
                    lemma_statement_uses_tokens(tokens, at);
                }
                statements.push(statement);
                assert(statements.deep_view() =~= before.push(statement@));
            },
            None => {
                return Ok(statements);
            },
        }
    }
}

/// Reads what follows the word `if`.
#[verifier::spinoff_prover]
pub fn parse_if_tail(lexer: &mut Lexer) -> (r: Result<Statement, ParseError>)
    ensures
        parses_as(
            r,
            *old(lexer),
            *final(lexer),
            spec_if_tail(old(lexer).tokens(), old(lexer).pos()),
        ),
    decreases old(lexer).remaining(), 17nat,
{
    reveal_with_fuel(spec_if_tail, 1);
    reveal_with_fuel(spec_parse_expression, 1);
    reveal_with_fuel(spec_parse_block, 1);
    let cond = parse_expression(lexer)?;
    let body = parse_block(lexer, true)?;
    let else_stmt = if let Ok(_) = lexer.parse_token(&Token::Else) {
        if let Ok(_) = lexer.parse_token(&Token::If) {
            let inner = parse_if_tail(lexer)?;
            ElseStatement::If(Box::new(inner))
        } else {
            let block = parse_block(lexer, true)?;
            ElseStatement::Block(block)
        }
    } else {
        ElseStatement::Nothing
    };
    proof {
        Statement::lemma_if_model(cond, body, else_stmt);
    }
    Ok(Statement::If { cond, body, else_stmt })
}

/// Reads what follows the expression `expr` at the start of a statement.
#[verifier::spinoff_prover]
pub fn parse_assign_or_expr(lexer: &mut Lexer, expr: Expression) -> (r: Result<
    Statement,
    ParseError,
>)
    ensures
        parses_as(
            r,
            *old(lexer),
            *final(lexer),
            spec_assign_or_expr(old(lexer).tokens(), old(lexer).pos(), expr@),
        ),
    decreases old(lexer).remaining(), 12nat,
{
    reveal_with_fuel(spec_assign_or_expr, 1);
    reveal_with_fuel(spec_parse_expression, 1);
    match lexer.expect_peek() {
        Err(e) => Err(e),
        Ok(Token::Assign) => {
            lexer.next();
            let rhs = parse_expression(lexer)?;
            lexer.parse_token(&Token::Semicolon)?;
            Ok(Statement::Assign { lhs: expr, rhs })
        },
        Ok(Token::AddAssign) => {
            lexer.next();
            let rhs = parse_expression(lexer)?;
            lexer.parse_token(&Token::Semicolon)?;
            let lhs = expr.clone();
            let value = Expression::Add(Box::new(expr), Box::new(rhs));
            assert(value@ == ExprView::Add(Box::new(expr@), Box::new(rhs@)));
            Ok(Statement::Assign { lhs, rhs: value })
        },
        Ok(Token::SubAssign) => {
            lexer.next();
            let rhs = parse_expression(lexer)?;
            lexer.parse_token(&Token::Semicolon)?;
            let lhs = expr.clone();
            let value = Expression::Sub(Box::new(expr), Box::new(rhs));
            assert(value@ == ExprView::Sub(Box::new(expr@), Box::new(rhs@)));
            Ok(Statement::Assign { lhs, rhs: value })
        },
        Ok(Token::MulAssign) => {
            lexer.next();
            let rhs = parse_expression(lexer)?;
            lexer.parse_token(&Token::Semicolon)?;
            let lhs = expr.clone();
            let value = Expression::Mul(Box::new(expr), Box::new(rhs));
            assert(value@ == ExprView::Mul(Box::new(expr@), Box::new(rhs@)));
            Ok(Statement::Assign { lhs, rhs: value })
        },
        Ok(Token::DivAssign) => {
            lexer.next();
            let rhs = parse_expression(lexer)?;
            lexer.parse_token(&Token::Semicolon)?;
            let lhs = expr.clone();
            let value = Expression::Div(Box::new(expr), Box::new(rhs));
            assert(value@ == ExprView::Div(Box::new(expr@), Box::new(rhs@)));
            Ok(Statement::Assign { lhs, rhs: value })
        },
        Ok(Token::Semicolon) => {
            lexer.next();
            Ok(Statement::Expr(expr))
        },
        Ok(token) => Err(ParseError::UnexpectedToken(token.clone())),
    }
}

/// Reads a type definition, from the word `type` on.
#[verifier::spinoff_prover]
pub fn parse_type_def(lexer: &mut Lexer) -> (r: Result<Statement, ParseError>)
    ensures
        parses_as(
            r,
            *old(lexer),
            *final(lexer),
            spec_type_def(old(lexer).tokens(), old(lexer).pos()),
        ),
{
    lexer.expect_next()?;
    let name = lexer.parse_ident()?;
    lexer.parse_token(&Token::Assign)?;
    let typ = parse_type(lexer)?;
    lexer.parse_token(&Token::Semicolon)?;
    Ok(Statement::TypeDef { name, typ })
}

/// Reads the optional `: T` of a variable definition.
#[verifier::spinoff_prover]
pub fn parse_type_annotation(lexer: &mut Lexer) -> (r: Result<Option<Type>, ParseError>)
    ensures
        parses_as(
            r,
            *old(lexer),
            *final(lexer),
            spec_type_annotation(old(lexer).tokens(), old(lexer).pos()),
        ),
{
    match lexer.expect_peek() {
        Err(e) => Err(e),
        Ok(Token::Colon) => {
            lexer.next();
            let ty = parse_type(lexer)?;
            Ok(Some(ty))
        },
        Ok(_) => Ok(None),
    }
}

/// Reads a variable definition, from the word `let` on.
#[verifier::spinoff_prover]
pub fn parse_var_def(lexer: &mut Lexer) -> (r: Result<Statement, ParseError>)
    ensures
        parses_as(
            r,
            *old(lexer),
            *final(lexer),
            spec_var_def(old(lexer).tokens(), old(lexer).pos()),
        ),
    decreases old(lexer).remaining(), 12nat,
{
    reveal_with_fuel(spec_var_def, 1);
    reveal_with_fuel(spec_parse_expression, 1);
    lexer.expect_next()?;
    let name = lexer.parse_ident()?;
    let typ = parse_type_annotation(lexer)?;
    lexer.parse_token(&Token::Assign)?;
    let expr = parse_expression(lexer)?;
    lexer.parse_token(&Token::Semicolon)?;
    Ok(Statement::VarDef { name, typ, expr })
}

/// Reads an import, from the word `import` on.
#[verifier::spinoff_prover]
pub fn parse_import(lexer: &mut Lexer) -> (r: Result<Statement, ParseError>)
    ensures
        parses_as(
            r,
            *old(lexer),
            *final(lexer),
            spec_import(old(lexer).tokens(), old(lexer).pos()),
        ),
{
    lexer.expect_next()?;
    let imports = parse_import_list(lexer)?;
    let path = lexer.parse_string()?;
    lexer.parse_token(&Token::Semicolon)?;
    Ok(Statement::Import { path, imports })
}

/// Reads a `while` loop, from the word `while` on.
#[verifier::spinoff_prover]
pub fn parse_while(lexer: &mut Lexer) -> (r: Result<Statement, ParseError>)
    ensures
        parses_as(
            r,
            *old(lexer),
            *final(lexer),
            spec_while(old(lexer).tokens(), old(lexer).pos()),
        ),
    decreases old(lexer).remaining(), 12nat,
{
    reveal_with_fuel(spec_while, 1);
    reveal_with_fuel(spec_parse_expression, 1);
    reveal_with_fuel(spec_parse_block, 1);
    lexer.expect_next()?;
    let cond = parse_expression(lexer)?;
    let body = parse_block(lexer, true)?;
    proof {
        Statement::lemma_while_model(cond, body);
    }
    Ok(Statement::While { cond, body })
}

/// Reads a `return`, from the word `return` on.
#[verifier::spinoff_prover]
pub fn parse_return(lexer: &mut Lexer) -> (r: Result<Statement, ParseError>)
    ensures
        parses_as(
            r,
            *old(lexer),
            *final(lexer),
            spec_return(old(lexer).tokens(), old(lexer).pos()),
        ),
    decreases old(lexer).remaining(), 12nat,
{
    reveal_with_fuel(spec_return, 1);
    reveal_with_fuel(spec_parse_expression, 1);
    lexer.expect_next()?;
    if let Ok(_) = lexer.parse_token(&Token::Semicolon) {
        Ok(Statement::Return(None))
    } else {
        let expr = parse_expression(lexer)?;
        lexer.parse_token(&Token::Semicolon)?;
        Ok(Statement::Return(Some(expr)))
    }
}

/// Reads a statement. The statement is well formed.
#[verifier::spinoff_prover]
pub fn parse_statement(lexer: &mut Lexer) -> (r: Result<Statement, ParseError>)
    ensures
        parses_as(
            r,
            *old(lexer),
            *final(lexer),
            spec_parse_statement(old(lexer).tokens(), old(lexer).pos()),
        ),
        r matches Ok(s) ==> well_formed_stmt(s@),
    decreases old(lexer).remaining(), 13nat,
{
    proof {
        if integers_not_negative(lexer.tokens()) {
            lemma_parse_statement_well_formed(lexer.tokens(), lexer.pos());
        }
    }
    reveal_with_fuel(spec_parse_statement, 1);
    reveal_with_fuel(spec_parse_expression, 1);
    reveal_with_fuel(spec_parse_block, 1);
    reveal_with_fuel(spec_if_tail, 1);
    reveal_with_fuel(spec_assign_or_expr, 1);
    reveal_with_fuel(spec_var_def, 1);
    reveal_with_fuel(spec_while, 1);
    reveal_with_fuel(spec_return, 1);
    match lexer.expect_peek() {
        Err(e) => Err(e),
        Ok(Token::Type) => parse_type_def(lexer),
        Ok(Token::Let) => parse_var_def(lexer),
        Ok(Token::Import) => parse_import(lexer),
        Ok(Token::While) => parse_while(lexer),
        Ok(Token::Loop) => {
            lexer.next();
            let body = parse_block(lexer, true)?;
            proof {
                Statement::lemma_loop_model(body);
            }
            Ok(Statement::Loop(body))
        },
        Ok(Token::Break) => {
            lexer.next();
            lexer.parse_token(&Token::Semicolon)?;
            Ok(Statement::Break)
        },
        Ok(Token::Continue) => {
            lexer.next();
            lexer.parse_token(&Token::Semicolon)?;
            Ok(Statement::Continue)
        },
        Ok(Token::Return) => parse_return(lexer),
        Ok(Token::If) => {
            lexer.next();
            parse_if_tail(lexer)
        },
        Ok(_) => {
            let expr = parse_expression(lexer)?;
            parse_assign_or_expr(lexer, expr)
        },
    }
}

} // verus!
