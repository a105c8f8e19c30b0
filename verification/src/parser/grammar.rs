//! The grammar of expressions and statements, as functions from a sequence
//! of tokens and a position in it to what a parse from there gives.
//!
//! Every function says which value or error its part of the grammar gives
//! and how many tokens it uses up. The parsers are proved to compute these
//! functions.
use vstd::prelude::*;
use crate::lexer::lexer::{expect_ident, expect_string, expect_token, token_at};
use crate::lexer::token::TokenView;
use crate::parser::ast::{ElseView, ExprView, ImportView, StmtView};
use crate::parser::helpers::{
    duplicate_key_error, has_duplicate_key, tokens_left, ParseErrorView, Parsed,
};
use crate::parser::types::{spec_parse_type, spec_typed_names, TypeView};

verus! {


/// Whether `token` is a comparison operator.
pub open spec fn is_comparison(token: TokenView) -> bool {
    token == TokenView::Equal || token == TokenView::GreaterThan || token
        == TokenView::GreaterEqual || token == TokenView::LessThan || token == TokenView::LessEqual
}

/// The comparison that the operator `token` makes of two operands.
pub open spec fn comparison(token: TokenView, lhs: ExprView, rhs: ExprView) -> ExprView {
    match token {
        TokenView::Equal => ExprView::Equal(Box::new(lhs), Box::new(rhs)),
        TokenView::GreaterThan => ExprView::GreaterThan(Box::new(lhs), Box::new(rhs)),
        TokenView::GreaterEqual => ExprView::GreaterEqual(Box::new(lhs), Box::new(rhs)),
        TokenView::LessThan => ExprView::LessThan(Box::new(lhs), Box::new(rhs)),
        _ => ExprView::LessEqual(Box::new(lhs), Box::new(rhs)),
    }
}

/// Whether `token` is `+` or `-`.
pub open spec fn is_additive(token: TokenView) -> bool {
    token == TokenView::Add || token == TokenView::Sub
}

/// The sum or difference that the operator `token` makes of two operands.
pub open spec fn additive(token: TokenView, lhs: ExprView, rhs: ExprView) -> ExprView {
    match token {
        TokenView::Add => ExprView::Add(Box::new(lhs), Box::new(rhs)),
        _ => ExprView::Sub(Box::new(lhs), Box::new(rhs)),
    }
}

/// Whether `token` is `*`, `/` or `%`.
pub open spec fn is_multiplicative(token: TokenView) -> bool {
    token == TokenView::Mul || token == TokenView::Div || token == TokenView::Mod
}

/// The product, quotient or remainder that the operator `token` makes of two
/// operands.
pub open spec fn multiplicative(token: TokenView, lhs: ExprView, rhs: ExprView) -> ExprView {
    match token {
        TokenView::Mul => ExprView::Mul(Box::new(lhs), Box::new(rhs)),
        TokenView::Div => ExprView::Div(Box::new(lhs), Box::new(rhs)),
        _ => ExprView::Mod(Box::new(lhs), Box::new(rhs)),
    }
}

/// An expression. The levels of the grammar, from the loosest binding to the
/// tightest: `or`, `and`, `not`, comparison, sum, product, unary minus, `&`
/// and `*`, postfix, atom.
#[verifier::opaque]
pub open spec fn spec_parse_expression(tokens: Seq<TokenView>, pos: nat) -> Parsed<ExprView>
    decreases tokens_left(tokens, pos), 11nat,
{
    spec_e1(tokens, pos)
}

/// `a or b`: binds to the right.
#[verifier::opaque]
pub open spec fn spec_e1(tokens: Seq<TokenView>, pos: nat) -> Parsed<ExprView>
    decreases tokens_left(tokens, pos), 10nat,
{
    let lhs = spec_e2(tokens, pos);
    match lhs.value {
        Err(_) => lhs,
        Ok(l) => if token_at(tokens, pos + lhs.used) == Some(TokenView::Or) {
            let rhs = spec_e1(tokens, pos + lhs.used + 1);
            Parsed {
                value: match rhs.value {
                    Ok(r) => Ok(ExprView::Or(Box::new(l), Box::new(r))),
                    Err(e) => Err(e),
                },
                used: lhs.used + 1 + rhs.used,
            }
        } else {
            lhs
        },
    }
}

/// `a and b`: binds to the right.
#[verifier::opaque]
pub open spec fn spec_e2(tokens: Seq<TokenView>, pos: nat) -> Parsed<ExprView>
    decreases tokens_left(tokens, pos), 9nat,
{
    let lhs = spec_e3(tokens, pos);
    match lhs.value {
        Err(_) => lhs,
        Ok(l) => if token_at(tokens, pos + lhs.used) == Some(TokenView::And) {
            let rhs = spec_e2(tokens, pos + lhs.used + 1);
            Parsed {
                value: match rhs.value {
                    Ok(r) => Ok(ExprView::And(Box::new(l), Box::new(r))),
                    Err(e) => Err(e),
                },
                used: lhs.used + 1 + rhs.used,
            }
        } else {
            lhs
        },
    }
}

/// `not a`.
#[verifier::opaque]
pub open spec fn spec_e3(tokens: Seq<TokenView>, pos: nat) -> Parsed<ExprView>
    decreases tokens_left(tokens, pos), 8nat,
{
    if token_at(tokens, pos) == Some(TokenView::Not) {
        let inner = spec_e3(tokens, pos + 1);
        Parsed {
            value: match inner.value {
                Ok(e) => Ok(ExprView::Not(Box::new(e))),
                Err(e) => Err(e),
            },
            used: 1 + inner.used,
        }
    } else {
        spec_e4(tokens, pos)
    }
}

/// A comparison: binds to the right. The end of the input after the left
/// operand is an error.
#[verifier::opaque]
pub open spec fn spec_e4(tokens: Seq<TokenView>, pos: nat) -> Parsed<ExprView>
    decreases tokens_left(tokens, pos), 7nat,
{
    let lhs = spec_e5(tokens, pos);
    match lhs.value {
        Err(_) => lhs,
        Ok(l) => match token_at(tokens, pos + lhs.used) {
            None => Parsed { value: Err(ParseErrorView::UnexpectedEOF), used: lhs.used },
            Some(token) => if is_comparison(token) {
                let rhs = spec_e4(tokens, pos + lhs.used + 1);
                Parsed {
                    value: match rhs.value {
                        Ok(r) => Ok(comparison(token, l, r)),
                        Err(e) => Err(e),
                    },
                    used: lhs.used + 1 + rhs.used,
                }
            } else {
                lhs
            },
        },
    }
}

/// A sum: `+` and `-` bind to the left.
#[verifier::opaque]
pub open spec fn spec_e5(tokens: Seq<TokenView>, pos: nat) -> Parsed<ExprView>
    decreases tokens_left(tokens, pos), 6nat,
{
    let lhs = spec_e6(tokens, pos);
    match lhs.value {
        Err(_) => lhs,
        Ok(l) => {
            let rest = spec_e5_rest(tokens, pos + lhs.used, l);
            Parsed { value: rest.value, used: lhs.used + rest.used }
        },
    }
}

/// The rest of a sum whose left operand `lhs` has been read.
#[verifier::opaque]
pub open spec fn spec_e5_rest(tokens: Seq<TokenView>, pos: nat, lhs: ExprView) -> Parsed<ExprView>
    decreases tokens_left(tokens, pos), 0nat,
{
    match token_at(tokens, pos) {
        Some(token) => if is_additive(token) {
            let rhs = spec_e6(tokens, pos + 1);
            match rhs.value {
                Err(e) => Parsed { value: Err(e), used: 1 + rhs.used },
                Ok(r) => {
                    let rest = spec_e5_rest(tokens, pos + 1 + rhs.used, additive(token, lhs, r));
                    Parsed { value: rest.value, used: 1 + rhs.used + rest.used }
                },
            }
        } else {
            Parsed { value: Ok(lhs), used: 0 }
        },
        None => Parsed { value: Ok(lhs), used: 0 },
    }
}

/// A product: `*`, `/` and `%` bind to the left.
#[verifier::opaque]
pub open spec fn spec_e6(tokens: Seq<TokenView>, pos: nat) -> Parsed<ExprView>
    decreases tokens_left(tokens, pos), 5nat,
{
    let lhs = spec_e7(tokens, pos);
    match lhs.value {
        Err(_) => lhs,
        Ok(l) => {
            let rest = spec_e6_rest(tokens, pos + lhs.used, l);
            Parsed { value: rest.value, used: lhs.used + rest.used }
        },
    }
}

/// The rest of a product whose left operand `lhs` has been read.
#[verifier::opaque]
pub open spec fn spec_e6_rest(tokens: Seq<TokenView>, pos: nat, lhs: ExprView) -> Parsed<ExprView>
    decreases tokens_left(tokens, pos), 0nat,
{
    match token_at(tokens, pos) {
        Some(token) => if is_multiplicative(token) {
            let rhs = spec_e7(tokens, pos + 1);
            match rhs.value {
                Err(e) => Parsed { value: Err(e), used: 1 + rhs.used },
                Ok(r) => {
                    let rest = spec_e6_rest(
                        tokens,
                        pos + 1 + rhs.used,
                        multiplicative(token, lhs, r),
                    );
                    Parsed { value: rest.value, used: 1 + rhs.used + rest.used }
                },
            }
        } else {
            Parsed { value: Ok(lhs), used: 0 }
        },
        None => Parsed { value: Ok(lhs), used: 0 },
    }
}

/// `-a`.
#[verifier::opaque]
pub open spec fn spec_e7(tokens: Seq<TokenView>, pos: nat) -> Parsed<ExprView>
    decreases tokens_left(tokens, pos), 4nat,
{
    if token_at(tokens, pos) == Some(TokenView::Sub) {
        let inner = spec_e7(tokens, pos + 1);
        Parsed {
            value: match inner.value {
                Ok(e) => Ok(ExprView::Neg(Box::new(e))),
                Err(e) => Err(e),
            },
            used: 1 + inner.used,
        }
    } else {
        spec_e8(tokens, pos)
    }
}

/// `&a` and `*a`.
#[verifier::opaque]
pub open spec fn spec_e8(tokens: Seq<TokenView>, pos: nat) -> Parsed<ExprView>
    decreases tokens_left(tokens, pos), 3nat,
{
    if token_at(tokens, pos) == Some(TokenView::Ref) {
        let inner = spec_e8(tokens, pos + 1);
        Parsed {
            value: match inner.value {
                Ok(e) => Ok(ExprView::Ref(Box::new(e))),
                Err(e) => Err(e),
            },
            used: 1 + inner.used,
        }
    } else if token_at(tokens, pos) == Some(TokenView::Mul) {
        let inner = spec_e8(tokens, pos + 1);
        Parsed {
            value: match inner.value {
                Ok(e) => Ok(ExprView::Deref(Box::new(e))),
                Err(e) => Err(e),
            },
            used: 1 + inner.used,
        }
    } else {
        spec_e9(tokens, pos)
    }
}

/// An atom, then any number of calls `(...)`, indexings `[...]` and field
/// accesses `.name`.
#[verifier::opaque]
pub open spec fn spec_e9(tokens: Seq<TokenView>, pos: nat) -> Parsed<ExprView>
    decreases tokens_left(tokens, pos), 2nat,
{
    let atom = spec_atom(tokens, pos);
    match atom.value {
        Err(_) => atom,
        Ok(e) => {
            let rest = spec_e9_rest(tokens, pos + atom.used, e);
            Parsed { value: rest.value, used: atom.used + rest.used }
        },
    }
}

/// The calls, indexings and field accesses that follow the expression
/// `expr`, applied to it one after the other. The end of the input after
/// the expression is an error.
#[verifier::opaque]
pub open spec fn spec_e9_rest(tokens: Seq<TokenView>, pos: nat, expr: ExprView) -> Parsed<ExprView>
    decreases tokens_left(tokens, pos), 0nat,
{
    match token_at(tokens, pos) {
        None => Parsed { value: Err(ParseErrorView::UnexpectedEOF), used: 0 },
        Some(TokenView::LParen) => {
            let args = spec_expression_list(tokens, pos + 1, Seq::empty(), TokenView::RParen);
            match args.value {
                Err(e) => Parsed { value: Err(e), used: 1 + args.used },
                Ok(a) => {
                    let rest = spec_e9_rest(
                        tokens,
                        pos + 1 + args.used,
                        ExprView::Call { expr: Box::new(expr), args: a },
                    );
                    Parsed { value: rest.value, used: 1 + args.used + rest.used }
                },
            }
        },
        Some(TokenView::LBracket) => {
            let index = spec_parse_expression(tokens, pos + 1);
            match index.value {
                Err(e) => Parsed { value: Err(e), used: 1 + index.used },
                Ok(i) => match expect_token(
                    tokens,
                    pos + 1 + index.used,
                    TokenView::RBracket,
                ).value {
                    Err(e) => Parsed { value: Err(e), used: 1 + index.used },
                    Ok(_) => {
                        let rest = spec_e9_rest(
                            tokens,
                            pos + 2 + index.used,
                            ExprView::Index { expr: Box::new(expr), index: Box::new(i) },
                        );
                        Parsed { value: rest.value, used: 2 + index.used + rest.used }
                    },
                },
            }
        },
        Some(TokenView::Dot) => match expect_ident(tokens, pos + 1).value {
            Err(e) => Parsed { value: Err(e), used: 1 },
            Ok(field) => {
                let rest = spec_e9_rest(
                    tokens,
                    pos + 2,
                    ExprView::Dot { expr: Box::new(expr), field },
                );
                Parsed { value: rest.value, used: 2 + rest.used }
            },
        },
        Some(_) => Parsed { value: Ok(expr), used: 0 },
    }
}

/// Whether a function literal starts at `pos`: a `(` followed by `)` or by
/// `name :`. Otherwise the error of the first token that does not fit.
pub open spec fn spec_is_func_literal(tokens: Seq<TokenView>, pos: nat) -> Result<
    (),
    ParseErrorView,
> {
    match expect_token(tokens, pos, TokenView::LParen).value {
        Err(e) => Err(e),
        Ok(_) => if token_at(tokens, pos + 1) == Some(TokenView::RParen) {
            Ok(())
        } else {
            match expect_ident(tokens, pos + 1).value {
                Err(e) => Err(e),
                Ok(_) => match expect_token(tokens, pos + 2, TokenView::Colon).value {
                    Err(e) => Err(e),
                    Ok(_) => Ok(()),
                },
            }
        },
    }
}

/// The expression that a parenthesised list stands for: its one item, or a
/// tuple of its items.
pub open spec fn grouped(items: Seq<ExprView>) -> ExprView {
    if items.len() == 1 {
        items[0]
    } else {
        ExprView::TupleLiteral(items)
    }
}

/// An atom, chosen by its first token: a literal, `null`, an identifier, a
/// record literal `{ name: e, ... }` in which no name occurs twice, an
/// array literal `[e, ...]`, a function literal, or a parenthesised list of
/// expressions.
#[verifier::opaque]
pub open spec fn spec_atom(tokens: Seq<TokenView>, pos: nat) -> Parsed<ExprView>
    decreases tokens_left(tokens, pos), 1nat,
{
    match token_at(tokens, pos) {
        None => Parsed { value: Err(ParseErrorView::UnexpectedEOF), used: 0 },
        Some(TokenView::Integer(v)) => Parsed { value: Ok(ExprView::Int(v)), used: 1 },
        Some(TokenView::Null) => Parsed { value: Ok(ExprView::Null), used: 1 },
        Some(TokenView::Float(text)) => Parsed { value: Ok(ExprView::Float(text)), used: 1 },
        Some(TokenView::Char(c)) => Parsed { value: Ok(ExprView::Char(c)), used: 1 },
        Some(TokenView::Bool(b)) => Parsed { value: Ok(ExprView::Bool(b)), used: 1 },
        Some(TokenView::String(text)) => Parsed { value: Ok(ExprView::String(text)), used: 1 },
        Some(TokenView::Identifier(name)) => Parsed {
            value: Ok(ExprView::Identifier(name)),
            used: 1,
        },
        Some(TokenView::LBrace) => spec_struct_literal(tokens, pos),
        Some(TokenView::LBracket) => spec_array_literal(tokens, pos),
        Some(TokenView::LParen) => if spec_is_func_literal(tokens, pos) is Ok {
            spec_function_literal(tokens, pos)
        } else {
            spec_grouping(tokens, pos)
        },
        Some(token) => Parsed { value: Err(ParseErrorView::UnexpectedToken(token)), used: 0 },
    }
}

/// A record literal `{ name: e, ... }` in which no name occurs twice.
#[verifier::opaque]
pub open spec fn spec_struct_literal(tokens: Seq<TokenView>, pos: nat) -> Parsed<ExprView>
    decreases tokens_left(tokens, pos), 0nat,
{
    match expect_token(tokens, pos, TokenView::LBrace).value {
        Err(e) => Parsed { value: Err(e), used: 0 },
        Ok(_) => {
            let list = spec_field_list(tokens, pos + 1, Seq::empty());
            Parsed {
                value: match list.value {
                    Err(e) => Err(e),
                    Ok(fields) => if has_duplicate_key(fields) {
                        Err(duplicate_key_error())
                    } else {
                        Ok(ExprView::StructLiteral(fields))
                    },
                },
                used: 1 + list.used,
            }
        },
    }
}

/// An array literal `[e, ...]`.
#[verifier::opaque]
pub open spec fn spec_array_literal(tokens: Seq<TokenView>, pos: nat) -> Parsed<ExprView>
    decreases tokens_left(tokens, pos), 0nat,
{
    match expect_token(tokens, pos, TokenView::LBracket).value {
        Err(e) => Parsed { value: Err(e), used: 0 },
        Ok(_) => {
            let list = spec_expression_list(tokens, pos + 1, Seq::empty(), TokenView::RBracket);
            Parsed {
                value: match list.value {
                    Err(e) => Err(e),
                    Ok(items) => Ok(ExprView::ArrayLiteral(items)),
                },
                used: 1 + list.used,
            }
        },
    }
}

/// A parenthesised list of expressions `(e, ...)`: one expression stands
/// for itself, any other number for a tuple.
#[verifier::opaque]
pub open spec fn spec_grouping(tokens: Seq<TokenView>, pos: nat) -> Parsed<ExprView>
    decreases tokens_left(tokens, pos), 0nat,
{
    match expect_token(tokens, pos, TokenView::LParen).value {
        Err(e) => Parsed { value: Err(e), used: 0 },
        Ok(_) => {
            let list = spec_expression_list(tokens, pos + 1, Seq::empty(), TokenView::RParen);
            Parsed {
                value: match list.value {
                    Err(e) => Err(e),
                    Ok(items) => Ok(grouped(items)),
                },
                used: 1 + list.used,
            }
        },
    }
}

/// A function literal `(name: T, ...) [: R] => { ... }`, the first token
/// being its `(`. Without `: R` the function returns `void`.
#[verifier::opaque]
pub open spec fn spec_function_literal(tokens: Seq<TokenView>, pos: nat) -> Parsed<ExprView>
    decreases tokens_left(tokens, pos), 0nat,
{
    match expect_token(tokens, pos, TokenView::LParen).value {
        Err(e) => Parsed { value: Err(e), used: 0 },
        Ok(_) => {
            let args = spec_typed_names(tokens, pos + 1, Seq::empty(), TokenView::RParen);
            match args.value {
                Err(e) => Parsed { value: Err(e), used: 1 + args.used },
                Ok(a) => {
                    let after_args = pos + 1 + args.used;
                    let ret = if token_at(tokens, after_args) == Some(TokenView::Colon) {
                        let ty = spec_parse_type(tokens, after_args + 1);
                        Parsed { value: ty.value, used: 1 + ty.used }
                    } else {
                        Parsed { value: Ok(TypeView::Void), used: 0 }
                    };
                    match ret.value {
                        Err(e) => Parsed { value: Err(e), used: 1 + args.used + ret.used },
                        Ok(r) => {
                            let after_ret = after_args + ret.used;
                            match expect_token(tokens, after_ret, TokenView::FuncArrow).value {
                                Err(e) => Parsed {
                                    value: Err(e),
                                    used: 1 + args.used + ret.used,
                                },
                                Ok(_) => {
                                    let body = spec_parse_block(tokens, after_ret + 1, true);
                                    Parsed {
                                        value: match body.value {
                                            Err(e) => Err(e),
                                            Ok(b) => Ok(
                                                ExprView::FunctionLiteral {
                                                    args: a,
                                                    ret: r,
                                                    body: b,
                                                },
                                            ),
                                        },
                                        used: 2 + args.used + ret.used + body.used,
                                    }
                                },
                            }
                        },
                    }
                },
            }
        },
    }
}

/// The rest of a list of expressions after its opening token, `items` being
/// those read so far: expressions separated by commas, up to the token
/// `end`, which may follow a comma.
#[verifier::opaque]
pub open spec fn spec_expression_list(
    tokens: Seq<TokenView>,
    pos: nat,
    items: Seq<ExprView>,
    end: TokenView,
) -> Parsed<Seq<ExprView>>
    decreases tokens_left(tokens, pos), 12nat,
{
    if token_at(tokens, pos) == Some(end) {
        Parsed { value: Ok(items), used: 1 }
    } else {
        let item = spec_parse_expression(tokens, pos);
        match item.value {
            Err(e) => Parsed { value: Err(e), used: item.used },
            Ok(expr) => {
                let after = pos + item.used;
                if token_at(tokens, after) == Some(end) {
                    Parsed { value: Ok(items.push(expr)), used: item.used + 1 }
                } else {
                    match expect_token(tokens, after, TokenView::Comma).value {
                        Err(e) => Parsed { value: Err(e), used: item.used },
                        Ok(_) => {
                            let rest = spec_expression_list(
                                tokens,
                                after + 1,
                                items.push(expr),
                                end,
                            );
                            Parsed { value: rest.value, used: item.used + 1 + rest.used }
                        },
                    }
                }
            },
        }
    }
}

/// One `name: e` of a record literal.
#[verifier::opaque]
pub open spec fn spec_field(tokens: Seq<TokenView>, pos: nat) -> Parsed<(Seq<char>, ExprView)>
    decreases tokens_left(tokens, pos), 12nat,
{
    match expect_ident(tokens, pos).value {
        Err(e) => Parsed { value: Err(e), used: 0 },
        Ok(name) => match expect_token(tokens, pos + 1, TokenView::Colon).value {
            Err(e) => Parsed { value: Err(e), used: 1 },
            Ok(_) => {
                let expr = spec_parse_expression(tokens, pos + 2);
                Parsed {
                    value: match expr.value {
                        Ok(e) => Ok((name, e)),
                        Err(e) => Err(e),
                    },
                    used: 2 + expr.used,
                }
            },
        },
    }
}

/// The rest of the fields of a record literal after its `{`, `items` being
/// those read so far: fields separated by commas, up to the `}`, which may
/// follow a comma.
#[verifier::opaque]
pub open spec fn spec_field_list(
    tokens: Seq<TokenView>,
    pos: nat,
    items: Seq<(Seq<char>, ExprView)>,
) -> Parsed<Seq<(Seq<char>, ExprView)>>
    decreases tokens_left(tokens, pos), 13nat,
{
    if token_at(tokens, pos) == Some(TokenView::RBrace) {
        Parsed { value: Ok(items), used: 1 }
    } else {
        let item = spec_field(tokens, pos);
        match item.value {
            Err(e) => Parsed { value: Err(e), used: item.used },
            Ok(field) => {
                let after = pos + item.used;
                if token_at(tokens, after) == Some(TokenView::RBrace) {
                    Parsed { value: Ok(items.push(field)), used: item.used + 1 }
                } else {
                    match expect_token(tokens, after, TokenView::Comma).value {
                        Err(e) => Parsed { value: Err(e), used: item.used },
                        Ok(_) => {
                            let rest = spec_field_list(tokens, after + 1, items.push(field));
                            Parsed { value: rest.value, used: item.used + 1 + rest.used }
                        },
                    }
                }
            },
        }
    }
}

/// One name of an import: `name`, or `name as alias`. The end of the input
/// after the name is an error.
pub open spec fn spec_import_item(tokens: Seq<TokenView>, pos: nat) -> Parsed<ImportView> {
    match expect_ident(tokens, pos).value {
        Err(e) => Parsed { value: Err(e), used: 0 },
        Ok(name) => match token_at(tokens, pos + 1) {
            None => Parsed { value: Err(ParseErrorView::UnexpectedEOF), used: 1 },
            Some(TokenView::As) => match expect_ident(tokens, pos + 2).value {
                Err(e) => Parsed { value: Err(e), used: 2 },
                Ok(alias) => Parsed { value: Ok(ImportView { name, alias }), used: 3 },
            },
            Some(_) => Parsed { value: Ok(ImportView { name, alias: name }), used: 1 },
        },
    }
}

/// The rest of the names of an import after the word `import`, `items`
/// being those read so far: names separated by commas, up to the word
/// `from`, which may follow a comma.
#[verifier::opaque]
pub open spec fn spec_import_list(
    tokens: Seq<TokenView>,
    pos: nat,
    items: Seq<ImportView>,
) -> Parsed<Seq<ImportView>>
    decreases tokens_left(tokens, pos),
{
    if token_at(tokens, pos) == Some(TokenView::From) {
        Parsed { value: Ok(items), used: 1 }
    } else {
        let item = spec_import_item(tokens, pos);
        match item.value {
            Err(e) => Parsed { value: Err(e), used: item.used },
            Ok(import) => {
                let after = pos + item.used;
                if token_at(tokens, after) == Some(TokenView::From) {
                    Parsed { value: Ok(items.push(import)), used: item.used + 1 }
                } else {
                    match expect_token(tokens, after, TokenView::Comma).value {
                        Err(e) => Parsed { value: Err(e), used: item.used },
                        Ok(_) => {
                            let rest = spec_import_list(tokens, after + 1, items.push(import));
                            Parsed { value: rest.value, used: item.used + 1 + rest.used }
                        },
                    }
                }
            },
        }
    }
}

/// A block. An enclosed block starts with `{` and runs to the matching `}`;
/// one that is not enclosed runs to the end of the input. The end of the
/// input ends an enclosed block too.
#[verifier::opaque]
pub open spec fn spec_parse_block(tokens: Seq<TokenView>, pos: nat, enclosed: bool) -> Parsed<
    Seq<StmtView>,
>
    decreases tokens_left(tokens, pos), 16nat,
{
    if enclosed {
        match expect_token(tokens, pos, TokenView::LBrace).value {
            Err(e) => Parsed { value: Err(e), used: 0 },
            Ok(_) => {
                let rest = spec_block_rest(tokens, pos + 1, Seq::empty(), true);
                Parsed { value: rest.value, used: 1 + rest.used }
            },
        }
    } else {
        spec_block_rest(tokens, pos, Seq::empty(), false)
    }
}

/// The rest of a block, `statements` being those read so far.
///
/// Every statement uses up at least one token
/// (`lemma_statement_uses_tokens`); the case of one that uses none only
/// shows that the reading ends.
#[verifier::opaque]
pub open spec fn spec_block_rest(
    tokens: Seq<TokenView>,
    pos: nat,
    statements: Seq<StmtView>,
    enclosed: bool,
) -> Parsed<Seq<StmtView>>
    decreases tokens_left(tokens, pos), 15nat,
{
    if enclosed && token_at(tokens, pos) == Some(TokenView::RBrace) {
        Parsed { value: Ok(statements), used: 1 }
    } else if token_at(tokens, pos) is None {
        Parsed { value: Ok(statements), used: 0 }
    } else {
        let statement = spec_parse_statement(tokens, pos);
        match statement.value {
            Err(e) => Parsed { value: Err(e), used: statement.used },
            Ok(s) => if statement.used == 0 {
                Parsed { value: Ok(statements.push(s)), used: 0 }
            } else {
                let rest = spec_block_rest(
                    tokens,
                    pos + statement.used,
                    statements.push(s),
                    enclosed,
                );
                Parsed { value: rest.value, used: statement.used + rest.used }
            },
        }
    }
}

/// What follows the word `if`: a condition, an enclosed block, and then
/// nothing, `else` with an enclosed block, or `else if` with all of this
/// again.
#[verifier::opaque]
pub open spec fn spec_if_tail(tokens: Seq<TokenView>, pos: nat) -> Parsed<StmtView>
    decreases tokens_left(tokens, pos), 17nat,
{
    let cond = spec_parse_expression(tokens, pos);
    match cond.value {
        Err(e) => Parsed { value: Err(e), used: cond.used },
        Ok(c) => {
            let body = spec_parse_block(tokens, pos + cond.used, true);
            match body.value {
                Err(e) => Parsed { value: Err(e), used: cond.used + body.used },
                Ok(b) => {
                    let after = pos + cond.used + body.used;
                    if token_at(tokens, after) == Some(TokenView::Else) {
                        if token_at(tokens, after + 1) == Some(TokenView::If) {
                            let inner = spec_if_tail(tokens, after + 2);
                            Parsed {
                                value: match inner.value {
                                    Err(e) => Err(e),
                                    Ok(i) => Ok(
                                        StmtView::If {
                                            cond: c,
                                            body: b,
                                            else_stmt: ElseView::If(Box::new(i)),
                                        },
                                    ),
                                },
                                used: cond.used + body.used + 2 + inner.used,
                            }
                        } else {
                            let block = spec_parse_block(tokens, after + 1, true);
                            Parsed {
                                value: match block.value {
                                    Err(e) => Err(e),
                                    Ok(e) => Ok(
                                        StmtView::If {
                                            cond: c,
                                            body: b,
                                            else_stmt: ElseView::Block(e),
                                        },
                                    ),
                                },
                                used: cond.used + body.used + 1 + block.used,
                            }
                        }
                    } else {
                        Parsed {
                            value: Ok(
                                StmtView::If { cond: c, body: b, else_stmt: ElseView::Nothing },
                            ),
                            used: cond.used + body.used,
                        }
                    }
                },
            }
        },
    }
}

/// Whether `token` is `=` or one of `+=`, `-=`, `*=`, `/=`.
pub open spec fn is_assignment(token: TokenView) -> bool {
    token == TokenView::Assign || token == TokenView::AddAssign || token == TokenView::SubAssign
        || token == TokenView::MulAssign || token == TokenView::DivAssign
}

/// The value that the assignment operator `token` stores: the right-hand
/// side for `=`, and for `lhs op= rhs` the value of `lhs op rhs`.
pub open spec fn assigned_value(token: TokenView, lhs: ExprView, rhs: ExprView) -> ExprView {
    match token {
        TokenView::AddAssign => ExprView::Add(Box::new(lhs), Box::new(rhs)),
        TokenView::SubAssign => ExprView::Sub(Box::new(lhs), Box::new(rhs)),
        TokenView::MulAssign => ExprView::Mul(Box::new(lhs), Box::new(rhs)),
        TokenView::DivAssign => ExprView::Div(Box::new(lhs), Box::new(rhs)),
        _ => rhs,
    }
}

/// What follows the expression `expr` at the start of a statement: an
/// assignment operator, a right-hand side and `;`, or just `;`.
#[verifier::opaque]
pub open spec fn spec_assign_or_expr(tokens: Seq<TokenView>, pos: nat, expr: ExprView) -> Parsed<
    StmtView,
>
    decreases tokens_left(tokens, pos), 12nat,
{
    match token_at(tokens, pos) {
        None => Parsed { value: Err(ParseErrorView::UnexpectedEOF), used: 0 },
        Some(token) => if is_assignment(token) {
            let rhs = spec_parse_expression(tokens, pos + 1);
            match rhs.value {
                Err(e) => Parsed { value: Err(e), used: 1 + rhs.used },
                Ok(r) => match expect_token(tokens, pos + 1 + rhs.used, TokenView::Semicolon).value {
                    Err(e) => Parsed { value: Err(e), used: 1 + rhs.used },
                    Ok(_) => Parsed {
                        value: Ok(
                            StmtView::Assign { lhs: expr, rhs: assigned_value(token, expr, r) },
                        ),
                        used: 2 + rhs.used,
                    },
                },
            }
        } else if token == TokenView::Semicolon {
            Parsed { value: Ok(StmtView::Expr(expr)), used: 1 }
        } else {
            Parsed { value: Err(ParseErrorView::UnexpectedToken(token)), used: 0 }
        },
    }
}

/// A type definition `type name = T;`, the first token being `type`.
pub open spec fn spec_type_def(tokens: Seq<TokenView>, pos: nat) -> Parsed<StmtView> {
    match (token_at(tokens, pos), expect_ident(tokens, pos + 1).value) {
        (None, _) => Parsed { value: Err(ParseErrorView::UnexpectedEOF), used: 0 },
        (Some(_), Err(e)) => Parsed { value: Err(e), used: 1 },
        (Some(_), Ok(name)) => match expect_token(tokens, pos + 2, TokenView::Assign).value {
            Err(e) => Parsed { value: Err(e), used: 2 },
            Ok(_) => {
                let typ = spec_parse_type(tokens, pos + 3);
                match typ.value {
                    Err(e) => Parsed { value: Err(e), used: 3 + typ.used },
                    Ok(t) => match expect_token(
                        tokens,
                        pos + 3 + typ.used,
                        TokenView::Semicolon,
                    ).value {
                        Err(e) => Parsed { value: Err(e), used: 3 + typ.used },
                        Ok(_) => Parsed {
                            value: Ok(StmtView::TypeDef { name, typ: t }),
                            used: 4 + typ.used,
                        },
                    },
                }
            },
        },
    }
}

/// The optional `: T` after the name of a variable definition. The end of
/// the input in its place is an error.
pub open spec fn spec_type_annotation(tokens: Seq<TokenView>, pos: nat) -> Parsed<
    Option<TypeView>,
> {
    match token_at(tokens, pos) {
        None => Parsed { value: Err(ParseErrorView::UnexpectedEOF), used: 0 },
        Some(TokenView::Colon) => {
            let ty = spec_parse_type(tokens, pos + 1);
            Parsed {
                value: match ty.value {
                    Ok(t) => Ok(Some(t)),
                    Err(e) => Err(e),
                },
                used: 1 + ty.used,
            }
        },
        Some(_) => Parsed { value: Ok(None), used: 0 },
    }
}

/// A variable definition `let name [: T] = e;`, the first token being
/// `let`.
#[verifier::opaque]
pub open spec fn spec_var_def(tokens: Seq<TokenView>, pos: nat) -> Parsed<StmtView>
    decreases tokens_left(tokens, pos), 12nat,
{
    match token_at(tokens, pos) {
        None => Parsed { value: Err(ParseErrorView::UnexpectedEOF), used: 0 },
        Some(_) => match expect_ident(tokens, pos + 1).value {
            Err(e) => Parsed { value: Err(e), used: 1 },
            Ok(name) => {
                let typ = spec_type_annotation(tokens, pos + 2);
                match typ.value {
                    Err(e) => Parsed { value: Err(e), used: 2 + typ.used },
                    Ok(t) => {
                        let after_type = pos + 2 + typ.used;
                        match expect_token(tokens, after_type, TokenView::Assign).value {
                            Err(e) => Parsed { value: Err(e), used: 2 + typ.used },
                            Ok(_) => {
                                let expr = spec_parse_expression(tokens, after_type + 1);
                                match expr.value {
                                    Err(e) => Parsed {
                                        value: Err(e),
                                        used: 3 + typ.used + expr.used,
                                    },
                                    Ok(x) => match expect_token(
                                        tokens,
                                        after_type + 1 + expr.used,
                                        TokenView::Semicolon,
                                    ).value {
                                        Err(e) => Parsed {
                                            value: Err(e),
                                            used: 3 + typ.used + expr.used,
                                        },
                                        Ok(_) => Parsed {
                                            value: Ok(StmtView::VarDef { name, typ: t, expr: x }),
                                            used: 4 + typ.used + expr.used,
                                        },
                                    },
                                }
                            },
                        }
                    },
                }
            },
        },
    }
}

/// An import `import name [as alias], ... from "path";`, the first token
/// being `import`.
pub open spec fn spec_import(tokens: Seq<TokenView>, pos: nat) -> Parsed<StmtView> {
    let list = spec_import_list(tokens, pos + 1, Seq::empty());
    match (token_at(tokens, pos), list.value) {
        (None, _) => Parsed { value: Err(ParseErrorView::UnexpectedEOF), used: 0 },
        (Some(_), Err(e)) => Parsed { value: Err(e), used: 1 + list.used },
        (Some(_), Ok(imports)) => match expect_string(tokens, pos + 1 + list.used).value {
            Err(e) => Parsed { value: Err(e), used: 1 + list.used },
            Ok(path) => match expect_token(tokens, pos + 2 + list.used, TokenView::Semicolon).value {
                Err(e) => Parsed { value: Err(e), used: 2 + list.used },
                Ok(_) => Parsed {
                    value: Ok(StmtView::Import { path, imports }),
                    used: 3 + list.used,
                },
            },
        },
    }
}

/// A loop `while e { ... }`, the first token being `while`.
#[verifier::opaque]
pub open spec fn spec_while(tokens: Seq<TokenView>, pos: nat) -> Parsed<StmtView>
    decreases tokens_left(tokens, pos), 12nat,
{
    match token_at(tokens, pos) {
        None => Parsed { value: Err(ParseErrorView::UnexpectedEOF), used: 0 },
        Some(_) => {
            let cond = spec_parse_expression(tokens, pos + 1);
            match cond.value {
                Err(e) => Parsed { value: Err(e), used: 1 + cond.used },
                Ok(c) => {
                    let body = spec_parse_block(tokens, pos + 1 + cond.used, true);
                    Parsed {
                        value: match body.value {
                            Err(e) => Err(e),
                            Ok(b) => Ok(StmtView::While { cond: c, body: b }),
                        },
                        used: 1 + cond.used + body.used,
                    }
                },
            }
        },
    }
}

/// A `return;` or `return e;`, the first token being `return`.
#[verifier::opaque]
pub open spec fn spec_return(tokens: Seq<TokenView>, pos: nat) -> Parsed<StmtView>
    decreases tokens_left(tokens, pos), 12nat,
{
    match token_at(tokens, pos) {
        None => Parsed { value: Err(ParseErrorView::UnexpectedEOF), used: 0 },
        Some(_) => if token_at(tokens, pos + 1) == Some(TokenView::Semicolon) {
            Parsed { value: Ok(StmtView::Return(None)), used: 2 }
        } else {
            let expr = spec_parse_expression(tokens, pos + 1);
            match expr.value {
                Err(e) => Parsed { value: Err(e), used: 1 + expr.used },
                Ok(x) => match expect_token(
                    tokens,
                    pos + 1 + expr.used,
                    TokenView::Semicolon,
                ).value {
                    Err(e) => Parsed { value: Err(e), used: 1 + expr.used },
                    Ok(_) => Parsed { value: Ok(StmtView::Return(Some(x))), used: 2 + expr.used },
                },
            }
        },
    }
}

/// A statement, chosen by its first token: a type definition, a variable
/// definition, an import, `while`, `loop`, `break;`, `continue;`, `return`,
/// `if`, or else an expression that is assigned to or stands alone.
#[verifier::opaque]
pub open spec fn spec_parse_statement(tokens: Seq<TokenView>, pos: nat) -> Parsed<StmtView>
    decreases tokens_left(tokens, pos), 13nat,
{
    match token_at(tokens, pos) {
        None => Parsed { value: Err(ParseErrorView::UnexpectedEOF), used: 0 },
        Some(TokenView::Type) => spec_type_def(tokens, pos),
        Some(TokenView::Let) => spec_var_def(tokens, pos),
        Some(TokenView::Import) => spec_import(tokens, pos),
        Some(TokenView::While) => spec_while(tokens, pos),
        Some(TokenView::Loop) => {
            let body = spec_parse_block(tokens, pos + 1, true);
            Parsed {
                value: match body.value {
                    Err(e) => Err(e),
                    Ok(b) => Ok(StmtView::Loop(b)),
                },
                used: 1 + body.used,
            }
        },
        Some(TokenView::Break) => match expect_token(tokens, pos + 1, TokenView::Semicolon).value {
            Err(e) => Parsed { value: Err(e), used: 1 },
            Ok(_) => Parsed { value: Ok(StmtView::Break), used: 2 },
        },
        Some(TokenView::Continue) => match expect_token(
            tokens,
            pos + 1,
            TokenView::Semicolon,
        ).value {
            Err(e) => Parsed { value: Err(e), used: 1 },
            Ok(_) => Parsed { value: Ok(StmtView::Continue), used: 2 },
        },
        Some(TokenView::Return) => spec_return(tokens, pos),
        Some(TokenView::If) => {
            let tail = spec_if_tail(tokens, pos + 1);
            Parsed { value: tail.value, used: 1 + tail.used }
        },
        Some(_) => {
            let expr = spec_parse_expression(tokens, pos);
            match expr.value {
                Err(e) => Parsed { value: Err(e), used: expr.used },
                Ok(x) => {
                    let rest = spec_assign_or_expr(tokens, pos + expr.used, x);
                    Parsed { value: rest.value, used: expr.used + rest.used }
                },
            }
        },
    }
}

/// A statement that was read used up at least one token.
pub proof fn lemma_statement_uses_tokens(tokens: Seq<TokenView>, pos: nat)
    ensures
        spec_parse_statement(tokens, pos).value is Ok ==> spec_parse_statement(tokens, pos).used
            >= 1,
{
    reveal_with_fuel(spec_parse_statement, 1);
    reveal_with_fuel(spec_assign_or_expr, 1);
    reveal_with_fuel(spec_var_def, 1);
    reveal_with_fuel(spec_while, 1);
    reveal_with_fuel(spec_return, 1);
}

} // verus!
