//! What holds of the grammar for all sequences of tokens.
use vstd::prelude::*;
use crate::lexer::lexer::token_at;
use crate::lexer::token::TokenView;
use crate::parser::ast::{ElseView, ExprView, StmtView};
use crate::parser::grammar::{
    additive, assigned_value, is_additive, is_assignment, is_comparison,
    is_multiplicative, multiplicative, spec_array_literal, spec_assign_or_expr, spec_atom,
    spec_block_rest, spec_e1, spec_e2, spec_e3, spec_e4, spec_e5, spec_e5_rest, spec_e6,
    spec_e6_rest, spec_e7, spec_e8, spec_e9, spec_e9_rest, spec_expression_list, spec_field,
    spec_field_list, spec_function_literal, spec_grouping, spec_if_tail, spec_is_func_literal,
    spec_parse_block, spec_parse_expression, spec_parse_statement, spec_return,
    spec_struct_literal, spec_type_annotation, spec_var_def, spec_while,
};
use crate::lexer::laws::integers_not_negative;
use crate::parser::helpers::{duplicate_key_error, has_duplicate_key, tokens_left, ParseErrorView};
use crate::parser::types::{
    array_of, distinct_keys, spec_array_suffixes, spec_array_type, spec_parse_type,
    spec_type_head, spec_type_list, spec_typed_name, spec_typed_names, well_formed_type,
    TypeView,
};

verus! {

/// Whether `token` is one of the prefix operators `not`, `-`, `&` and `*`.
pub open spec fn is_prefix_operator(token: TokenView) -> bool {
    token == TokenView::Not || token == TokenView::Sub || token == TokenView::Ref || token
        == TokenView::Mul
}

/// Where no prefix operator stands, an atom that fails makes the postfix
/// level, the level of `&` and `*` and the level of unary minus fail with
/// the same error.
pub proof fn lemma_atom_error_passes_tight_levels(tokens: Seq<TokenView>, pos: nat)
    requires
        token_at(tokens, pos) matches Some(token) && !is_prefix_operator(token),
        spec_atom(tokens, pos).value is Err,
    ensures
        spec_e7(tokens, pos) == spec_atom(tokens, pos),
{
    assert(spec_e9(tokens, pos) == spec_atom(tokens, pos)) by {
        reveal_with_fuel(spec_e9, 1);
        reveal_with_fuel(spec_atom, 1);
    }
    assert(spec_e8(tokens, pos) == spec_e9(tokens, pos)) by {
        reveal_with_fuel(spec_e8, 1);
        reveal_with_fuel(spec_e9, 1);
    }
    assert(spec_e7(tokens, pos) == spec_e8(tokens, pos)) by {
        reveal_with_fuel(spec_e7, 1);
        reveal_with_fuel(spec_e8, 1);
    }
}

/// An operand that fails makes a product, a sum and a comparison fail with
/// the same error.
pub proof fn lemma_operand_error_passes_binary_levels(tokens: Seq<TokenView>, pos: nat)
    requires
        spec_e7(tokens, pos).value is Err,
    ensures
        spec_e4(tokens, pos) == spec_e7(tokens, pos),
{
    assert(spec_e6(tokens, pos) == spec_e7(tokens, pos)) by {
        reveal_with_fuel(spec_e6, 1);
        reveal_with_fuel(spec_e7, 1);
    }
    assert(spec_e5(tokens, pos) == spec_e6(tokens, pos)) by {
        reveal_with_fuel(spec_e5, 1);
        reveal_with_fuel(spec_e6, 1);
    }
    assert(spec_e4(tokens, pos) == spec_e5(tokens, pos)) by {
        reveal_with_fuel(spec_e4, 1);
        reveal_with_fuel(spec_e5, 1);
    }
}

/// Where `not` does not stand, a comparison that fails makes the whole
/// expression fail with the same error.
pub proof fn lemma_comparison_error_passes_logic_levels(tokens: Seq<TokenView>, pos: nat)
    requires
        token_at(tokens, pos) != Some(TokenView::Not),
        spec_e4(tokens, pos).value is Err,
    ensures
        spec_parse_expression(tokens, pos) == spec_e4(tokens, pos),
{
    assert(spec_e3(tokens, pos) == spec_e4(tokens, pos)) by {
        reveal_with_fuel(spec_e3, 1);
        reveal_with_fuel(spec_e4, 1);
    }
    assert(spec_e2(tokens, pos) == spec_e3(tokens, pos)) by {
        reveal_with_fuel(spec_e2, 1);
        reveal_with_fuel(spec_e3, 1);
    }
    assert(spec_e1(tokens, pos) == spec_e2(tokens, pos)) by {
        reveal_with_fuel(spec_e1, 1);
        reveal_with_fuel(spec_e2, 1);
    }
    assert(spec_parse_expression(tokens, pos) == spec_e1(tokens, pos)) by {
        reveal_with_fuel(spec_parse_expression, 1);
        reveal_with_fuel(spec_e1, 1);
    }
}

/// An expression that starts with a record literal in which a name occurs
/// twice does not parse: the error is `Unknown("Duplicate key")`.
pub proof fn lemma_duplicate_keys_rejected(tokens: Seq<TokenView>, pos: nat)
    requires
        token_at(tokens, pos) == Some(TokenView::LBrace),
        spec_field_list(tokens, pos + 1, Seq::empty()).value matches Ok(fields)
            && has_duplicate_key(fields),
    ensures
        spec_parse_expression(tokens, pos).value == Err::<ExprView, ParseErrorView>(
            duplicate_key_error(),
        ),
{
    assert(spec_struct_literal(tokens, pos).value == Err::<ExprView, ParseErrorView>(
        duplicate_key_error(),
    )) by {
        reveal_with_fuel(spec_struct_literal, 1);
        reveal_with_fuel(spec_field_list, 1);
    }
    assert(spec_atom(tokens, pos) == spec_struct_literal(tokens, pos)) by {
        reveal_with_fuel(spec_atom, 1);
        reveal_with_fuel(spec_struct_literal, 1);
    }
    lemma_atom_error_passes_tight_levels(tokens, pos);
    lemma_operand_error_passes_binary_levels(tokens, pos);
    lemma_comparison_error_passes_logic_levels(tokens, pos);
}

/// Whether every type of a list is well formed.
pub open spec fn all_well_formed(items: Seq<TypeView>) -> bool {
    forall|i: int| 0 <= i < items.len() ==> well_formed_type(#[trigger] items[i])
}

/// Whether the type of every entry of a keyed list is well formed.
pub open spec fn all_fields_well_formed(fields: Seq<(Seq<char>, TypeView)>) -> bool {
    forall|i: int| 0 <= i < fields.len() ==> well_formed_type((#[trigger] fields[i]).1)
}

/// Array suffixes keep a type well formed: the lengths are integer tokens,
/// which are not negative.
#[verifier::spinoff_prover]
pub proof fn lemma_array_suffixes_well_formed(tokens: Seq<TokenView>, pos: nat, ty: TypeView)
    requires
        integers_not_negative(tokens),
        well_formed_type(ty),
    ensures
        spec_array_suffixes(tokens, pos, ty).value matches Ok(t) ==> well_formed_type(t),
    decreases tokens_left(tokens, pos),
{
    reveal_with_fuel(spec_array_suffixes, 1);
    let suffix = spec_array_type(tokens, pos);
    if let Ok(len) = suffix.value {
        if let Some(n) = len {
            assert(tokens[pos + 1 as int] == TokenView::Integer(n));
        }
        lemma_array_suffixes_well_formed(tokens, pos + suffix.used, array_of(ty, len));
    }
}

/// Every type that is parsed from the tokens of a text is well formed: no
/// record in it has a field name twice, and no sized array in it has a
/// negative length.
#[verifier::spinoff_prover]
pub proof fn lemma_parsed_type_well_formed(tokens: Seq<TokenView>, pos: nat)
    requires
        integers_not_negative(tokens),
    ensures
        spec_parse_type(tokens, pos).value matches Ok(t) ==> well_formed_type(t),
    decreases tokens_left(tokens, pos), 2nat,
{
    reveal_with_fuel(spec_parse_type, 1);
    reveal_with_fuel(spec_type_head, 1);
    let head = spec_type_head(tokens, pos);
    lemma_type_head_well_formed(tokens, pos);
    if let Ok(ty) = head.value {
        lemma_array_suffixes_well_formed(tokens, pos + head.used, ty);
    }
}

/// The head of a type that is parsed from the tokens of a text is well
/// formed.
#[verifier::spinoff_prover]
pub proof fn lemma_type_head_well_formed(tokens: Seq<TokenView>, pos: nat)
    requires
        integers_not_negative(tokens),
    ensures
        spec_type_head(tokens, pos).value matches Ok(t) ==> well_formed_type(t),
    decreases tokens_left(tokens, pos), 1nat,
{
    reveal_with_fuel(spec_type_head, 1);
    reveal_with_fuel(spec_parse_type, 1);
    reveal_with_fuel(spec_type_list, 1);
    reveal_with_fuel(spec_typed_names, 1);
    match token_at(tokens, pos) {
        Some(TokenView::Ref) => {
            lemma_parsed_type_well_formed(tokens, pos + 1);
        },
        Some(TokenView::LParen) => {
            lemma_type_list_well_formed(tokens, pos + 1, Seq::empty());
            let list = spec_type_list(tokens, pos + 1, Seq::empty());
            if list.value is Ok {
                let after = pos + 1 + list.used;
                if token_at(tokens, after) == Some(TokenView::FuncArrow) {
                    lemma_parsed_type_well_formed(tokens, after + 1);
                }
            }
        },
        Some(TokenView::LBrace) => {
            lemma_typed_names_well_formed(tokens, pos + 1, Seq::empty(), TokenView::RBrace);
        },
        _ => {},
    }
}

/// The types of a list that is parsed from the tokens of a text are well
/// formed, if those read before are.
#[verifier::spinoff_prover]
pub proof fn lemma_type_list_well_formed(tokens: Seq<TokenView>, pos: nat, items: Seq<TypeView>)
    requires
        integers_not_negative(tokens),
        all_well_formed(items),
    ensures
        spec_type_list(tokens, pos, items).value matches Ok(all) ==> all_well_formed(all),
    decreases tokens_left(tokens, pos), 3nat,
{
    reveal_with_fuel(spec_type_list, 1);
    reveal_with_fuel(spec_parse_type, 1);
    if token_at(tokens, pos) != Some(TokenView::RParen) {
        lemma_parsed_type_well_formed(tokens, pos);
        let item = spec_parse_type(tokens, pos);
        if let Ok(ty) = item.value {
            let after = pos + item.used;
            assert(all_well_formed(items.push(ty)));
            if token_at(tokens, after) == Some(TokenView::Comma) {
                lemma_type_list_well_formed(tokens, after + 1, items.push(ty));
            }
        }
    }
}

/// The type of a `name: T` that is parsed from the tokens of a text is well
/// formed.
#[verifier::spinoff_prover]
pub proof fn lemma_typed_name_well_formed(tokens: Seq<TokenView>, pos: nat)
    requires
        integers_not_negative(tokens),
    ensures
        spec_typed_name(tokens, pos).value matches Ok(entry) ==> well_formed_type(entry.1),
    decreases tokens_left(tokens, pos), 3nat,
{
    reveal_with_fuel(spec_typed_name, 1);
    reveal_with_fuel(spec_parse_type, 1);
    if token_at(tokens, pos) is Some && token_at(tokens, pos + 1) is Some {
        lemma_parsed_type_well_formed(tokens, pos + 2);
    }
}

/// The types of a list of `name: T` that is parsed from the tokens of a
/// text are well formed, if those read before are.
#[verifier::spinoff_prover]
pub proof fn lemma_typed_names_well_formed(
    tokens: Seq<TokenView>,
    pos: nat,
    items: Seq<(Seq<char>, TypeView)>,
    end: TokenView,
)
    requires
        integers_not_negative(tokens),
        all_fields_well_formed(items),
    ensures
        spec_typed_names(tokens, pos, items, end).value matches Ok(all) ==> all_fields_well_formed(
            all,
        ),
    decreases tokens_left(tokens, pos), 4nat,
{
    reveal_with_fuel(spec_typed_names, 1);
    reveal_with_fuel(spec_typed_name, 1);
    if token_at(tokens, pos) != Some(end) {
        lemma_typed_name_well_formed(tokens, pos);
        let item = spec_typed_name(tokens, pos);
        if let Ok(entry) = item.value {
            let after = pos + item.used;
            assert(all_fields_well_formed(items.push(entry)));
            if token_at(tokens, after) == Some(TokenView::Comma) {
                lemma_typed_names_well_formed(tokens, after + 1, items.push(entry), end);
            }
        }
    }
}

/// Whether an expression is structurally well formed: no record literal in
/// it has a field name twice, and every type written in it is well formed.
pub open spec fn well_formed_expr(e: ExprView) -> bool
    decreases e,
{
    match e {
        ExprView::StructLiteral(fields) => distinct_keys(fields) && forall|i: int|
            0 <= i < fields.len() ==> well_formed_expr((#[trigger] fields[i]).1),
        ExprView::ArrayLiteral(items) => forall|i: int|
            0 <= i < items.len() ==> well_formed_expr(#[trigger] items[i]),
        ExprView::TupleLiteral(items) => forall|i: int|
            0 <= i < items.len() ==> well_formed_expr(#[trigger] items[i]),
        ExprView::FunctionLiteral { args, ret, body } => all_fields_well_formed(args)
            && well_formed_type(ret) && forall|i: int|
            0 <= i < body.len() ==> well_formed_stmt(#[trigger] body[i]),
        ExprView::Add(lhs, rhs) => well_formed_expr(*lhs) && well_formed_expr(*rhs),
        ExprView::Sub(lhs, rhs) => well_formed_expr(*lhs) && well_formed_expr(*rhs),
        ExprView::Mul(lhs, rhs) => well_formed_expr(*lhs) && well_formed_expr(*rhs),
        ExprView::Div(lhs, rhs) => well_formed_expr(*lhs) && well_formed_expr(*rhs),
        ExprView::Mod(lhs, rhs) => well_formed_expr(*lhs) && well_formed_expr(*rhs),
        ExprView::Equal(lhs, rhs) => well_formed_expr(*lhs) && well_formed_expr(*rhs),
        ExprView::GreaterEqual(lhs, rhs) => well_formed_expr(*lhs) && well_formed_expr(*rhs),
        ExprView::GreaterThan(lhs, rhs) => well_formed_expr(*lhs) && well_formed_expr(*rhs),
        ExprView::LessEqual(lhs, rhs) => well_formed_expr(*lhs) && well_formed_expr(*rhs),
        ExprView::LessThan(lhs, rhs) => well_formed_expr(*lhs) && well_formed_expr(*rhs),
        ExprView::And(lhs, rhs) => well_formed_expr(*lhs) && well_formed_expr(*rhs),
        ExprView::Or(lhs, rhs) => well_formed_expr(*lhs) && well_formed_expr(*rhs),
        ExprView::Neg(inner) => well_formed_expr(*inner),
        ExprView::Not(inner) => well_formed_expr(*inner),
        ExprView::Ref(inner) => well_formed_expr(*inner),
        ExprView::Deref(inner) => well_formed_expr(*inner),
        ExprView::Call { expr, args } => well_formed_expr(*expr) && forall|i: int|
            0 <= i < args.len() ==> well_formed_expr(#[trigger] args[i]),
        ExprView::Index { expr, index } => well_formed_expr(*expr) && well_formed_expr(*index),
        ExprView::Dot { expr, field } => well_formed_expr(*expr),
        _ => true,
    }
}

/// Whether a statement is structurally well formed: every expression and
/// every type in it is.
pub open spec fn well_formed_stmt(s: StmtView) -> bool
    decreases s,
{
    match s {
        StmtView::TypeDef { name, typ } => well_formed_type(typ),
        StmtView::VarDef { name, typ, expr } => (typ matches Some(t) ==> well_formed_type(t))
            && well_formed_expr(expr),
        StmtView::If { cond, body, else_stmt } => well_formed_expr(cond) && (forall|i: int|
            0 <= i < body.len() ==> well_formed_stmt(#[trigger] body[i])) && match else_stmt {
            ElseView::If(inner) => well_formed_stmt(*inner),
            ElseView::Block(block) => forall|i: int|
                0 <= i < block.len() ==> well_formed_stmt(#[trigger] block[i]),
            ElseView::Nothing => true,
        },
        StmtView::While { cond, body } => well_formed_expr(cond) && forall|i: int|
            0 <= i < body.len() ==> well_formed_stmt(#[trigger] body[i]),
        StmtView::Assign { lhs, rhs } => well_formed_expr(lhs) && well_formed_expr(rhs),
        StmtView::Return(expr) => expr matches Some(e) ==> well_formed_expr(e),
        StmtView::Loop(body) => forall|i: int|
            0 <= i < body.len() ==> well_formed_stmt(#[trigger] body[i]),
        StmtView::Expr(expr) => well_formed_expr(expr),
        _ => true,
    }
}

/// Whether every statement of a block is well formed.
pub open spec fn well_formed_block(block: Seq<StmtView>) -> bool {
    forall|i: int| 0 <= i < block.len() ==> well_formed_stmt(#[trigger] block[i])
}

/// Every expression that is parsed from the tokens of a text is well
/// formed.
#[verifier::spinoff_prover]
pub proof fn lemma_parse_expression_well_formed(tokens: Seq<TokenView>, pos: nat)
    requires
        integers_not_negative(tokens),
    ensures
        spec_parse_expression(tokens, pos).value matches Ok(e) ==> well_formed_expr(e),
    decreases tokens_left(tokens, pos), 11nat,
{
    reveal_with_fuel(spec_parse_expression, 1);
    reveal_with_fuel(spec_e1, 1);
    lemma_e1_well_formed(tokens, pos);
}

/// What is parsed at the level of `or` is well formed.
#[verifier::spinoff_prover]
pub proof fn lemma_e1_well_formed(tokens: Seq<TokenView>, pos: nat)
    requires
        integers_not_negative(tokens),
    ensures
        spec_e1(tokens, pos).value matches Ok(e) ==> well_formed_expr(e),
    decreases tokens_left(tokens, pos), 10nat,
{
    reveal_with_fuel(spec_e1, 1);
    reveal_with_fuel(spec_e2, 1);
    lemma_e2_well_formed(tokens, pos);
    let lhs = spec_e2(tokens, pos);
    if lhs.value is Ok && token_at(tokens, pos + lhs.used) == Some(TokenView::Or) {
        lemma_e1_well_formed(tokens, pos + lhs.used + 1);
    }
}

/// What is parsed at the level of `and` is well formed.
#[verifier::spinoff_prover]
pub proof fn lemma_e2_well_formed(tokens: Seq<TokenView>, pos: nat)
    requires
        integers_not_negative(tokens),
    ensures
        spec_e2(tokens, pos).value matches Ok(e) ==> well_formed_expr(e),
    decreases tokens_left(tokens, pos), 9nat,
{
    reveal_with_fuel(spec_e2, 1);
    reveal_with_fuel(spec_e3, 1);
    lemma_e3_well_formed(tokens, pos);
    let lhs = spec_e3(tokens, pos);
    if lhs.value is Ok && token_at(tokens, pos + lhs.used) == Some(TokenView::And) {
        lemma_e2_well_formed(tokens, pos + lhs.used + 1);
    }
}

/// What is parsed at the level of `not` is well formed.
#[verifier::spinoff_prover]
pub proof fn lemma_e3_well_formed(tokens: Seq<TokenView>, pos: nat)
    requires
        integers_not_negative(tokens),
    ensures
        spec_e3(tokens, pos).value matches Ok(e) ==> well_formed_expr(e),
    decreases tokens_left(tokens, pos), 8nat,
{
    reveal_with_fuel(spec_e3, 1);
    reveal_with_fuel(spec_e4, 1);
    if token_at(tokens, pos) == Some(TokenView::Not) {
        lemma_e3_well_formed(tokens, pos + 1);
    } else {
        lemma_e4_well_formed(tokens, pos);
    }
}

/// What is parsed at the level of the comparisons is well formed.
#[verifier::spinoff_prover]
pub proof fn lemma_e4_well_formed(tokens: Seq<TokenView>, pos: nat)
    requires
        integers_not_negative(tokens),
    ensures
        spec_e4(tokens, pos).value matches Ok(e) ==> well_formed_expr(e),
    decreases tokens_left(tokens, pos), 7nat,
{
    reveal_with_fuel(spec_e4, 1);
    reveal_with_fuel(spec_e5, 1);
    lemma_e5_well_formed(tokens, pos);
    let lhs = spec_e5(tokens, pos);
    if lhs.value is Ok {
        if let Some(token) = token_at(tokens, pos + lhs.used) {
            if is_comparison(token) {
                lemma_e4_well_formed(tokens, pos + lhs.used + 1);
            }
        }
    }
}

/// What is parsed at the level of the sums is well formed.
#[verifier::spinoff_prover]
pub proof fn lemma_e5_well_formed(tokens: Seq<TokenView>, pos: nat)
    requires
        integers_not_negative(tokens),
    ensures
        spec_e5(tokens, pos).value matches Ok(e) ==> well_formed_expr(e),
    decreases tokens_left(tokens, pos), 6nat,
{
    reveal_with_fuel(spec_e5, 1);
    reveal_with_fuel(spec_e5_rest, 1);
    reveal_with_fuel(spec_e6, 1);
    lemma_e6_well_formed(tokens, pos);
    let lhs = spec_e6(tokens, pos);
    if let Ok(l) = lhs.value {
        lemma_e5_rest_well_formed(tokens, pos + lhs.used, l);
    }
}

/// The rest of a sum after a well-formed operand is well formed.
#[verifier::spinoff_prover]
pub proof fn lemma_e5_rest_well_formed(tokens: Seq<TokenView>, pos: nat, lhs: ExprView)
    requires
        integers_not_negative(tokens),
        well_formed_expr(lhs),
    ensures
        spec_e5_rest(tokens, pos, lhs).value matches Ok(e) ==> well_formed_expr(e),
    decreases tokens_left(tokens, pos), 0nat,
{
    reveal_with_fuel(spec_e5_rest, 1);
    reveal_with_fuel(spec_e6, 1);
    if let Some(token) = token_at(tokens, pos) {
        if is_additive(token) {
            lemma_e6_well_formed(tokens, pos + 1);
            let rhs = spec_e6(tokens, pos + 1);
            if let Ok(r) = rhs.value {
                lemma_e5_rest_well_formed(tokens, pos + 1 + rhs.used, additive(token, lhs, r));
            }
        }
    }
}

/// What is parsed at the level of the products is well formed.
#[verifier::spinoff_prover]
pub proof fn lemma_e6_well_formed(tokens: Seq<TokenView>, pos: nat)
    requires
        integers_not_negative(tokens),
    ensures
        spec_e6(tokens, pos).value matches Ok(e) ==> well_formed_expr(e),
    decreases tokens_left(tokens, pos), 5nat,
{
    reveal_with_fuel(spec_e6, 1);
    reveal_with_fuel(spec_e6_rest, 1);
    reveal_with_fuel(spec_e7, 1);
    lemma_e7_well_formed(tokens, pos);
    let lhs = spec_e7(tokens, pos);
    if let Ok(l) = lhs.value {
        lemma_e6_rest_well_formed(tokens, pos + lhs.used, l);
    }
}

/// The rest of a product after a well-formed operand is well formed.
#[verifier::spinoff_prover]
pub proof fn lemma_e6_rest_well_formed(tokens: Seq<TokenView>, pos: nat, lhs: ExprView)
    requires
        integers_not_negative(tokens),
        well_formed_expr(lhs),
    ensures
        spec_e6_rest(tokens, pos, lhs).value matches Ok(e) ==> well_formed_expr(e),
    decreases tokens_left(tokens, pos), 0nat,
{
    reveal_with_fuel(spec_e6_rest, 1);
    reveal_with_fuel(spec_e7, 1);
    if let Some(token) = token_at(tokens, pos) {
        if is_multiplicative(token) {
            lemma_e7_well_formed(tokens, pos + 1);
            let rhs = spec_e7(tokens, pos + 1);
            if let Ok(r) = rhs.value {
                lemma_e6_rest_well_formed(tokens, pos + 1 + rhs.used, multiplicative(token, lhs, r));
            }
        }
    }
}

/// What is parsed at the level of unary minus is well formed.
#[verifier::spinoff_prover]
pub proof fn lemma_e7_well_formed(tokens: Seq<TokenView>, pos: nat)
    requires
        integers_not_negative(tokens),
    ensures
        spec_e7(tokens, pos).value matches Ok(e) ==> well_formed_expr(e),
    decreases tokens_left(tokens, pos), 4nat,
{
    reveal_with_fuel(spec_e7, 1);
    reveal_with_fuel(spec_e8, 1);
    if token_at(tokens, pos) == Some(TokenView::Sub) {
        lemma_e7_well_formed(tokens, pos + 1);
    } else {
        lemma_e8_well_formed(tokens, pos);
    }
}

/// What is parsed at the level of `&` and `*` is well formed.
#[verifier::spinoff_prover]
pub proof fn lemma_e8_well_formed(tokens: Seq<TokenView>, pos: nat)
    requires
        integers_not_negative(tokens),
    ensures
        spec_e8(tokens, pos).value matches Ok(e) ==> well_formed_expr(e),
    decreases tokens_left(tokens, pos), 3nat,
{
    reveal_with_fuel(spec_e8, 1);
    reveal_with_fuel(spec_e9, 1);
    if token_at(tokens, pos) == Some(TokenView::Ref) || token_at(tokens, pos) == Some(TokenView::Mul) {
        lemma_e8_well_formed(tokens, pos + 1);
    } else {
        lemma_e9_well_formed(tokens, pos);
    }
}

/// What is parsed at the postfix level is well formed.
#[verifier::spinoff_prover]
pub proof fn lemma_e9_well_formed(tokens: Seq<TokenView>, pos: nat)
    requires
        integers_not_negative(tokens),
    ensures
        spec_e9(tokens, pos).value matches Ok(e) ==> well_formed_expr(e),
    decreases tokens_left(tokens, pos), 2nat,
{
    reveal_with_fuel(spec_e9, 1);
    reveal_with_fuel(spec_e9_rest, 1);
    reveal_with_fuel(spec_atom, 1);
    lemma_atom_well_formed(tokens, pos);
    let lhs = spec_atom(tokens, pos);
    if let Ok(l) = lhs.value {
        lemma_e9_rest_well_formed(tokens, pos + lhs.used, l);
    }
}

/// The calls, indexings and field accesses after a well-formed expression
/// make a well-formed expression.
#[verifier::spinoff_prover]
pub proof fn lemma_e9_rest_well_formed(tokens: Seq<TokenView>, pos: nat, expr: ExprView)
    requires
        integers_not_negative(tokens),
        well_formed_expr(expr),
    ensures
        spec_e9_rest(tokens, pos, expr).value matches Ok(e) ==> well_formed_expr(e),
    decreases tokens_left(tokens, pos), 0nat,
{
    reveal_with_fuel(spec_e9_rest, 1);
    reveal_with_fuel(spec_expression_list, 1);
    reveal_with_fuel(spec_parse_expression, 1);
    match token_at(tokens, pos) {
        Some(TokenView::LParen) => {
            lemma_expression_list_well_formed(tokens, pos + 1, Seq::empty(), TokenView::RParen);
            let args = spec_expression_list(tokens, pos + 1, Seq::empty(), TokenView::RParen);
            if let Ok(a) = args.value {
                lemma_e9_rest_well_formed(
                    tokens,
                    pos + 1 + args.used,
                    ExprView::Call { expr: Box::new(expr), args: a },
                );
            }
        },
        Some(TokenView::LBracket) => {
            lemma_parse_expression_well_formed(tokens, pos + 1);
            let index = spec_parse_expression(tokens, pos + 1);
            if let Ok(i) = index.value {
                if token_at(tokens, pos + 1 + index.used) == Some(TokenView::RBracket) {
                    lemma_e9_rest_well_formed(
                        tokens,
                        pos + 2 + index.used,
                        ExprView::Index { expr: Box::new(expr), index: Box::new(i) },
                    );
                }
            }
        },
        Some(TokenView::Dot) => {
            if let Some(TokenView::Identifier(field)) = token_at(tokens, pos + 1) {
                lemma_e9_rest_well_formed(
                    tokens,
                    pos + 2,
                    ExprView::Dot { expr: Box::new(expr), field },
                );
            }
        },
        _ => {},
    }
}

/// Every atom that is parsed from the tokens of a text is well formed.
#[verifier::spinoff_prover]
pub proof fn lemma_atom_well_formed(tokens: Seq<TokenView>, pos: nat)
    requires
        integers_not_negative(tokens),
    ensures
        spec_atom(tokens, pos).value matches Ok(e) ==> well_formed_expr(e),
    decreases tokens_left(tokens, pos), 1nat,
{
    reveal_with_fuel(spec_atom, 1);
    reveal_with_fuel(spec_struct_literal, 1);
    reveal_with_fuel(spec_array_literal, 1);
    reveal_with_fuel(spec_grouping, 1);
    reveal_with_fuel(spec_function_literal, 1);
    match token_at(tokens, pos) {
        Some(TokenView::LBrace) => lemma_struct_literal_well_formed(tokens, pos),
        Some(TokenView::LBracket) => lemma_array_literal_well_formed(tokens, pos),
        Some(TokenView::LParen) => {
            if spec_is_func_literal(tokens, pos) is Ok {
                lemma_function_literal_well_formed(tokens, pos);
            } else {
                lemma_grouping_well_formed(tokens, pos);
            }
        },
        _ => {},
    }
}

/// A record literal that is parsed is well formed: no name occurs twice in
/// it.
#[verifier::spinoff_prover]
pub proof fn lemma_struct_literal_well_formed(tokens: Seq<TokenView>, pos: nat)
    requires
        integers_not_negative(tokens),
    ensures
        spec_struct_literal(tokens, pos).value matches Ok(e) ==> well_formed_expr(e),
    decreases tokens_left(tokens, pos), 0nat,
{
    reveal_with_fuel(spec_struct_literal, 1);
    reveal_with_fuel(spec_field_list, 1);
    if token_at(tokens, pos) == Some(TokenView::LBrace) {
        lemma_field_list_well_formed(tokens, pos + 1, Seq::empty());
    }
}

/// An array literal that is parsed is well formed.
#[verifier::spinoff_prover]
pub proof fn lemma_array_literal_well_formed(tokens: Seq<TokenView>, pos: nat)
    requires
        integers_not_negative(tokens),
    ensures
        spec_array_literal(tokens, pos).value matches Ok(e) ==> well_formed_expr(e),
    decreases tokens_left(tokens, pos), 0nat,
{
    reveal_with_fuel(spec_array_literal, 1);
    reveal_with_fuel(spec_expression_list, 1);
    if token_at(tokens, pos) == Some(TokenView::LBracket) {
        lemma_expression_list_well_formed(tokens, pos + 1, Seq::empty(), TokenView::RBracket);
    }
}

/// A parenthesised list of expressions that is parsed is well formed.
#[verifier::spinoff_prover]
pub proof fn lemma_grouping_well_formed(tokens: Seq<TokenView>, pos: nat)
    requires
        integers_not_negative(tokens),
    ensures
        spec_grouping(tokens, pos).value matches Ok(e) ==> well_formed_expr(e),
    decreases tokens_left(tokens, pos), 0nat,
{
    reveal_with_fuel(spec_grouping, 1);
    reveal_with_fuel(spec_expression_list, 1);
    if token_at(tokens, pos) == Some(TokenView::LParen) {
        lemma_expression_list_well_formed(tokens, pos + 1, Seq::empty(), TokenView::RParen);
    }
}

/// A function literal that is parsed is well formed.
#[verifier::spinoff_prover]
pub proof fn lemma_function_literal_well_formed(tokens: Seq<TokenView>, pos: nat)
    requires
        integers_not_negative(tokens),
    ensures
        spec_function_literal(tokens, pos).value matches Ok(e) ==> well_formed_expr(e),
    decreases tokens_left(tokens, pos), 0nat,
{
    reveal_with_fuel(spec_function_literal, 1);
    reveal_with_fuel(spec_parse_block, 1);
    if token_at(tokens, pos) == Some(TokenView::LParen) {
        lemma_typed_names_well_formed(tokens, pos + 1, Seq::empty(), TokenView::RParen);
        let args = spec_typed_names(tokens, pos + 1, Seq::empty(), TokenView::RParen);
        if args.value is Ok {
            let after_args = pos + 1 + args.used;
            let ret_used = if token_at(tokens, after_args) == Some(TokenView::Colon) {
                lemma_parsed_type_well_formed(tokens, after_args + 1);
                1 + spec_parse_type(tokens, after_args + 1).used
            } else {
                0
            };
            let after_ret = after_args + ret_used;
            if token_at(tokens, after_ret) == Some(TokenView::FuncArrow) {
                lemma_parse_block_well_formed(tokens, after_ret + 1, true);
            }
        }
    }
}

/// The expressions of a list that is parsed are well formed, if those read
/// before are.
#[verifier::spinoff_prover]
pub proof fn lemma_expression_list_well_formed(
    tokens: Seq<TokenView>,
    pos: nat,
    items: Seq<ExprView>,
    end: TokenView,
)
    requires
        integers_not_negative(tokens),
        forall|i: int| 0 <= i < items.len() ==> well_formed_expr(#[trigger] items[i]),
    ensures
        spec_expression_list(tokens, pos, items, end).value matches Ok(all) ==> forall|i: int|
            0 <= i < all.len() ==> well_formed_expr(#[trigger] all[i]),
    decreases tokens_left(tokens, pos), 12nat,
{
    reveal_with_fuel(spec_expression_list, 1);
    reveal_with_fuel(spec_parse_expression, 1);
    if token_at(tokens, pos) != Some(end) {
        lemma_parse_expression_well_formed(tokens, pos);
        let item = spec_parse_expression(tokens, pos);
        if let Ok(expr) = item.value {
            let after = pos + item.used;
            let next = items.push(expr);
            assert forall|i: int| 0 <= i < next.len() implies well_formed_expr(
                #[trigger] next[i],
            ) by {
                if i < items.len() {
                    assert(next[i] == items[i]);
                }
            }
            if token_at(tokens, after) == Some(TokenView::Comma) {
                lemma_expression_list_well_formed(tokens, after + 1, next, end);
            }
        }
    }
}

/// The value of a field of a record literal that is parsed is well formed.
#[verifier::spinoff_prover]
pub proof fn lemma_field_well_formed(tokens: Seq<TokenView>, pos: nat)
    requires
        integers_not_negative(tokens),
    ensures
        spec_field(tokens, pos).value matches Ok(field) ==> well_formed_expr(field.1),
    decreases tokens_left(tokens, pos), 12nat,
{
    reveal_with_fuel(spec_field, 1);
    reveal_with_fuel(spec_parse_expression, 1);
    if token_at(tokens, pos) is Some && token_at(tokens, pos + 1) is Some {
        lemma_parse_expression_well_formed(tokens, pos + 2);
    }
}

/// The values of the fields of a record literal that is parsed are well
/// formed, if those read before are.
#[verifier::spinoff_prover]
pub proof fn lemma_field_list_well_formed(
    tokens: Seq<TokenView>,
    pos: nat,
    items: Seq<(Seq<char>, ExprView)>,
)
    requires
        integers_not_negative(tokens),
        forall|i: int| 0 <= i < items.len() ==> well_formed_expr((#[trigger] items[i]).1),
    ensures
        spec_field_list(tokens, pos, items).value matches Ok(all) ==> forall|i: int|
            0 <= i < all.len() ==> well_formed_expr((#[trigger] all[i]).1),
    decreases tokens_left(tokens, pos), 13nat,
{
    reveal_with_fuel(spec_field_list, 1);
    reveal_with_fuel(spec_field, 1);
    if token_at(tokens, pos) != Some(TokenView::RBrace) {
        lemma_field_well_formed(tokens, pos);
        let item = spec_field(tokens, pos);
        if let Ok(field) = item.value {
            let after = pos + item.used;
            let next = items.push(field);
            assert forall|i: int| 0 <= i < next.len() implies well_formed_expr(
                (#[trigger] next[i]).1,
            ) by {
                if i < items.len() {
                    assert(next[i] == items[i]);
                }
            }
            if token_at(tokens, after) == Some(TokenView::Comma) {
                lemma_field_list_well_formed(tokens, after + 1, next);
            }
        }
    }
}

/// Every block that is parsed from the tokens of a text is well formed.
#[verifier::spinoff_prover]
pub proof fn lemma_parse_block_well_formed(tokens: Seq<TokenView>, pos: nat, enclosed: bool)
    requires
        integers_not_negative(tokens),
    ensures
        spec_parse_block(tokens, pos, enclosed).value matches Ok(block) ==> well_formed_block(
            block,
        ),
    decreases tokens_left(tokens, pos), 16nat,
{
    reveal_with_fuel(spec_parse_block, 1);
    reveal_with_fuel(spec_block_rest, 1);
    if enclosed {
        if token_at(tokens, pos) == Some(TokenView::LBrace) {
            lemma_block_rest_well_formed(tokens, pos + 1, Seq::empty(), true);
        }
    } else {
        lemma_block_rest_well_formed(tokens, pos, Seq::empty(), false);
    }
}

/// The rest of a block that is parsed is well formed, if the statements
/// read before are.
#[verifier::spinoff_prover]
pub proof fn lemma_block_rest_well_formed(
    tokens: Seq<TokenView>,
    pos: nat,
    statements: Seq<StmtView>,
    enclosed: bool,
)
    requires
        integers_not_negative(tokens),
        well_formed_block(statements),
    ensures
        spec_block_rest(tokens, pos, statements, enclosed).value matches Ok(block)
            ==> well_formed_block(block),
    decreases tokens_left(tokens, pos), 15nat,
{
    reveal_with_fuel(spec_block_rest, 1);
    reveal_with_fuel(spec_parse_statement, 1);
    if !(enclosed && token_at(tokens, pos) == Some(TokenView::RBrace)) && token_at(tokens, pos)
        is Some {
        lemma_parse_statement_well_formed(tokens, pos);
        let statement = spec_parse_statement(tokens, pos);
        if let Ok(s) = statement.value {
            let next = statements.push(s);
            assert forall|i: int| 0 <= i < next.len() implies well_formed_stmt(
                #[trigger] next[i],
            ) by {
                if i < statements.len() {
                    assert(next[i] == statements[i]);
                }
            }
            if statement.used != 0 {
                lemma_block_rest_well_formed(tokens, pos + statement.used, next, enclosed);
            }
        }
    }
}

/// An `if` that is parsed is well formed.
#[verifier::spinoff_prover]
pub proof fn lemma_if_tail_well_formed(tokens: Seq<TokenView>, pos: nat)
    requires
        integers_not_negative(tokens),
    ensures
        spec_if_tail(tokens, pos).value matches Ok(s) ==> well_formed_stmt(s),
    decreases tokens_left(tokens, pos), 17nat,
{
    reveal_with_fuel(spec_if_tail, 1);
    reveal_with_fuel(spec_parse_expression, 1);
    reveal_with_fuel(spec_parse_block, 1);
    lemma_parse_expression_well_formed(tokens, pos);
    let cond = spec_parse_expression(tokens, pos);
    if cond.value is Ok {
        lemma_parse_block_well_formed(tokens, pos + cond.used, true);
        let body = spec_parse_block(tokens, pos + cond.used, true);
        if body.value is Ok {
            let after = pos + cond.used + body.used;
            if token_at(tokens, after) == Some(TokenView::Else) {
                if token_at(tokens, after + 1) == Some(TokenView::If) {
                    lemma_if_tail_well_formed(tokens, after + 2);
                } else {
                    lemma_parse_block_well_formed(tokens, after + 1, true);
                }
            }
        }
    }
}

/// An assignment or an expression statement that is parsed after a
/// well-formed expression is well formed.
#[verifier::spinoff_prover]
pub proof fn lemma_assign_or_expr_well_formed(tokens: Seq<TokenView>, pos: nat, expr: ExprView)
    requires
        integers_not_negative(tokens),
        well_formed_expr(expr),
    ensures
        spec_assign_or_expr(tokens, pos, expr).value matches Ok(s) ==> well_formed_stmt(s),
    decreases tokens_left(tokens, pos), 12nat,
{
    reveal_with_fuel(spec_assign_or_expr, 1);
    reveal_with_fuel(spec_parse_expression, 1);
    if let Some(token) = token_at(tokens, pos) {
        if is_assignment(token) {
            lemma_parse_expression_well_formed(tokens, pos + 1);
            if let Ok(r) = spec_parse_expression(tokens, pos + 1).value {
                assert(well_formed_expr(assigned_value(token, expr, r)));
            }
        }
    }
}

/// A variable definition that is parsed is well formed.
#[verifier::spinoff_prover]
pub proof fn lemma_var_def_well_formed(tokens: Seq<TokenView>, pos: nat)
    requires
        integers_not_negative(tokens),
    ensures
        spec_var_def(tokens, pos).value matches Ok(s) ==> well_formed_stmt(s),
    decreases tokens_left(tokens, pos), 12nat,
{
    reveal_with_fuel(spec_var_def, 1);
    reveal_with_fuel(spec_parse_expression, 1);
    if token_at(tokens, pos) is Some && token_at(tokens, pos + 1) is Some {
        let typ = spec_type_annotation(tokens, pos + 2);
        if token_at(tokens, pos + 2) == Some(TokenView::Colon) {
            lemma_parsed_type_well_formed(tokens, pos + 3);
        }
        if typ.value is Ok {
            let after_type = pos + 2 + typ.used;
            if token_at(tokens, after_type) is Some {
                lemma_parse_expression_well_formed(tokens, after_type + 1);
            }
        }
    }
}

/// A `while` that is parsed is well formed.
#[verifier::spinoff_prover]
pub proof fn lemma_while_well_formed(tokens: Seq<TokenView>, pos: nat)
    requires
        integers_not_negative(tokens),
    ensures
        spec_while(tokens, pos).value matches Ok(s) ==> well_formed_stmt(s),
    decreases tokens_left(tokens, pos), 12nat,
{
    reveal_with_fuel(spec_while, 1);
    reveal_with_fuel(spec_parse_expression, 1);
    reveal_with_fuel(spec_parse_block, 1);
    if token_at(tokens, pos) is Some {
        lemma_parse_expression_well_formed(tokens, pos + 1);
        let cond = spec_parse_expression(tokens, pos + 1);
        if cond.value is Ok {
            lemma_parse_block_well_formed(tokens, pos + 1 + cond.used, true);
        }
    }
}

/// A `return` that is parsed is well formed.
#[verifier::spinoff_prover]
pub proof fn lemma_return_well_formed(tokens: Seq<TokenView>, pos: nat)
    requires
        integers_not_negative(tokens),
    ensures
        spec_return(tokens, pos).value matches Ok(s) ==> well_formed_stmt(s),
    decreases tokens_left(tokens, pos), 12nat,
{
    reveal_with_fuel(spec_return, 1);
    reveal_with_fuel(spec_parse_expression, 1);
    if token_at(tokens, pos) is Some && token_at(tokens, pos + 1) != Some(TokenView::Semicolon) {
        lemma_parse_expression_well_formed(tokens, pos + 1);
    }
}

/// Every statement that is parsed from the tokens of a text is well
/// formed.
#[verifier::spinoff_prover]
pub proof fn lemma_parse_statement_well_formed(tokens: Seq<TokenView>, pos: nat)
    requires
        integers_not_negative(tokens),
    ensures
        spec_parse_statement(tokens, pos).value matches Ok(s) ==> well_formed_stmt(s),
    decreases tokens_left(tokens, pos), 13nat,
{
    reveal_with_fuel(spec_parse_statement, 1);
    reveal_with_fuel(spec_parse_expression, 1);
    reveal_with_fuel(spec_parse_block, 1);
    reveal_with_fuel(spec_if_tail, 1);
    reveal_with_fuel(spec_assign_or_expr, 1);
    reveal_with_fuel(spec_var_def, 1);
    reveal_with_fuel(spec_while, 1);
    reveal_with_fuel(spec_return, 1);
    match token_at(tokens, pos) {
        None => {},
        Some(TokenView::Type) => {
            lemma_parsed_type_well_formed(tokens, pos + 3);
        },
        Some(TokenView::Let) => lemma_var_def_well_formed(tokens, pos),
        Some(TokenView::Import) => {},
        Some(TokenView::While) => lemma_while_well_formed(tokens, pos),
        Some(TokenView::Loop) => lemma_parse_block_well_formed(tokens, pos + 1, true),
        Some(TokenView::Break) => {},
        Some(TokenView::Continue) => {},
        Some(TokenView::Return) => lemma_return_well_formed(tokens, pos),
        Some(TokenView::If) => lemma_if_tail_well_formed(tokens, pos + 1),
        Some(_) => {
            lemma_parse_expression_well_formed(tokens, pos);
            let expr = spec_parse_expression(tokens, pos);
            if let Ok(x) = expr.value {
                lemma_assign_or_expr_well_formed(tokens, pos + expr.used, x);
            }
        },
    }
}

} // verus!
