//! The types of expressions.
use vstd::pervasive::unreached;
use vstd::prelude::*;
use crate::parser::ast::{ExprView, Expression, Statement};
use crate::parser::laws::well_formed_expr;
use crate::parser::types::{find_field, well_formed_type, Type, TypeView};
use crate::type_checker::laws::{lemma_check_expr_well_formed, well_formed_scope};
use crate::type_checker::rules::{
    bind_params, spec_array_literal_type, spec_binop_cmp_type, spec_binop_type,
    spec_bool_op_type, spec_check_args, spec_check_array_items, spec_check_binop_cmp_expr,
    spec_check_binop_expr, spec_check_block, spec_check_bool_op, spec_check_expr,
    spec_check_exprs, spec_check_params, spec_check_same_type, spec_check_struct_literal,
    spec_infer_function_type_signature, spec_mod_type, spec_same_type,
};
use crate::type_checker::scope::{verdict, Scope, ScopeView, TypeError};
use crate::type_checker::statements::check_block;
use crate::type_checker::types::{check_type, is_assignable};

verus! {

/// The type of a sum, difference, product or quotient of operands of the
/// types `lhs` and `rhs`.
pub fn binop_type(lhs: Type, rhs: Type) -> (r: Result<Type, TypeError>)
    ensures
        verdict(r) == spec_binop_type(lhs@, rhs@),
{
    match (lhs, rhs) {
        (Type::Int, Type::Int) => Ok(Type::Int),
        (Type::Float, Type::Float) => Ok(Type::Float),
        (Type::Char, Type::Char) => Ok(Type::Char),
        (lhs, rhs) => {
            if lhs.same_as(&rhs) {
                Err(TypeError::Invalid(lhs))
            } else {
                Err(TypeError::Unexpected { got: lhs, expected: rhs })
            }
        },
    }
}

/// The type of an ordered comparison of operands of the types `lhs` and
/// `rhs`.
pub fn binop_cmp_type(lhs: Type, rhs: Type) -> (r: Result<Type, TypeError>)
    ensures
        verdict(r) == spec_binop_cmp_type(lhs@, rhs@),
{
    binop_type(lhs, rhs)?;
    Ok(Type::Bool)
}

/// The type of a remainder of operands of the types `lhs` and `rhs`.
pub fn mod_type(lhs: Type, rhs: Type) -> (r: Result<Type, TypeError>)
    ensures
        verdict(r) == spec_mod_type(lhs@, rhs@),
{
    match (lhs, rhs) {
        (Type::Int, Type::Int) => Ok(Type::Int),
        (lhs, _) => Err(TypeError::Unexpected { got: lhs, expected: Type::Int }),
    }
}

/// The type of `and` and `or` on operands of the types `lhs` and `rhs`.
pub fn bool_op_type(lhs: Type, rhs: Type) -> (r: Result<Type, TypeError>)
    ensures
        verdict(r) == spec_bool_op_type(lhs@, rhs@),
{
    match (lhs, rhs) {
        (Type::Bool, Type::Bool) => Ok(Type::Bool),
        (lhs, rhs) => Err(TypeError::Unexpected { got: lhs, expected: rhs }),
    }
}

/// The type of `==` on operands of the types `lhs` and `rhs`.
pub fn equality_type(lhs: Type, rhs: Type) -> (r: Result<Type, TypeError>)
    ensures
        verdict(r) == spec_same_type(lhs@, rhs@),
{
    if lhs.same_as(&rhs) {
        Ok(Type::Bool)
    } else {
        Err(TypeError::Unexpected { got: lhs, expected: rhs })
    }
}

/// The type `void`.
fn void_type() -> (r: Type)
    ensures
        r@ == TypeView::Void,
{
    Type::Void
}

/// The type of an expression in a scope. The type of a well-formed
/// expression is well formed, if the types of the scope are.
#[verifier::spinoff_prover]
pub fn check_expr(expr: &Expression, scope: &Scope) -> (r: Result<Type, TypeError>)
    ensures
        verdict(r) == spec_check_expr(expr@, scope@),
        well_formed_expr(expr@) && well_formed_scope(scope@) ==> (r matches Ok(t)
            ==> well_formed_type(t@)),
    decreases expr, 1nat,
{
    reveal_with_fuel(spec_check_expr, 1);
    proof {
        if well_formed_expr(expr@) && well_formed_scope(scope@) {
            lemma_check_expr_well_formed(expr@, scope@);
        }
    }
    match expr {
        Expression::Null => Ok(Type::Ptr(Box::new(void_type()))),
        Expression::Bool(_) => Ok(Type::Bool),
        Expression::Int(_) => Ok(Type::Int),
        Expression::Float(_) => Ok(Type::Float),
        Expression::String(_) => Ok(Type::String),
        Expression::Char(_) => Ok(Type::Char),
        Expression::Add(_, _) | Expression::Sub(_, _) | Expression::Mul(_, _) | Expression::Div(
            _,
            _,
        ) | Expression::Mod(_, _) | Expression::Neg(_) => check_arithmetic(expr, scope),
        Expression::Equal(_, _) | Expression::GreaterEqual(_, _) | Expression::GreaterThan(_, _)
        | Expression::LessEqual(_, _) | Expression::LessThan(_, _) | Expression::And(_, _)
        | Expression::Or(_, _) | Expression::Not(_) => check_logic(expr, scope),
        Expression::StructLiteral(_) | Expression::ArrayLiteral(_) | Expression::TupleLiteral(_)
        | Expression::FunctionLiteral { args: _, ret: _, body: _ } => check_composite(
            expr,
            scope,
        ),
        Expression::Index { expr: _, index: _ } | Expression::Ref(_) | Expression::Deref(_)
        | Expression::Identifier(_) | Expression::Dot { expr: _, field: _ } | Expression::Call {
            expr: _,
            args: _,
        } => check_access(expr, scope),
    }
}

/// The type of a sum, difference, product, quotient, remainder or
/// negation.
#[verifier::spinoff_prover]
fn check_arithmetic(expr: &Expression, scope: &Scope) -> (r: Result<Type, TypeError>)
    requires
        expr is Add || expr is Sub || expr is Mul || expr is Div || expr is Mod || expr is Neg,
    ensures
        verdict(r) == spec_check_expr(expr@, scope@),
    decreases expr, 0nat,
{
    reveal_with_fuel(spec_check_expr, 1);
    match expr {
        Expression::Add(lhs, rhs) => {
            let l = check_expr(lhs, scope)?;
            let r = check_expr(rhs, scope)?;
            binop_type(l, r)
        },
        Expression::Sub(lhs, rhs) => {
            let l = check_expr(lhs, scope)?;
            let r = check_expr(rhs, scope)?;
            binop_type(l, r)
        },
        Expression::Mul(lhs, rhs) => {
            let l = check_expr(lhs, scope)?;
            let r = check_expr(rhs, scope)?;
            binop_type(l, r)
        },
        Expression::Div(lhs, rhs) => {
            let l = check_expr(lhs, scope)?;
            let r = check_expr(rhs, scope)?;
            binop_type(l, r)
        },
        Expression::Mod(lhs, rhs) => {
            let l = check_expr(lhs, scope)?;
            let r = check_expr(rhs, scope)?;
            mod_type(l, r)
        },
        Expression::Neg(inner) => match check_expr(inner, scope)? {
            Type::Int => Ok(Type::Int),
            Type::Float => Ok(Type::Float),
            ty => Err(TypeError::Invalid(ty)),
        },
        _ => unreached(),
    }
}

/// The type of a comparison, of `and`, `or` or `not`.
#[verifier::spinoff_prover]
fn check_logic(expr: &Expression, scope: &Scope) -> (r: Result<Type, TypeError>)
    requires
        expr is Equal || expr is GreaterEqual || expr is GreaterThan || expr is LessEqual
            || expr is LessThan || expr is And || expr is Or || expr is Not,
    ensures
        verdict(r) == spec_check_expr(expr@, scope@),
    decreases expr, 0nat,
{
    reveal_with_fuel(spec_check_expr, 1);
    match expr {
        Expression::Equal(lhs, rhs) => {
            let l = check_expr(lhs, scope)?;
            let r = check_expr(rhs, scope)?;
            equality_type(l, r)
        },
        Expression::GreaterEqual(lhs, rhs) => {
            let l = check_expr(lhs, scope)?;
            let r = check_expr(rhs, scope)?;
            binop_cmp_type(l, r)
        },
        Expression::GreaterThan(lhs, rhs) => {
            let l = check_expr(lhs, scope)?;
            let r = check_expr(rhs, scope)?;
            binop_cmp_type(l, r)
        },
        Expression::LessEqual(lhs, rhs) => {
            let l = check_expr(lhs, scope)?;
            let r = check_expr(rhs, scope)?;
            binop_cmp_type(l, r)
        },
        Expression::LessThan(lhs, rhs) => {
            let l = check_expr(lhs, scope)?;
            let r = check_expr(rhs, scope)?;
            binop_cmp_type(l, r)
        },
        Expression::And(lhs, rhs) => {
            let l = check_expr(lhs, scope)?;
            let r = check_expr(rhs, scope)?;
            bool_op_type(l, r)
        },
        Expression::Or(lhs, rhs) => {
            let l = check_expr(lhs, scope)?;
            let r = check_expr(rhs, scope)?;
            bool_op_type(l, r)
        },
        Expression::Not(inner) => match check_expr(inner, scope)? {
            Type::Bool => Ok(Type::Bool),
            ty => Err(TypeError::Invalid(ty)),
        },
        _ => unreached(),
    }
}

/// The type of a record, array, tuple or function literal.
#[verifier::spinoff_prover]
fn check_composite(expr: &Expression, scope: &Scope) -> (r: Result<Type, TypeError>)
    requires
        expr is StructLiteral || expr is ArrayLiteral || expr is TupleLiteral
            || expr is FunctionLiteral,
    ensures
        verdict(r) == spec_check_expr(expr@, scope@),
    decreases expr, 0nat,
{
    reveal_with_fuel(spec_check_expr, 1);
    reveal_with_fuel(spec_check_exprs, 1);
    reveal_with_fuel(spec_check_struct_literal, 1);
    reveal_with_fuel(spec_check_array_items, 1);
    match expr {
        Expression::StructLiteral(fields) => {
            proof {
                Expression::lemma_struct_model(*fields);
            }
            let checked = check_struct_literal(fields, scope)?;
            proof {
                Type::lemma_struct_model(checked);
            }
            Ok(Type::Struct(checked))
        },
        Expression::ArrayLiteral(items) => {
            proof {
                Expression::lemma_array_model(*items);
            }
            check_array_literal(items, scope)
        },
        Expression::TupleLiteral(items) => {
            proof {
                Expression::lemma_tuple_model(*items);
            }
            let checked = check_exprs(items, scope)?;
            proof {
                Type::lemma_tuple_model(checked);
            }
            Ok(Type::Tuple(checked))
        },
        Expression::FunctionLiteral { args, ret, body } => {
            proof {
                Expression::lemma_function_model(*args, *ret, *body);
            }
            check_function_literal(args, ret, body, scope)
        },
        _ => unreached(),
    }
}

/// The type of an indexing, `&e`, `*e`, a variable, a field access or a
/// call.
#[verifier::spinoff_prover]
fn check_access(expr: &Expression, scope: &Scope) -> (r: Result<Type, TypeError>)
    requires
        expr is Index || expr is Ref || expr is Deref || expr is Identifier || expr is Dot
            || expr is Call,
    ensures
        verdict(r) == spec_check_expr(expr@, scope@),
    decreases expr, 0nat,
{
    reveal_with_fuel(spec_check_expr, 1);
    reveal_with_fuel(spec_check_args, 1);
    match expr {
        Expression::Index { expr, index } => {
            let index_type = check_expr(index, scope)?;
            if !index_type.same_as(&Type::Int) {
                return Err(TypeError::Unexpected { got: index_type, expected: Type::Int });
            }
            match check_expr(expr, scope)? {
                Type::Array(element) => Ok(*element),
                Type::SizedArray { element, len: _ } => Ok(*element),
                ty => Err(TypeError::Invalid(ty)),
            }
        },
        Expression::Ref(inner) => {
            let ty = check_expr(inner, scope)?;
            Ok(Type::Ptr(Box::new(ty)))
        },
        Expression::Deref(inner) => match check_expr(inner, scope)? {
            Type::Ptr(target) => check_type(&target, scope),
            ty => Err(TypeError::Invalid(ty)),
        },
        Expression::Identifier(name) => match scope.get_var(name.as_str()) {
            Some(ty) => check_type(&ty, scope),
            None => Err(TypeError::InvalidIdentifier(name.clone())),
        },
        Expression::Dot { expr, field } => match check_expr(expr, scope)? {
            Type::Struct(fields) => {
                proof {
                    Type::lemma_struct_model(fields);
                }
                match find_field(&fields, field) {
                    Some(ty) => check_type(ty, scope),
                    None => Err(TypeError::InvalidIdentifier(field.clone())),
                }
            },
            ty => Err(TypeError::Invalid(ty)),
        },
        Expression::Call { expr, args } => {
            proof {
                Expression::lemma_call_model(*expr, *args);
            }
            match check_expr(expr, scope)? {
                Type::Function { args: params, ret } => {
                    proof {
                        Type::lemma_function_model(params, ret);
                    }
                    if args.len() != params.len() {
                        return Err(TypeError::Invalid(Type::Function { args: params, ret }));
                    }
                    check_args(args, &params, scope)?;
                    Ok(*ret)
                },
                ty => Err(TypeError::Invalid(ty)),
            }
        },
        _ => unreached(),
    }
}

/// The types of a list of expressions, in their order.
#[verifier::spinoff_prover]
pub fn check_exprs(items: &Vec<Expression>, scope: &Scope) -> (r: Result<Vec<Type>, TypeError>)
    ensures
        verdict(r) == spec_check_exprs(items.deep_view(), 0, Seq::empty(), scope@),
    decreases items, 0nat,
{
    reveal_with_fuel(spec_check_exprs, 1);
    reveal_with_fuel(spec_check_expr, 1);
    let mut out: Vec<Type> = Vec::new();
    assert(out.deep_view() =~= Seq::empty());
    let mut i: usize = 0;
    while i < items.len()
        invariant
            i <= items.len(),
            spec_check_exprs(items.deep_view(), 0, Seq::empty(), scope@) == spec_check_exprs(
                items.deep_view(),
                i as nat,
                out.deep_view(),
                scope@,
            ),
        decreases items.len() - i,
    {
        reveal_with_fuel(spec_check_exprs, 1);
        reveal_with_fuel(spec_check_expr, 1);
        let ghost before = out.deep_view();
        let ty = check_expr(&items[i], scope)?;
        out.push(ty);
        assert(out.deep_view() =~= before.push(ty@));
        i += 1;
    }
    Ok(out)
}

/// The fields of a record literal with the types of their values.
#[verifier::spinoff_prover]
pub fn check_struct_literal(fields: &Vec<(String, Expression)>, scope: &Scope) -> (r: Result<
    Vec<(String, Type)>,
    TypeError,
>)
    ensures
        verdict(r) == spec_check_struct_literal(fields.deep_view(), 0, Seq::empty(), scope@),
    decreases fields, 0nat,
{
    reveal_with_fuel(spec_check_struct_literal, 1);
    reveal_with_fuel(spec_check_expr, 1);
    let mut out: Vec<(String, Type)> = Vec::new();
    assert(out.deep_view() =~= Seq::empty());
    let mut i: usize = 0;
    while i < fields.len()
        invariant
            i <= fields.len(),
            spec_check_struct_literal(fields.deep_view(), 0, Seq::empty(), scope@)
                == spec_check_struct_literal(
                fields.deep_view(),
                i as nat,
                out.deep_view(),
                scope@,
            ),
        decreases fields.len() - i,
    {
        reveal_with_fuel(spec_check_struct_literal, 1);
        reveal_with_fuel(spec_check_expr, 1);
        let ghost before = out.deep_view();
        let ty = check_expr(&fields[i].1, scope)?;
        let name = fields[i].0.clone();
        out.push((name, ty));
        assert(out.deep_view() =~= before.push((name@, ty@)));
        i += 1;
    }
    Ok(out)
}

/// The type of an array literal with the given items.
#[verifier::spinoff_prover]
pub fn check_array_literal(items: &Vec<Expression>, scope: &Scope) -> (r: Result<Type, TypeError>)
    ensures
        verdict(r) == (match spec_check_array_items(items.deep_view(), 0, None, scope@) {
            Err(e) => Err(e),
            Ok(element) => spec_array_literal_type(element, items.len() as nat),
        }),
    decreases items, 0nat,
{
    reveal_with_fuel(spec_check_array_items, 1);
    reveal_with_fuel(spec_check_expr, 1);
    let mut element: Option<Type> = None;
    let mut i: usize = 0;
    while i < items.len()
        invariant
            i <= items.len(),
            spec_check_array_items(items.deep_view(), 0, None, scope@) == spec_check_array_items(
                items.deep_view(),
                i as nat,
                element.deep_view(),
                scope@,
            ),
        decreases items.len() - i,
    {
        reveal_with_fuel(spec_check_array_items, 1);
        reveal_with_fuel(spec_check_expr, 1);
        let ty = check_expr(&items[i], scope)?;
        match &element {
            Some(first) => {
                if !ty.same_as(first) {
                    return Err(TypeError::Unexpected { got: ty, expected: first.clone() });
                }
            },
            None => {
                element = Some(ty);
            },
        }
        i += 1;
    }
    match element {
        None => Err(TypeError::Invalid(Type::Array(Box::new(void_type())))),
        Some(ty) => {
            let count = items.len() as u64;
            if count > 0x7fff_ffff_ffff_ffff {
                Err(TypeError::Invalid(Type::Array(Box::new(ty))))
            } else {
                Ok(Type::SizedArray { element: Box::new(ty), len: count as i64 })
            }
        },
    }
}

/// The types of the parameters of a function literal, resolved.
#[verifier::spinoff_prover]
pub fn check_params(params: &Vec<(String, Type)>, scope: &Scope) -> (r: Result<
    Vec<Type>,
    TypeError,
>)
    ensures
        verdict(r) == spec_check_params(params.deep_view(), 0, Seq::empty(), scope@),
{
    reveal_with_fuel(spec_check_params, 1);
    let mut out: Vec<Type> = Vec::new();
    assert(out.deep_view() =~= Seq::empty());
    let mut i: usize = 0;
    while i < params.len()
        invariant
            i <= params.len(),
            spec_check_params(params.deep_view(), 0, Seq::empty(), scope@) == spec_check_params(
                params.deep_view(),
                i as nat,
                out.deep_view(),
                scope@,
            ),
        decreases params.len() - i,
    {
        reveal_with_fuel(spec_check_params, 1);
        let ghost before = out.deep_view();
        let ty = check_type(&params[i].1, scope)?;
        out.push(ty);
        assert(out.deep_view() =~= before.push(ty@));
        i += 1;
    }
    Ok(out)
}

/// The type of a function literal: its parameter types and its return
/// type, resolved, once the body, checked in a scope of its own that
/// defines the parameters, returns that type.
#[verifier::spinoff_prover]
pub fn check_function_literal(
    args: &Vec<(String, Type)>,
    ret: &Type,
    body: &Vec<Statement>,
    scope: &Scope,
) -> (r: Result<Type, TypeError>)
    ensures
        verdict(r) == spec_check_expr(
            ExprView::FunctionLiteral {
                args: args.deep_view(),
                ret: ret@,
                body: body.deep_view(),
            },
            scope@,
        ),
    decreases body, 1nat,
{
    reveal_with_fuel(spec_check_expr, 1);
    reveal_with_fuel(spec_check_block, 1);
    let params = check_params(args, scope)?;
    let declared = check_type(ret, scope)?;
    let mut inside = scope.create_child();
    let mut i: usize = 0;
    while i < args.len()
        invariant
            i <= args.len(),
            inside@.types == scope@.types,
            bind_params(args.deep_view(), 0, scope@.vars) == bind_params(
                args.deep_view(),
                i as nat,
                inside@.vars,
            ),
        decreases args.len() - i,
    {
        inside.set_var(args[i].0.as_str(), args[i].1.clone());
        i += 1;
    }
    assert(inside@ == (ScopeView {
        types: scope@.types,
        vars: bind_params(args.deep_view(), 0, scope@.vars),
    }));
    let returned = check_block(body, &mut inside)?;
    if !returned.same_as(&declared) {
        return Err(TypeError::Unexpected { got: returned, expected: declared });
    }
    let declared = Box::new(declared);
    proof {
        Type::lemma_function_model(params, declared);
    }
    Ok(Type::Function { args: params, ret: declared })
}

/// Checks the arguments of a call against the parameters of the same
/// positions.
#[verifier::spinoff_prover]
pub fn check_args(args: &Vec<Expression>, params: &Vec<Type>, scope: &Scope) -> (r: Result<
    (),
    TypeError,
>)
    ensures
        verdict(r) == spec_check_args(args.deep_view(), params.deep_view(), 0, scope@),
    decreases args, 0nat,
{
    reveal_with_fuel(spec_check_args, 1);
    reveal_with_fuel(spec_check_expr, 1);
    let mut i: usize = 0;
    while i < args.len() && i < params.len()
        invariant
            i <= args.len(),
            spec_check_args(args.deep_view(), params.deep_view(), 0, scope@) == spec_check_args(
                args.deep_view(),
                params.deep_view(),
                i as nat,
                scope@,
            ),
        decreases args.len() - i,
    {
        reveal_with_fuel(spec_check_args, 1);
        reveal_with_fuel(spec_check_expr, 1);
        let ty = check_expr(&args[i], scope)?;
        if !is_assignable(&ty, &params[i], scope) {
            return Err(TypeError::Unexpected { got: ty, expected: params[i].clone() });
        }
        i += 1;
    }
    Ok(())
}

/// The type of a function literal as it is declared, without a look at its
/// body.
pub fn infer_function_type_signature(expr: &Expression, scope: &Scope) -> (r: Result<
    Type,
    TypeError,
>)
    ensures
        verdict(r) == spec_infer_function_type_signature(expr@, scope@),
{
    match expr {
        Expression::FunctionLiteral { args, ret, body } => {
            proof {
                Expression::lemma_function_model(*args, *ret, *body);
            }
            let params = check_params(args, scope)?;
            let declared = Box::new(check_type(ret, scope)?);
            proof {
                Type::lemma_function_model(params, declared);
            }
            Ok(Type::Function { args: params, ret: declared })
        },
        _ => {
            let none: Vec<Type> = Vec::new();
            let void = Box::new(void_type());
            proof {
                Type::lemma_function_model(none, void);
                assert(none.deep_view() =~= Seq::empty());
            }
            Err(
                TypeError::Unexpected {
                    got: Type::Void,
                    expected: Type::Function { args: none, ret: void },
                },
            )
        },
    }
}

/// The type of a sum, difference, product or quotient of the operands
/// `lhs` and `rhs`, which are typed from left to right.
pub fn check_binop_expr(lhs: &Expression, rhs: &Expression, scope: &Scope) -> (r: Result<
    Type,
    TypeError,
>)
    ensures
        verdict(r) == spec_check_binop_expr(lhs@, rhs@, scope@),
{
    let l = check_expr(lhs, scope)?;
    let r = check_expr(rhs, scope)?;
    binop_type(l, r)
}

/// The type of an ordered comparison of the operands `lhs` and `rhs`.
pub fn check_binop_cmp_expr(lhs: &Expression, rhs: &Expression, scope: &Scope) -> (r: Result<
    Type,
    TypeError,
>)
    ensures
        verdict(r) == spec_check_binop_cmp_expr(lhs@, rhs@, scope@),
{
    let l = check_expr(lhs, scope)?;
    let r = check_expr(rhs, scope)?;
    binop_cmp_type(l, r)
}

/// The type of `and` and `or` on the operands `lhs` and `rhs`.
pub fn check_bool_op(lhs: &Expression, rhs: &Expression, scope: &Scope) -> (r: Result<
    Type,
    TypeError,
>)
    ensures
        verdict(r) == spec_check_bool_op(lhs@, rhs@, scope@),
{
    let l = check_expr(lhs, scope)?;
    let r = check_expr(rhs, scope)?;
    bool_op_type(l, r)
}

/// The type of `==` on the operands `lhs` and `rhs`.
pub fn check_same_type(lhs: &Expression, rhs: &Expression, scope: &Scope) -> (r: Result<
    Type,
    TypeError,
>)
    ensures
        verdict(r) == spec_check_same_type(lhs@, rhs@, scope@),
{
    let l = check_expr(lhs, scope)?;
    let r = check_expr(rhs, scope)?;
    equality_type(l, r)
}

} // verus!
