//! The typing rules, as functions on the mathematical values of types,
//! expressions and statements. The checkers are proved to compute them.
use vstd::prelude::*;
use crate::parser::ast::{ElseView, ExprView, StmtView};
use crate::parser::types::{field_index, field_value, same_type, TypeView};
use crate::type_checker::scope::{ScopeView, TypeErrorView};

verus! {

/// The type that `ty` stands for in a scope: a name gives the type that the
/// scope has for it, as it is; in any other type the parts are resolved in
/// their order. The first name that the scope does not define is the error.
#[verifier::opaque]
pub open spec fn spec_check_type(ty: TypeView, scope: ScopeView) -> Result<TypeView, TypeErrorView>
    decreases ty, 0nat,
{
    match ty {
        TypeView::Named(name) => if scope.types.contains_key(name) {
            Ok(scope.types[name])
        } else {
            Err(TypeErrorView::InvalidIdentifier(name))
        },
        TypeView::Ptr(inner) => match spec_check_type(*inner, scope) {
            Ok(t) => Ok(TypeView::Ptr(Box::new(t))),
            Err(e) => Err(e),
        },
        TypeView::SizedArray { element, len } => match spec_check_type(*element, scope) {
            Ok(t) => Ok(TypeView::SizedArray { element: Box::new(t), len }),
            Err(e) => Err(e),
        },
        TypeView::Array(element) => match spec_check_type(*element, scope) {
            Ok(t) => Ok(TypeView::Array(Box::new(t))),
            Err(e) => Err(e),
        },
        TypeView::Struct(fields) => match spec_check_fields(fields, 0, Seq::empty(), scope) {
            Ok(f) => Ok(TypeView::Struct(f)),
            Err(e) => Err(e),
        },
        TypeView::Tuple(items) => match spec_check_types(items, 0, Seq::empty(), scope) {
            Ok(t) => Ok(TypeView::Tuple(t)),
            Err(e) => Err(e),
        },
        TypeView::Function { args, ret } => match spec_check_types(args, 0, Seq::empty(), scope) {
            Err(e) => Err(e),
            Ok(a) => match spec_check_type(*ret, scope) {
                Ok(r) => Ok(TypeView::Function { args: a, ret: Box::new(r) }),
                Err(e) => Err(e),
            },
        },
        _ => Ok(ty),
    }
}

/// The types `items[i..]` resolved in their order and appended to `done`.
#[verifier::opaque]
pub open spec fn spec_check_types(
    items: Seq<TypeView>,
    i: nat,
    done: Seq<TypeView>,
    scope: ScopeView,
) -> Result<Seq<TypeView>, TypeErrorView>
    decreases items, items.len() - i,
{
    if i >= items.len() {
        Ok(done)
    } else {
        match spec_check_type(items[i as int], scope) {
            Err(e) => Err(e),
            Ok(t) => spec_check_types(items, i + 1, done.push(t), scope),
        }
    }
}

/// The fields `fields[i..]` with their types resolved in their order,
/// appended to `done`.
#[verifier::opaque]
pub open spec fn spec_check_fields(
    fields: Seq<(Seq<char>, TypeView)>,
    i: nat,
    done: Seq<(Seq<char>, TypeView)>,
    scope: ScopeView,
) -> Result<Seq<(Seq<char>, TypeView)>, TypeErrorView>
    decreases fields, fields.len() - i,
{
    if i >= fields.len() {
        Ok(done)
    } else {
        match spec_check_type(fields[i as int].1, scope) {
            Err(e) => Err(e),
            Ok(t) => spec_check_fields(fields, i + 1, done.push((fields[i as int].0, t)), scope),
        }
    }
}

/// Whether a value of type `src` may be stored where a `dst` is wanted,
/// the names being resolved in `types` at most `depth` times on the way
/// from the two types down to any of their parts.
///
/// * The same type is assignable to itself.
/// * `&a` to `&b` if `a` is assignable to `b`, or if either is `void`.
/// * A sized array to an array, sized or not, if the elements are
///   assignable and the lengths, where both have one, are equal; an unsized
///   array to an unsized array likewise.
/// * A record to a record if the source has every field of the destination,
///   with an assignable type. The source may have more fields.
/// * A tuple to a tuple of the same length, item by item.
/// * A function to a function with as many parameters, parameter by
///   parameter and result to result.
/// * A name on either side stands for its type in `types`; a name that
///   `types` does not define is assignable to nothing but itself, and so is
///   any name once `depth` is used up.
#[verifier::opaque]
pub open spec fn assignable(
    src: TypeView,
    dst: TypeView,
    types: Map<Seq<char>, TypeView>,
    depth: nat,
) -> bool
    decreases depth, src,
{
    if same_type(src, dst) {
        true
    } else {
        match (src, dst) {
            (TypeView::Ptr(a), TypeView::Ptr(b)) => assignable(*a, *b, types, depth) || *a
                == TypeView::Void || *b == TypeView::Void,
            (TypeView::SizedArray { element: a, len: _ }, TypeView::Array(b)) => assignable(
                *a,
                *b,
                types,
                depth,
            ),
            (
                TypeView::SizedArray { element: a, len: n },
                TypeView::SizedArray { element: b, len: m },
            ) => assignable(*a, *b, types, depth) && n == m,
            (TypeView::Array(a), TypeView::Array(b)) => assignable(*a, *b, types, depth),
            (TypeView::Struct(s), TypeView::Struct(d)) => forall|i: int|
                0 <= i < d.len() ==> match field_index(s, (#[trigger] d[i]).0, 0) {
                    Some(j) => 0 <= j < s.len() && assignable(s[j].1, d[i].1, types, depth),
                    None => false,
                },
            (TypeView::Tuple(s), TypeView::Tuple(d)) => s.len() == d.len() && forall|i: int|
                0 <= i < s.len() ==> assignable(#[trigger] s[i], d[i], types, depth),
            (
                TypeView::Function { args: sa, ret: sr },
                TypeView::Function { args: da, ret: dr },
            ) => sa.len() == da.len() && (forall|i: int|
                0 <= i < sa.len() ==> assignable(#[trigger] sa[i], da[i], types, depth))
                && assignable(*sr, *dr, types, depth),
            (TypeView::Named(name), _) => depth > 0 && types.contains_key(name) && assignable(
                types[name],
                dst,
                types,
                (depth - 1) as nat,
            ),
            (_, TypeView::Named(name)) => depth > 0 && types.contains_key(name) && assignable(
                src,
                types[name],
                types,
                (depth - 1) as nat,
            ),
            _ => false,
        }
    }
}

/// How many times names are resolved on the way from two types down to any
/// of their parts when one is tested for being assignable to the other.
/// It keeps the test from running for ever on a name that stands for
/// itself.
pub open spec fn alias_depth() -> nat {
    64
}

/// Whether a value of type `src` may be stored where a `dst` is wanted, in
/// a scope.
pub open spec fn spec_is_assignable(src: TypeView, dst: TypeView, scope: ScopeView) -> bool {
    assignable(src, dst, scope.types, alias_depth())
}

/// The type of `l + r`, `l - r`, `l * r` and `l / r`: the type of the
/// operands, which must be both `int`, both `float` or both `char`.
pub open spec fn spec_binop_type(l: TypeView, r: TypeView) -> Result<TypeView, TypeErrorView> {
    match (l, r) {
        (TypeView::Int, TypeView::Int) => Ok(TypeView::Int),
        (TypeView::Float, TypeView::Float) => Ok(TypeView::Float),
        (TypeView::Char, TypeView::Char) => Ok(TypeView::Char),
        _ => if same_type(l, r) {
            Err(TypeErrorView::Invalid(l))
        } else {
            Err(TypeErrorView::Unexpected { got: l, expected: r })
        },
    }
}

/// The type of `l < r` and the other ordered comparisons: `bool`, for
/// operands that could be added.
pub open spec fn spec_binop_cmp_type(l: TypeView, r: TypeView) -> Result<TypeView, TypeErrorView> {
    match spec_binop_type(l, r) {
        Ok(_) => Ok(TypeView::Bool),
        Err(e) => Err(e),
    }
}

/// The type of `l % r`: `int`, for two `int`.
pub open spec fn spec_mod_type(l: TypeView, r: TypeView) -> Result<TypeView, TypeErrorView> {
    match (l, r) {
        (TypeView::Int, TypeView::Int) => Ok(TypeView::Int),
        _ => Err(TypeErrorView::Unexpected { got: l, expected: TypeView::Int }),
    }
}

/// The type of `-a`: that of `a`, which must be `int` or `float`.
pub open spec fn spec_neg_type(t: TypeView) -> Result<TypeView, TypeErrorView> {
    match t {
        TypeView::Int => Ok(TypeView::Int),
        TypeView::Float => Ok(TypeView::Float),
        _ => Err(TypeErrorView::Invalid(t)),
    }
}

/// The type of `l == r`: `bool`, for operands of the same type.
pub open spec fn spec_same_type(l: TypeView, r: TypeView) -> Result<TypeView, TypeErrorView> {
    if same_type(l, r) {
        Ok(TypeView::Bool)
    } else {
        Err(TypeErrorView::Unexpected { got: l, expected: r })
    }
}

/// The type of `l and r` and `l or r`: `bool`, for two `bool`.
pub open spec fn spec_bool_op_type(l: TypeView, r: TypeView) -> Result<TypeView, TypeErrorView> {
    match (l, r) {
        (TypeView::Bool, TypeView::Bool) => Ok(TypeView::Bool),
        _ => Err(TypeErrorView::Unexpected { got: l, expected: r }),
    }
}

/// The type of `not a`: `bool`, for a `bool`.
pub open spec fn spec_not_type(t: TypeView) -> Result<TypeView, TypeErrorView> {
    match t {
        TypeView::Bool => Ok(TypeView::Bool),
        _ => Err(TypeErrorView::Invalid(t)),
    }
}

/// The type of the items of an array of type `t`.
pub open spec fn spec_element_type(t: TypeView) -> Result<TypeView, TypeErrorView> {
    match t {
        TypeView::Array(element) => Ok(*element),
        TypeView::SizedArray { element, len } => Ok(*element),
        _ => Err(TypeErrorView::Invalid(t)),
    }
}

/// Accepts `t` if it is the same type as `expected`.
pub open spec fn spec_expect_type(t: TypeView, expected: TypeView) -> Result<
    TypeView,
    TypeErrorView,
> {
    if same_type(t, expected) {
        Ok(t)
    } else {
        Err(TypeErrorView::Unexpected { got: t, expected })
    }
}

/// The type of an array literal of `count` items of type `element`: a sized
/// array. A literal without items has no type, and neither has one with
/// more items than a length can count.
pub open spec fn spec_array_literal_type(element: Option<TypeView>, count: nat) -> Result<
    TypeView,
    TypeErrorView,
> {
    match element {
        None => Err(TypeErrorView::Invalid(TypeView::Array(Box::new(TypeView::Void)))),
        Some(t) => if count > i64::MAX {
            Err(TypeErrorView::Invalid(TypeView::Array(Box::new(t))))
        } else {
            Ok(TypeView::SizedArray { element: Box::new(t), len: count as i64 })
        },
    }
}

/// The variables `vars` with the parameters `params[i..]` defined one
/// after the other, each with its type as it is written.
pub open spec fn bind_params(
    params: Seq<(Seq<char>, TypeView)>,
    i: nat,
    vars: Map<Seq<char>, TypeView>,
) -> Map<Seq<char>, TypeView>
    decreases params.len() - i,
{
    if i >= params.len() {
        vars
    } else {
        bind_params(params, i + 1, vars.insert(params[i as int].0, params[i as int].1))
    }
}

/// Whether an expression may stand on the left of an assignment: a
/// variable, `*e`, `e[i]` or `e.f`.
pub open spec fn is_lvalue(e: ExprView) -> bool {
    e is Identifier || e is Deref || e is Index || e is Dot
}

/// What the check of a statement or a block gives: its value or its error,
/// and the scope as the check left it.
pub struct Checked<T> {
    pub value: Result<T, TypeErrorView>,
    pub scope: ScopeView,
}

/// The type of an expression in a scope, or the first error found in it.
///
/// A literal has its primitive type and `null` the type `&void`. The
/// operands of an operator are typed from left to right. A variable, the
/// target of a `*e` and a field of `e.f` have their type resolved in the
/// scope. An index must be an `int`; it is typed before the array. The
/// arguments of a call must be as many as the parameters, each assignable to
/// its parameter.
#[verifier::opaque]
pub open spec fn spec_check_expr(e: ExprView, scope: ScopeView) -> Result<TypeView, TypeErrorView>
    decreases e, 0nat,
{
    match e {
        ExprView::Null => Ok(TypeView::Ptr(Box::new(TypeView::Void))),
        ExprView::Bool(_) => Ok(TypeView::Bool),
        ExprView::Int(_) => Ok(TypeView::Int),
        ExprView::Float(_) => Ok(TypeView::Float),
        ExprView::String(_) => Ok(TypeView::String),
        ExprView::Char(_) => Ok(TypeView::Char),
        ExprView::Add(lhs, rhs) => match spec_check_expr(*lhs, scope) {
            Err(e) => Err(e),
            Ok(l) => match spec_check_expr(*rhs, scope) {
                Err(e) => Err(e),
                Ok(r) => spec_binop_type(l, r),
            },
        },
        ExprView::Sub(lhs, rhs) => match spec_check_expr(*lhs, scope) {
            Err(e) => Err(e),
            Ok(l) => match spec_check_expr(*rhs, scope) {
                Err(e) => Err(e),
                Ok(r) => spec_binop_type(l, r),
            },
        },
        ExprView::Mul(lhs, rhs) => match spec_check_expr(*lhs, scope) {
            Err(e) => Err(e),
            Ok(l) => match spec_check_expr(*rhs, scope) {
                Err(e) => Err(e),
                Ok(r) => spec_binop_type(l, r),
            },
        },
        ExprView::Div(lhs, rhs) => match spec_check_expr(*lhs, scope) {
            Err(e) => Err(e),
            Ok(l) => match spec_check_expr(*rhs, scope) {
                Err(e) => Err(e),
                Ok(r) => spec_binop_type(l, r),
            },
        },
        ExprView::Mod(lhs, rhs) => match spec_check_expr(*lhs, scope) {
            Err(e) => Err(e),
            Ok(l) => match spec_check_expr(*rhs, scope) {
                Err(e) => Err(e),
                Ok(r) => spec_mod_type(l, r),
            },
        },
        ExprView::Neg(inner) => match spec_check_expr(*inner, scope) {
            Err(e) => Err(e),
            Ok(t) => spec_neg_type(t),
        },
        ExprView::Equal(lhs, rhs) => match spec_check_expr(*lhs, scope) {
            Err(e) => Err(e),
            Ok(l) => match spec_check_expr(*rhs, scope) {
                Err(e) => Err(e),
                Ok(r) => spec_same_type(l, r),
            },
        },
        ExprView::GreaterEqual(lhs, rhs) => match spec_check_expr(*lhs, scope) {
            Err(e) => Err(e),
            Ok(l) => match spec_check_expr(*rhs, scope) {
                Err(e) => Err(e),
                Ok(r) => spec_binop_cmp_type(l, r),
            },
        },
        ExprView::GreaterThan(lhs, rhs) => match spec_check_expr(*lhs, scope) {
            Err(e) => Err(e),
            Ok(l) => match spec_check_expr(*rhs, scope) {
                Err(e) => Err(e),
                Ok(r) => spec_binop_cmp_type(l, r),
            },
        },
        ExprView::LessEqual(lhs, rhs) => match spec_check_expr(*lhs, scope) {
            Err(e) => Err(e),
            Ok(l) => match spec_check_expr(*rhs, scope) {
                Err(e) => Err(e),
                Ok(r) => spec_binop_cmp_type(l, r),
            },
        },
        ExprView::LessThan(lhs, rhs) => match spec_check_expr(*lhs, scope) {
            Err(e) => Err(e),
            Ok(l) => match spec_check_expr(*rhs, scope) {
                Err(e) => Err(e),
                Ok(r) => spec_binop_cmp_type(l, r),
            },
        },
        ExprView::And(lhs, rhs) => match spec_check_expr(*lhs, scope) {
            Err(e) => Err(e),
            Ok(l) => match spec_check_expr(*rhs, scope) {
                Err(e) => Err(e),
                Ok(r) => spec_bool_op_type(l, r),
            },
        },
        ExprView::Or(lhs, rhs) => match spec_check_expr(*lhs, scope) {
            Err(e) => Err(e),
            Ok(l) => match spec_check_expr(*rhs, scope) {
                Err(e) => Err(e),
                Ok(r) => spec_bool_op_type(l, r),
            },
        },
        ExprView::Not(inner) => match spec_check_expr(*inner, scope) {
            Err(e) => Err(e),
            Ok(t) => spec_not_type(t),
        },
        ExprView::StructLiteral(fields) => match spec_check_struct_literal(
            fields,
            0,
            Seq::empty(),
            scope,
        ) {
            Err(e) => Err(e),
            Ok(f) => Ok(TypeView::Struct(f)),
        },
        ExprView::ArrayLiteral(items) => match spec_check_array_items(items, 0, None, scope) {
            Err(e) => Err(e),
            Ok(element) => spec_array_literal_type(element, items.len()),
        },
        ExprView::TupleLiteral(items) => match spec_check_exprs(items, 0, Seq::empty(), scope) {
            Err(e) => Err(e),
            Ok(t) => Ok(TypeView::Tuple(t)),
        },
        ExprView::FunctionLiteral { args, ret, body } => match spec_check_params(
            args,
            0,
            Seq::empty(),
            scope,
        ) {
            Err(e) => Err(e),
            Ok(params) => match spec_check_type(ret, scope) {
                Err(e) => Err(e),
                Ok(r) => {
                    let inside = ScopeView {
                        types: scope.types,
                        vars: bind_params(args, 0, scope.vars),
                    };
                    match spec_check_block(body, 0, None, inside).value {
                        Err(e) => Err(e),
                        Ok(t) => if same_type(t, r) {
                            Ok(TypeView::Function { args: params, ret: Box::new(r) })
                        } else {
                            Err(TypeErrorView::Unexpected { got: t, expected: r })
                        },
                    }
                },
            },
        },
        ExprView::Index { expr, index } => match spec_check_expr(*index, scope) {
            Err(e) => Err(e),
            Ok(i) => if !same_type(i, TypeView::Int) {
                Err(TypeErrorView::Unexpected { got: i, expected: TypeView::Int })
            } else {
                match spec_check_expr(*expr, scope) {
                    Err(e) => Err(e),
                    Ok(t) => spec_element_type(t),
                }
            },
        },
        ExprView::Ref(inner) => match spec_check_expr(*inner, scope) {
            Err(e) => Err(e),
            Ok(t) => Ok(TypeView::Ptr(Box::new(t))),
        },
        ExprView::Deref(inner) => match spec_check_expr(*inner, scope) {
            Err(e) => Err(e),
            Ok(TypeView::Ptr(target)) => spec_check_type(*target, scope),
            Ok(t) => Err(TypeErrorView::Invalid(t)),
        },
        ExprView::Identifier(name) => if scope.vars.contains_key(name) {
            spec_check_type(scope.vars[name], scope)
        } else {
            Err(TypeErrorView::InvalidIdentifier(name))
        },
        ExprView::Dot { expr, field } => match spec_check_expr(*expr, scope) {
            Err(e) => Err(e),
            Ok(TypeView::Struct(fields)) => match field_value(fields, field) {
                Some(t) => spec_check_type(t, scope),
                None => Err(TypeErrorView::InvalidIdentifier(field)),
            },
            Ok(t) => Err(TypeErrorView::Invalid(t)),
        },
        ExprView::Call { expr, args } => match spec_check_expr(*expr, scope) {
            Err(e) => Err(e),
            Ok(TypeView::Function { args: params, ret }) => if args.len() != params.len() {
                Err(TypeErrorView::Invalid(TypeView::Function { args: params, ret }))
            } else {
                match spec_check_args(args, params, 0, scope) {
                    Err(e) => Err(e),
                    Ok(_) => Ok(*ret),
                }
            },
            Ok(t) => Err(TypeErrorView::Invalid(t)),
        },
    }
}

/// The types of the expressions `items[i..]`, in their order, appended to
/// `done`.
#[verifier::opaque]
pub open spec fn spec_check_exprs(
    items: Seq<ExprView>,
    i: nat,
    done: Seq<TypeView>,
    scope: ScopeView,
) -> Result<Seq<TypeView>, TypeErrorView>
    decreases items, items.len() - i,
{
    if i >= items.len() {
        Ok(done)
    } else {
        match spec_check_expr(items[i as int], scope) {
            Err(e) => Err(e),
            Ok(t) => spec_check_exprs(items, i + 1, done.push(t), scope),
        }
    }
}

/// The fields `fields[i..]` of a record literal with the types of their
/// values, in their order, appended to `done`.
#[verifier::opaque]
pub open spec fn spec_check_struct_literal(
    fields: Seq<(Seq<char>, ExprView)>,
    i: nat,
    done: Seq<(Seq<char>, TypeView)>,
    scope: ScopeView,
) -> Result<Seq<(Seq<char>, TypeView)>, TypeErrorView>
    decreases fields, fields.len() - i,
{
    if i >= fields.len() {
        Ok(done)
    } else {
        match spec_check_expr(fields[i as int].1, scope) {
            Err(e) => Err(e),
            Ok(t) => spec_check_struct_literal(
                fields,
                i + 1,
                done.push((fields[i as int].0, t)),
                scope,
            ),
        }
    }
}

/// The type that the items `items[i..]` of an array literal share with
/// `element`, the type of the items before them: every item must have the
/// type of the first.
#[verifier::opaque]
pub open spec fn spec_check_array_items(
    items: Seq<ExprView>,
    i: nat,
    element: Option<TypeView>,
    scope: ScopeView,
) -> Result<Option<TypeView>, TypeErrorView>
    decreases items, items.len() - i,
{
    if i >= items.len() {
        Ok(element)
    } else {
        match spec_check_expr(items[i as int], scope) {
            Err(e) => Err(e),
            Ok(t) => match element {
                Some(first) => if same_type(t, first) {
                    spec_check_array_items(items, i + 1, element, scope)
                } else {
                    Err(TypeErrorView::Unexpected { got: t, expected: first })
                },
                None => spec_check_array_items(items, i + 1, Some(t), scope),
            },
        }
    }
}

/// The types of the parameters `params[i..]`, resolved in their order and
/// appended to `done`.
#[verifier::opaque]
pub open spec fn spec_check_params(
    params: Seq<(Seq<char>, TypeView)>,
    i: nat,
    done: Seq<TypeView>,
    scope: ScopeView,
) -> Result<Seq<TypeView>, TypeErrorView>
    decreases params.len() - i,
{
    if i >= params.len() {
        Ok(done)
    } else {
        match spec_check_type(params[i as int].1, scope) {
            Err(e) => Err(e),
            Ok(t) => spec_check_params(params, i + 1, done.push(t), scope),
        }
    }
}

/// Checks the arguments `args[i..]` of a call against the parameters of the
/// same positions: each must have a type that is assignable to its
/// parameter.
#[verifier::opaque]
pub open spec fn spec_check_args(
    args: Seq<ExprView>,
    params: Seq<TypeView>,
    i: nat,
    scope: ScopeView,
) -> Result<(), TypeErrorView>
    decreases args, args.len() - i,
{
    if i >= args.len() || i >= params.len() {
        Ok(())
    } else {
        match spec_check_expr(args[i as int], scope) {
            Err(e) => Err(e),
            Ok(t) => if spec_is_assignable(t, params[i as int], scope) {
                spec_check_args(args, params, i + 1, scope)
            } else {
                Err(TypeErrorView::Unexpected { got: t, expected: params[i as int] })
            },
        }
    }
}

/// The return type of the statements `statements[i..]`, `ret` being what
/// the statements before them return: the type of a `return e;` in them,
/// which must be the same for all, and `void` if there is none. The
/// statements are checked in their order, each in the scope as the one
/// before left it.
#[verifier::opaque]
pub open spec fn spec_check_block(
    statements: Seq<StmtView>,
    i: nat,
    ret: Option<TypeView>,
    scope: ScopeView,
) -> Checked<TypeView>
    decreases statements, statements.len() - i,
{
    if i >= statements.len() {
        Checked {
            value: Ok(
                match ret {
                    Some(t) => t,
                    None => TypeView::Void,
                },
            ),
            scope,
        }
    } else {
        let checked = spec_check_statement(statements[i as int], scope);
        match checked.value {
            Err(e) => Checked { value: Err(e), scope: checked.scope },
            Ok(None) => spec_check_block(statements, i + 1, ret, checked.scope),
            Ok(Some(t)) => match ret {
                Some(r) => if same_type(r, t) {
                    spec_check_block(statements, i + 1, Some(t), checked.scope)
                } else {
                    Checked {
                        value: Err(TypeErrorView::Unexpected { got: t, expected: r }),
                        scope: checked.scope,
                    }
                },
                None => spec_check_block(statements, i + 1, Some(t), checked.scope),
            },
        }
    }
}

/// The check of a condition: it must have the type `bool`.
pub open spec fn spec_check_condition(cond: Result<TypeView, TypeErrorView>) -> Result<
    TypeView,
    TypeErrorView,
> {
    match cond {
        Err(e) => Err(e),
        Ok(t) => spec_expect_type(t, TypeView::Bool),
    }
}

/// The check of a statement in a scope: the type that it returns, if it is
/// a `return e;`, and the scope with what the statement defines.
///
/// * A variable definition with a type wants the value to be assignable to
///   the type, resolved, and defines the variable with it; without a type,
///   the variable gets the type of the value.
/// * A type definition defines the name as the type as written, resolves
///   the type, and defines the name again as the resolved type.
/// * An assignment wants both sides to have a type, then the target to be
///   a variable, `*e`, `e[i]` or `e.f` (anything else is `Invalid` with the
///   type of the target), and then the value to be assignable to the
///   target.
/// * `if` and `while` want a condition of type `bool`; their blocks are
///   checked in the same scope, and what they return does not count.
/// * An import is not checked.
#[verifier::opaque]
pub open spec fn spec_check_statement(s: StmtView, scope: ScopeView) -> Checked<Option<TypeView>>
    decreases s, 0nat,
{
    match s {
        StmtView::Import { path, imports } => Checked { value: Ok(None), scope },
        StmtView::VarDef { name, typ, expr } => {
            let wanted = match typ {
                Some(t) => match spec_check_type(t, scope) {
                    Ok(r) => Ok(Some(r)),
                    Err(e) => Err(e),
                },
                None => Ok(None),
            };
            match wanted {
                Err(e) => Checked { value: Err(e), scope },
                Ok(w) => match spec_check_expr(expr, scope) {
                    Err(e) => Checked { value: Err(e), scope },
                    Ok(found) => match w {
                        Some(t) => if spec_is_assignable(found, t, scope) {
                            Checked {
                                value: Ok(None),
                                scope: ScopeView {
                                    types: scope.types,
                                    vars: scope.vars.insert(name, t),
                                },
                            }
                        } else {
                            Checked {
                                value: Err(TypeErrorView::Unexpected { got: found, expected: t }),
                                scope,
                            }
                        },
                        None => Checked {
                            value: Ok(None),
                            scope: ScopeView {
                                types: scope.types,
                                vars: scope.vars.insert(name, found),
                            },
                        },
                    },
                },
            }
        },
        StmtView::TypeDef { name, typ } => {
            let declared = ScopeView { types: scope.types.insert(name, typ), vars: scope.vars };
            match spec_check_type(typ, declared) {
                Err(e) => Checked { value: Err(e), scope: declared },
                Ok(t) => Checked {
                    value: Ok(None),
                    scope: ScopeView { types: declared.types.insert(name, t), vars: scope.vars },
                },
            }
        },
        StmtView::Expr(expr) => Checked {
            value: match spec_check_expr(expr, scope) {
                Err(e) => Err(e),
                Ok(_) => Ok(None),
            },
            scope,
        },
        StmtView::Continue => Checked { value: Ok(None), scope },
        StmtView::Break => Checked { value: Ok(None), scope },
        StmtView::Return(expr) => match expr {
            Some(e) => Checked {
                value: match spec_check_expr(e, scope) {
                    Err(e) => Err(e),
                    Ok(t) => Ok(Some(t)),
                },
                scope,
            },
            None => Checked { value: Ok(None), scope },
        },
        StmtView::Assign { lhs, rhs } => Checked {
            value: match spec_check_expr(lhs, scope) {
                Err(e) => Err(e),
                Ok(target) => match spec_check_expr(rhs, scope) {
                    Err(e) => Err(e),
                    Ok(value) => if !is_lvalue(lhs) {
                        Err(TypeErrorView::Invalid(target))
                    } else if !spec_is_assignable(value, target, scope) {
                        Err(TypeErrorView::Unexpected { got: value, expected: target })
                    } else {
                        Ok(None)
                    },
                },
            },
            scope,
        },
        StmtView::If { cond, body, else_stmt } => match spec_check_condition(
            spec_check_expr(cond, scope),
        ) {
            Err(e) => Checked { value: Err(e), scope },
            Ok(_) => {
                let then = spec_check_block(body, 0, None, scope);
                match then.value {
                    Err(e) => Checked { value: Err(e), scope: then.scope },
                    Ok(_) => match else_stmt {
                        ElseView::Block(block) => {
                            let other = spec_check_block(block, 0, None, then.scope);
                            Checked {
                                value: match other.value {
                                    Err(e) => Err(e),
                                    Ok(_) => Ok(None),
                                },
                                scope: other.scope,
                            }
                        },
                        ElseView::If(inner) => {
                            let other = spec_check_statement(*inner, then.scope);
                            Checked {
                                value: match other.value {
                                    Err(e) => Err(e),
                                    Ok(_) => Ok(None),
                                },
                                scope: other.scope,
                            }
                        },
                        ElseView::Nothing => Checked { value: Ok(None), scope: then.scope },
                    },
                }
            },
        },
        StmtView::Loop(body) => {
            let inner = spec_check_block(body, 0, None, scope);
            Checked {
                value: match inner.value {
                    Err(e) => Err(e),
                    Ok(_) => Ok(None),
                },
                scope: inner.scope,
            }
        },
        StmtView::While { cond, body } => match spec_check_condition(
            spec_check_expr(cond, scope),
        ) {
            Err(e) => Checked { value: Err(e), scope },
            Ok(_) => {
                let inner = spec_check_block(body, 0, None, scope);
                Checked {
                    value: match inner.value {
                        Err(e) => Err(e),
                        Ok(_) => Ok(None),
                    },
                    scope: inner.scope,
                }
            },
        },
    }
}

/// The type of a function literal as it is declared, its body not being
/// looked at: the parameter types and the return type, resolved. Any other
/// expression is an error.
pub open spec fn spec_infer_function_type_signature(e: ExprView, scope: ScopeView) -> Result<
    TypeView,
    TypeErrorView,
> {
    match e {
        ExprView::FunctionLiteral { args, ret, body } => match spec_check_params(
            args,
            0,
            Seq::empty(),
            scope,
        ) {
            Err(e) => Err(e),
            Ok(params) => match spec_check_type(ret, scope) {
                Err(e) => Err(e),
                Ok(r) => Ok(TypeView::Function { args: params, ret: Box::new(r) }),
            },
        },
        _ => Err(
            TypeErrorView::Unexpected {
                got: TypeView::Void,
                expected: TypeView::Function {
                    args: Seq::empty(),
                    ret: Box::new(TypeView::Void),
                },
            },
        ),
    }
}

/// The types of two operands, typed from left to right, handed to a rule
/// for their types; the first error if one of them has no type.
pub open spec fn spec_operands(
    lhs: ExprView,
    rhs: ExprView,
    scope: ScopeView,
    rule: spec_fn(TypeView, TypeView) -> Result<TypeView, TypeErrorView>,
) -> Result<TypeView, TypeErrorView> {
    match spec_check_expr(lhs, scope) {
        Err(e) => Err(e),
        Ok(l) => match spec_check_expr(rhs, scope) {
            Err(e) => Err(e),
            Ok(r) => rule(l, r),
        },
    }
}

/// The type of a sum, difference, product or quotient of two operands.
pub open spec fn spec_check_binop_expr(lhs: ExprView, rhs: ExprView, scope: ScopeView) -> Result<
    TypeView,
    TypeErrorView,
> {
    spec_operands(lhs, rhs, scope, |l: TypeView, r: TypeView| spec_binop_type(l, r))
}

/// The type of an ordered comparison of two operands.
pub open spec fn spec_check_binop_cmp_expr(
    lhs: ExprView,
    rhs: ExprView,
    scope: ScopeView,
) -> Result<TypeView, TypeErrorView> {
    spec_operands(lhs, rhs, scope, |l: TypeView, r: TypeView| spec_binop_cmp_type(l, r))
}

/// The type of `and` and `or` on two operands.
pub open spec fn spec_check_bool_op(lhs: ExprView, rhs: ExprView, scope: ScopeView) -> Result<
    TypeView,
    TypeErrorView,
> {
    spec_operands(lhs, rhs, scope, |l: TypeView, r: TypeView| spec_bool_op_type(l, r))
}

/// The type of `==` on two operands.
pub open spec fn spec_check_same_type(lhs: ExprView, rhs: ExprView, scope: ScopeView) -> Result<
    TypeView,
    TypeErrorView,
> {
    spec_operands(lhs, rhs, scope, |l: TypeView, r: TypeView| spec_same_type(l, r))
}

} // verus!
