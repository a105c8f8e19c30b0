//! What holds of the typing rules for all types, expressions and scopes.
use vstd::prelude::*;
use crate::parser::ast::{ElseView, ExprView, StmtView};
use crate::parser::laws::{
    all_fields_well_formed, all_well_formed, well_formed_block, well_formed_expr,
    well_formed_stmt,
};
use crate::parser::types::{
    distinct_keys, field_index, lemma_field_index, lemma_same_type_reflexive, same_type,
    well_formed_type, TypeView,
};
use crate::parser::types::field_value;
use crate::type_checker::rules::{
    assignable, is_lvalue, spec_check_array_items, spec_check_block, spec_check_expr,
    spec_check_exprs, spec_check_fields, spec_check_params, spec_check_statement,
    spec_check_binop_cmp_expr, spec_check_binop_expr, spec_check_bool_op,
    spec_check_same_type, spec_check_struct_literal, spec_check_type, spec_check_types,
    spec_is_assignable,
};
use crate::type_checker::scope::{ScopeView, TypeErrorView};

verus! {

/// Every well-formed type is assignable to itself, in every scope.
pub proof fn lemma_assignable_reflexive(t: TypeView, scope: ScopeView)
    requires
        well_formed_type(t),
    ensures
        spec_is_assignable(t, t, scope),
{
    reveal_with_fuel(assignable, 1);
    lemma_same_type_reflexive(t);
}

/// The same type is assignable to itself whatever the depth left for
/// names.
pub proof fn lemma_same_type_assignable(
    a: TypeView,
    b: TypeView,
    types: Map<Seq<char>, TypeView>,
    depth: nat,
)
    requires
        same_type(a, b),
    ensures
        assignable(a, b, types, depth),
{
    reveal_with_fuel(assignable, 1);
}

/// Whether `a` is assignable to `b`, which is another type, by the rule for
/// two pointers.
pub open spec fn by_pointer_rule(
    a: TypeView,
    b: TypeView,
    types: Map<Seq<char>, TypeView>,
    depth: nat,
) -> bool {
    &&& a matches TypeView::Ptr(x)
    &&& b matches TypeView::Ptr(y)
    &&& (assignable(*x, *y, types, depth) || *x == TypeView::Void || *y == TypeView::Void)
}

/// Whether `a` is assignable to `b`, which is another type, by one of the
/// rules for two arrays.
pub open spec fn by_array_rule(
    a: TypeView,
    b: TypeView,
    types: Map<Seq<char>, TypeView>,
    depth: nat,
) -> bool {
    ||| (a matches TypeView::SizedArray { element: x, len: n } && b matches TypeView::Array(y)
        && assignable(*x, *y, types, depth))
    ||| (a matches TypeView::SizedArray { element: x, len: n } && b matches TypeView::SizedArray {
        element: y,
        len: m,
    } && n == m && assignable(*x, *y, types, depth))
    ||| (a matches TypeView::Array(x) && b matches TypeView::Array(y) && assignable(
        *x,
        *y,
        types,
        depth,
    ))
}

/// Whether `a` is assignable to `b`, which is another type, by the rule for
/// two records: `a` has every field of `b`, with an assignable type.
pub open spec fn by_record_rule(
    a: TypeView,
    b: TypeView,
    types: Map<Seq<char>, TypeView>,
    depth: nat,
) -> bool {
    &&& a matches TypeView::Struct(s)
    &&& b matches TypeView::Struct(d)
    &&& forall|i: int|
        0 <= i < d.len() ==> match field_index(s, (#[trigger] d[i]).0, 0) {
            Some(j) => 0 <= j < s.len() && assignable(s[j].1, d[i].1, types, depth),
            None => false,
        }
}

/// Whether `a` is assignable to `b`, which is another type, by the rule for
/// two tuples or by the rule for two functions.
pub open spec fn by_item_rule(
    a: TypeView,
    b: TypeView,
    types: Map<Seq<char>, TypeView>,
    depth: nat,
) -> bool {
    ||| (a matches TypeView::Tuple(s) && b matches TypeView::Tuple(d) && s.len() == d.len()
        && forall|i: int| 0 <= i < s.len() ==> assignable(#[trigger] s[i], d[i], types, depth))
    ||| (a matches TypeView::Function { args: sa, ret: sr } && b matches TypeView::Function {
        args: da,
        ret: dr,
    } && sa.len() == da.len() && (forall|i: int|
        0 <= i < sa.len() ==> assignable(#[trigger] sa[i], da[i], types, depth)) && assignable(
        *sr,
        *dr,
        types,
        depth,
    ))
}

/// Whether `a` is assignable to `b`, which is another type, by the rule for
/// a name: the name stands for a type that is assignable, or to which the
/// other is.
pub open spec fn by_name_rule(
    a: TypeView,
    b: TypeView,
    types: Map<Seq<char>, TypeView>,
    depth: nat,
) -> bool {
    ||| (a matches TypeView::Named(name) && depth > 0 && types.contains_key(name) && assignable(
        types[name],
        b,
        types,
        (depth - 1) as nat,
    ))
    ||| (b matches TypeView::Named(name) && !(a is Named) && depth > 0 && types.contains_key(name)
        && assignable(a, types[name], types, (depth - 1) as nat))
}

/// Two types of which one is assignable to the other are the same type, or
/// differ by one of the rules: for pointers, for arrays, for records, for
/// tuples and functions, or for names.
pub proof fn lemma_assignable_by_a_rule(
    a: TypeView,
    b: TypeView,
    types: Map<Seq<char>, TypeView>,
    depth: nat,
)
    requires
        assignable(a, b, types, depth),
        !same_type(a, b),
    ensures
        by_pointer_rule(a, b, types, depth) || by_array_rule(a, b, types, depth) || by_record_rule(
            a,
            b,
            types,
            depth,
        ) || by_item_rule(a, b, types, depth) || by_name_rule(a, b, types, depth),
{
    reveal_with_fuel(assignable, 1);
}

/// A primitive type is assignable to itself and, through names, to what a
/// name stands for: to no other type.
pub proof fn lemma_primitive_assignable(
    a: TypeView,
    b: TypeView,
    types: Map<Seq<char>, TypeView>,
    depth: nat,
)
    requires
        a is Int || a is Float || a is String || a is Char || a is Bool || a is Void,
        assignable(a, b, types, depth),
    ensures
        a == b || b is Named,
{
    reveal_with_fuel(assignable, 1);
}

/// What is assignable with names resolved a number of times stays
/// assignable with names resolved more often: the bound on the resolving of
/// names only ever makes the answer "no".
pub proof fn lemma_assignable_with_more_depth(
    a: TypeView,
    b: TypeView,
    types: Map<Seq<char>, TypeView>,
    depth: nat,
    more: nat,
)
    requires
        depth <= more,
        assignable(a, b, types, depth),
    ensures
        assignable(a, b, types, more),
    decreases depth, a,
{
    reveal_with_fuel(assignable, 1);
    if !same_type(a, b) {
        match (a, b) {
            (TypeView::Ptr(x), TypeView::Ptr(y)) => {
                if assignable(*x, *y, types, depth) {
                    lemma_assignable_with_more_depth(*x, *y, types, depth, more);
                }
            },
            (TypeView::SizedArray { element: x, len: _ }, TypeView::Array(y)) => {
                lemma_assignable_with_more_depth(*x, *y, types, depth, more);
            },
            (
                TypeView::SizedArray { element: x, len: _ },
                TypeView::SizedArray { element: y, len: _ },
            ) => {
                lemma_assignable_with_more_depth(*x, *y, types, depth, more);
            },
            (TypeView::Array(x), TypeView::Array(y)) => {
                lemma_assignable_with_more_depth(*x, *y, types, depth, more);
            },
            (TypeView::Struct(s), TypeView::Struct(d)) => {
                assert forall|i: int| 0 <= i < d.len() implies match field_index(
                    s,
                    (#[trigger] d[i]).0,
                    0,
                ) {
                    Some(j) => 0 <= j < s.len() && assignable(s[j].1, d[i].1, types, more),
                    None => false,
                } by {
                    lemma_field_index(s, d[i].0, 0);
                    let j = field_index(s, d[i].0, 0)->0;
                    lemma_assignable_with_more_depth(s[j].1, d[i].1, types, depth, more);
                }
            },
            (TypeView::Tuple(s), TypeView::Tuple(d)) => {
                assert forall|i: int| 0 <= i < s.len() implies assignable(
                    #[trigger] s[i],
                    d[i],
                    types,
                    more,
                ) by {
                    lemma_assignable_with_more_depth(s[i], d[i], types, depth, more);
                }
            },
            (
                TypeView::Function { args: sa, ret: sr },
                TypeView::Function { args: da, ret: dr },
            ) => {
                assert forall|i: int| 0 <= i < sa.len() implies assignable(
                    #[trigger] sa[i],
                    da[i],
                    types,
                    more,
                ) by {
                    lemma_assignable_with_more_depth(sa[i], da[i], types, depth, more);
                }
                lemma_assignable_with_more_depth(*sr, *dr, types, depth, more);
            },
            (TypeView::Named(name), _) => {
                lemma_assignable_with_more_depth(
                    types[name],
                    b,
                    types,
                    (depth - 1) as nat,
                    (more - 1) as nat,
                );
            },
            (_, TypeView::Named(name)) => {
                lemma_assignable_with_more_depth(
                    a,
                    types[name],
                    types,
                    (depth - 1) as nat,
                    (more - 1) as nat,
                );
            },
            _ => {},
        }
    }
}

/// An assignment to anything but a variable, `*e`, `e[i]` or `e.f` is an
/// error and leaves the scope as it is; where both sides have a type, the
/// error is `Invalid` with the type of the target, whether or not the value
/// is assignable to it.
pub proof fn lemma_assign_needs_lvalue(lhs: ExprView, rhs: ExprView, scope: ScopeView)
    requires
        !is_lvalue(lhs),
    ensures
        spec_check_statement(StmtView::Assign { lhs, rhs }, scope).value is Err,
        spec_check_statement(StmtView::Assign { lhs, rhs }, scope).scope == scope,
        spec_check_expr(lhs, scope) matches Ok(target) ==> (spec_check_expr(rhs, scope) is Ok
            ==> spec_check_statement(StmtView::Assign { lhs, rhs }, scope).value == Err::<
            Option<TypeView>,
            TypeErrorView,
        >(TypeErrorView::Invalid(target))),
{
    reveal_with_fuel(spec_check_statement, 1);
    reveal_with_fuel(spec_check_expr, 1);
}

/// Whether every type that a scope holds, for a type name or for a
/// variable, is well formed.
pub open spec fn well_formed_scope(scope: ScopeView) -> bool {
    &&& forall|name: Seq<char>|
        scope.types.contains_key(name) ==> well_formed_type(#[trigger] scope.types[name])
    &&& forall|name: Seq<char>|
        scope.vars.contains_key(name) ==> well_formed_type(#[trigger] scope.vars[name])
}

/// Whether two keyed lists have the same keys in the same order.
pub open spec fn same_keys<A, B>(a: Seq<(Seq<char>, A)>, b: Seq<(Seq<char>, B)>) -> bool {
    a.len() == b.len() && forall|i: int| 0 <= i < a.len() ==> (#[trigger] a[i]).0 == b[i].0
}

/// Lists with the same keys have a key twice or not together.
pub proof fn lemma_same_keys_distinct<A, B>(a: Seq<(Seq<char>, A)>, b: Seq<(Seq<char>, B)>)
    requires
        same_keys(a, b),
        distinct_keys(a),
    ensures
        distinct_keys(b),
{
    assert forall|i: int, j: int| 0 <= i < j < b.len() implies b[i].0 != b[j].0 by {
        assert(a[i].0 == b[i].0);
        assert(a[j].0 == b[j].0);
    }
}

/// A well-formed type resolves, in a scope of well-formed types, to a
/// well-formed type.
pub proof fn lemma_check_type_well_formed(ty: TypeView, scope: ScopeView)
    requires
        well_formed_type(ty),
        well_formed_scope(scope),
    ensures
        spec_check_type(ty, scope) matches Ok(t) ==> well_formed_type(t),
    decreases ty, 0nat,
{
    reveal_with_fuel(spec_check_type, 1);
    reveal_with_fuel(spec_check_types, 1);
    reveal_with_fuel(spec_check_fields, 1);
    match ty {
        TypeView::Ptr(inner) => lemma_check_type_well_formed(*inner, scope),
        TypeView::SizedArray { element, len } => lemma_check_type_well_formed(*element, scope),
        TypeView::Array(element) => lemma_check_type_well_formed(*element, scope),
        TypeView::Struct(fields) => {
            lemma_check_fields_well_formed(fields, 0, Seq::empty(), scope);
            if let Ok(resolved) = spec_check_fields(fields, 0, Seq::empty(), scope) {
                assert(fields.subrange(0, 0) =~= Seq::<(Seq<char>, TypeView)>::empty());
                lemma_same_keys_distinct(fields, resolved);
            }
        },
        TypeView::Tuple(items) => {
            lemma_check_types_well_formed(items, 0, Seq::empty(), scope);
        },
        TypeView::Function { args, ret } => {
            lemma_check_types_well_formed(args, 0, Seq::empty(), scope);
            lemma_check_type_well_formed(*ret, scope);
        },
        _ => {},
    }
}

/// Well-formed types resolve to well-formed types.
pub proof fn lemma_check_types_well_formed(
    items: Seq<TypeView>,
    i: nat,
    done: Seq<TypeView>,
    scope: ScopeView,
)
    requires
        all_well_formed(items),
        all_well_formed(done),
        well_formed_scope(scope),
    ensures
        spec_check_types(items, i, done, scope) matches Ok(all) ==> all_well_formed(all),
    decreases items, items.len() - i,
{
    reveal_with_fuel(spec_check_types, 1);
    reveal_with_fuel(spec_check_type, 1);
    if i < items.len() {
        lemma_check_type_well_formed(items[i as int], scope);
        if let Ok(t) = spec_check_type(items[i as int], scope) {
            assert(all_well_formed(done.push(t)));
            lemma_check_types_well_formed(items, i + 1, done.push(t), scope);
        }
    }
}

/// The fields of a record with well-formed types resolve to the same
/// fields, in the same order, with well-formed types.
pub proof fn lemma_check_fields_well_formed(
    fields: Seq<(Seq<char>, TypeView)>,
    i: nat,
    done: Seq<(Seq<char>, TypeView)>,
    scope: ScopeView,
)
    requires
        i <= fields.len(),
        all_fields_well_formed(fields),
        all_fields_well_formed(done),
        same_keys(fields.subrange(0, i as int), done),
        well_formed_scope(scope),
    ensures
        spec_check_fields(fields, i, done, scope) matches Ok(all) ==> all_fields_well_formed(all)
            && same_keys(fields, all),
    decreases fields, fields.len() - i,
{
    reveal_with_fuel(spec_check_fields, 1);
    reveal_with_fuel(spec_check_type, 1);
    if i < fields.len() {
        lemma_check_type_well_formed(fields[i as int].1, scope);
        if let Ok(t) = spec_check_type(fields[i as int].1, scope) {
            let next = done.push((fields[i as int].0, t));
            assert(all_fields_well_formed(next));
            let upto = i as int + 1;
            assert(same_keys(fields.subrange(0, upto), next)) by {
                assert forall|k: int| 0 <= k < upto implies (#[trigger] fields.subrange(
                    0,
                    upto,
                )[k]).0 == next[k].0 by {
                    if k < i {
                        assert(fields.subrange(0, i as int)[k].0 == done[k].0);
                    }
                }
            }
            lemma_check_fields_well_formed(fields, i + 1, next, scope);
        }
    } else {
        assert(fields.subrange(0, i as int) =~= fields);
    }
}

/// The parameters of a function literal with well-formed types resolve to
/// well-formed types.
pub proof fn lemma_check_params_well_formed(
    params: Seq<(Seq<char>, TypeView)>,
    i: nat,
    done: Seq<TypeView>,
    scope: ScopeView,
)
    requires
        all_fields_well_formed(params),
        all_well_formed(done),
        well_formed_scope(scope),
    ensures
        spec_check_params(params, i, done, scope) matches Ok(all) ==> all_well_formed(all),
    decreases params.len() - i,
{
    reveal_with_fuel(spec_check_params, 1);
    if i < params.len() {
        lemma_check_type_well_formed(params[i as int].1, scope);
        if let Ok(t) = spec_check_type(params[i as int].1, scope) {
            assert(all_well_formed(done.push(t)));
            lemma_check_params_well_formed(params, i + 1, done.push(t), scope);
        }
    }
}

/// The type of a well-formed expression in a scope of well-formed types is
/// well formed.
#[verifier::spinoff_prover]
pub proof fn lemma_check_expr_well_formed(e: ExprView, scope: ScopeView)
    requires
        well_formed_expr(e),
        well_formed_scope(scope),
    ensures
        spec_check_expr(e, scope) matches Ok(t) ==> well_formed_type(t),
    decreases e, 0nat,
{
    reveal_with_fuel(spec_check_expr, 1);
    reveal_with_fuel(spec_check_exprs, 1);
    reveal_with_fuel(spec_check_struct_literal, 1);
    reveal_with_fuel(spec_check_array_items, 1);
    match e {
        ExprView::Add(lhs, rhs) => {
            lemma_check_expr_well_formed(*lhs, scope);
            lemma_check_expr_well_formed(*rhs, scope);
        },
        ExprView::Sub(lhs, rhs) => {
            lemma_check_expr_well_formed(*lhs, scope);
            lemma_check_expr_well_formed(*rhs, scope);
        },
        ExprView::Mul(lhs, rhs) => {
            lemma_check_expr_well_formed(*lhs, scope);
            lemma_check_expr_well_formed(*rhs, scope);
        },
        ExprView::Div(lhs, rhs) => {
            lemma_check_expr_well_formed(*lhs, scope);
            lemma_check_expr_well_formed(*rhs, scope);
        },
        ExprView::Mod(lhs, rhs) => {
            lemma_check_expr_well_formed(*lhs, scope);
            lemma_check_expr_well_formed(*rhs, scope);
        },
        ExprView::Equal(lhs, rhs) => {
            lemma_check_expr_well_formed(*lhs, scope);
            lemma_check_expr_well_formed(*rhs, scope);
        },
        ExprView::GreaterEqual(lhs, rhs) => {
            lemma_check_expr_well_formed(*lhs, scope);
            lemma_check_expr_well_formed(*rhs, scope);
        },
        ExprView::GreaterThan(lhs, rhs) => {
            lemma_check_expr_well_formed(*lhs, scope);
            lemma_check_expr_well_formed(*rhs, scope);
        },
        ExprView::LessEqual(lhs, rhs) => {
            lemma_check_expr_well_formed(*lhs, scope);
            lemma_check_expr_well_formed(*rhs, scope);
        },
        ExprView::LessThan(lhs, rhs) => {
            lemma_check_expr_well_formed(*lhs, scope);
            lemma_check_expr_well_formed(*rhs, scope);
        },
        ExprView::And(lhs, rhs) => {
            lemma_check_expr_well_formed(*lhs, scope);
            lemma_check_expr_well_formed(*rhs, scope);
        },
        ExprView::Or(lhs, rhs) => {
            lemma_check_expr_well_formed(*lhs, scope);
            lemma_check_expr_well_formed(*rhs, scope);
        },
        ExprView::Neg(inner) => {
            lemma_check_expr_well_formed(*inner, scope);
        },
        ExprView::Not(inner) => {
            lemma_check_expr_well_formed(*inner, scope);
        },
        ExprView::Ref(inner) => {
            lemma_check_expr_well_formed(*inner, scope);
        },
        ExprView::Deref(inner) => {
            lemma_check_expr_well_formed(*inner, scope);
            if let Ok(TypeView::Ptr(target)) = spec_check_expr(*inner, scope) {
                lemma_check_type_well_formed(*target, scope);
            }
        },
        ExprView::StructLiteral(fields) => {
            lemma_check_struct_literal_well_formed(fields, 0, Seq::empty(), scope);
            if let Ok(typed) = spec_check_struct_literal(fields, 0, Seq::empty(), scope) {
                lemma_same_keys_distinct(fields, typed);
            }
        },
        ExprView::ArrayLiteral(items) => {
            lemma_check_array_items_well_formed(items, 0, None, scope);
        },
        ExprView::TupleLiteral(items) => {
            lemma_check_exprs_well_formed(items, 0, Seq::empty(), scope);
        },
        ExprView::FunctionLiteral { args, ret, body } => {
            lemma_check_params_well_formed(args, 0, Seq::empty(), scope);
            lemma_check_type_well_formed(ret, scope);
        },
        ExprView::Index { expr, index } => {
            lemma_check_expr_well_formed(*expr, scope);
        },
        ExprView::Identifier(name) => {
            if scope.vars.contains_key(name) {
                lemma_check_type_well_formed(scope.vars[name], scope);
            }
        },
        ExprView::Dot { expr, field } => {
            lemma_check_expr_well_formed(*expr, scope);
            if let Ok(TypeView::Struct(fields)) = spec_check_expr(*expr, scope) {
                lemma_field_index(fields, field, 0);
                if let Some(t) = field_value(fields, field) {
                    lemma_check_type_well_formed(t, scope);
                }
            }
        },
        ExprView::Call { expr, args } => {
            lemma_check_expr_well_formed(*expr, scope);
        },
        ExprView::Null => {
            assert(well_formed_type(TypeView::Void));
        },
        _ => {},
    }
}

/// The types of well-formed expressions are well formed.
pub proof fn lemma_check_exprs_well_formed(
    items: Seq<ExprView>,
    i: nat,
    done: Seq<TypeView>,
    scope: ScopeView,
)
    requires
        forall|k: int| 0 <= k < items.len() ==> well_formed_expr(#[trigger] items[k]),
        all_well_formed(done),
        well_formed_scope(scope),
    ensures
        spec_check_exprs(items, i, done, scope) matches Ok(all) ==> all_well_formed(all),
    decreases items, items.len() - i,
{
    reveal_with_fuel(spec_check_exprs, 1);
    reveal_with_fuel(spec_check_expr, 1);
    if i < items.len() {
        lemma_check_expr_well_formed(items[i as int], scope);
        if let Ok(t) = spec_check_expr(items[i as int], scope) {
            assert(all_well_formed(done.push(t)));
            lemma_check_exprs_well_formed(items, i + 1, done.push(t), scope);
        }
    }
}

/// The fields of a well-formed record literal get well-formed types, and
/// keep their names and their order.
pub proof fn lemma_check_struct_literal_well_formed(
    fields: Seq<(Seq<char>, ExprView)>,
    i: nat,
    done: Seq<(Seq<char>, TypeView)>,
    scope: ScopeView,
)
    requires
        i <= fields.len(),
        forall|k: int| 0 <= k < fields.len() ==> well_formed_expr((#[trigger] fields[k]).1),
        all_fields_well_formed(done),
        same_keys(fields.subrange(0, i as int), done),
        well_formed_scope(scope),
    ensures
        spec_check_struct_literal(fields, i, done, scope) matches Ok(all)
            ==> all_fields_well_formed(all) && same_keys(fields, all),
    decreases fields, fields.len() - i,
{
    reveal_with_fuel(spec_check_struct_literal, 1);
    reveal_with_fuel(spec_check_expr, 1);
    if i < fields.len() {
        lemma_check_expr_well_formed(fields[i as int].1, scope);
        if let Ok(t) = spec_check_expr(fields[i as int].1, scope) {
            let next = done.push((fields[i as int].0, t));
            let upto = i as int + 1;
            assert(all_fields_well_formed(next));
            assert(same_keys(fields.subrange(0, upto), next)) by {
                assert forall|k: int| 0 <= k < upto implies (#[trigger] fields.subrange(
                    0,
                    upto,
                )[k]).0 == next[k].0 by {
                    if k < i {
                        assert(fields.subrange(0, i as int)[k].0 == done[k].0);
                    }
                }
            }
            lemma_check_struct_literal_well_formed(fields, i + 1, next, scope);
        }
    } else {
        assert(fields.subrange(0, i as int) =~= fields);
    }
}

/// The type that the items of a well-formed array literal share is well
/// formed.
pub proof fn lemma_check_array_items_well_formed(
    items: Seq<ExprView>,
    i: nat,
    element: Option<TypeView>,
    scope: ScopeView,
)
    requires
        forall|k: int| 0 <= k < items.len() ==> well_formed_expr(#[trigger] items[k]),
        element matches Some(t) ==> well_formed_type(t),
        well_formed_scope(scope),
    ensures
        spec_check_array_items(items, i, element, scope) matches Ok(Some(t)) ==> well_formed_type(
            t,
        ),
    decreases items, items.len() - i,
{
    reveal_with_fuel(spec_check_array_items, 1);
    reveal_with_fuel(spec_check_expr, 1);
    if i < items.len() {
        lemma_check_expr_well_formed(items[i as int], scope);
        if let Ok(t) = spec_check_expr(items[i as int], scope) {
            match element {
                Some(first) => {
                    if same_type(t, first) {
                        lemma_check_array_items_well_formed(items, i + 1, element, scope);
                    }
                },
                None => {
                    lemma_check_array_items_well_formed(items, i + 1, Some(t), scope);
                },
            }
        }
    }
}

/// A well-formed statement, checked in a scope of well-formed types, leaves
/// a scope of well-formed types, and what it returns is well formed.
#[verifier::spinoff_prover]
pub proof fn lemma_check_statement_well_formed(s: StmtView, scope: ScopeView)
    requires
        well_formed_stmt(s),
        well_formed_scope(scope),
    ensures
        well_formed_scope(spec_check_statement(s, scope).scope),
        spec_check_statement(s, scope).value matches Ok(Some(t)) ==> well_formed_type(t),
    decreases s, 0nat,
{
    reveal_with_fuel(spec_check_statement, 1);
    reveal_with_fuel(spec_check_block, 1);
    match s {
        StmtView::VarDef { name, typ, expr } => {
            lemma_check_expr_well_formed(expr, scope);
            if let Some(t) = typ {
                lemma_check_type_well_formed(t, scope);
            }
        },
        StmtView::TypeDef { name, typ } => {
            let declared = ScopeView { types: scope.types.insert(name, typ), vars: scope.vars };
            assert(well_formed_scope(declared));
            lemma_check_type_well_formed(typ, declared);
        },
        StmtView::Return(expr) => {
            if let Some(e) = expr {
                lemma_check_expr_well_formed(e, scope);
            }
        },
        StmtView::If { cond, body, else_stmt } => {
            lemma_check_block_well_formed(body, 0, None, scope);
            let then = spec_check_block(body, 0, None, scope);
            match else_stmt {
                ElseView::Block(block) => {
                    lemma_check_block_well_formed(block, 0, None, then.scope);
                },
                ElseView::If(inner) => {
                    lemma_check_statement_well_formed(*inner, then.scope);
                },
                ElseView::Nothing => {},
            }
        },
        StmtView::Loop(body) => {
            lemma_check_block_well_formed(body, 0, None, scope);
        },
        StmtView::While { cond, body } => {
            lemma_check_block_well_formed(body, 0, None, scope);
        },
        _ => {},
    }
}

/// A well-formed block, checked in a scope of well-formed types, leaves a
/// scope of well-formed types, and the type that it returns is well formed.
pub proof fn lemma_check_block_well_formed(
    block: Seq<StmtView>,
    i: nat,
    ret: Option<TypeView>,
    scope: ScopeView,
)
    requires
        well_formed_block(block),
        ret matches Some(t) ==> well_formed_type(t),
        well_formed_scope(scope),
    ensures
        well_formed_scope(spec_check_block(block, i, ret, scope).scope),
        spec_check_block(block, i, ret, scope).value matches Ok(t) ==> well_formed_type(t),
    decreases block, block.len() - i,
{
    reveal_with_fuel(spec_check_block, 1);
    reveal_with_fuel(spec_check_statement, 1);
    if i < block.len() {
        lemma_check_statement_well_formed(block[i as int], scope);
        let checked = spec_check_statement(block[i as int], scope);
        match checked.value {
            Ok(None) => {
                lemma_check_block_well_formed(block, i + 1, ret, checked.scope);
            },
            Ok(Some(t)) => {
                lemma_check_block_well_formed(block, i + 1, Some(t), checked.scope);
            },
            Err(_) => {},
        }
    }
}

/// The helpers for two operands say what the typing of an expression says
/// of the operators.
pub proof fn lemma_operators_by_their_helpers(lhs: ExprView, rhs: ExprView, scope: ScopeView)
    ensures
        spec_check_expr(ExprView::Add(Box::new(lhs), Box::new(rhs)), scope)
            == spec_check_binop_expr(lhs, rhs, scope),
        spec_check_expr(ExprView::Sub(Box::new(lhs), Box::new(rhs)), scope)
            == spec_check_binop_expr(lhs, rhs, scope),
        spec_check_expr(ExprView::Mul(Box::new(lhs), Box::new(rhs)), scope)
            == spec_check_binop_expr(lhs, rhs, scope),
        spec_check_expr(ExprView::Div(Box::new(lhs), Box::new(rhs)), scope)
            == spec_check_binop_expr(lhs, rhs, scope),
        spec_check_expr(ExprView::LessThan(Box::new(lhs), Box::new(rhs)), scope)
            == spec_check_binop_cmp_expr(lhs, rhs, scope),
        spec_check_expr(ExprView::LessEqual(Box::new(lhs), Box::new(rhs)), scope)
            == spec_check_binop_cmp_expr(lhs, rhs, scope),
        spec_check_expr(ExprView::GreaterThan(Box::new(lhs), Box::new(rhs)), scope)
            == spec_check_binop_cmp_expr(lhs, rhs, scope),
        spec_check_expr(ExprView::GreaterEqual(Box::new(lhs), Box::new(rhs)), scope)
            == spec_check_binop_cmp_expr(lhs, rhs, scope),
        spec_check_expr(ExprView::And(Box::new(lhs), Box::new(rhs)), scope) == spec_check_bool_op(
            lhs,
            rhs,
            scope,
        ),
        spec_check_expr(ExprView::Or(Box::new(lhs), Box::new(rhs)), scope) == spec_check_bool_op(
            lhs,
            rhs,
            scope,
        ),
        spec_check_expr(ExprView::Equal(Box::new(lhs), Box::new(rhs)), scope)
            == spec_check_same_type(lhs, rhs, scope),
{
    reveal_with_fuel(spec_check_expr, 2);
}

} // verus!
