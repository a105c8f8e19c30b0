//! Resolving types in a scope, and the test for assignability.
use vstd::prelude::*;
use vstd::std_specs::vec::axiom_vec_index_decreases;
use crate::parser::types::{field_index, find_field, lemma_field_index, well_formed_type, Type};
use crate::type_checker::laws::{lemma_check_type_well_formed, well_formed_scope};
use crate::type_checker::rules::{
    assignable, spec_check_fields, spec_check_type, spec_check_types, spec_is_assignable,
};
use crate::type_checker::scope::{verdict, Scope, TypeError};

verus! {

/// Resolves the types of a list in their order.
#[verifier::spinoff_prover]
pub fn check_types(items: &Vec<Type>, scope: &Scope) -> (r: Result<Vec<Type>, TypeError>)
    ensures
        verdict(r) == spec_check_types(items.deep_view(), 0, Seq::empty(), scope@),
    decreases items, 0nat,
{
    reveal_with_fuel(spec_check_types, 1);
    reveal_with_fuel(spec_check_type, 1);
    let mut out: Vec<Type> = Vec::new();
    assert(out.deep_view() =~= Seq::empty());
    let mut i: usize = 0;
    while i < items.len()
        invariant
            i <= items.len(),
            spec_check_types(items.deep_view(), 0, Seq::empty(), scope@) == spec_check_types(
                items.deep_view(),
                i as nat,
                out.deep_view(),
                scope@,
            ),
        decreases items.len() - i,
    {
        reveal_with_fuel(spec_check_types, 1);
        reveal_with_fuel(spec_check_type, 1);
        let ghost before = out.deep_view();
        let ty = check_type(&items[i], scope)?;
        out.push(ty);
        assert(out.deep_view() =~= before.push(ty@));
        i += 1;
    }
    Ok(out)
}

/// Resolves the types of the fields of a record in their order.
#[verifier::spinoff_prover]
pub fn check_fields(fields: &Vec<(String, Type)>, scope: &Scope) -> (r: Result<
    Vec<(String, Type)>,
    TypeError,
>)
    ensures
        verdict(r) == spec_check_fields(fields.deep_view(), 0, Seq::empty(), scope@),
    decreases fields, 0nat,
{
    reveal_with_fuel(spec_check_fields, 1);
    reveal_with_fuel(spec_check_type, 1);
    let mut out: Vec<(String, Type)> = Vec::new();
    assert(out.deep_view() =~= Seq::empty());
    let mut i: usize = 0;
    while i < fields.len()
        invariant
            i <= fields.len(),
            spec_check_fields(fields.deep_view(), 0, Seq::empty(), scope@) == spec_check_fields(
                fields.deep_view(),
                i as nat,
                out.deep_view(),
                scope@,
            ),
        decreases fields.len() - i,
    {
        reveal_with_fuel(spec_check_fields, 1);
        reveal_with_fuel(spec_check_type, 1);
        let ghost before = out.deep_view();
        let ty = check_type(&fields[i].1, scope)?;
        let name = fields[i].0.clone();
        out.push((name, ty));
        assert(out.deep_view() =~= before.push((name@, ty@)));
        i += 1;
    }
    Ok(out)
}

/// Resolves a type in a scope: every name in it that is not under another
/// name is replaced by the type that the scope has for it. A well-formed
/// type resolves to a well-formed type, if the types of the scope are well
/// formed.
#[verifier::spinoff_prover]
pub fn check_type(ty: &Type, scope: &Scope) -> (r: Result<Type, TypeError>)
    ensures
        verdict(r) == spec_check_type(ty@, scope@),
        well_formed_type(ty@) && well_formed_scope(scope@) ==> (r matches Ok(t)
            ==> well_formed_type(t@)),
    decreases ty, 1nat,
{
    proof {
        if well_formed_type(ty@) && well_formed_scope(scope@) {
            lemma_check_type_well_formed(ty@, scope@);
        }
    }
    reveal_with_fuel(spec_check_type, 1);
    reveal_with_fuel(spec_check_types, 1);
    reveal_with_fuel(spec_check_fields, 1);
    match ty {
        Type::Int => Ok(Type::Int),
        Type::Float => Ok(Type::Float),
        Type::Char => Ok(Type::Char),
        Type::Bool => Ok(Type::Bool),
        Type::String => Ok(Type::String),
        Type::Void => Ok(Type::Void),
        Type::Ptr(inner) => {
            let resolved = check_type(inner, scope)?;
            Ok(Type::Ptr(Box::new(resolved)))
        },
        Type::SizedArray { element, len } => {
            let resolved = check_type(element, scope)?;
            Ok(Type::SizedArray { element: Box::new(resolved), len: *len })
        },
        Type::Struct(fields) => {
            proof {
                Type::lemma_struct_model(*fields);
            }
            let resolved = check_fields(fields, scope)?;
            proof {
                Type::lemma_struct_model(resolved);
            }
            Ok(Type::Struct(resolved))
        },
        Type::Array(element) => {
            let resolved = check_type(element, scope)?;
            Ok(Type::Array(Box::new(resolved)))
        },
        Type::Tuple(items) => {
            proof {
                Type::lemma_tuple_model(*items);
            }
            let resolved = check_types(items, scope)?;
            proof {
                Type::lemma_tuple_model(resolved);
            }
            Ok(Type::Tuple(resolved))
        },
        Type::Function { args, ret } => {
            proof {
                Type::lemma_function_model(*args, *ret);
            }
            let checked_args = check_types(args, scope)?;
            let checked_ret = Box::new(check_type(ret, scope)?);
            proof {
                Type::lemma_function_model(checked_args, checked_ret);
            }
            Ok(Type::Function { args: checked_args, ret: checked_ret })
        },
        Type::Named(name) => match scope.get_type(name.as_str()) {
            Some(found) => Ok(found),
            None => Err(TypeError::InvalidIdentifier(name.clone())),
        },
    }
}

/// How many times names are resolved on the way from two types down to any
/// of their parts when one is tested for being assignable to the other.
pub const MAX_ALIAS_DEPTH: usize = 64;

/// Whether the types of `src` are as many as those of `dst` and pairwise
/// assignable to them.
#[verifier::spinoff_prover]
pub fn all_assignable(src: &Vec<Type>, dst: &Vec<Type>, scope: &Scope, depth: usize) -> (r: bool)
    ensures
        r == (src.len() == dst.len() && forall|i: int|
            0 <= i < src.len() ==> assignable(
                #[trigger] src.deep_view()[i],
                dst.deep_view()[i],
                scope@.types,
                depth as nat,
            )),
    decreases depth, src, 0nat,
{
    if src.len() != dst.len() {
        return false;
    }
    let mut i: usize = 0;
    while i < src.len()
        invariant
            i <= src.len(),
            src.len() == dst.len(),
            forall|j: int|
                0 <= j < i ==> assignable(
                    #[trigger] src.deep_view()[j],
                    dst.deep_view()[j],
                    scope@.types,
                    depth as nat,
                ),
        decreases src.len() - i,
    {
        if !assignable_within(&src[i], &dst[i], scope, depth) {
            assert(!assignable(
                src.deep_view()[i as int],
                dst.deep_view()[i as int],
                scope@.types,
                depth as nat,
            ));
            return false;
        }
        i += 1;
    }
    true
}

/// Whether the record with the fields `src` has every field of `dst`, with
/// an assignable type.
#[verifier::spinoff_prover]
pub fn fields_assignable(
    src: &Vec<(String, Type)>,
    dst: &Vec<(String, Type)>,
    scope: &Scope,
    depth: usize,
) -> (r: bool)
    ensures
        r == (forall|i: int|
            0 <= i < dst.len() ==> match field_index(
                src.deep_view(),
                (#[trigger] dst.deep_view()[i]).0,
                0,
            ) {
                Some(j) => 0 <= j < src.len() && assignable(
                    src.deep_view()[j].1,
                    dst.deep_view()[i].1,
                    scope@.types,
                    depth as nat,
                ),
                None => false,
            }),
    decreases depth, src, 0nat,
{
    let mut i: usize = 0;
    while i < dst.len()
        invariant
            i <= dst.len(),
            forall|k: int|
                0 <= k < i ==> match field_index(
                    src.deep_view(),
                    (#[trigger] dst.deep_view()[k]).0,
                    0,
                ) {
                    Some(j) => 0 <= j < src.len() && assignable(
                        src.deep_view()[j].1,
                        dst.deep_view()[k].1,
                        scope@.types,
                        depth as nat,
                    ),
                    None => false,
                },
        decreases dst.len() - i,
    {
        proof {
            lemma_field_index(src.deep_view(), dst.deep_view()[i as int].0, 0);
        }
        match find_field(src, &dst[i].0) {
            Some(found) => {
                proof {
                    let at = choose|at: int| 0 <= at < src@.len() && src@[at].1 == *found;
                    axiom_vec_index_decreases(*src, at);
                    assert(decreases_to!(src => src@[at].1));
                }
                if !assignable_within(found, &dst[i].1, scope, depth) {
                    return false;
                }
            },
            None => {
                return false;
            },
        }
        i += 1;
    }
    true
}

/// Whether a value of type `src` may be stored where a `dst` is wanted,
/// names being resolved at most `depth` times on any way down the two
/// types.
#[verifier::spinoff_prover]
pub fn assignable_within(src: &Type, dst: &Type, scope: &Scope, depth: usize) -> (r: bool)
    ensures
        r == assignable(src@, dst@, scope@.types, depth as nat),
    decreases depth, src, 1nat,
{
    reveal_with_fuel(assignable, 1);
    if src.same_as(dst) {
        return true;
    }
    match (src, dst) {
        (Type::Ptr(a), Type::Ptr(b)) => {
            if assignable_within(a, b, scope, depth) {
                true
            } else {
                match (&**a, &**b) {
                    (Type::Void, _) => true,
                    (_, Type::Void) => true,
                    _ => false,
                }
            }
        },
        (Type::SizedArray { element: a, len: _ }, Type::Array(b)) => assignable_within(
            a,
            b,
            scope,
            depth,
        ),
        (Type::SizedArray { element: a, len: n }, Type::SizedArray { element: b, len: m }) => {
            assignable_within(a, b, scope, depth) && *n == *m
        },
        (Type::Array(a), Type::Array(b)) => assignable_within(a, b, scope, depth),
        (Type::Struct(s), Type::Struct(d)) => {
            proof {
                Type::lemma_struct_model(*s);
                Type::lemma_struct_model(*d);
            }
            fields_assignable(s, d, scope, depth)
        },
        (Type::Tuple(s), Type::Tuple(d)) => {
            proof {
                Type::lemma_tuple_model(*s);
                Type::lemma_tuple_model(*d);
            }
            all_assignable(s, d, scope, depth)
        },
        (Type::Function { args: sa, ret: sr }, Type::Function { args: da, ret: dr }) => {
            proof {
                Type::lemma_function_model(*sa, *sr);
                Type::lemma_function_model(*da, *dr);
            }
            all_assignable(sa, da, scope, depth) && assignable_within(
                sr,
                dr,
                scope,
                depth,
            )
        },
        (Type::Named(name), _) => {
            if depth == 0 {
                false
            } else {
                match scope.get_type(name.as_str()) {
                    Some(found) => assignable_within(&found, dst, scope, depth - 1),
                    None => false,
                }
            }
        },
        (_, Type::Named(name)) => {
            if depth == 0 {
                false
            } else {
                match scope.get_type(name.as_str()) {
                    Some(found) => assignable_within(src, &found, scope, depth - 1),
                    None => false,
                }
            }
        },
        _ => false,
    }
}

/// Whether a value of type `src` may be stored where a `dst` is wanted.
/// The scope is left as it is.
///
/// Names are resolved at most `MAX_ALIAS_DEPTH` times on any way from the
/// two types down to their parts; where that is not enough, as with a name
/// that stands for itself, the answer is `false`.
pub fn is_assignable(src: &Type, dst: &Type, scope: &Scope) -> (r: bool)
    ensures
        r == spec_is_assignable(src@, dst@, scope@),
{
    assignable_within(src, dst, scope, MAX_ALIAS_DEPTH)
}

} // verus!
