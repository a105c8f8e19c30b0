//! The checks of statements and blocks.
use vstd::prelude::*;
use crate::parser::ast::{ElseStatement, Expression, Statement};
use crate::parser::laws::{well_formed_block, well_formed_stmt};
use crate::parser::types::{well_formed_type, Type};
use crate::type_checker::laws::{
    lemma_check_block_well_formed, lemma_check_statement_well_formed, well_formed_scope,
};
use crate::type_checker::expressions::check_expr;
use crate::type_checker::rules::{
    is_lvalue, spec_check_block, spec_check_expr, spec_check_statement,
};
use crate::type_checker::scope::{expect_type, verdict, Scope, TypeError};
use crate::type_checker::types::{check_type, is_assignable};

verus! {

/// Whether an expression may stand on the left of an assignment.
pub fn can_assign_to_expr(expr: &Expression) -> (r: bool)
    ensures
        r == is_lvalue(expr@),
{
    match expr {
        Expression::Identifier(_) => true,
        Expression::Deref(_) => true,
        Expression::Index { expr: _, index: _ } => true,
        Expression::Dot { expr: _, field: _ } => true,
        _ => false,
    }
}

/// Checks the statements of a block in their order, in the scope given,
/// and returns the type that the block returns. A well-formed block leaves
/// the types of the scope well formed, if they were.
#[verifier::spinoff_prover]
pub fn check_block(block: &Vec<Statement>, scope: &mut Scope) -> (r: Result<Type, TypeError>)
    ensures
        verdict(r) == spec_check_block(block.deep_view(), 0, None, old(scope)@).value,
        final(scope)@ == spec_check_block(block.deep_view(), 0, None, old(scope)@).scope,
        well_formed_block(block.deep_view()) && well_formed_scope(old(scope)@) ==> {
            &&& well_formed_scope(final(scope)@)
            &&& r matches Ok(t) ==> well_formed_type(t@)
        },
    decreases block, 0nat,
{
    proof {
        if well_formed_block(block.deep_view()) && well_formed_scope(scope@) {
            lemma_check_block_well_formed(block.deep_view(), 0, None, scope@);
        }
    }
    reveal_with_fuel(spec_check_block, 1);
    reveal_with_fuel(spec_check_statement, 1);
    let mut ret_type: Option<Type> = None;
    let mut i: usize = 0;
    while i < block.len()
        invariant
            i <= block.len(),
            spec_check_block(block.deep_view(), 0, None, old(scope)@) == spec_check_block(
                block.deep_view(),
                i as nat,
                ret_type.deep_view(),
                scope@,
            ),
            well_formed_block(block.deep_view()) && well_formed_scope(old(scope)@) ==> {
                let whole = spec_check_block(block.deep_view(), 0, None, old(scope)@);
                &&& well_formed_scope(whole.scope)
                &&& whole.value matches Ok(t) ==> well_formed_type(t)
            },
        decreases block.len() - i,
    {
        reveal_with_fuel(spec_check_block, 1);
        reveal_with_fuel(spec_check_statement, 1);
        let stmt_ret = check_statement(&block[i], scope)?;
        if let Some(stmt_ret) = stmt_ret {
            if let Some(ret_type) = ret_type {
                if !ret_type.same_as(&stmt_ret) {
                    return Err(TypeError::Unexpected { got: stmt_ret, expected: ret_type });
                }
            }
            ret_type = Some(stmt_ret);
        }
        i += 1;
    }
    match ret_type {
        Some(ty) => Ok(ty),
        None => Ok(Type::Void),
    }
}

/// Checks a statement in the scope given, which it may add to, and returns
/// the type that the statement returns, if it is a `return` with a value.
#[verifier::spinoff_prover]
pub fn check_statement(statement: &Statement, scope: &mut Scope) -> (r: Result<
    Option<Type>,
    TypeError,
>)
    ensures
        verdict(r) == spec_check_statement(statement@, old(scope)@).value,
        final(scope)@ == spec_check_statement(statement@, old(scope)@).scope,
        well_formed_stmt(statement@) && well_formed_scope(old(scope)@) ==> {
            &&& well_formed_scope(final(scope)@)
            &&& r matches Ok(Some(t)) ==> well_formed_type(t@)
        },
    decreases statement, 1nat,
{
    proof {
        if well_formed_stmt(statement@) && well_formed_scope(scope@) {
            lemma_check_statement_well_formed(statement@, scope@);
        }
    }
    reveal_with_fuel(spec_check_statement, 1);
    reveal_with_fuel(spec_check_block, 1);
    reveal_with_fuel(spec_check_expr, 1);
    match statement {
        Statement::Import { path: _, imports: _ } => Ok(None),
        Statement::VarDef { name, typ, expr } => {
            let wanted = match typ {
                Some(t) => Some(check_type(t, scope)?),
                None => None,
            };
            let found = check_expr(expr, scope)?;
            match wanted {
                Some(t) => {
                    if !is_assignable(&found, &t, scope) {
                        return Err(TypeError::Unexpected { got: found, expected: t });
                    }
                    scope.set_var(name.as_str(), t);
                },
                None => {
                    scope.set_var(name.as_str(), found);
                },
            }
            Ok(None)
        },
        Statement::TypeDef { name, typ } => {
            scope.set_type(name.as_str(), typ.clone());
            let resolved = check_type(typ, scope)?;
            scope.set_type(name.as_str(), resolved);
            Ok(None)
        },
        Statement::Expr(expr) => {
            check_expr(expr, scope)?;
            Ok(None)
        },
        Statement::Continue => Ok(None),
        Statement::Break => Ok(None),
        Statement::Return(expr) => {
            if let Some(expr) = expr {
                let ret_type = check_expr(expr, scope)?;
                return Ok(Some(ret_type));
            }
            Ok(None)
        },
        Statement::Assign { lhs, rhs } => {
            let lhs_typ = check_expr(lhs, scope)?;
            let rhs_typ = check_expr(rhs, scope)?;
            if !can_assign_to_expr(lhs) {
                return Err(TypeError::Invalid(lhs_typ));
            }
            if !is_assignable(&rhs_typ, &lhs_typ, scope) {
                return Err(TypeError::Unexpected { got: rhs_typ, expected: lhs_typ });
            }
            Ok(None)
        },
        Statement::If { cond, body, else_stmt } => {
            proof {
                Statement::lemma_if_model(*cond, *body, *else_stmt);
            }
            let cond_typ = check_expr(cond, scope)?;
            expect_type(cond_typ, Type::Bool)?;
            check_block(body, scope)?;
            match else_stmt {
                ElseStatement::Block(block) => {
                    check_block(block, scope)?;
                },
                ElseStatement::If(stmt) => {
                    check_statement(stmt, scope)?;
                },
                ElseStatement::Nothing => {},
            }
            Ok(None)
        },
        Statement::Loop(body) => {
            proof {
                Statement::lemma_loop_model(*body);
            }
            check_block(body, scope)?;
            Ok(None)
        },
        Statement::While { cond, body } => {
            proof {
                Statement::lemma_while_model(*cond, *body);
            }
            let cond_typ = check_expr(cond, scope)?;
            expect_type(cond_typ, Type::Bool)?;
            check_block(body, scope)?;
            Ok(None)
        },
    }
}

} // verus!
