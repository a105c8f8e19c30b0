use compiler_rs::lexer::lexer::Lexer;
use compiler_rs::parser::ast::{Expression, Statement};
use compiler_rs::parser::expressions::parse_expression;
use compiler_rs::parser::statements::parse_block;
use compiler_rs::parser::types::{find_field, parse_type, types_equal, Type};
use compiler_rs::type_checker::expressions::{
    binop_cmp_type, binop_type, bool_op_type, check_args, check_array_literal,
    check_binop_cmp_expr, check_binop_expr, check_bool_op, check_expr, check_exprs,
    check_function_literal, check_params, check_same_type, check_struct_literal, equality_type,
    infer_function_type_signature, mod_type,
};
use compiler_rs::type_checker::statements::{can_assign_to_expr, check_block, check_statement};
use compiler_rs::type_checker::types::{
    all_assignable, assignable_within, check_fields, check_type, check_types, fields_assignable,
    is_assignable, MAX_ALIAS_DEPTH,
};
use compiler_rs::type_checker::{expect_type, Scope, TypeError};

fn ty(source: &str) -> Type {
    let mut lexer = Lexer::new(source);
    parse_type(&mut lexer).unwrap()
}

fn expr(source: &str) -> Expression {
    let mut lexer = Lexer::new(&format!("{} ;", source));
    parse_expression(&mut lexer).unwrap()
}

fn block(source: &str) -> Vec<Statement> {
    let mut lexer = Lexer::new(source);
    parse_block(&mut lexer, false).unwrap()
}

fn check(source: &str) -> (Result<Type, TypeError>, Scope<'static>) {
    let mut scope = Scope::new();
    let result = check_block(&block(source), &mut scope);
    (result, scope)
}

fn type_in(setup: &str, expression: &str) -> Result<Type, TypeError> {
    let mut scope = Scope::new();
    check_block(&block(setup), &mut scope).unwrap();
    check_expr(&expr(expression), &scope)
}

fn type_of(expression: &str) -> Result<Type, TypeError> {
    type_in("", expression)
}

fn unexpected(result: Result<Type, TypeError>) -> (Type, Type) {
    match result {
        Err(TypeError::Unexpected { got, expected }) => (got, expected),
        other => panic!("not a mismatch: {:?}", other),
    }
}

fn invalid(result: Result<Type, TypeError>) -> Type {
    match result {
        Err(TypeError::Invalid(ty)) => ty,
        other => panic!("not an invalid type: {:?}", other),
    }
}

fn unknown(result: Result<Type, TypeError>) -> String {
    match result {
        Err(TypeError::InvalidIdentifier(name)) => name,
        other => panic!("not an unknown name: {:?}", other),
    }
}

#[test]
fn a_variable_with_arithmetic() {
    let (result, scope) = check("let x: int = 1 + 2 * 3;");
    assert_eq!(result.unwrap(), Type::Void);
    assert_eq!(scope.get_var("x"), Some(Type::Int));
}

#[test]
fn a_variable_of_a_named_record_type() {
    let (result, scope) = check("type Pair = { a: int, b: int }; let p: Pair = { a: 1, b: 2 };");
    assert!(result.is_ok());
    assert_eq!(scope.get_var("p"), Some(ty("{ a: int, b: int }")));
    assert_eq!(scope.get_type("Pair"), Some(ty("{ b: int, a: int }")));
}

#[test]
fn a_call_of_a_function_literal() {
    let setup = "let f = (x: int): int => { return x + 1; };";
    assert_eq!(type_in(setup, "f(41)").unwrap(), Type::Int);
    assert_eq!(type_in(setup, "f").unwrap(), ty("(int) => int"));
}

#[test]
fn a_void_pointer_goes_to_any_pointer() {
    let (result, scope) = check("let p: &void = null; let q: &int = p;");
    assert!(result.is_ok());
    assert_eq!(scope.get_var("p"), Some(ty("&void")));
    assert_eq!(scope.get_var("q"), Some(ty("&int")));
}

#[test]
fn an_array_literal_and_an_index() {
    let (result, scope) = check("let a = [1, 2, 3]; a[0];");
    assert!(result.is_ok());
    assert_eq!(scope.get_var("a"), Some(ty("int[3]")));
    assert_eq!(type_in("let a = [1, 2, 3];", "a[0]").unwrap(), Type::Int);
}

#[test]
fn an_if_with_an_int_condition() {
    let (result, _) = check("if 1 { }");
    assert_eq!(unexpected(result), (Type::Int, Type::Bool));
}

#[test]
fn scope_looks_outwards_and_defines_inside() {
    let mut outer = Scope::new();
    outer.set_var("a", Type::Int);
    outer.set_type("T", Type::Bool);
    let mut inner = outer.create_child();
    assert_eq!(inner.get_var("a"), Some(Type::Int));
    assert_eq!(inner.get_type("T"), Some(Type::Bool));
    inner.set_var("a", Type::Char);
    inner.set_var("b", Type::Float);
    inner.set_type("T", Type::String);
    assert_eq!(inner.get_var("a"), Some(Type::Char));
    assert_eq!(inner.get_var("b"), Some(Type::Float));
    assert_eq!(inner.get_type("T"), Some(Type::String));
    assert_eq!(inner.get_var("c"), None);
    assert_eq!(inner.get_type("U"), None);
    assert_eq!(outer.get_var("a"), Some(Type::Int));
    assert_eq!(outer.get_var("b"), None);
    assert_eq!(outer.get_type("T"), Some(Type::Bool));
}

#[test]
fn types_and_variables_are_apart() {
    let mut scope = Scope::new();
    scope.set_var("x", Type::Int);
    assert_eq!(scope.get_type("x"), None);
    scope.set_type("y", Type::Int);
    assert_eq!(scope.get_var("y"), None);
}

#[test]
fn expect_type_accepts_the_same_type_only() {
    assert_eq!(expect_type(Type::Int, Type::Int).unwrap(), Type::Int);
    assert_eq!(unexpected(expect_type(Type::Int, Type::Bool)), (Type::Int, Type::Bool));
}

#[test]
fn check_type_resolves_names_once() {
    let mut scope = Scope::new();
    scope.set_type("A", Type::Int);
    scope.set_type("B", Type::Named("A".to_string()));
    assert_eq!(check_type(&ty("A"), &scope).unwrap(), Type::Int);
    assert_eq!(check_type(&ty("B"), &scope).unwrap(), Type::Named("A".to_string()));
    assert_eq!(check_type(&ty("&A[2]"), &scope).unwrap(), ty("&int[2]"));
    assert_eq!(
        check_type(&ty("{ f: (A, bool) => A[], t: (A, char) }"), &scope).unwrap(),
        ty("{ f: (int, bool) => int[], t: (int, char) }")
    );
    assert_eq!(check_type(&ty("float"), &scope).unwrap(), Type::Float);
}

#[test]
fn check_type_names_the_first_unknown_name() {
    let scope = Scope::new();
    assert_eq!(unknown(check_type(&ty("X"), &scope)), "X");
    assert_eq!(unknown(check_type(&ty("(int, Y, Z)"), &scope)), "Y");
    assert_eq!(unknown(check_type(&ty("{ a: P, b: Q }"), &scope)), "P");
    assert_eq!(unknown(check_type(&ty("(int) => R"), &scope)), "R");
    assert_eq!(unknown(check_type(&ty("(S) => R"), &scope)), "S");
}

#[test]
fn check_types_and_fields_keep_the_order() {
    let mut scope = Scope::new();
    scope.set_type("A", Type::Int);
    assert_eq!(
        check_types(&vec![ty("A"), ty("bool")], &scope).unwrap(),
        vec![Type::Int, Type::Bool]
    );
    assert_eq!(
        check_fields(&vec![("x".to_string(), ty("A")), ("y".to_string(), ty("&A"))], &scope)
            .unwrap(),
        vec![("x".to_string(), Type::Int), ("y".to_string(), ty("&int"))]
    );
}

#[test]
fn field_lookup_and_list_equality() {
    let fields = vec![("a".to_string(), Type::Int), ("b".to_string(), Type::Bool)];
    assert_eq!(find_field(&fields, &"b".to_string()), Some(&Type::Bool));
    assert_eq!(find_field(&fields, &"c".to_string()), None);
    assert!(types_equal(&vec![Type::Int, Type::Bool], &vec![Type::Int, Type::Bool]));
    assert!(!types_equal(&vec![Type::Int, Type::Bool], &vec![Type::Bool, Type::Int]));
    assert!(!types_equal(&vec![Type::Int], &vec![Type::Int, Type::Int]));
}

#[test]
fn every_type_is_assignable_to_itself() {
    let scope = Scope::new();
    for source in [
        "int", "float", "string", "char", "bool", "void", "Unknown", "&int", "int[]", "int[4]",
        "(int, bool)", "{ a: int, b: &char }", "(int, bool) => float", "{ f: (X) => { g: Y[] } }",
    ] {
        let t = ty(source);
        assert!(is_assignable(&t, &t, &scope), "{}", source);
    }
}

#[test]
fn primitives_are_assignable_to_themselves_only() {
    let scope = Scope::new();
    assert!(!is_assignable(&Type::Int, &Type::Float, &scope));
    assert!(!is_assignable(&Type::Int, &Type::Char, &scope));
    assert!(!is_assignable(&Type::Char, &Type::Int, &scope));
    assert!(!is_assignable(&Type::Bool, &Type::Int, &scope));
    assert!(!is_assignable(&Type::Void, &Type::Int, &scope));
    assert!(!is_assignable(&Type::Int, &ty("&int"), &scope));
    assert!(!is_assignable(&ty("(int)"), &Type::Int, &scope));
}

#[test]
fn pointers_coerce_through_void() {
    let scope = Scope::new();
    assert!(is_assignable(&ty("&void"), &ty("&int"), &scope));
    assert!(is_assignable(&ty("&int"), &ty("&void"), &scope));
    assert!(!is_assignable(&ty("&int"), &ty("&bool"), &scope));
    assert!(is_assignable(&ty("& &void"), &ty("& &int"), &scope));
    assert!(is_assignable(&ty("&int[3]"), &ty("&int[]"), &scope));
}

#[test]
fn arrays_coerce_from_sized_to_unsized() {
    let scope = Scope::new();
    assert!(is_assignable(&ty("int[3]"), &ty("int[]"), &scope));
    assert!(!is_assignable(&ty("int[]"), &ty("int[3]"), &scope));
    assert!(is_assignable(&ty("int[3]"), &ty("int[3]"), &scope));
    assert!(!is_assignable(&ty("int[3]"), &ty("int[4]"), &scope));
    assert!(!is_assignable(&ty("int[3]"), &ty("bool[]"), &scope));
    assert!(is_assignable(&ty("int[2][5]"), &ty("int[][5]"), &scope));
    assert!(is_assignable(&ty("int[2][5]"), &ty("int[][]"), &scope));
    assert!(!is_assignable(&ty("int[2][5]"), &ty("int[2][6]"), &scope));
}

#[test]
fn records_may_have_more_fields_than_wanted() {
    let scope = Scope::new();
    assert!(is_assignable(&ty("{ a: int, b: bool }"), &ty("{ a: int }"), &scope));
    assert!(!is_assignable(&ty("{ a: int }"), &ty("{ a: int, b: bool }"), &scope));
    assert!(is_assignable(&ty("{ a: int, b: bool }"), &ty("{}"), &scope));
    assert!(!is_assignable(&ty("{ a: int }"), &ty("{ a: bool }"), &scope));
    assert!(is_assignable(&ty("{ a: int[2], b: &void }"), &ty("{ b: &char, a: int[] }"), &scope));
}

#[test]
fn tuples_and_functions_go_item_by_item() {
    let scope = Scope::new();
    assert!(is_assignable(&ty("(int[2], &void)"), &ty("(int[], &int)"), &scope));
    assert!(!is_assignable(&ty("(int, int)"), &ty("(int)"), &scope));
    assert!(!is_assignable(&ty("(int)"), &ty("(int, int)"), &scope));
    assert!(!is_assignable(&ty("(int, bool)"), &ty("(bool, int)"), &scope));
    assert!(is_assignable(&ty("(int[2]) => &void"), &ty("(int[]) => &int"), &scope));
    assert!(!is_assignable(&ty("(int) => int"), &ty("(int, int) => int"), &scope));
    assert!(!is_assignable(&ty("(int) => int"), &ty("(int) => bool"), &scope));
    assert!(!is_assignable(&ty("(int) => int"), &ty("(bool) => int"), &scope));
}

#[test]
fn names_stand_for_their_types() {
    let mut scope = Scope::new();
    scope.set_type("A", Type::Int);
    scope.set_type("B", Type::Named("A".to_string()));
    scope.set_type("P", ty("&void"));
    assert!(is_assignable(&ty("A"), &Type::Int, &scope));
    assert!(is_assignable(&Type::Int, &ty("A"), &scope));
    assert!(is_assignable(&ty("B"), &ty("A"), &scope));
    assert!(is_assignable(&ty("A"), &ty("B"), &scope));
    assert!(is_assignable(&ty("&int"), &ty("P"), &scope));
    assert!(!is_assignable(&ty("A"), &Type::Bool, &scope));
    assert!(!is_assignable(&ty("Nowhere"), &Type::Int, &scope));
    assert!(!is_assignable(&Type::Int, &ty("Nowhere"), &scope));
    assert!(is_assignable(&ty("Nowhere"), &ty("Nowhere"), &scope));
}

#[test]
fn a_name_that_stands_for_itself_ends_the_test() {
    let (result, scope) = check("type A = A;");
    assert!(result.is_ok());
    assert_eq!(scope.get_type("A"), Some(Type::Named("A".to_string())));
    assert!(!is_assignable(&Type::Int, &ty("A"), &scope));
    assert!(!is_assignable(&ty("A"), &Type::Int, &scope));
    assert!(is_assignable(&ty("A"), &ty("A"), &scope));
    let (result, _) = check("type A = A; let x: A = 1;");
    assert_eq!(unexpected(result), (Type::Int, Type::Named("A".to_string())));
}

#[test]
fn names_are_resolved_a_bounded_number_of_times() {
    let mut scope = Scope::new();
    scope.set_type("T0", Type::Int);
    for i in 1..=70 {
        scope.set_type(&format!("T{}", i), Type::Named(format!("T{}", i - 1)));
    }
    assert_eq!(MAX_ALIAS_DEPTH, 64);
    assert!(is_assignable(&ty("T63"), &Type::Int, &scope));
    assert!(!is_assignable(&ty("T64"), &Type::Int, &scope));
    assert!(assignable_within(&ty("T64"), &Type::Int, &scope, 65));
    assert!(!assignable_within(&ty("T1"), &Type::Int, &scope, 1));
    assert!(assignable_within(&ty("T1"), &Type::Int, &scope, 2));
    assert!(assignable_within(&Type::Int, &Type::Int, &scope, 0));
}

#[test]
fn lists_of_types_are_tested_pairwise() {
    let scope = Scope::new();
    assert!(all_assignable(&vec![ty("int[2]"), ty("&void")], &vec![ty("int[]"), ty("&int")], &scope, 4));
    assert!(!all_assignable(&vec![ty("int"), ty("int")], &vec![ty("int"), ty("bool")], &scope, 4));
    assert!(!all_assignable(&vec![ty("int")], &vec![ty("int"), ty("int")], &scope, 4));
    assert!(all_assignable(&vec![], &vec![], &scope, 0));
    let more = vec![("a".to_string(), Type::Int), ("b".to_string(), Type::Bool)];
    let less = vec![("b".to_string(), Type::Bool)];
    assert!(fields_assignable(&more, &less, &scope, 4));
    assert!(!fields_assignable(&less, &more, &scope, 4));
}

#[test]
fn literals_have_their_primitive_types() {
    assert_eq!(type_of("1").unwrap(), Type::Int);
    assert_eq!(type_of("1.5").unwrap(), Type::Float);
    assert_eq!(type_of("\"s\"").unwrap(), Type::String);
    assert_eq!(type_of("'c'").unwrap(), Type::Char);
    assert_eq!(type_of("null").unwrap(), ty("&void"));
    assert_eq!(check_expr(&Expression::Bool(true), &Scope::new()).unwrap(), Type::Bool);
    assert_eq!(type_of("true").unwrap(), Type::Bool);
    assert_eq!(type_of("false").unwrap(), Type::Bool);
}

#[test]
fn arithmetic_wants_equal_number_types() {
    assert_eq!(type_of("1 + 2").unwrap(), Type::Int);
    assert_eq!(type_of("1.0 * 2.0").unwrap(), Type::Float);
    assert_eq!(type_of("'a' - 'b'").unwrap(), Type::Char);
    assert_eq!(type_of("4 / 2").unwrap(), Type::Int);
    assert_eq!(unexpected(type_of("1 + 2.0")), (Type::Int, Type::Float));
    assert_eq!(unexpected(type_of("'a' * 2")), (Type::Char, Type::Int));
    assert_eq!(invalid(type_of("\"a\" + \"b\"")), Type::String);
    assert_eq!(invalid(type_of("null + null")), ty("&void"));
}

#[test]
fn the_left_operand_is_typed_first() {
    assert_eq!(unknown(type_of("a + b")), "a");
    assert_eq!(unknown(type_of("1 + b")), "b");
}

#[test]
fn remainder_wants_two_ints() {
    assert_eq!(type_of("5 % 2").unwrap(), Type::Int);
    assert_eq!(unexpected(type_of("5.0 % 2")), (Type::Float, Type::Int));
    assert_eq!(unexpected(type_of("5 % 2.0")), (Type::Int, Type::Int));
}

#[test]
fn negation_wants_a_number() {
    assert_eq!(type_of("-1").unwrap(), Type::Int);
    assert_eq!(type_of("-1.5").unwrap(), Type::Float);
    assert_eq!(invalid(type_of("-'c'")), Type::Char);
    assert_eq!(invalid(type_of("-\"s\"")), Type::String);
}

#[test]
fn comparisons_give_bool() {
    assert_eq!(type_of("1 == 2").unwrap(), Type::Bool);
    assert_eq!(type_of("\"a\" == \"b\"").unwrap(), Type::Bool);
    assert_eq!(unexpected(type_of("1 == 'c'")), (Type::Int, Type::Char));
    assert_eq!(type_of("1 < 2").unwrap(), Type::Bool);
    assert_eq!(type_of("1.0 >= 2.0").unwrap(), Type::Bool);
    assert_eq!(type_of("'a' <= 'b'").unwrap(), Type::Bool);
    assert_eq!(type_of("2 > 1").unwrap(), Type::Bool);
    assert_eq!(unexpected(type_of("1 < 2.0")), (Type::Int, Type::Float));
    assert_eq!(invalid(type_of("\"a\" < \"b\"")), Type::String);
}

#[test]
fn logic_wants_bool() {
    assert_eq!(type_of("1 == 1 and 2 == 2").unwrap(), Type::Bool);
    assert_eq!(type_of("1 == 1 or 2 == 2").unwrap(), Type::Bool);
    assert_eq!(type_of("not 1 == 1").unwrap(), Type::Bool);
    assert_eq!(unexpected(type_of("1 and 2 == 2")), (Type::Int, Type::Bool));
    assert_eq!(unexpected(type_of("1 == 1 or 2")), (Type::Bool, Type::Int));
    assert_eq!(invalid(type_of("not 1")), Type::Int);
}

#[test]
fn rules_on_the_types_of_two_operands() {
    assert_eq!(binop_type(Type::Int, Type::Int).unwrap(), Type::Int);
    assert_eq!(invalid(binop_type(Type::Bool, Type::Bool)), Type::Bool);
    assert_eq!(unexpected(binop_type(Type::Bool, Type::Int)), (Type::Bool, Type::Int));
    assert_eq!(binop_cmp_type(Type::Char, Type::Char).unwrap(), Type::Bool);
    assert_eq!(invalid(binop_cmp_type(Type::Void, Type::Void)), Type::Void);
    assert_eq!(mod_type(Type::Int, Type::Int).unwrap(), Type::Int);
    assert_eq!(unexpected(mod_type(Type::Char, Type::Char)), (Type::Char, Type::Int));
    assert_eq!(bool_op_type(Type::Bool, Type::Bool).unwrap(), Type::Bool);
    assert_eq!(unexpected(bool_op_type(Type::Bool, Type::Int)), (Type::Bool, Type::Int));
    assert_eq!(equality_type(Type::Void, Type::Void).unwrap(), Type::Bool);
    assert_eq!(unexpected(equality_type(Type::Void, Type::Int)), (Type::Void, Type::Int));
}

#[test]
fn helpers_for_two_operands() {
    let mut scope = Scope::new();
    scope.set_var("n", Type::Int);
    assert_eq!(check_binop_expr(&expr("n"), &expr("2"), &scope).unwrap(), Type::Int);
    assert_eq!(unexpected(check_binop_expr(&expr("n"), &expr("'c'"), &scope)), (Type::Int, Type::Char));
    assert_eq!(invalid(check_binop_expr(&expr("true"), &expr("false"), &scope)), Type::Bool);
    assert_eq!(unknown(check_binop_expr(&expr("a"), &expr("b"), &scope)), "a");
    assert_eq!(unknown(check_binop_expr(&expr("n"), &expr("b"), &scope)), "b");
    assert_eq!(check_binop_cmp_expr(&expr("n"), &expr("2"), &scope).unwrap(), Type::Bool);
    assert_eq!(invalid(check_binop_cmp_expr(&expr("\"a\""), &expr("\"b\""), &scope)), Type::String);
    assert_eq!(check_bool_op(&expr("true"), &expr("n == 1"), &scope).unwrap(), Type::Bool);
    assert_eq!(unexpected(check_bool_op(&expr("true"), &expr("n"), &scope)), (Type::Bool, Type::Int));
    assert_eq!(check_same_type(&expr("n"), &expr("n"), &scope).unwrap(), Type::Bool);
    assert_eq!(unexpected(check_same_type(&expr("n"), &expr("true"), &scope)), (Type::Int, Type::Bool));
}

#[test]
fn record_and_tuple_literals() {
    assert_eq!(type_of("{ a: 1, b: 'c' }").unwrap(), ty("{ a: int, b: char }"));
    assert_eq!(type_of("(1, 'c', \"s\")").unwrap(), ty("(int, char, string)"));
    assert_eq!(check_expr(&Expression::TupleLiteral(vec![]), &Scope::new()).unwrap(), ty("() x"));
    assert_eq!(unknown(type_of("{ a: 1, b: x, c: y }")), "x");
    assert_eq!(unknown(type_of("(1, x, y)")), "x");
    let scope = Scope::new();
    assert_eq!(
        check_exprs(&vec![expr("1"), expr("'c'")], &scope).unwrap(),
        vec![Type::Int, Type::Char]
    );
    assert_eq!(
        check_struct_literal(&vec![("k".to_string(), expr("1.5"))], &scope).unwrap(),
        vec![("k".to_string(), Type::Float)]
    );
}

#[test]
fn array_literals_want_items_of_one_type() {
    assert_eq!(type_of("[1, 2, 3]").unwrap(), ty("int[3]"));
    assert_eq!(type_of("['a']").unwrap(), ty("char[1]"));
    assert_eq!(type_of("[[1, 2], [3, 4]]").unwrap(), ty("int[2][2]"));
    assert_eq!(unexpected(type_of("[1, 'c', 2.0]")), (Type::Char, Type::Int));
    assert_eq!(unexpected(type_of("[[1], [1, 2]]")), (ty("int[2]"), ty("int[1]")));
    assert_eq!(unknown(type_of("[1, x]")), "x");
}

#[test]
fn an_empty_array_literal_has_no_type() {
    assert_eq!(invalid(type_of("[]")), ty("void[]"));
    assert_eq!(invalid(check_array_literal(&vec![], &Scope::new())), ty("void[]"));
}

#[test]
fn function_literals_are_checked_inside() {
    assert_eq!(type_of("(x: int): int => { return x + 1; }").unwrap(), ty("(int) => int"));
    assert_eq!(type_of("() => { }").unwrap(), ty("() => void"));
    assert_eq!(
        type_of("(a: int, b: float): float => { let c = b * b; return c; }").unwrap(),
        ty("(int, float) => float")
    );
    assert_eq!(
        unexpected(type_of("(x: int): bool => { return x; }")),
        (Type::Int, Type::Bool)
    );
    assert_eq!(unexpected(type_of("(x: int): int => { }")), (Type::Void, Type::Int));
    assert_eq!(unexpected(type_of("(x: int) => { return x; }")), (Type::Int, Type::Void));
    assert_eq!(unknown(type_of("(x: T) => { }")), "T");
    assert_eq!(unknown(type_of("(x: int): T => { }")), "T");
    assert_eq!(unknown(type_of("(x: int) => { y; }")), "y");
}

#[test]
fn a_function_body_defines_nothing_outside() {
    let (result, scope) = check("let f = (x: int) => { let y = x; type T = int; };");
    assert!(result.is_ok());
    assert_eq!(scope.get_var("f"), Some(ty("(int) => void")));
    assert_eq!(scope.get_var("x"), None);
    assert_eq!(scope.get_var("y"), None);
    assert_eq!(scope.get_type("T"), None);
}

#[test]
fn a_function_body_sees_the_scope_around() {
    assert_eq!(
        type_in("let n = 1;", "(x: int): int => { return x + n; }").unwrap(),
        ty("(int) => int")
    );
    assert_eq!(
        type_in("let x = 'c';", "(x: int): int => { return x; }").unwrap(),
        ty("(int) => int")
    );
}

#[test]
fn function_literal_parts() {
    let scope = Scope::new();
    let params = vec![("x".to_string(), Type::Int), ("y".to_string(), Type::Bool)];
    assert_eq!(check_params(&params, &scope).unwrap(), vec![Type::Int, Type::Bool]);
    let body = block("return y;");
    assert_eq!(
        check_function_literal(&params, &Type::Bool, &body, &scope).unwrap(),
        ty("(int, bool) => bool")
    );
    assert_eq!(
        infer_function_type_signature(&expr("(x: int): bool => { return 1; }"), &scope).unwrap(),
        ty("(int) => bool")
    );
    assert_eq!(
        unexpected(infer_function_type_signature(&expr("1"), &scope)),
        (Type::Void, ty("() => void"))
    );
    assert_eq!(unknown(infer_function_type_signature(&expr("(x: T) => { }"), &scope)), "T");
}

#[test]
fn index_wants_an_int_and_an_array() {
    assert_eq!(type_in("let a = [1.5];", "a[0]").unwrap(), Type::Float);
    assert_eq!(type_in("let a: int[] = [1];", "a[0]").unwrap(), Type::Int);
    assert_eq!(unexpected(type_in("let a = [1];", "a['c']")), (Type::Char, Type::Int));
    assert_eq!(invalid(type_in("let a = 1;", "a[0]")), Type::Int);
    assert_eq!(unknown(type_of("a[i]")), "i");
}

#[test]
fn reference_and_dereference() {
    assert_eq!(type_in("let a = 1;", "&a").unwrap(), ty("&int"));
    assert_eq!(type_in("let a = 1; let p = &a;", "*p").unwrap(), Type::Int);
    assert_eq!(type_in("let a = 1;", "*&a").unwrap(), Type::Int);
    assert_eq!(invalid(type_in("let a = 1;", "*a")), Type::Int);
    assert_eq!(type_of("*null").unwrap(), Type::Void);
}

#[test]
fn variables_are_looked_up_and_resolved() {
    assert_eq!(unknown(type_of("x")), "x");
    let mut scope = Scope::new();
    scope.set_type("T", Type::Int);
    scope.set_var("x", Type::Named("T".to_string()));
    scope.set_var("y", Type::Named("U".to_string()));
    assert_eq!(check_expr(&expr("x"), &scope).unwrap(), Type::Int);
    assert_eq!(unknown(check_expr(&expr("y"), &scope)), "U");
}

#[test]
fn field_access_wants_a_record_with_the_field() {
    assert_eq!(type_in("let p = { a: 1, b: 'c' };", "p.b").unwrap(), Type::Char);
    assert_eq!(unknown(type_in("let p = { a: 1 };", "p.z")), "z");
    assert_eq!(invalid(type_in("let p = 1;", "p.a")), Type::Int);
    assert_eq!(type_in("let p = { a: { b: 1.5 } };", "p.a.b").unwrap(), Type::Float);
}

#[test]
fn calls_want_a_function_and_fitting_arguments() {
    let setup = "let f = (x: int[], p: &int): bool => { return 1 == 1; };";
    assert_eq!(type_in(setup, "f([1, 2], null)").unwrap(), Type::Bool);
    assert_eq!(invalid(type_in(setup, "f([1])")), ty("(int[], &int) => bool"));
    assert_eq!(invalid(type_in(setup, "f([1], null, 3)")), ty("(int[], &int) => bool"));
    assert_eq!(unexpected(type_in(setup, "f(1, null)")), (Type::Int, ty("int[]")));
    assert_eq!(unexpected(type_in(setup, "f([1], 2)")), (Type::Int, ty("&int")));
    assert_eq!(invalid(type_in("let g = 1;", "g(1)")), Type::Int);
    assert_eq!(unknown(type_in(setup, "f(a, b)")), "a");
    let scope = Scope::new();
    assert!(check_args(&vec![expr("1")], &vec![Type::Int], &scope).is_ok());
    assert!(check_args(&vec![expr("1")], &vec![Type::Bool], &scope).is_err());
    assert!(check_args(&vec![expr("1"), expr("x")], &vec![Type::Int], &scope).is_ok());
}

#[test]
fn variable_definitions_take_the_declared_type() {
    let (result, scope) = check("let a: int[] = [1, 2];");
    assert!(result.is_ok());
    assert_eq!(scope.get_var("a"), Some(ty("int[]")));
    let (result, scope) = check("let a: bool = 1;");
    assert_eq!(unexpected(result), (Type::Int, Type::Bool));
    assert_eq!(scope.get_var("a"), None);
    let (result, _) = check("let a: T = 1;");
    assert_eq!(unknown(result), "T");
    let (result, _) = check("let a = b;");
    assert_eq!(unknown(result), "b");
}

#[test]
fn type_definitions_may_name_themselves() {
    let (result, scope) = check("type List = { value: int, next: &List };");
    assert!(result.is_ok());
    assert_eq!(
        scope.get_type("List"),
        Some(ty("{ value: int, next: &{ value: int, next: &List } }"))
    );
    let (result, scope) = check("type T = U;");
    assert_eq!(unknown(result), "U");
    assert_eq!(scope.get_type("T"), Some(Type::Named("U".to_string())));
}

#[test]
fn assignment_wants_a_fitting_value_and_a_place() {
    assert!(check("let a = 1; a = 2;").0.is_ok());
    assert!(check("let a = [1]; a[0] = 2;").0.is_ok());
    assert!(check("let a = 1; let p = &a; *p = 2;").0.is_ok());
    assert!(check("let r = { x: 1 }; r.x = 2;").0.is_ok());
    assert!(check("let a = 1; a += 2;").0.is_ok());
    assert_eq!(unexpected(check("let a = 1; a = 'c';").0), (Type::Char, Type::Int));
    assert_eq!(invalid(check("1 = 2;").0), Type::Int);
    assert_eq!(invalid(check("let a = 1; -a = 2;").0), Type::Int);
    assert_eq!(invalid(check("let a = 1; let f = () => { }; f() = f();").0), Type::Void);
    assert_eq!(invalid(check("(1, 2) = (3, 4);").0), ty("(int, int)"));
    assert_eq!(invalid(check("1 = 'c';").0), Type::Int);
    assert_eq!(invalid(check("1 = true;").0), Type::Int);
    assert_eq!(invalid(check("let a = 1; a + 1 = \"s\";").0), Type::Int);
    assert_eq!(unknown(check("1 = b;").0), "b");
    assert_eq!(unexpected(check("let a = 1; a = true;").0), (Type::Bool, Type::Int));
    assert_eq!(unknown(check("a = 1;").0), "a");
}

#[test]
fn only_places_can_be_assigned_to() {
    assert!(can_assign_to_expr(&expr("a")));
    assert!(can_assign_to_expr(&expr("*a")));
    assert!(can_assign_to_expr(&expr("a[1]")));
    assert!(can_assign_to_expr(&expr("a.b")));
    assert!(!can_assign_to_expr(&expr("1")));
    assert!(!can_assign_to_expr(&expr("&a")));
    assert!(!can_assign_to_expr(&expr("a + b")));
    assert!(!can_assign_to_expr(&expr("f()")));
    assert!(!can_assign_to_expr(&expr("(a, b)")));
}

#[test]
fn conditions_must_be_bool() {
    assert!(check("while 1 == 1 { break; }").0.is_ok());
    assert!(check("while true { if false { break; } }").0.is_ok());
    assert_eq!(unexpected(check("while 1 { }").0), (Type::Int, Type::Bool));
    assert!(check("if 1 < 2 { } else if 2 < 3 { } else { }").0.is_ok());
    assert_eq!(
        unexpected(check("if 1 < 2 { } else if 'c' { }").0),
        (Type::Char, Type::Bool)
    );
    assert_eq!(unknown(check("if 1 < 2 { x; }").0), "x");
    assert_eq!(unknown(check("if 1 < 2 { } else { y; }").0), "y");
    assert_eq!(unknown(check("loop { z; }").0), "z");
}

#[test]
fn blocks_share_the_scope_around_them() {
    let (result, scope) = check("if 1 == 1 { let a = 1; } else { let b = 'c'; } loop { let c = 1.5; }");
    assert!(result.is_ok());
    assert_eq!(scope.get_var("a"), Some(Type::Int));
    assert_eq!(scope.get_var("b"), Some(Type::Char));
    assert_eq!(scope.get_var("c"), Some(Type::Float));
}

#[test]
fn a_block_returns_what_its_returns_return() {
    assert_eq!(check("").0.unwrap(), Type::Void);
    assert_eq!(check("let a = 1;").0.unwrap(), Type::Void);
    assert_eq!(check("return;").0.unwrap(), Type::Void);
    assert_eq!(check("return 1;").0.unwrap(), Type::Int);
    assert_eq!(check("return 1; return 2;").0.unwrap(), Type::Int);
    assert_eq!(unexpected(check("return 1; return 'c';").0), (Type::Char, Type::Int));
    assert_eq!(check("if 1 == 1 { return 1; } return 'c';").0.unwrap(), Type::Char);
}

#[test]
fn statements_one_by_one() {
    let mut scope = Scope::new();
    let statements = block("let a = 1; return a; break; continue; a; import x from \"m\";");
    assert!(matches!(check_statement(&statements[0], &mut scope), Ok(None)));
    assert!(matches!(check_statement(&statements[1], &mut scope), Ok(Some(Type::Int))));
    assert!(matches!(check_statement(&statements[2], &mut scope), Ok(None)));
    assert!(matches!(check_statement(&statements[3], &mut scope), Ok(None)));
    assert!(matches!(check_statement(&statements[4], &mut scope), Ok(None)));
    assert!(matches!(check_statement(&statements[5], &mut scope), Ok(None)));
    assert_eq!(scope.get_var("x"), None);
}

#[test]
fn the_scope_keeps_what_was_defined_before_an_error() {
    let (result, scope) = check("let a = 1; let b = c; let d = 2;");
    assert_eq!(unknown(result), "c");
    assert_eq!(scope.get_var("a"), Some(Type::Int));
    assert_eq!(scope.get_var("b"), None);
    assert_eq!(scope.get_var("d"), None);
}

#[test]
fn a_whole_program() {
    let source = "
        // points and a list of them
        type Point = { x: int, y: int };
        type Node = { value: Point, next: &Node };

        /* arithmetic on points */
        let add = (a: Point, b: Point): Point => {
            return { x: a.x + b.x, y: a.y + b.y };
        };
        let origin: Point = { x: 0, y: 0, label: \"origin\" };
        let moved = add(origin, { y: 2, x: 0x10 });

        let values = [1, 2, 3, 0b101];
        let total = 0;
        let i = 0;
        while i < 4 {
            total += values[i];
            i += 1;
            if total > 100 and not i == 3 {
                break;
            } else if total == 7 or i >= 2 {
                continue;
            } else {
                total -= 1;
            }
        }

        let nothing: &Node = null;
        let p = &moved;
        let q: &void = p;
        loop {
            total *= 2;
            total /= 2;
            break;
        }
        let scale = (factor: float): (float) => float => {
            return (v: float): float => { return v * factor; };
        };
        let twice = scale(2.0);
        let letter = 'a';
        let pair = (twice(1.5), letter, -total % 3);
        return pair;
    ";
    let (result, scope) = check(source);
    assert_eq!(result.unwrap(), ty("(float, char, int)"));
    assert_eq!(scope.get_var("moved"), Some(ty("{ x: int, y: int }")));
    assert_eq!(scope.get_var("origin"), Some(ty("{ x: int, y: int }")));
    assert_eq!(scope.get_var("total"), Some(Type::Int));
    assert_eq!(scope.get_var("values"), Some(ty("int[4]")));
    assert_eq!(scope.get_var("q"), Some(ty("&void")));
    assert_eq!(scope.get_var("twice"), Some(ty("(float) => float")));
    assert_eq!(scope.get_var("factor"), None);
}

#[test]
fn a_record_that_names_itself_is_compared_to_a_bounded_depth() {
    let (result, scope) = check(
        "type Node = { value: int, next: &Node }; let n: &Node = null; let m: Node = { value: 1, next: n };",
    );
    assert!(matches!(result, Err(TypeError::Unexpected { got: _, expected: _ })));
    assert_eq!(scope.get_var("n"), Some(ty("&{ value: int, next: &{ value: int, next: &Node } }")));
    assert_eq!(scope.get_var("m"), None);
}
