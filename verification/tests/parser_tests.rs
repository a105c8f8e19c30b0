use compiler_rs::lexer::lexer::Lexer;
use compiler_rs::lexer::token::Token;
use compiler_rs::parser::ast::{ElseStatement, Expression, ImportIdentifier, Statement};
use compiler_rs::parser::expressions::{is_func_literal, parse_expression};
use compiler_rs::parser::helpers::{build_hashmap_from_entries, ParseError};
use compiler_rs::parser::statements::{parse_block, parse_statement};
use compiler_rs::parser::types::{parse_array_type, parse_type, Type};

fn num(v: i64) -> Box<Expression> {
    Box::new(Expression::Int(v))
}

fn ident(name: &str) -> Box<Expression> {
    Box::new(Expression::Identifier(name.to_string()))
}

fn show<T: std::fmt::Debug>(value: &T) -> String {
    format!("{:?}", value)
}

fn expr(source: &str) -> Result<Expression, ParseError> {
    let mut lexer = Lexer::new(source);
    parse_expression(&mut lexer)
}

fn expr_ok(source: &str) -> String {
    show(&expr(source).unwrap())
}

fn ty(source: &str) -> Result<Type, ParseError> {
    let mut lexer = Lexer::new(source);
    parse_type(&mut lexer)
}

fn stmt(source: &str) -> Result<Statement, ParseError> {
    let mut lexer = Lexer::new(source);
    parse_statement(&mut lexer)
}

fn stmt_ok(source: &str) -> String {
    show(&stmt(source).unwrap())
}

#[test]
fn primitive_types() {
    assert_eq!(ty("int").unwrap(), Type::Int);
    assert_eq!(ty("float").unwrap(), Type::Float);
    assert_eq!(ty("string").unwrap(), Type::String);
    assert_eq!(ty("char").unwrap(), Type::Char);
    assert_eq!(ty("bool").unwrap(), Type::Bool);
    assert_eq!(ty("void").unwrap(), Type::Void);
}

#[test]
fn named_and_pointer_types() {
    assert_eq!(ty("Pair").unwrap(), Type::Named("Pair".to_string()));
    assert_eq!(ty("&int").unwrap(), Type::Ptr(Box::new(Type::Int)));
}

#[test]
fn a_doubled_ampersand_is_one_token() {
    assert!(matches!(ty("&&void"), Err(ParseError::UnexpectedToken(Token::And))));
    assert_eq!(
        ty("& &void").unwrap(),
        Type::Ptr(Box::new(Type::Ptr(Box::new(Type::Void))))
    );
}

#[test]
fn array_suffixes_apply_from_left_to_right() {
    assert_eq!(ty("int[]").unwrap(), Type::Array(Box::new(Type::Int)));
    assert_eq!(
        ty("int[3]").unwrap(),
        Type::SizedArray { element: Box::new(Type::Int), len: 3 }
    );
    assert_eq!(
        ty("int[3][]").unwrap(),
        Type::Array(Box::new(Type::SizedArray { element: Box::new(Type::Int), len: 3 }))
    );
    assert_eq!(
        ty("&int[2]").unwrap(),
        Type::Ptr(Box::new(Type::SizedArray { element: Box::new(Type::Int), len: 2 }))
    );
}

#[test]
fn an_open_bracket_ends_the_type_and_stays_used_up() {
    let mut lexer = Lexer::new("int[3 x");
    assert_eq!(parse_type(&mut lexer).unwrap(), Type::Int);
    assert_eq!(lexer.next(), Some(Token::Identifier("x".to_string())));
}

#[test]
fn array_suffix_alone() {
    let mut lexer = Lexer::new("[7] [] [x ;");
    assert!(matches!(parse_array_type(&mut lexer), Ok(Some(7))));
    assert!(matches!(parse_array_type(&mut lexer), Ok(None)));
    assert!(matches!(
        parse_array_type(&mut lexer),
        Err(ParseError::UnexpectedToken(Token::Identifier(_)))
    ));
    assert_eq!(lexer.next(), Some(Token::Identifier("x".to_string())));
    assert!(matches!(
        parse_array_type(&mut lexer),
        Err(ParseError::UnexpectedToken(Token::Semicolon))
    ));
    assert_eq!(lexer.next(), Some(Token::Semicolon));
    assert!(matches!(parse_array_type(&mut lexer), Err(ParseError::UnexpectedEOF())));
}

#[test]
fn tuple_and_function_types() {
    assert_eq!(ty("(int, bool) x").unwrap(), Type::Tuple(vec![Type::Int, Type::Bool]));
    assert_eq!(ty("(int,) x").unwrap(), Type::Tuple(vec![Type::Int]));
    assert_eq!(ty("() x").unwrap(), Type::Tuple(vec![]));
    assert_eq!(
        ty("(int, int) => int").unwrap(),
        Type::Function { args: vec![Type::Int, Type::Int], ret: Box::new(Type::Int) }
    );
    assert_eq!(
        ty("() => void").unwrap(),
        Type::Function { args: vec![], ret: Box::new(Type::Void) }
    );
}

#[test]
fn record_types_keep_their_fields() {
    assert_eq!(
        ty("{ a: int, b: &char }").unwrap(),
        Type::Struct(vec![
            ("a".to_string(), Type::Int),
            ("b".to_string(), Type::Ptr(Box::new(Type::Char))),
        ])
    );
    assert_eq!(ty("{}").unwrap(), Type::Struct(vec![]));
}

#[test]
fn record_types_are_equal_in_any_order_of_fields() {
    assert_eq!(ty("{ a: int, b: bool }").unwrap(), ty("{ b: bool, a: int }").unwrap());
    assert_ne!(ty("{ a: int, b: bool }").unwrap(), ty("{ a: int }").unwrap());
    assert_ne!(ty("{ a: int }").unwrap(), ty("{ a: bool }").unwrap());
    assert_ne!(ty("{ a: int }").unwrap(), ty("{ b: int }").unwrap());
}

#[test]
fn a_record_type_with_a_repeated_name_is_refused() {
    assert!(matches!(
        ty("{ a: int, a: bool }"),
        Err(ParseError::Unknown(message)) if message == "Duplicate key"
    ));
}

#[test]
fn type_errors_name_the_token() {
    assert!(matches!(ty(""), Err(ParseError::UnexpectedEOF())));
    assert!(matches!(ty("+"), Err(ParseError::UnexpectedToken(Token::Add))));
    assert!(matches!(ty("(int"), Err(ParseError::UnexpectedEOF())));
    assert!(matches!(ty("(int;"), Err(ParseError::UnexpectedToken(Token::Semicolon))));
    assert!(matches!(ty("{ a int }"), Err(ParseError::UnexpectedToken(Token::IntType))));
}

#[test]
fn type_clone_is_the_same_type() {
    let t = ty("{ f: (int, &bool[2]) => Pair[] }").unwrap();
    assert_eq!(t.clone(), t);
    assert!(t.same_as(&t.clone()));
}

#[test]
fn duplicate_keys_are_found() {
    let distinct = vec![("a".to_string(), 1), ("b".to_string(), 2)];
    assert_eq!(
        build_hashmap_from_entries(distinct).unwrap(),
        vec![("a".to_string(), 1), ("b".to_string(), 2)]
    );
    let repeated = vec![("a".to_string(), 1), ("b".to_string(), 2), ("a".to_string(), 3)];
    assert!(matches!(
        build_hashmap_from_entries(repeated),
        Err(ParseError::Unknown(message)) if message == "Duplicate key"
    ));
    assert!(build_hashmap_from_entries(Vec::<(String, u8)>::new()).unwrap().is_empty());
}

#[test]
fn product_binds_tighter_than_sum() {
    assert_eq!(
        expr_ok("1 + 2 * 3;"),
        show(&Expression::Add(num(1), Box::new(Expression::Mul(num(2), num(3)))))
    );
    assert_eq!(
        expr_ok("1 * 2 + 3;"),
        show(&Expression::Add(Box::new(Expression::Mul(num(1), num(2))), num(3)))
    );
}

#[test]
fn sum_and_product_bind_to_the_left() {
    assert_eq!(
        expr_ok("1 - 2 - 3;"),
        show(&Expression::Sub(Box::new(Expression::Sub(num(1), num(2))), num(3)))
    );
    assert_eq!(
        expr_ok("8 / 4 % 3;"),
        show(&Expression::Mod(Box::new(Expression::Div(num(8), num(4))), num(3)))
    );
}

#[test]
fn comparison_and_logic_bind_to_the_right() {
    assert_eq!(
        expr_ok("a == b == c;"),
        show(&Expression::Equal(ident("a"), Box::new(Expression::Equal(ident("b"), ident("c")))))
    );
    assert_eq!(
        expr_ok("a or b or c;"),
        show(&Expression::Or(ident("a"), Box::new(Expression::Or(ident("b"), ident("c")))))
    );
    assert_eq!(
        expr_ok("a and b or c and d;"),
        show(&Expression::Or(
            Box::new(Expression::And(ident("a"), ident("b"))),
            Box::new(Expression::And(ident("c"), ident("d"))),
        ))
    );
}

#[test]
fn every_comparison_operator() {
    assert_eq!(expr_ok("a > b;"), show(&Expression::GreaterThan(ident("a"), ident("b"))));
    assert_eq!(expr_ok("a >= b;"), show(&Expression::GreaterEqual(ident("a"), ident("b"))));
    assert_eq!(expr_ok("a < b;"), show(&Expression::LessThan(ident("a"), ident("b"))));
    assert_eq!(expr_ok("a <= b;"), show(&Expression::LessEqual(ident("a"), ident("b"))));
    assert_eq!(expr_ok("a == b;"), show(&Expression::Equal(ident("a"), ident("b"))));
}

#[test]
fn not_binds_looser_than_comparison() {
    assert_eq!(
        expr_ok("not a < b;"),
        show(&Expression::Not(Box::new(Expression::LessThan(ident("a"), ident("b")))))
    );
    assert_eq!(
        expr_ok("!!a;"),
        show(&Expression::Not(Box::new(Expression::Not(ident("a")))))
    );
}

#[test]
fn prefix_operators() {
    assert_eq!(expr_ok("-a;"), show(&Expression::Neg(ident("a"))));
    assert_eq!(expr_ok("--a;"), show(&Expression::Neg(Box::new(Expression::Neg(ident("a"))))));
    assert_eq!(expr_ok("&a;"), show(&Expression::Ref(ident("a"))));
    assert_eq!(expr_ok("*a;"), show(&Expression::Deref(ident("a"))));
    assert_eq!(
        expr_ok("-*&a;"),
        show(&Expression::Neg(Box::new(Expression::Deref(Box::new(Expression::Ref(ident("a")))))))
    );
    assert_eq!(
        expr_ok("a * -b;"),
        show(&Expression::Mul(ident("a"), Box::new(Expression::Neg(ident("b")))))
    );
}

#[test]
fn postfix_operators_chain() {
    assert_eq!(
        expr_ok("a.b[1](2, c);"),
        show(&Expression::Call {
            expr: Box::new(Expression::Index {
                expr: Box::new(Expression::Dot { expr: ident("a"), field: "b".to_string() }),
                index: num(1),
            }),
            args: vec![Expression::Int(2), Expression::Identifier("c".to_string())],
        })
    );
    assert_eq!(expr_ok("f();"), show(&Expression::Call { expr: ident("f"), args: vec![] }));
}

#[test]
fn atoms() {
    assert_eq!(expr_ok("42;"), show(&Expression::Int(42)));
    assert_eq!(expr_ok("null;"), show(&Expression::Null));
    assert_eq!(expr_ok("1.5;"), show(&Expression::Float("1.5".to_string())));
    assert_eq!(expr_ok("'c';"), show(&Expression::Char('c')));
    assert_eq!(expr_ok("\"s\";"), show(&Expression::String("s".to_string())));
    assert_eq!(expr_ok("x;"), show(&Expression::Identifier("x".to_string())));
    assert_eq!(expr_ok("true;"), show(&Expression::Bool(true)));
    assert_eq!(expr_ok("false;"), show(&Expression::Bool(false)));
    assert_eq!(
        expr_ok("not true or false;"),
        show(&Expression::Or(
            Box::new(Expression::Not(Box::new(Expression::Bool(true)))),
            Box::new(Expression::Bool(false)),
        ))
    );
}

#[test]
fn literals_of_several_items() {
    assert_eq!(
        expr_ok("[1, 2, 3];"),
        show(&Expression::ArrayLiteral(vec![
            Expression::Int(1),
            Expression::Int(2),
            Expression::Int(3)
        ]))
    );
    assert_eq!(expr_ok("[];"), show(&Expression::ArrayLiteral(vec![])));
    assert_eq!(
        expr_ok("{ a: 1, b: x };"),
        show(&Expression::StructLiteral(vec![
            ("a".to_string(), Expression::Int(1)),
            ("b".to_string(), Expression::Identifier("x".to_string())),
        ]))
    );
    assert_eq!(
        expr_ok("(1, 2);"),
        show(&Expression::TupleLiteral(vec![Expression::Int(1), Expression::Int(2)]))
    );
    assert_eq!(expr_ok("(1,);"), show(&Expression::Int(1)));
}

#[test]
fn parentheses_group() {
    assert_eq!(
        expr_ok("(1 + 2) * 3;"),
        show(&Expression::Mul(Box::new(Expression::Add(num(1), num(2))), num(3)))
    );
    assert_eq!(expr_ok("((x));"), show(&Expression::Identifier("x".to_string())));
}

#[test]
fn a_record_literal_with_a_repeated_name_is_refused() {
    assert!(matches!(
        expr("{ a: 1, a: 2 };"),
        Err(ParseError::Unknown(message)) if message == "Duplicate key"
    ));
    assert!(matches!(
        stmt("let p = { x: 1, y: 2, x: 3 };"),
        Err(ParseError::Unknown(message)) if message == "Duplicate key"
    ));
}

#[test]
fn function_literal_is_told_from_a_group() {
    let yes = ["()", "(x: int)", "(x:"];
    for source in yes {
        assert!(is_func_literal(&Lexer::new(source)).is_ok());
    }
    assert!(matches!(
        is_func_literal(&Lexer::new("(x)")),
        Err(ParseError::UnexpectedToken(Token::RParen))
    ));
    assert!(matches!(
        is_func_literal(&Lexer::new("(1)")),
        Err(ParseError::UnexpectedToken(Token::Integer(1)))
    ));
    assert!(matches!(
        is_func_literal(&Lexer::new("x")),
        Err(ParseError::UnexpectedToken(Token::Identifier(_)))
    ));
    assert!(matches!(is_func_literal(&Lexer::new("(x")), Err(ParseError::UnexpectedEOF())));
    assert!(matches!(is_func_literal(&Lexer::new("")), Err(ParseError::UnexpectedEOF())));
}

#[test]
fn is_func_literal_takes_no_token() {
    let lexer = Lexer::new("(x: int) => {}");
    assert!(is_func_literal(&lexer).is_ok());
    assert_eq!(lexer.peek(), Some(&Token::LParen));
}

#[test]
fn function_literals() {
    assert_eq!(
        expr_ok("(x: int): int => { return x + 1; };"),
        show(&Expression::FunctionLiteral {
            args: vec![("x".to_string(), Type::Int)],
            ret: Type::Int,
            body: vec![Statement::Return(Some(Expression::Add(ident("x"), num(1))))],
        })
    );
    assert_eq!(
        expr_ok("() => { };"),
        show(&Expression::FunctionLiteral { args: vec![], ret: Type::Void, body: vec![] })
    );
    assert_eq!(
        expr_ok("(a: int, b: &Pair) => { };"),
        show(&Expression::FunctionLiteral {
            args: vec![
                ("a".to_string(), Type::Int),
                ("b".to_string(), Type::Ptr(Box::new(Type::Named("Pair".to_string())))),
            ],
            ret: Type::Void,
            body: vec![],
        })
    );
}

#[test]
fn an_expression_must_be_followed_by_a_token() {
    assert!(matches!(expr("1"), Err(ParseError::UnexpectedEOF())));
    assert!(matches!(expr("a + b"), Err(ParseError::UnexpectedEOF())));
    assert!(matches!(expr(""), Err(ParseError::UnexpectedEOF())));
}

#[test]
fn expression_errors_name_the_token() {
    assert!(matches!(expr(";"), Err(ParseError::UnexpectedToken(Token::Semicolon))));
    assert!(matches!(expr("1 + ;"), Err(ParseError::UnexpectedToken(Token::Semicolon))));
    assert!(matches!(expr("a[1;"), Err(ParseError::UnexpectedToken(Token::Semicolon))));
    assert!(matches!(expr("a. 1;"), Err(ParseError::UnexpectedToken(Token::Integer(1)))));
    assert!(matches!(expr("(1 2)"), Err(ParseError::UnexpectedToken(Token::Integer(2)))));
    assert!(matches!(expr("{ a 1 }"), Err(ParseError::UnexpectedToken(Token::Integer(1)))));
    assert!(matches!(expr("{ [1,2]"), Err(ParseError::UnexpectedToken(Token::LBracket))));
}

#[test]
fn a_dot_before_digits_is_no_field_access() {
    let mut lexer = Lexer::new("a.1;");
    assert_eq!(show(&parse_expression(&mut lexer).unwrap()), show(&Expression::Identifier("a".to_string())));
    assert_eq!(lexer.next(), Some(Token::Float(".1".to_string())));
}

#[test]
fn empty_parentheses_start_a_function_literal() {
    assert!(matches!(expr("();"), Err(ParseError::UnexpectedToken(Token::Semicolon))));
    assert!(matches!(expr("() => 1;"), Err(ParseError::UnexpectedToken(Token::Integer(1)))));
}

#[test]
fn the_lexer_stays_after_the_expression() {
    let mut lexer = Lexer::new("a + 1 ; b");
    assert!(parse_expression(&mut lexer).is_ok());
    assert_eq!(lexer.next(), Some(Token::Semicolon));
    assert_eq!(lexer.next(), Some(Token::Identifier("b".to_string())));
}

#[test]
fn variable_definition_with_a_type() {
    assert_eq!(
        stmt_ok("let x: int = 1 + 2 * 3;"),
        show(&Statement::VarDef {
            name: "x".to_string(),
            typ: Some(Type::Int),
            expr: Expression::Add(num(1), Box::new(Expression::Mul(num(2), num(3)))),
        })
    );
}

#[test]
fn variable_definition_without_a_type() {
    assert_eq!(
        stmt_ok("let a = [1, 2, 3];"),
        show(&Statement::VarDef {
            name: "a".to_string(),
            typ: None,
            expr: Expression::ArrayLiteral(vec![
                Expression::Int(1),
                Expression::Int(2),
                Expression::Int(3)
            ]),
        })
    );
}

#[test]
fn type_definition() {
    assert_eq!(
        stmt_ok("type Pair = { a: int, b: int };"),
        show(&Statement::TypeDef {
            name: "Pair".to_string(),
            typ: Type::Struct(vec![("a".to_string(), Type::Int), ("b".to_string(), Type::Int)]),
        })
    );
}

#[test]
fn import_with_and_without_alias() {
    assert_eq!(
        stmt_ok("import a as b, c from \"lib\";"),
        show(&Statement::Import {
            path: "lib".to_string(),
            imports: vec![
                ImportIdentifier { name: "a".to_string(), alias: "b".to_string() },
                ImportIdentifier { name: "c".to_string(), alias: "c".to_string() },
            ],
        })
    );
    assert_eq!(
        stmt_ok("import from \"lib\";"),
        show(&Statement::Import { path: "lib".to_string(), imports: vec![] })
    );
    assert!(matches!(stmt("import a"), Err(ParseError::UnexpectedEOF())));
    assert!(matches!(
        stmt("import a from lib;"),
        Err(ParseError::UnexpectedToken(Token::Identifier(_)))
    ));
}

#[test]
fn loops_and_jumps() {
    assert_eq!(
        stmt_ok("while a < 3 { break; }"),
        show(&Statement::While {
            cond: Expression::LessThan(ident("a"), num(3)),
            body: vec![Statement::Break],
        })
    );
    assert_eq!(
        stmt_ok("loop { continue; }"),
        show(&Statement::Loop(vec![Statement::Continue]))
    );
    assert_eq!(stmt_ok("break;"), show(&Statement::Break));
    assert_eq!(stmt_ok("continue;"), show(&Statement::Continue));
    assert!(matches!(stmt("break"), Err(ParseError::UnexpectedEOF())));
}

#[test]
fn return_with_and_without_a_value() {
    assert_eq!(stmt_ok("return;"), show(&Statement::Return(None)));
    assert_eq!(
        stmt_ok("return x + 1;"),
        show(&Statement::Return(Some(Expression::Add(ident("x"), num(1)))))
    );
}

#[test]
fn if_chains_nest_in_the_else() {
    assert_eq!(
        stmt_ok("if a { x; }"),
        show(&Statement::If {
            cond: Expression::Identifier("a".to_string()),
            body: vec![Statement::Expr(Expression::Identifier("x".to_string()))],
            else_stmt: ElseStatement::Nothing,
        })
    );
    assert_eq!(
        stmt_ok("if a { } else { y; }"),
        show(&Statement::If {
            cond: Expression::Identifier("a".to_string()),
            body: vec![],
            else_stmt: ElseStatement::Block(vec![Statement::Expr(Expression::Identifier(
                "y".to_string()
            ))]),
        })
    );
    assert_eq!(
        stmt_ok("if a { } else if b { } else if c { } else { z; }"),
        show(&Statement::If {
            cond: Expression::Identifier("a".to_string()),
            body: vec![],
            else_stmt: ElseStatement::If(Box::new(Statement::If {
                cond: Expression::Identifier("b".to_string()),
                body: vec![],
                else_stmt: ElseStatement::If(Box::new(Statement::If {
                    cond: Expression::Identifier("c".to_string()),
                    body: vec![],
                    else_stmt: ElseStatement::Block(vec![Statement::Expr(
                        Expression::Identifier("z".to_string())
                    )]),
                })),
            })),
        })
    );
}

#[test]
fn assignment_and_its_compound_forms() {
    assert_eq!(
        stmt_ok("x = 1;"),
        show(&Statement::Assign { lhs: Expression::Identifier("x".to_string()), rhs: Expression::Int(1) })
    );
    assert_eq!(
        stmt_ok("x += 1;"),
        show(&Statement::Assign {
            lhs: Expression::Identifier("x".to_string()),
            rhs: Expression::Add(ident("x"), num(1)),
        })
    );
    assert_eq!(
        stmt_ok("x -= 1;"),
        show(&Statement::Assign {
            lhs: Expression::Identifier("x".to_string()),
            rhs: Expression::Sub(ident("x"), num(1)),
        })
    );
    assert_eq!(
        stmt_ok("x *= 2;"),
        show(&Statement::Assign {
            lhs: Expression::Identifier("x".to_string()),
            rhs: Expression::Mul(ident("x"), num(2)),
        })
    );
    assert_eq!(
        stmt_ok("a[0] /= 2;"),
        show(&Statement::Assign {
            lhs: Expression::Index { expr: ident("a"), index: num(0) },
            rhs: Expression::Div(
                Box::new(Expression::Index { expr: ident("a"), index: num(0) }),
                num(2)
            ),
        })
    );
}

#[test]
fn expression_statement() {
    assert_eq!(
        stmt_ok("f(41);"),
        show(&Statement::Expr(Expression::Call { expr: ident("f"), args: vec![Expression::Int(41)] }))
    );
    assert!(matches!(stmt("f(41) g"), Err(ParseError::UnexpectedToken(Token::Identifier(_)))));
}

#[test]
fn statement_errors() {
    assert!(matches!(stmt(""), Err(ParseError::UnexpectedEOF())));
    assert!(matches!(stmt("let 1 = 2;"), Err(ParseError::UnexpectedToken(Token::Integer(1)))));
    assert!(matches!(stmt("let x"), Err(ParseError::UnexpectedEOF())));
    assert!(matches!(stmt("let x 1;"), Err(ParseError::UnexpectedToken(Token::Integer(1)))));
    assert!(matches!(stmt("type = int;"), Err(ParseError::UnexpectedToken(Token::Assign))));
    assert!(matches!(stmt("type T int;"), Err(ParseError::UnexpectedToken(Token::IntType))));
    assert!(matches!(stmt("while a b"), Err(ParseError::UnexpectedToken(Token::Identifier(_)))));
    assert!(matches!(stmt("return 1"), Err(ParseError::UnexpectedEOF())));
}

#[test]
fn block_without_braces_runs_to_the_end() {
    let mut lexer = Lexer::new("let a = 1; a = 2; return a;");
    let block = parse_block(&mut lexer, false).unwrap();
    assert_eq!(block.len(), 3);
    assert_eq!(lexer.next(), None);
    let mut lexer = Lexer::new("");
    assert!(parse_block(&mut lexer, false).unwrap().is_empty());
}

#[test]
fn block_with_braces_runs_to_its_brace() {
    let mut lexer = Lexer::new("{ x; { } } y");
    assert!(matches!(
        parse_block(&mut lexer, true),
        Err(ParseError::UnexpectedToken(Token::RBrace))
    ));
    let mut lexer = Lexer::new("{ x; y; } z");
    let block = parse_block(&mut lexer, true).unwrap();
    assert_eq!(block.len(), 2);
    assert_eq!(lexer.next(), Some(Token::Identifier("z".to_string())));
    let mut lexer = Lexer::new("x; }");
    assert!(matches!(
        parse_block(&mut lexer, true),
        Err(ParseError::UnexpectedToken(Token::Identifier(_)))
    ));
}

#[test]
fn the_end_of_the_input_closes_a_block() {
    let mut lexer = Lexer::new("{ x;");
    assert_eq!(parse_block(&mut lexer, true).unwrap().len(), 1);
}

#[test]
fn a_block_stops_at_the_first_error() {
    let mut lexer = Lexer::new("let a = 1; let = 2; let c = 3;");
    assert!(matches!(
        parse_block(&mut lexer, false),
        Err(ParseError::UnexpectedToken(Token::Assign))
    ));
}

#[test]
fn copies_are_equal_to_what_they_copy() {
    let source = "if a { let f = (x: int): int => { return x + 1; }; } else if b { t = { k: [1, (2, 3)] }; } else { loop { while c { import p as q from \"m\"; type T = int; break; } } }";
    let statement = stmt(source).unwrap();
    assert_eq!(show(&statement.clone()), show(&statement));
    let expression = expr("f(a.b[1], -*&c, not d == e) ;").unwrap();
    assert_eq!(show(&expression.clone()), show(&expression));
    let error = ParseError::UnexpectedToken(Token::Integer(3));
    assert_eq!(show(&error.clone()), show(&error));
}
