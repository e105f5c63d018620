use mess::parser::ast::{Declaration, EnumVariant, Expression, Operator, Statement, Type};
use mess::parser::error::Error;
use mess::parser::token::Token;
use mess::parser::Parser;

fn parse(code: &str) -> Result<Vec<Declaration>, Error> {
    let mut parser = Parser::new(code);
    parser.parse()
}

fn body_of(declaration: &Declaration) -> &Vec<Statement> {
    match declaration {
        Declaration::Function { body: Some(body), .. } => body,
        other => panic!("not a function with a body: {:?}", other),
    }
}

fn expression(code: &str) -> Result<Expression, Error> {
    let mut parser = Parser::new(code);
    parser.parse_expr(&[Token::Semicolon])
}

#[test]
fn test_parser_intf_simple() {
    let code = "
    intf ToString {
        fun to_string(&this) ~ String;
    }
    ";
    let mut parser = Parser::new(code);
    let decl_list = parser.parse().unwrap();
    println!("{:#?}", decl_list);
    assert_eq!(decl_list.len(), 1);
    match &decl_list[0] {
        Declaration::Interface { name, functions } => {
            assert_eq!(name, "ToString");
            assert_eq!(functions.len(), 1);
            assert_eq!(functions[0].name, "to_string");
            assert_eq!(functions[0].returns, Type::Named(String::from("String")));
            assert_eq!(
                functions[0].arguments,
                vec![(String::from("this"), Type::Ref(Box::new(Type::This)))]
            );
            assert!(functions[0].body.is_none());
        }
        other => panic!("not an interface: {:?}", other),
    }
}

#[test]
fn test_parse_empty_fn() {
    let code = "
    fun main() {
    }
    ";

    let mut parser = Parser::new(code);
    let decl_list_res = parser.parse();
    assert!(decl_list_res.is_ok());
}

#[test]
fn test_parse_simple_fn() {
    let code = "
    fun main() {
        var x: int = 4;
    }
    ";

    let mut parser = Parser::new(code);
    let decl_list_res = parser.parse();
    assert!(decl_list_res.is_ok());
}

#[test]
fn test_parse_simple_expr() {
    let code = "
    fun main() {
        var x: int = (4 / 2) * 3;
    }
    ";

    let mut parser = Parser::new(code);
    let decl_list_res = parser.parse();
    assert!(decl_list_res.is_ok());
}

#[test]
fn test_parse_simple_on() {
    let code = "
    fun main() {
        var x: int = 4;
        on x == 4 {
            x = x - 2;
        } else {
            x = x + 2;
        }
    }
    ";

    let mut parser = Parser::new(code);
    let decl_list = parser.parse().unwrap();
    println!("{:#?}", decl_list);
}

#[test]
fn test_parse_complex_on() {
    let code = "
    fun main() {
        var x: int = 4;
        on x == 4 {
            x = x - 2;
        } else on x <= 2 {
            x = x + 2;
        } else {
            x = 7;
        }
    }
    ";

    let mut parser = Parser::new(code);
    let decl_list = parser.parse().unwrap();
    println!("{:#?}", decl_list);
}

#[test]
fn test_parse_cont_simple() {
    let code = "
    cont Vector {
        pub x: float;
        pub y: float;
    }
    ";

    let mut parser = Parser::new(code);
    let decl_list = parser.parse().unwrap();
    println!("{:#?}", decl_list);
}

#[test]
fn test_parse_cont_fns() {
    let code = "
    cont Vector {
        fun calculate(&this) ~ float {
            return 0;
        }

        pub fun length(&this) ~ float {
            return 2.2;
        }
    }
    ";

    let mut parser = Parser::new(code);
    let decl_list = parser.parse().unwrap();
    println!("{:#?}", decl_list);
}

#[test]
fn test_parse_cont_complex() {
    let code = "
    cont Vector {
        x: float;
        y: float;

        fun calculate(&this) ~ float {
            return 0;
        }

        pub fun length(&this) ~ float {
            return (x + y) * 3;
        }
    }
    ";

    let mut parser = Parser::new(code);
    let decl_list = parser.parse().unwrap();
    println!("{:#?}", decl_list);
}

#[test]
fn test_parse_enum_complex() {
    let code = "
    enum Test {
        Value1,
        Value2(int, String),
        Value3 {
            name: str,
            city: String,
            age: int
        }
    }
    ";

    let mut parser = Parser::new(code);
    let decl_list = parser.parse().unwrap();
    println!("{:#?}", decl_list);
}

#[test]
fn test_parse_fn_call() {
    let code = r#"
    fun main() {
        var x = call("four");
    }
    "#;

    let mut parser = Parser::new(code);
    let decl_list_res = parser.parse();
    assert!(decl_list_res.is_ok());
}

#[test]
fn fn_call_holds_its_string_argument() {
    let decls = parse("fun main() { var x = call(\"four\"); }").unwrap();
    match &body_of(&decls[0])[0] {
        Statement::VarDeclaration { name, var_type, expr } => {
            assert_eq!(name, "x");
            assert_eq!(*var_type, Type::Auto);
            match expr {
                Expression::Call(callee, args) => {
                    assert_eq!(callee, "call");
                    assert_eq!(args.len(), 1);
                    assert!(matches!(&args[0], Expression::StringLiteral(text) if text == "four"));
                }
                other => panic!("not a call: {:?}", other),
            }
        }
        other => panic!("not a declaration: {:?}", other),
    }
}

#[test]
fn simple_expr_is_a_product_of_a_quotient() {
    let decls = parse("fun main() { var x: int = (4 / 2) * 3; }").unwrap();
    match &body_of(&decls[0])[0] {
        Statement::VarDeclaration { name, var_type, expr } => {
            assert_eq!(name, "x");
            assert_eq!(*var_type, Type::Int);
            match expr {
                Expression::Binary(lhs, Operator::Times, rhs) => {
                    assert!(matches!(**rhs, Expression::IntLiteral(3)));
                    match &**lhs {
                        Expression::Binary(four, Operator::Divide, two) => {
                            assert!(matches!(**four, Expression::IntLiteral(4)));
                            assert!(matches!(**two, Expression::IntLiteral(2)));
                        }
                        other => panic!("not a quotient: {:?}", other),
                    }
                }
                other => panic!("not a product: {:?}", other),
            }
        }
        other => panic!("not a declaration: {:?}", other),
    }
}

#[test]
fn minus_after_minus_is_a_sign() {
    match expression("x - -y;").unwrap() {
        Expression::Binary(lhs, Operator::Minus, rhs) => {
            assert!(matches!(*lhs, Expression::Variable(ref name) if name == "x"));
            match *rhs {
                Expression::Unary(Operator::Neg, operand) => {
                    assert!(matches!(*operand, Expression::Variable(ref name) if name == "y"));
                }
                other => panic!("not a negation: {:?}", other),
            }
        }
        other => panic!("not a difference: {:?}", other),
    }
}

#[test]
fn leading_minus_is_a_sign() {
    match expression("-y;").unwrap() {
        Expression::Unary(Operator::Neg, operand) => {
            assert!(matches!(*operand, Expression::Variable(ref name) if name == "y"));
        }
        other => panic!("not a negation: {:?}", other),
    }
}

#[test]
fn leading_plus_is_a_sign() {
    match expression("+y;").unwrap() {
        Expression::Unary(Operator::Pos, operand) => {
            assert!(matches!(*operand, Expression::Variable(ref name) if name == "y"));
        }
        other => panic!("not a sign: {:?}", other),
    }
}

#[test]
fn product_binds_tighter_than_difference() {
    match expression("a * b - c;").unwrap() {
        Expression::Binary(lhs, Operator::Minus, rhs) => {
            assert!(matches!(*lhs, Expression::Binary(_, Operator::Times, _)));
            assert!(matches!(*rhs, Expression::Variable(ref name) if name == "c"));
        }
        other => panic!("not a difference: {:?}", other),
    }
    match expression("a - b * c;").unwrap() {
        Expression::Binary(lhs, Operator::Minus, rhs) => {
            assert!(matches!(*lhs, Expression::Variable(ref name) if name == "a"));
            assert!(matches!(*rhs, Expression::Binary(_, Operator::Times, _)));
        }
        other => panic!("not a difference: {:?}", other),
    }
}

#[test]
fn assignment_binds_loosest() {
    match expression("x = x - 2;").unwrap() {
        Expression::Binary(lhs, Operator::Assign, rhs) => {
            assert!(matches!(*lhs, Expression::Variable(ref name) if name == "x"));
            assert!(matches!(*rhs, Expression::Binary(_, Operator::Minus, _)));
        }
        other => panic!("not an assignment: {:?}", other),
    }
}

#[test]
fn two_operands_without_operator_are_malformed() {
    let result = parse("fun main() { var x: int = 4 3; }");
    assert!(matches!(result, Err(Error::MalformedExpression)));
    assert!(matches!(expression("4 3;"), Err(Error::MalformedExpression)));
}

#[test]
fn operator_without_operands_is_malformed() {
    assert!(matches!(expression("*;"), Err(Error::MalformedExpression)));
    assert!(matches!(expression(";"), Err(Error::MalformedExpression)));
    assert!(matches!(expression("a *;"), Err(Error::MalformedExpression)));
}

#[test]
fn closing_a_group_that_lost_its_parenthesis_is_an_error() {
    assert!(matches!(expression("(a = b);"), Err(Error::Unknown)));
}

#[test]
fn operator_after_operator_must_be_a_sign() {
    assert!(matches!(expression("a + * b;"), Err(Error::Unknown)));
}

#[test]
fn on_expression_takes_the_first_yield() {
    let mut parser = Parser::new("on x == 4 { yield 1; } else { yield 2; }");
    match parser.parse_expr(&[Token::Semicolon]).unwrap() {
        Expression::Condition { expr, cond_body, cond_chain, else_body, yield_expr } => {
            assert!(matches!(*expr, Expression::Binary(_, Operator::Equals, _)));
            assert!(matches!(yield_expr.as_deref(), Some(Expression::IntLiteral(1))));
            assert_eq!(cond_body.len(), 1);
            assert!(matches!(&cond_body[0], Statement::Yield(Some(Expression::IntLiteral(1)))));
            assert!(cond_chain.is_empty());
            assert_eq!(else_body.len(), 1);
            assert!(matches!(&else_body[0], Statement::Yield(Some(Expression::IntLiteral(2)))));
        }
        other => panic!("not a conditional: {:?}", other),
    }
}

#[test]
fn on_expression_without_yield_has_no_value() {
    let mut parser = Parser::new("on x == 4 { x = 1; } else { x = 2; }");
    match parser.parse_expr_on().unwrap() {
        Expression::Condition { yield_expr, cond_body, else_body, .. } => {
            assert!(yield_expr.is_none());
            assert_eq!(cond_body.len(), 1);
            assert_eq!(else_body.len(), 1);
        }
        other => panic!("not a conditional: {:?}", other),
    }
}

#[test]
fn on_statement_keeps_its_branches() {
    let decls = parse(
        "fun main() { on x == 4 { x = x - 2; } else on x <= 2 { x = x + 2; } else { x = 7; } }",
    )
    .unwrap();
    match &body_of(&decls[0])[0] {
        Statement::Condition { expr, cond_body, cond_chain, else_body } => {
            assert!(matches!(expr, Expression::Binary(_, Operator::Equals, _)));
            assert_eq!(cond_body.len(), 1);
            assert_eq!(cond_chain.len(), 1);
            assert!(matches!(&cond_chain[0].0, Expression::Binary(_, Operator::LessThanEquals, _)));
            assert_eq!(cond_chain[0].1.len(), 1);
            assert_eq!(else_body.len(), 1);
        }
        other => panic!("not a conditional: {:?}", other),
    }
}

#[test]
fn nested_on_expressions_keep_their_own_yields() {
    let mut parser =
        Parser::new("on a { yield on b { yield 1; } else { yield 2; } } else { yield 3; }");
    match parser.parse_expr_on().unwrap() {
        Expression::Condition { yield_expr, .. } => match yield_expr.as_deref() {
            Some(Expression::Condition { yield_expr: inner, .. }) => {
                assert!(matches!(inner.as_deref(), Some(Expression::IntLiteral(1))));
            }
            other => panic!("not a nested conditional: {:?}", other),
        },
        other => panic!("not a conditional: {:?}", other),
    }
}

#[test]
fn else_needs_a_block() {
    let result = parse("fun main() { on x { } else x; }");
    assert!(matches!(result, Err(Error::ExpectedOpenBlock)));
}

#[test]
fn statements_of_every_kind() {
    let decls = parse(
        "fun main() { while x < 3 { x += 1; break; continue; } return; return x; yield; }",
    )
    .unwrap();
    let body = body_of(&decls[0]);
    assert_eq!(body.len(), 4);
    match &body[0] {
        Statement::While(condition, statements) => {
            assert!(matches!(condition, Expression::Binary(_, Operator::LessThan, _)));
            assert_eq!(statements.len(), 3);
            assert!(matches!(
                &statements[0],
                Statement::ExpressionStmt(Expression::Binary(_, Operator::AddAssign, _))
            ));
            assert!(matches!(&statements[1], Statement::Break));
            assert!(matches!(&statements[2], Statement::Continue));
        }
        other => panic!("not a loop: {:?}", other),
    }
    assert!(matches!(&body[1], Statement::Return(None)));
    assert!(matches!(&body[2], Statement::Return(Some(Expression::Variable(_)))));
    assert!(matches!(&body[3], Statement::Yield(None)));
}

#[test]
fn function_with_modifiers_arguments_and_return_type() {
    let decls = parse("pub ext fun add(a: int, b: &float) ~ (int, bool);").unwrap();
    match &decls[0] {
        Declaration::Function { public, external, name, returns, arguments, body } => {
            assert!(*public);
            assert!(*external);
            assert_eq!(name, "add");
            assert_eq!(*returns, Type::Tuple(vec![Type::Int, Type::Bool]));
            assert_eq!(
                *arguments,
                vec![
                    (String::from("a"), Type::Int),
                    (String::from("b"), Type::Ref(Box::new(Type::Float))),
                ]
            );
            assert!(body.is_none());
        }
        other => panic!("not a function: {:?}", other),
    }
}

#[test]
fn function_without_return_type_is_void() {
    let decls = parse("fun main() { }").unwrap();
    match &decls[0] {
        Declaration::Function { public, external, returns, arguments, body, .. } => {
            assert!(!*public);
            assert!(!*external);
            assert_eq!(*returns, Type::Void);
            assert!(arguments.is_empty());
            assert!(body.as_ref().unwrap().is_empty());
        }
        other => panic!("not a function: {:?}", other),
    }
}

#[test]
fn container_members_keep_one_type_per_name() {
    let decls = parse("pub cont V { y: int; x: float; x: bool; fun f() { } }").unwrap();
    match &decls[0] {
        Declaration::Container { public, name, member_variables, member_functions } => {
            assert!(*public);
            assert_eq!(name, "V");
            assert_eq!(
                *member_variables,
                vec![(String::from("x"), Type::Bool), (String::from("y"), Type::Int)]
            );
            assert_eq!(member_functions.len(), 1);
            assert!(!member_functions[0].public);
        }
        other => panic!("not a container: {:?}", other),
    }
}

#[test]
fn enum_variants_of_every_kind() {
    let decls = parse("enum Test { Value1, Value2(int, String), Value3 { name: str, age: int } }")
        .unwrap();
    match &decls[0] {
        Declaration::Enum { name, variants } => {
            assert_eq!(name, "Test");
            assert_eq!(variants.len(), 3);
            assert!(matches!(&variants[0], EnumVariant::Empty(name) if name == "Value1"));
            match &variants[1] {
                EnumVariant::Tuple(name, types) => {
                    assert_eq!(name, "Value2");
                    assert_eq!(*types, vec![Type::Int, Type::Named(String::from("String"))]);
                }
                other => panic!("not a tuple variant: {:?}", other),
            }
            match &variants[2] {
                EnumVariant::Cont(name, members) => {
                    assert_eq!(name, "Value3");
                    assert_eq!(
                        *members,
                        vec![
                            (String::from("age"), Type::Int),
                            (String::from("name"), Type::Named(String::from("str"))),
                        ]
                    );
                }
                other => panic!("not a container variant: {:?}", other),
            }
        }
        other => panic!("not an enum: {:?}", other),
    }
}

#[test]
fn enum_variants_need_commas() {
    assert!(matches!(parse("enum T { A B }"), Err(Error::Unknown)));
    assert!(matches!(parse("enum T { A(int) B }"), Err(Error::ExpectedComma)));
}

#[test]
fn imports_take_the_last_part_as_their_name() {
    let decls = parse("import a::b, c = d, e::{f, g::h};").unwrap();
    match &decls[0] {
        Declaration::Import(imports) => {
            assert_eq!(
                *imports,
                vec![
                    (String::from("a::b"), String::from("b")),
                    (String::from("c"), String::from("d")),
                    (String::from("e::f"), String::from("f")),
                    (String::from("e::g::h"), String::from("h")),
                ]
            );
        }
        other => panic!("not an import: {:?}", other),
    }
}

#[test]
fn an_import_without_paths_imports_nothing() {
    let decls = parse("import ; import a;").unwrap();
    assert!(matches!(&decls[0], Declaration::Import(imports) if imports.is_empty()));
    assert!(matches!(&decls[1], Declaration::Import(imports) if imports.len() == 1));
}

#[test]
fn malformed_imports() {
    assert!(matches!(parse("import"), Err(Error::Unknown)));
    assert!(matches!(parse("import ,"), Err(Error::MalformedImport)));
    assert!(matches!(parse("import a"), Err(Error::Unknown)));
    assert!(matches!(parse("import a{b};"), Err(Error::MalformedImport)));
    assert!(matches!(parse("import a + b;"), Err(Error::MalformedImport)));
    assert!(matches!(parse("import a = 3;"), Err(Error::ExpectedIdentifier)));
}

#[test]
fn every_expected_error() {
    assert!(matches!(parse("mod m { }"), Err(Error::Unimplemented("mod decl"))));
    assert!(matches!(parse("var"), Err(Error::Unknown)));
    assert!(matches!(parse("pub"), Err(Error::Unknown)));
    assert!(matches!(parse("fun 3"), Err(Error::ExpectedIdentifier)));
    assert!(matches!(parse("fun f {"), Err(Error::ExpectedOpenParan)));
    assert!(matches!(parse("fun f(a) { }"), Err(Error::ExpectedColon)));
    assert!(matches!(parse("fun f(a: int b) { }"), Err(Error::ExpectedCloseParan)));
    assert!(matches!(parse("fun f(a: 3) { }"), Err(Error::ExpectedType)));
    assert!(matches!(parse("fun f() ~ (int; bool) { }"), Err(Error::ExpectedType)));
    assert!(matches!(parse("fun f() { var 3 = 4; }"), Err(Error::ExpectedIdentifier)));
    assert!(matches!(parse("fun f() { var x 4; }"), Err(Error::ExpectedAssign)));
    assert!(matches!(parse("fun f() { break }"), Err(Error::ExpectedSemicolon)));
    assert!(matches!(parse("fun f() { continue }"), Err(Error::ExpectedSemicolon)));
    assert!(matches!(parse("intf I { var }"), Err(Error::ExpectedFn)));
    assert!(matches!(parse("intf I { fun f() 3 }"), Err(Error::ExpectedSemicolon)));
    assert!(matches!(parse("intf 3"), Err(Error::ExpectedIdentifier)));
    assert!(matches!(parse("intf I ;"), Err(Error::ExpectedOpenBlock)));
    assert!(matches!(parse("cont C { fun f(); }"), Err(Error::ExpectedOpenBlock)));
    assert!(matches!(parse("cont C { x: int }"), Err(Error::ExpectedSemicolon)));
    assert!(matches!(parse("pub pub cont C { }"), Err(Error::ExpectedCont)));
    assert!(matches!(parse("pub enum E { }"), Err(Error::ExpectedEnum)));
    assert!(matches!(parse("pub import a;"), Err(Error::ExpectedImport)));
    assert!(matches!(parse("pub intf I { }"), Err(Error::ExpectedIntf)));
    assert!(matches!(parse("fun f() { x = 99999999999999999999; }"), Err(Error::Unknown)));
}

#[test]
fn single_parsers_report_their_keyword() {
    assert!(matches!(Parser::new("x").parse_decl_fn(), Err(Error::ExpectedFn)));
    assert!(matches!(Parser::new("x").parse_decl_enum(), Err(Error::ExpectedEnum)));
    assert!(matches!(Parser::new("x").parse_decl_intf(), Err(Error::ExpectedIntf)));
    assert!(matches!(Parser::new("x").parse_decl_cont(), Err(Error::ExpectedCont)));
    assert!(matches!(Parser::new("x").parse_decl_import(), Err(Error::ExpectedImport)));
    assert!(matches!(Parser::new("x").parse_stmt_var_decl(), Err(Error::ExpectedVar)));
    assert!(matches!(Parser::new("x").parse_stmt_on(), Err(Error::ExpectedOn)));
    assert!(matches!(Parser::new("x").parse_expr_on(), Err(Error::ExpectedOn)));
    assert!(matches!(Parser::new("x").parse_stmt_while(), Err(Error::ExpectedWhile)));
    assert!(matches!(Parser::new("x").parse_decl_mod(), Err(Error::Unimplemented("mod decl"))));
}

#[test]
fn literals_of_every_kind() {
    assert!(matches!(expression("9223372036854775807;"), Ok(Expression::IntLiteral(i64::MAX))));
    assert!(matches!(expression("9223372036854775808;"), Err(Error::Unknown)));
    assert!(matches!(expression("true;"), Ok(Expression::BoolLiteral(true))));
    assert!(matches!(expression("false;"), Ok(Expression::BoolLiteral(false))));
    assert!(matches!(expression("2.25;"), Ok(Expression::FloatLiteral(ref digits)) if digits == "2.25"));
    assert!(matches!(expression("\"a\\\"b\";"), Ok(Expression::StringLiteral(ref text)) if text == "a\\\"b"));
}

#[test]
fn calls_take_their_arguments() {
    match expression("f(1, g(x), a + b);").unwrap() {
        Expression::Call(name, args) => {
            assert_eq!(name, "f");
            assert_eq!(args.len(), 3);
            assert!(matches!(&args[0], Expression::IntLiteral(1)));
            assert!(matches!(&args[1], Expression::Call(inner, inner_args) if inner == "g" && inner_args.len() == 1));
            assert!(matches!(&args[2], Expression::Binary(_, Operator::Plus, _)));
        }
        other => panic!("not a call: {:?}", other),
    }
}

#[test]
fn types_compare_by_structure() {
    assert_eq!(Type::Tuple(vec![Type::Int, Type::Named(String::from("a"))]).clone(),
        Type::Tuple(vec![Type::Int, Type::Named(String::from("a"))]));
    assert_ne!(Type::Tuple(vec![Type::Int]), Type::Tuple(vec![Type::Int, Type::Int]));
    assert_ne!(Type::Ref(Box::new(Type::Int)), Type::Deref(Box::new(Type::Int)));
    assert_ne!(Type::Named(String::from("a")), Type::Named(String::from("b")));
}

#[test]
fn operators_have_their_precedence() {
    assert_eq!(Operator::from(Token::Tilde), Some(Operator::Deref));
    assert_eq!(Operator::from(Token::Plus), Some(Operator::Plus));
    assert_eq!(Operator::from(Token::Semicolon), None);
    assert_eq!(Operator::Equals.prec(), 0);
    assert_eq!(Operator::Minus.prec(), 1);
    assert_eq!(Operator::Plus.prec(), 2);
    assert_eq!(Operator::Times.prec(), 3);
    assert_eq!(Operator::Ref.prec(), 4);
    assert_eq!(Operator::Neg.prec(), 5);
    assert_eq!(Operator::Assign.prec(), -1);
    assert!(Operator::Neg.unary());
    assert!(Operator::Not.unary());
    assert!(!Operator::Minus.unary());
}

#[test]
fn the_parser_knows_where_its_token_stands() {
    let mut parser = Parser::new("fun  main");
    assert_eq!(parser.current_range(), Some((0, 3)));
    assert!(matches!(parser.parse_decl_fn(), Err(Error::Unknown)));
    assert_eq!(parser.current_range(), None);
    let parser = Parser::new("");
    assert_eq!(parser.current_range(), None);
}

#[test]
fn members_stand_in_the_order_of_their_names() {
    let decls = parse("cont C { b: int; a: int; ab: int; B: int; aa: int; c: int; }").unwrap();
    match &decls[0] {
        Declaration::Container { member_variables, .. } => {
            let names: Vec<&str> = member_variables.iter().map(|member| member.0.as_str()).collect();
            assert_eq!(names, vec!["B", "a", "aa", "ab", "b", "c"]);
        }
        other => panic!("not a container: {:?}", other),
    }
    assert!(mess::util::text::text_before("a", "b"));
    assert!(mess::util::text::text_before("a", "ab"));
    assert!(mess::util::text::text_before("", "a"));
    assert!(!mess::util::text::text_before("a", "a"));
    assert!(!mess::util::text::text_before("b", "a"));
    assert!(!mess::util::text::text_before("a", ""));
    assert!(mess::util::text::text_before("z", "\u{e9}"));
}
