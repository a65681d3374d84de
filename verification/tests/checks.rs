use sol::ast::{Expression, Function, FunctionParameter, Operator, Statement};
use sol::lexer::{tokenize, Span, Token, TokenKind};
use sol::parser::error::ParserError;
use sol::parser::{
    insert_field, is_float_literal, parse, parse_integer, same_text, text_of, Parser,
};
use sol::typechecker::types::{DefinedType, TypecheckerScope};
use sol::typechecker::{
    check_program_types, recursively_find_all_return, type_from_name, typecheck_infix,
    typecheck_prefix, Typechecker, TypecheckerError,
};
use sol::types::Literal;

fn floats(input: &str, tokens: &[Token]) -> Vec<Option<u64>> {
    tokens
        .iter()
        .map(|token| {
            if is_float_literal(input, token) {
                text_of(input, token).parse::<f64>().ok().map(f64::to_bits)
            } else {
                None
            }
        })
        .collect()
}

fn parsed(input: &str) -> Result<Vec<Statement>, ParserError> {
    let tokens = tokenize(input).unwrap();
    let values = floats(input, &tokens);
    parse(tokens, values, input)
}

fn checked(input: &str) -> Result<(), TypecheckerError> {
    check_program_types(&parsed(input).unwrap())
}

fn mismatch(expected: &str, got: &str) -> Result<(), TypecheckerError> {
    Err(TypecheckerError::TypeMismatch {
        expected: expected.to_owned(),
        got: got.to_owned(),
    })
}

fn not_found(val: &str, what: &'static str) -> Result<(), TypecheckerError> {
    Err(TypecheckerError::NotFound { val: val.to_owned(), what })
}

#[test]
fn well_typed_programs_pass() {
    assert_eq!(checked("let x = 1; let y = x + 2; let z = y * 1.5;"), Ok(()));
    assert_eq!(checked("let x: int = 1; let s: string = \"a\"; const b: int = 3; let t: bool = true;"), Ok(()));
    assert_eq!(checked("let f: float = 1 + 2.0;"), Ok(()));
    assert_eq!(checked("let mut x = 1; x = 2;"), Ok(()));
    assert_eq!(checked("if 1 < 2 { print(1); } else if true { } else { }"), Ok(()));
    assert_eq!(checked("loop { break; }"), Ok(()));
    assert_eq!(checked("fn add(a: int, b: int) -> int { return a + b; } let r: int = add(1, 2);"), Ok(()));
    assert_eq!(checked("fn nothing() { } let n = nothing();"), Ok(()));
    assert_eq!(checked("let o = {a: 1, b: {c: true}}; let t: bool = o.b.c; o.a = 2;"), Ok(()));
    assert_eq!(checked("let b = !true; let n = -1; let m = -1.5;"), Ok(()));
    assert_eq!(checked("let e = \"a\" == \"b\"; let d = 1 != 2;"), Ok(()));
}

#[test]
fn mismatches_are_found() {
    assert_eq!(checked("let x: int = 1.5;"), mismatch("int", "F64"));
    assert_eq!(checked("let x: string = true;"), mismatch("string", "Bool"));
    assert_eq!(checked("let mut x = 1; x = \"a\";"), mismatch("I64", "String"));
    assert_eq!(checked("if 1 { }"), mismatch("bool", "I64"));
    assert_eq!(checked("let a = !1;"), mismatch("bool", "I64"));
    assert_eq!(checked("let a = -true;"), mismatch("numeric", "Bool"));
    assert_eq!(checked("let a = 1 == 1.0;"), mismatch("I64", "F64"));
    assert_eq!(checked("let o = {a: 1}; o.a = true;"), mismatch("I64", "Bool"));
    assert_eq!(
        checked("fn f() -> int { return true; }"),
        mismatch("I64", "Bool")
    );
    assert_eq!(
        checked("let a = 1 + true;"),
        Err(TypecheckerError::TypeMismatchMulti {
            expected: "numeric".to_owned(),
            got: vec!["I64".to_owned(), "Bool".to_owned()],
        })
    );
    assert_eq!(
        checked("let a = \"a\" < 1;"),
        Err(TypecheckerError::TypeMismatchMulti {
            expected: "numeric".to_owned(),
            got: vec!["String".to_owned(), "I64".to_owned()],
        })
    );
    assert_eq!(
        checked("fn f(a: int) { if a > 1 { return 1; } return true; }"),
        Err(TypecheckerError::TypeMismatchBothWrong {
            mismatch1: "I64".to_owned(),
            mismatch2: "Bool".to_owned(),
        })
    );
}

#[test]
fn unknown_names_are_found() {
    assert_eq!(checked("let a = b;"), not_found("b", "variable"));
    assert_eq!(checked("a = 1;"), not_found("a", "variable"));
    assert_eq!(checked("let a = f();"), not_found("f", "function"));
    assert_eq!(checked("let a = o.x;"), not_found("o", "variable"));
    assert_eq!(checked("let o = {x: 1}; let a = o.y;"), not_found("y", "field"));
    assert_eq!(checked("{ let a = 1; } let b = a;"), not_found("a", "variable"));
    assert_eq!(
        checked("let x: number = 1;"),
        Err(TypecheckerError::UnexpectedType { got: "number".to_owned() })
    );
    assert_eq!(
        checked("fn f(a: thing) { }"),
        Err(TypecheckerError::UnexpectedType { got: "thing".to_owned() })
    );
    assert_eq!(
        checked("let n = 1; let a = n.x;"),
        Err(TypecheckerError::UnexpectedType { got: "I64".to_owned() })
    );
}

#[test]
fn object_types_compare_with_their_order() {
    assert_eq!(checked("let mut o = {a: 1, b: true}; o = {a: 2, b: false};"), Ok(()));
    assert_eq!(
        checked("let mut o = {a: 1, b: true}; o = {b: false, a: 2};"),
        mismatch(
            "Object { fields: {\"a\": I64, \"b\": Bool} }",
            "Object { fields: {\"b\": Bool, \"a\": I64} }"
        )
    );
    assert_eq!(
        checked("let mut o = {}; o = {a: {}};"),
        mismatch("Object { fields: {} }", "Object { fields: {\"a\": Object { fields: {} }} }")
    );
}

#[test]
fn types_have_names_and_texts() {
    assert_eq!(type_from_name("int"), Ok(DefinedType::I64));
    assert_eq!(type_from_name("float"), Ok(DefinedType::F64));
    assert_eq!(type_from_name("bool"), Ok(DefinedType::Bool));
    assert_eq!(type_from_name("string"), Ok(DefinedType::String));
    assert_eq!(
        type_from_name("Int"),
        Err(TypecheckerError::UnexpectedType { got: "Int".to_owned() })
    );
    assert_eq!(DefinedType::Nil.describe(), "Nil");
    assert_eq!(DefinedType::Array(Box::new(DefinedType::String)).describe(), "Array(String)");
    let object = DefinedType::Object {
        fields: vec![("x".to_owned(), DefinedType::F64)],
    };
    assert_eq!(object.describe(), "Object { fields: {\"x\": F64} }");
    assert!(object.same(&object.duplicate()));
    assert!(object == object.clone());
    assert!(!object.same(&DefinedType::Object { fields: Vec::new() }));
    assert!(DefinedType::Array(Box::new(DefinedType::Nil)) != DefinedType::Array(Box::new(DefinedType::Bool)));
}

#[test]
fn operators_have_types() {
    assert_eq!(typecheck_prefix(Operator::Minus, DefinedType::F64), Ok(DefinedType::F64));
    assert_eq!(typecheck_prefix(Operator::Plus, DefinedType::I64), Ok(DefinedType::I64));
    assert_eq!(typecheck_prefix(Operator::Not, DefinedType::Bool), Ok(DefinedType::Bool));
    assert!(typecheck_prefix(Operator::Multiply, DefinedType::I64).is_err());
    assert_eq!(
        typecheck_infix(Operator::Plus, DefinedType::I64, DefinedType::I64),
        Ok(DefinedType::I64)
    );
    assert_eq!(
        typecheck_infix(Operator::Divide, DefinedType::I64, DefinedType::F64),
        Ok(DefinedType::F64)
    );
    assert_eq!(
        typecheck_infix(Operator::Multiply, DefinedType::F64, DefinedType::F64),
        Ok(DefinedType::F64)
    );
    assert_eq!(
        typecheck_infix(Operator::LessThanOrEqual, DefinedType::F64, DefinedType::I64),
        Ok(DefinedType::Bool)
    );
    assert_eq!(
        typecheck_infix(Operator::Equal, DefinedType::String, DefinedType::String),
        Ok(DefinedType::Bool)
    );
    assert!(typecheck_infix(Operator::Not, DefinedType::Bool, DefinedType::Bool).is_err());
}

#[test]
fn arrays_have_the_type_of_their_elements() {
    let checker = Typechecker::new();
    let array = |elements: Vec<Expression>| Expression::Array { this: elements };
    let one = || Expression::Literal(Literal::Integer(1));
    let yes = || Expression::Literal(Literal::Boolean(true));
    assert_eq!(
        checker.typecheck_expression(&array(vec![one(), one()])),
        Ok(DefinedType::Array(Box::new(DefinedType::I64)))
    );
    assert_eq!(
        checker.typecheck_expression(&array(Vec::new())),
        Ok(DefinedType::Array(Box::new(DefinedType::Nil)))
    );
    assert_eq!(
        checker.typecheck_expression(&array(vec![one(), one(), yes(), one()])),
        Err(TypecheckerError::TypeMismatch {
            expected: "I64".to_owned(),
            got: "Bool".to_owned()
        })
    );
}

#[test]
fn returns_are_found_in_every_block() {
    let statements = parsed(
        "if true { return 1; } else if false { return 2; } else { return 3; } loop { { return 4; } } let x = 5; return 6; fn f() { return 7; }",
    )
    .unwrap();
    let mut found = Vec::new();
    recursively_find_all_return(&statements, &mut found);
    let values: Vec<Expression> = [1, 2, 3, 4, 6]
        .iter()
        .map(|n| Expression::Literal(Literal::Integer(*n)))
        .collect();
    assert_eq!(found, values.iter().collect::<Vec<_>>());
}

#[test]
fn parameters_stay_defined_behind_the_function() {
    // the parameters are defined in the scope in which the function stands
    assert_eq!(checked("fn f(a: int) { } let b = a + 1;"), Ok(()));
}

#[test]
fn a_scope_defines_types_and_functions() {
    let mut scope = TypecheckerScope::new();
    assert_eq!(scope.get_type_for("x"), None);
    scope.define("x".to_owned(), DefinedType::I64);
    scope.define_function_return("x".to_owned(), DefinedType::Bool);
    assert_eq!(scope.get_type_for("x"), Some(&DefinedType::I64));
    assert_eq!(scope.get_function_return_for("x"), Some(&DefinedType::Bool));
    scope.define("x".to_owned(), DefinedType::String);
    assert_eq!(scope.get_type_for("x"), Some(&DefinedType::String));
    assert_eq!(scope.get_function_return_for("y"), None);
}

#[test]
fn a_function_body_that_is_no_block_is_an_error() {
    let function = Function::new(
        "f".to_owned(),
        vec![FunctionParameter { name: "a".to_owned(), type_annotation: "int".to_owned() }],
        Box::new(Statement::Break),
        None,
    );
    assert_eq!(
        check_program_types(&vec![Statement::Function(function)]),
        not_found("f", "function body")
    );
}

#[test]
fn the_parser_says_where_it_stopped() {
    assert_eq!(
        parsed("let x = ;"),
        Err(ParserError::UnexpectedToken {
            token: Token::new(TokenKind::EndOfLine, Span { start: 8, end: 9, line: 1 })
        })
    );
    match parsed("let x = ;") {
        Err(error) => assert_eq!(error.token().unwrap().span(), Span { start: 8, end: 9, line: 1 }),
        Ok(_) => panic!(),
    }
    assert_eq!(
        parsed("let x"),
        Err(ParserError::ExpectedTokenNotFound { expected: TokenKind::Assignment })
    );
    assert_eq!(
        parsed("let x = 1"),
        Err(ParserError::UnexpectedToken {
            token: Token::new(TokenKind::EndOfFile, Span { start: 0, end: 0, line: 0 })
        })
    );
    match parsed("let = 1;") {
        Err(ParserError::InvalidToken { expected, actual }) => {
            assert_eq!(expected, TokenKind::Identifier);
            assert_eq!(*actual.kind(), TokenKind::Assignment);
            assert_eq!(actual.span(), Span { start: 4, end: 5, line: 1 });
        }
        other => panic!("{:?}", other),
    }
    match parsed("let x = 99999999999999999999;") {
        Err(ParserError::InvalidInteger { token }) => {
            assert_eq!(token.span(), Span { start: 8, end: 28, line: 1 })
        }
        other => panic!("{:?}", other),
    }
    assert!(matches!(parsed("1;"), Err(ParserError::UnexpectedToken { .. })));
    assert!(matches!(parsed("fn f(a) { }"), Err(ParserError::InvalidToken { .. })));
    assert!(matches!(parsed("{ let x = 1;"), Err(ParserError::UnexpectedToken { .. })));
}

#[test]
fn a_float_needs_its_value() {
    let input = "let x = 1.5;";
    let tokens = tokenize(input).unwrap();
    assert!(is_float_literal(input, &tokens[3]));
    assert!(!is_float_literal(input, &tokens[1]));
    match parse(tokens.clone(), Vec::new(), input) {
        Err(ParserError::InvalidFloat { token }) => {
            assert_eq!(token.span(), Span { start: 8, end: 11, line: 1 })
        }
        other => panic!("{:?}", other),
    }
    let ast = parse(tokens, vec![None, None, None, Some(1.5f64.to_bits()), None], input).unwrap();
    assert_eq!(
        ast,
        vec![Statement::Let {
            name: "x".to_owned(),
            value: Box::new(Expression::Literal(Literal::Float(1.5f64.to_bits()))),
            is_mutable: false,
            type_annotation: None,
        }]
    );
    let quoted = "let s = \"1.5\";";
    assert!(!is_float_literal(quoted, &tokenize(quoted).unwrap()[3]));
}

#[test]
fn operators_of_one_level_group_to_the_left() {
    let ast = parsed("let x = 1 - 2 - 3;").unwrap();
    let number = |n: i64| Box::new(Expression::Literal(Literal::Integer(n)));
    assert_eq!(
        ast,
        vec![Statement::Let {
            name: "x".to_owned(),
            value: Box::new(Expression::Infix {
                op: Operator::Minus,
                lhs: Box::new(Expression::Infix {
                    op: Operator::Minus,
                    lhs: number(1),
                    rhs: number(2),
                }),
                rhs: number(3),
            }),
            is_mutable: false,
            type_annotation: None,
        }]
    );
    let ast = parsed("let x = 1 + 2 * 3 > 4 == true;").unwrap();
    assert_eq!(
        ast,
        vec![Statement::Let {
            name: "x".to_owned(),
            value: Box::new(Expression::Infix {
                op: Operator::Equal,
                lhs: Box::new(Expression::Infix {
                    op: Operator::GreaterThan,
                    lhs: Box::new(Expression::Infix {
                        op: Operator::Plus,
                        lhs: number(1),
                        rhs: Box::new(Expression::Infix {
                            op: Operator::Multiply,
                            lhs: number(2),
                            rhs: number(3),
                        }),
                    }),
                    rhs: number(4),
                }),
                rhs: Box::new(Expression::Literal(Literal::Boolean(true))),
            }),
            is_mutable: false,
            type_annotation: None,
        }]
    );
}

#[test]
fn a_semicolon_between_statements_ends_the_program() {
    let ast = parsed("let a = 1; ; let b = 2;").unwrap();
    assert_eq!(ast.len(), 1);
}

#[test]
fn a_field_written_twice_keeps_its_place() {
    let ast = parsed("let o = {a: 1, b: 2, a: 3};").unwrap();
    let number = |n: i64| Expression::Literal(Literal::Integer(n));
    assert_eq!(
        ast,
        vec![Statement::Let {
            name: "o".to_owned(),
            value: Box::new(Expression::Object {
                fields: vec![("a".to_owned(), number(3)), ("b".to_owned(), number(2))]
            }),
            is_mutable: false,
            type_annotation: None,
        }]
    );
    let mut fields = vec![("x".to_owned(), number(1))];
    insert_field(&mut fields, "y".to_owned(), number(2));
    insert_field(&mut fields, "x".to_owned(), number(3));
    assert_eq!(fields, vec![("x".to_owned(), number(3)), ("y".to_owned(), number(2))]);
}

#[test]
fn integers_are_parsed_exactly() {
    let chars = |s: &str| s.chars().collect::<Vec<char>>();
    assert_eq!(parse_integer(&chars("0")), Some(0));
    assert_eq!(parse_integer(&chars("007")), Some(7));
    assert_eq!(parse_integer(&chars("-12")), Some(-12));
    assert_eq!(parse_integer(&chars("+12")), Some(12));
    assert_eq!(parse_integer(&chars("9223372036854775807")), Some(i64::MAX));
    assert_eq!(parse_integer(&chars("-9223372036854775808")), Some(i64::MIN));
    assert_eq!(parse_integer(&chars("9223372036854775808")), None);
    assert_eq!(parse_integer(&chars("-9223372036854775809")), None);
    assert_eq!(parse_integer(&chars("")), None);
    assert_eq!(parse_integer(&chars("-")), None);
    assert_eq!(parse_integer(&chars("+")), None);
    assert_eq!(parse_integer(&chars("1a")), None);
    assert_eq!(parse_integer(&chars(" 1")), None);
    assert_eq!(parse_integer(&chars("--1")), None);
}

#[test]
fn texts_and_tokens() {
    assert!(same_text("abc", "abc"));
    assert!(!same_text("abc", "abd"));
    let token = Token::new(TokenKind::Identifier, Span { start: 2, end: 4, line: 1 });
    assert_eq!(text_of("héllo", &token), "ll");
    assert_eq!(token.text("héllo"), "ll");
    let outside = Token::new(TokenKind::Identifier, Span { start: 2, end: 40, line: 1 });
    assert_eq!(text_of("hello", &outside), "");
    let backwards = Token::new(TokenKind::Identifier, Span { start: 4, end: 2, line: 1 });
    assert_eq!(text_of("hello", &backwards), "");
}

#[test]
fn the_parser_hands_out_statements_one_by_one() {
    let input = "let a = 1; b();";
    let tokens = tokenize(input).unwrap();
    let mut parser = Parser::new(tokens, input);
    assert!(matches!(parser.next(), Some(Ok(Statement::Let { .. }))));
    assert!(matches!(parser.next(), Some(Ok(Statement::Expression(_)))));
    assert!(parser.next().is_none());
    let tokens = tokenize(input).unwrap();
    let mut parser = Parser::new(tokens, input);
    assert_eq!(parser.consume(TokenKind::Identifier).map(|t| t.span().end), Ok(3));
    assert_eq!(
        parser.consume(TokenKind::Colon),
        Err(ParserError::InvalidToken {
            expected: TokenKind::Colon,
            actual: Token::new(TokenKind::Identifier, Span { start: 4, end: 5, line: 1 }),
        })
    );
    // the token that was not expected is taken all the same
    assert_eq!(parser.consume(TokenKind::Assignment).map(|t| t.span().start), Ok(6));
    for _ in 0..6 {
        let _ = parser.consume(TokenKind::Colon);
    }
    // at the end of the tokens the parser stays where it is
    assert_eq!(
        parser.consume(TokenKind::Colon),
        Err(ParserError::ExpectedTokenNotFound { expected: TokenKind::Colon })
    );
    assert!(parser.next().is_none());
}

#[test]
fn binding_powers() {
    assert_eq!(Operator::Minus.prefix_binding_power(), ((), 51));
    assert_eq!(Operator::Not.prefix_binding_power(), ((), 51));
    assert_eq!(Operator::Equal.infix_binding_power(), Some((5, 6)));
    assert_eq!(Operator::NotEqual.infix_binding_power(), Some((5, 6)));
    assert_eq!(Operator::LessThan.infix_binding_power(), Some((7, 8)));
    assert_eq!(Operator::GreaterThanOrEqual.infix_binding_power(), Some((7, 8)));
    assert_eq!(Operator::Plus.infix_binding_power(), Some((9, 10)));
    assert_eq!(Operator::Minus.infix_binding_power(), Some((9, 10)));
    assert_eq!(Operator::Multiply.infix_binding_power(), Some((11, 12)));
    assert_eq!(Operator::Divide.infix_binding_power(), Some((11, 12)));
    assert_eq!(Operator::Not.infix_binding_power(), None);
}
