use sol::ast::Statement;
use sol::compiler::Compiler;
use sol::lexer::{tokenize, Token};
use sol::parser::{is_float_literal, text_of, Parser};

fn floats(input: &str, tokens: &[Token]) -> Vec<Option<u64>> {
    tokens
        .iter()
        .map(|token| {
            if is_float_literal(input, token) {
                text_of(input, token).parse::<f64>().ok().map(f64::to_bits)
            } else {
                None
            }
        })
        .collect()
}

/// The statements up to the first error, as a loop over the parser gives them.
fn statements(input: &str) -> Vec<Statement> {
    let tokens = tokenize(input).unwrap();
    let values = floats(input, &tokens);
    let mut parser = Parser::new(tokens, input).with_floats(values);
    let mut statements = Vec::new();
    while let Some(statement) = parser.next() {
        match statement {
            Ok(statement) => statements.push(statement),
            Err(_) => break,
        }
    }
    statements
}

fn compiled(input: &str) -> String {
    let program = Compiler::new().compile(&statements(input)).unwrap();
    format!("{:?}", program)
}

#[test]
fn compiler_small_input() {
    let input = r#"
let x = 3;
let y = 4;
let z = x + y;

fn print() {}

fn test(a: int) {
    let y = 1.3 + a;
    {
        let z = y + 3;
    }

    let z = y + 2;
}

fn main() {
    let x = 1.3 + 3;
    {
	print("Hello");
	print(x);
	let y = test(4);
    }

    print(x);
}


main();
        "#;
    assert_eq!(compiled(input), r#"CompiledProgram { functions: [Function { name: "print", code: [FunctionReturn], register_count: 1 }, Function { name: "test", code: [LoadLiteral { dest: 2, src: 2 }, Add { dest: 3, lhs: 2, rhs: 1 }, LoadLiteral { dest: 4, src: 0 }, Add { dest: 5, lhs: 3, rhs: 4 }, LoadLiteral { dest: 4, src: 3 }, Add { dest: 5, lhs: 3, rhs: 4 }, FunctionReturn], register_count: 6 }, Function { name: "main", code: [LoadLiteral { dest: 1, src: 2 }, LoadLiteral { dest: 2, src: 0 }, Add { dest: 3, lhs: 1, rhs: 2 }, LoadLiteral { dest: 4, src: 4 }, Copy { dest: 5, src: 4 }, LoadFunction { dest: 6, src: 0 }, CallFunction { src: 6, arg_count: 1, return_val: 7 }, Copy { dest: 8, src: 3 }, LoadFunction { dest: 9, src: 0 }, CallFunction { src: 9, arg_count: 1, return_val: 10 }, LoadLiteral { dest: 11, src: 1 }, Copy { dest: 12, src: 11 }, LoadFunction { dest: 13, src: 1 }, CallFunction { src: 13, arg_count: 1, return_val: 14 }, Copy { dest: 4, src: 3 }, LoadFunction { dest: 5, src: 0 }, CallFunction { src: 5, arg_count: 1, return_val: 6 }, FunctionReturn], register_count: 15 }], global_code: [LoadLiteral { dest: 1, src: 0 }, LoadLiteral { dest: 2, src: 1 }, Add { dest: 3, lhs: 1, rhs: 2 }, LoadFunction { dest: 4, src: 2 }, CallFunction { src: 4, arg_count: 0, return_val: 5 }], global_register_count: 6, literals: [Integer(3), Integer(4), Float(4608533498688228557), Integer(2), String("Hello")] }"#);
}

#[test]
fn compiler_variable_mutation() {
    let input = r#"
let mut x = 3;
x = 2;
        "#;
    assert_eq!(compiled(input), r#"CompiledProgram { functions: [], global_code: [LoadLiteral { dest: 1, src: 0 }, LoadLiteral { dest: 2, src: 1 }, Copy { dest: 1, src: 2 }], global_register_count: 3, literals: [Integer(3), Integer(2)] }"#);
}

#[test]
fn compiler_prefix() {
    let input = r#"
let x = -3;
let y = -(x + 3);
        "#;
    assert_eq!(compiled(input), r#"CompiledProgram { functions: [], global_code: [LoadLiteral { dest: 1, src: 0 }, PrefixSub { dest: 2, rhs: 1 }, LoadLiteral { dest: 3, src: 0 }, Add { dest: 4, lhs: 2, rhs: 3 }, PrefixSub { dest: 5, rhs: 4 }], global_register_count: 6, literals: [Integer(3)] }"#);
}

#[test]
fn compiler_prefix_boolean() {
    let input = r#"
let x = true;
let y = !x;
        "#;
    assert_eq!(compiled(input), r#"CompiledProgram { functions: [], global_code: [LoadLiteral { dest: 1, src: 0 }, PrefixNot { dest: 2, rhs: 1 }], global_register_count: 3, literals: [Boolean(true)] }"#);
}

#[test]
fn if_statement_boolean() {
    let input = r#"
if false {
    print("boolean constant if");
} else if false {
    print("boolean constant else");
} else {
    print("final else");
}
        "#;
    assert_eq!(compiled(input), r#"CompiledProgram { functions: [], global_code: [LoadLiteral { dest: 1, src: 0 }, JumpIfFalse { src: 1, offset: 6 }, LoadLiteral { dest: 2, src: 1 }, Copy { dest: 3, src: 2 }, LoadLiteral { dest: 4, src: 2 }, CallNativeFunction { src: 4, arg_count: 1, return_val: 5 }, Jump { offset: 12 }, LoadLiteral { dest: 2, src: 0 }, JumpIfFalse { src: 2, offset: 6 }, LoadLiteral { dest: 3, src: 3 }, Copy { dest: 4, src: 3 }, LoadLiteral { dest: 5, src: 2 }, CallNativeFunction { src: 5, arg_count: 1, return_val: 6 }, Jump { offset: 5 }, LoadLiteral { dest: 3, src: 4 }, Copy { dest: 4, src: 3 }, LoadLiteral { dest: 5, src: 2 }, CallNativeFunction { src: 5, arg_count: 1, return_val: 6 }], global_register_count: 7, literals: [Boolean(false), String("boolean constant if"), String("print"), String("boolean constant else"), String("final else")] }"#);
}

#[test]
fn if_statement() {
    let input = r#"
if true {
    print("pass");
} else {
    print("fail");
}

if 2 == 0 {
    print("fail");
} else {
    print("pass");
}

if 2 >= 0 {
    print("pass");
} else {
    print("fail");
}

if 2 <= 0 {
    print("fail");
} else {
    print("pass");
}

if 2 > 0 {
    print("pass");
} else {
    print("fail");
}

if 2 < 0 {
    print("fail");
} else {
    print("pass");
}


if false {
    print("fail");
} else if true {
    print("pass");
} else {
    print("fail");
}
        "#;
    assert_eq!(compiled(input), r#"CompiledProgram { functions: [], global_code: [LoadLiteral { dest: 1, src: 0 }, JumpIfFalse { src: 1, offset: 6 }, LoadLiteral { dest: 2, src: 1 }, Copy { dest: 3, src: 2 }, LoadLiteral { dest: 4, src: 2 }, CallNativeFunction { src: 4, arg_count: 1, return_val: 5 }, Jump { offset: 5 }, LoadLiteral { dest: 2, src: 3 }, Copy { dest: 3, src: 2 }, LoadLiteral { dest: 4, src: 2 }, CallNativeFunction { src: 4, arg_count: 1, return_val: 5 }, LoadLiteral { dest: 2, src: 4 }, LoadLiteral { dest: 3, src: 5 }, Equals { dest: 4, lhs: 2, rhs: 3 }, JumpIfFalse { src: 4, offset: 6 }, LoadLiteral { dest: 5, src: 3 }, Copy { dest: 6, src: 5 }, LoadLiteral { dest: 7, src: 2 }, CallNativeFunction { src: 7, arg_count: 1, return_val: 8 }, Jump { offset: 5 }, LoadLiteral { dest: 5, src: 1 }, Copy { dest: 6, src: 5 }, LoadLiteral { dest: 7, src: 2 }, CallNativeFunction { src: 7, arg_count: 1, return_val: 8 }, LoadLiteral { dest: 5, src: 4 }, LoadLiteral { dest: 6, src: 5 }, GreaterThanOrEquals { dest: 7, lhs: 5, rhs: 6 }, JumpIfFalse { src: 7, offset: 6 }, LoadLiteral { dest: 8, src: 1 }, Copy { dest: 9, src: 8 }, LoadLiteral { dest: 10, src: 2 }, CallNativeFunction { src: 10, arg_count: 1, return_val: 11 }, Jump { offset: 5 }, LoadLiteral { dest: 8, src: 3 }, Copy { dest: 9, src: 8 }, LoadLiteral { dest: 10, src: 2 }, CallNativeFunction { src: 10, arg_count: 1, return_val: 11 }, LoadLiteral { dest: 8, src: 4 }, LoadLiteral { dest: 9, src: 5 }, LessThanOrEquals { dest: 10, lhs: 8, rhs: 9 }, JumpIfFalse { src: 10, offset: 6 }, LoadLiteral { dest: 11, src: 3 }, Copy { dest: 12, src: 11 }, LoadLiteral { dest: 13, src: 2 }, CallNativeFunction { src: 13, arg_count: 1, return_val: 14 }, Jump { offset: 5 }, LoadLiteral { dest: 11, src: 1 }, Copy { dest: 12, src: 11 }, LoadLiteral { dest: 13, src: 2 }, CallNativeFunction { src: 13, arg_count: 1, return_val: 14 }, LoadLiteral { dest: 11, src: 4 }, LoadLiteral { dest: 12, src: 5 }, GreaterThan { dest: 13, lhs: 11, rhs: 12 }, JumpIfFalse { src: 13, offset: 6 }, LoadLiteral { dest: 14, src: 1 }, Copy { dest: 15, src: 14 }, LoadLiteral { dest: 16, src: 2 }, CallNativeFunction { src: 16, arg_count: 1, return_val: 17 }, Jump { offset: 5 }, LoadLiteral { dest: 14, src: 3 }, Copy { dest: 15, src: 14 }, LoadLiteral { dest: 16, src: 2 }, CallNativeFunction { src: 16, arg_count: 1, return_val: 17 }, LoadLiteral { dest: 14, src: 4 }, LoadLiteral { dest: 15, src: 5 }, LessThan { dest: 16, lhs: 14, rhs: 15 }, JumpIfFalse { src: 16, offset: 6 }, LoadLiteral { dest: 17, src: 3 }, Copy { dest: 18, src: 17 }, LoadLiteral { dest: 19, src: 2 }, CallNativeFunction { src: 19, arg_count: 1, return_val: 20 }, Jump { offset: 5 }, LoadLiteral { dest: 17, src: 1 }, Copy { dest: 18, src: 17 }, LoadLiteral { dest: 19, src: 2 }, CallNativeFunction { src: 19, arg_count: 1, return_val: 20 }, LoadLiteral { dest: 17, src: 6 }, JumpIfFalse { src: 17, offset: 6 }, LoadLiteral { dest: 18, src: 3 }, Copy { dest: 19, src: 18 }, LoadLiteral { dest: 20, src: 2 }, CallNativeFunction { src: 20, arg_count: 1, return_val: 21 }, Jump { offset: 12 }, LoadLiteral { dest: 18, src: 0 }, JumpIfFalse { src: 18, offset: 6 }, LoadLiteral { dest: 19, src: 1 }, Copy { dest: 20, src: 19 }, LoadLiteral { dest: 21, src: 2 }, CallNativeFunction { src: 21, arg_count: 1, return_val: 22 }, Jump { offset: 5 }, LoadLiteral { dest: 19, src: 3 }, Copy { dest: 20, src: 19 }, LoadLiteral { dest: 21, src: 2 }, CallNativeFunction { src: 21, arg_count: 1, return_val: 22 }], global_register_count: 23, literals: [Boolean(true), String("pass"), String("print"), String("fail"), Integer(2), Integer(0), Boolean(false)] }"#);
}

#[test]
fn compiler_nested_loop() {
    let input = r#"
let mut x = 0;
loop {
    let mut y = 0;
    loop {
        if y > 3 {
            print("exit loop");
            break;
        }

        y = y + 1;
        print(y);
    }

    if x > 3 {
        print("exit loop");
        break;
    }

    x = x + 1;
    print(x);
}
        "#;
    assert_eq!(compiled(input), r#"CompiledProgram { functions: [], global_code: [LoadLiteral { dest: 1, src: 0 }, LoadLiteral { dest: 2, src: 0 }, LoadLiteral { dest: 3, src: 1 }, GreaterThan { dest: 4, lhs: 2, rhs: 3 }, JumpIfFalse { src: 4, offset: 6 }, LoadLiteral { dest: 5, src: 2 }, Copy { dest: 6, src: 5 }, LoadLiteral { dest: 7, src: 3 }, CallNativeFunction { src: 7, arg_count: 1, return_val: 8 }, Jump { offset: 8 }, LoadLiteral { dest: 5, src: 4 }, Add { dest: 6, lhs: 2, rhs: 5 }, Copy { dest: 2, src: 6 }, Copy { dest: 7, src: 2 }, LoadLiteral { dest: 8, src: 3 }, CallNativeFunction { src: 8, arg_count: 1, return_val: 9 }, JumpReverse { offset: 14 }, LoadLiteral { dest: 3, src: 1 }, GreaterThan { dest: 4, lhs: 1, rhs: 3 }, JumpIfFalse { src: 4, offset: 6 }, LoadLiteral { dest: 5, src: 2 }, Copy { dest: 6, src: 5 }, LoadLiteral { dest: 7, src: 3 }, CallNativeFunction { src: 7, arg_count: 1, return_val: 8 }, Jump { offset: 8 }, LoadLiteral { dest: 5, src: 4 }, Add { dest: 6, lhs: 1, rhs: 5 }, Copy { dest: 1, src: 6 }, Copy { dest: 7, src: 1 }, LoadLiteral { dest: 8, src: 3 }, CallNativeFunction { src: 8, arg_count: 1, return_val: 9 }, JumpReverse { offset: 30 }], global_register_count: 10, literals: [Integer(0), Integer(3), String("exit loop"), String("print"), Integer(1)] }"#);
}

#[test]
fn compiler_objects() {
    let input = r#"
let y = 3;

let another_object = {
    inner_value: 32,
};

let x = {
    test: 1,
    test2: "testing",
    test3: y,
    test4: another_object,
    test5: {
        test6: {
            test7: 1999
        }
    }
};

print(x);
print(x.test);
print(x.test2);
print(x.test3);
print(x.test4);
print(x.test4.inner_value);
print(x.test5);
print(x.test5.test6);
print(x.test5.test6.test7);
        "#;
    assert_eq!(compiled(input), r#"CompiledProgram { functions: [], global_code: [LoadLiteral { dest: 1, src: 0 }, AllocateObject { dest: 2 }, LoadLiteral { dest: 3, src: 1 }, LoadLiteral { dest: 4, src: 2 }, SetObjectField { object: 2, field: 3, value: 4 }, AllocateObject { dest: 5 }, LoadLiteral { dest: 6, src: 3 }, LoadLiteral { dest: 7, src: 4 }, SetObjectField { object: 5, field: 6, value: 7 }, LoadLiteral { dest: 8, src: 5 }, LoadLiteral { dest: 9, src: 6 }, SetObjectField { object: 5, field: 8, value: 9 }, LoadLiteral { dest: 10, src: 7 }, SetObjectField { object: 5, field: 10, value: 1 }, LoadLiteral { dest: 11, src: 8 }, SetObjectField { object: 5, field: 11, value: 2 }, LoadLiteral { dest: 12, src: 9 }, AllocateObject { dest: 13 }, LoadLiteral { dest: 14, src: 10 }, AllocateObject { dest: 15 }, LoadLiteral { dest: 16, src: 11 }, LoadLiteral { dest: 17, src: 12 }, SetObjectField { object: 15, field: 16, value: 17 }, SetObjectField { object: 13, field: 14, value: 15 }, SetObjectField { object: 5, field: 12, value: 13 }, Copy { dest: 18, src: 5 }, LoadLiteral { dest: 19, src: 13 }, CallNativeFunction { src: 19, arg_count: 1, return_val: 20 }, LoadLiteral { dest: 22, src: 3 }, GetObjectField { object: 5, field: 22, return_val: 21 }, Copy { dest: 23, src: 21 }, LoadLiteral { dest: 24, src: 13 }, CallNativeFunction { src: 24, arg_count: 1, return_val: 25 }, LoadLiteral { dest: 27, src: 5 }, GetObjectField { object: 5, field: 27, return_val: 26 }, Copy { dest: 28, src: 26 }, LoadLiteral { dest: 29, src: 13 }, CallNativeFunction { src: 29, arg_count: 1, return_val: 30 }, LoadLiteral { dest: 32, src: 7 }, GetObjectField { object: 5, field: 32, return_val: 31 }, Copy { dest: 33, src: 31 }, LoadLiteral { dest: 34, src: 13 }, CallNativeFunction { src: 34, arg_count: 1, return_val: 35 }, LoadLiteral { dest: 37, src: 8 }, GetObjectField { object: 5, field: 37, return_val: 36 }, Copy { dest: 38, src: 36 }, LoadLiteral { dest: 39, src: 13 }, CallNativeFunction { src: 39, arg_count: 1, return_val: 40 }, LoadLiteral { dest: 42, src: 8 }, GetObjectField { object: 5, field: 42, return_val: 41 }, LoadLiteral { dest: 43, src: 1 }, GetObjectField { object: 41, field: 43, return_val: 41 }, Copy { dest: 44, src: 41 }, LoadLiteral { dest: 45, src: 13 }, CallNativeFunction { src: 45, arg_count: 1, return_val: 46 }, LoadLiteral { dest: 48, src: 9 }, GetObjectField { object: 5, field: 48, return_val: 47 }, Copy { dest: 49, src: 47 }, LoadLiteral { dest: 50, src: 13 }, CallNativeFunction { src: 50, arg_count: 1, return_val: 51 }, LoadLiteral { dest: 53, src: 9 }, GetObjectField { object: 5, field: 53, return_val: 52 }, LoadLiteral { dest: 54, src: 10 }, GetObjectField { object: 52, field: 54, return_val: 52 }, Copy { dest: 55, src: 52 }, LoadLiteral { dest: 56, src: 13 }, CallNativeFunction { src: 56, arg_count: 1, return_val: 57 }, LoadLiteral { dest: 59, src: 9 }, GetObjectField { object: 5, field: 59, return_val: 58 }, LoadLiteral { dest: 60, src: 10 }, GetObjectField { object: 58, field: 60, return_val: 58 }, LoadLiteral { dest: 61, src: 11 }, GetObjectField { object: 58, field: 61, return_val: 58 }, Copy { dest: 62, src: 58 }, LoadLiteral { dest: 63, src: 13 }, CallNativeFunction { src: 63, arg_count: 1, return_val: 64 }], global_register_count: 65, literals: [Integer(3), String("inner_value"), Integer(32), String("test"), Integer(1), String("test2"), String("testing"), String("test3"), String("test4"), String("test5"), String("test6"), String("test7"), Integer(1999), String("print")] }"#);
}
