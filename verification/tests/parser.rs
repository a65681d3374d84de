use sol::ast::Statement;
use sol::lexer::{tokenize, Token};
use sol::parser::{is_float_literal, text_of, Parser};

fn floats(input: &str, tokens: &[Token]) -> Vec<Option<u64>> {
    tokens
        .iter()
        .map(|token| {
            if is_float_literal(input, token) {
                text_of(input, token).parse::<f64>().ok().map(f64::to_bits)
            } else {
                None
            }
        })
        .collect()
}

/// The statements up to the first error, as a loop over the parser gives them.
fn statements(input: &str) -> Vec<Statement> {
    let tokens = tokenize(input).unwrap();
    let values = floats(input, &tokens);
    let mut parser = Parser::new(tokens, input).with_floats(values);
    let mut statements = Vec::new();
    while let Some(statement) = parser.next() {
        match statement {
            Ok(statement) => statements.push(statement),
            Err(_) => break,
        }
    }
    statements
}

fn parsed(input: &str) -> String {
    format!("{:?}", statements(input))
}

#[test]
fn parser_small_input() {
    let input = r#"
            const wow = 3;
            fn test() {}
        "#;
    assert_eq!(parsed(input), r#"[Const { name: "wow", value: Literal(Integer(3)), type_annotation: None }, Function(Function { name: "test", parameters: [], body: Block { body: [] }, return_type_name: None })]"#);
}

#[test]
fn parser_larger_test() {
    let input = r#"
const wow = 3;

fn main(argv: string) {
    let x = 2;
    let y = true;
    print("test");
    print(1.3);


    print(x);
    print(2);

    test();
}

fn test(){
    if true {

    } else {
// comment
        print(2);
    }
}

fn new_function(arg1: int, arg2: int, arg3: int) {
{

    test ();
}
}"#;
    assert_eq!(parsed(input), r#"[Const { name: "wow", value: Literal(Integer(3)), type_annotation: None }, Function(Function { name: "main", parameters: [FunctionParameter { name: "argv", type_annotation: "string" }], body: Block { body: [Let { name: "x", value: Literal(Integer(2)), is_mutable: false, type_annotation: None }, Let { name: "y", value: Literal(Boolean(true)), is_mutable: false, type_annotation: None }, Expression(FunctionCall { name: "print", args: [Literal(String("test"))] }), Expression(FunctionCall { name: "print", args: [Literal(Float(4608533498688228557))] }), Expression(FunctionCall { name: "print", args: [Variable("x")] }), Expression(FunctionCall { name: "print", args: [Literal(Integer(2))] }), Expression(FunctionCall { name: "test", args: [] })] }, return_type_name: None }), Function(Function { name: "test", parameters: [], body: Block { body: [If { condition: Literal(Boolean(true)), body: Block { body: [] }, else_statement: Some(Block { body: [Expression(FunctionCall { name: "print", args: [Literal(Integer(2))] })] }) }] }, return_type_name: None }), Function(Function { name: "new_function", parameters: [FunctionParameter { name: "arg1", type_annotation: "int" }, FunctionParameter { name: "arg2", type_annotation: "int" }, FunctionParameter { name: "arg3", type_annotation: "int" }], body: Block { body: [Block { body: [Expression(FunctionCall { name: "test", args: [] })] }] }, return_type_name: None })]"#);
}

#[test]
fn parser_complex_math() {
    let input = r#"
            fn test() {
                let z = (2 * 2) / ((3 - 4) * -2);
            }
        "#;
    assert_eq!(parsed(input), r#"[Function(Function { name: "test", parameters: [], body: Block { body: [Let { name: "z", value: Infix { op: Divide, lhs: Infix { op: Multiply, lhs: Literal(Integer(2)), rhs: Literal(Integer(2)) }, rhs: Infix { op: Multiply, lhs: Infix { op: Minus, lhs: Literal(Integer(3)), rhs: Literal(Integer(4)) }, rhs: Prefix { op: Minus, expr: Literal(Integer(2)) } } }, is_mutable: false, type_annotation: None }] }, return_type_name: None })]"#);
}

#[test]
fn parser_math() {
    let input = r#"
            fn test() {
                let x = 1 + 2 / 3;
            }
        "#;
    assert_eq!(parsed(input), r#"[Function(Function { name: "test", parameters: [], body: Block { body: [Let { name: "x", value: Infix { op: Plus, lhs: Literal(Integer(1)), rhs: Infix { op: Divide, lhs: Literal(Integer(2)), rhs: Literal(Integer(3)) } }, is_mutable: false, type_annotation: None }] }, return_type_name: None })]"#);
}

#[test]
fn parser_large_input() {
    let input = r#"
        const wow = 3;
        fn test(argv: string) {
            // this is a comment
            let a = "hello";
        }
        "#;
    assert_eq!(parsed(input), r#"[Const { name: "wow", value: Literal(Integer(3)), type_annotation: None }, Function(Function { name: "test", parameters: [FunctionParameter { name: "argv", type_annotation: "string" }], body: Block { body: [Let { name: "a", value: Literal(String("hello")), is_mutable: false, type_annotation: None }] }, return_type_name: None })]"#);
}

#[test]
fn function_call_return() {
    let input = r#"
        fn test() {
            let x = test2();
        }

        fn test2() {

        }
        "#;
    assert_eq!(parsed(input), r#"[Function(Function { name: "test", parameters: [], body: Block { body: [Let { name: "x", value: FunctionCall { name: "test2", args: [] }, is_mutable: false, type_annotation: None }] }, return_type_name: None }), Function(Function { name: "test2", parameters: [], body: Block { body: [] }, return_type_name: None })]"#);
}

#[test]
fn useless_expression() {
    let input = r#"
        fn test() {
            2 + 2.3;
        }
        "#;
    assert_eq!(parsed(input), r#"[Function(Function { name: "test", parameters: [], body: Block { body: [Expression(Infix { op: Plus, lhs: Literal(Integer(2)), rhs: Literal(Float(4612361558371493478)) })] }, return_type_name: None })]"#);
}

#[test]
fn function_call_with_addition() {
    let input = r#"
        fn test() {
            let x = test2() + 1;
        }

        fn test2() {

        }
        "#;
    assert_eq!(parsed(input), r#"[Function(Function { name: "test", parameters: [], body: Block { body: [Let { name: "x", value: Infix { op: Plus, lhs: FunctionCall { name: "test2", args: [] }, rhs: Literal(Integer(1)) }, is_mutable: false, type_annotation: None }] }, return_type_name: None }), Function(Function { name: "test2", parameters: [], body: Block { body: [] }, return_type_name: None })]"#);
}

#[test]
fn variable_and_operation() {
    let input = r#"
        fn test() {
            let x = 1;
            let z = 2 + x;
            let y = x + 3;
            let r = x + z;
        }
        "#;
    assert_eq!(parsed(input), r#"[Function(Function { name: "test", parameters: [], body: Block { body: [Let { name: "x", value: Literal(Integer(1)), is_mutable: false, type_annotation: None }, Let { name: "z", value: Infix { op: Plus, lhs: Literal(Integer(2)), rhs: Variable("x") }, is_mutable: false, type_annotation: None }, Let { name: "y", value: Infix { op: Plus, lhs: Variable("x"), rhs: Literal(Integer(3)) }, is_mutable: false, type_annotation: None }, Let { name: "r", value: Infix { op: Plus, lhs: Variable("x"), rhs: Variable("z") }, is_mutable: false, type_annotation: None }] }, return_type_name: None })]"#);
}

#[test]
fn parser_variable_mutation() {
    let input = r#"
        fn test() {
            let x = 1;
            x = 2 + x;
        }
        "#;
    assert_eq!(parsed(input), r#"[Function(Function { name: "test", parameters: [], body: Block { body: [Let { name: "x", value: Literal(Integer(1)), is_mutable: false, type_annotation: None }, Reassignment { name: "x", value: Infix { op: Plus, lhs: Literal(Integer(2)), rhs: Variable("x") } }] }, return_type_name: None })]"#);
}

#[test]
fn parser_prefix() {
    let input = r#"
        fn test() {
            let x = -1;
            let y = -(x + 3);
        }
        "#;
    assert_eq!(parsed(input), r#"[Function(Function { name: "test", parameters: [], body: Block { body: [Let { name: "x", value: Prefix { op: Minus, expr: Literal(Integer(1)) }, is_mutable: false, type_annotation: None }, Let { name: "y", value: Prefix { op: Minus, expr: Infix { op: Plus, lhs: Variable("x"), rhs: Literal(Integer(3)) } }, is_mutable: false, type_annotation: None }] }, return_type_name: None })]"#);
}

#[test]
fn parser_prefix_boolean() {
    let input = r#"
        fn test() {
            let x = true;
            let y = !x;
        }
        "#;
    assert_eq!(parsed(input), r#"[Function(Function { name: "test", parameters: [], body: Block { body: [Let { name: "x", value: Literal(Boolean(true)), is_mutable: false, type_annotation: None }, Let { name: "y", value: Prefix { op: Not, expr: Variable("x") }, is_mutable: false, type_annotation: None }] }, return_type_name: None })]"#);
}

#[test]
fn if_else_conditions() {
    let input = r#"
if true {
    print("boolean constant if");
} else {
    print("boolean constant else");
}

if 2 == 0 {
    print("equality if");
} else {
    print("equality else");
}

if 2 >= 0 {
    print("greater than equal if");
} else {
    print("greater than equal else");
}

if 2 <= 0 {
    print("less than equal if");
} else {
    print("less than equal else");
}

if 2 > 0 {
    print("greater than if");
} else {
    print("greater than else");
}

if 2 < 0 {
    print("less than if");
} else {
    print("less than else");
}


if false {
    print("if");
} else if true {
    print("else if");
} else {
    print("else");
}
    "#;
    assert_eq!(parsed(input), r#"[If { condition: Literal(Boolean(true)), body: Block { body: [Expression(FunctionCall { name: "print", args: [Literal(String("boolean constant if"))] })] }, else_statement: Some(Block { body: [Expression(FunctionCall { name: "print", args: [Literal(String("boolean constant else"))] })] }) }, If { condition: Infix { op: Equal, lhs: Literal(Integer(2)), rhs: Literal(Integer(0)) }, body: Block { body: [Expression(FunctionCall { name: "print", args: [Literal(String("equality if"))] })] }, else_statement: Some(Block { body: [Expression(FunctionCall { name: "print", args: [Literal(String("equality else"))] })] }) }, If { condition: Infix { op: GreaterThanOrEqual, lhs: Literal(Integer(2)), rhs: Literal(Integer(0)) }, body: Block { body: [Expression(FunctionCall { name: "print", args: [Literal(String("greater than equal if"))] })] }, else_statement: Some(Block { body: [Expression(FunctionCall { name: "print", args: [Literal(String("greater than equal else"))] })] }) }, If { condition: Infix { op: LessThanOrEqual, lhs: Literal(Integer(2)), rhs: Literal(Integer(0)) }, body: Block { body: [Expression(FunctionCall { name: "print", args: [Literal(String("less than equal if"))] })] }, else_statement: Some(Block { body: [Expression(FunctionCall { name: "print", args: [Literal(String("less than equal else"))] })] }) }, If { condition: Infix { op: GreaterThan, lhs: Literal(Integer(2)), rhs: Literal(Integer(0)) }, body: Block { body: [Expression(FunctionCall { name: "print", args: [Literal(String("greater than if"))] })] }, else_statement: Some(Block { body: [Expression(FunctionCall { name: "print", args: [Literal(String("greater than else"))] })] }) }, If { condition: Infix { op: LessThan, lhs: Literal(Integer(2)), rhs: Literal(Integer(0)) }, body: Block { body: [Expression(FunctionCall { name: "print", args: [Literal(String("less than if"))] })] }, else_statement: Some(Block { body: [Expression(FunctionCall { name: "print", args: [Literal(String("less than else"))] })] }) }, If { condition: Literal(Boolean(false)), body: Block { body: [Expression(FunctionCall { name: "print", args: [Literal(String("if"))] })] }, else_statement: Some(If { condition: Literal(Boolean(true)), body: Block { body: [Expression(FunctionCall { name: "print", args: [Literal(String("else if"))] })] }, else_statement: Some(Block { body: [Expression(FunctionCall { name: "print", args: [Literal(String("else"))] })] }) }) }]"#);
}

#[test]
fn parser_nested_loop() {
    let input = r#"
let mut x = 0;
loop {
    let mut y = 0;
    loop {
        if y > 3 {
            print("exit loop");
            break;
        }

        y = y + 1;
        print(y);
    }

    if x > 3 {
        print("exit loop");
        break;
    }

    x = x + 1;
    print(x);
}
    "#;
    assert_eq!(parsed(input), r#"[Let { name: "x", value: Literal(Integer(0)), is_mutable: true, type_annotation: None }, Loop { body: Block { body: [Let { name: "y", value: Literal(Integer(0)), is_mutable: true, type_annotation: None }, Loop { body: Block { body: [If { condition: Infix { op: GreaterThan, lhs: Variable("y"), rhs: Literal(Integer(3)) }, body: Block { body: [Expression(FunctionCall { name: "print", args: [Literal(String("exit loop"))] }), Break] }, else_statement: None }, Reassignment { name: "y", value: Infix { op: Plus, lhs: Variable("y"), rhs: Literal(Integer(1)) } }, Expression(FunctionCall { name: "print", args: [Variable("y")] })] } }, If { condition: Infix { op: GreaterThan, lhs: Variable("x"), rhs: Literal(Integer(3)) }, body: Block { body: [Expression(FunctionCall { name: "print", args: [Literal(String("exit loop"))] }), Break] }, else_statement: None }, Reassignment { name: "x", value: Infix { op: Plus, lhs: Variable("x"), rhs: Literal(Integer(1)) } }, Expression(FunctionCall { name: "print", args: [Variable("x")] })] } }]"#);
}

#[test]
fn parser_objects() {
    let input = r#"
let y = 3;

let another_object = {
    inner_value: 32,
};

let x = {
    test: 1,
    test2: "testing",
    test3: y,
    test4: another_object,
    test5: {
        test6: {
            test7: 1999
        }
    }
};

print(x);
print(x.test);
print(x.test2);
print(x.test3);
print(x.test4);
print(x.test4.inner_value);
print(x.test5);
print(x.test5.test6);
print(x.test5.test6.test7);
    "#;
    assert_eq!(parsed(input), r#"[Let { name: "y", value: Literal(Integer(3)), is_mutable: false, type_annotation: None }, Let { name: "another_object", value: Object { fields: [("inner_value", Literal(Integer(32)))] }, is_mutable: false, type_annotation: None }, Let { name: "x", value: Object { fields: [("test", Literal(Integer(1))), ("test2", Literal(String("testing"))), ("test3", Variable("y")), ("test4", Variable("another_object")), ("test5", Object { fields: [("test6", Object { fields: [("test7", Literal(Integer(1999)))] })] })] }, is_mutable: false, type_annotation: None }, Expression(FunctionCall { name: "print", args: [Variable("x")] }), Expression(FunctionCall { name: "print", args: [ObjectAccess { path: ["x", "test"] }] }), Expression(FunctionCall { name: "print", args: [ObjectAccess { path: ["x", "test2"] }] }), Expression(FunctionCall { name: "print", args: [ObjectAccess { path: ["x", "test3"] }] }), Expression(FunctionCall { name: "print", args: [ObjectAccess { path: ["x", "test4"] }] }), Expression(FunctionCall { name: "print", args: [ObjectAccess { path: ["x", "test4", "inner_value"] }] }), Expression(FunctionCall { name: "print", args: [ObjectAccess { path: ["x", "test5"] }] }), Expression(FunctionCall { name: "print", args: [ObjectAccess { path: ["x", "test5", "test6"] }] }), Expression(FunctionCall { name: "print", args: [ObjectAccess { path: ["x", "test5", "test6", "test7"] }] })]"#);
}
