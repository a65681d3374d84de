use sol::ast::Statement;
use sol::compiler::Compiler;
use sol::lexer::{tokenize, Token};
use sol::parser::{is_float_literal, text_of, Parser};
use sol::types::Literal;
use sol::vm::value::{BinaryOperator, VMValue};
use sol::vm::{ExecutionError, Status, VM};

fn floats(input: &str, tokens: &[Token]) -> Vec<Option<u64>> {
    tokens
        .iter()
        .map(|token| {
            if is_float_literal(input, token) {
                text_of(input, token).parse::<f64>().ok().map(f64::to_bits)
            } else {
                None
            }
        })
        .collect()
}

/// The statements up to the first error, as a loop over the parser gives them.
fn statements(input: &str) -> Vec<Statement> {
    let tokens = tokenize(input).unwrap();
    let values = floats(input, &tokens);
    let mut parser = Parser::new(tokens, input).with_floats(values);
    let mut statements = Vec::new();
    while let Some(statement) = parser.next() {
        match statement {
            Ok(statement) => statements.push(statement),
            Err(_) => break,
        }
    }
    statements
}

/// What a run leaves behind: the registers that are not empty, and the calls
/// of native functions with their arguments.
fn state(vm: &VM, calls: &[(String, Vec<VMValue>)]) -> String {
    let registers: Vec<(usize, &VMValue)> = vm
        .registers()
        .regs()
        .iter()
        .enumerate()
        .filter(|(_, value)| **value != VMValue::Empty)
        .collect();
    format!("registers: {:?}, calls: {:?}", registers, calls)
}

fn number(literal: &Literal) -> f64 {
    match literal {
        Literal::Integer(n) => *n as f64,
        Literal::Float(bits) => f64::from_bits(*bits),
        _ => unreachable!(),
    }
}

fn float_operation(operator: BinaryOperator, lhs: &Literal, rhs: &Literal) -> Literal {
    let (a, b) = (number(lhs), number(rhs));
    match operator {
        BinaryOperator::Add => Literal::Float((a + b).to_bits()),
        BinaryOperator::Sub => Literal::Float((a - b).to_bits()),
        BinaryOperator::Mul => Literal::Float((a * b).to_bits()),
        BinaryOperator::Div => Literal::Float((a / b).to_bits()),
        BinaryOperator::Equals => Literal::Boolean(a == b),
        BinaryOperator::NotEquals => Literal::Boolean(a != b),
        BinaryOperator::GreaterThan => Literal::Boolean(a > b),
        BinaryOperator::GreaterThanOrEquals => Literal::Boolean(a >= b),
        BinaryOperator::LessThan => Literal::Boolean(a < b),
        BinaryOperator::LessThanOrEquals => Literal::Boolean(a <= b),
    }
}

/// Runs the machine to its end, playing the host: `native` is asked for what
/// each native call returns.
fn run(
    vm: &mut VM,
    native: &dyn Fn(&str, &[VMValue]) -> Option<VMValue>,
) -> Result<Vec<(String, Vec<VMValue>)>, ExecutionError> {
    let mut calls = Vec::new();
    for _ in 0..10_000 {
        match vm.run(1_000)? {
            Status::Running => {}
            Status::Finished => return Ok(calls),
            Status::NativeCall { name, arguments } => {
                let returned = native(&name, &arguments);
                calls.push((name, arguments));
                vm.finish_native_call(returned)?;
            }
            Status::FloatOperation { operator, lhs, rhs } => {
                vm.finish_float_operation(float_operation(operator, &lhs, &rhs))?;
            }
        }
    }
    panic!("the program does not come to an end");
}

fn machine(input: &str) -> VM {
    VM::new(Compiler::new().compile(&statements(input)).unwrap())
}

fn executed(input: &str) -> String {
    let mut vm = machine(input);
    let calls = run(&mut vm, &|_, _| None).unwrap();
    state(&vm, &calls)
}

#[test]
fn vm_complex_math() {
    let input = r#"
        let z = (2 * 2) / ((3 - 4) * 2);
        "#;
    assert_eq!(executed(input), r#"registers: [(1, Literal(Integer(2))), (2, Literal(Integer(2))), (3, Literal(Integer(4))), (4, Literal(Integer(3))), (5, Literal(Integer(4))), (6, Literal(Integer(-1))), (7, Literal(Integer(2))), (8, Literal(Integer(-2))), (9, Literal(Integer(-2)))], calls: []"#);
}

#[test]
fn vm_math() {
    let input = r#"
        let x = 1 + 2 / 3;
        "#;
    assert_eq!(executed(input), r#"registers: [(1, Literal(Integer(1))), (2, Literal(Integer(2))), (3, Literal(Integer(3))), (4, Literal(Integer(0))), (5, Literal(Integer(1)))], calls: []"#);
}

#[test]
fn vm_prefix() {
    let input = r#"
        let x = -1;
        let y = -(x + 3);
        "#;
    assert_eq!(executed(input), r#"registers: [(1, Literal(Integer(1))), (2, Literal(Integer(-1))), (3, Literal(Integer(3))), (4, Literal(Integer(2))), (5, Literal(Integer(-2)))], calls: []"#);
}

#[test]
fn vm_prefix_boolean() {
    let input = r#"
        let x = true;
        let y = !x;
        "#;
    assert_eq!(executed(input), r#"registers: [(1, Literal(Boolean(true))), (2, Literal(Boolean(false)))], calls: []"#);
}

#[test]
fn native_function() {
    let input = r#"
        test_function();
        "#;
    let mut vm = machine(input).define_native_function("test_function".to_owned());
    let calls = run(&mut vm, &|_, _| None).unwrap();
    assert_eq!(state(&vm, &calls), r#"registers: [(1, Literal(String("test_function")))], calls: [("test_function", [])]"#);
}

#[test]
fn native_function_with_return_value() {
    let input = r#"
        let x = test();
        if x {
            print("pass");
        } else {
            print("fail");
        }
        "#;
    let mut vm = machine(input).define_native_function("test".to_owned());
    let calls = run(&mut vm, &|name, _| {
        if name == "test" {
            Some(VMValue::Literal(Literal::Boolean(true)))
        } else {
            None
        }
    })
    .unwrap();
    assert_eq!(state(&vm, &calls), r#"registers: [(1, Literal(String("test"))), (2, Literal(Boolean(true))), (3, Literal(String("pass"))), (4, Literal(String("pass"))), (5, Literal(String("print")))], calls: [("test", []), ("print", [Literal(String("pass"))])]"#);
}

#[test]
fn vm_nested_loop() {
    let input = r#"
let mut x = 0;
loop {
    let mut y = 0;
    loop {
        if y > 3 {
            print("exit loop");
            break;
        }

        y = y + 1;
        print(y);
    }

    if x > 3 {
        print("exit loop");
        break;
    }

    x = x + 1;
    print(x);
}
        "#;
    assert_eq!(executed(input), r#"registers: [(1, Literal(Integer(4))), (2, Literal(Integer(4))), (3, Literal(Integer(3))), (4, Literal(Boolean(true))), (5, Literal(String("exit loop"))), (6, Literal(String("exit loop"))), (7, Literal(String("print"))), (8, Literal(String("print")))], calls: [("print", [Literal(Integer(1))]), ("print", [Literal(Integer(2))]), ("print", [Literal(Integer(3))]), ("print", [Literal(Integer(4))]), ("print", [Literal(String("exit loop"))]), ("print", [Literal(Integer(1))]), ("print", [Literal(Integer(1))]), ("print", [Literal(Integer(2))]), ("print", [Literal(Integer(3))]), ("print", [Literal(Integer(4))]), ("print", [Literal(String("exit loop"))]), ("print", [Literal(Integer(2))]), ("print", [Literal(Integer(1))]), ("print", [Literal(Integer(2))]), ("print", [Literal(Integer(3))]), ("print", [Literal(Integer(4))]), ("print", [Literal(String("exit loop"))]), ("print", [Literal(Integer(3))]), ("print", [Literal(Integer(1))]), ("print", [Literal(Integer(2))]), ("print", [Literal(Integer(3))]), ("print", [Literal(Integer(4))]), ("print", [Literal(String("exit loop"))]), ("print", [Literal(Integer(4))]), ("print", [Literal(Integer(1))]), ("print", [Literal(Integer(2))]), ("print", [Literal(Integer(3))]), ("print", [Literal(Integer(4))]), ("print", [Literal(String("exit loop"))]), ("print", [Literal(String("exit loop"))])]"#);
}

#[test]
fn vm_objects() {
    let input = r#"
let y = 3;

let another_object = {
    inner_value: 32,
};

let x = {
    test: 1,
    test2: "testing",
    test3: y,
    test4: another_object,
    test5: {
        test6: {
            test7: 1999
        }
    }
};

print(x);
print(x.test);
print(x.test2);
print(x.test3);
print(x.test4);
print(x.test4.inner_value);
print(x.test5);
print(x.test5.test6);
print(x.test5.test6.test7);
        "#;
    assert_eq!(executed(input), r#"registers: [(1, Literal(Integer(3))), (2, Object(0)), (3, Literal(String("inner_value"))), (4, Literal(Integer(32))), (5, Object(1)), (6, Literal(String("test"))), (7, Literal(Integer(1))), (8, Literal(String("test2"))), (9, Literal(String("testing"))), (10, Literal(String("test3"))), (11, Literal(String("test4"))), (12, Literal(String("test5"))), (13, Object(2)), (14, Literal(String("test6"))), (15, Object(3)), (16, Literal(String("test7"))), (17, Literal(Integer(1999))), (18, Object(1)), (19, Literal(String("print"))), (21, Literal(Integer(1))), (22, Literal(String("test"))), (23, Literal(Integer(1))), (24, Literal(String("print"))), (26, Literal(String("testing"))), (27, Literal(String("test2"))), (28, Literal(String("testing"))), (29, Literal(String("print"))), (31, Literal(Integer(3))), (32, Literal(String("test3"))), (33, Literal(Integer(3))), (34, Literal(String("print"))), (36, Object(0)), (37, Literal(String("test4"))), (38, Object(0)), (39, Literal(String("print"))), (41, Literal(Integer(32))), (42, Literal(String("test4"))), (43, Literal(String("inner_value"))), (44, Literal(Integer(32))), (45, Literal(String("print"))), (47, Object(2)), (48, Literal(String("test5"))), (49, Object(2)), (50, Literal(String("print"))), (52, Object(3)), (53, Literal(String("test5"))), (54, Literal(String("test6"))), (55, Object(3)), (56, Literal(String("print"))), (58, Literal(Integer(1999))), (59, Literal(String("test5"))), (60, Literal(String("test6"))), (61, Literal(String("test7"))), (62, Literal(Integer(1999))), (63, Literal(String("print")))], calls: [("print", [Object(1)]), ("print", [Literal(Integer(1))]), ("print", [Literal(String("testing"))]), ("print", [Literal(Integer(3))]), ("print", [Object(0)]), ("print", [Literal(Integer(32))]), ("print", [Object(2)]), ("print", [Object(3)]), ("print", [Literal(Integer(1999))])]"#);
}
