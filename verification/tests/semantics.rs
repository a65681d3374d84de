use sol::ast::{Expression, Function, Statement};
use sol::compiler::{close_loop_code, Compiler, CompilerError};
use sol::instructions::Instruction;
use sol::lexer::{tokenize, Token, TokenKind};
use sol::parser::error::ParserError;
use sol::parser::{is_float_literal, text_of, Parser};
use sol::types::Literal;
use sol::vm::value::{BinaryOperator, VMValue};
use sol::vm::{evaluate_operator, Evaluated, ExecutionError, RegisterValue, Status, VM};

fn floats(input: &str, tokens: &[Token]) -> Vec<Option<u64>> {
    tokens
        .iter()
        .map(|token| {
            if is_float_literal(input, token) {
                text_of(input, token).parse::<f64>().ok().map(f64::to_bits)
            } else {
                None
            }
        })
        .collect()
}

fn statements(input: &str) -> Vec<Statement> {
    let tokens = tokenize(input).unwrap();
    let values = floats(input, &tokens);
    Parser::new(tokens, input).with_floats(values).collect().unwrap()
}

fn number(literal: &Literal) -> f64 {
    match literal {
        Literal::Integer(n) => *n as f64,
        Literal::Float(bits) => f64::from_bits(*bits),
        _ => unreachable!(),
    }
}

fn float_operation(operator: BinaryOperator, lhs: &Literal, rhs: &Literal) -> Literal {
    let (a, b) = (number(lhs), number(rhs));
    match operator {
        BinaryOperator::Add => Literal::Float((a + b).to_bits()),
        BinaryOperator::Sub => Literal::Float((a - b).to_bits()),
        BinaryOperator::Mul => Literal::Float((a * b).to_bits()),
        BinaryOperator::Div => Literal::Float((a / b).to_bits()),
        BinaryOperator::Equals => Literal::Boolean(a == b),
        BinaryOperator::NotEquals => Literal::Boolean(a != b),
        BinaryOperator::GreaterThan => Literal::Boolean(a > b),
        BinaryOperator::GreaterThanOrEquals => Literal::Boolean(a >= b),
        BinaryOperator::LessThan => Literal::Boolean(a < b),
        BinaryOperator::LessThanOrEquals => Literal::Boolean(a <= b),
    }
}

/// Runs a program to its end; gives the machine and the native calls.
fn run(input: &str) -> Result<(VM, Vec<(String, Vec<VMValue>)>), ExecutionError> {
    let mut vm = VM::new(Compiler::new().compile(&statements(input)).unwrap());
    let mut calls = Vec::new();
    for _ in 0..10_000 {
        match vm.run(1_000)? {
            Status::Running => {}
            Status::Finished => return Ok((vm, calls)),
            Status::NativeCall { name, arguments } => {
                calls.push((name, arguments));
                vm.finish_native_call(None)?;
            }
            Status::FloatOperation { operator, lhs, rhs } => {
                vm.finish_float_operation(float_operation(operator, &lhs, &rhs))?;
            }
        }
    }
    panic!("the program does not come to an end");
}

fn register(vm: &VM, index: usize) -> VMValue {
    vm.registers().regs()[index].clone()
}

fn integer(n: i64) -> VMValue {
    VMValue::Literal(Literal::Integer(n))
}

fn text(s: &str) -> VMValue {
    VMValue::Literal(Literal::String(s.to_owned()))
}

#[test]
fn sibling_functions_use_the_same_registers() {
    let program = Compiler::new()
        .compile(&statements(
            "let g = 0; fn a(x: int) { let y = x + 1; } fn b(z: int) { let w = z + 1; } let h = 1;",
        ))
        .unwrap();
    assert_eq!(program.functions.len(), 2);
    assert_eq!(program.functions[0].code, program.functions[1].code);
    assert_eq!(
        program.functions[0].code,
        vec![
            Instruction::LoadLiteral { dest: 2, src: 1 },
            Instruction::Add { dest: 3, lhs: 1, rhs: 2 },
            Instruction::FunctionReturn,
        ]
    );
    assert_eq!(program.functions[0].register_count, 4);
    assert_eq!(program.functions[1].register_count, 4);
    // the global code goes on with the register that it had reached
    assert_eq!(
        program.global_code,
        vec![
            Instruction::LoadLiteral { dest: 1, src: 0 },
            Instruction::LoadLiteral { dest: 2, src: 1 },
        ]
    );
    assert_eq!(program.global_register_count, 3);
}

#[test]
fn sibling_blocks_use_the_same_registers() {
    let program = Compiler::new()
        .compile(&statements("{ let a = 1; } { let b = 2; }"))
        .unwrap();
    assert_eq!(
        program.global_code,
        vec![
            Instruction::LoadLiteral { dest: 1, src: 0 },
            Instruction::LoadLiteral { dest: 1, src: 1 },
        ]
    );
    assert_eq!(program.global_register_count, 2);
}

#[test]
fn a_block_gives_its_registers_back() {
    let input = "let x = 0; { let a = 1; let b = 2; { let c = 3; } let d = 4; } let y = 5;";
    let program = Compiler::new().compile(&statements(input)).unwrap();
    let destinations: Vec<u8> = program
        .global_code
        .iter()
        .map(|instruction| match instruction {
            Instruction::LoadLiteral { dest, .. } => *dest,
            _ => 0,
        })
        .collect();
    // x, then a, b, c and d in the block, then y in the register of a
    assert_eq!(destinations, vec![1, 2, 3, 4, 4, 2]);
    // the window holds the registers of the block too
    assert_eq!(program.global_register_count, 5);
    let mut compiler = Compiler::new();
    let body = statements("let a = 1; let b = a + 2;");
    compiler.compile_block(&body).unwrap();
    compiler.compile_block(&body).unwrap();
    let program = compiler.compile(&Vec::new()).unwrap();
    assert_eq!(program.global_code[..3], program.global_code[3..]);
    assert_eq!(program.global_register_count, 4);
}

#[test]
fn a_function_counts_the_registers_that_it_names() {
    let program = Compiler::new()
        .compile(&statements("let a = 1; let b = 1; fn f() { return b; }"))
        .unwrap();
    assert_eq!(
        program.functions[0].code,
        vec![Instruction::Return { val: 2 }, Instruction::FunctionReturn]
    );
    assert_eq!(program.functions[0].register_count, 3);
    assert_eq!(program.global_register_count, 3);
    let program = Compiler::new()
        .compile(&statements("fn g(p: int) { { let q = p; } { let r = 1; let t = 2; } }"))
        .unwrap();
    // p in 1; the registers 2 and 3 of the second block are the highest
    assert_eq!(program.functions[0].register_count, 4);
}

#[test]
fn equal_literals_share_one_id() {
    let program = Compiler::new()
        .compile(&statements("let a = 3; let b = 3;"))
        .unwrap();
    assert_eq!(program.literals, vec![Literal::Integer(3)]);
    assert_eq!(
        program.global_code,
        vec![
            Instruction::LoadLiteral { dest: 1, src: 0 },
            Instruction::LoadLiteral { dest: 2, src: 0 },
        ]
    );
}

#[test]
fn literals_of_different_kinds_do_not_share() {
    let program = Compiler::new()
        .compile(&statements("let a = 1; let b = 1.0; let c = \"1\"; let d = true; let e = 1;"))
        .unwrap();
    assert_eq!(
        program.literals,
        vec![
            Literal::Integer(1),
            Literal::Float(1.0f64.to_bits()),
            Literal::String("1".to_owned()),
            Literal::Boolean(true),
        ]
    );
}

#[test]
fn a_constant_cannot_be_assigned() {
    let result = Compiler::new().compile(&statements("const x = 1; x = 2;"));
    assert_eq!(
        result,
        Err(CompilerError::MutationNotAllowed { variable: "x".to_owned() })
    );
    let result = Compiler::new().compile(&statements("let x = 1; x = 2;"));
    assert_eq!(
        result,
        Err(CompilerError::MutationNotAllowed { variable: "x".to_owned() })
    );
    let result = Compiler::new().compile(&statements("y = 2;"));
    assert_eq!(
        result,
        Err(CompilerError::MutationNotAllowed { variable: "y".to_owned() })
    );
}

#[test]
fn an_assignment_copies_into_the_register_of_let() {
    let program = Compiler::new()
        .compile(&statements("let mut x = 1; x = 2;"))
        .unwrap();
    assert_eq!(
        program.global_code,
        vec![
            Instruction::LoadLiteral { dest: 1, src: 0 },
            Instruction::LoadLiteral { dest: 2, src: 1 },
            Instruction::Copy { dest: 1, src: 2 },
        ]
    );
}

#[test]
fn an_unbound_name_is_an_error() {
    let result = Compiler::new().compile(&statements("let a = b;"));
    assert_eq!(
        result,
        Err(CompilerError::VariableNotFound { variable: "b".to_owned() })
    );
    // a name of an inner block is gone behind the block
    let result = Compiler::new().compile(&statements("{ let a = 1; } let c = a;"));
    assert_eq!(
        result,
        Err(CompilerError::VariableNotFound { variable: "a".to_owned() })
    );
}

#[test]
fn a_function_body_must_be_a_block() {
    let function = Function::new(
        "f".to_owned(),
        Vec::new(),
        Box::new(Statement::Break),
        None,
    );
    let result = Compiler::new().compile(&vec![Statement::Function(function)]);
    assert_eq!(
        result,
        Err(CompilerError::GeneralError {
            cause: "function body must contain block".to_owned()
        })
    );
    let result = Compiler::new().compile(&vec![Statement::Loop {
        body: Box::new(Statement::Break),
    }]);
    assert_eq!(
        result,
        Err(CompilerError::GeneralError {
            cause: "loop body must contain block".to_owned()
        })
    );
}

#[test]
fn registers_run_out_at_255() {
    let mut source = String::new();
    for i in 0..254 {
        source.push_str(&format!("let v{} = 0;\n", i));
    }
    let program = Compiler::new().compile(&statements(&source)).unwrap();
    assert_eq!(program.global_register_count, 255);
    source.push_str("let last = 0;\n");
    assert_eq!(
        Compiler::new().compile(&statements(&source)),
        Err(CompilerError::IntegerConversionError)
    );
}

#[test]
fn closing_a_loop_resolves_its_breaks() {
    let mut body = vec![
        Instruction::PendingBreak,
        Instruction::FunctionReturn,
        Instruction::PendingBreak,
        Instruction::Jump { offset: 3 },
        Instruction::Jump { offset: 0xDEAD },
    ];
    close_loop_code(&mut body).unwrap();
    assert_eq!(
        body,
        vec![
            Instruction::Jump { offset: 6 },
            Instruction::FunctionReturn,
            Instruction::Jump { offset: 4 },
            Instruction::Jump { offset: 3 },
            Instruction::Jump { offset: 0xDEAD },
            Instruction::JumpReverse { offset: 5 },
        ]
    );
    let mut empty = Vec::new();
    close_loop_code(&mut empty).unwrap();
    assert_eq!(empty, vec![Instruction::JumpReverse { offset: 0 }]);
}

#[test]
fn a_loop_too_long_for_its_jump_is_an_error() {
    let mut body = vec![Instruction::FunctionReturn; 65_536];
    assert_eq!(
        close_loop_code(&mut body),
        Err(CompilerError::IntegerConversionError)
    );
    let mut body = vec![Instruction::FunctionReturn; 65_535];
    assert_eq!(close_loop_code(&mut body), Ok(()));
    let mut body = vec![Instruction::FunctionReturn; 65_535];
    body[0] = Instruction::PendingBreak;
    assert_eq!(
        close_loop_code(&mut body),
        Err(CompilerError::IntegerConversionError)
    );
}

#[test]
fn a_resolved_break_is_not_resolved_again() {
    // a loop body of 57004 instructions that begins with a break: the break
    // becomes a jump by 57005
    let mut inner = vec![Instruction::FunctionReturn; 57_004];
    inner[0] = Instruction::PendingBreak;
    close_loop_code(&mut inner).unwrap();
    assert_eq!(inner[0], Instruction::Jump { offset: 57_005 });
    assert_eq!(inner.len(), 57_005);
    // the loop around it has a break of its own behind the inner loop
    let mut outer = inner;
    outer.push(Instruction::PendingBreak);
    close_loop_code(&mut outer).unwrap();
    assert_eq!(outer[0], Instruction::Jump { offset: 57_005 });
    assert_eq!(outer[57_005], Instruction::Jump { offset: 2 });
    assert_eq!(outer[57_006], Instruction::JumpReverse { offset: 57_006 });
}

#[test]
fn a_break_outside_a_loop_is_an_error() {
    let outside = Err(CompilerError::GeneralError {
        cause: "break outside of a loop".to_owned(),
    });
    assert_eq!(Compiler::new().compile(&statements("break;")), outside);
    assert_eq!(Compiler::new().compile(&statements("if true { break; }")), outside);
    assert_eq!(
        Compiler::new().compile(&statements("loop { break; } break;")),
        outside
    );
    // a function is no part of the loop that it is declared in
    assert_eq!(
        Compiler::new().compile(&statements("loop { fn f() { break; } break; }")),
        outside
    );
    assert!(Compiler::new()
        .compile(&statements("loop { fn f() { loop { break; } } break; }"))
        .is_ok());
    // the parts of a program can be compiled one by one; the break waits
    let mut compiler = Compiler::new();
    compiler.compile_break().unwrap();
    assert_eq!(compiler.compile(&Vec::new()), outside);
}

#[test]
fn the_machine_cannot_execute_a_break_that_waits() {
    let program = sol::compiler::CompiledProgram {
        functions: Vec::new(),
        global_code: vec![Instruction::PendingBreak],
        global_register_count: 1,
        literals: Vec::new(),
    };
    let mut vm = VM::new(program);
    assert!(vm.step().is_err());
}

#[test]
fn arithmetic_promotes_to_float() {
    let (vm, _) = run("let a = 1 + 2.5; let b = 1 + 2;").unwrap();
    // a is the result of the first addition, in register 3
    assert_eq!(register(&vm, 3), VMValue::Literal(Literal::Float(3.5f64.to_bits())));
    assert_eq!(register(&vm, 6), integer(3));
}

#[test]
fn the_machine_computes_integers_and_leaves_floats_to_the_host() {
    let one = Literal::Integer(1);
    let two = Literal::Integer(2);
    let half = Literal::Float(0.5f64.to_bits());
    assert_eq!(
        evaluate_operator(BinaryOperator::Add, &one, &two),
        Evaluated::Value(Literal::Integer(3))
    );
    assert_eq!(
        evaluate_operator(BinaryOperator::Sub, &one, &two),
        Evaluated::Value(Literal::Integer(-1))
    );
    assert_eq!(
        evaluate_operator(BinaryOperator::Mul, &two, &two),
        Evaluated::Value(Literal::Integer(4))
    );
    assert_eq!(
        evaluate_operator(BinaryOperator::Div, &Literal::Integer(-7), &two),
        Evaluated::Value(Literal::Integer(-3))
    );
    assert_eq!(evaluate_operator(BinaryOperator::Add, &one, &half), Evaluated::NeedsHost);
    assert_eq!(evaluate_operator(BinaryOperator::Mul, &half, &half), Evaluated::NeedsHost);
    assert_eq!(evaluate_operator(BinaryOperator::LessThan, &half, &one), Evaluated::NeedsHost);
    assert_eq!(evaluate_operator(BinaryOperator::Equals, &half, &half), Evaluated::NeedsHost);
    assert_eq!(
        evaluate_operator(BinaryOperator::LessThan, &one, &two),
        Evaluated::Value(Literal::Boolean(true))
    );
    assert_eq!(
        evaluate_operator(BinaryOperator::GreaterThanOrEquals, &one, &two),
        Evaluated::Value(Literal::Boolean(false))
    );
    assert_eq!(
        evaluate_operator(
            BinaryOperator::Equals,
            &Literal::String("a".to_owned()),
            &Literal::String("a".to_owned())
        ),
        Evaluated::Value(Literal::Boolean(true))
    );
    assert_eq!(
        evaluate_operator(
            BinaryOperator::NotEquals,
            &Literal::Boolean(true),
            &Literal::Boolean(true)
        ),
        Evaluated::Value(Literal::Boolean(false))
    );
}

#[test]
fn operands_that_do_not_fit_are_invalid() {
    let one = Literal::Integer(1);
    let word = Literal::String("a".to_owned());
    let half = Literal::Float(0.5f64.to_bits());
    assert_eq!(evaluate_operator(BinaryOperator::Add, &one, &word), Evaluated::Invalid);
    assert_eq!(evaluate_operator(BinaryOperator::Add, &word, &word), Evaluated::Invalid);
    assert_eq!(evaluate_operator(BinaryOperator::LessThan, &word, &word), Evaluated::Invalid);
    assert_eq!(evaluate_operator(BinaryOperator::Equals, &one, &word), Evaluated::Invalid);
    assert_eq!(evaluate_operator(BinaryOperator::Equals, &one, &half), Evaluated::Invalid);
    assert_eq!(
        evaluate_operator(BinaryOperator::Add, &Literal::Integer(i64::MAX), &one),
        Evaluated::Invalid
    );
    assert_eq!(
        evaluate_operator(BinaryOperator::Div, &one, &Literal::Integer(0)),
        Evaluated::Invalid
    );
    assert_eq!(
        evaluate_operator(BinaryOperator::Div, &Literal::Integer(i64::MIN), &Literal::Integer(-1)),
        Evaluated::Invalid
    );
}

#[test]
fn only_the_branch_that_is_taken_runs() {
    let (_, calls) = run(r#"if 2 > 0 { print("pass"); } else { print("fail"); }"#).unwrap();
    assert_eq!(calls, vec![("print".to_owned(), vec![text("pass")])]);
    let (_, calls) = run(r#"if 2 < 0 { print("fail"); } else { print("pass"); }"#).unwrap();
    assert_eq!(calls, vec![("print".to_owned(), vec![text("pass")])]);
    let (_, calls) =
        run(r#"if false { print("a"); } else if true { print("b"); } else { print("c"); }"#)
            .unwrap();
    assert_eq!(calls, vec![("print".to_owned(), vec![text("b")])]);
    let (_, calls) = run(r#"if false { print("a"); } print("after");"#).unwrap();
    assert_eq!(calls, vec![("print".to_owned(), vec![text("after")])]);
}

#[test]
fn a_loop_ends_at_its_break() {
    let (vm, calls) = run(
        r#"
let mut counter = 0;
loop {
    if counter > 4 {
        break;
    }
    counter = counter + 1;
}
print("done");
"#,
    )
    .unwrap();
    assert_eq!(register(&vm, 1), integer(5));
    assert_eq!(calls, vec![("print".to_owned(), vec![text("done")])]);
}

#[test]
fn a_call_leaves_its_result_in_the_register_of_the_variable() {
    let input = "fn add(a: int, b: int) { return a + b; } let r = add(2, 3);";
    let program = Compiler::new().compile(&statements(input)).unwrap();
    assert_eq!(
        program.functions[0].code,
        vec![
            Instruction::Add { dest: 3, lhs: 1, rhs: 2 },
            Instruction::Return { val: 3 },
            Instruction::FunctionReturn,
        ]
    );
    assert_eq!(
        program.global_code,
        vec![
            Instruction::LoadLiteral { dest: 1, src: 0 },
            Instruction::LoadLiteral { dest: 2, src: 1 },
            Instruction::Copy { dest: 3, src: 1 },
            Instruction::Copy { dest: 4, src: 2 },
            Instruction::LoadFunction { dest: 5, src: 0 },
            Instruction::CallFunction { src: 5, arg_count: 2, return_val: 6 },
        ]
    );
    let (vm, _) = run(input).unwrap();
    // r is bound to the register of the result of the call
    assert_eq!(register(&vm, 6), integer(5));
    assert_eq!(vm.registers().base_register(), 0);
}

#[test]
fn recursion_comes_back() {
    let (vm, calls) = run(
        r#"
fn fact(n: int) {
    if n < 2 {
        return 1;
    }
    return n * fact(n - 1);
}
let r = fact(5);
print(r);
"#,
    )
    .unwrap();
    assert_eq!(calls, vec![("print".to_owned(), vec![integer(120)])]);
    assert_eq!(vm.registers().base_register(), 0);
    assert_eq!(register(&vm, 4), integer(120));
}

#[test]
fn a_function_cannot_be_called_before_its_declaration() {
    let early = Err(CompilerError::GeneralError {
        cause: "function called before its declaration".to_owned(),
    });
    assert_eq!(Compiler::new().compile(&statements("later(); fn later() { }")), early);
    // a function cannot call a sibling that is declared behind it
    assert_eq!(
        Compiler::new().compile(&statements("fn a() { b(); } fn b() { }")),
        early
    );
    assert_eq!(
        Compiler::new().compile(&statements("{ { inner(); } fn inner() { } }")),
        early
    );
    // behind the declaration the call is a call of the function
    let program = Compiler::new()
        .compile(&statements("fn b() { } fn a() { b(); a(); } a();"))
        .unwrap();
    assert_eq!(
        program.functions[1].code,
        vec![
            Instruction::LoadFunction { dest: 1, src: 0 },
            Instruction::CallFunction { src: 1, arg_count: 0, return_val: 2 },
            Instruction::LoadFunction { dest: 3, src: 1 },
            Instruction::CallFunction { src: 3, arg_count: 0, return_val: 4 },
            Instruction::FunctionReturn,
        ]
    );
    // a function of a block that is closed is none of the program any more
    let program = Compiler::new()
        .compile(&statements("{ fn hidden() { } } hidden();"))
        .unwrap();
    assert_eq!(
        program.global_code[1],
        Instruction::CallNativeFunction { src: 1, arg_count: 0, return_val: 2 }
    );
}

#[test]
fn a_name_that_the_program_does_not_declare_is_a_native_call() {
    let program = Compiler::new().compile(&statements("unknown(1);")).unwrap();
    assert_eq!(
        program.global_code,
        vec![
            Instruction::LoadLiteral { dest: 1, src: 0 },
            Instruction::Copy { dest: 2, src: 1 },
            Instruction::LoadLiteral { dest: 3, src: 1 },
            Instruction::CallNativeFunction { src: 3, arg_count: 1, return_val: 4 },
        ]
    );
    assert_eq!(
        program.literals,
        vec![Literal::Integer(1), Literal::String("unknown".to_owned())]
    );
    // with no native function of the name the machine faults
    assert!(matches!(run("unknown(1);"), Err(ExecutionError::InvalidOperation { .. })));
}

#[test]
fn objects_are_shared() {
    let (_, calls) = run(
        r#"
let o = {x: 1};
let holder = {inner: o};
holder.inner.x = 2;
print(o.x);
let p = o;
p.x = 3;
print(o.x);
print(holder.inner.x);
"#,
    )
    .unwrap();
    assert_eq!(
        calls,
        vec![
            ("print".to_owned(), vec![integer(2)]),
            ("print".to_owned(), vec![integer(3)]),
            ("print".to_owned(), vec![integer(3)]),
        ]
    );
}

#[test]
fn a_field_that_is_not_there_reads_as_empty() {
    let (_, calls) = run("let o = {x: 1}; print(o.y);").unwrap();
    assert_eq!(calls, vec![("print".to_owned(), vec![VMValue::Empty])]);
}

#[test]
fn arrays_grow_and_read_as_empty_where_nothing_is() {
    let elements = vec![
        Expression::Literal(Literal::Integer(10)),
        Expression::Literal(Literal::Integer(20)),
    ];
    let program = Compiler::new()
        .compile(&vec![
            Statement::Let {
                name: "a".to_owned(),
                value: Box::new(Expression::Array { this: elements }),
                is_mutable: false,
                type_annotation: None,
            },
            Statement::Let {
                name: "second".to_owned(),
                value: Box::new(Expression::ArrayAccess {
                    name: "a".to_owned(),
                    index: Box::new(Expression::Literal(Literal::Integer(1))),
                }),
                is_mutable: false,
                type_annotation: None,
            },
            Statement::Let {
                name: "far".to_owned(),
                value: Box::new(Expression::ArrayAccess {
                    name: "a".to_owned(),
                    index: Box::new(Expression::Literal(Literal::Integer(100))),
                }),
                is_mutable: false,
                type_annotation: None,
            },
        ])
        .unwrap();
    assert_eq!(
        program.global_code,
        vec![
            Instruction::AllocateArray { dest: 1 },
            Instruction::LoadLiteral { dest: 2, src: 0 },
            Instruction::LoadLiteral { dest: 3, src: 1 },
            Instruction::SetArrayIndex { array: 1, index: 2, value: 3 },
            Instruction::LoadLiteral { dest: 4, src: 2 },
            Instruction::LoadLiteral { dest: 5, src: 3 },
            Instruction::SetArrayIndex { array: 1, index: 4, value: 5 },
            Instruction::LoadLiteral { dest: 7, src: 2 },
            Instruction::GetArrayIndex { array: 1, index: 7, return_val: 6 },
            Instruction::LoadLiteral { dest: 9, src: 4 },
            Instruction::GetArrayIndex { array: 1, index: 9, return_val: 8 },
        ]
    );
    let mut vm = VM::new(program);
    assert_eq!(vm.run(100), Ok(Status::Finished));
    assert_eq!(register(&vm, 1), VMValue::Array(0));
    assert_eq!(register(&vm, 6), integer(20));
    assert_eq!(register(&vm, 8), VMValue::Empty);
    // the first store made room for two slots, which the second found there
    assert_eq!(vm.array(0).unwrap().len(), 2);
}

#[test]
fn the_machine_faults_on_what_it_cannot_interpret() {
    assert!(matches!(
        run("let a = -\"text\";"),
        Err(ExecutionError::InvalidOperation { .. })
    ));
    assert!(matches!(
        run("let a = !1;"),
        Err(ExecutionError::InvalidOperation { .. })
    ));
    assert!(matches!(
        run("let a = 1 + \"text\";"),
        Err(ExecutionError::InvalidOperation { .. })
    ));
    assert!(matches!(
        run("let a = 1 / 0;"),
        Err(ExecutionError::InvalidOperation { .. })
    ));
    assert!(matches!(
        run("unknown_function();"),
        Err(ExecutionError::InvalidOperation { .. })
    ));
    assert!(matches!(
        run("if 1 { }"),
        Err(ExecutionError::InvalidOperation { .. })
    ));
    assert!(matches!(
        run("return 1;"),
        Err(ExecutionError::InvalidOperation { .. })
    ));
}

#[test]
fn a_fault_changes_nothing() {
    let mut vm = VM::new(Compiler::new().compile(&statements("let a = 1; let b = !a;")).unwrap());
    assert_eq!(vm.step(), Ok(Status::Running));
    let before = format!("{:?}", vm.registers());
    assert!(vm.step().is_err());
    assert!(vm.step().is_err());
    assert_eq!(format!("{:?}", vm.registers()), before);
}

#[test]
fn the_machine_waits_for_the_host() {
    let mut vm = VM::new(Compiler::new().compile(&statements("let a = 1.5 + 2;")).unwrap());
    assert_eq!(
        vm.run(100),
        Ok(Status::FloatOperation {
            operator: BinaryOperator::Add,
            lhs: Literal::Float(1.5f64.to_bits()),
            rhs: Literal::Integer(2),
        })
    );
    // it does not go on before it has its answer
    assert!(vm.step().is_err());
    // the answer to an addition is a float
    assert!(vm.finish_float_operation(Literal::Boolean(true)).is_err());
    assert!(vm.finish_native_call(None).is_err());
    assert_eq!(vm.finish_float_operation(Literal::Float(3.5f64.to_bits())), Ok(()));
    assert_eq!(vm.run(100), Ok(Status::Finished));
    assert_eq!(register(&vm, 3), VMValue::Literal(Literal::Float(3.5f64.to_bits())));
}

#[test]
fn negation_flips_the_sign_of_a_float() {
    let (vm, _) = run("let a = -2.5; let b = -7;").unwrap();
    assert_eq!(register(&vm, 2), VMValue::Literal(Literal::Float((-2.5f64).to_bits())));
    assert_eq!(register(&vm, 4), integer(-7));
}

#[test]
fn the_step_limit_stops_a_runaway_loop() {
    let mut vm = VM::new(Compiler::new().compile(&statements("loop { }")).unwrap());
    assert_eq!(vm.run(1_000), Ok(Status::Running));
    assert_eq!(vm.run(0), Ok(Status::Running));
    assert_eq!(vm.run(1), Ok(Status::Running));
}

#[test]
fn a_registered_native_function_can_be_called() {
    let program = Compiler::new().compile(&statements("let x = answer(1, 2);")).unwrap();
    let mut vm = VM::new(program).define_native_function("answer".to_owned());
    assert_eq!(
        vm.run(100),
        Ok(Status::NativeCall {
            name: "answer".to_owned(),
            arguments: vec![integer(1), integer(2)],
        })
    );
    assert_eq!(vm.finish_native_call(Some(integer(42))), Ok(()));
    assert_eq!(vm.run(100), Ok(Status::Finished));
    // x is bound to the register of the result
    assert_eq!(register(&vm, 6), integer(42));
}

/// Whether every jump of the code lands inside the code or just behind it,
/// and no break waits.
fn jumps_land_inside(code: &[Instruction]) -> bool {
    code.iter().enumerate().all(|(at, instruction)| match instruction {
        Instruction::Jump { offset } | Instruction::JumpIfFalse { offset, .. } => {
            at + *offset as usize <= code.len()
        }
        Instruction::JumpReverse { offset } => at >= *offset as usize,
        Instruction::PendingBreak => false,
        _ => true,
    })
}

/// The registers that an instruction names.
fn operands(instruction: &Instruction) -> Vec<u8> {
    match *instruction {
        Instruction::Copy { dest, src } => vec![dest, src],
        Instruction::LoadFunction { dest, .. } => vec![dest],
        Instruction::CallNativeFunction { src, return_val, .. } => vec![src, return_val],
        Instruction::CallFunction { src, return_val, .. } => vec![src, return_val],
        Instruction::AllocateObject { dest } => vec![dest],
        Instruction::SetObjectField { object, field, value } => vec![object, field, value],
        Instruction::GetObjectField { object, field, return_val } => {
            vec![object, field, return_val]
        }
        Instruction::AllocateArray { dest } => vec![dest],
        Instruction::SetArrayIndex { array, index, value } => vec![array, index, value],
        Instruction::GetArrayIndex { array, index, return_val } => vec![array, index, return_val],
        Instruction::LoadLiteral { dest, .. } => vec![dest],
        Instruction::PrefixNot { dest, rhs } => vec![dest, rhs],
        Instruction::PrefixSub { dest, rhs } => vec![dest, rhs],
        Instruction::JumpIfFalse { src, .. } => vec![src],
        Instruction::Add { dest, lhs, rhs }
        | Instruction::Sub { dest, lhs, rhs }
        | Instruction::Mul { dest, lhs, rhs }
        | Instruction::Div { dest, lhs, rhs }
        | Instruction::Equals { dest, lhs, rhs }
        | Instruction::NotEquals { dest, lhs, rhs }
        | Instruction::GreaterThan { dest, lhs, rhs }
        | Instruction::GreaterThanOrEquals { dest, lhs, rhs }
        | Instruction::LessThan { dest, lhs, rhs }
        | Instruction::LessThanOrEquals { dest, lhs, rhs } => vec![dest, lhs, rhs],
        Instruction::Return { val } => vec![val],
        _ => Vec::new(),
    }
}

fn counted(code: &[Instruction], register_count: u8) -> bool {
    code.iter().all(|i| operands(i).iter().all(|r| 1 <= *r && *r <= register_count))
}

#[test]
fn register_0_is_never_named() {
    let program = Compiler::new()
        .compile(&statements(
            r#"
let a = 1;
let o = {x: a, y: 2};
fn f(n: int, m: int) {
    let inner = o.x;
    fn g() { return a; }
    if n > m { return g(); }
    o.x = n - m;
    return -n;
}
let mut r = f(a, 2);
loop { r = r + o.y; if !(r < 9) { break; } }
print(r);
"#,
        ))
        .unwrap();
    assert_eq!(program.functions.len(), 2);
    let codes = [
        &program.global_code,
        &program.functions[0].code,
        &program.functions[1].code,
    ];
    for code in codes {
        assert!(!code.is_empty());
        assert!(code.iter().all(|i| operands(i).iter().all(|r| *r >= 1)));
    }
}

#[test]
fn compiled_jumps_land_inside_their_code() {
    let program = Compiler::new()
        .compile(&statements(
            r#"
fn f(n: int) {
    loop {
        if n > 1 { break; } else if n > 2 { return 1; } else { loop { break; } }
        if n < 0 { break; }
    }
    if true { } else { }
}
let mut x = 0;
loop {
    loop { if x > 3 { break; } x = x + 1; }
    if x > 3 { break; } else { x = x + 1; }
}
if x == 4 { print(x); }
"#,
        ))
        .unwrap();
    assert!(jumps_land_inside(&program.global_code));
    assert!(jumps_land_inside(&program.functions[0].code));
    assert!(program.global_code.iter().any(|i| matches!(i, Instruction::JumpReverse { .. })));
    assert!(program.functions[0].code.iter().any(|i| matches!(i, Instruction::Jump { .. })));
    assert!(counted(&program.global_code, program.global_register_count));
    assert!(counted(&program.functions[0].code, program.functions[0].register_count));
    assert!(!counted(&program.global_code, 1));
}

#[test]
fn every_constant_that_is_loaded_lies_in_the_pool() {
    let program = Compiler::new()
        .compile(&statements(
            r#"
fn f(n: int) {
    let s = "inside";
    if n > 7 { return "seven"; }
    return 9;
}
let a = 5;
let b = "x";
loop { let c = 5; if c > 7 { break; } }
let d = {x: 9};
"#,
        ))
        .unwrap();
    let loaded = |code: &[Instruction]| -> Vec<u16> {
        code.iter()
            .filter_map(|i| match i {
                Instruction::LoadLiteral { src, .. } => Some(*src),
                _ => None,
            })
            .collect()
    };
    let of_f: Vec<Literal> = loaded(&program.functions[0].code)
        .iter()
        .map(|id| program.literals[*id as usize].clone())
        .collect();
    assert_eq!(
        of_f,
        vec![
            Literal::String("inside".to_owned()),
            Literal::Integer(7),
            Literal::String("seven".to_owned()),
            Literal::Integer(9),
        ]
    );
    let of_global: Vec<Literal> = loaded(&program.global_code)
        .iter()
        .map(|id| program.literals[*id as usize].clone())
        .collect();
    assert_eq!(
        of_global,
        vec![
            Literal::Integer(5),
            Literal::String("x".to_owned()),
            Literal::Integer(5),
            Literal::Integer(7),
            Literal::String("x".to_owned()),
            Literal::Integer(9),
        ]
    );
    assert_eq!(program.literals.len(), 6);
}

#[test]
fn every_compiled_function_comes_back() {
    let program = Compiler::new()
        .compile(&statements(
            r#"
fn empty() { }
fn ends_in_a_loop(n: int) { loop { if n > 1 { break; } else { break; } } }
fn ends_in_an_if(n: int) { if n > 1 { return 1; } }
fn holds_another() { fn inner() { loop { break; } } inner(); }
"#,
        ))
        .unwrap();
    assert_eq!(program.functions.len(), 5);
    for function in &program.functions {
        assert_eq!(function.code.last(), Some(&Instruction::FunctionReturn));
        for (at, instruction) in function.code.iter().enumerate() {
            match instruction {
                Instruction::Jump { offset } | Instruction::JumpIfFalse { offset, .. } => {
                    assert!(at + (*offset as usize) < function.code.len());
                }
                _ => {}
            }
        }
    }
    assert_eq!(program.functions[0].code, vec![Instruction::FunctionReturn]);
}

#[test]
fn a_finished_run_has_come_back() {
    let (mut vm, calls) = run(
        r#"
fn leaf(n: int) { loop { if n > 1 { break; } else { break; } } }
fn middle(n: int) {
    leaf(n);
    if n > 0 { return middle(n - 1); }
}
fn top() { middle(3); middle(1); print(7); }
top();
top();
"#,
    )
    .unwrap();
    assert_eq!(calls.len(), 2);
    assert_eq!(vm.registers().base_register(), 0);
    // the machine stays at the end of the global code
    assert_eq!(vm.run(10), Ok(Status::Finished));
    assert_eq!(vm.step(), Ok(Status::Finished));
    assert_eq!(vm.registers().base_register(), 0);
}

#[test]
fn a_callee_leaves_the_registers_of_its_caller_alone() {
    let (vm, calls) = run(
        r#"
let a = 1;
let b = 2;
fn f(n: int) {
    let x = 10;
    let y = 20;
    let z = 30;
    if n > 0 { return f(n - 1); }
    return x;
}
let r = f(3);
print(a);
print(b);
print(r);
"#,
    )
    .unwrap();
    assert_eq!(
        calls,
        vec![
            ("print".to_owned(), vec![integer(1)]),
            ("print".to_owned(), vec![integer(2)]),
            ("print".to_owned(), vec![integer(10)]),
        ]
    );
    assert_eq!(register(&vm, 1), integer(1));
    assert_eq!(register(&vm, 2), integer(2));
    assert_eq!(register(&vm, 0), VMValue::Empty);
    assert_eq!(vm.registers().base_register(), 0);
}

#[test]
fn a_parser_error_passes_through_the_compiler() {
    let error = ParserError::ExpectedTokenNotFound { expected: TokenKind::EndOfLine };
    assert_eq!(
        CompilerError::from(error),
        CompilerError::ParserError { source: error }
    );
    let value: RegisterValue = VMValue::Empty;
    assert_eq!(value, VMValue::default());
}
