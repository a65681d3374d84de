//! Register 0 is never named: what holds of the registers of compiled code.

use crate::ast::{Expression, Function, FunctionParameter, Statement};
use crate::compiler::laws::lemma_patch_breaks;
use crate::compiler::model::{
    announce_functions, bind_parameters, callee, close_loop, compile_arguments,
    compile_block, compile_elements, compile_else, compile_expression, compile_fields,
    compile_function, compile_if, compile_let, compile_let_mutation, compile_loop,
    compile_object_mutation, compile_program, compile_return, compile_statement,
    compile_statements, copy_arguments, else_height, emit_call, function_entry,
    has_pending_break, infix_instruction, intern, load_literal, patch_breaks,
    prefix_instruction, resolve, statement_height, statements_height, walk_path, State,
};
use crate::instructions::Instruction;
use crate::scope::ScopeView;
use crate::types::LiteralView;
use vstd::prelude::*;

verus! {

/// Whether every register that the instruction names is register 1 or a
/// higher one.
pub open spec fn operands_from_one(instruction: Instruction) -> bool {
    match instruction {
        Instruction::Copy { dest, src } => dest >= 1 && src >= 1,
        Instruction::LoadFunction { dest, .. } => dest >= 1,
        Instruction::CallNativeFunction { src, return_val, .. } => src >= 1 && return_val >= 1,
        Instruction::CallFunction { src, return_val, .. } => src >= 1 && return_val >= 1,
        Instruction::AllocateObject { dest } => dest >= 1,
        Instruction::SetObjectField { object, field, value } => object >= 1 && field >= 1 && value
            >= 1,
        Instruction::GetObjectField { object, field, return_val } => object >= 1 && field >= 1
            && return_val >= 1,
        Instruction::AllocateArray { dest } => dest >= 1,
        Instruction::SetArrayIndex { array, index, value } => array >= 1 && index >= 1 && value
            >= 1,
        Instruction::GetArrayIndex { array, index, return_val } => array >= 1 && index >= 1
            && return_val >= 1,
        Instruction::LoadLiteral { dest, .. } => dest >= 1,
        Instruction::PrefixNot { dest, rhs } => dest >= 1 && rhs >= 1,
        Instruction::PrefixSub { dest, rhs } => dest >= 1 && rhs >= 1,
        Instruction::JumpIfFalse { src, .. } => src >= 1,
        Instruction::Jump { .. } => true,
        Instruction::JumpReverse { .. } => true,
        Instruction::Add { dest, lhs, rhs } => dest >= 1 && lhs >= 1 && rhs >= 1,
        Instruction::Sub { dest, lhs, rhs } => dest >= 1 && lhs >= 1 && rhs >= 1,
        Instruction::Mul { dest, lhs, rhs } => dest >= 1 && lhs >= 1 && rhs >= 1,
        Instruction::Div { dest, lhs, rhs } => dest >= 1 && lhs >= 1 && rhs >= 1,
        Instruction::Equals { dest, lhs, rhs } => dest >= 1 && lhs >= 1 && rhs >= 1,
        Instruction::NotEquals { dest, lhs, rhs } => dest >= 1 && lhs >= 1 && rhs >= 1,
        Instruction::GreaterThan { dest, lhs, rhs } => dest >= 1 && lhs >= 1 && rhs >= 1,
        Instruction::GreaterThanOrEquals { dest, lhs, rhs } => dest >= 1 && lhs >= 1 && rhs >= 1,
        Instruction::LessThan { dest, lhs, rhs } => dest >= 1 && lhs >= 1 && rhs >= 1,
        Instruction::LessThanOrEquals { dest, lhs, rhs } => dest >= 1 && lhs >= 1 && rhs >= 1,
        Instruction::Return { val } => val >= 1,
        Instruction::FunctionReturn => true,
        Instruction::PendingBreak => true,
    }
}

/// The code names no register below register 1: register 0 of every window
/// is left alone.
pub open spec fn from_one(code: Seq<Instruction>) -> bool {
    forall|at: int| 0 <= at < code.len() ==> operands_from_one(#[trigger] code[at])
}

/// Every name that an open block binds is bound to register 1 or a higher
/// one.
pub open spec fn bound_from_one(scopes: Seq<ScopeView>) -> bool {
    forall|i: int, name: Seq<char>|
        0 <= i < scopes.len() && #[trigger] scopes[i].symbols.contains_key(name)
            ==> scopes[i].symbols[name].register >= 1
}

/// Whether the compiler hands out and has bound and named no register below
/// register 1, in the code that it is writing.
pub open spec fn ready(s: State) -> bool {
    &&& s.scopes.len() > 0
    &&& s.next_register >= 1
    &&& bound_from_one(s.scopes)
    &&& from_one(s.code)
}

/// Whether a step that binds nothing left the compiler ready.
pub open spec fn stays_ready(before: State, after: State) -> bool {
    &&& ready(after)
    &&& after.scopes == before.scopes
    &&& after.functions == before.functions
}

/// Whether no code of the compiler, that of a function or that which it is
/// writing, names a register below register 1, and none is bound or will be
/// handed out.
pub open spec fn starts_at_one(s: State) -> bool {
    &&& ready(s)
    &&& forall|j: int| 0 <= j < s.functions.len() ==> from_one(#[trigger] s.functions[j].code)
}

/// Whether a step of the compiler left all registers at 1 or above, the same
/// number of blocks open and every function in the table.
pub open spec fn keeps_from_one(before: State, after: State) -> bool {
    &&& starts_at_one(after)
    &&& after.scopes.len() == before.scopes.len()
    &&& after.functions.len() >= before.functions.len()
}

proof fn lemma_push_from_one(code: Seq<Instruction>, instruction: Instruction)
    requires
        from_one(code),
        operands_from_one(instruction),
    ensures
        from_one(code.push(instruction)),
{
    let longer = code.push(instruction);
    assert forall|at: int| 0 <= at < longer.len() implies operands_from_one(
        #[trigger] longer[at],
    ) by {
        if at < code.len() {
            assert(longer[at] == code[at]);
        }
    }
}

proof fn lemma_concat_from_one(first: Seq<Instruction>, second: Seq<Instruction>)
    requires
        from_one(first),
        from_one(second),
    ensures
        from_one(first + second),
{
    let both = first + second;
    assert forall|at: int| 0 <= at < both.len() implies operands_from_one(#[trigger] both[at]) by {
        if at < first.len() {
            assert(both[at] == first[at]);
        } else {
            assert(both[at] == second[at - first.len()]);
        }
    }
}

/// A name resolves to register 1 or a higher one.
pub proof fn lemma_names_resolve_from_one(scopes: Seq<ScopeView>, name: Seq<char>)
    requires
        bound_from_one(scopes),
    ensures
        resolve(scopes, name) matches Some(register) ==> register >= 1,
    decreases scopes.len(),
{
    if scopes.len() > 0 {
        if scopes.last().symbols.dom().contains(name) {
            assert(scopes[scopes.len() - 1].symbols.contains_key(name));
        } else {
            lemma_outer_scopes_from_one(scopes);
            lemma_names_resolve_from_one(scopes.drop_last(), name);
        }
    }
}

proof fn lemma_outer_scopes_from_one(scopes: Seq<ScopeView>)
    requires
        bound_from_one(scopes),
        scopes.len() > 0,
    ensures
        bound_from_one(scopes.drop_last()),
{
    let outer = scopes.drop_last();
    assert forall|i: int, name: Seq<char>|
        0 <= i < outer.len() && #[trigger] outer[i].symbols.contains_key(name)
        implies
        outer[i].symbols[name].register >= 1
    by {
        assert(outer[i] == scopes[i]);
        assert(scopes[i].symbols.contains_key(name));
    }
}

/// Binding a name to register 1 or a higher one keeps all names bound so.
proof fn lemma_define_from_one(s: State, name: Seq<char>, register: u8, is_mutable: bool)
    requires
        s.scopes.len() > 0,
        bound_from_one(s.scopes),
        register >= 1,
    ensures
        bound_from_one(s.define(name, register, is_mutable).scopes),
        s.define(name, register, is_mutable).scopes.len() == s.scopes.len(),
        s.define(name, register, is_mutable) == (State {
            scopes: s.define(name, register, is_mutable).scopes,
            ..s
        }),
{
    let after = s.define(name, register, is_mutable).scopes;
    let last = s.scopes.len() - 1;
    assert forall|i: int, other: Seq<char>|
        0 <= i < after.len() && #[trigger] after[i].symbols.contains_key(other)
        implies
        after[i].symbols[other].register >= 1
    by {
        if i == last {
            if other != name {
                assert(s.scopes[i].symbols.contains_key(other));
            }
        } else {
            assert(after[i] == s.scopes[i]);
            assert(s.scopes[i].symbols.contains_key(other));
        }
    }
}

/// Opening and closing a block, and recording the name of a function, keep
/// all names bound to register 1 or a higher one.
proof fn lemma_blocks_from_one(s: State, name: Seq<char>)
    requires
        s.scopes.len() > 0,
        bound_from_one(s.scopes),
    ensures
        bound_from_one(s.enter_scope().scopes),
        bound_from_one(s.exit_scope().scopes),
        bound_from_one(s.announce(name).scopes),
        bound_from_one(s.define_function(name).scopes),
        s.announce(name).scopes.len() == s.scopes.len(),
        s.define_function(name).scopes.len() == s.scopes.len(),
{
    lemma_outer_scopes_from_one(s.scopes);
    let last = s.scopes.len() - 1;
    let entered = s.enter_scope().scopes;
    assert forall|i: int, other: Seq<char>|
        0 <= i < entered.len() && #[trigger] entered[i].symbols.contains_key(other)
        implies
        entered[i].symbols[other].register >= 1
    by {
        if i <= last {
            assert(entered[i] == s.scopes[i]);
            assert(s.scopes[i].symbols.contains_key(other));
        }
    }
    let announced = s.announce(name).scopes;
    assert forall|i: int, other: Seq<char>|
        0 <= i < announced.len() && #[trigger] announced[i].symbols.contains_key(other)
        implies
        announced[i].symbols[other].register >= 1
    by {
        assert(announced[i].symbols == s.scopes[i].symbols);
        assert(s.scopes[i].symbols.contains_key(other));
    }
    let declared = s.define_function(name).scopes;
    assert forall|i: int, other: Seq<char>|
        0 <= i < declared.len() && #[trigger] declared[i].symbols.contains_key(other)
        implies
        declared[i].symbols[other].register >= 1
    by {
        assert(declared[i].symbols == s.scopes[i].symbols);
        assert(s.scopes[i].symbols.contains_key(other));
    }
}

/// Announcing the functions of a block keeps all names bound to register 1
/// or a higher one.
proof fn lemma_announcing_from_one(s: State, statements: Seq<Statement>, from: int)
    requires
        starts_at_one(s),
    ensures
        starts_at_one(announce_functions(s, statements, from)),
        announce_functions(s, statements, from).scopes.len() == s.scopes.len(),
        announce_functions(s, statements, from).functions == s.functions,
        announce_functions(s, statements, from).code == s.code,
        announce_functions(s, statements, from).next_register == s.next_register,
    decreases statements.len() - from,
{
    if 0 <= from < statements.len() {
        match statements[from] {
            Statement::Function(function) => {
                lemma_blocks_from_one(s, function.name@);
                lemma_announcing_from_one(s.announce(function.name@), statements, from + 1);
            },
            _ => {
                lemma_announcing_from_one(s, statements, from + 1);
            },
        }
    }
}

/// Binding parameters binds them to register 1 and higher ones.
proof fn lemma_parameters_from_one(s: State, parameters: Seq<FunctionParameter>, from: int)
    requires
        starts_at_one(s),
    ensures
        bind_parameters(s, parameters, from) matches Ok(after) ==> starts_at_one(after)
            && after.scopes.len() == s.scopes.len() && after.functions == s.functions
            && after.code == s.code,
    decreases parameters.len() - from,
{
    if 0 <= from < parameters.len() {
        match s.allocate() {
            Ok((s1, register)) => {
                lemma_define_from_one(s1, parameters[from].name@, register, false);
                lemma_parameters_from_one(
                    s1.define(parameters[from].name@, register, false),
                    parameters,
                    from + 1,
                );
            },
            Err(_) => {},
        }
    }
}

/// Emitting an instruction that names no register below register 1 leaves
/// the compiler ready.
proof fn lemma_emit_from_one(s: State, instruction: Instruction)
    requires
        ready(s),
        operands_from_one(instruction),
    ensures
        stays_ready(s, s.emit(instruction)),
{
    lemma_push_from_one(s.code, instruction);
}

/// Loading a constant takes register 1 or a higher one.
proof fn lemma_load_literal_from_one(s: State, literal: LiteralView)
    requires
        ready(s),
    ensures
        load_literal(s, literal) matches Ok((after, register)) ==> stays_ready(s, after)
            && register >= 1,
{
    match load_literal(s, literal) {
        Ok((after, dest)) => {
            let (s1, _) = s.allocate()->Ok_0;
            let (s2, id) = intern(s1, literal)->Ok_0;
            lemma_emit_from_one(s2, Instruction::LoadLiteral { dest, src: id });
        },
        Err(_) => {},
    }
}

/// Copying arguments takes registers from 1 on.
proof fn lemma_copy_arguments_from_one(s: State, registers: Seq<u8>, from: int)
    requires
        ready(s),
        forall|i: int| 0 <= i < registers.len() ==> registers[i] >= 1,
    ensures
        copy_arguments(s, registers, from) matches Ok(after) ==> stays_ready(s, after),
    decreases registers.len() - from,
{
    if 0 <= from < registers.len() {
        match s.allocate() {
            Ok((s1, dest)) => {
                let copy = Instruction::Copy { dest, src: registers[from] };
                lemma_emit_from_one(s1, copy);
                lemma_copy_arguments_from_one(s1.emit(copy), registers, from + 1);
            },
            Err(_) => {},
        }
    }
}

/// Emitting a call takes registers from 1 on.
proof fn lemma_emit_call_from_one(s: State, name: Seq<char>, target: Option<int>, arg_count: u8)
    requires
        ready(s),
    ensures
        emit_call(s, name, target, arg_count) matches Ok((after, register)) ==> stays_ready(
            s,
            after,
        ) && register >= 1,
{
    match emit_call(s, name, target, arg_count) {
        Ok((after, return_val)) => {
            match target {
                Some(position) => {
                    let (s1, function) = s.allocate()->Ok_0;
                    let (s2, _) = s1.allocate()->Ok_0;
                    let load = Instruction::LoadFunction { dest: function, src: position as u16 };
                    lemma_emit_from_one(s2, load);
                    lemma_emit_from_one(
                        s2.emit(load),
                        Instruction::CallFunction { src: function, arg_count, return_val },
                    );
                },
                None => {
                    lemma_load_literal_from_one(s, LiteralView::String(name));
                    let (s1, name_register) = load_literal(s, LiteralView::String(name))->Ok_0;
                    let (s2, _) = s1.allocate()->Ok_0;
                    lemma_emit_from_one(
                        s2,
                        Instruction::CallNativeFunction { src: name_register, arg_count, return_val },
                    );
                },
            }
        },
        Err(_) => {},
    }
}

/// Walking a path names registers from 1 on.
proof fn lemma_walk_path_from_one(
    s: State,
    path: Seq<String>,
    from: int,
    until: int,
    object: u8,
    into: u8,
)
    requires
        ready(s),
        object >= 1,
        into >= 1,
    ensures
        walk_path(s, path, from, until, object, into) matches Ok((after, register))
            ==> stays_ready(s, after) && register >= 1,
    decreases until - from,
{
    if !(from < 0 || from >= until || until > path.len()) {
        lemma_load_literal_from_one(s, LiteralView::String(path[from]@));
        match load_literal(s, LiteralView::String(path[from]@)) {
            Ok((s1, field)) => {
                let get = Instruction::GetObjectField { object, field, return_val: into };
                lemma_emit_from_one(s1, get);
                lemma_walk_path_from_one(s1.emit(get), path, from + 1, until, into, into);
            },
            Err(_) => {},
        }
    }
}

/// Compiling an expression names registers from 1 on, the register of the
/// value among them.
pub proof fn lemma_expression_from_one(s: State, e: Expression)
    requires
        ready(s),
    ensures
        compile_expression(s, e) matches Ok((after, register)) ==> stays_ready(s, after)
            && register >= 1,
    decreases e, 0nat,
{
    match e {
        Expression::Prefix { op, expr } => {
            lemma_expression_from_one(s, *expr);
            match compile_expression(s, *expr) {
                Ok((s1, rhs)) => {
                    match s1.allocate() {
                        Ok((s2, dest)) => match prefix_instruction(op, dest, rhs) {
                            Some(instruction) => {
                                lemma_emit_from_one(s2, instruction);
                            },
                            None => {},
                        },
                        Err(_) => {},
                    }
                },
                Err(_) => {},
            }
        },
        Expression::Infix { op, lhs, rhs } => {
            lemma_expression_from_one(s, *lhs);
            match compile_expression(s, *lhs) {
                Ok((s1, lhs_register)) => {
                    lemma_expression_from_one(s1, *rhs);
                    match compile_expression(s1, *rhs) {
                        Ok((s2, rhs_register)) => {
                            match s2.allocate() {
                                Ok((s3, dest)) => match infix_instruction(
                                    op,
                                    dest,
                                    lhs_register,
                                    rhs_register,
                                ) {
                                    Some(instruction) => {
                                        lemma_emit_from_one(s3, instruction);
                                    },
                                    None => {},
                                },
                                Err(_) => {},
                            }
                        },
                        Err(_) => {},
                    }
                },
                Err(_) => {},
            }
        },
        Expression::Literal(literal) => {
            lemma_load_literal_from_one(s, literal@);
        },
        Expression::Variable(name) => {
            lemma_names_resolve_from_one(s.scopes, name@);
        },
        Expression::FunctionCall { name, args } => {
            lemma_arguments_from_one(s, args@, 0);
            match compile_arguments(s, args@, 0) {
                Ok((s1, registers)) => {
                    lemma_copy_arguments_from_one(s1, registers, 0);
                    match copy_arguments(s1, registers, 0) {
                        Ok(s2) => {
                            match callee(s, name@) {
                                Ok(target) => {
                                    lemma_emit_call_from_one(
                                        s2,
                                        name@,
                                        target,
                                        args@.len() as u8,
                                    );
                                },
                                Err(_) => {},
                            }
                        },
                        Err(_) => {},
                    }
                },
                Err(_) => {},
            }
        },
        Expression::Object { fields } => {
            match s.allocate() {
                Ok((s1, object)) => {
                    let allocate = Instruction::AllocateObject { dest: object };
                    lemma_emit_from_one(s1, allocate);
                    lemma_fields_from_one(s1.emit(allocate), fields@, 0, object);
                },
                Err(_) => {},
            }
        },
        Expression::Array { this } => {
            match s.allocate() {
                Ok((s1, array)) => {
                    let allocate = Instruction::AllocateArray { dest: array };
                    lemma_emit_from_one(s1, allocate);
                    lemma_elements_from_one(s1.emit(allocate), this@, 0, array);
                },
                Err(_) => {},
            }
        },
        Expression::ObjectAccess { path } => {
            if path@.len() > 0 {
                match s.allocate() {
                    Ok((s1, into)) => {
                        lemma_names_resolve_from_one(s1.scopes, path@[0]@);
                        match resolve(s1.scopes, path@[0]@) {
                            Some(object) => {
                                lemma_walk_path_from_one(
                                    s1.count(object),
                                    path@,
                                    1,
                                    path@.len() as int,
                                    object,
                                    into,
                                );
                            },
                            None => {},
                        }
                    },
                    Err(_) => {},
                }
            }
        },
        Expression::ArrayAccess { name, index } => {
            match s.allocate() {
                Ok((s1, into)) => {
                    lemma_names_resolve_from_one(s1.scopes, name@);
                    match resolve(s1.scopes, name@) {
                        Some(array) => {
                            lemma_expression_from_one(s1.count(array), *index);
                            match compile_expression(s1.count(array), *index) {
                                Ok((s2, index_register)) => {
                                    lemma_emit_from_one(
                                        s2,
                                        Instruction::GetArrayIndex {
                                            array,
                                            index: index_register,
                                            return_val: into,
                                        },
                                    );
                                },
                                Err(_) => {},
                            }
                        },
                        None => {},
                    }
                },
                Err(_) => {},
            }
        },
    }
}

/// Compiling the arguments of a call names registers from 1 on.
pub proof fn lemma_arguments_from_one(s: State, args: Seq<Expression>, from: int)
    requires
        ready(s),
    ensures
        compile_arguments(s, args, from) matches Ok((after, registers)) ==> stays_ready(s, after)
            && forall|i: int| 0 <= i < registers.len() ==> registers[i] >= 1,
    decreases args, args.len() - from,
{
    if 0 <= from < args.len() {
        lemma_expression_from_one(s, args[from]);
        match compile_expression(s, args[from]) {
            Ok((s1, _)) => {
                lemma_arguments_from_one(s1, args, from + 1);
            },
            Err(_) => {},
        }
    }
}

/// Compiling the fields of an object literal names registers from 1 on.
pub proof fn lemma_fields_from_one(
    s: State,
    fields: Seq<(String, Expression)>,
    from: int,
    object: u8,
)
    requires
        ready(s),
        object >= 1,
    ensures
        compile_fields(s, fields, from, object) matches Ok(after) ==> stays_ready(s, after),
    decreases fields, fields.len() - from,
{
    if 0 <= from < fields.len() {
        lemma_load_literal_from_one(s, LiteralView::String(fields[from].0@));
        match load_literal(s, LiteralView::String(fields[from].0@)) {
            Ok((s1, field)) => {
                lemma_expression_from_one(s1, fields[from].1);
                match compile_expression(s1, fields[from].1) {
                    Ok((s2, value)) => {
                        let set = Instruction::SetObjectField { object, field, value };
                        lemma_emit_from_one(s2, set);
                        lemma_fields_from_one(s2.emit(set), fields, from + 1, object);
                    },
                    Err(_) => {},
                }
            },
            Err(_) => {},
        }
    }
}

/// Compiling the elements of an array literal names registers from 1 on.
pub proof fn lemma_elements_from_one(
    s: State,
    elements: Seq<Expression>,
    from: int,
    array: u8,
)
    requires
        ready(s),
        array >= 1,
    ensures
        compile_elements(s, elements, from, array) matches Ok(after) ==> stays_ready(s, after),
    decreases elements, elements.len() - from,
{
    if 0 <= from < elements.len() && from <= i64::MAX {
        lemma_load_literal_from_one(s, LiteralView::Integer(from as i64));
        match load_literal(s, LiteralView::Integer(from as i64)) {
            Ok((s1, index)) => {
                lemma_expression_from_one(s1, elements[from]);
                match compile_expression(s1, elements[from]) {
                    Ok((s2, value)) => {
                        let set = Instruction::SetArrayIndex { array, index, value };
                        lemma_emit_from_one(s2, set);
                        lemma_elements_from_one(s2.emit(set), elements, from + 1, array);
                    },
                    Err(_) => {},
                }
            },
            Err(_) => {},
        }
    }
}

/// `let`, `const`, `return`, a lone expression and an assignment to a
/// variable name registers from 1 on and bind to such.
proof fn lemma_simple_statements_from_one(
    s: State,
    name: Seq<char>,
    value: Expression,
    is_mutable: bool,
)
    requires
        starts_at_one(s),
    ensures
        compile_let(s, name, value, is_mutable) matches Ok(after) ==> keeps_from_one(s, after),
        compile_return(s, value) matches Ok(after) ==> keeps_from_one(s, after),
        compile_expression(s, value) matches Ok((after, _)) ==> keeps_from_one(s, after),
        compile_let_mutation(s, name, value) matches Ok(after) ==> keeps_from_one(s, after),
{
    lemma_expression_from_one(s, value);
    match compile_expression(s, value) {
        Ok((s1, register)) => {
            lemma_emit_from_one(s1, Instruction::Return { val: register });
            lemma_define_from_one(s1, name, register, is_mutable);
            lemma_names_resolve_from_one(s1.scopes, name);
            match resolve(s1.scopes, name) {
                Some(target) => {
                    let copied = s1.count(target).emit(
                        Instruction::Copy { dest: target, src: register },
                    );
                    lemma_emit_from_one(
                        s1.count(target),
                        Instruction::Copy { dest: target, src: register },
                    );
                    lemma_define_from_one(copied, name, target, true);
                },
                None => {},
            }
        },
        Err(_) => {},
    }
}

/// An assignment to a field names registers from 1 on.
proof fn lemma_object_mutation_from_one(s: State, path: Expression, value: Expression)
    requires
        starts_at_one(s),
    ensures
        compile_object_mutation(s, path, value) matches Ok(after) ==> keeps_from_one(s, after),
{
    match path {
        Expression::ObjectAccess { path } => {
            if path@.len() >= 2 {
                match s.allocate() {
                    Ok((s1, into)) => {
                        lemma_names_resolve_from_one(s1.scopes, path@[0]@);
                        match resolve(s1.scopes, path@[0]@) {
                            Some(base) => {
                                let s1c = s1.count(base);
                                lemma_walk_path_from_one(s1c, path@, 1, path@.len() - 1, base, into);
                                match walk_path(s1c, path@, 1, path@.len() - 1, base, into) {
                                    Ok((s2, object)) => {
                                        lemma_load_literal_from_one(
                                            s2,
                                            LiteralView::String(path@.last()@),
                                        );
                                        match load_literal(s2, LiteralView::String(path@.last()@)) {
                                            Ok((s3, field)) => {
                                                lemma_expression_from_one(s3, value);
                                                match compile_expression(s3, value) {
                                                    Ok((s4, stored)) => {
                                                        lemma_emit_from_one(
                                                            s4,
                                                            Instruction::SetObjectField {
                                                                object,
                                                                field,
                                                                value: stored,
                                                            },
                                                        );
                                                    },
                                                    Err(_) => {},
                                                }
                                            },
                                            Err(_) => {},
                                        }
                                    },
                                    Err(_) => {},
                                }
                            },
                            None => {},
                        }
                    },
                    Err(_) => {},
                }
            }
        },
        _ => {},
    }
}

/// Compiling a statement names registers from 1 on.
pub proof fn lemma_statement_from_one(s: State, statement: Statement)
    requires
        starts_at_one(s),
    ensures
        compile_statement(s, statement) matches Ok(after) ==> keeps_from_one(s, after),
    decreases statement_height(statement), 1nat,
{
    match statement {
        Statement::Const { name, value, .. } => {
            lemma_simple_statements_from_one(s, name@, value, false);
        },
        Statement::Let { name, value, is_mutable, .. } => {
            lemma_simple_statements_from_one(s, name@, *value, is_mutable);
        },
        Statement::Reassignment { name, value } => {
            lemma_simple_statements_from_one(s, name@, *value, false);
        },
        Statement::If { condition, body, else_statement } => {
            lemma_if_from_one(s, *condition, *body, else_statement);
        },
        Statement::Block { body } => {
            lemma_block_from_one(s, body@);
        },
        Statement::Function(function) => {
            lemma_function_from_one(s, function);
        },
        Statement::Expression(expression) => {
            lemma_simple_statements_from_one(s, Seq::empty(), expression, false);
        },
        Statement::Return(expression) => {
            lemma_simple_statements_from_one(s, Seq::empty(), expression, false);
        },
        Statement::Loop { body } => {
            lemma_loop_from_one(s, *body);
        },
        Statement::Break => {
            lemma_emit_from_one(s, Instruction::PendingBreak);
        },
        Statement::ObjectMutation { path, value } => {
            lemma_object_mutation_from_one(s, path, *value);
        },
    }
}

/// Compiling statements one after the other names registers from 1 on.
pub proof fn lemma_statements_from_one(s: State, statements: Seq<Statement>, from: int)
    requires
        starts_at_one(s),
    ensures
        compile_statements(s, statements, from) matches Ok(after) ==> keeps_from_one(s, after),
    decreases statements_height(statements, from), 0nat,
{
    if 0 <= from < statements.len() {
        lemma_statement_from_one(s, statements[from]);
        match compile_statement(s, statements[from]) {
            Ok(s1) => {
                lemma_statements_from_one(s1, statements, from + 1);
            },
            Err(_) => {},
        }
    }
}

/// Compiling a block names registers from 1 on.
pub proof fn lemma_block_from_one(s: State, body: Seq<Statement>)
    requires
        starts_at_one(s),
    ensures
        compile_block(s, body) matches Ok(after) ==> keeps_from_one(s, after),
    decreases statements_height(body, 0), 1nat,
{
    lemma_blocks_from_one(s, Seq::empty());
    let entered = s.enter_scope();
    lemma_announcing_from_one(entered, body, 0);
    let announced = announce_functions(entered, body, 0);
    lemma_statements_from_one(announced, body, 0);
    match compile_statements(announced, body, 0) {
        Ok(s1) => {
            lemma_blocks_from_one(s1, Seq::empty());
        },
        Err(_) => {},
    }
}

/// Compiling what follows `else` names registers from 1 on.
pub proof fn lemma_else_from_one(s: State, else_statement: Statement)
    requires
        starts_at_one(s),
    ensures
        compile_else(s, else_statement) matches Ok(after) ==> keeps_from_one(s, after),
    decreases statement_height(else_statement), 1nat,
{
    match else_statement {
        Statement::If { condition, body, else_statement } => {
            lemma_if_from_one(s, *condition, *body, else_statement);
        },
        Statement::Block { body } => {
            lemma_block_from_one(s, body@);
        },
        _ => {},
    }
}

/// Compiling an `if` names registers from 1 on.
pub proof fn lemma_if_from_one(
    s: State,
    condition: Expression,
    body: Statement,
    else_statement: Option<Box<Statement>>,
)
    requires
        starts_at_one(s),
    ensures
        compile_if(s, condition, body, else_statement) matches Ok(after) ==> keeps_from_one(
            s,
            after,
        ),
    decreases statement_height(body) + else_height(else_statement) + 1, 0nat,
{
    lemma_expression_from_one(s, condition);
    match compile_expression(s, condition) {
        Ok((s1, test)) => {
            lemma_statement_from_one(s1.with_code(Seq::empty()), body);
            match compile_statement(s1.with_code(Seq::empty()), body) {
                Ok(s2) => {
                    let skip = s2.code.len() + 1 + (if else_statement is Some {
                        1int
                    } else {
                        0int
                    });
                    if skip <= u16::MAX {
                        let jump = Instruction::JumpIfFalse { src: test, offset: skip as u16 };
                        let s3 = s2.with_code(s1.code.push(jump) + s2.code);
                        lemma_push_from_one(s1.code, jump);
                        lemma_concat_from_one(s1.code.push(jump), s2.code);
                        match else_statement {
                            None => {},
                            Some(otherwise) => {
                                lemma_else_from_one(s3.with_code(Seq::empty()), *otherwise);
                                match compile_else(s3.with_code(Seq::empty()), *otherwise) {
                                    Ok(s4) => {
                                        if s4.code.len() + 1 <= u16::MAX {
                                            let over = Instruction::Jump {
                                                offset: (s4.code.len() + 1) as u16,
                                            };
                                            lemma_push_from_one(s3.code, over);
                                            lemma_concat_from_one(s3.code.push(over), s4.code);
                                        }
                                    },
                                    Err(_) => {},
                                }
                            },
                        }
                    }
                },
                Err(_) => {},
            }
        },
        Err(_) => {},
    }
}

/// Closing a loop names no register that its body did not name.
proof fn lemma_closed_loop_from_one(body: Seq<Instruction>)
    requires
        from_one(body),
    ensures
        close_loop(body) matches Ok(code) ==> from_one(code),
{
    lemma_patch_breaks(body, 0);
    match close_loop(body) {
        Ok(code) => {
            let patched = patch_breaks(body, 0)->Ok_0;
            assert forall|at: int| 0 <= at < code.len() implies operands_from_one(
                #[trigger] code[at],
            ) by {
                if at < body.len() {
                    assert(code[at] == patched[at]);
                    assert(operands_from_one(body[at]));
                }
            }
        },
        Err(_) => {},
    }
}

/// Compiling a loop names registers from 1 on.
pub proof fn lemma_loop_from_one(s: State, body: Statement)
    requires
        starts_at_one(s),
    ensures
        compile_loop(s, body) matches Ok(after) ==> keeps_from_one(s, after),
    decreases statement_height(body), 1nat,
{
    match body {
        Statement::Block { body } => {
            lemma_block_from_one(s.with_code(Seq::empty()), body@);
            match compile_block(s.with_code(Seq::empty()), body@) {
                Ok(s1) => {
                    lemma_closed_loop_from_one(s1.code);
                    match close_loop(s1.code) {
                        Ok(code) => {
                            lemma_concat_from_one(s.code, code);
                        },
                        Err(_) => {},
                    }
                },
                Err(_) => {},
            }
        },
        _ => {},
    }
}

/// Compiling a function names registers from 1 on, in the function and in
/// the code around it.
pub proof fn lemma_function_from_one(s: State, function: Function)
    requires
        starts_at_one(s),
    ensures
        compile_function(s, function) matches Ok(after) ==> keeps_from_one(s, after),
    decreases statement_height(*function.body), 1nat,
{
    let entry = function_entry(s, function);
    let declared = s.define_function(function.name@);
    lemma_blocks_from_one(s, function.name@);
    lemma_blocks_from_one(declared, function.name@);
    assert(starts_at_one(entry)) by {
        assert forall|j: int| 0 <= j < entry.functions.len() implies from_one(
            #[trigger] entry.functions[j].code,
        ) by {
            if j < s.functions.len() {
                assert(entry.functions[j] == s.functions[j]);
            }
        }
    }
    lemma_parameters_from_one(entry, function.parameters@, 0);
    match bind_parameters(entry, function.parameters@, 0) {
        Ok(s1) => match *function.body {
            Statement::Block { body } => {
                lemma_announcing_from_one(s1, body@, 0);
                lemma_statements_from_one(announce_functions(s1, body@, 0), body@, 0);
                match compile_statements(announce_functions(s1, body@, 0), body@, 0) {
                    Ok(s2) => {
                        if !has_pending_break(s2.code) {
                            lemma_push_from_one(s2.code, Instruction::FunctionReturn);
                            lemma_blocks_from_one(s2, function.name@);
                            let after = compile_function(s, function)->Ok_0;
                            assert(s1.functions.len() == s.functions.len() + 1);
                            assert forall|j: int| 0 <= j < after.functions.len() implies from_one(
                                #[trigger] after.functions[j].code,
                            ) by {
                                if j != s.functions.len() {
                                    assert(after.functions[j] == s2.functions[j]);
                                }
                            }
                        }
                    },
                    Err(_) => {},
                }
            },
            _ => {},
        },
        Err(_) => {},
    }
}

/// Register 0 is never named: in a compiled program every register that
/// code names, the global code or that of a function, is register 1 or a
/// higher one, so that register 0 of every window is left alone.
pub proof fn lemma_compiled_registers_start_at_one(statements: Seq<Statement>)
    requires
        compile_program(State::initial(), statements) is Ok,
    ensures
        ({
            let program = compile_program(State::initial(), statements)->Ok_0;
            &&& from_one(program.global_code)
            &&& forall|j: int|
                0 <= j < program.functions.len() ==> from_one(
                    #[trigger] program.functions[j].code,
                )
        }),
{
    let initial = State::initial();
    assert(initial.scopes[0].symbols =~= Map::empty());
    assert(starts_at_one(initial));
    lemma_announcing_from_one(initial, statements, 0);
    lemma_statements_from_one(announce_functions(initial, statements, 0), statements, 0);
}

} // verus!
