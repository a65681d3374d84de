//! What holds of every run of the machine.

use crate::ast::Statement;
use crate::compiler::laws::{
    closes, functions_close, jumps_before_end, lemma_compiled_program_is_sound,
};
use crate::compiler::registers::operands_from_one;
use crate::compiler::model::{compile_program, ProgramView, State};
use crate::types::{field_position, fields_get, fields_insert, LiteralView, ObjectValueView};
use crate::instructions::Instruction;
use crate::vm::model::{
    evaluate, execute, host_result_fits, loaded_form, resume_float, resume_native, run,
    running_code, step, step_allocate_array, step_allocate_object, step_binary, step_call,
    step_get_field, step_get_index, step_jump, step_jump_if_false, step_native, step_negate,
    step_not, step_return, step_set_field, step_set_index, stored_form, window_size, Evaluation,
    Event, MachineView, VMView,
};
use crate::vm::value::Pending;
use crate::vm::value::{BinaryOperator, SavedCallFrame, ValueView};
use vstd::prelude::*;

verus! {

/// A position that the search for a field gives lies among the fields, at or
/// after the start of the search, and holds the name.
pub proof fn lemma_field_position(
    fields: Seq<(Seq<char>, ObjectValueView)>,
    name: Seq<char>,
    from: int,
)
    requires
        0 <= from,
    ensures
        field_position(fields, name, from) matches Some(position) ==> from <= position
            < fields.len() && fields[position].0 == name && forall|i: int|
            from <= i < position ==> fields[i].0 != name,
        field_position(fields, name, from) is None ==> forall|i: int|
            from <= i < fields.len() ==> fields[i].0 != name,
    decreases fields.len() - from,
{
    if from < fields.len() && fields[from].0 != name {
        lemma_field_position(fields, name, from + 1);
    }
}

/// The search finds the first position that holds the name.
pub proof fn lemma_field_position_first(
    fields: Seq<(Seq<char>, ObjectValueView)>,
    name: Seq<char>,
    from: int,
    at: int,
)
    requires
        0 <= from <= at < fields.len(),
        fields[at].0 == name,
        forall|i: int| from <= i < at ==> fields[i].0 != name,
    ensures
        field_position(fields, name, from) == Some(at),
    decreases at - from,
{
    if from < at {
        lemma_field_position_first(fields, name, from + 1, at);
    }
}

/// A field that was set reads as what it was set to, and the other fields
/// read as before.
pub proof fn lemma_field_store_then_load(
    fields: Seq<(Seq<char>, ObjectValueView)>,
    name: Seq<char>,
    value: ObjectValueView,
    other: Seq<char>,
)
    ensures
        fields_get(fields_insert(fields, name, value), name) == Some(value),
        other != name ==> fields_get(fields_insert(fields, name, value), other) == fields_get(
            fields,
            other,
        ),
{
    let after = fields_insert(fields, name, value);
    lemma_field_position(fields, name, 0);
    lemma_field_position(fields, other, 0);
    match field_position(fields, name, 0) {
        Some(position) => {
            lemma_field_position_first(after, name, 0, position);
            if other != name {
                match field_position(fields, other, 0) {
                    Some(there) => {
                        lemma_field_position_first(after, other, 0, there);
                    },
                    None => {
                        lemma_field_position(after, other, 0);
                    },
                }
            }
        },
        None => {
            lemma_field_position_first(after, name, 0, fields.len() as int);
            if other != name {
                match field_position(fields, other, 0) {
                    Some(there) => {
                        lemma_field_position_first(after, other, 0, there);
                    },
                    None => {
                        lemma_field_position(after, other, 0);
                    },
                }
            }
        },
    }
}

/// Objects are shared: where two registers hold the same object, a field that
/// is set through one of them is read through the other. The store leaves both
/// registers as they are.
pub proof fn lemma_aliases_see_stores(
    machine: MachineView,
    holder: u8,
    alias: u8,
    field: u8,
    value: u8,
    into: u8,
)
    requires
        machine.read(holder) is Some,
        machine.read(holder) == machine.read(alias),
        step_set_field(machine, alias, field, value).1 == Event::Running,
    ensures
        ({
            let stored = step_set_field(machine, alias, field, value).0;
            &&& stored.read(holder) == machine.read(holder)
            &&& stored.read(alias) == machine.read(alias)
            &&& stored.read(field) == machine.read(field)
            &&& step_get_field(stored, holder, field, into) == stored.store(
                into,
                loaded_form(stored_form(machine.read(value)->0)),
            )
        }),
{
    let stored = step_set_field(machine, alias, field, value).0;
    let handle = machine.read(alias)->0->Object_0;
    let name = machine.read(field)->0->Literal_0->String_0;
    let held = stored_form(machine.read(value)->0)->0;
    lemma_field_store_then_load(machine.objects[handle as int], name, held, name);
}

/// A return undoes what the call did to the window: after a call and the
/// return from it the window starts where it started, the same callers wait,
/// and the caller goes on behind its call.
pub proof fn lemma_return_restores_the_window(
    program: ProgramView,
    machine: MachineView,
    src: u8,
    arg_count: u8,
    return_val: u8,
    inside: MachineView,
)
    requires
        step_call(program, machine, src, arg_count, return_val).1 == Event::Running,
        inside.frames == step_call(program, machine, src, arg_count, return_val).0.frames,
        inside.base == step_call(program, machine, src, arg_count, return_val).0.base,
        machine.ip < usize::MAX,
        machine.registers.len() <= usize::MAX,
    ensures
        step_return(inside, None).1 == Event::Running,
        step_return(inside, None).0.base == machine.base,
        step_return(inside, None).0.frames == machine.frames,
        step_return(inside, None).0.function == machine.function,
        step_return(inside, None).0.ip == machine.ip + 1,
        step_return(inside, None).0.registers == inside.registers,
{
    let called = step_call(program, machine, src, arg_count, return_val).0;
    assert(machine.read(src) matches Some(ValueView::Function(_)));
    let size = window_size(program, machine.function)->0;
    assert(called.base == machine.base + size);
    assert(called.frames.len() == machine.frames.len() + 1);
    assert(called.frames.drop_last() =~= machine.frames);
    assert(called.frames.last().ip == machine.ip);
    assert(inside.frames.drop_last() =~= machine.frames);
}

/// Arithmetic promotes: two integers give an integer (or no result, where it
/// would not fit or the divisor is zero); as soon as one operand is a float
/// and the other a number, the result is left to the host, from which the
/// machine takes a float and nothing else.
pub proof fn lemma_arithmetic_promotes(operator: BinaryOperator, lhs: LiteralView, rhs: LiteralView)
    requires
        operator.is_arithmetic(),
        lhs.is_numeric(),
        rhs.is_numeric(),
    ensures
        lhs is Integer && rhs is Integer ==> (evaluate(operator, lhs, rhs) matches Evaluation::Value(
            result,
        ) ==> result is Integer) && !(evaluate(operator, lhs, rhs) is NeedsHost),
        lhs is Float || rhs is Float ==> evaluate(operator, lhs, rhs) is NeedsHost,
        forall|result: LiteralView| host_result_fits(operator, result) <==> result is Float,
{
}

/// Whether a step went by the rules: where it faulted or found the code at
/// its end, nothing has changed; where it asks something of the host, nothing
/// has changed but what the machine waits for; where the machine runs on, it
/// waits for what it waited for before.
pub open spec fn orderly(machine: MachineView, result: (MachineView, Event)) -> bool {
    &&& result.1 is Fault || result.1 is Finished ==> result.0 == machine
    &&& result.1 is NativeCall || result.1 is FloatOperation ==> result.0 == (MachineView {
        pending: result.0.pending,
        ..machine
    }) && result.0.pending != Pending::Nothing
    &&& result.1 is Running ==> result.0.pending == machine.pending
}

proof fn lemma_store_is_orderly(machine: MachineView, dest: u8, value: ValueView)
    ensures
        orderly(machine, machine.store(dest, value)),
{
}

proof fn lemma_binary_is_orderly(
    machine: MachineView,
    operator: BinaryOperator,
    dest: u8,
    lhs: u8,
    rhs: u8,
)
    ensures
        orderly(machine, step_binary(machine, operator, dest, lhs, rhs)),
{
}

proof fn lemma_prefix_is_orderly(machine: MachineView, dest: u8, rhs: u8)
    ensures
        orderly(machine, step_not(machine, dest, rhs)),
        orderly(machine, step_negate(machine, dest, rhs)),
{
}

proof fn lemma_jumps_are_orderly(machine: MachineView, src: u8, offset: u16, distance: int)
    ensures
        orderly(machine, step_jump_if_false(machine, src, offset)),
        orderly(machine, step_jump(machine, distance)),
{
}

proof fn lemma_calls_are_orderly(
    program: ProgramView,
    natives: Seq<Seq<char>>,
    machine: MachineView,
    src: u8,
    arg_count: u8,
    return_val: u8,
    val: Option<u8>,
)
    ensures
        orderly(machine, step_call(program, machine, src, arg_count, return_val)),
        orderly(machine, step_native(natives, machine, src, arg_count, return_val)),
        orderly(machine, step_return(machine, val)),
{
}

proof fn lemma_objects_are_orderly(machine: MachineView, a: u8, b: u8, c: u8)
    ensures
        orderly(machine, step_allocate_object(machine, a)),
        orderly(machine, step_set_field(machine, a, b, c)),
        orderly(machine, step_get_field(machine, a, b, c)),
{
}

proof fn lemma_arrays_are_orderly(machine: MachineView, a: u8, b: u8, c: u8)
    ensures
        orderly(machine, step_allocate_array(machine, a)),
        orderly(machine, step_set_index(machine, a, b, c)),
        orderly(machine, step_get_index(machine, a, b, c)),
{
}

proof fn lemma_execute_is_orderly(vm: VMView, instruction: Instruction)
    ensures
        orderly(vm.machine, execute(vm, instruction)),
{
    let machine = vm.machine;
    match instruction {
        Instruction::Copy { dest, src } => {
            if machine.read(src) is Some {
                lemma_store_is_orderly(machine, dest, machine.read(src)->0);
            }
        },
        Instruction::LoadFunction { dest, src } => {
            lemma_store_is_orderly(machine, dest, ValueView::Function(src as usize));
        },
        Instruction::LoadLiteral { dest, src } => {
            if src < vm.program.literals.len() {
                lemma_store_is_orderly(
                    machine,
                    dest,
                    ValueView::Literal(vm.program.literals[src as int]),
                );
            }
        },
        Instruction::CallNativeFunction { src, arg_count, return_val } => {
            lemma_calls_are_orderly(
                vm.program,
                vm.natives,
                machine,
                src,
                arg_count,
                return_val,
                None,
            );
        },
        Instruction::CallFunction { src, arg_count, return_val } => {
            lemma_calls_are_orderly(
                vm.program,
                vm.natives,
                machine,
                src,
                arg_count,
                return_val,
                None,
            );
        },
        Instruction::Return { val } => {
            lemma_calls_are_orderly(vm.program, vm.natives, machine, 0, 0, 0, Some(val));
        },
        Instruction::FunctionReturn => {
            lemma_calls_are_orderly(vm.program, vm.natives, machine, 0, 0, 0, None);
        },
        Instruction::AllocateObject { dest } => {
            lemma_objects_are_orderly(machine, dest, 0, 0);
        },
        Instruction::SetObjectField { object, field, value } => {
            lemma_objects_are_orderly(machine, object, field, value);
        },
        Instruction::GetObjectField { object, field, return_val } => {
            lemma_objects_are_orderly(machine, object, field, return_val);
        },
        Instruction::AllocateArray { dest } => {
            lemma_arrays_are_orderly(machine, dest, 0, 0);
        },
        Instruction::SetArrayIndex { array, index, value } => {
            lemma_arrays_are_orderly(machine, array, index, value);
        },
        Instruction::GetArrayIndex { array, index, return_val } => {
            lemma_arrays_are_orderly(machine, array, index, return_val);
        },
        Instruction::PrefixNot { dest, rhs } => {
            lemma_prefix_is_orderly(machine, dest, rhs);
        },
        Instruction::PrefixSub { dest, rhs } => {
            lemma_prefix_is_orderly(machine, dest, rhs);
        },
        Instruction::JumpIfFalse { src, offset } => {
            lemma_jumps_are_orderly(machine, src, offset, 0);
        },
        Instruction::Jump { offset } => {
            lemma_jumps_are_orderly(machine, 0, 0, offset as int);
        },
        Instruction::JumpReverse { offset } => {
            lemma_jumps_are_orderly(machine, 0, 0, -(offset as int));
        },
        Instruction::Add { dest, lhs, rhs } => {
            lemma_binary_is_orderly(machine, BinaryOperator::Add, dest, lhs, rhs);
        },
        Instruction::Sub { dest, lhs, rhs } => {
            lemma_binary_is_orderly(machine, BinaryOperator::Sub, dest, lhs, rhs);
        },
        Instruction::Mul { dest, lhs, rhs } => {
            lemma_binary_is_orderly(machine, BinaryOperator::Mul, dest, lhs, rhs);
        },
        Instruction::Div { dest, lhs, rhs } => {
            lemma_binary_is_orderly(machine, BinaryOperator::Div, dest, lhs, rhs);
        },
        Instruction::Equals { dest, lhs, rhs } => {
            lemma_binary_is_orderly(machine, BinaryOperator::Equals, dest, lhs, rhs);
        },
        Instruction::NotEquals { dest, lhs, rhs } => {
            lemma_binary_is_orderly(machine, BinaryOperator::NotEquals, dest, lhs, rhs);
        },
        Instruction::GreaterThan { dest, lhs, rhs } => {
            lemma_binary_is_orderly(machine, BinaryOperator::GreaterThan, dest, lhs, rhs);
        },
        Instruction::GreaterThanOrEquals { dest, lhs, rhs } => {
            lemma_binary_is_orderly(machine, BinaryOperator::GreaterThanOrEquals, dest, lhs, rhs);
        },
        Instruction::LessThan { dest, lhs, rhs } => {
            lemma_binary_is_orderly(machine, BinaryOperator::LessThan, dest, lhs, rhs);
        },
        Instruction::LessThanOrEquals { dest, lhs, rhs } => {
            lemma_binary_is_orderly(machine, BinaryOperator::LessThanOrEquals, dest, lhs, rhs);
        },
        Instruction::PendingBreak => {},
    }
}

/// A step that faults or finds the code at its end changes nothing, and a
/// step that asks something of the host changes nothing but what the machine
/// waits for.
pub proof fn lemma_only_running_steps_change_the_machine(vm: VMView)
    ensures
        orderly(vm.machine, step(vm)),
{
    if vm.machine.pending == Pending::Nothing {
        match running_code(vm.program, vm.machine) {
            Some(code) => {
                if vm.machine.ip < code.len() {
                    lemma_execute_is_orderly(vm, code[vm.machine.ip as int]);
                }
            },
            None => {},
        }
    }
}

/// A machine that waits for the host takes no step until the host has
/// answered, and the answer of the host sets it going again.
pub proof fn lemma_the_machine_waits_for_the_host(vm: VMView, result: LiteralView)
    requires
        vm.machine.pending != Pending::Nothing,
    ensures
        step(vm) == (vm.machine, Event::Fault),
        resume_native(vm.machine, None) matches Some(resumed) ==> resumed.pending
            == Pending::Nothing,
        resume_float(vm.machine, result) matches Some(resumed) ==> resumed.pending
            == Pending::Nothing,
{
}

/// Running on does not help a machine that has stopped: once a run has ended
/// with the code at its end or with a fault, every further run ends the same
/// way and leaves the machine as it is.
pub proof fn lemma_a_stopped_machine_stays_stopped(vm: VMView, limit: nat)
    requires
        step(vm).1 is Fault || step(vm).1 is Finished,
        limit > 0,
    ensures
        run(vm, limit) == (vm.machine, step(vm).1),
{
    lemma_only_running_steps_change_the_machine(vm);
}

/// The registers that the windows of the callers that wait take, together.
pub open spec fn depth(frames: Seq<SavedCallFrame>) -> int
    decreases frames.len(),
{
    if frames.len() == 0 {
        0
    } else {
        depth(frames.drop_last()) + frames.last().register_count
    }
}

/// Whether the frame, the `place`-th of those that wait, fits the program:
/// the outermost caller is the global code and every other a function of the
/// program, which resumes before the end of its code.
pub open spec fn frame_fits(program: ProgramView, frame: SavedCallFrame, place: int) -> bool {
    match frame.function {
        None => place == 0,
        Some(position) => place > 0 && position < program.functions.len() && frame.ip + 1
            < program.functions[position as int].code.len(),
    }
}

/// Whether the machine is where calls and returns of the program can have
/// brought it: the window starts behind the windows of the callers that wait;
/// the global code runs exactly when no caller waits; and a function that
/// runs, or waits, is one of the program and stands before the end of its
/// code.
pub open spec fn settled(program: ProgramView, machine: MachineView) -> bool {
    &&& machine.registers.len() <= usize::MAX
    &&& machine.base == depth(machine.frames)
    &&& forall|place: int|
        0 <= place < machine.frames.len() ==> frame_fits(
            program,
            #[trigger] machine.frames[place],
            place,
        )
    &&& match machine.function {
        None => machine.frames.len() == 0,
        Some(position) => machine.frames.len() > 0 && position < program.functions.len()
            && machine.ip < program.functions[position as int].code.len(),
    }
}

/// Whether `next` is `machine` with the instruction pointer moved by
/// `distance`, in the same function and window, with the same callers.
pub open spec fn moved(machine: MachineView, next: MachineView, distance: int) -> bool {
    &&& next.ip == machine.ip + distance
    &&& next.frames == machine.frames
    &&& next.base == machine.base
    &&& next.function == machine.function
    &&& next.registers.len() == machine.registers.len()
}

/// Where a step that runs on leaves the instruction pointer, the window and
/// the callers: a call enters a function of the program at its start and
/// leaves a frame for the caller; a return takes the newest frame off and
/// resumes behind the call; a jump moves by its offset; everything else moves
/// to the next instruction.
pub open spec fn flows(
    program: ProgramView,
    machine: MachineView,
    instruction: Instruction,
    next: MachineView,
) -> bool {
    match instruction {
        Instruction::CallFunction { .. } => {
            &&& next.ip == 0
            &&& next.function matches Some(position) && position < program.functions.len()
            &&& next.frames.len() == machine.frames.len() + 1
            &&& next.frames.drop_last() == machine.frames
            &&& next.frames.last().ip == machine.ip
            &&& next.frames.last().function == machine.function
            &&& next.base == machine.base + next.frames.last().register_count
            &&& next.registers.len() == machine.registers.len()
        },
        Instruction::Return { .. } | Instruction::FunctionReturn => {
            &&& machine.frames.len() > 0
            &&& next.ip == machine.frames.last().ip + 1
            &&& next.function == machine.frames.last().function
            &&& next.frames == machine.frames.drop_last()
            &&& next.base == machine.base - machine.frames.last().register_count
            &&& next.registers.len() == machine.registers.len()
        },
        Instruction::Jump { offset } => moved(machine, next, offset as int),
        Instruction::JumpReverse { offset } => moved(machine, next, -(offset as int)),
        Instruction::JumpIfFalse { offset, .. } => moved(machine, next, 1) || moved(
            machine,
            next,
            offset as int,
        ),
        _ => moved(machine, next, 1),
    }
}

proof fn lemma_store_moves_on(machine: MachineView, dest: u8, value: ValueView)
    ensures
        machine.store(dest, value).1 is Running ==> moved(machine, machine.store(dest, value).0, 1),
{
}

proof fn lemma_binary_moves_on(
    machine: MachineView,
    operator: BinaryOperator,
    dest: u8,
    lhs: u8,
    rhs: u8,
)
    ensures
        step_binary(machine, operator, dest, lhs, rhs).1 is Running ==> moved(
            machine,
            step_binary(machine, operator, dest, lhs, rhs).0,
            1,
        ),
{
}

proof fn lemma_prefix_moves_on(machine: MachineView, dest: u8, rhs: u8)
    ensures
        step_not(machine, dest, rhs).1 is Running ==> moved(
            machine,
            step_not(machine, dest, rhs).0,
            1,
        ),
        step_negate(machine, dest, rhs).1 is Running ==> moved(
            machine,
            step_negate(machine, dest, rhs).0,
            1,
        ),
{
}

proof fn lemma_jumps_move(machine: MachineView, src: u8, offset: u16, distance: int)
    ensures
        step_jump_if_false(machine, src, offset).1 is Running ==> moved(
            machine,
            step_jump_if_false(machine, src, offset).0,
            1,
        ) || moved(machine, step_jump_if_false(machine, src, offset).0, offset as int),
        step_jump(machine, distance).1 is Running ==> moved(
            machine,
            step_jump(machine, distance).0,
            distance,
        ),
{
}

proof fn lemma_calls_flow(
    program: ProgramView,
    machine: MachineView,
    src: u8,
    arg_count: u8,
    return_val: u8,
    val: Option<u8>,
)
    requires
        machine.registers.len() <= usize::MAX,
    ensures
        step_call(program, machine, src, arg_count, return_val).1 is Running ==> flows(
            program,
            machine,
            Instruction::CallFunction { src, arg_count, return_val },
            step_call(program, machine, src, arg_count, return_val).0,
        ),
        step_return(machine, val).1 is Running ==> flows(
            program,
            machine,
            Instruction::FunctionReturn,
            step_return(machine, val).0,
        ),
{
    let called = step_call(program, machine, src, arg_count, return_val);
    if called.1 is Running {
        assert(called.0.frames.drop_last() =~= machine.frames);
    }
}

proof fn lemma_objects_move_on(machine: MachineView, a: u8, b: u8, c: u8)
    ensures
        step_allocate_object(machine, a).1 is Running ==> moved(
            machine,
            step_allocate_object(machine, a).0,
            1,
        ),
        step_set_field(machine, a, b, c).1 is Running ==> moved(
            machine,
            step_set_field(machine, a, b, c).0,
            1,
        ),
        step_get_field(machine, a, b, c).1 is Running ==> moved(
            machine,
            step_get_field(machine, a, b, c).0,
            1,
        ),
{
}

proof fn lemma_arrays_move_on(machine: MachineView, a: u8, b: u8, c: u8)
    ensures
        step_allocate_array(machine, a).1 is Running ==> moved(
            machine,
            step_allocate_array(machine, a).0,
            1,
        ),
        step_set_index(machine, a, b, c).1 is Running ==> moved(
            machine,
            step_set_index(machine, a, b, c).0,
            1,
        ),
        step_get_index(machine, a, b, c).1 is Running ==> moved(
            machine,
            step_get_index(machine, a, b, c).0,
            1,
        ),
{
}

/// Every step that runs on moves the machine through the code as its
/// instruction says.
pub proof fn lemma_execute_flows(vm: VMView, instruction: Instruction)
    requires
        vm.machine.registers.len() <= usize::MAX,
    ensures
        execute(vm, instruction).1 is Running ==> flows(
            vm.program,
            vm.machine,
            instruction,
            execute(vm, instruction).0,
        ),
        execute(vm, instruction).1 is NativeCall ==> instruction is CallNativeFunction,
        execute(vm, instruction).1 is FloatOperation ==> !(instruction is FunctionReturn),
{
    let machine = vm.machine;
    match instruction {
        Instruction::Copy { dest, src } => {
            if machine.read(src) is Some {
                lemma_store_moves_on(machine, dest, machine.read(src)->0);
            }
        },
        Instruction::LoadFunction { dest, src } => {
            lemma_store_moves_on(machine, dest, ValueView::Function(src as usize));
        },
        Instruction::LoadLiteral { dest, src } => {
            if src < vm.program.literals.len() {
                lemma_store_moves_on(
                    machine,
                    dest,
                    ValueView::Literal(vm.program.literals[src as int]),
                );
            }
        },
        Instruction::CallNativeFunction { .. } => {},
        Instruction::CallFunction { src, arg_count, return_val } => {
            lemma_calls_flow(vm.program, machine, src, arg_count, return_val, None);
        },
        Instruction::Return { val } => {
            lemma_calls_flow(vm.program, machine, 0, 0, 0, Some(val));
        },
        Instruction::FunctionReturn => {
            lemma_calls_flow(vm.program, machine, 0, 0, 0, None);
        },
        Instruction::AllocateObject { dest } => {
            lemma_objects_move_on(machine, dest, 0, 0);
        },
        Instruction::SetObjectField { object, field, value } => {
            lemma_objects_move_on(machine, object, field, value);
        },
        Instruction::GetObjectField { object, field, return_val } => {
            lemma_objects_move_on(machine, object, field, return_val);
        },
        Instruction::AllocateArray { dest } => {
            lemma_arrays_move_on(machine, dest, 0, 0);
        },
        Instruction::SetArrayIndex { array, index, value } => {
            lemma_arrays_move_on(machine, array, index, value);
        },
        Instruction::GetArrayIndex { array, index, return_val } => {
            lemma_arrays_move_on(machine, array, index, return_val);
        },
        Instruction::PrefixNot { dest, rhs } => {
            lemma_prefix_moves_on(machine, dest, rhs);
        },
        Instruction::PrefixSub { dest, rhs } => {
            lemma_prefix_moves_on(machine, dest, rhs);
        },
        Instruction::JumpIfFalse { src, offset } => {
            lemma_jumps_move(machine, src, offset, 0);
        },
        Instruction::Jump { offset } => {
            lemma_jumps_move(machine, 0, 0, offset as int);
        },
        Instruction::JumpReverse { offset } => {
            lemma_jumps_move(machine, 0, 0, -(offset as int));
        },
        Instruction::Add { dest, lhs, rhs } => {
            lemma_binary_moves_on(machine, BinaryOperator::Add, dest, lhs, rhs);
        },
        Instruction::Sub { dest, lhs, rhs } => {
            lemma_binary_moves_on(machine, BinaryOperator::Sub, dest, lhs, rhs);
        },
        Instruction::Mul { dest, lhs, rhs } => {
            lemma_binary_moves_on(machine, BinaryOperator::Mul, dest, lhs, rhs);
        },
        Instruction::Div { dest, lhs, rhs } => {
            lemma_binary_moves_on(machine, BinaryOperator::Div, dest, lhs, rhs);
        },
        Instruction::Equals { dest, lhs, rhs } => {
            lemma_binary_moves_on(machine, BinaryOperator::Equals, dest, lhs, rhs);
        },
        Instruction::NotEquals { dest, lhs, rhs } => {
            lemma_binary_moves_on(machine, BinaryOperator::NotEquals, dest, lhs, rhs);
        },
        Instruction::GreaterThan { dest, lhs, rhs } => {
            lemma_binary_moves_on(machine, BinaryOperator::GreaterThan, dest, lhs, rhs);
        },
        Instruction::GreaterThanOrEquals { dest, lhs, rhs } => {
            lemma_binary_moves_on(machine, BinaryOperator::GreaterThanOrEquals, dest, lhs, rhs);
        },
        Instruction::LessThan { dest, lhs, rhs } => {
            lemma_binary_moves_on(machine, BinaryOperator::LessThan, dest, lhs, rhs);
        },
        Instruction::LessThanOrEquals { dest, lhs, rhs } => {
            lemma_binary_moves_on(machine, BinaryOperator::LessThanOrEquals, dest, lhs, rhs);
        },
        Instruction::PendingBreak => {},
    }
}

/// A machine that is settled and moves as an instruction of its code says is
/// settled afterwards.
pub proof fn lemma_flowing_keeps_the_frames_settled(
    program: ProgramView,
    machine: MachineView,
    next: MachineView,
)
    requires
        functions_close(program),
        settled(program, machine),
        running_code(program, machine) matches Some(code) && machine.ip < code.len() && flows(
            program,
            machine,
            code[machine.ip as int],
            next,
        ),
    ensures
        settled(program, next),
{
    let code = running_code(program, machine)->0;
    let instruction = code[machine.ip as int];
    match machine.function {
        Some(position) => {
            assert(closes(program.functions[position as int].code));
            assert(jumps_before_end(code, machine.ip as int));
        },
        None => {},
    }
    match instruction {
        Instruction::CallFunction { .. } => {
            let position = next.function->0;
            assert(closes(program.functions[position as int].code));
            assert forall|place: int| 0 <= place < next.frames.len() implies frame_fits(
                program,
                #[trigger] next.frames[place],
                place,
            ) by {
                if place < machine.frames.len() {
                    assert(next.frames[place] == next.frames.drop_last()[place]);
                    assert(frame_fits(program, machine.frames[place], place));
                } else {
                    assert(next.frames[place] == next.frames.last());
                }
            }
        },
        Instruction::Return { .. } | Instruction::FunctionReturn => {
            let last = machine.frames.len() - 1;
            assert(frame_fits(program, machine.frames[last], last));
            assert forall|place: int| 0 <= place < next.frames.len() implies frame_fits(
                program,
                #[trigger] next.frames[place],
                place,
            ) by {
                assert(next.frames[place] == machine.frames[place]);
                assert(frame_fits(program, machine.frames[place], place));
            }
        },
        _ => {},
    }
}

/// A step leaves a settled machine settled; and where it finds the code at
/// its end, that code is the global code, no caller waits, and the window is
/// the first.
#[verifier::spinoff_prover]
#[verifier::rlimit(40)]
pub proof fn lemma_a_step_keeps_the_frames_settled(vm: VMView)
    requires
        functions_close(vm.program),
        settled(vm.program, vm.machine),
    ensures
        settled(vm.program, step(vm).0),
        step(vm).1 is Finished ==> step(vm).0.base == 0 && step(vm).0.frames.len() == 0 && step(
            vm,
        ).0.function is None,
{
    lemma_only_running_steps_change_the_machine(vm);
    if vm.machine.pending == Pending::Nothing {
        match running_code(vm.program, vm.machine) {
            Some(code) => {
                if vm.machine.ip < code.len() {
                    lemma_execute_flows(vm, code[vm.machine.ip as int]);
                    if step(vm).1 is Running {
                        lemma_flowing_keeps_the_frames_settled(
                            vm.program,
                            vm.machine,
                            step(vm).0,
                        );
                    }
                }
            },
            None => {},
        }
    }
}

/// What the host hands back leaves a settled machine settled: the machine
/// goes on behind the instruction that asked.
pub proof fn lemma_the_host_keeps_the_frames_settled(
    vm: VMView,
    returned: Option<ValueView>,
    result: LiteralView,
)
    requires
        functions_close(vm.program),
        settled(vm.program, vm.machine),
        step(vm).1 is NativeCall || step(vm).1 is FloatOperation,
    ensures
        resume_native(step(vm).0, returned) matches Some(resumed) ==> settled(
            vm.program,
            resumed,
        ),
        resume_float(step(vm).0, result) matches Some(resumed) ==> settled(vm.program, resumed),
{
    lemma_only_running_steps_change_the_machine(vm);
    let code = running_code(vm.program, vm.machine)->0;
    lemma_execute_flows(vm, code[vm.machine.ip as int]);
    match vm.machine.function {
        Some(position) => {
            assert(closes(vm.program.functions[position as int].code));
        },
        None => {},
    }
}

/// A run that finishes ends where it began: every call has come back, so the
/// global code is the code that ran off its end, no caller waits, and the
/// window is the first. This holds of a machine that started settled, as the
/// machine before its first step is, on a program whose functions come back.
pub proof fn lemma_a_finished_run_has_come_back(vm: VMView, limit: nat)
    requires
        functions_close(vm.program),
        settled(vm.program, vm.machine),
    ensures
        settled(vm.program, run(vm, limit).0),
        run(vm, limit).1 is Finished ==> run(vm, limit).0.base == 0 && run(
            vm,
            limit,
        ).0.frames.len() == 0 && run(vm, limit).0.function is None,
    decreases limit,
{
    if limit > 0 {
        lemma_a_step_keeps_the_frames_settled(vm);
        let (machine, event) = step(vm);
        if event is Running {
            lemma_a_finished_run_has_come_back(VMView { machine, ..vm }, (limit - 1) as nat);
        }
    }
}

/// The machine before its first step is settled, whatever the program.
pub proof fn lemma_the_first_machine_is_settled(program: ProgramView, capacity: nat)
    requires
        capacity <= usize::MAX,
    ensures
        settled(program, MachineView::initial(capacity)),
{
}

/// A run of a compiled program that finishes has come back from every call:
/// when the machine, started on what the compiler made of a program, finds
/// the code at its end, that code is the global code, no caller waits, and
/// the window is the first.
pub proof fn lemma_a_compiled_program_comes_back(
    statements: Seq<Statement>,
    natives: Seq<Seq<char>>,
    capacity: nat,
    limit: nat,
)
    requires
        compile_program(State::initial(), statements) is Ok,
        capacity <= usize::MAX,
    ensures
        ({
            let vm = VMView {
                program: compile_program(State::initial(), statements)->Ok_0,
                natives,
                machine: MachineView::initial(capacity),
            };
            run(vm, limit).1 is Finished ==> run(vm, limit).0.base == 0 && run(
                vm,
                limit,
            ).0.frames.len() == 0 && run(vm, limit).0.function is None
        }),
{
    let program = compile_program(State::initial(), statements)->Ok_0;
    lemma_compiled_program_is_sound(statements);
    lemma_the_first_machine_is_settled(program, capacity);
    lemma_a_finished_run_has_come_back(
        VMView { program, natives, machine: MachineView::initial(capacity) },
        limit,
    );
}

/// Whether the registers up to and including the one at `limit` are in
/// `next` what they were in `machine`.
pub open spec fn kept_up_to(machine: MachineView, next: MachineView, limit: int) -> bool {
    &&& next.registers.len() == machine.registers.len()
    &&& forall|i: int|
        0 <= i <= limit && i < machine.registers.len() ==> #[trigger] next.registers[i]
            == machine.registers[i]
}

proof fn lemma_store_keeps_the_callers(machine: MachineView, dest: u8, value: ValueView)
    requires
        dest >= 1,
    ensures
        kept_up_to(machine, machine.store(dest, value).0, machine.base as int),
{
}

proof fn lemma_binary_keeps_the_callers(
    machine: MachineView,
    operator: BinaryOperator,
    dest: u8,
    lhs: u8,
    rhs: u8,
)
    requires
        dest >= 1,
    ensures
        kept_up_to(
            machine,
            step_binary(machine, operator, dest, lhs, rhs).0,
            machine.base as int,
        ),
{
}

proof fn lemma_prefix_keeps_the_callers(machine: MachineView, dest: u8, rhs: u8)
    requires
        dest >= 1,
    ensures
        kept_up_to(machine, step_not(machine, dest, rhs).0, machine.base as int),
        kept_up_to(machine, step_negate(machine, dest, rhs).0, machine.base as int),
{
}

proof fn lemma_calls_keep_the_callers(
    program: ProgramView,
    natives: Seq<Seq<char>>,
    machine: MachineView,
    src: u8,
    arg_count: u8,
    return_val: u8,
)
    ensures
        kept_up_to(
            machine,
            step_call(program, machine, src, arg_count, return_val).0,
            machine.base as int,
        ),
        kept_up_to(
            machine,
            step_native(natives, machine, src, arg_count, return_val).0,
            machine.base as int,
        ),
{
}

proof fn lemma_objects_keep_the_callers(machine: MachineView, a: u8, b: u8, c: u8)
    requires
        a >= 1,
        c >= 1,
    ensures
        kept_up_to(machine, step_allocate_object(machine, a).0, machine.base as int),
        kept_up_to(machine, step_set_field(machine, a, b, c).0, machine.base as int),
        kept_up_to(machine, step_get_field(machine, a, b, c).0, machine.base as int),
{
}

proof fn lemma_arrays_keep_the_callers(machine: MachineView, a: u8, b: u8, c: u8)
    requires
        a >= 1,
        c >= 1,
    ensures
        kept_up_to(machine, step_allocate_array(machine, a).0, machine.base as int),
        kept_up_to(machine, step_set_index(machine, a, b, c).0, machine.base as int),
        kept_up_to(machine, step_get_index(machine, a, b, c).0, machine.base as int),
{
}

/// A function writes into its own window only: an instruction that names no
/// register below register 1 and is no return leaves every register up to
/// the start of the window as it was, and with them the registers of every
/// caller that waits.
pub proof fn lemma_a_step_writes_into_its_window(vm: VMView, instruction: Instruction)
    requires
        operands_from_one(instruction),
        !(instruction is Return),
        !(instruction is FunctionReturn),
    ensures
        kept_up_to(vm.machine, execute(vm, instruction).0, vm.machine.base as int),
{
    let machine = vm.machine;
    match instruction {
        Instruction::Copy { dest, src } => {
            if machine.read(src) is Some {
                lemma_store_keeps_the_callers(machine, dest, machine.read(src)->0);
            }
        },
        Instruction::LoadFunction { dest, src } => {
            lemma_store_keeps_the_callers(machine, dest, ValueView::Function(src as usize));
        },
        Instruction::LoadLiteral { dest, src } => {
            if src < vm.program.literals.len() {
                lemma_store_keeps_the_callers(
                    machine,
                    dest,
                    ValueView::Literal(vm.program.literals[src as int]),
                );
            }
        },
        Instruction::CallNativeFunction { src, arg_count, return_val } => {
            lemma_calls_keep_the_callers(
                vm.program,
                vm.natives,
                machine,
                src,
                arg_count,
                return_val,
            );
        },
        Instruction::CallFunction { src, arg_count, return_val } => {
            lemma_calls_keep_the_callers(
                vm.program,
                vm.natives,
                machine,
                src,
                arg_count,
                return_val,
            );
        },
        Instruction::Return { .. } => {},
        Instruction::FunctionReturn => {},
        Instruction::AllocateObject { dest } => {
            lemma_objects_keep_the_callers(machine, dest, 1, 1);
        },
        Instruction::SetObjectField { object, field, value } => {
            lemma_objects_keep_the_callers(machine, object, field, value);
        },
        Instruction::GetObjectField { object, field, return_val } => {
            lemma_objects_keep_the_callers(machine, object, field, return_val);
        },
        Instruction::AllocateArray { dest } => {
            lemma_arrays_keep_the_callers(machine, dest, 1, 1);
        },
        Instruction::SetArrayIndex { array, index, value } => {
            lemma_arrays_keep_the_callers(machine, array, index, value);
        },
        Instruction::GetArrayIndex { array, index, return_val } => {
            lemma_arrays_keep_the_callers(machine, array, index, return_val);
        },
        Instruction::PrefixNot { dest, rhs } => {
            lemma_prefix_keeps_the_callers(machine, dest, rhs);
        },
        Instruction::PrefixSub { dest, rhs } => {
            lemma_prefix_keeps_the_callers(machine, dest, rhs);
        },
        Instruction::JumpIfFalse { .. } => {},
        Instruction::Jump { .. } => {},
        Instruction::JumpReverse { .. } => {},
        Instruction::Add { dest, lhs, rhs } => {
            lemma_binary_keeps_the_callers(machine, BinaryOperator::Add, dest, lhs, rhs);
        },
        Instruction::Sub { dest, lhs, rhs } => {
            lemma_binary_keeps_the_callers(machine, BinaryOperator::Sub, dest, lhs, rhs);
        },
        Instruction::Mul { dest, lhs, rhs } => {
            lemma_binary_keeps_the_callers(machine, BinaryOperator::Mul, dest, lhs, rhs);
        },
        Instruction::Div { dest, lhs, rhs } => {
            lemma_binary_keeps_the_callers(machine, BinaryOperator::Div, dest, lhs, rhs);
        },
        Instruction::Equals { dest, lhs, rhs } => {
            lemma_binary_keeps_the_callers(machine, BinaryOperator::Equals, dest, lhs, rhs);
        },
        Instruction::NotEquals { dest, lhs, rhs } => {
            lemma_binary_keeps_the_callers(machine, BinaryOperator::NotEquals, dest, lhs, rhs);
        },
        Instruction::GreaterThan { dest, lhs, rhs } => {
            lemma_binary_keeps_the_callers(machine, BinaryOperator::GreaterThan, dest, lhs, rhs);
        },
        Instruction::GreaterThanOrEquals { dest, lhs, rhs } => {
            lemma_binary_keeps_the_callers(
                machine,
                BinaryOperator::GreaterThanOrEquals,
                dest,
                lhs,
                rhs,
            );
        },
        Instruction::LessThan { dest, lhs, rhs } => {
            lemma_binary_keeps_the_callers(machine, BinaryOperator::LessThan, dest, lhs, rhs);
        },
        Instruction::LessThanOrEquals { dest, lhs, rhs } => {
            lemma_binary_keeps_the_callers(
                machine,
                BinaryOperator::LessThanOrEquals,
                dest,
                lhs,
                rhs,
            );
        },
        Instruction::PendingBreak => {},
    }
}

/// A return writes the result and nothing else: of the registers, only the
/// one that the frame of the caller names, in the window of the caller, can
/// have changed, and a return without a value changes none.
pub proof fn lemma_a_return_writes_the_result_only(machine: MachineView, val: Option<u8>)
    requires
        machine.frames.len() > 0,
    ensures
        ({
            let returned = step_return(machine, val).0;
            let frame = machine.frames.last();
            let target = machine.base - frame.register_count + frame.function_return_value;
            &&& returned.registers.len() == machine.registers.len()
            &&& forall|i: int|
                0 <= i < machine.registers.len() && i != target ==> #[trigger] returned.registers[i]
                    == machine.registers[i]
            &&& val is None ==> returned.registers == machine.registers
        }),
{
}

/// What the host hands back goes into the window of the function that asked:
/// where the register that waits for it is register 1 or a higher one, every
/// register up to the start of the window stays as it was.
pub proof fn lemma_the_host_writes_into_the_window(
    machine: MachineView,
    returned: Option<ValueView>,
    result: LiteralView,
)
    requires
        match machine.pending {
            Pending::Nothing => true,
            Pending::NativeCall { return_val } => return_val >= 1,
            Pending::FloatOperation { dest, .. } => dest >= 1,
        },
    ensures
        resume_native(machine, returned) matches Some(resumed) ==> kept_up_to(
            machine,
            resumed,
            machine.base as int,
        ),
        resume_float(machine, result) matches Some(resumed) ==> kept_up_to(
            machine,
            resumed,
            machine.base as int,
        ),
{
}

} // verus!
