//! What the machine does, as mathematics: one step is a function from the
//! state of the machine to its next state and what the step asks of the host.

use crate::compiler::model::ProgramView;
use crate::instructions::Instruction;
use crate::types::{array_store, fields_get, fields_insert, LiteralView, ObjectValueView};
use crate::vm::value::{BinaryOperator, Pending, SavedCallFrame, ValueView};
use vstd::prelude::*;

verus! {

/// The part of the machine that execution changes.
pub struct MachineView {
    /// The flat register array.
    pub registers: Seq<ValueView>,
    /// Where in the array the window of the running function starts.
    pub base: usize,
    /// The callers that wait, outermost first.
    pub frames: Seq<SavedCallFrame>,
    /// The running function: a position in the table, or `None` for the global
    /// code.
    pub function: Option<usize>,
    /// The position of the next instruction in the running code.
    pub ip: usize,
    /// The objects on the heap, by handle: the fields of each, in order.
    pub objects: Seq<Seq<(Seq<char>, ObjectValueView)>>,
    /// The arrays on the heap, by handle.
    pub arrays: Seq<Seq<ObjectValueView>>,
    /// What the machine waits for the host to finish.
    pub pending: Pending,
}

/// The machine with its program.
pub struct VMView {
    pub program: ProgramView,
    /// The names of the native functions that the host has registered.
    pub natives: Seq<Seq<char>>,
    pub machine: MachineView,
}

/// What a step comes to.
pub enum Event {
    /// The instruction is done; the machine can take the next step.
    Running,
    /// The instruction pointer has run off the end of the running code.
    Finished,
    /// A native function is to be called with these arguments. The machine
    /// waits for what it returned.
    NativeCall { name: Seq<char>, arguments: Seq<ValueView> },
    /// An operation with a float operand is to be carried out. The machine
    /// waits for the result.
    FloatOperation { operator: BinaryOperator, lhs: LiteralView, rhs: LiteralView },
    /// The machine cannot interpret its state. Nothing has changed.
    Fault,
}

/// How an operator fares on two constants.
pub enum Evaluation {
    /// The machine computes the result itself.
    Value(LiteralView),
    /// An operand is a float: the host computes.
    NeedsHost,
    /// The operands do not fit the operator, or the result does not fit an
    /// integer.
    Invalid,
}

/// The name of the one function of the standard library.
pub open spec fn standard_print() -> Seq<char> {
    "print"@
}

/// Whether the standard library has a function of this name.
pub open spec fn is_standard_function(name: Seq<char>) -> bool {
    name == standard_print()
}

/// Whether a native function of this name can be called: the host has
/// registered one, or the standard library has one.
pub open spec fn native_resolves(natives: Seq<Seq<char>>, name: Seq<char>) -> bool {
    natives.contains(name) || is_standard_function(name)
}

/// The result of an arithmetic operator on two integers, if it is an integer
/// of 64 bits. Division rounds towards zero and has no result for a zero
/// divisor.
pub open spec fn integer_arithmetic(operator: BinaryOperator, lhs: i64, rhs: i64) -> Option<i64> {
    match operator {
        BinaryOperator::Add => lhs.checked_add(rhs),
        BinaryOperator::Sub => lhs.checked_sub(rhs),
        BinaryOperator::Mul => lhs.checked_mul(rhs),
        BinaryOperator::Div => lhs.checked_div(rhs),
        _ => None,
    }
}

/// The result of a comparison of two integers.
pub open spec fn integer_comparison(operator: BinaryOperator, lhs: i64, rhs: i64) -> bool {
    match operator {
        BinaryOperator::Equals => lhs == rhs,
        BinaryOperator::NotEquals => lhs != rhs,
        BinaryOperator::GreaterThan => lhs > rhs,
        BinaryOperator::GreaterThanOrEquals => lhs >= rhs,
        BinaryOperator::LessThan => lhs < rhs,
        BinaryOperator::LessThanOrEquals => lhs <= rhs,
        _ => false,
    }
}

/// How a binary operator fares on two constants.
///
/// Arithmetic takes two numbers: two integers give an integer, and where an
/// operand is a float the result is a float, which the host computes. Equality
/// and inequality take two constants of one kind. The order comparisons take
/// two numbers. Everything else is invalid.
pub open spec fn evaluate(operator: BinaryOperator, lhs: LiteralView, rhs: LiteralView) -> Evaluation {
    if operator.is_arithmetic() {
        match (lhs, rhs) {
            (LiteralView::Integer(a), LiteralView::Integer(b)) => match integer_arithmetic(
                operator,
                a,
                b,
            ) {
                Some(result) => Evaluation::Value(LiteralView::Integer(result)),
                None => Evaluation::Invalid,
            },
            _ => if lhs.is_numeric() && rhs.is_numeric() {
                Evaluation::NeedsHost
            } else {
                Evaluation::Invalid
            },
        }
    } else if operator.is_equality() {
        match (lhs, rhs) {
            (LiteralView::String(a), LiteralView::String(b)) => Evaluation::Value(
                LiteralView::Boolean((a == b) == (operator == BinaryOperator::Equals)),
            ),
            (LiteralView::Integer(a), LiteralView::Integer(b)) => Evaluation::Value(
                LiteralView::Boolean(integer_comparison(operator, a, b)),
            ),
            (LiteralView::Boolean(a), LiteralView::Boolean(b)) => Evaluation::Value(
                LiteralView::Boolean((a == b) == (operator == BinaryOperator::Equals)),
            ),
            (LiteralView::Float(_), LiteralView::Float(_)) => Evaluation::NeedsHost,
            _ => Evaluation::Invalid,
        }
    } else {
        match (lhs, rhs) {
            (LiteralView::Integer(a), LiteralView::Integer(b)) => Evaluation::Value(
                LiteralView::Boolean(integer_comparison(operator, a, b)),
            ),
            _ => if lhs.is_numeric() && rhs.is_numeric() {
                Evaluation::NeedsHost
            } else {
                Evaluation::Invalid
            },
        }
    }
}

/// The kind of result that the host owes for an operator: a float for
/// arithmetic, a boolean for a comparison.
pub open spec fn host_result_fits(operator: BinaryOperator, result: LiteralView) -> bool {
    if operator.is_arithmetic() {
        result is Float
    } else {
        result is Boolean
    }
}

/// The float with the opposite sign: the same bits but for the sign bit.
pub open spec fn negated_float(bits: u64) -> u64 {
    bits ^ 0x8000_0000_0000_0000u64
}

/// What a register holds when it is stored into an object or an array. An
/// empty register cannot be stored.
pub open spec fn stored_form(value: ValueView) -> Option<ObjectValueView> {
    match value {
        ValueView::Empty => None,
        ValueView::Literal(literal) => Some(ObjectValueView::Literal(literal)),
        ValueView::Object(handle) => Some(ObjectValueView::Object(handle)),
        ValueView::Array(handle) => Some(ObjectValueView::Array(handle)),
        ValueView::Function(position) => Some(ObjectValueView::Function(position)),
    }
}

/// What a register holds after a field or a slot was read into it. Nothing
/// there, or `Nil`, gives an empty register.
pub open spec fn loaded_form(value: Option<ObjectValueView>) -> ValueView {
    match value {
        None => ValueView::Empty,
        Some(ObjectValueView::Nil) => ValueView::Empty,
        Some(ObjectValueView::Literal(literal)) => ValueView::Literal(literal),
        Some(ObjectValueView::Object(handle)) => ValueView::Object(handle),
        Some(ObjectValueView::Array(handle)) => ValueView::Array(handle),
        Some(ObjectValueView::Function(position)) => ValueView::Function(position),
    }
}

impl MachineView {
    /// The machine before its first step: every register empty, the window at
    /// the start of the array, no caller waiting, nothing on the heap, and the
    /// global code about to run from its first instruction.
    pub open spec fn initial(capacity: nat) -> MachineView {
        MachineView {
            registers: Seq::new(capacity, |i: int| ValueView::Empty),
            base: 0,
            frames: Seq::empty(),
            function: None,
            ip: 0,
            objects: Seq::empty(),
            arrays: Seq::empty(),
            pending: Pending::Nothing,
        }
    }

    /// What register `r` of the current window holds, if the window reaches
    /// that far.
    pub open spec fn read(self, r: u8) -> Option<ValueView> {
        if self.base + r < self.registers.len() {
            Some(self.registers[self.base + r])
        } else {
            None
        }
    }

    /// The machine with `value` in register `r` of the current window.
    pub open spec fn write(self, r: u8, value: ValueView) -> Option<MachineView> {
        if self.base + r < self.registers.len() {
            Some(MachineView { registers: self.registers.update(self.base + r, value), ..self })
        } else {
            None
        }
    }

    /// The machine with the instruction pointer moved by `distance`.
    pub open spec fn jump(self, distance: int) -> Option<MachineView> {
        if 0 <= self.ip + distance <= usize::MAX {
            Some(MachineView { ip: (self.ip + distance) as usize, ..self })
        } else {
            None
        }
    }

    /// Puts `value` into register `dest` and moves on to the next instruction.
    pub open spec fn store(self, dest: u8, value: ValueView) -> (MachineView, Event) {
        match self.write(dest, value) {
            Some(written) => match written.jump(1) {
                Some(next) => (next, Event::Running),
                None => (self, Event::Fault),
            },
            None => (self, Event::Fault),
        }
    }

    /// Moves on to the next instruction.
    pub open spec fn proceed(self) -> (MachineView, Event) {
        match self.jump(1) {
            Some(next) => (next, Event::Running),
            None => (self, Event::Fault),
        }
    }
}

/// The code that is running.
pub open spec fn running_code(program: ProgramView, machine: MachineView) -> Option<
    Seq<Instruction>,
> {
    match machine.function {
        None => Some(program.global_code),
        Some(position) => if position < program.functions.len() {
            Some(program.functions[position as int].code)
        } else {
            None
        },
    }
}

/// The number of registers in the window of the running function: its
/// register count, or that of the global code where no function runs.
pub open spec fn window_size(program: ProgramView, function: Option<usize>) -> Option<u8> {
    match function {
        None => Some(program.global_register_count),
        Some(position) => if position < program.functions.len() {
            Some(program.functions[position as int].register_count)
        } else {
            None
        },
    }
}

/// A binary operator on two registers.
pub open spec fn step_binary(
    machine: MachineView,
    operator: BinaryOperator,
    dest: u8,
    lhs: u8,
    rhs: u8,
) -> (MachineView, Event) {
    match (machine.read(lhs), machine.read(rhs)) {
        (Some(ValueView::Literal(a)), Some(ValueView::Literal(b))) => match evaluate(operator, a, b) {
            Evaluation::Value(result) => machine.store(dest, ValueView::Literal(result)),
            Evaluation::NeedsHost => (
                MachineView { pending: Pending::FloatOperation { dest, operator }, ..machine },
                Event::FloatOperation { operator, lhs: a, rhs: b },
            ),
            Evaluation::Invalid => (machine, Event::Fault),
        },
        _ => (machine, Event::Fault),
    }
}

/// Logical not, of a boolean.
pub open spec fn step_not(machine: MachineView, dest: u8, rhs: u8) -> (MachineView, Event) {
    match machine.read(rhs) {
        Some(ValueView::Literal(LiteralView::Boolean(b))) => machine.store(
            dest,
            ValueView::Literal(LiteralView::Boolean(!b)),
        ),
        _ => (machine, Event::Fault),
    }
}

/// Negation, of a number.
pub open spec fn step_negate(machine: MachineView, dest: u8, rhs: u8) -> (MachineView, Event) {
    match machine.read(rhs) {
        Some(ValueView::Literal(LiteralView::Float(bits))) => machine.store(
            dest,
            ValueView::Literal(LiteralView::Float(negated_float(bits))),
        ),
        Some(ValueView::Literal(LiteralView::Integer(n))) => if n == i64::MIN {
            (machine, Event::Fault)
        } else {
            machine.store(dest, ValueView::Literal(LiteralView::Integer((-n) as i64)))
        },
        _ => (machine, Event::Fault),
    }
}

/// A jump that is taken when the register holds `false`.
pub open spec fn step_jump_if_false(machine: MachineView, src: u8, offset: u16) -> (
    MachineView,
    Event,
) {
    match machine.read(src) {
        Some(ValueView::Literal(LiteralView::Boolean(b))) => match machine.jump(
            if b {
                1
            } else {
                offset as int
            },
        ) {
            Some(next) => (next, Event::Running),
            None => (machine, Event::Fault),
        },
        _ => (machine, Event::Fault),
    }
}

/// A jump forward or backward.
pub open spec fn step_jump(machine: MachineView, distance: int) -> (MachineView, Event) {
    match machine.jump(distance) {
        Some(next) => (next, Event::Running),
        None => (machine, Event::Fault),
    }
}

/// The registers after the `count` arguments that end below `source_end` were
/// copied to the registers that start at `target`.
pub open spec fn copied_arguments(
    registers: Seq<ValueView>,
    source_end: int,
    count: int,
    target: int,
) -> Seq<ValueView> {
    Seq::new(
        registers.len(),
        |i: int|
            if target <= i < target + count {
                registers[source_end - count + (i - target)]
            } else {
                registers[i]
            },
    )
}

/// A call of a function of the program. The window of the callee starts where
/// that of the caller ends; the arguments, which lie in the registers below
/// `src`, are copied to the registers of the callee from 1 on; a frame records
/// where to resume, how large the window of the caller is and where the result
/// is to go; the callee runs from its first instruction.
pub open spec fn step_call(
    program: ProgramView,
    machine: MachineView,
    src: u8,
    arg_count: u8,
    return_val: u8,
) -> (MachineView, Event) {
    match (machine.read(src), window_size(program, machine.function)) {
        (Some(ValueView::Function(position)), Some(size)) => {
            let new_base = machine.base + size;
            if position >= program.functions.len() || src < arg_count || src > size || new_base
                > machine.registers.len() || (arg_count > 0 && new_base + arg_count
                >= machine.registers.len()) {
                (machine, Event::Fault)
            } else {
                (
                    MachineView {
                        registers: copied_arguments(
                            machine.registers,
                            machine.base + src,
                            arg_count as int,
                            new_base + 1,
                        ),
                        base: new_base as usize,
                        frames: machine.frames.push(
                            SavedCallFrame {
                                ip: machine.ip,
                                function: machine.function,
                                register_count: size,
                                function_return_value: return_val,
                            },
                        ),
                        function: Some(position),
                        ip: 0,
                        ..machine
                    },
                    Event::Running,
                )
            }
        },
        _ => (machine, Event::Fault),
    }
}

/// A return from a call, with or without a value. The newest frame is taken
/// off, the window goes back by the size that the frame recorded, the value
/// goes into the register that the frame names, and the caller resumes behind
/// its call.
pub open spec fn step_return(machine: MachineView, val: Option<u8>) -> (MachineView, Event) {
    if machine.frames.len() == 0 {
        (machine, Event::Fault)
    } else {
        let frame = machine.frames.last();
        let new_base = machine.base - frame.register_count;
        if new_base < 0 || frame.ip >= usize::MAX {
            (machine, Event::Fault)
        } else {
            let resumed = MachineView {
                base: new_base as usize,
                frames: machine.frames.drop_last(),
                function: frame.function,
                ip: (frame.ip + 1) as usize,
                ..machine
            };
            match val {
                None => (resumed, Event::Running),
                Some(register) => match machine.read(register) {
                    None => (machine, Event::Fault),
                    Some(value) => match resumed.write(frame.function_return_value, value) {
                        None => (machine, Event::Fault),
                        Some(written) => (written, Event::Running),
                    },
                },
            }
        }
    }
}

/// A call of a native function. The register holds the name, the arguments lie
/// in the registers below it. The machine hands both to the host and waits.
pub open spec fn step_native(
    natives: Seq<Seq<char>>,
    machine: MachineView,
    src: u8,
    arg_count: u8,
    return_val: u8,
) -> (MachineView, Event) {
    match machine.read(src) {
        Some(ValueView::Literal(LiteralView::String(name))) => if !native_resolves(natives, name)
            || src < arg_count {
            (machine, Event::Fault)
        } else {
            (
                MachineView { pending: Pending::NativeCall { return_val }, ..machine },
                Event::NativeCall {
                    name,
                    arguments: machine.registers.subrange(
                        machine.base + src - arg_count,
                        machine.base + src,
                    ),
                },
            )
        },
        _ => (machine, Event::Fault),
    }
}

/// A new, empty object on the heap, and its handle in the register.
pub open spec fn step_allocate_object(machine: MachineView, dest: u8) -> (MachineView, Event) {
    if machine.objects.len() > usize::MAX {
        (machine, Event::Fault)
    } else {
        match (MachineView { objects: machine.objects.push(Seq::empty()), ..machine }).store(
            dest,
            ValueView::Object(machine.objects.len() as usize),
        ) {
            (next, Event::Running) => (next, Event::Running),
            _ => (machine, Event::Fault),
        }
    }
}

/// A new, empty array on the heap, and its handle in the register.
pub open spec fn step_allocate_array(machine: MachineView, dest: u8) -> (MachineView, Event) {
    if machine.arrays.len() > usize::MAX {
        (machine, Event::Fault)
    } else {
        match (MachineView { arrays: machine.arrays.push(Seq::empty()), ..machine }).store(
            dest,
            ValueView::Array(machine.arrays.len() as usize),
        ) {
            (next, Event::Running) => (next, Event::Running),
            _ => (machine, Event::Fault),
        }
    }
}

/// A store into a field of an object. Every holder of the handle sees it.
pub open spec fn step_set_field(machine: MachineView, object: u8, field: u8, value: u8) -> (
    MachineView,
    Event,
) {
    match (machine.read(object), machine.read(field), machine.read(value)) {
        (
            Some(ValueView::Object(handle)),
            Some(ValueView::Literal(LiteralView::String(name))),
            Some(held),
        ) => match stored_form(held) {
            Some(stored) => if handle < machine.objects.len() {
                (MachineView {
                    objects: machine.objects.update(
                        handle as int,
                        fields_insert(machine.objects[handle as int], name, stored),
                    ),
                    ..machine
                }).proceed_or(machine)
            } else {
                (machine, Event::Fault)
            },
            None => (machine, Event::Fault),
        },
        _ => (machine, Event::Fault),
    }
}

/// A read of a field of an object. A field that is not there reads as empty.
pub open spec fn step_get_field(machine: MachineView, object: u8, field: u8, return_val: u8) -> (
    MachineView,
    Event,
) {
    match (machine.read(object), machine.read(field)) {
        (Some(ValueView::Object(handle)), Some(ValueView::Literal(LiteralView::String(name)))) => if handle
            < machine.objects.len() {
            machine.store(return_val, loaded_form(fields_get(machine.objects[handle as int], name)))
        } else {
            (machine, Event::Fault)
        },
        _ => (machine, Event::Fault),
    }
}

/// A store into a slot of an array, which grows where it is too short.
pub open spec fn step_set_index(machine: MachineView, array: u8, index: u8, value: u8) -> (
    MachineView,
    Event,
) {
    match (machine.read(array), machine.read(index), machine.read(value)) {
        (
            Some(ValueView::Array(handle)),
            Some(ValueView::Literal(LiteralView::Integer(position))),
            Some(held),
        ) => match stored_form(held) {
            Some(stored) => if handle < machine.arrays.len() && 0 <= position && 2 * (position
                + 1) <= usize::MAX {
                (MachineView {
                    arrays: machine.arrays.update(
                        handle as int,
                        array_store(machine.arrays[handle as int], position as int, stored),
                    ),
                    ..machine
                }).proceed_or(machine)
            } else {
                (machine, Event::Fault)
            },
            None => (machine, Event::Fault),
        },
        _ => (machine, Event::Fault),
    }
}

/// A read of a slot of an array. A slot that is not there reads as empty.
pub open spec fn step_get_index(machine: MachineView, array: u8, index: u8, return_val: u8) -> (
    MachineView,
    Event,
) {
    match (machine.read(array), machine.read(index)) {
        (Some(ValueView::Array(handle)), Some(ValueView::Literal(LiteralView::Integer(position)))) => if handle
            < machine.arrays.len() {
            let slots = machine.arrays[handle as int];
            machine.store(
                return_val,
                loaded_form(
                    if 0 <= position < slots.len() {
                        Some(slots[position as int])
                    } else {
                        None
                    },
                ),
            )
        } else {
            (machine, Event::Fault)
        },
        _ => (machine, Event::Fault),
    }
}

impl MachineView {
    /// Moves on to the next instruction, or faults and stays what `before` was.
    pub open spec fn proceed_or(self, before: MachineView) -> (MachineView, Event) {
        match self.jump(1) {
            Some(next) => (next, Event::Running),
            None => (before, Event::Fault),
        }
    }
}

/// What one instruction does.
pub open spec fn execute(vm: VMView, instruction: Instruction) -> (MachineView, Event) {
    let machine = vm.machine;
    match instruction {
        Instruction::Copy { dest, src } => match machine.read(src) {
            Some(value) => machine.store(dest, value),
            None => (machine, Event::Fault),
        },
        Instruction::LoadFunction { dest, src } => if src < vm.program.functions.len() {
            machine.store(dest, ValueView::Function(src as usize))
        } else {
            (machine, Event::Fault)
        },
        Instruction::LoadLiteral { dest, src } => if src < vm.program.literals.len() {
            machine.store(dest, ValueView::Literal(vm.program.literals[src as int]))
        } else {
            (machine, Event::Fault)
        },
        Instruction::CallNativeFunction { src, arg_count, return_val } => step_native(
            vm.natives,
            machine,
            src,
            arg_count,
            return_val,
        ),
        Instruction::CallFunction { src, arg_count, return_val } => step_call(
            vm.program,
            machine,
            src,
            arg_count,
            return_val,
        ),
        Instruction::Return { val } => step_return(machine, Some(val)),
        Instruction::FunctionReturn => step_return(machine, None),
        Instruction::AllocateObject { dest } => step_allocate_object(machine, dest),
        Instruction::SetObjectField { object, field, value } => step_set_field(
            machine,
            object,
            field,
            value,
        ),
        Instruction::GetObjectField { object, field, return_val } => step_get_field(
            machine,
            object,
            field,
            return_val,
        ),
        Instruction::AllocateArray { dest } => step_allocate_array(machine, dest),
        Instruction::SetArrayIndex { array, index, value } => step_set_index(
            machine,
            array,
            index,
            value,
        ),
        Instruction::GetArrayIndex { array, index, return_val } => step_get_index(
            machine,
            array,
            index,
            return_val,
        ),
        Instruction::PrefixNot { dest, rhs } => step_not(machine, dest, rhs),
        Instruction::PrefixSub { dest, rhs } => step_negate(machine, dest, rhs),
        Instruction::JumpIfFalse { src, offset } => step_jump_if_false(machine, src, offset),
        Instruction::Jump { offset } => step_jump(machine, offset as int),
        Instruction::JumpReverse { offset } => step_jump(machine, -(offset as int)),
        Instruction::Add { dest, lhs, rhs } => step_binary(
            machine,
            BinaryOperator::Add,
            dest,
            lhs,
            rhs,
        ),
        Instruction::Sub { dest, lhs, rhs } => step_binary(
            machine,
            BinaryOperator::Sub,
            dest,
            lhs,
            rhs,
        ),
        Instruction::Mul { dest, lhs, rhs } => step_binary(
            machine,
            BinaryOperator::Mul,
            dest,
            lhs,
            rhs,
        ),
        Instruction::Div { dest, lhs, rhs } => step_binary(
            machine,
            BinaryOperator::Div,
            dest,
            lhs,
            rhs,
        ),
        Instruction::Equals { dest, lhs, rhs } => step_binary(
            machine,
            BinaryOperator::Equals,
            dest,
            lhs,
            rhs,
        ),
        Instruction::NotEquals { dest, lhs, rhs } => step_binary(
            machine,
            BinaryOperator::NotEquals,
            dest,
            lhs,
            rhs,
        ),
        Instruction::GreaterThan { dest, lhs, rhs } => step_binary(
            machine,
            BinaryOperator::GreaterThan,
            dest,
            lhs,
            rhs,
        ),
        Instruction::GreaterThanOrEquals { dest, lhs, rhs } => step_binary(
            machine,
            BinaryOperator::GreaterThanOrEquals,
            dest,
            lhs,
            rhs,
        ),
        Instruction::LessThan { dest, lhs, rhs } => step_binary(
            machine,
            BinaryOperator::LessThan,
            dest,
            lhs,
            rhs,
        ),
        Instruction::LessThanOrEquals { dest, lhs, rhs } => step_binary(
            machine,
            BinaryOperator::LessThanOrEquals,
            dest,
            lhs,
            rhs,
        ),
        Instruction::PendingBreak => (machine, Event::Fault),
    }
}

/// One step of the machine. A machine that waits for the host cannot step; a
/// machine whose instruction pointer is past the end of its code has
/// finished; otherwise the instruction under the pointer is executed.
pub open spec fn step(vm: VMView) -> (MachineView, Event) {
    if vm.machine.pending != Pending::Nothing {
        (vm.machine, Event::Fault)
    } else {
        match running_code(vm.program, vm.machine) {
            None => (vm.machine, Event::Fault),
            Some(code) => if vm.machine.ip >= code.len() {
                (vm.machine, Event::Finished)
            } else {
                execute(vm, code[vm.machine.ip as int])
            },
        }
    }
}

/// Up to `limit` steps of the machine: it stops early where a step finishes,
/// faults or asks something of the host.
pub open spec fn run(vm: VMView, limit: nat) -> (MachineView, Event)
    decreases limit,
{
    if limit == 0 {
        (vm.machine, Event::Running)
    } else {
        let (machine, event) = step(vm);
        if event is Running {
            run(VMView { machine, ..vm }, (limit - 1) as nat)
        } else {
            (machine, event)
        }
    }
}

/// The machine after the host has finished a native call: what the call
/// returned, if anything, is in the register that the call named, and the
/// machine is past the call. `None` where the machine was not waiting for a
/// native call.
pub open spec fn resume_native(machine: MachineView, returned: Option<ValueView>) -> Option<
    MachineView,
> {
    match machine.pending {
        Pending::NativeCall { return_val } => {
            let ready = MachineView { pending: Pending::Nothing, ..machine };
            match returned {
                None => ready.jump(1),
                Some(value) => match ready.write(return_val, value) {
                    Some(written) => written.jump(1),
                    None => None,
                },
            }
        },
        _ => None,
    }
}

/// The machine after the host has carried out an operation on floats: the
/// result is in the register that the instruction named, and the machine is
/// past the instruction. `None` where the machine was not waiting for such a
/// result, or where the result is not of the kind that the operator gives.
pub open spec fn resume_float(machine: MachineView, result: LiteralView) -> Option<MachineView> {
    match machine.pending {
        Pending::FloatOperation { dest, operator } => if host_result_fits(operator, result) {
            match (MachineView { pending: Pending::Nothing, ..machine }).write(
                dest,
                ValueView::Literal(result),
            ) {
                Some(written) => written.jump(1),
                None => None,
            }
        } else {
            None
        },
        _ => None,
    }
}

} // verus!
