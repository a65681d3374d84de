//! The register machine that executes compiled programs.
//!
//! The machine never calls out. Where an instruction needs the host (a native
//! function, or arithmetic on floats) the machine stops and says what it
//! needs; the host does it and hands the result back.

pub mod laws;
pub mod model;
pub mod registers;
pub mod value;

use crate::compiler::model::ProgramView;
use crate::compiler::{function_views, CompiledProgram, Function};
use crate::instructions::{Instruction, Register};
use crate::types::{literal_views, Array, Literal, LiteralView, Object, ObjectValue, ObjectValueView};
use crate::vm::model::{
    copied_arguments, evaluate, execute, integer_arithmetic, integer_comparison,
    is_standard_function, loaded_form, native_resolves, resume_float, resume_native, run, step,
    step_allocate_array, step_allocate_object, step_binary, step_call, step_get_field,
    step_get_index, step_jump, step_jump_if_false, step_native, step_negate, step_not, step_return,
    step_set_field, step_set_index, stored_form, window_size, Evaluation, Event, MachineView,
    VMView,
};
use crate::vm::registers::Registers;
use crate::vm::value::{register_views, BinaryOperator, Pending, SavedCallFrame, VMValue, ValueView};
use vstd::prelude::*;

verus! {

/// What a register holds, under the name that it has where registers are
/// spoken of.
pub type RegisterValue = VMValue;

/// Why the machine stopped for good: it met a state that it cannot interpret;
/// the cause says which.
#[derive(Debug, PartialEq)]
pub enum ExecutionError {
    InvalidOperation { cause: String },
}

/// What the machine reports when it stops.
#[derive(Debug, PartialEq)]
pub enum Status {
    /// The machine has more to do and needs nothing.
    Running,
    /// The running code has come to its end.
    Finished,
    /// The host is to call the native function `name` with `arguments` and to
    /// hand what it returns to [`VM::finish_native_call`].
    NativeCall { name: String, arguments: Vec<VMValue> },
    /// The host is to apply `operator` to the two numbers, of which at least
    /// one is a float, and to hand the result to
    /// [`VM::finish_float_operation`].
    FloatOperation { operator: BinaryOperator, lhs: Literal, rhs: Literal },
}

impl View for Status {
    type V = Event;

    open spec fn view(&self) -> Event {
        match *self {
            Status::Running => Event::Running,
            Status::Finished => Event::Finished,
            Status::NativeCall { name, arguments } => Event::NativeCall {
                name: name@,
                arguments: register_views(arguments@),
            },
            Status::FloatOperation { operator, lhs, rhs } => Event::FloatOperation {
                operator,
                lhs: lhs@,
                rhs: rhs@,
            },
        }
    }
}

/// The event that a result of the machine stands for: an error is a fault.
pub open spec fn outcome(result: Result<Status, ExecutionError>) -> Event {
    match result {
        Ok(status) => status@,
        Err(_) => Event::Fault,
    }
}

/// How an operator fares on two constants; see [`evaluate_operator`].
#[derive(Debug, PartialEq)]
pub enum Evaluated {
    Value(Literal),
    NeedsHost,
    Invalid,
}

impl View for Evaluated {
    type V = Evaluation;

    open spec fn view(&self) -> Evaluation {
        match *self {
            Evaluated::Value(literal) => Evaluation::Value(literal@),
            Evaluated::NeedsHost => Evaluation::NeedsHost,
            Evaluated::Invalid => Evaluation::Invalid,
        }
    }
}

/// The names of a list of strings.
pub open spec fn name_views(names: Seq<String>) -> Seq<Seq<char>> {
    Seq::new(names.len(), |i: int| names[i]@)
}

/// The fields of the objects of a heap, by handle.
pub open spec fn object_views(objects: Seq<Object>) -> Seq<Seq<(Seq<char>, ObjectValueView)>> {
    Seq::new(objects.len(), |i: int| objects[i]@)
}

/// The slots of the arrays of a heap, by handle.
pub open spec fn array_views(arrays: Seq<Array>) -> Seq<Seq<ObjectValueView>> {
    Seq::new(arrays.len(), |i: int| arrays[i]@)
}

/// The error of the machine that carries `cause` as its text.
fn invalid_operation(cause: &str) -> (error: ExecutionError)
    ensures
        error matches ExecutionError::InvalidOperation { cause: text } && text@ == cause@,
{
    ExecutionError::InvalidOperation { cause: cause.to_owned() }
}

/// Whether the standard library has a function called `name`.
pub fn standard_library_has(name: &str) -> (r: bool)
    ensures
        r == is_standard_function(name@),
{
    let wanted = name.to_owned();
    let print = "print".to_owned();
    wanted == print
}

fn integer_operation(operator: BinaryOperator, lhs: i64, rhs: i64) -> (r: Option<i64>)
    requires
        operator.is_arithmetic(),
    ensures
        r == integer_arithmetic(operator, lhs, rhs),
{
    match operator {
        BinaryOperator::Add => lhs.checked_add(rhs),
        BinaryOperator::Sub => lhs.checked_sub(rhs),
        BinaryOperator::Mul => lhs.checked_mul(rhs),
        _ => lhs.checked_div(rhs),
    }
}

fn integer_test(operator: BinaryOperator, lhs: i64, rhs: i64) -> (r: bool)
    requires
        !operator.is_arithmetic(),
    ensures
        r == integer_comparison(operator, lhs, rhs),
{
    match operator {
        BinaryOperator::Equals => lhs == rhs,
        BinaryOperator::NotEquals => lhs != rhs,
        BinaryOperator::GreaterThan => lhs > rhs,
        BinaryOperator::GreaterThanOrEquals => lhs >= rhs,
        BinaryOperator::LessThan => lhs < rhs,
        _ => lhs <= rhs,
    }
}

fn numeric(literal: &Literal) -> (r: bool)
    ensures
        r == literal@.is_numeric(),
{
    match literal {
        Literal::Integer(_) => true,
        Literal::Float(_) => true,
        _ => false,
    }
}

/// Applies a binary operator to two constants as far as the machine can:
/// integers are computed, with overflow and division by zero invalid; constants
/// of one kind are tested for equality; where a float is involved the host is
/// needed; operands that do not fit the operator are invalid.
pub fn evaluate_operator(operator: BinaryOperator, lhs: &Literal, rhs: &Literal) -> (r: Evaluated)
    ensures
        r@ == evaluate(operator, lhs@, rhs@),
{
    if operator.arithmetic() {
        match lhs {
            Literal::Integer(a) => match rhs {
                Literal::Integer(b) => {
                    return match integer_operation(operator, *a, *b) {
                        Some(result) => Evaluated::Value(Literal::Integer(result)),
                        None => Evaluated::Invalid,
                    };
                },
                _ => {},
            },
            _ => {},
        }
        if numeric(lhs) && numeric(rhs) {
            Evaluated::NeedsHost
        } else {
            Evaluated::Invalid
        }
    } else if operator.equality() {
        let equals = match operator {
            BinaryOperator::Equals => true,
            _ => false,
        };
        match lhs {
            Literal::String(a) => match rhs {
                Literal::String(b) => Evaluated::Value(Literal::Boolean((*a == *b) == equals)),
                _ => Evaluated::Invalid,
            },
            Literal::Integer(a) => match rhs {
                Literal::Integer(b) => Evaluated::Value(
                    Literal::Boolean(integer_test(operator, *a, *b)),
                ),
                _ => Evaluated::Invalid,
            },
            Literal::Boolean(a) => match rhs {
                Literal::Boolean(b) => Evaluated::Value(Literal::Boolean((*a == *b) == equals)),
                _ => Evaluated::Invalid,
            },
            Literal::Float(_) => match rhs {
                Literal::Float(_) => Evaluated::NeedsHost,
                _ => Evaluated::Invalid,
            },
        }
    } else {
        match lhs {
            Literal::Integer(a) => match rhs {
                Literal::Integer(b) => {
                    return Evaluated::Value(Literal::Boolean(integer_test(operator, *a, *b)));
                },
                _ => {},
            },
            _ => {},
        }
        if numeric(lhs) && numeric(rhs) {
            Evaluated::NeedsHost
        } else {
            Evaluated::Invalid
        }
    }
}

/// What a register holds in the form in which containers store it; `None` for
/// an empty register.
pub fn to_stored(value: &VMValue) -> (r: Option<ObjectValue>)
    ensures
        match r {
            Some(stored) => stored_form(value@) == Some(stored@),
            None => stored_form(value@) is None,
        },
{
    match value {
        VMValue::Empty => None,
        VMValue::Literal(literal) => Some(ObjectValue::Literal(literal.clone())),
        VMValue::Object(handle) => Some(ObjectValue::Object(*handle)),
        VMValue::Array(handle) => Some(ObjectValue::Array(*handle)),
        VMValue::Function(position) => Some(ObjectValue::Function(*position)),
    }
}

/// What a register holds after `value` was read out of a container into it.
pub fn to_loaded(value: Option<ObjectValue>) -> (r: VMValue)
    ensures
        r@ == loaded_form(
            match value {
                Some(stored) => Some(stored@),
                None => None,
            },
        ),
{
    match value {
        None => VMValue::Empty,
        Some(ObjectValue::Nil) => VMValue::Empty,
        Some(ObjectValue::Literal(literal)) => VMValue::Literal(literal),
        Some(ObjectValue::Object(handle)) => VMValue::Object(handle),
        Some(ObjectValue::Array(handle)) => VMValue::Array(handle),
        Some(ObjectValue::Function(position)) => VMValue::Function(position),
    }
}

/// The machine: a program, the names of the native functions that the host
/// has registered, and the state of the run.
pub struct VM {
    functions: Vec<Function>,
    native_functions: Vec<String>,
    global_function: Function,
    literals: Vec<Literal>,
    registers: Registers,
    saved_call_frames: Vec<SavedCallFrame>,
    current_function: Option<usize>,
    ip: usize,
    objects: Vec<Object>,
    arrays: Vec<Array>,
    pending: Pending,
}

impl View for VM {
    type V = VMView;

    closed spec fn view(&self) -> VMView {
        VMView {
            program: ProgramView {
                functions: function_views(self.functions@),
                global_code: self.global_function.code@,
                global_register_count: self.global_function.register_count,
                literals: literal_views(self.literals@),
            },
            natives: name_views(self.native_functions@),
            machine: MachineView {
                registers: self.registers.values(),
                base: self.registers.base(),
                frames: self.saved_call_frames@,
                function: self.current_function,
                ip: self.ip,
                objects: object_views(self.objects@),
                arrays: array_views(self.arrays@),
                pending: self.pending,
            },
        }
    }
}

impl VM {
    /// A machine that is about to run `compiled_program` from the start of its
    /// global code.
    pub fn new(compiled_program: CompiledProgram) -> (vm: Self)
        ensures
            vm@.program == compiled_program@,
            vm@.natives == Seq::<Seq<char>>::empty(),
            vm@.machine == MachineView::initial(crate::vm::registers::REGISTER_CAPACITY as nat),
    {
        let vm = VM {
            functions: compiled_program.functions,
            native_functions: Vec::new(),
            global_function: Function {
                name: "global".to_owned(),
                code: compiled_program.global_code,
                register_count: compiled_program.global_register_count,
            },
            literals: compiled_program.literals,
            registers: Registers::new(),
            saved_call_frames: Vec::new(),
            current_function: None,
            ip: 0,
            objects: Vec::new(),
            arrays: Vec::new(),
            pending: Pending::Nothing,
        };
        proof {
            assert(vm@.natives =~= Seq::<Seq<char>>::empty());
            assert(vm@.machine.objects =~= Seq::empty());
            assert(vm@.machine.arrays =~= Seq::empty());
            assert(vm@.machine.frames =~= Seq::empty());
        }
        vm
    }

    /// Registers the name of a native function, which programs can then call.
    /// The function itself stays with the host.
    pub fn define_native_function(self, name: String) -> (vm: Self)
        ensures
            vm@.program == self@.program,
            vm@.machine == self@.machine,
            vm@.natives == self@.natives.push(name@),
    {
        let mut vm = self;
        vm.native_functions.push(name);
        assert(vm@.natives =~= self@.natives.push(name@));
        vm
    }

    /// The registers of the machine.
    pub fn registers(&self) -> (registers: &Registers)
        ensures
            registers.values() == self@.machine.registers,
            registers.base() == self@.machine.base,
    {
        &self.registers
    }

    /// The object that `handle` stands for.
    pub fn object(&self, handle: usize) -> (object: Option<&Object>)
        ensures
            match object {
                Some(found) => handle < self@.machine.objects.len() && found@
                    == self@.machine.objects[handle as int],
                None => handle >= self@.machine.objects.len(),
            },
    {
        if handle < self.objects.len() {
            Some(&self.objects[handle])
        } else {
            None
        }
    }

    /// The array that `handle` stands for.
    pub fn array(&self, handle: usize) -> (array: Option<&Array>)
        ensures
            match array {
                Some(found) => handle < self@.machine.arrays.len() && found@
                    == self@.machine.arrays[handle as int],
                None => handle >= self@.machine.arrays.len(),
            },
    {
        if handle < self.arrays.len() {
            Some(&self.arrays[handle])
        } else {
            None
        }
    }

    /// The function at `position` of the table of the program.
    pub fn function(&self, position: usize) -> (function: Option<&Function>)
        ensures
            match function {
                Some(found) => position < self@.program.functions.len() && found@
                    == self@.program.functions[position as int],
                None => position >= self@.program.functions.len(),
            },
    {
        if position < self.functions.len() {
            Some(&self.functions[position])
        } else {
            None
        }
    }

    fn native_known(&self, name: &String) -> (r: bool)
        ensures
            r == native_resolves(self@.natives, name@),
    {
        let mut i: usize = 0;
        while i < self.native_functions.len()
            invariant
                i <= self.native_functions.len(),
                forall|j: int| 0 <= j < i ==> self@.natives[j] != name@,
            decreases self.native_functions.len() - i,
        {
            if self.native_functions[i] == *name {
                assert(self@.natives[i as int] == name@);
                return true;
            }
            i = i + 1;
        }
        standard_library_has(name.as_str())
    }

    fn window_size(&self) -> (size: Option<u8>)
        ensures
            size == window_size(self@.program, self@.machine.function),
    {
        match self.current_function {
            None => Some(self.global_function.register_count),
            Some(position) => {
                if position < self.functions.len() {
                    Some(self.functions[position].register_count)
                } else {
                    None
                }
            },
        }
    }

    /// Puts `value` into `dest` and moves on to the next instruction.
    fn store(&mut self, dest: Register, value: VMValue) -> (r: Result<Status, ExecutionError>)
        ensures
            old(self)@.machine.store(dest, value@) == (final(self)@.machine, outcome(r)),
            final(self)@.program == old(self)@.program,
            final(self)@.natives == old(self)@.natives,
    {
        if !self.registers.in_window(dest) || self.ip == usize::MAX {
            return Err(invalid_operation("register out of range"));
        }
        self.registers.set(dest, value);
        self.ip = self.ip + 1;
        Ok(Status::Running)
    }

    /// Moves the instruction pointer by `distance`.
    fn jump(&mut self, distance: usize, forward: bool) -> (r: Result<Status, ExecutionError>)
        ensures
            step_jump(
                old(self)@.machine,
                if forward {
                    distance as int
                } else {
                    -(distance as int)
                },
            ) == (final(self)@.machine, outcome(r)),
            final(self)@.program == old(self)@.program,
            final(self)@.natives == old(self)@.natives,
    {
        if forward {
            if distance > usize::MAX - self.ip {
                return Err(invalid_operation("jump out of range"));
            }
            self.ip = self.ip + distance;
        } else {
            if distance > self.ip {
                return Err(invalid_operation("jump out of range"));
            }
            self.ip = self.ip - distance;
        }
        Ok(Status::Running)
    }

    fn literal_operand(&self, register: Register) -> (r: Option<Literal>)
        ensures
            match r {
                Some(literal) => self@.machine.read(register) == Some(ValueView::Literal(literal@)),
                None => !(self@.machine.read(register) matches Some(ValueView::Literal(_))),
            },
    {
        match self.registers.get(register) {
            Some(value) => match value {
                VMValue::Literal(literal) => Some(literal.clone()),
                _ => None,
            },
            None => None,
        }
    }

    fn binary(&mut self, operator: BinaryOperator, dest: Register, lhs: Register, rhs: Register) -> (r:
        Result<Status, ExecutionError>)
        ensures
            step_binary(old(self)@.machine, operator, dest, lhs, rhs) == (
                final(self)@.machine,
                outcome(r),
            ),
            final(self)@.program == old(self)@.program,
            final(self)@.natives == old(self)@.natives,
    {
        let a = match self.literal_operand(lhs) {
            Some(literal) => literal,
            None => {
                return Err(invalid_operation("operands must be literals"));
            },
        };
        let b = match self.literal_operand(rhs) {
            Some(literal) => literal,
            None => {
                return Err(invalid_operation("operands must be literals"));
            },
        };
        match evaluate_operator(operator, &a, &b) {
            Evaluated::Value(result) => self.store(dest, VMValue::Literal(result)),
            Evaluated::NeedsHost => {
                self.pending = Pending::FloatOperation { dest, operator };
                Ok(Status::FloatOperation { operator, lhs: a, rhs: b })
            },
            Evaluated::Invalid => Err(invalid_operation("operands do not fit the operator")),
        }
    }

    fn prefix_not(&mut self, dest: Register, rhs: Register) -> (r: Result<Status, ExecutionError>)
        ensures
            step_not(old(self)@.machine, dest, rhs) == (final(self)@.machine, outcome(r)),
            final(self)@.program == old(self)@.program,
            final(self)@.natives == old(self)@.natives,
    {
        match self.literal_operand(rhs) {
            Some(literal) => match literal {
                Literal::Boolean(v) => self.store(dest, VMValue::Literal(Literal::Boolean(!v))),
                _ => Err(invalid_operation("cannot use '!' on non boolean type")),
            },
            None => Err(invalid_operation("'!' must be used on literals only")),
        }
    }

    fn prefix_sub(&mut self, dest: Register, rhs: Register) -> (r: Result<Status, ExecutionError>)
        ensures
            step_negate(old(self)@.machine, dest, rhs) == (final(self)@.machine, outcome(r)),
            final(self)@.program == old(self)@.program,
            final(self)@.natives == old(self)@.natives,
    {
        match self.literal_operand(rhs) {
            Some(literal) => match literal {
                Literal::Float(bits) => self.store(
                    dest,
                    VMValue::Literal(Literal::Float(bits ^ 0x8000_0000_0000_0000u64)),
                ),
                Literal::Integer(v) => {
                    if v == i64::MIN {
                        return Err(invalid_operation("integer overflow"));
                    }
                    self.store(dest, VMValue::Literal(Literal::Integer(-v)))
                },
                _ => Err(invalid_operation("'-' must be used on number types")),
            },
            None => Err(invalid_operation("'-' must be used on literals only")),
        }
    }

    fn jump_if_false(&mut self, src: Register, offset: u16) -> (r: Result<Status, ExecutionError>)
        ensures
            step_jump_if_false(old(self)@.machine, src, offset) == (
                final(self)@.machine,
                outcome(r),
            ),
            final(self)@.program == old(self)@.program,
            final(self)@.natives == old(self)@.natives,
    {
        match self.literal_operand(src) {
            Some(literal) => match literal {
                Literal::Boolean(b) => {
                    if b {
                        self.jump(1, true)
                    } else {
                        self.jump(offset as usize, true)
                    }
                },
                _ => Err(invalid_operation("condition must be a boolean")),
            },
            None => Err(invalid_operation("condition must be a literal")),
        }
    }

    fn call(&mut self, src: Register, arg_count: u8, return_val: Register) -> (r: Result<
        Status,
        ExecutionError,
    >)
        ensures
            step_call(old(self)@.program, old(self)@.machine, src, arg_count, return_val) == (
                final(self)@.machine,
                outcome(r),
            ),
            final(self)@.program == old(self)@.program,
            final(self)@.natives == old(self)@.natives,
    {
        let position = match self.registers.get(src) {
            Some(value) => match value {
                VMValue::Function(position) => *position,
                _ => {
                    return Err(invalid_operation("only functions can be called"));
                },
            },
            None => {
                return Err(invalid_operation("register out of range"));
            },
        };
        let size = match self.window_size() {
            Some(size) => size,
            None => {
                return Err(invalid_operation("no such function"));
            },
        };
        let capacity = self.registers.len();
        let old_base = self.registers.base_register();
        if position >= self.functions.len() || src < arg_count || src > size {
            return Err(invalid_operation("malformed call"));
        }
        assert(old_base + src < capacity);
        if size as usize > capacity - old_base {
            return Err(invalid_operation("out of registers"));
        }
        let new_base = old_base + size as usize;
        if arg_count > 0 && arg_count as usize >= capacity - new_base {
            return Err(invalid_operation("out of registers"));
        }
        let source = old_base + src as usize - arg_count as usize;
        let ghost target = new_base + 1;
        let ghost before = self.registers.values();
        let mut k: usize = 0;
        while k < arg_count as usize
            invariant
                k <= arg_count,
                source + arg_count <= new_base,
                target == new_base + 1,
                arg_count > 0 ==> new_base + arg_count < capacity,
                capacity == before.len(),
                self.registers.base() == old_base,
                self@ == (VMView {
                    machine: MachineView {
                        registers: self.registers.values(),
                        ..old(self)@.machine
                    },
                    ..old(self)@
                }),
                self.registers.values().len() == before.len(),
                forall|i: int| 0 <= i < target ==> self.registers.values()[i] == before[i],
                forall|i: int|
                    target <= i < target + k ==> self.registers.values()[i] == before[source + (i
                        - target)],
                forall|i: int|
                    target + k <= i < before.len() ==> self.registers.values()[i] == before[i],
            decreases arg_count - k,
        {
            let value = self.registers.get_absolute(source + k).clone();
            self.registers.set_absolute(new_base + 1 + k, value);
            k = k + 1;
        }
        assert(self.registers.values() =~= copied_arguments(
            before,
            old_base + src,
            arg_count as int,
            target,
        ));
        self.registers.update_base_register(new_base);
        self.saved_call_frames.push(
            SavedCallFrame {
                ip: self.ip,
                function: self.current_function,
                register_count: size,
                function_return_value: return_val,
            },
        );
        self.current_function = Some(position);
        self.ip = 0;
        proof {
            let expected = step_call(
                old(self)@.program,
                old(self)@.machine,
                src,
                arg_count,
                return_val,
            ).0;
            assert(self@.machine.registers == expected.registers);
            assert(self@.machine.frames =~= expected.frames);
            assert(self@.machine == expected);
        }
        Ok(Status::Running)
    }

    fn return_from_call(&mut self, val: Option<Register>) -> (r: Result<Status, ExecutionError>)
        ensures
            step_return(old(self)@.machine, val) == (final(self)@.machine, outcome(r)),
            final(self)@.program == old(self)@.program,
            final(self)@.natives == old(self)@.natives,
    {
        let depth = self.saved_call_frames.len();
        if depth == 0 {
            return Err(invalid_operation("return outside of a call"));
        }
        let frame = self.saved_call_frames[depth - 1];
        let size = frame.register_count;
        let base = self.registers.base_register();
        if base < size as usize || frame.ip == usize::MAX {
            return Err(invalid_operation("malformed return"));
        }
        let new_base = base - size as usize;
        let capacity = self.registers.len();
        match val {
            None => {},
            Some(register) => {
                let value = match self.registers.get(register) {
                    Some(value) => value.clone(),
                    None => {
                        return Err(invalid_operation("register out of range"));
                    },
                };
                if new_base >= capacity || frame.function_return_value as usize >= capacity
                    - new_base {
                    return Err(invalid_operation("register out of range"));
                }
                self.registers.set_absolute(
                    new_base + frame.function_return_value as usize,
                    value,
                );
            },
        }
        self.registers.update_base_register(new_base);
        self.saved_call_frames.pop();
        self.current_function = frame.function;
        self.ip = frame.ip + 1;
        proof {
            let expected = step_return(old(self)@.machine, val).0;
            assert(self@.machine.frames =~= expected.frames);
            assert(self@.machine == expected);
        }
        Ok(Status::Running)
    }

    fn call_native(&mut self, src: Register, arg_count: u8, return_val: Register) -> (r: Result<
        Status,
        ExecutionError,
    >)
        ensures
            step_native(old(self)@.natives, old(self)@.machine, src, arg_count, return_val) == (
                final(self)@.machine,
                outcome(r),
            ),
            final(self)@.program == old(self)@.program,
            final(self)@.natives == old(self)@.natives,
    {
        let name = match self.literal_operand(src) {
            Some(literal) => match literal {
                Literal::String(name) => name,
                _ => {
                    return Err(invalid_operation("native function name must be string value"));
                },
            },
            None => {
                return Err(invalid_operation("native function name must be a literal"));
            },
        };
        if !self.native_known(&name) {
            return Err(invalid_operation("no function matching name found"));
        }
        if src < arg_count {
            return Err(invalid_operation("malformed call"));
        }
        let base = self.registers.base_register();
        let capacity = self.registers.len();
        assert(self@.machine.read(src) is Some);
        assert(base + src < capacity);
        let start = base + src as usize - arg_count as usize;
        let mut arguments: Vec<VMValue> = Vec::new();
        let mut k: usize = 0;
        while k < arg_count as usize
            invariant
                k <= arg_count,
                start + arg_count == base + src,
                base + src < capacity,
                capacity == self.registers.values().len(),
                arguments.len() == k,
                forall|i: int|
                    0 <= i < k ==> arguments@[i]@ == self.registers.values()[start + i],
            decreases arg_count - k,
        {
            arguments.push(self.registers.get_absolute(start + k).clone());
            k = k + 1;
        }
        assert(register_views(arguments@) =~= self@.machine.registers.subrange(
            base + src - arg_count,
            base + src,
        ));
        self.pending = Pending::NativeCall { return_val };
        Ok(Status::NativeCall { name, arguments })
    }

    fn allocate_object(&mut self, dest: Register) -> (r: Result<Status, ExecutionError>)
        ensures
            step_allocate_object(old(self)@.machine, dest) == (final(self)@.machine, outcome(r)),
            final(self)@.program == old(self)@.program,
            final(self)@.natives == old(self)@.natives,
    {
        if !self.registers.in_window(dest) || self.ip == usize::MAX {
            return Err(invalid_operation("register out of range"));
        }
        let handle = self.objects.len();
        self.objects.push(Object::create_for_vm());
        assert(self@.machine.objects =~= old(self)@.machine.objects.push(Seq::empty()));
        self.store(dest, VMValue::Object(handle))
    }

    fn allocate_array(&mut self, dest: Register) -> (r: Result<Status, ExecutionError>)
        ensures
            step_allocate_array(old(self)@.machine, dest) == (final(self)@.machine, outcome(r)),
            final(self)@.program == old(self)@.program,
            final(self)@.natives == old(self)@.natives,
    {
        if !self.registers.in_window(dest) || self.ip == usize::MAX {
            return Err(invalid_operation("register out of range"));
        }
        let handle = self.arrays.len();
        self.arrays.push(Array::create_for_vm());
        assert(self@.machine.arrays =~= old(self)@.machine.arrays.push(Seq::empty()));
        self.store(dest, VMValue::Array(handle))
    }

    fn object_operand(&self, register: Register) -> (r: Option<usize>)
        ensures
            match r {
                Some(handle) => self@.machine.read(register) == Some(ValueView::Object(handle))
                    && handle < self@.machine.objects.len(),
                None => !(self@.machine.read(register) matches Some(ValueView::Object(handle))
                    && handle < self@.machine.objects.len()),
            },
    {
        match self.registers.get(register) {
            Some(value) => match value {
                VMValue::Object(handle) => if *handle < self.objects.len() {
                    Some(*handle)
                } else {
                    None
                },
                _ => None,
            },
            None => None,
        }
    }

    fn array_operand(&self, register: Register) -> (r: Option<usize>)
        ensures
            match r {
                Some(handle) => self@.machine.read(register) == Some(ValueView::Array(handle))
                    && handle < self@.machine.arrays.len(),
                None => !(self@.machine.read(register) matches Some(ValueView::Array(handle))
                    && handle < self@.machine.arrays.len()),
            },
    {
        match self.registers.get(register) {
            Some(value) => match value {
                VMValue::Array(handle) => if *handle < self.arrays.len() {
                    Some(*handle)
                } else {
                    None
                },
                _ => None,
            },
            None => None,
        }
    }

    fn string_operand(&self, register: Register) -> (r: Option<String>)
        ensures
            match r {
                Some(text) => self@.machine.read(register) == Some(
                    ValueView::Literal(LiteralView::String(text@)),
                ),
                None => !(self@.machine.read(register) matches Some(
                    ValueView::Literal(LiteralView::String(_)),
                )),
            },
    {
        match self.literal_operand(register) {
            Some(literal) => match literal {
                Literal::String(text) => Some(text),
                _ => None,
            },
            None => None,
        }
    }

    fn integer_operand(&self, register: Register) -> (r: Option<i64>)
        ensures
            match r {
                Some(n) => self@.machine.read(register) == Some(
                    ValueView::Literal(LiteralView::Integer(n)),
                ),
                None => !(self@.machine.read(register) matches Some(
                    ValueView::Literal(LiteralView::Integer(_)),
                )),
            },
    {
        match self.literal_operand(register) {
            Some(literal) => match literal {
                Literal::Integer(n) => Some(n),
                _ => None,
            },
            None => None,
        }
    }

    fn stored_operand(&self, register: Register) -> (r: Option<ObjectValue>)
        ensures
            match r {
                Some(stored) => self@.machine.read(register) matches Some(held) && stored_form(held)
                    == Some(stored@),
                None => !(self@.machine.read(register) matches Some(held) && stored_form(
                    held,
                ) is Some),
            },
    {
        match self.registers.get(register) {
            Some(value) => to_stored(value),
            None => None,
        }
    }

    fn set_object_field(&mut self, object: Register, field: Register, value: Register) -> (r:
        Result<Status, ExecutionError>)
        ensures
            step_set_field(old(self)@.machine, object, field, value) == (
                final(self)@.machine,
                outcome(r),
            ),
            final(self)@.program == old(self)@.program,
            final(self)@.natives == old(self)@.natives,
    {
        let handle = match self.object_operand(object) {
            Some(handle) => handle,
            None => {
                return Err(invalid_operation("fields can only be set on objects"));
            },
        };
        let key = match self.string_operand(field) {
            Some(key) => key,
            None => {
                return Err(invalid_operation("field names must be strings"));
            },
        };
        let stored = match self.stored_operand(value) {
            Some(stored) => stored,
            None => {
                return Err(invalid_operation("an empty register cannot be stored"));
            },
        };
        if self.ip == usize::MAX {
            return Err(invalid_operation("jump out of range"));
        }
        self.objects[handle].insert(key, stored);
        self.ip = self.ip + 1;
        assert(self@.machine.objects =~= old(self)@.machine.objects.update(
            handle as int,
            crate::types::fields_insert(old(self)@.machine.objects[handle as int], key@, stored@),
        ));
        Ok(Status::Running)
    }

    fn get_object_field(&mut self, object: Register, field: Register, return_val: Register) -> (r:
        Result<Status, ExecutionError>)
        ensures
            step_get_field(old(self)@.machine, object, field, return_val) == (
                final(self)@.machine,
                outcome(r),
            ),
            final(self)@.program == old(self)@.program,
            final(self)@.natives == old(self)@.natives,
    {
        let handle = match self.object_operand(object) {
            Some(handle) => handle,
            None => {
                return Err(invalid_operation("fields can only be read from objects"));
            },
        };
        let key = match self.string_operand(field) {
            Some(key) => Literal::String(key),
            None => {
                return Err(invalid_operation("field names must be strings"));
            },
        };
        let found = self.objects[handle].index(&key);
        self.store(return_val, to_loaded(found))
    }

    fn set_array_index(&mut self, array: Register, index: Register, value: Register) -> (r: Result<
        Status,
        ExecutionError,
    >)
        ensures
            step_set_index(old(self)@.machine, array, index, value) == (
                final(self)@.machine,
                outcome(r),
            ),
            final(self)@.program == old(self)@.program,
            final(self)@.natives == old(self)@.natives,
    {
        let handle = match self.array_operand(array) {
            Some(handle) => handle,
            None => {
                return Err(invalid_operation("slots can only be set on arrays"));
            },
        };
        let position = match self.integer_operand(index) {
            Some(position) => position,
            None => {
                return Err(invalid_operation("array positions must be integers"));
            },
        };
        let stored = match self.stored_operand(value) {
            Some(stored) => stored,
            None => {
                return Err(invalid_operation("an empty register cannot be stored"));
            },
        };
        if position < 0 || position as u64 > (usize::MAX / 2 - 1) as u64 || self.ip == usize::MAX {
            return Err(invalid_operation("array position out of range"));
        }
        self.arrays[handle].set(position as usize, stored);
        self.ip = self.ip + 1;
        assert(self@.machine.arrays =~= old(self)@.machine.arrays.update(
            handle as int,
            crate::types::array_store(
                old(self)@.machine.arrays[handle as int],
                position as int,
                stored@,
            ),
        ));
        Ok(Status::Running)
    }

    fn get_array_index(&mut self, array: Register, index: Register, return_val: Register) -> (r:
        Result<Status, ExecutionError>)
        ensures
            step_get_index(old(self)@.machine, array, index, return_val) == (
                final(self)@.machine,
                outcome(r),
            ),
            final(self)@.program == old(self)@.program,
            final(self)@.natives == old(self)@.natives,
    {
        let handle = match self.array_operand(array) {
            Some(handle) => handle,
            None => {
                return Err(invalid_operation("slots can only be read from arrays"));
            },
        };
        let position = match self.integer_operand(index) {
            Some(position) => position,
            None => {
                return Err(invalid_operation("array positions must be integers"));
            },
        };
        assert(self@.machine.arrays[handle as int] == self.arrays@[handle as int]@);
        let slots = self.arrays[handle].len();
        let found = if position < 0 || position as u64 >= slots as u64 {
            None
        } else {
            self.arrays[handle].index(position as usize)
        };
        self.store(return_val, to_loaded(found))
    }

    fn execute(&mut self, instruction: Instruction) -> (r: Result<Status, ExecutionError>)
        requires
            old(self)@.machine.pending == Pending::Nothing,
        ensures
            execute(old(self)@, instruction) == (final(self)@.machine, outcome(r)),
            final(self)@.program == old(self)@.program,
            final(self)@.natives == old(self)@.natives,
    {
        match instruction {
            Instruction::Copy { dest, src } => {
                let value = match self.registers.get(src) {
                    Some(value) => value.clone(),
                    None => {
                        return Err(invalid_operation("register out of range"));
                    },
                };
                self.store(dest, value)
            },
            Instruction::LoadFunction { dest, src } => {
                if src as usize >= self.functions.len() {
                    return Err(invalid_operation("no such function"));
                }
                self.store(dest, VMValue::Function(src as usize))
            },
            Instruction::LoadLiteral { dest, src } => {
                if src as usize >= self.literals.len() {
                    return Err(invalid_operation("no such literal"));
                }
                let literal = self.literals[src as usize].clone();
                self.store(dest, VMValue::Literal(literal))
            },
            Instruction::CallNativeFunction { src, arg_count, return_val } => self.call_native(
                src,
                arg_count,
                return_val,
            ),
            Instruction::CallFunction { src, arg_count, return_val } => self.call(
                src,
                arg_count,
                return_val,
            ),
            Instruction::Return { val } => self.return_from_call(Some(val)),
            Instruction::FunctionReturn => self.return_from_call(None),
            Instruction::AllocateObject { dest } => self.allocate_object(dest),
            Instruction::SetObjectField { object, field, value } => self.set_object_field(
                object,
                field,
                value,
            ),
            Instruction::GetObjectField { object, field, return_val } => self.get_object_field(
                object,
                field,
                return_val,
            ),
            Instruction::AllocateArray { dest } => self.allocate_array(dest),
            Instruction::SetArrayIndex { array, index, value } => self.set_array_index(
                array,
                index,
                value,
            ),
            Instruction::GetArrayIndex { array, index, return_val } => self.get_array_index(
                array,
                index,
                return_val,
            ),
            Instruction::PrefixNot { dest, rhs } => self.prefix_not(dest, rhs),
            Instruction::PrefixSub { dest, rhs } => self.prefix_sub(dest, rhs),
            Instruction::JumpIfFalse { src, offset } => self.jump_if_false(src, offset),
            Instruction::Jump { offset } => self.jump(offset as usize, true),
            Instruction::JumpReverse { offset } => self.jump(offset as usize, false),
            Instruction::Add { dest, lhs, rhs } => self.binary(BinaryOperator::Add, dest, lhs, rhs),
            Instruction::Sub { dest, lhs, rhs } => self.binary(BinaryOperator::Sub, dest, lhs, rhs),
            Instruction::Mul { dest, lhs, rhs } => self.binary(BinaryOperator::Mul, dest, lhs, rhs),
            Instruction::Div { dest, lhs, rhs } => self.binary(BinaryOperator::Div, dest, lhs, rhs),
            Instruction::Equals { dest, lhs, rhs } => self.binary(
                BinaryOperator::Equals,
                dest,
                lhs,
                rhs,
            ),
            Instruction::NotEquals { dest, lhs, rhs } => self.binary(
                BinaryOperator::NotEquals,
                dest,
                lhs,
                rhs,
            ),
            Instruction::GreaterThan { dest, lhs, rhs } => self.binary(
                BinaryOperator::GreaterThan,
                dest,
                lhs,
                rhs,
            ),
            Instruction::GreaterThanOrEquals { dest, lhs, rhs } => self.binary(
                BinaryOperator::GreaterThanOrEquals,
                dest,
                lhs,
                rhs,
            ),
            Instruction::LessThan { dest, lhs, rhs } => self.binary(
                BinaryOperator::LessThan,
                dest,
                lhs,
                rhs,
            ),
            Instruction::LessThanOrEquals { dest, lhs, rhs } => self.binary(
                BinaryOperator::LessThanOrEquals,
                dest,
                lhs,
                rhs,
            ),
            Instruction::PendingBreak => Err(invalid_operation("break outside of a loop")),
        }
    }

    /// Takes one step: executes the instruction under the instruction pointer.
    /// On an error nothing has changed.
    pub fn step(&mut self) -> (r: Result<Status, ExecutionError>)
        ensures
            step(old(self)@) == (final(self)@.machine, outcome(r)),
            final(self)@.program == old(self)@.program,
            final(self)@.natives == old(self)@.natives,
    {
        match self.pending {
            Pending::Nothing => {},
            _ => {
                return Err(invalid_operation("the machine waits for the host"));
            },
        }
        let instruction = match self.current_function {
            None => {
                if self.ip >= self.global_function.code.len() {
                    return Ok(Status::Finished);
                }
                self.global_function.code[self.ip]
            },
            Some(position) => {
                if position >= self.functions.len() {
                    return Err(invalid_operation("no such function"));
                }
                if self.ip >= self.functions[position].code.len() {
                    return Ok(Status::Finished);
                }
                self.functions[position].code[self.ip]
            },
        };
        self.execute(instruction)
    }

    /// Takes up to `limit` steps. Stops early, and says why, where the code
    /// comes to its end or the host is needed; reports `Running` where the
    /// limit was reached first. On an error the machine is as it was before
    /// the step that failed.
    pub fn run(&mut self, limit: usize) -> (r: Result<Status, ExecutionError>)
        ensures
            run(old(self)@, limit as nat) == (final(self)@.machine, outcome(r)),
            final(self)@.program == old(self)@.program,
            final(self)@.natives == old(self)@.natives,
    {
        let mut left = limit;
        while left > 0
            invariant
                self@.program == old(self)@.program,
                self@.natives == old(self)@.natives,
                run(old(self)@, limit as nat) == run(self@, left as nat),
            decreases left,
        {
            let ghost before = self@;
            let status = self.step()?;
            proof {
                assert(self@ == VMView { machine: self@.machine, ..before });
            }
            match status {
                Status::Running => {},
                other => {
                    return Ok(other);
                },
            }
            left = left - 1;
        }
        Ok(Status::Running)
    }

    /// Takes what the native function returned that the machine asked for,
    /// and moves past the call. On an error nothing has changed.
    pub fn finish_native_call(&mut self, returned: Option<VMValue>) -> (r: Result<
        (),
        ExecutionError,
    >)
        ensures
            final(self)@.program == old(self)@.program,
            final(self)@.natives == old(self)@.natives,
            match r {
                Ok(_) => resume_native(
                    old(self)@.machine,
                    match returned {
                        Some(value) => Some(value@),
                        None => None,
                    },
                ) == Some(final(self)@.machine),
                Err(_) => resume_native(
                    old(self)@.machine,
                    match returned {
                        Some(value) => Some(value@),
                        None => None,
                    },
                ) is None && final(self)@ == old(self)@,
            },
    {
        let return_val = match self.pending {
            Pending::NativeCall { return_val } => return_val,
            _ => {
                return Err(invalid_operation("no native call is under way"));
            },
        };
        if self.ip == usize::MAX {
            return Err(invalid_operation("jump out of range"));
        }
        match returned {
            Some(value) => {
                if !self.registers.in_window(return_val) {
                    return Err(invalid_operation("register out of range"));
                }
                self.registers.set(return_val, value);
            },
            None => {},
        }
        self.pending = Pending::Nothing;
        self.ip = self.ip + 1;
        Ok(())
    }

    /// Takes the result of the operation on floats that the machine asked
    /// for, and moves past the instruction. Arithmetic must have given a float,
    /// a comparison a boolean. On an error nothing has changed.
    pub fn finish_float_operation(&mut self, result: Literal) -> (r: Result<(), ExecutionError>)
        ensures
            final(self)@.program == old(self)@.program,
            final(self)@.natives == old(self)@.natives,
            match r {
                Ok(_) => resume_float(old(self)@.machine, result@) == Some(final(self)@.machine),
                Err(_) => resume_float(old(self)@.machine, result@) is None && final(self)@ == old(
                    self,
                )@,
            },
    {
        let (dest, operator) = match self.pending {
            Pending::FloatOperation { dest, operator } => (dest, operator),
            _ => {
                return Err(invalid_operation("no operation on floats is under way"));
            },
        };
        let fits = match result {
            Literal::Float(_) => operator.arithmetic(),
            Literal::Boolean(_) => !operator.arithmetic(),
            _ => false,
        };
        if !fits || !self.registers.in_window(dest) || self.ip == usize::MAX {
            return Err(invalid_operation("the result does not fit the operation"));
        }
        self.registers.set(dest, VMValue::Literal(result));
        self.pending = Pending::Nothing;
        self.ip = self.ip + 1;
        Ok(())
    }
}

} // verus!
