//! What compilation means, as mathematics: every step of the compiler is a
//! function from a state to a new state, a register, or an error.

use crate::ast::{Expression, Function, FunctionParameter, Operator, Statement};
use crate::instructions::Instruction;
use crate::scope::{ScopeType, ScopeView, Value};
use crate::types::LiteralView;
use vstd::prelude::*;

verus! {

/// A finished function: its name, its code and the number of registers that its
/// window needs.
pub struct FunctionView {
    pub name: Seq<char>,
    pub code: Seq<Instruction>,
    pub register_count: u8,
}

/// A compiled program.
pub struct ProgramView {
    pub functions: Seq<FunctionView>,
    pub global_code: Seq<Instruction>,
    pub global_register_count: u8,
    pub literals: Seq<LiteralView>,
}

/// Why compilation stopped.
pub enum ErrorView {
    /// A construct is malformed; the text says which.
    General(Seq<char>),
    /// A name is used that no enclosing block binds.
    VariableNotFound(Seq<char>),
    /// A name is assigned again whose nearest binding is immutable or missing.
    MutationNotAllowed(Seq<char>),
    /// A register, an id or a jump does not fit the width of its operand.
    IntegerConversion,
    /// The statements could not be parsed in the first place.
    Parser,
}

/// Everything the compiler knows between two steps.
pub struct State {
    /// The open blocks, outermost first. Never empty while compiling.
    pub scopes: Seq<ScopeView>,
    /// The register that the next allocation hands out.
    pub next_register: u8,
    /// The highest value that the counter has had in the code that is being
    /// compiled, and above every register of enclosing code that this code
    /// names: the number of registers that the window of this code needs.
    pub highest: u8,
    /// The functions declared so far, in the order of their declaration.
    pub functions: Seq<FunctionView>,
    /// The literal pool.
    pub literals: Seq<LiteralView>,
    /// The code buffer that instructions are appended to.
    pub code: Seq<Instruction>,
}

/// The text of the error for a function whose body is no block.
pub open spec fn message_function_body() -> Seq<char> {
    "function body must contain block"@
}

/// The text of the error for an operator that cannot stand in front of an
/// operand.
pub open spec fn message_prefix() -> Seq<char> {
    "prefix expression only works with '-' and '!'"@
}

/// The text of the error for an operator that cannot stand between two
/// operands.
pub open spec fn message_infix() -> Seq<char> {
    "infix expression only works for '+', '-', '/', '*'"@
}

/// The text of the error for an `else` that is followed by neither a block
/// nor an `if`.
pub open spec fn message_else() -> Seq<char> {
    "else must be followed by a block or an if"@
}

/// The text of the error for a loop whose body is no block.
pub open spec fn message_loop_body() -> Seq<char> {
    "loop body must contain block"@
}

/// The text of the error for an assignment to a field that names no field.
pub open spec fn message_mutation_path() -> Seq<char> {
    "object mutation must name a field of an object"@
}

/// The text of the error for a `break` that stands in no loop.
pub open spec fn message_break() -> Seq<char> {
    "break outside of a loop"@
}

/// The larger of two register counts.
pub open spec fn higher(a: u8, b: u8) -> u8 {
    if a >= b {
        a
    } else {
        b
    }
}

/// Whether a `break` in the code still waits for its loop.
pub open spec fn has_pending_break(code: Seq<Instruction>) -> bool {
    exists|at: int| 0 <= at < code.len() && #[trigger] code[at].is_pending_break()
}

/// The text of the error for a path without a name.
pub open spec fn message_access_path() -> Seq<char> {
    "object access must name an object"@
}

impl State {
    /// The state of a compiler that has seen nothing: one global scope, no
    /// code, and register 1 free.
    pub open spec fn initial() -> State {
        State {
            scopes: seq![
                ScopeView {
                    scope_type: ScopeType::Global,
                    functions: Set::empty(),
                    announced: Set::empty(),
                    symbols: Map::empty(),
                },
            ],
            next_register: 1,
            highest: 1,
            functions: Seq::empty(),
            literals: Seq::empty(),
            code: Seq::empty(),
        }
    }

    /// Whether there is a scope to bind names in.
    pub open spec fn well_formed(self) -> bool {
        self.scopes.len() > 0
    }

    /// Appends one instruction to the current code buffer.
    pub open spec fn emit(self, instruction: Instruction) -> State {
        State { code: self.code.push(instruction), ..self }
    }

    /// The same state, writing into another code buffer.
    pub open spec fn with_code(self, code: Seq<Instruction>) -> State {
        State { code, ..self }
    }

    /// Hands out the next register. Register 255 is never handed out: the
    /// counter could not move past it.
    pub open spec fn allocate(self) -> Result<(State, u8), ErrorView> {
        if self.next_register == u8::MAX {
            Err(ErrorView::IntegerConversion)
        } else {
            Ok(
                (
                    State {
                        next_register: (self.next_register + 1) as u8,
                        highest: higher(self.highest, (self.next_register + 1) as u8),
                        ..self
                    },
                    self.next_register,
                ),
            )
        }
    }

    /// Counts `register`, which the code is about to name, among the
    /// registers of its window. A register of enclosing code that a function
    /// names lies in the window of the function all the same.
    pub open spec fn count(self, register: u8) -> State {
        if register == u8::MAX {
            State { highest: u8::MAX, ..self }
        } else {
            State { highest: higher(self.highest, (register + 1) as u8), ..self }
        }
    }

    /// Gives back the registers that were taken since the counter stood at
    /// `counter`: the next allocation hands out `counter` again.
    pub open spec fn release(self, counter: u8) -> State {
        State { next_register: counter, ..self }
    }

    /// Opens a block.
    pub open spec fn enter_scope(self) -> State {
        State {
            scopes: self.scopes.push(
                ScopeView {
                    scope_type: ScopeType::Local,
                    functions: Set::empty(),
                    announced: Set::empty(),
                    symbols: Map::empty(),
                },
            ),
            ..self
        }
    }

    /// Closes the innermost block and forgets what it bound.
    pub open spec fn exit_scope(self) -> State {
        State { scopes: self.scopes.drop_last(), ..self }
    }

    /// Binds a name in the innermost block.
    pub open spec fn define(self, name: Seq<char>, register: u8, is_mutable: bool) -> State {
        let innermost = self.scopes.last();
        State {
            scopes: self.scopes.update(
                self.scopes.len() - 1,
                ScopeView {
                    symbols: innermost.symbols.insert(name, Value { register, is_mutable }),
                    ..innermost
                },
            ),
            ..self
        }
    }

    /// Records in the innermost block that the block declares a function of
    /// this name somewhere among its statements.
    pub open spec fn announce(self, name: Seq<char>) -> State {
        let innermost = self.scopes.last();
        State {
            scopes: self.scopes.update(
                self.scopes.len() - 1,
                ScopeView { announced: innermost.announced.insert(name), ..innermost },
            ),
            ..self
        }
    }

    /// Records in the innermost block that a function of this name exists.
    pub open spec fn define_function(self, name: Seq<char>) -> State {
        let innermost = self.scopes.last();
        State {
            scopes: self.scopes.update(
                self.scopes.len() - 1,
                ScopeView { functions: innermost.functions.insert(name), ..innermost },
            ),
            ..self
        }
    }
}

/// The binding of a name: that of the innermost block that binds it.
pub open spec fn binding(scopes: Seq<ScopeView>, name: Seq<char>) -> Option<Value>
    decreases scopes.len(),
{
    if scopes.len() == 0 {
        None
    } else if scopes.last().symbols.dom().contains(name) {
        Some(scopes.last().symbols[name])
    } else {
        binding(scopes.drop_last(), name)
    }
}

/// The register that a name is bound to, searching innermost first.
pub open spec fn resolve(scopes: Seq<ScopeView>, name: Seq<char>) -> Option<u8> {
    match binding(scopes, name) {
        Some(value) => Some(value.register),
        None => None,
    }
}

/// Whether the nearest binding of a name is mutable. A name without a binding
/// cannot be assigned.
pub open spec fn can_mutate(scopes: Seq<ScopeView>, name: Seq<char>) -> bool {
    match binding(scopes, name) {
        Some(value) => value.is_mutable,
        None => false,
    }
}

/// Whether some open block has declared a function of this name.
pub open spec fn resolve_function(scopes: Seq<ScopeView>, name: Seq<char>) -> bool {
    exists|i: int| 0 <= i < scopes.len() && #[trigger] scopes[i].functions.contains(name)
}

/// The position of the function that was declared last under this name.
pub open spec fn latest_function(functions: Seq<FunctionView>, name: Seq<char>) -> Option<int>
    decreases functions.len(),
{
    if functions.len() == 0 {
        None
    } else if functions.last().name == name {
        Some(functions.len() - 1)
    } else {
        latest_function(functions.drop_last(), name)
    }
}

/// Whether some open block declares a function of this name among its
/// statements, be it before or behind the place that the compiler has reached.
pub open spec fn is_announced(scopes: Seq<ScopeView>, name: Seq<char>) -> bool {
    exists|i: int| 0 <= i < scopes.len() && #[trigger] scopes[i].announced.contains(name)
}

/// The text of the error for a call of a function whose declaration stands
/// behind the call.
pub open spec fn message_early_call() -> Seq<char> {
    "function called before its declaration"@
}

/// The function that a call by this name reaches. Where an open block has
/// declared the name, it is the latest function declared under the name.
/// Where no open block has, but one declares the name further on, the call
/// stands before the declaration and is an error. Otherwise the name is none
/// of the program, and the call is left to the native functions of the
/// machine.
pub open spec fn callee(s: State, name: Seq<char>) -> Result<Option<int>, ErrorView> {
    if resolve_function(s.scopes, name) {
        Ok(latest_function(s.functions, name))
    } else if is_announced(s.scopes, name) {
        Err(ErrorView::General(message_early_call()))
    } else {
        Ok(None)
    }
}

/// Announces the functions that the statements `statements[from..]` declare.
pub open spec fn announce_functions(s: State, statements: Seq<Statement>, from: int) -> State
    decreases statements.len() - from,
{
    if from < 0 || from >= statements.len() {
        s
    } else {
        match statements[from] {
            Statement::Function(function) => announce_functions(
                s.announce(function.name@),
                statements,
                from + 1,
            ),
            _ => announce_functions(s, statements, from + 1),
        }
    }
}

/// The first position at or after `from` at which the pool holds `literal`.
pub open spec fn pool_position(pool: Seq<LiteralView>, literal: LiteralView, from: int) -> Option<
    int,
>
    decreases pool.len() - from,
{
    if from < 0 || from >= pool.len() {
        None
    } else if pool[from] == literal {
        Some(from)
    } else {
        pool_position(pool, literal, from + 1)
    }
}

/// Makes sure that the pool holds `literal` and gives its id: the position of
/// the first equal entry, or that of a new entry at the end.
pub open spec fn intern(s: State, literal: LiteralView) -> Result<(State, u16), ErrorView> {
    let id = match pool_position(s.literals, literal, 0) {
        Some(position) => position,
        None => s.literals.len() as int,
    };
    let pooled = match pool_position(s.literals, literal, 0) {
        Some(_) => s,
        None => State { literals: s.literals.push(literal), ..s },
    };
    if id > u16::MAX {
        Err(ErrorView::IntegerConversion)
    } else {
        Ok((pooled, id as u16))
    }
}

/// Loads a constant into a fresh register.
pub open spec fn load_literal(s: State, literal: LiteralView) -> Result<(State, u8), ErrorView> {
    match s.allocate() {
        Err(e) => Err(e),
        Ok((s1, dest)) => match intern(s1, literal) {
            Err(e) => Err(e),
            Ok((s2, id)) => Ok((s2.emit(Instruction::LoadLiteral { dest, src: id }), dest)),
        },
    }
}

/// The instruction of a prefix operator.
pub open spec fn prefix_instruction(op: Operator, dest: u8, rhs: u8) -> Option<Instruction> {
    match op {
        Operator::Minus => Some(Instruction::PrefixSub { dest, rhs }),
        Operator::Not => Some(Instruction::PrefixNot { dest, rhs }),
        _ => None,
    }
}

/// The instruction of an infix operator.
pub open spec fn infix_instruction(op: Operator, dest: u8, lhs: u8, rhs: u8) -> Option<
    Instruction,
> {
    match op {
        Operator::Plus => Some(Instruction::Add { dest, lhs, rhs }),
        Operator::Minus => Some(Instruction::Sub { dest, lhs, rhs }),
        Operator::Divide => Some(Instruction::Div { dest, lhs, rhs }),
        Operator::Multiply => Some(Instruction::Mul { dest, lhs, rhs }),
        Operator::Equal => Some(Instruction::Equals { dest, lhs, rhs }),
        Operator::NotEqual => Some(Instruction::NotEquals { dest, lhs, rhs }),
        Operator::GreaterThan => Some(Instruction::GreaterThan { dest, lhs, rhs }),
        Operator::GreaterThanOrEqual => Some(Instruction::GreaterThanOrEquals { dest, lhs, rhs }),
        Operator::LessThan => Some(Instruction::LessThan { dest, lhs, rhs }),
        Operator::LessThanOrEqual => Some(Instruction::LessThanOrEquals { dest, lhs, rhs }),
        Operator::Not => None,
    }
}

/// Copies the registers `registers[from..]` into fresh registers, one after
/// the other, so that the arguments of a call lie side by side.
pub open spec fn copy_arguments(s: State, registers: Seq<u8>, from: int) -> Result<
    State,
    ErrorView,
>
    decreases registers.len() - from,
{
    if from < 0 || from >= registers.len() {
        Ok(s)
    } else {
        match s.allocate() {
            Err(e) => Err(e),
            Ok((s1, dest)) => copy_arguments(
                s1.emit(Instruction::Copy { dest, src: registers[from] }),
                registers,
                from + 1,
            ),
        }
    }
}

/// Emits the call itself, once the arguments lie in the `arg_count` registers
/// below the next free one: towards `target` where the name is that of a
/// declared function, by name otherwise.
pub open spec fn emit_call(s: State, name: Seq<char>, target: Option<int>, arg_count: u8) -> Result<
    (State, u8),
    ErrorView,
> {
    match target {
        Some(position) => if position > u16::MAX {
            Err(ErrorView::IntegerConversion)
        } else {
            match s.allocate() {
                Err(e) => Err(e),
                Ok((s1, function)) => match s1.allocate() {
                    Err(e) => Err(e),
                    Ok((s2, return_val)) => Ok(
                        (
                            s2.emit(
                                Instruction::LoadFunction { dest: function, src: position as u16 },
                            ).emit(
                                Instruction::CallFunction { src: function, arg_count, return_val },
                            ),
                            return_val,
                        ),
                    ),
                },
            }
        },
        None => match load_literal(s, LiteralView::String(name)) {
            Err(e) => Err(e),
            Ok((s1, name_register)) => match s1.allocate() {
                Err(e) => Err(e),
                Ok((s2, return_val)) => Ok(
                    (
                        s2.emit(
                            Instruction::CallNativeFunction {
                                src: name_register,
                                arg_count,
                                return_val,
                            },
                        ),
                        return_val,
                    ),
                ),
            },
        },
    }
}

/// Walks the fields `path[from..until]` of the object in `object`, leaving each
/// field read in `into`.
pub open spec fn walk_path(
    s: State,
    path: Seq<String>,
    from: int,
    until: int,
    object: u8,
    into: u8,
) -> Result<(State, u8), ErrorView>
    decreases until - from,
{
    if from < 0 || from >= until || until > path.len() {
        Ok((s, object))
    } else {
        match load_literal(s, LiteralView::String(path[from]@)) {
            Err(e) => Err(e),
            Ok((s1, field)) => walk_path(
                s1.emit(Instruction::GetObjectField { object, field, return_val: into }),
                path,
                from + 1,
                until,
                into,
                into,
            ),
        }
    }
}

/// Compiles an expression; the register holds its value at run time.
pub open spec fn compile_expression(s: State, e: Expression) -> Result<(State, u8), ErrorView>
    decreases e, 0nat,
{
    match e {
        Expression::Prefix { op, expr } => match compile_expression(s, *expr) {
            Err(e) => Err(e),
            Ok((s1, rhs)) => match s1.allocate() {
                Err(e) => Err(e),
                Ok((s2, dest)) => match prefix_instruction(op, dest, rhs) {
                    None => Err(ErrorView::General(message_prefix())),
                    Some(instruction) => Ok((s2.emit(instruction), dest)),
                },
            },
        },
        Expression::Infix { op, lhs, rhs } => match compile_expression(s, *lhs) {
            Err(e) => Err(e),
            Ok((s1, lhs_register)) => match compile_expression(s1, *rhs) {
                Err(e) => Err(e),
                Ok((s2, rhs_register)) => match s2.allocate() {
                    Err(e) => Err(e),
                    Ok((s3, dest)) => match infix_instruction(op, dest, lhs_register, rhs_register) {
                        None => Err(ErrorView::General(message_infix())),
                        Some(instruction) => Ok((s3.emit(instruction), dest)),
                    },
                },
            },
        },
        Expression::Literal(literal) => load_literal(s, literal@),
        Expression::Variable(name) => match resolve(s.scopes, name@) {
            Some(register) => Ok((s.count(register), register)),
            None => Err(ErrorView::VariableNotFound(name@)),
        },
        Expression::FunctionCall { name, args } => match callee(s, name@) {
            Err(e) => Err(e),
            Ok(target) => match compile_arguments(s, args@, 0) {
                Err(e) => Err(e),
                Ok((s1, registers)) => match copy_arguments(s1, registers, 0) {
                    Err(e) => Err(e),
                    Ok(s2) => emit_call(s2, name@, target, args@.len() as u8),
                },
            },
        },
        Expression::Object { fields } => match s.allocate() {
            Err(e) => Err(e),
            Ok((s1, object)) => match compile_fields(
                s1.emit(Instruction::AllocateObject { dest: object }),
                fields@,
                0,
                object,
            ) {
                Err(e) => Err(e),
                Ok(s2) => Ok((s2, object)),
            },
        },
        Expression::Array { this } => match s.allocate() {
            Err(e) => Err(e),
            Ok((s1, array)) => match compile_elements(
                s1.emit(Instruction::AllocateArray { dest: array }),
                this@,
                0,
                array,
            ) {
                Err(e) => Err(e),
                Ok(s2) => Ok((s2, array)),
            },
        },
        Expression::ObjectAccess { path } => if path@.len() == 0 {
            Err(ErrorView::General(message_access_path()))
        } else {
            match s.allocate() {
                Err(e) => Err(e),
                Ok((s1, into)) => match resolve(s1.scopes, path@[0]@) {
                    None => Err(ErrorView::VariableNotFound(path@[0]@)),
                    Some(object) => match walk_path(
                        s1.count(object),
                        path@,
                        1,
                        path@.len() as int,
                        object,
                        into,
                    ) {
                        Err(e) => Err(e),
                        Ok((s2, _)) => Ok((s2, into)),
                    },
                },
            }
        },
        Expression::ArrayAccess { name, index } => match s.allocate() {
            Err(e) => Err(e),
            Ok((s1, into)) => match resolve(s1.scopes, name@) {
                None => Err(ErrorView::VariableNotFound(name@)),
                Some(array) => match compile_expression(s1.count(array), *index) {
                    Err(e) => Err(e),
                    Ok((s2, index_register)) => Ok(
                        (
                            s2.emit(
                                Instruction::GetArrayIndex {
                                    array,
                                    index: index_register,
                                    return_val: into,
                                },
                            ),
                            into,
                        ),
                    ),
                },
            },
        },
    }
}

/// Compiles the arguments `args[from..]` of a call in order and collects the
/// registers that hold them.
pub open spec fn compile_arguments(s: State, args: Seq<Expression>, from: int) -> Result<
    (State, Seq<u8>),
    ErrorView,
>
    decreases args, args.len() - from,
{
    if from < 0 || from >= args.len() {
        Ok((s, Seq::empty()))
    } else {
        match compile_expression(s, args[from]) {
            Err(e) => Err(e),
            Ok((s1, register)) => match compile_arguments(s1, args, from + 1) {
                Err(e) => Err(e),
                Ok((s2, registers)) => Ok((s2, seq![register] + registers)),
            },
        }
    }
}

/// Compiles the fields `fields[from..]` of an object literal: for each, its
/// name as a string constant, its value, and the store into the object.
pub open spec fn compile_fields(
    s: State,
    fields: Seq<(String, Expression)>,
    from: int,
    object: u8,
) -> Result<State, ErrorView>
    decreases fields, fields.len() - from,
{
    if from < 0 || from >= fields.len() {
        Ok(s)
    } else {
        match load_literal(s, LiteralView::String(fields[from].0@)) {
            Err(e) => Err(e),
            Ok((s1, field)) => match compile_expression(s1, fields[from].1) {
                Err(e) => Err(e),
                Ok((s2, value)) => compile_fields(
                    s2.emit(Instruction::SetObjectField { object, field, value }),
                    fields,
                    from + 1,
                    object,
                ),
            },
        }
    }
}

/// Compiles the elements `elements[from..]` of an array literal: for each, its
/// position as an integer constant, its value, and the store into the array.
pub open spec fn compile_elements(
    s: State,
    elements: Seq<Expression>,
    from: int,
    array: u8,
) -> Result<State, ErrorView>
    decreases elements, elements.len() - from,
{
    if from < 0 || from >= elements.len() {
        Ok(s)
    } else if from > i64::MAX {
        Err(ErrorView::IntegerConversion)
    } else {
        match load_literal(s, LiteralView::Integer(from as i64)) {
            Err(e) => Err(e),
            Ok((s1, index)) => match compile_expression(s1, elements[from]) {
                Err(e) => Err(e),
                Ok((s2, value)) => compile_elements(
                    s2.emit(Instruction::SetArrayIndex { array, index, value }),
                    elements,
                    from + 1,
                    array,
                ),
            },
        }
    }
}

/// Binds the parameters `parameters[from..]` to registers, one after the
/// other.
pub open spec fn bind_parameters(s: State, parameters: Seq<FunctionParameter>, from: int) -> Result<
    State,
    ErrorView,
>
    decreases parameters.len() - from,
{
    if from < 0 || from >= parameters.len() {
        Ok(s)
    } else {
        match s.allocate() {
            Err(e) => Err(e),
            Ok((s1, register)) => bind_parameters(
                s1.define(parameters[from].name@, register, false),
                parameters,
                from + 1,
            ),
        }
    }
}

/// The jump that leaves a loop whose body holds `body_len` instructions, from
/// the position `at` of the body: it lands behind the jump that closes the loop.
pub open spec fn break_offset(body_len: int, at: int) -> int {
    body_len + 1 - at
}

/// The body of a loop with every pending `break` in `body[from..]` turned into
/// a jump behind the end of the loop.
pub open spec fn patch_breaks(body: Seq<Instruction>, from: int) -> Result<
    Seq<Instruction>,
    ErrorView,
>
    decreases body.len() - from,
{
    if from < 0 || from >= body.len() {
        Ok(body)
    } else if body[from].is_pending_break() {
        if break_offset(body.len() as int, from) > u16::MAX {
            Err(ErrorView::IntegerConversion)
        } else {
            patch_breaks(
                body.update(
                    from,
                    Instruction::Jump { offset: break_offset(body.len() as int, from) as u16 },
                ),
                from + 1,
            )
        }
    } else {
        patch_breaks(body, from + 1)
    }
}

/// Closes a loop around its compiled body: the breaks are resolved, and a
/// jump back to the first instruction of the body is put behind it.
pub open spec fn close_loop(body: Seq<Instruction>) -> Result<Seq<Instruction>, ErrorView> {
    match patch_breaks(body, 0) {
        Err(e) => Err(e),
        Ok(patched) => if body.len() > u16::MAX {
            Err(ErrorView::IntegerConversion)
        } else {
            Ok(patched.push(Instruction::JumpReverse { offset: body.len() as u16 }))
        },
    }
}

/// How deep the blocks of a statement nest; what the compiler's recursion over
/// statements goes down by.
pub open spec fn statement_height(statement: Statement) -> nat
    decreases statement, 0nat,
{
    match statement {
        Statement::If { body, else_statement, .. } => 1 + statement_height(*body) + else_height(
            else_statement,
        ),
        Statement::Block { body } => 1 + statements_height(body@, 0),
        Statement::Loop { body } => 1 + statement_height(*body),
        Statement::Function(function) => 1 + statement_height(*function.body),
        _ => 0,
    }
}

/// The height of what follows `else`, if anything does.
pub open spec fn else_height(else_statement: Option<Box<Statement>>) -> nat
    decreases else_statement, 0nat,
{
    match else_statement {
        Some(otherwise) => statement_height(*otherwise),
        None => 0,
    }
}

/// The height of the statements `statements[from..]` taken together.
pub open spec fn statements_height(statements: Seq<Statement>, from: int) -> nat
    decreases statements, statements.len() - from,
{
    if from < 0 || from >= statements.len() {
        0
    } else {
        1 + statement_height(statements[from]) + statements_height(statements, from + 1)
    }
}

/// Compiles one statement.
pub open spec fn compile_statement(s: State, statement: Statement) -> Result<State, ErrorView>
    decreases statement_height(statement), 1nat,
{
    match statement {
        Statement::Const { name, value, .. } => compile_let(s, name@, value, false),
        Statement::Let { name, value, is_mutable, .. } => compile_let(s, name@, *value, is_mutable),
        Statement::Reassignment { name, value } => compile_let_mutation(s, name@, *value),
        Statement::If { condition, body, else_statement } => compile_if(
            s,
            *condition,
            *body,
            else_statement,
        ),
        Statement::Block { body } => compile_block(s, body@),
        Statement::Function(function) => compile_function(s, function),
        Statement::Expression(expression) => match compile_expression(s, expression) {
            Err(e) => Err(e),
            Ok((s1, _)) => Ok(s1),
        },
        Statement::Return(expression) => compile_return(s, expression),
        Statement::Loop { body } => compile_loop(s, *body),
        Statement::Break => Ok(compile_break(s)),
        Statement::ObjectMutation { path, value } => compile_object_mutation(s, path, *value),
    }
}

/// Compiles the statements `statements[from..]` in order.
pub open spec fn compile_statements(s: State, statements: Seq<Statement>, from: int) -> Result<
    State,
    ErrorView,
>
    decreases statements_height(statements, from), 0nat,
{
    if from < 0 || from >= statements.len() {
        Ok(s)
    } else {
        match compile_statement(s, statements[from]) {
            Err(e) => Err(e),
            Ok(s1) => compile_statements(s1, statements, from + 1),
        }
    }
}

/// `let` and `const`: the register of the value becomes the variable.
pub open spec fn compile_let(s: State, name: Seq<char>, value: Expression, is_mutable: bool) -> Result<
    State,
    ErrorView,
> {
    match compile_expression(s, value) {
        Err(e) => Err(e),
        Ok((s1, register)) => Ok(s1.define(name, register, is_mutable)),
    }
}

/// Assignment to a variable that exists: the new value is copied into the
/// register that the variable has had all along.
pub open spec fn compile_let_mutation(s: State, name: Seq<char>, value: Expression) -> Result<
    State,
    ErrorView,
> {
    if !can_mutate(s.scopes, name) {
        Err(ErrorView::MutationNotAllowed(name))
    } else {
        match compile_expression(s, value) {
            Err(e) => Err(e),
            Ok((s1, register)) => match resolve(s1.scopes, name) {
                None => Err(ErrorView::VariableNotFound(name)),
                Some(target) => Ok(
                    s1.count(target).emit(Instruction::Copy { dest: target, src: register }).define(
                        name,
                        target,
                        true,
                    ),
                ),
            },
        }
    }
}

/// A block: its statements, in a scope of their own, which knows from the
/// start which functions the block declares. At its end the names that it
/// bound are gone and the registers that it took are free again.
pub open spec fn compile_block(s: State, body: Seq<Statement>) -> Result<State, ErrorView>
    decreases statements_height(body, 0), 1nat,
{
    match compile_statements(announce_functions(s.enter_scope(), body, 0), body, 0) {
        Err(e) => Err(e),
        Ok(s1) => Ok(s1.exit_scope().release(s.next_register)),
    }
}

/// What follows `else`: another `if`, or a block.
pub open spec fn compile_else(s: State, else_statement: Statement) -> Result<State, ErrorView>
    decreases statement_height(else_statement), 1nat,
{
    match else_statement {
        Statement::If { condition, body, else_statement } => compile_if(
            s,
            *condition,
            *body,
            else_statement,
        ),
        Statement::Block { body } => compile_block(s, body@),
        _ => Err(ErrorView::General(message_else())),
    }
}

/// `if`: the condition, a jump over the body that is taken when the condition
/// is false, the body, and, where there is an `else`, a jump over it at the end
/// of the body, and the `else`.
pub open spec fn compile_if(
    s: State,
    condition: Expression,
    body: Statement,
    else_statement: Option<Box<Statement>>,
) -> Result<State, ErrorView>
    decreases statement_height(body) + else_height(else_statement) + 1, 0nat,
{
    match compile_expression(s, condition) {
        Err(e) => Err(e),
        Ok((s1, test)) => match compile_statement(s1.with_code(Seq::empty()), body) {
            Err(e) => Err(e),
            Ok(s2) => {
                let skip = s2.code.len() + 1 + (if else_statement is Some {
                    1int
                } else {
                    0int
                });
                if skip > u16::MAX {
                    Err(ErrorView::IntegerConversion)
                } else {
                    let s3 = s2.with_code(
                        s1.code.push(Instruction::JumpIfFalse { src: test, offset: skip as u16 })
                            + s2.code,
                    );
                    match else_statement {
                        None => Ok(s3),
                        Some(otherwise) => match compile_else(
                            s3.with_code(Seq::empty()),
                            *otherwise,
                        ) {
                            Err(e) => Err(e),
                            Ok(s4) => if s4.code.len() + 1 > u16::MAX {
                                Err(ErrorView::IntegerConversion)
                            } else {
                                Ok(
                                    s4.with_code(
                                        s3.code.push(
                                            Instruction::Jump {
                                                offset: (s4.code.len() + 1) as u16,
                                            },
                                        ) + s4.code,
                                    ),
                                )
                            },
                        },
                    }
                }
            },
        },
    }
}

/// `return` with a value.
pub open spec fn compile_return(s: State, expression: Expression) -> Result<State, ErrorView> {
    match compile_expression(s, expression) {
        Err(e) => Err(e),
        Ok((s1, val)) => Ok(s1.emit(Instruction::Return { val })),
    }
}

/// `loop`: the body, with its breaks resolved, and a jump back to its start.
pub open spec fn compile_loop(s: State, body: Statement) -> Result<State, ErrorView>
    decreases statement_height(body), 1nat,
{
    match body {
        Statement::Block { body } => match compile_block(s.with_code(Seq::empty()), body@) {
            Err(e) => Err(e),
            Ok(s1) => match close_loop(s1.code) {
                Err(e) => Err(e),
                Ok(code) => Ok(s1.with_code(s.code + code)),
            },
        },
        _ => Err(ErrorView::General(message_loop_body())),
    }
}

/// `break`: a mark in the place of the jump that the enclosing loop puts
/// there when it is closed.
pub open spec fn compile_break(s: State) -> State {
    s.emit(Instruction::PendingBreak)
}

/// Assignment to a field of an object.
pub open spec fn compile_object_mutation(s: State, path: Expression, value: Expression) -> Result<
    State,
    ErrorView,
> {
    match path {
        Expression::ObjectAccess { path } => if path@.len() < 2 {
            Err(ErrorView::General(message_mutation_path()))
        } else {
            match s.allocate() {
                Err(e) => Err(e),
                Ok((s1, into)) => match resolve(s1.scopes, path@[0]@) {
                    None => Err(ErrorView::VariableNotFound(path@[0]@)),
                    Some(base) => match walk_path(
                        s1.count(base),
                        path@,
                        1,
                        path@.len() - 1,
                        base,
                        into,
                    ) {
                        Err(e) => Err(e),
                        Ok((s2, object)) => match load_literal(
                            s2,
                            LiteralView::String(path@.last()@),
                        ) {
                            Err(e) => Err(e),
                            Ok((s3, field)) => match compile_expression(s3, value) {
                                Err(e) => Err(e),
                                Ok((s4, value)) => Ok(
                                    s4.emit(Instruction::SetObjectField { object, field, value }),
                                ),
                            },
                        },
                    },
                },
            }
        },
        _ => Err(ErrorView::General(message_mutation_path())),
    }
}

/// The state in which the body of a function is compiled: the name is declared
/// in the enclosing block, the function has its place in the table, a new
/// block is open, the code buffer is empty and the register counter is at 1.
pub open spec fn function_entry(s: State, function: Function) -> State {
    (State {
        next_register: 1,
        highest: 1,
        functions: s.functions.push(
            FunctionView { name: function.name@, code: Seq::empty(), register_count: 0 },
        ),
        code: Seq::empty(),
        ..s.define_function(function.name@)
    }).enter_scope()
}

/// A function declaration. The name is declared in the enclosing block and the
/// function gets its place in the table before the body is compiled, so that
/// the body can call the function itself. The body is compiled into a buffer of
/// its own with the register counter starting at 1; the parameters take the
/// first registers. A `break` of the body that stands in no loop of the body
/// is an error. A return without a value ends the code, and the function needs
/// as many registers as the counter has reached at most. Afterwards the
/// counters and the buffer are those of the enclosing code again.
pub open spec fn compile_function(s: State, function: Function) -> Result<State, ErrorView>
    decreases statement_height(*function.body), 1nat,
{
    let place = s.functions.len() as int;
    match bind_parameters(function_entry(s, function), function.parameters@, 0) {
        Err(e) => Err(e),
        Ok(s1) => match *function.body {
            Statement::Block { body } => match compile_statements(
                announce_functions(s1, body@, 0),
                body@,
                0,
            ) {
                Err(e) => Err(e),
                Ok(s2) => if has_pending_break(s2.code) {
                    Err(ErrorView::General(message_break()))
                } else {
                    Ok(
                        State {
                            next_register: s.next_register,
                            highest: s.highest,
                            functions: s2.functions.update(
                                place,
                                FunctionView {
                                    name: function.name@,
                                    code: s2.code.push(Instruction::FunctionReturn),
                                    register_count: s2.highest,
                                },
                            ),
                            code: s.code,
                            ..s2.exit_scope()
                        },
                    )
                },
            },
            _ => Err(ErrorView::General(message_function_body())),
        },
    }
}

/// Compiles a whole program: the statements in order into the global code,
/// which needs as many registers as the counter has reached at most. A `break`
/// that stands in no loop is an error.
pub open spec fn compile_program(s: State, statements: Seq<Statement>) -> Result<
    ProgramView,
    ErrorView,
> {
    match compile_statements(announce_functions(s, statements, 0), statements, 0) {
        Err(e) => Err(e),
        Ok(done) => if has_pending_break(done.code) {
            Err(ErrorView::General(message_break()))
        } else {
            Ok(
                ProgramView {
                    functions: done.functions,
                    global_code: done.code,
                    global_register_count: done.highest,
                    literals: done.literals,
                },
            )
        },
    }
}

} // verus!
