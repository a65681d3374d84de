//! The bytecode compiler: walks the statement tree and emits instructions for
//! the register machine, binding names to registers block by block.

pub mod laws;
pub mod model;
pub mod registers;

use crate::ast::{Expression, FunctionParameter, Operator, Statement};
use crate::ast;
use crate::compiler::laws::{lemma_patch_breaks, lemma_rejected_assignment_changes_nothing};
use crate::compiler::model::{
    announce_functions, bind_parameters, binding, break_offset, can_mutate, close_loop,
    compile_arguments, compile_block, compile_break, compile_elements, compile_else,
    compile_expression, compile_fields, compile_function, compile_if, compile_let,
    compile_let_mutation, compile_loop, compile_object_mutation, compile_program,
    compile_return, compile_statement, compile_statements, copy_arguments, else_height,
    emit_call, function_entry, intern, is_announced, latest_function, load_literal,
    patch_breaks, pool_position, resolve, resolve_function, statement_height,
    statements_height, walk_path, ErrorView, FunctionView, ProgramView, State,
};
use crate::instructions::{Instruction, LiteralId, Register};
use crate::parser::error::ParserError;
use crate::scope::{Scope, ScopeType, ScopeView, Value};
use crate::types::{literal_views, Literal, LiteralView};
use vstd::prelude::*;
use vstd::std_specs::convert::FromSpecImpl;

verus! {

/// Why a program could not be compiled.
#[derive(Debug, PartialEq)]
pub enum CompilerError {
    ParserError { source: ParserError },
    GeneralError { cause: String },
    VariableNotFound { variable: String },
    MutationNotAllowed { variable: String },
    IntegerConversionError,
}

impl View for CompilerError {
    type V = ErrorView;

    open spec fn view(&self) -> ErrorView {
        match *self {
            CompilerError::ParserError { .. } => ErrorView::Parser,
            CompilerError::GeneralError { cause } => ErrorView::General(cause@),
            CompilerError::VariableNotFound { variable } => ErrorView::VariableNotFound(variable@),
            CompilerError::MutationNotAllowed { variable } => ErrorView::MutationNotAllowed(
                variable@,
            ),
            CompilerError::IntegerConversionError => ErrorView::IntegerConversion,
        }
    }
}

impl From<ParserError> for CompilerError {
    fn from(value: ParserError) -> (error: Self) {
        CompilerError::ParserError { source: value }
    }
}

impl FromSpecImpl<ParserError> for CompilerError {
    open spec fn obeys_from_spec() -> bool {
        true
    }

    open spec fn from_spec(value: ParserError) -> Self {
        CompilerError::ParserError { source: value }
    }
}

/// What the compiler makes of a program and the machine runs: the functions,
/// the code outside of functions with the number of registers that it needs,
/// and the pool of the literals that the code loads by id.
#[derive(Debug, PartialEq)]
pub struct CompiledProgram {
    pub functions: Vec<Function>,
    pub global_code: Vec<Instruction>,
    pub global_register_count: u8,
    pub literals: Vec<Literal>,
}

/// A compiled function: its name, its code, and the number of registers that
/// its window needs.
#[derive(Debug, PartialEq)]
pub struct Function {
    pub name: String,
    pub code: Vec<Instruction>,
    pub register_count: u8,
}

impl View for Function {
    type V = FunctionView;

    open spec fn view(&self) -> FunctionView {
        FunctionView { name: self.name@, code: self.code@, register_count: self.register_count }
    }
}

/// The views of a sequence of functions, in order.
pub open spec fn function_views(functions: Seq<Function>) -> Seq<FunctionView> {
    Seq::new(functions.len(), |i: int| functions[i]@)
}

/// The views of a stack of scopes, outermost first.
pub open spec fn scope_views(scopes: Seq<Scope>) -> Seq<ScopeView> {
    Seq::new(scopes.len(), |i: int| scopes[i]@)
}

impl View for CompiledProgram {
    type V = ProgramView;

    open spec fn view(&self) -> ProgramView {
        ProgramView {
            functions: function_views(self.functions@),
            global_code: self.global_code@,
            global_register_count: self.global_register_count,
            literals: literal_views(self.literals@),
        }
    }
}

/// The compiler between two statements: the open scopes, the register counter
/// of the code that is being compiled, the functions and literals so far, and
/// the code buffer that instructions are appended to.
#[derive(Debug)]
pub struct Compiler {
    scope_stack: Vec<Scope>,
    next_available_register: Register,
    highest_register: Register,
    functions: Vec<Function>,
    literals: Vec<Literal>,
    bytecode: Vec<Instruction>,
}

impl View for Compiler {
    type V = State;

    closed spec fn view(&self) -> State {
        State {
            scopes: scope_views(self.scope_stack@),
            next_register: self.next_available_register,
            highest: self.highest_register,
            functions: function_views(self.functions@),
            literals: literal_views(self.literals@),
            code: self.bytecode@,
        }
    }
}

proof fn lemma_binding_skip(scopes: Seq<ScopeView>, name: Seq<char>, upto: int)
    requires
        0 <= upto <= scopes.len(),
        forall|j: int| upto <= j < scopes.len() ==> !scopes[j].symbols.dom().contains(name),
    ensures
        binding(scopes, name) == binding(scopes.take(upto), name),
    decreases scopes.len() - upto,
{
    if upto == scopes.len() {
        assert(scopes.take(upto) =~= scopes);
    } else {
        assert(scopes.drop_last().take(upto) =~= scopes.take(upto));
        lemma_binding_skip(scopes.drop_last(), name, upto);
    }
}

proof fn lemma_latest_function_skip(functions: Seq<FunctionView>, name: Seq<char>, upto: int)
    requires
        0 <= upto <= functions.len(),
        forall|j: int| upto <= j < functions.len() ==> functions[j].name != name,
    ensures
        latest_function(functions, name) == latest_function(functions.take(upto), name),
    decreases functions.len() - upto,
{
    if upto == functions.len() {
        assert(functions.take(upto) =~= functions);
    } else {
        assert(functions.drop_last().take(upto) =~= functions.take(upto));
        lemma_latest_function_skip(functions.drop_last(), name, upto);
    }
}

impl Compiler {
    /// A compiler that has seen nothing yet.
    pub fn new() -> (compiler: Self)
        ensures
            compiler@ == State::initial(),
            compiler@.well_formed(),
    {
        let mut scope_stack = Vec::new();
        scope_stack.push(Scope::new(ScopeType::Global));
        let compiler = Compiler {
            scope_stack,
            next_available_register: 1,
            highest_register: 1,
            functions: Vec::new(),
            literals: Vec::new(),
            bytecode: Vec::new(),
        };
        proof {
            assert(compiler@.scopes =~= State::initial().scopes);
            assert(compiler@.functions =~= State::initial().functions);
            assert(compiler@.literals =~= State::initial().literals);
            assert(compiler@.code =~= State::initial().code);
        }
        compiler
    }

    fn emit(&mut self, instruction: Instruction)
        ensures
            final(self)@ == old(self)@.emit(instruction),
    {
        self.bytecode.push(instruction);
    }

    fn add_scope(&mut self)
        ensures
            final(self)@ == old(self)@.enter_scope(),
    {
        self.scope_stack.push(Scope::new(ScopeType::Local));
        assert(self@.scopes =~= old(self)@.enter_scope().scopes);
    }

    fn remove_scope(&mut self)
        requires
            old(self)@.scopes.len() > 0,
        ensures
            final(self)@ == old(self)@.exit_scope(),
    {
        self.scope_stack.pop();
        assert(self@.scopes =~= old(self)@.exit_scope().scopes);
    }

    fn define_current_scope(&mut self, name: &str, register: Register, is_mutable: bool)
        requires
            old(self)@.well_formed(),
        ensures
            final(self)@ == old(self)@.define(name@, register, is_mutable),
    {
        let mut current_scope = self.scope_stack.pop().unwrap();
        if is_mutable {
            current_scope.define_mutable(name, register);
        } else {
            current_scope.define_immutable(name, register);
        }
        self.scope_stack.push(current_scope);
        proof {
            let before = old(self)@;
            let innermost = before.scopes.last();
            let expected = before.define(name@, register, is_mutable);
            assert(current_scope@ == ScopeView {
                symbols: innermost.symbols.insert(name@, Value { register, is_mutable }),
                ..innermost
            });
            assert(self@.scopes =~= expected.scopes);
        }
    }

    fn define_immutable_current_scope(&mut self, name: &str, register: Register)
        requires
            old(self)@.well_formed(),
        ensures
            final(self)@ == old(self)@.define(name@, register, false),
    {
        self.define_current_scope(name, register, false);
    }

    fn define_mutable_current_scope(&mut self, name: &str, register: Register)
        requires
            old(self)@.well_formed(),
        ensures
            final(self)@ == old(self)@.define(name@, register, true),
    {
        self.define_current_scope(name, register, true);
    }

    fn define_function_current_scope(&mut self, name: &str)
        requires
            old(self)@.well_formed(),
        ensures
            final(self)@ == old(self)@.define_function(name@),
    {
        let mut current_scope = self.scope_stack.pop().unwrap();
        current_scope.define_function(name);
        self.scope_stack.push(current_scope);
        proof {
            let before = old(self)@;
            let innermost = before.scopes.last();
            assert(current_scope@ == ScopeView {
                functions: innermost.functions.insert(name@),
                ..innermost
            });
            assert(self@.scopes =~= before.define_function(name@).scopes);
        }
    }

    fn lookup(&self, name: &str) -> (r: Option<Value>)
        ensures
            r == binding(self@.scopes, name@),
    {
        let mut i: usize = self.scope_stack.len();
        while i > 0
            invariant
                i <= self.scope_stack.len(),
                forall|j: int|
                    i <= j < self.scope_stack.len() ==> !self@.scopes[j].symbols.dom().contains(
                        name@,
                    ),
            decreases i,
        {
            i = i - 1;
            match self.scope_stack[i].lookup(name) {
                Some(value) => {
                    proof {
                        lemma_binding_skip(self@.scopes, name@, i + 1);
                        assert(self@.scopes.take(i + 1).last() == self@.scopes[i as int]);
                    }
                    return Some(value);
                },
                None => {},
            }
        }
        proof {
            lemma_binding_skip(self@.scopes, name@, 0);
        }
        None
    }

    fn can_mutate_variable(&self, name: &str) -> (r: bool)
        ensures
            r == can_mutate(self@.scopes, name@),
    {
        match self.lookup(name) {
            Some(value) => value.is_mutable,
            None => false,
        }
    }

    fn resolve(&self, name: &str) -> (r: Option<Register>)
        ensures
            r == resolve(self@.scopes, name@),
    {
        match self.lookup(name) {
            Some(value) => Some(value.register),
            None => None,
        }
    }

    fn resolve_function(&self, name: &str) -> (r: bool)
        ensures
            r == resolve_function(self@.scopes, name@),
    {
        let mut i: usize = self.scope_stack.len();
        while i > 0
            invariant
                i <= self.scope_stack.len(),
                forall|j: int|
                    i <= j < self.scope_stack.len() ==> !self@.scopes[j].functions.contains(name@),
            decreases i,
        {
            i = i - 1;
            if self.scope_stack[i].contains_function(name) {
                assert(self@.scopes[i as int].functions.contains(name@));
                return true;
            }
        }
        false
    }

    fn is_announced(&self, name: &str) -> (r: bool)
        ensures
            r == is_announced(self@.scopes, name@),
    {
        let mut i: usize = self.scope_stack.len();
        while i > 0
            invariant
                i <= self.scope_stack.len(),
                forall|j: int|
                    i <= j < self.scope_stack.len() ==> !self@.scopes[j].announced.contains(name@),
            decreases i,
        {
            i = i - 1;
            if self.scope_stack[i].announces_function(name) {
                assert(self@.scopes[i as int].announced.contains(name@));
                return true;
            }
        }
        false
    }

    /// Announces in the current scope the functions that the statements
    /// declare.
    fn announce_functions(&mut self, statements: &Vec<Statement>)
        requires
            old(self)@.well_formed(),
        ensures
            final(self)@ == announce_functions(old(self)@, statements@, 0),
            final(self)@ == (State { scopes: final(self)@.scopes, ..old(self)@ }),
            final(self)@.well_formed(),
            final(self)@.scopes.len() == old(self)@.scopes.len(),
    {
        let mut current_scope = self.scope_stack.pop().unwrap();
        let ghost rest = self@;
        assert(rest == State { scopes: rest.scopes, ..old(self)@ });
        let ghost start = old(self)@;
        let mut i: usize = 0;
        assert(start.scopes =~= rest.scopes.push(current_scope@));
        while i < statements.len()
            invariant
                i <= statements.len(),
                self@ == rest,
                rest == (State { scopes: rest.scopes, ..start }),
                rest.scopes.len() + 1 == start.scopes.len(),
                start == old(self)@,
                announce_functions(start, statements@, 0) == announce_functions(
                    State { scopes: rest.scopes.push(current_scope@), ..rest },
                    statements@,
                    i as int,
                ),
            decreases statements.len() - i,
        {
            let ghost before = current_scope@;
            match &statements[i] {
                Statement::Function(function) => {
                    current_scope.announce_function(function.name.as_str());
                    proof {
                        let held = State { scopes: rest.scopes.push(before), ..rest };
                        assert(current_scope@ == ScopeView {
                            announced: before.announced.insert(function.name@),
                            ..before
                        });
                        assert(held.announce(function.name@).scopes =~= rest.scopes.push(
                            current_scope@,
                        ));
                    }
                },
                _ => {},
            }
            i = i + 1;
        }
        self.scope_stack.push(current_scope);
        assert(self@.scopes =~= rest.scopes.push(current_scope@));
    }

    /// Where the function declared last under `name` stands in the table.
    fn latest_function(&self, name: &str) -> (r: Option<usize>)
        ensures
            r matches Some(position) ==> latest_function(self@.functions, name@) == Some(
                position as int,
            ),
            r is None ==> latest_function(self@.functions, name@) is None,
    {
        let wanted = name.to_owned();
        let mut i: usize = self.functions.len();
        while i > 0
            invariant
                i <= self.functions.len(),
                wanted@ == name@,
                forall|j: int| i <= j < self.functions.len() ==> self@.functions[j].name != name@,
            decreases i,
        {
            i = i - 1;
            if self.functions[i].name == wanted {
                proof {
                    lemma_latest_function_skip(self@.functions, name@, i + 1);
                    assert(self@.functions.take(i + 1).last() == self@.functions[i as int]);
                }
                return Some(i);
            }
        }
        proof {
            lemma_latest_function_skip(self@.functions, name@, 0);
        }
        None
    }

    fn get_register(&mut self) -> (r: Result<Register, CompilerError>)
        ensures
            match r {
                Ok(register) => old(self)@.allocate() == Ok::<_, ErrorView>(
                    (final(self)@, register),
                ),
                Err(e) => old(self)@.allocate() == Err::<(State, u8), _>(e@) && final(self)@ == old(self)@,
            },
            final(self)@.scopes == old(self)@.scopes,
            final(self)@.functions == old(self)@.functions,
    {
        if self.next_available_register == u8::MAX {
            return Err(CompilerError::IntegerConversionError);
        }
        let reg = self.next_available_register;
        self.next_available_register = reg + 1;
        if self.highest_register < reg + 1 {
            self.highest_register = reg + 1;
        }
        Ok(reg)
    }

    /// Counts `register` among the registers that the window of the current
    /// code needs.
    fn count(&mut self, register: Register)
        ensures
            final(self)@ == old(self)@.count(register),
    {
        let needed = if register == u8::MAX {
            u8::MAX
        } else {
            register + 1
        };
        if self.highest_register < needed {
            self.highest_register = needed;
        }
    }

    /// The id of `literal` in the pool, which holds it afterwards.
    fn intern(&mut self, literal: &Literal) -> (r: Result<LiteralId, CompilerError>)
        ensures
            match r {
                Ok(id) => intern(old(self)@, literal@) == Ok::<_, ErrorView>((final(self)@, id)),
                Err(e) => intern(old(self)@, literal@) == Err::<(State, u16), _>(e@),
            },
            final(self)@.scopes == old(self)@.scopes,
            final(self)@.functions == old(self)@.functions,
    {
        let ghost pool = self@.literals;
        let mut i: usize = 0;
        let mut found = false;
        while i < self.literals.len()
            invariant_except_break
                !found,
                pool_position(pool, literal@, 0) == pool_position(pool, literal@, i as int),
            invariant
                i <= self.literals.len(),
                pool == self@.literals,
            ensures
                i <= self.literals.len(),
                pool == self@.literals,
                found ==> pool_position(pool, literal@, 0) == Some(i as int),
                !found ==> i == self.literals.len() && pool_position(pool, literal@, 0) is None,
            decreases self.literals.len() - i,
        {
            if self.literals[i].same(literal) {
                found = true;
                break;
            }
            i = i + 1;
        }
        if !found {
            self.literals.push(literal.clone());
            assert(self@.literals =~= pool.push(literal@));
        }
        if i > u16::MAX as usize {
            return Err(CompilerError::IntegerConversionError);
        }
        Ok(i as u16)
    }

    /// Loads `literal` into a fresh register.
    fn load_literal(&mut self, literal: &Literal) -> (r: Result<Register, CompilerError>)
        ensures
            match r {
                Ok(register) => load_literal(old(self)@, literal@) == Ok::<_, ErrorView>(
                    (final(self)@, register),
                ),
                Err(e) => load_literal(old(self)@, literal@) == Err::<(State, u8), _>(e@),
            },
            final(self)@.scopes == old(self)@.scopes,
            final(self)@.functions == old(self)@.functions,
    {
        let dest = self.get_register()?;
        let src = self.intern(literal)?;
        self.emit(Instruction::LoadLiteral { dest, src });
        Ok(dest)
    }

    fn load_string(&mut self, text: &str) -> (r: Result<Register, CompilerError>)
        ensures
            match r {
                Ok(register) => load_literal(old(self)@, LiteralView::String(text@)) == Ok::<
                    _,
                    ErrorView,
                >((final(self)@, register)),
                Err(e) => load_literal(old(self)@, LiteralView::String(text@)) == Err::<
                    (State, u8),
                    _,
                >(e@),
            },
            final(self)@.scopes == old(self)@.scopes,
            final(self)@.functions == old(self)@.functions,
    {
        let literal = Literal::String(text.to_owned());
        self.load_literal(&literal)
    }

    fn compile_arguments(&mut self, args: &Vec<Expression>) -> (r: Result<
        Vec<Register>,
        CompilerError,
    >)
        ensures
            match r {
                Ok(registers) => compile_arguments(old(self)@, args@, 0) == Ok::<_, ErrorView>(
                    (final(self)@, registers@),
                ) && registers.len() == args.len(),
                Err(e) => compile_arguments(old(self)@, args@, 0) == Err::<(State, Seq<u8>), _>(
                    e@,
                ),
            },
            final(self)@.scopes == old(self)@.scopes,
            final(self)@.functions == old(self)@.functions,
        decreases args,
    {
        let ghost start = self@;
        let mut registers: Vec<Register> = Vec::new();
        let mut i: usize = 0;
        while i < args.len()
            invariant
                i <= args.len(),
                registers.len() == i,
                start == old(self)@,
                self@.scopes == start.scopes,
                self@.functions == start.functions,
                match compile_arguments(self@, args@, i as int) {
                    Ok((s, rest)) => compile_arguments(start, args@, 0) == Ok::<_, ErrorView>(
                        (s, registers@ + rest),
                    ),
                    Err(e) => compile_arguments(start, args@, 0) == Err::<(State, Seq<u8>), _>(e),
                },
            decreases args.len() - i,
        {
            let ghost before = self@;
            let ghost collected = registers@;
            let register = self.compile_expression(&args[i])?;
            registers.push(register);
            i = i + 1;
            proof {
                match compile_arguments(self@, args@, i as int) {
                    Ok((s, rest)) => {
                        assert(collected + (seq![register] + rest) =~= registers@ + rest);
                    },
                    Err(e) => {},
                }
            }
        }
        assert(registers@ + Seq::<u8>::empty() =~= registers@);
        Ok(registers)
    }

    fn copy_arguments(&mut self, registers: &Vec<Register>) -> (r: Result<(), CompilerError>)
        ensures
            match r {
                Ok(_) => copy_arguments(old(self)@, registers@, 0) == Ok::<_, ErrorView>(
                    final(self)@,
                ) && final(self)@.next_register == old(self)@.next_register + registers.len(),
                Err(e) => copy_arguments(old(self)@, registers@, 0) == Err::<State, _>(e@),
            },
            final(self)@.scopes == old(self)@.scopes,
            final(self)@.functions == old(self)@.functions,
    {
        let ghost start = self@;
        let mut i: usize = 0;
        while i < registers.len()
            invariant
                i <= registers.len(),
                start == old(self)@,
                self@.scopes == start.scopes,
                self@.functions == start.functions,
                self@.next_register == start.next_register + i,
                copy_arguments(start, registers@, 0) == copy_arguments(
                    self@,
                    registers@,
                    i as int,
                ),
            decreases registers.len() - i,
        {
            let dest = self.get_register()?;
            self.emit(Instruction::Copy { dest, src: registers[i] });
            i = i + 1;
        }
        Ok(())
    }

    fn emit_call(&mut self, name: &str, target: Option<usize>, arg_count: u8) -> (r: Result<
        Register,
        CompilerError,
    >)
        ensures
            match r {
                Ok(register) => emit_call(
                    old(self)@,
                    name@,
                    match target {
                        Some(position) => Some(position as int),
                        None => None,
                    },
                    arg_count,
                ) == Ok::<_, ErrorView>((final(self)@, register)),
                Err(e) => emit_call(
                    old(self)@,
                    name@,
                    match target {
                        Some(position) => Some(position as int),
                        None => None,
                    },
                    arg_count,
                ) == Err::<(State, u8), _>(e@),
            },
            final(self)@.scopes == old(self)@.scopes,
            final(self)@.functions == old(self)@.functions,
    {
        match target {
            Some(position) => {
                if position > u16::MAX as usize {
                    return Err(CompilerError::IntegerConversionError);
                }
                let function = self.get_register()?;
                let return_val = self.get_register()?;
                self.emit(Instruction::LoadFunction { dest: function, src: position as u16 });
                self.emit(Instruction::CallFunction { src: function, arg_count, return_val });
                Ok(return_val)
            },
            None => {
                let name_register = self.load_string(name)?;
                let return_val = self.get_register()?;
                self.emit(
                    Instruction::CallNativeFunction { src: name_register, arg_count, return_val },
                );
                Ok(return_val)
            },
        }
    }

    fn walk_path(
        &mut self,
        path: &Vec<String>,
        from: usize,
        until: usize,
        object: Register,
        into: Register,
    ) -> (r: Result<Register, CompilerError>)
        requires
            1 <= from <= until <= path.len(),
        ensures
            match r {
                Ok(register) => walk_path(
                    old(self)@,
                    path@,
                    from as int,
                    until as int,
                    object,
                    into,
                ) == Ok::<_, ErrorView>((final(self)@, register)),
                Err(e) => walk_path(old(self)@, path@, from as int, until as int, object, into)
                    == Err::<(State, u8), _>(e@),
            },
            final(self)@.scopes == old(self)@.scopes,
            final(self)@.functions == old(self)@.functions,
    {
        let ghost start = self@;
        let mut current = object;
        let mut i: usize = from;
        while i < until
            invariant
                from <= i <= until <= path.len(),
                start == old(self)@,
                self@.scopes == start.scopes,
                self@.functions == start.functions,
                walk_path(start, path@, from as int, until as int, object, into) == walk_path(
                    self@,
                    path@,
                    i as int,
                    until as int,
                    current,
                    into,
                ),
            decreases until - i,
        {
            let field = self.load_string(path[i].as_str())?;
            self.emit(Instruction::GetObjectField { object: current, field, return_val: into });
            current = into;
            i = i + 1;
        }
        Ok(current)
    }

    fn compile_fields(&mut self, fields: &Vec<(String, Expression)>, object: Register) -> (r:
        Result<(), CompilerError>)
        ensures
            match r {
                Ok(_) => compile_fields(old(self)@, fields@, 0, object) == Ok::<_, ErrorView>(
                    final(self)@,
                ),
                Err(e) => compile_fields(old(self)@, fields@, 0, object) == Err::<State, _>(e@),
            },
            final(self)@.scopes == old(self)@.scopes,
            final(self)@.functions == old(self)@.functions,
        decreases fields,
    {
        let ghost start = self@;
        let mut i: usize = 0;
        while i < fields.len()
            invariant
                i <= fields.len(),
                start == old(self)@,
                self@.scopes == start.scopes,
                self@.functions == start.functions,
                compile_fields(start, fields@, 0, object) == compile_fields(
                    self@,
                    fields@,
                    i as int,
                    object,
                ),
            decreases fields.len() - i,
        {
            let field = self.load_string(fields[i].0.as_str())?;
            let value = self.compile_expression(&fields[i].1)?;
            self.emit(Instruction::SetObjectField { object, field, value });
            i = i + 1;
        }
        Ok(())
    }

    fn compile_elements(&mut self, elements: &Vec<Expression>, array: Register) -> (r: Result<
        (),
        CompilerError,
    >)
        ensures
            match r {
                Ok(_) => compile_elements(old(self)@, elements@, 0, array) == Ok::<_, ErrorView>(
                    final(self)@,
                ),
                Err(e) => compile_elements(old(self)@, elements@, 0, array) == Err::<State, _>(
                    e@,
                ),
            },
            final(self)@.scopes == old(self)@.scopes,
            final(self)@.functions == old(self)@.functions,
        decreases elements,
    {
        let ghost start = self@;
        let mut i: usize = 0;
        while i < elements.len()
            invariant
                i <= elements.len(),
                start == old(self)@,
                self@.scopes == start.scopes,
                self@.functions == start.functions,
                compile_elements(start, elements@, 0, array) == compile_elements(
                    self@,
                    elements@,
                    i as int,
                    array,
                ),
            decreases elements.len() - i,
        {
            if i as u64 > i64::MAX as u64 {
                return Err(CompilerError::IntegerConversionError);
            }
            let position = Literal::Integer(i as i64);
            let index = self.load_literal(&position)?;
            let value = self.compile_expression(&elements[i])?;
            self.emit(Instruction::SetArrayIndex { array, index, value });
            i = i + 1;
        }
        Ok(())
    }

    /// Compiles an expression; the register returned holds its value at run
    /// time. No name is bound or unbound on the way.
    pub fn compile_expression(&mut self, expr: &Expression) -> (r: Result<Register, CompilerError>)
        ensures
            match r {
                Ok(register) => compile_expression(old(self)@, *expr) == Ok::<_, ErrorView>(
                    (final(self)@, register),
                ),
                Err(e) => compile_expression(old(self)@, *expr) == Err::<(State, u8), _>(e@),
            },
            final(self)@.scopes == old(self)@.scopes,
            final(self)@.functions == old(self)@.functions,
        decreases expr,
    {
        match expr {
            Expression::Prefix { op, expr } => {
                let rhs = self.compile_expression(expr)?;
                let dest = self.get_register()?;
                let instruction = match op {
                    Operator::Minus => Instruction::PrefixSub { dest, rhs },
                    Operator::Not => Instruction::PrefixNot { dest, rhs },
                    _ => {
                        return Err(
                            CompilerError::GeneralError {
                                cause: "prefix expression only works with '-' and '!'".to_owned(),
                            },
                        );
                    },
                };
                self.emit(instruction);
                Ok(dest)
            },
            Expression::Infix { op, lhs, rhs } => {
                let lhs = self.compile_expression(lhs)?;
                let rhs = self.compile_expression(rhs)?;
                let dest = self.get_register()?;
                let instruction = match op {
                    Operator::Plus => Instruction::Add { dest, lhs, rhs },
                    Operator::Minus => Instruction::Sub { dest, lhs, rhs },
                    Operator::Divide => Instruction::Div { dest, lhs, rhs },
                    Operator::Multiply => Instruction::Mul { dest, lhs, rhs },
                    Operator::Equal => Instruction::Equals { dest, lhs, rhs },
                    Operator::NotEqual => Instruction::NotEquals { dest, lhs, rhs },
                    Operator::GreaterThan => Instruction::GreaterThan { dest, lhs, rhs },
                    Operator::GreaterThanOrEqual => Instruction::GreaterThanOrEquals {
                        dest,
                        lhs,
                        rhs,
                    },
                    Operator::LessThan => Instruction::LessThan { dest, lhs, rhs },
                    Operator::LessThanOrEqual => Instruction::LessThanOrEquals { dest, lhs, rhs },
                    Operator::Not => {
                        return Err(
                            CompilerError::GeneralError {
                                cause: "infix expression only works for '+', '-', '/', '*'".to_owned(),
                            },
                        );
                    },
                };
                self.emit(instruction);
                Ok(dest)
            },
            Expression::Literal(literal) => self.load_literal(literal),
            Expression::Variable(name) => match self.resolve(name.as_str()) {
                Some(register) => {
                    self.count(register);
                    Ok(register)
                },
                None => Err(CompilerError::VariableNotFound { variable: name.clone() }),
            },
            Expression::FunctionCall { name, args } => {
                let target = if self.resolve_function(name.as_str()) {
                    self.latest_function(name.as_str())
                } else if self.is_announced(name.as_str()) {
                    return Err(
                        CompilerError::GeneralError {
                            cause: "function called before its declaration".to_owned(),
                        },
                    );
                } else {
                    None
                };
                let registers = self.compile_arguments(args)?;
                self.copy_arguments(&registers)?;
                assert(args.len() <= u8::MAX);
                self.emit_call(name.as_str(), target, args.len() as u8)
            },
            Expression::Object { fields } => {
                let object = self.get_register()?;
                self.emit(Instruction::AllocateObject { dest: object });
                self.compile_fields(fields, object)?;
                Ok(object)
            },
            Expression::Array { this } => {
                let array = self.get_register()?;
                self.emit(Instruction::AllocateArray { dest: array });
                self.compile_elements(this, array)?;
                Ok(array)
            },
            Expression::ObjectAccess { path } => {
                if path.len() == 0 {
                    return Err(
                        CompilerError::GeneralError {
                            cause: "object access must name an object".to_owned(),
                        },
                    );
                }
                let into = self.get_register()?;
                let object = match self.resolve(path[0].as_str()) {
                    Some(register) => register,
                    None => {
                        return Err(CompilerError::VariableNotFound { variable: path[0].clone() });
                    },
                };
                self.count(object);
                self.walk_path(path, 1, path.len(), object, into)?;
                Ok(into)
            },
            Expression::ArrayAccess { name, index } => {
                let into = self.get_register()?;
                let array = match self.resolve(name.as_str()) {
                    Some(register) => register,
                    None => {
                        return Err(CompilerError::VariableNotFound { variable: name.clone() });
                    },
                };
                self.count(array);
                let index = self.compile_expression(index)?;
                self.emit(Instruction::GetArrayIndex { array, index, return_val: into });
                Ok(into)
            },
        }
    }

    /// Hands over the current code buffer and goes on with an empty one.
    fn take_code(&mut self) -> (code: Vec<Instruction>)
        ensures
            code@ == old(self)@.code,
            final(self)@ == old(self)@.with_code(Seq::empty()),
    {
        let mut code = Vec::new();
        core::mem::swap(&mut self.bytecode, &mut code);
        code
    }

    /// Goes on with `code` as the buffer and hands over what was written into
    /// the buffer so far.
    fn swap_code(&mut self, code: Vec<Instruction>) -> (written: Vec<Instruction>)
        ensures
            written@ == old(self)@.code,
            final(self)@ == old(self)@.with_code(code@),
    {
        let mut code = code;
        core::mem::swap(&mut self.bytecode, &mut code);
        code
    }

    /// Appends `code` to the current buffer.
    fn append_code(&mut self, code: Vec<Instruction>)
        ensures
            final(self)@ == old(self)@.with_code(old(self)@.code + code@),
    {
        let mut code = code;
        self.bytecode.append(&mut code);
    }

    fn compile_statements(&mut self, statements: &Vec<Statement>) -> (r: Result<
        (),
        CompilerError,
    >)
        requires
            old(self)@.well_formed(),
        ensures
            final(self)@.well_formed(),
            final(self)@.functions.len() >= old(self)@.functions.len(),
            match r {
                Ok(_) => compile_statements(old(self)@, statements@, 0) == Ok::<_, ErrorView>(
                    final(self)@,
                ) && final(self)@.scopes.len() == old(self)@.scopes.len(),
                Err(e) => compile_statements(old(self)@, statements@, 0) == Err::<State, _>(e@),
            },
        decreases statements_height(statements@, 0), 0nat,
    {
        let ghost start = self@;
        let mut i: usize = 0;
        while i < statements.len()
            invariant
                i <= statements.len(),
                start == old(self)@,
                self@.well_formed(),
                self@.functions.len() >= start.functions.len(),
                self@.scopes.len() == start.scopes.len(),
                compile_statements(start, statements@, 0) == compile_statements(
                    self@,
                    statements@,
                    i as int,
                ),
            decreases statements.len() - i,
        {
            proof {
                lemma_height_from(statements@, i as int);
            }
            self.compile_statement(&statements[i])?;
            i = i + 1;
        }
        Ok(())
    }

    /// `let` and `const`: compiles the value; its register becomes the
    /// variable.
    fn compile_let(&mut self, name: &str, value: &Expression, is_mutable: bool) -> (r: Result<
        (),
        CompilerError,
    >)
        requires
            old(self)@.well_formed(),
        ensures
            final(self)@.well_formed(),
            final(self)@.functions.len() >= old(self)@.functions.len(),
            match r {
                Ok(_) => compile_let(old(self)@, name@, *value, is_mutable) == Ok::<_, ErrorView>(
                    final(self)@,
                ) && final(self)@.scopes.len() == old(self)@.scopes.len(),
                Err(e) => compile_let(old(self)@, name@, *value, is_mutable) == Err::<State, _>(
                    e@,
                ),
            },
    {
        let expression_value_register = self.compile_expression(value)?;
        if is_mutable {
            self.define_mutable_current_scope(name, expression_value_register);
        } else {
            self.define_immutable_current_scope(name, expression_value_register);
        }
        Ok(())
    }

    /// Assignment to an existing variable. Where the nearest binding of the
    /// variable is immutable, or there is none, the assignment is rejected and
    /// nothing has been compiled.
    fn compile_let_mutation(&mut self, name: &str, value: &Expression) -> (r: Result<
        (),
        CompilerError,
    >)
        requires
            old(self)@.well_formed(),
        ensures
            final(self)@.well_formed(),
            final(self)@.functions.len() >= old(self)@.functions.len(),
            match r {
                Ok(_) => compile_let_mutation(old(self)@, name@, *value) == Ok::<_, ErrorView>(
                    final(self)@,
                ) && final(self)@.scopes.len() == old(self)@.scopes.len(),
                Err(e) => compile_let_mutation(old(self)@, name@, *value) == Err::<State, _>(e@)
                    && (e@ is MutationNotAllowed <==> !can_mutate(old(self)@.scopes, name@)) && (e@
                    is MutationNotAllowed ==> final(self)@ == old(self)@),
            },
    {
        proof {
            lemma_rejected_assignment_changes_nothing(old(self)@, name@, *value);
        }
        if !self.can_mutate_variable(name) {
            return Err(CompilerError::MutationNotAllowed { variable: name.to_owned() });
        }
        let expression_value_register = self.compile_expression(value)?;
        let mutable_value_register = match self.resolve(name) {
            Some(register) => register,
            None => {
                return Err(CompilerError::VariableNotFound { variable: name.to_owned() });
            },
        };
        self.count(mutable_value_register);
        self.emit(Instruction::Copy { dest: mutable_value_register, src: expression_value_register });
        self.define_mutable_current_scope(name, mutable_value_register);
        Ok(())
    }

    /// Compiles a block: its statements in a scope of their own, which is
    /// gone afterwards. The registers that the block took are free again: the
    /// counter stands where it stood before the block.
    pub fn compile_block(&mut self, body: &Vec<Statement>) -> (r: Result<(), CompilerError>)
        requires
            old(self)@.well_formed(),
        ensures
            final(self)@.well_formed(),
            final(self)@.functions.len() >= old(self)@.functions.len(),
            match r {
                Ok(_) => compile_block(old(self)@, body@) == Ok::<_, ErrorView>(final(self)@)
                    && final(self)@.scopes.len() == old(self)@.scopes.len()
                    && final(self)@.next_register == old(self)@.next_register,
                Err(e) => compile_block(old(self)@, body@) == Err::<State, _>(e@),
            },
        decreases statements_height(body@, 0), 1nat,
    {
        let counter = self.next_available_register;
        self.add_scope();
        self.announce_functions(body);
        self.compile_statements(body)?;
        self.remove_scope();
        self.next_available_register = counter;
        Ok(())
    }

    fn compile_else(&mut self, else_statement: &Statement) -> (r: Result<(), CompilerError>)
        requires
            old(self)@.well_formed(),
        ensures
            final(self)@.well_formed(),
            final(self)@.functions.len() >= old(self)@.functions.len(),
            match r {
                Ok(_) => compile_else(old(self)@, *else_statement) == Ok::<_, ErrorView>(
                    final(self)@,
                ) && final(self)@.scopes.len() == old(self)@.scopes.len(),
                Err(e) => compile_else(old(self)@, *else_statement) == Err::<State, _>(e@),
            },
        decreases statement_height(*else_statement), 1nat,
    {
        match else_statement {
            Statement::If { condition, body, else_statement: next_else } => self.compile_if(
                condition,
                body,
                next_else,
            ),
            Statement::Block { body } => self.compile_block(body),
            _ => Err(
                CompilerError::GeneralError {
                    cause: "else must be followed by a block or an if".to_owned(),
                },
            ),
        }
    }

    /// Compiles `if`: the condition; a jump, taken when the condition is false,
    /// over the body and over the jump that may end it; the body; and where
    /// there is an `else`, a jump over it and then the `else` itself.
    pub fn compile_if(
        &mut self,
        condition: &Expression,
        body: &Statement,
        else_statement: &Option<Box<Statement>>,
    ) -> (r: Result<(), CompilerError>)
        requires
            old(self)@.well_formed(),
        ensures
            final(self)@.well_formed(),
            final(self)@.functions.len() >= old(self)@.functions.len(),
            match r {
                Ok(_) => compile_if(old(self)@, *condition, *body, *else_statement) == Ok::<
                    _,
                    ErrorView,
                >(final(self)@) && final(self)@.scopes.len() == old(self)@.scopes.len(),
                Err(e) => compile_if(old(self)@, *condition, *body, *else_statement) == Err::<
                    State,
                    _,
                >(e@),
            },
        decreases statement_height(*body) + else_height(*else_statement) + 1, 0nat,
    {
        let expression_value_register = self.compile_expression(condition)?;
        let old_current_code = self.take_code();
        self.compile_statement(body)?;
        let if_statement_body = self.swap_code(old_current_code);
        let extra: usize = if else_statement.is_none() {
            0
        } else {
            1
        };
        if if_statement_body.len() > u16::MAX as usize - 1 - extra {
            return Err(CompilerError::IntegerConversionError);
        }
        let offset = (if_statement_body.len() + 1 + extra) as u16;
        self.emit(Instruction::JumpIfFalse { src: expression_value_register, offset });
        self.append_code(if_statement_body);
        match else_statement {
            None => Ok(()),
            Some(otherwise) => {
                let old_current_code = self.take_code();
                self.compile_else(otherwise)?;
                let else_statement_body = self.swap_code(old_current_code);
                if else_statement_body.len() > u16::MAX as usize - 1 {
                    return Err(CompilerError::IntegerConversionError);
                }
                let offset = (else_statement_body.len() + 1) as u16;
                self.emit(Instruction::Jump { offset });
                self.append_code(else_statement_body);
                Ok(())
            },
        }
    }

    /// Compiles `return` with a value.
    pub fn compile_return(&mut self, expression: &Expression) -> (r: Result<(), CompilerError>)
        requires
            old(self)@.well_formed(),
        ensures
            final(self)@.well_formed(),
            final(self)@.functions.len() >= old(self)@.functions.len(),
            match r {
                Ok(_) => compile_return(old(self)@, *expression) == Ok::<_, ErrorView>(
                    final(self)@,
                ) && final(self)@.scopes.len() == old(self)@.scopes.len(),
                Err(e) => compile_return(old(self)@, *expression) == Err::<State, _>(e@),
            },
    {
        let expr_register = self.compile_expression(expression)?;
        self.emit(Instruction::Return { val: expr_register });
        Ok(())
    }

    /// Compiles `loop`: the body, in which every pending `break` becomes a jump
    /// behind the loop, and a jump back to the first instruction of the body.
    pub fn compile_loop(&mut self, body: &Statement) -> (r: Result<(), CompilerError>)
        requires
            old(self)@.well_formed(),
        ensures
            final(self)@.well_formed(),
            final(self)@.functions.len() >= old(self)@.functions.len(),
            match r {
                Ok(_) => compile_loop(old(self)@, *body) == Ok::<_, ErrorView>(final(self)@)
                    && final(self)@.scopes.len() == old(self)@.scopes.len(),
                Err(e) => compile_loop(old(self)@, *body) == Err::<State, _>(e@),
            },
        decreases statement_height(*body), 1nat,
    {
        match body {
            Statement::Block { body } => {
                let old_current_code = self.take_code();
                self.compile_block(body)?;
                let mut loop_body = self.swap_code(old_current_code);
                close_loop_code(&mut loop_body)?;
                self.append_code(loop_body);
                Ok(())
            },
            _ => Err(
                CompilerError::GeneralError { cause: "loop body must contain block".to_owned() },
            ),
        }
    }

    /// Compiles `break`: a mark that the enclosing loop replaces by the jump
    /// behind it when it is closed.
    pub fn compile_break(&mut self) -> (r: Result<(), CompilerError>)
        ensures
            r is Ok,
            final(self)@ == compile_break(old(self)@),
    {
        self.emit(Instruction::PendingBreak);
        Ok(())
    }

    /// Compiles an assignment to a field of an object: reads down the path to
    /// the object that holds the field, then stores the value.
    pub fn compile_object_mutation(&mut self, path: &Expression, value: &Expression) -> (r: Result<
        (),
        CompilerError,
    >)
        requires
            old(self)@.well_formed(),
        ensures
            final(self)@.well_formed(),
            final(self)@.functions.len() >= old(self)@.functions.len(),
            match r {
                Ok(_) => compile_object_mutation(old(self)@, *path, *value) == Ok::<_, ErrorView>(
                    final(self)@,
                ) && final(self)@.scopes.len() == old(self)@.scopes.len(),
                Err(e) => compile_object_mutation(old(self)@, *path, *value) == Err::<State, _>(
                    e@,
                ),
            },
    {
        let path = match path {
            Expression::ObjectAccess { path } => path,
            _ => {
                return Err(
                    CompilerError::GeneralError {
                        cause: "object mutation must name a field of an object".to_owned(),
                    },
                );
            },
        };
        if path.len() < 2 {
            return Err(
                CompilerError::GeneralError {
                    cause: "object mutation must name a field of an object".to_owned(),
                },
            );
        }
        let register = self.get_register()?;
        let base = match self.resolve(path[0].as_str()) {
            Some(register) => register,
            None => {
                return Err(CompilerError::VariableNotFound { variable: path[0].clone() });
            },
        };
        self.count(base);
        let object = self.walk_path(path, 1, path.len() - 1, base, register)?;
        let field = self.load_string(path[path.len() - 1].as_str())?;
        let value = self.compile_expression(value)?;
        self.emit(Instruction::SetObjectField { object, field, value });
        Ok(())
    }

    fn bind_parameters(&mut self, parameters: &Vec<FunctionParameter>) -> (r: Result<
        (),
        CompilerError,
    >)
        requires
            old(self)@.well_formed(),
        ensures
            final(self)@.well_formed(),
            final(self)@.functions == old(self)@.functions,
            final(self)@.scopes.len() == old(self)@.scopes.len(),
            match r {
                Ok(_) => bind_parameters(old(self)@, parameters@, 0) == Ok::<_, ErrorView>(
                    final(self)@,
                ),
                Err(e) => bind_parameters(old(self)@, parameters@, 0) == Err::<State, _>(e@),
            },
    {
        let ghost start = self@;
        let mut i: usize = 0;
        while i < parameters.len()
            invariant
                i <= parameters.len(),
                start == old(self)@,
                self@.well_formed(),
                self@.functions == start.functions,
                self@.scopes.len() == start.scopes.len(),
                bind_parameters(start, parameters@, 0) == bind_parameters(
                    self@,
                    parameters@,
                    i as int,
                ),
            decreases parameters.len() - i,
        {
            let register = self.get_register()?;
            self.define_immutable_current_scope(parameters[i].name.as_str(), register);
            i = i + 1;
        }
        Ok(())
    }

    /// Compiles a function declaration. The function is declared, in the
    /// enclosing scope and in the table, before its body is compiled, so the
    /// body may call it.
    pub fn compile_function(&mut self, func: &ast::Function) -> (r: Result<(), CompilerError>)
        requires
            old(self)@.well_formed(),
        ensures
            final(self)@.well_formed(),
            final(self)@.functions.len() >= old(self)@.functions.len(),
            match r {
                Ok(_) => compile_function(old(self)@, *func) == Ok::<_, ErrorView>(final(self)@)
                    && final(self)@.scopes.len() == old(self)@.scopes.len(),
                Err(e) => compile_function(old(self)@, *func) == Err::<State, _>(e@),
            },
        decreases statement_height(*func.body), 1nat,
    {
        let prev_register_count = self.next_available_register;
        let prev_highest_register = self.highest_register;
        self.next_available_register = 1;
        self.highest_register = 1;
        self.define_function_current_scope(func.name.as_str());
        let place = self.functions.len();
        self.functions.push(
            Function { name: func.name.clone(), code: Vec::new(), register_count: 0 },
        );
        self.add_scope();
        let prev_code = self.take_code();
        proof {
            let declared = function_entry(old(self)@, *func);
            assert(self@.functions =~= declared.functions);
            assert(self@ == declared);
        }
        self.bind_parameters(&func.parameters)?;
        match &*func.body {
            Statement::Block { body } => {
                self.announce_functions(body);
                self.compile_statements(body)?;
            },
            _ => {
                return Err(
                    CompilerError::GeneralError {
                        cause: "function body must contain block".to_owned(),
                    },
                );
            },
        }
        if has_pending_break(&self.bytecode) {
            return Err(
                CompilerError::GeneralError { cause: "break outside of a loop".to_owned() },
            );
        }
        self.emit(Instruction::FunctionReturn);
        let function_code = self.swap_code(prev_code);
        let used_registers = self.highest_register;
        let ghost compiled = self@;
        self.functions.set(
            place,
            Function { name: func.name.clone(), code: function_code, register_count: used_registers },
        );
        self.remove_scope();
        self.next_available_register = prev_register_count;
        self.highest_register = prev_highest_register;
        proof {
            assert(self@.functions =~= compiled.functions.update(
                place as int,
                FunctionView {
                    name: func.name@,
                    code: function_code@,
                    register_count: used_registers,
                },
            ));
        }
        Ok(())
    }

    /// Compiles one statement into the current code buffer. An assignment to
    /// a variable that is rejected as a mutation leaves the compiler as it
    /// was.
    pub fn compile_statement(&mut self, statement: &Statement) -> (r: Result<(), CompilerError>)
        requires
            old(self)@.well_formed(),
        ensures
            final(self)@.well_formed(),
            final(self)@.functions.len() >= old(self)@.functions.len(),
            match r {
                Ok(_) => compile_statement(old(self)@, *statement) == Ok::<_, ErrorView>(
                    final(self)@,
                ) && final(self)@.scopes.len() == old(self)@.scopes.len(),
                Err(e) => compile_statement(old(self)@, *statement) == Err::<State, _>(e@) && (
                statement is Reassignment && e@ is MutationNotAllowed ==> final(self)@ == old(self)@),
            },
        decreases statement_height(*statement), 1nat,
    {
        match statement {
            Statement::Const { name, value, .. } => self.compile_let(name.as_str(), value, false),
            Statement::Let { name, value, is_mutable, .. } => self.compile_let(
                name.as_str(),
                value,
                *is_mutable,
            ),
            Statement::Reassignment { name, value } => self.compile_let_mutation(
                name.as_str(),
                value,
            ),
            Statement::If { condition, body, else_statement } => self.compile_if(
                condition,
                body,
                else_statement,
            ),
            Statement::Block { body } => self.compile_block(body),
            Statement::Function(func) => self.compile_function(func),
            Statement::Expression(expr) => {
                self.compile_expression(expr)?;
                Ok(())
            },
            Statement::Return(expression) => self.compile_return(expression),
            Statement::Loop { body } => self.compile_loop(body),
            Statement::Break => self.compile_break(),
            Statement::ObjectMutation { path, value } => self.compile_object_mutation(path, value),
        }
    }

    /// Compiles a program: the statements in order, into the global code. The
    /// register count of the global code is the highest that the counter has
    /// reached. A `break` that stands in no loop is an error.
    pub fn compile(self, statements: &Vec<Statement>) -> (r: Result<CompiledProgram, CompilerError>)
        requires
            self@.well_formed(),
        ensures
            match r {
                Ok(program) => compile_program(self@, statements@) == Ok::<_, ErrorView>(program@),
                Err(e) => compile_program(self@, statements@) == Err::<ProgramView, _>(e@),
            },
    {
        let mut compiler = self;
        compiler.announce_functions(statements);
        compiler.compile_statements(statements)?;
        if has_pending_break(&compiler.bytecode) {
            return Err(
                CompilerError::GeneralError { cause: "break outside of a loop".to_owned() },
            );
        }
        let global_register_count = compiler.highest_register;
        Ok(
            CompiledProgram {
                functions: compiler.functions,
                global_code: compiler.bytecode,
                global_register_count,
                literals: compiler.literals,
            },
        )
    }
}

/// Whether a `break` in the code still waits for its loop.
pub fn has_pending_break(code: &Vec<Instruction>) -> (r: bool)
    ensures
        r == crate::compiler::model::has_pending_break(code@),
{
    let mut i: usize = 0;
    while i < code.len()
        invariant
            i <= code.len(),
            forall|j: int| 0 <= j < i ==> !code@[j].is_pending_break(),
        decreases code.len() - i,
    {
        if code[i].pending_break() {
            return true;
        }
        i = i + 1;
    }
    false
}

/// The statements from a position on are no higher than all of them.
proof fn lemma_height_from(statements: Seq<Statement>, from: int)
    requires
        0 <= from <= statements.len(),
    ensures
        statements_height(statements, from) <= statements_height(statements, 0),
    decreases from,
{
    if from > 0 {
        lemma_height_from(statements, from - 1);
    }
}

/// Closes a loop around `body`, the compiled code of its block: every `break`
/// that waits at a position `i` becomes a jump by `body.len() + 1 - i`, which
/// lands behind the loop, and a jump back by `body.len()` is appended, which
/// lands on the first instruction of the body. Every other instruction stays
/// as it is, whatever its offset: a jump that an inner loop resolved is never
/// taken for a `break` of this loop.
pub fn close_loop_code(body: &mut Vec<Instruction>) -> (r: Result<(), CompilerError>)
    ensures
        match r {
            Ok(_) => close_loop(old(body)@) == Ok::<_, ErrorView>(final(body)@),
            Err(e) => close_loop(old(body)@) == Err::<Seq<Instruction>, _>(e@),
        },
        r is Ok ==> final(body)@.len() == old(body)@.len() + 1,
        r is Ok ==> final(body)@.last() == (Instruction::JumpReverse {
            offset: old(body)@.len() as u16,
        }),
        r is Ok ==> forall|i: int|
            0 <= i < old(body)@.len() ==> #[trigger] final(body)@[i] == (if old(
                body,
            )@[i].is_pending_break() {
                Instruction::Jump { offset: break_offset(old(body)@.len() as int, i) as u16 }
            } else {
                old(body)@[i]
            }),
{
    proof {
        lemma_patch_breaks(old(body)@, 0);
    }
    let body_size = body.len();
    let mut i: usize = 0;
    while i < body_size
        invariant
            i <= body_size,
            body.len() == body_size,
            old(body)@.len() == body_size,
            patch_breaks(old(body)@, 0) == patch_breaks(body@, i as int),
        decreases body_size - i,
    {
        if body[i].pending_break() {
            if body_size - i > u16::MAX as usize - 1 {
                return Err(CompilerError::IntegerConversionError);
            }
            let offset = (body_size - i + 1) as u16;
            body.set(i, Instruction::Jump { offset });
        }
        i = i + 1;
    }
    if body_size > u16::MAX as usize {
        return Err(CompilerError::IntegerConversionError);
    }
    body.push(Instruction::JumpReverse { offset: body_size as u16 });
    Ok(())
}

} // verus!
