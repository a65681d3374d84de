//! What holds of every compilation.

use crate::ast::{Expression, Function, Statement};
use crate::compiler::model::{
    announce_functions, bind_parameters, break_offset, callee, can_mutate, close_loop,
    compile_arguments,
    is_announced, message_early_call, resolve_function,
    compile_block, compile_elements, compile_else, compile_expression, compile_fields,
    compile_function, compile_if, compile_let, compile_let_mutation, compile_loop,
    compile_object_mutation, compile_program, compile_return,
    compile_statement, compile_statements, copy_arguments, else_height, emit_call,
    function_entry, has_pending_break, infix_instruction, intern, load_literal, patch_breaks,
    pool_position,
    prefix_instruction, resolve, statement_height, statements_height, walk_path, ErrorView,
    FunctionView, ProgramView, State,
};
use crate::ast::FunctionParameter;
use crate::compiler::registers::{from_one, lemma_compiled_registers_start_at_one};
use crate::instructions::Instruction;
use crate::types::LiteralView;
use vstd::prelude::*;

verus! {

/// Functions that are declared one after the other use the same registers:
/// compiling a function leaves the register counter as it found it, and the
/// body of every function starts to allocate at register 1.
pub proof fn lemma_sibling_functions_reuse_registers(s: State, first: Function, second: Function)
    requires
        compile_function(s, first) is Ok,
    ensures
        compile_function(s, first)->Ok_0.next_register == s.next_register,
        function_entry(s, first).allocate() is Ok,
        function_entry(s, first).allocate()->Ok_0.1 == 1,
        function_entry(compile_function(s, first)->Ok_0, second).allocate() is Ok,
        function_entry(compile_function(s, first)->Ok_0, second).allocate()->Ok_0.1 == 1,
{
}

/// A position that the pool search gives lies in the pool, at or after the
/// start of the search, and holds the literal that was looked for.
pub proof fn lemma_pool_position_found(pool: Seq<LiteralView>, literal: LiteralView, from: int)
    requires
        0 <= from,
    ensures
        pool_position(pool, literal, from) matches Some(position) ==> from <= position < pool.len()
            && pool[position] == literal,
        pool_position(pool, literal, from) is None ==> forall|i: int|
            from <= i < pool.len() ==> pool[i] != literal,
    decreases pool.len() - from,
{
    if from < pool.len() && pool[from] != literal {
        lemma_pool_position_found(pool, literal, from + 1);
    }
}

/// The search finds the first position that holds the literal.
pub proof fn lemma_pool_position_first(
    pool: Seq<LiteralView>,
    literal: LiteralView,
    from: int,
    at: int,
)
    requires
        0 <= from <= at < pool.len(),
        pool[at] == literal,
        forall|i: int| from <= i < at ==> pool[i] != literal,
    ensures
        pool_position(pool, literal, from) == Some(at),
    decreases at - from,
{
    if from < at {
        lemma_pool_position_first(pool, literal, from + 1, at);
    }
}

/// Equal literals share one id: once a literal has its id, the pool holds it
/// there, and asking again gives the same id and leaves the pool as it is.
pub proof fn lemma_equal_literals_share_an_id(s: State, literal: LiteralView)
    requires
        intern(s, literal) is Ok,
    ensures
        ({
            let (pooled, id) = intern(s, literal)->Ok_0;
            &&& id < pooled.literals.len()
            &&& pooled.literals[id as int] == literal
            &&& intern(pooled, literal) == Ok::<_, ErrorView>((pooled, id))
        }),
{
    lemma_pool_position_found(s.literals, literal, 0);
    let (pooled, id) = intern(s, literal)->Ok_0;
    match pool_position(s.literals, literal, 0) {
        Some(position) => {},
        None => {
            lemma_pool_position_first(pooled.literals, literal, 0, s.literals.len() as int);
        },
    }
}

/// No literal stands twice in the pool.
pub open spec fn pool_is_deduplicated(pool: Seq<LiteralView>) -> bool {
    forall|i: int, j: int| 0 <= i < j < pool.len() ==> pool[i] != pool[j]
}

/// A pool without duplicates stays without duplicates when a literal is
/// looked up or added.
pub proof fn lemma_pool_stays_deduplicated(s: State, literal: LiteralView)
    requires
        pool_is_deduplicated(s.literals),
        intern(s, literal) is Ok,
    ensures
        pool_is_deduplicated(intern(s, literal)->Ok_0.0.literals),
{
    lemma_pool_position_found(s.literals, literal, 0);
}

/// A variable whose nearest binding is immutable, or that has no binding,
/// cannot be assigned: the compiler rejects the statement, whatever the value.
pub proof fn lemma_immutable_binding_rejects_assignment(s: State, name: String, value: Expression)
    requires
        !can_mutate(s.scopes, name@),
    ensures
        compile_statement(s, Statement::Reassignment { name, value: Box::new(value) }) == Err::<
            State,
            _,
        >(ErrorView::MutationNotAllowed(name@)),
{
}

/// An assignment to a mutable variable compiles to the value followed by a
/// copy into the register that the variable is bound to, and the variable
/// stays bound to that register.
pub proof fn lemma_assignment_keeps_the_register(s: State, name: String, value: Expression)
    requires
        s.well_formed(),
        compile_statement(s, Statement::Reassignment { name, value: Box::new(value) }) is Ok,
    ensures
        ({
            let (computed, register) = compile_expression(s, value)->Ok_0;
            let done = compile_statement(
                s,
                Statement::Reassignment { name, value: Box::new(value) },
            )->Ok_0;
            &&& can_mutate(s.scopes, name@)
            &&& compile_expression(s, value) is Ok
            &&& resolve(computed.scopes, name@) is Some
            &&& done.code == computed.code.push(
                Instruction::Copy { dest: resolve(computed.scopes, name@)->0, src: register },
            )
            &&& resolve(done.scopes, name@) == resolve(computed.scopes, name@)
        }),
{
    let (computed, register) = compile_expression(s, value)->Ok_0;
    let target = resolve(computed.scopes, name@)->0;
    let copied = computed.count(target).emit(Instruction::Copy { dest: target, src: register });
    let done = copied.define(name@, target, true);
    assert(done.scopes.drop_last() =~= copied.scopes.drop_last());
}

/// Whether an instruction moves the instruction pointer by an offset.
pub open spec fn is_jump(instruction: Instruction) -> bool {
    instruction is Jump || instruction is JumpIfFalse || instruction is JumpReverse
}

/// Whether the instruction at `at`, if it is a jump, lands inside the code or
/// just behind its end.
pub open spec fn lands_inside(code: Seq<Instruction>, at: int) -> bool {
    match code[at] {
        Instruction::Jump { offset } => at + offset <= code.len(),
        Instruction::JumpIfFalse { offset, .. } => at + offset <= code.len(),
        Instruction::JumpReverse { offset } => at - offset >= 0,
        _ => true,
    }
}

/// Every jump of the code lands inside the code or just behind its end.
pub open spec fn jumps_resolve(code: Seq<Instruction>) -> bool {
    forall|at: int| 0 <= at < code.len() ==> #[trigger] lands_inside(code, at)
}

/// Whether every register that the instruction names is at most `bound`.
pub open spec fn operands_within(instruction: Instruction, bound: u8) -> bool {
    match instruction {
        Instruction::Copy { dest, src } => dest <= bound && src <= bound,
        Instruction::LoadFunction { dest, .. } => dest <= bound,
        Instruction::CallNativeFunction { src, return_val, .. } => src <= bound && return_val
            <= bound,
        Instruction::CallFunction { src, return_val, .. } => src <= bound && return_val <= bound,
        Instruction::AllocateObject { dest } => dest <= bound,
        Instruction::SetObjectField { object, field, value } => object <= bound && field <= bound
            && value <= bound,
        Instruction::GetObjectField { object, field, return_val } => object <= bound && field
            <= bound && return_val <= bound,
        Instruction::AllocateArray { dest } => dest <= bound,
        Instruction::SetArrayIndex { array, index, value } => array <= bound && index <= bound
            && value <= bound,
        Instruction::GetArrayIndex { array, index, return_val } => array <= bound && index
            <= bound && return_val <= bound,
        Instruction::LoadLiteral { dest, .. } => dest <= bound,
        Instruction::PrefixNot { dest, rhs } => dest <= bound && rhs <= bound,
        Instruction::PrefixSub { dest, rhs } => dest <= bound && rhs <= bound,
        Instruction::JumpIfFalse { src, .. } => src <= bound,
        Instruction::Jump { .. } => true,
        Instruction::JumpReverse { .. } => true,
        Instruction::Add { dest, lhs, rhs } => dest <= bound && lhs <= bound && rhs <= bound,
        Instruction::Sub { dest, lhs, rhs } => dest <= bound && lhs <= bound && rhs <= bound,
        Instruction::Mul { dest, lhs, rhs } => dest <= bound && lhs <= bound && rhs <= bound,
        Instruction::Div { dest, lhs, rhs } => dest <= bound && lhs <= bound && rhs <= bound,
        Instruction::Equals { dest, lhs, rhs } => dest <= bound && lhs <= bound && rhs <= bound,
        Instruction::NotEquals { dest, lhs, rhs } => dest <= bound && lhs <= bound && rhs
            <= bound,
        Instruction::GreaterThan { dest, lhs, rhs } => dest <= bound && lhs <= bound && rhs
            <= bound,
        Instruction::GreaterThanOrEquals { dest, lhs, rhs } => dest <= bound && lhs <= bound
            && rhs <= bound,
        Instruction::LessThan { dest, lhs, rhs } => dest <= bound && lhs <= bound && rhs <= bound,
        Instruction::LessThanOrEquals { dest, lhs, rhs } => dest <= bound && lhs <= bound && rhs
            <= bound,
        Instruction::Return { val } => val <= bound,
        Instruction::FunctionReturn => true,
        Instruction::PendingBreak => true,
    }
}

/// Every register that the code names is at most `bound`: a window of `bound`
/// registers, with register 0 before them, holds them all.
pub open spec fn counted(code: Seq<Instruction>, bound: u8) -> bool {
    forall|at: int| 0 <= at < code.len() ==> operands_within(#[trigger] code[at], bound)
}

/// Code that is counted within a bound is counted within every higher bound.
pub proof fn lemma_counted_grows(code: Seq<Instruction>, bound: u8, higher: u8)
    requires
        counted(code, bound),
        bound <= higher,
    ensures
        counted(code, higher),
{
    assert forall|at: int| 0 <= at < code.len() implies operands_within(
        #[trigger] code[at],
        higher,
    ) by {
        assert(operands_within(code[at], bound));
    }
}

/// An instruction whose registers are counted can be appended to counted code.
pub proof fn lemma_counted_push(code: Seq<Instruction>, instruction: Instruction, bound: u8)
    requires
        counted(code, bound),
        operands_within(instruction, bound),
    ensures
        counted(code.push(instruction), bound),
{
    let longer = code.push(instruction);
    assert forall|at: int| 0 <= at < longer.len() implies operands_within(
        #[trigger] longer[at],
        bound,
    ) by {
        if at < code.len() {
            assert(longer[at] == code[at]);
        }
    }
}

/// Counted code can be appended to counted code.
pub proof fn lemma_counted_concat(first: Seq<Instruction>, second: Seq<Instruction>, bound: u8)
    requires
        counted(first, bound),
        counted(second, bound),
    ensures
        counted(first + second, bound),
{
    let both = first + second;
    assert forall|at: int| 0 <= at < both.len() implies operands_within(
        #[trigger] both[at],
        bound,
    ) by {
        if at < first.len() {
            assert(both[at] == first[at]);
        } else {
            assert(both[at] == second[at - first.len()]);
        }
    }
}

/// Whether the instruction, if it loads a constant, names one of the first
/// `size` literals of the pool.
pub open spec fn names_constant(instruction: Instruction, size: nat) -> bool {
    instruction matches Instruction::LoadLiteral { src, .. } ==> src < size
}

/// Every constant that the code loads has its id inside a pool of `size`
/// literals.
pub open spec fn constants_inside(code: Seq<Instruction>, size: nat) -> bool {
    forall|at: int| 0 <= at < code.len() ==> names_constant(#[trigger] code[at], size)
}

/// Whether the pool `after` is the pool `before` with literals added at its
/// end: every id of `before` names in `after` the literal that it named.
pub open spec fn pool_extends(before: Seq<LiteralView>, after: Seq<LiteralView>) -> bool {
    &&& before.len() <= after.len()
    &&& forall|id: int| 0 <= id < before.len() ==> #[trigger] after[id] == before[id]
}

/// Code whose constants lie inside a pool has them inside every larger pool.
pub proof fn lemma_constants_grow(code: Seq<Instruction>, size: nat, larger: nat)
    requires
        constants_inside(code, size),
        size <= larger,
    ensures
        constants_inside(code, larger),
{
    assert forall|at: int| 0 <= at < code.len() implies names_constant(
        #[trigger] code[at],
        larger,
    ) by {
        assert(names_constant(code[at], size));
    }
}

/// An instruction that names a constant of the pool can be appended to code
/// whose constants lie inside the pool.
pub proof fn lemma_constants_push(code: Seq<Instruction>, instruction: Instruction, size: nat)
    requires
        constants_inside(code, size),
        names_constant(instruction, size),
    ensures
        constants_inside(code.push(instruction), size),
{
    let longer = code.push(instruction);
    assert forall|at: int| 0 <= at < longer.len() implies names_constant(
        #[trigger] longer[at],
        size,
    ) by {
        if at < code.len() {
            assert(longer[at] == code[at]);
        }
    }
}

/// Code whose constants lie inside the pool can be appended to such code.
pub proof fn lemma_constants_concat(first: Seq<Instruction>, second: Seq<Instruction>, size: nat)
    requires
        constants_inside(first, size),
        constants_inside(second, size),
    ensures
        constants_inside(first + second, size),
{
    let both = first + second;
    assert forall|at: int| 0 <= at < both.len() implies names_constant(
        #[trigger] both[at],
        size,
    ) by {
        if at < first.len() {
            assert(both[at] == first[at]);
        } else {
            assert(both[at] == second[at - first.len()]);
        }
    }
}

/// Whether the instruction at `at`, if it is a jump forward, lands before the
/// end of the code.
pub open spec fn jumps_before_end(code: Seq<Instruction>, at: int) -> bool {
    match code[at] {
        Instruction::Jump { offset } => at + offset < code.len(),
        Instruction::JumpIfFalse { offset, .. } => at + offset < code.len(),
        _ => true,
    }
}

/// Whether the code is that of a function that comes back: it ends in a
/// return without a value, and every jump forward lands before its end, so
/// that no path leads past the return.
pub open spec fn closes(code: Seq<Instruction>) -> bool {
    &&& code.len() > 0
    &&& code.last() == Instruction::FunctionReturn
    &&& forall|at: int| 0 <= at < code.len() ==> #[trigger] jumps_before_end(code, at)
}

/// Whether the code of every function of the program comes back.
pub open spec fn functions_close(program: ProgramView) -> bool {
    forall|position: int|
        0 <= position < program.functions.len() ==> closes(
            #[trigger] program.functions[position].code,
        )
}

/// Code whose jumps resolve, with a return added at its end, comes back.
pub proof fn lemma_return_closes_the_code(code: Seq<Instruction>)
    requires
        jumps_resolve(code),
    ensures
        closes(code.push(Instruction::FunctionReturn)),
{
    let finished = code.push(Instruction::FunctionReturn);
    assert forall|at: int| 0 <= at < finished.len() implies #[trigger] jumps_before_end(
        finished,
        at,
    ) by {
        if at < code.len() {
            assert(finished[at] == code[at]);
            assert(lands_inside(code, at));
        }
    }
}

/// What holds of the code of one function in a state: its jumps land inside
/// it, no `break` waits in it, its registers are counted within its register
/// count, its constants lie inside the pool, and, unless the function is
/// still being compiled and has no code yet, it comes back.
pub open spec fn function_is_sound(function: FunctionView, size: nat) -> bool {
    &&& jumps_resolve(function.code)
    &&& !has_pending_break(function.code)
    &&& counted(function.code, function.register_count)
    &&& constants_inside(function.code, size)
    &&& function.code.len() == 0 || closes(function.code)
}

/// Every jump of the current code buffer and of every function lands inside
/// the code that it belongs to, no `break` waits in a function, every
/// register that code names is counted: at most the register count of the
/// function, or the highest count of the code that is being compiled; and
/// every constant that code loads has its id inside the pool.
pub open spec fn all_jumps_resolve(s: State) -> bool {
    &&& jumps_resolve(s.code)
    &&& counted(s.code, s.highest)
    &&& constants_inside(s.code, s.literals.len())
    &&& forall|j: int|
        0 <= j < s.functions.len() ==> function_is_sound(
            #[trigger] s.functions[j],
            s.literals.len(),
        )
}

/// Functions that are sound with a pool are sound with every larger pool.
pub proof fn lemma_functions_stay_sound(functions: Seq<FunctionView>, size: nat, larger: nat)
    requires
        forall|j: int| 0 <= j < functions.len() ==> function_is_sound(#[trigger] functions[j], size),
        size <= larger,
    ensures
        forall|j: int|
            0 <= j < functions.len() ==> function_is_sound(#[trigger] functions[j], larger),
{
    assert forall|j: int| 0 <= j < functions.len() implies function_is_sound(
        #[trigger] functions[j],
        larger,
    ) by {
        assert(function_is_sound(functions[j], size));
        lemma_constants_grow(functions[j].code, size, larger);
    }
}

/// Whether a step left the names and functions alone, kept the jumps of the
/// code buffer inside it, counted the registers that it named, added to the
/// literal pool at its end only, kept the constants of the code inside the
/// pool, and kept the pool free of duplicates.
pub open spec fn same_names(before: State, after: State) -> bool {
    &&& after.scopes == before.scopes
    &&& after.functions == before.functions
    &&& after.highest >= before.highest
    &&& jumps_resolve(before.code) ==> jumps_resolve(after.code)
    &&& counted(before.code, before.highest) ==> counted(after.code, after.highest)
    &&& pool_extends(before.literals, after.literals)
    &&& constants_inside(before.code, before.literals.len()) ==> constants_inside(
        after.code,
        after.literals.len(),
    )
    &&& pool_is_deduplicated(before.literals) ==> pool_is_deduplicated(after.literals)
}

/// Whether a step failed for another reason than an assignment to an immutable
/// variable.
pub open spec fn no_mutation_error<T>(result: Result<T, ErrorView>) -> bool {
    result matches Err(error) ==> !(error is MutationNotAllowed)
}

/// An instruction that is no jump can be appended to code whose jumps resolve.
pub proof fn lemma_push_plain(code: Seq<Instruction>, instruction: Instruction)
    requires
        jumps_resolve(code),
        !is_jump(instruction),
    ensures
        jumps_resolve(code.push(instruction)),
{
    let longer = code.push(instruction);
    assert forall|at: int| 0 <= at < longer.len() implies #[trigger] lands_inside(longer, at) by {
        if at < code.len() {
            assert(lands_inside(code, at));
        }
    }
}

/// Code whose jumps resolve can be appended to code whose jumps resolve:
/// jumps are relative, so they land where they did.
pub proof fn lemma_concat_resolves(first: Seq<Instruction>, second: Seq<Instruction>)
    requires
        jumps_resolve(first),
        jumps_resolve(second),
    ensures
        jumps_resolve(first + second),
{
    let both = first + second;
    assert forall|at: int| 0 <= at < both.len() implies #[trigger] lands_inside(both, at) by {
        if at < first.len() {
            assert(lands_inside(first, at));
        } else {
            assert(both[at] == second[at - first.len()]);
            assert(lands_inside(second, at - first.len()));
        }
    }
}

/// Allocating a register or counting one binds nothing and writes no code.
pub proof fn lemma_counting_binds_nothing(s: State, register: u8)
    ensures
        same_names(s, s.count(register)),
        register <= s.count(register).highest,
        s.allocate() matches Ok((after, fresh)) ==> same_names(s, after) && fresh
            < after.highest,
{
    if counted(s.code, s.highest) {
        lemma_counted_grows(s.code, s.highest, s.count(register).highest);
        match s.allocate() {
            Ok((after, _)) => {
                lemma_counted_grows(s.code, s.highest, after.highest);
            },
            Err(_) => {},
        }
    }
}

/// Emitting an instruction that is no jump and names counted registers binds
/// nothing.
pub proof fn lemma_emit_plain(s: State, instruction: Instruction)
    requires
        !is_jump(instruction),
        operands_within(instruction, s.highest),
        names_constant(instruction, s.literals.len()),
    ensures
        same_names(s, s.emit(instruction)),
{
    if jumps_resolve(s.code) {
        lemma_push_plain(s.code, instruction);
    }
    if counted(s.code, s.highest) {
        lemma_counted_push(s.code, instruction, s.highest);
    }
    if constants_inside(s.code, s.literals.len()) {
        lemma_constants_push(s.code, instruction, s.literals.len());
    }
}

/// Steps that bind nothing, one after the other, bind nothing.
pub proof fn lemma_same_names_chain(first: State, second: State, third: State)
    requires
        same_names(first, second),
        same_names(second, third),
    ensures
        same_names(first, third),
{
}

/// Looking a literal up, or adding it, leaves the pool as it was up to its
/// end, and gives an id that names the literal in it.
pub proof fn lemma_interning_extends_the_pool(s: State, literal: LiteralView)
    ensures
        intern(s, literal) matches Ok((pooled, id)) ==> pool_extends(s.literals, pooled.literals)
            && id < pooled.literals.len() && pooled.literals[id as int] == literal
            && pooled == (State { literals: pooled.literals, ..s }),
{
    lemma_pool_position_found(s.literals, literal, 0);
}

/// The constant that an instruction loads is the literal that it was compiled
/// from: loading a literal appends one instruction, whose id names that
/// literal in the pool, and the pool is afterwards what it was with at most
/// that literal added at its end.
pub proof fn lemma_loaded_constant_is_the_literal(s: State, literal: LiteralView)
    requires
        load_literal(s, literal) is Ok,
    ensures
        ({
            let (after, register) = load_literal(s, literal)->Ok_0;
            &&& after.code.len() == s.code.len() + 1
            &&& after.code.last() matches Instruction::LoadLiteral { dest, src } && dest
                == register && src < after.literals.len() && after.literals[src as int]
                == literal
            &&& pool_extends(s.literals, after.literals)
            &&& after.literals.len() <= s.literals.len() + 1
        }),
{
    let (s1, _) = s.allocate()->Ok_0;
    lemma_interning_extends_the_pool(s1, literal);
}

/// Loading a constant binds nothing; the register that holds it is counted.
pub proof fn lemma_load_literal_binds_nothing(s: State, literal: LiteralView)
    ensures
        load_literal(s, literal) matches Ok((after, register)) ==> same_names(s, after)
            && register <= after.highest,
        no_mutation_error(load_literal(s, literal)),
{
    match load_literal(s, literal) {
        Ok((after, dest)) => {
            let (s1, _) = s.allocate()->Ok_0;
            let (s2, id) = intern(s1, literal)->Ok_0;
            lemma_counting_binds_nothing(s, 0);
            if pool_is_deduplicated(s.literals) {
                lemma_pool_stays_deduplicated(s1, literal);
            }
            lemma_interning_extends_the_pool(s1, literal);
            if constants_inside(s1.code, s1.literals.len()) {
                lemma_constants_grow(s1.code, s1.literals.len(), s2.literals.len());
            }
            assert(same_names(s1, s2));
            lemma_emit_plain(s2, Instruction::LoadLiteral { dest, src: id });
        },
        Err(_) => {},
    }
}

/// Copying arguments binds nothing.
pub proof fn lemma_copy_arguments_binds_nothing(s: State, registers: Seq<u8>, from: int)
    requires
        forall|i: int| 0 <= i < registers.len() ==> registers[i] <= s.highest,
    ensures
        copy_arguments(s, registers, from) matches Ok(after) ==> same_names(s, after),
        no_mutation_error(copy_arguments(s, registers, from)),
    decreases registers.len() - from,
{
    if 0 <= from < registers.len() {
        lemma_counting_binds_nothing(s, 0);
        match s.allocate() {
            Ok((s1, dest)) => {
                let copy = Instruction::Copy { dest, src: registers[from] };
                lemma_emit_plain(s1, copy);
                lemma_copy_arguments_binds_nothing(s1.emit(copy), registers, from + 1);
            },
            Err(_) => {},
        }
    }
}

/// Emitting a call binds nothing; the register of its result is counted.
pub proof fn lemma_emit_call_binds_nothing(
    s: State,
    name: Seq<char>,
    target: Option<int>,
    arg_count: u8,
)
    ensures
        emit_call(s, name, target, arg_count) matches Ok((after, register)) ==> same_names(
            s,
            after,
        ) && register <= after.highest,
        no_mutation_error(emit_call(s, name, target, arg_count)),
{
    match emit_call(s, name, target, arg_count) {
        Ok((after, return_val)) => {
            match target {
                Some(position) => {
                    let (s1, function) = s.allocate()->Ok_0;
                    let (s2, _) = s1.allocate()->Ok_0;
                    lemma_counting_binds_nothing(s, 0);
                    lemma_counting_binds_nothing(s1, 0);
                    let load = Instruction::LoadFunction { dest: function, src: position as u16 };
                    lemma_emit_plain(s2, load);
                    lemma_emit_plain(
                        s2.emit(load),
                        Instruction::CallFunction { src: function, arg_count, return_val },
                    );
                },
                None => {
                    lemma_load_literal_binds_nothing(s, LiteralView::String(name));
                    let (s1, name_register) = load_literal(s, LiteralView::String(name))->Ok_0;
                    let (s2, _) = s1.allocate()->Ok_0;
                    lemma_counting_binds_nothing(s1, 0);
                    lemma_emit_plain(
                        s2,
                        Instruction::CallNativeFunction { src: name_register, arg_count, return_val },
                    );
                },
            }
        },
        Err(_) => {
            lemma_load_literal_binds_nothing(s, LiteralView::String(name));
        },
    }
}

/// Walking a path binds nothing; the register that it ends in is counted.
pub proof fn lemma_walk_path_binds_nothing(
    s: State,
    path: Seq<String>,
    from: int,
    until: int,
    object: u8,
    into: u8,
)
    requires
        object <= s.highest,
        into <= s.highest,
    ensures
        walk_path(s, path, from, until, object, into) matches Ok((after, register))
            ==> same_names(s, after) && register <= after.highest,
        no_mutation_error(walk_path(s, path, from, until, object, into)),
    decreases until - from,
{
    if !(from < 0 || from >= until || until > path.len()) {
        lemma_load_literal_binds_nothing(s, LiteralView::String(path[from]@));
        match load_literal(s, LiteralView::String(path[from]@)) {
            Ok((s1, field)) => {
                let get = Instruction::GetObjectField { object, field, return_val: into };
                lemma_emit_plain(s1, get);
                lemma_walk_path_binds_nothing(s1.emit(get), path, from + 1, until, into, into);
            },
            Err(_) => {},
        }
    }
}

/// Compiling an expression binds nothing and emits no jump: the scopes and
/// the table of functions are afterwards what they were, the jumps of the
/// code still land inside it, and every register that the code names, the
/// register of the value among them, is counted. Where it fails, it is not for
/// an assignment.
#[verifier::spinoff_prover]
#[verifier::rlimit(100)]
pub proof fn lemma_expression_binds_nothing(s: State, e: Expression)
    ensures
        compile_expression(s, e) matches Ok((after, register)) ==> same_names(s, after)
            && register <= after.highest,
        no_mutation_error(compile_expression(s, e)),
    decreases e, 0nat,
{
    match e {
        Expression::Prefix { op, expr } => {
            lemma_expression_binds_nothing(s, *expr);
            match compile_expression(s, *expr) {
                Ok((s1, rhs)) => {
                    lemma_counting_binds_nothing(s1, 0);
                    match s1.allocate() {
                        Ok((s2, dest)) => match prefix_instruction(op, dest, rhs) {
                            Some(instruction) => {
                                lemma_emit_plain(s2, instruction);
                            },
                            None => {},
                        },
                        Err(_) => {},
                    }
                },
                Err(_) => {},
            }
        },
        Expression::Infix { op, lhs, rhs } => {
            lemma_expression_binds_nothing(s, *lhs);
            match compile_expression(s, *lhs) {
                Ok((s1, lhs_register)) => {
                    lemma_expression_binds_nothing(s1, *rhs);
                    match compile_expression(s1, *rhs) {
                        Ok((s2, rhs_register)) => {
                            lemma_counting_binds_nothing(s2, 0);
                            match s2.allocate() {
                                Ok((s3, dest)) => match infix_instruction(
                                    op,
                                    dest,
                                    lhs_register,
                                    rhs_register,
                                ) {
                                    Some(instruction) => {
                                        lemma_emit_plain(s3, instruction);
                                    },
                                    None => {},
                                },
                                Err(_) => {},
                            }
                        },
                        Err(_) => {},
                    }
                },
                Err(_) => {},
            }
        },
        Expression::Literal(literal) => {
            lemma_load_literal_binds_nothing(s, literal@);
        },
        Expression::Variable(name) => {
            match resolve(s.scopes, name@) {
                Some(register) => {
                    lemma_counting_binds_nothing(s, register);
                },
                None => {},
            }
        },
        Expression::FunctionCall { name, args } => {
            lemma_arguments_bind_nothing(s, args@, 0);
            match compile_arguments(s, args@, 0) {
                Ok((s1, registers)) => {
                    lemma_copy_arguments_binds_nothing(s1, registers, 0);
                    match copy_arguments(s1, registers, 0) {
                        Ok(s2) => {
                            match callee(s, name@) {
                                Ok(target) => {
                                    lemma_emit_call_binds_nothing(
                                        s2,
                                        name@,
                                        target,
                                        args@.len() as u8,
                                    );
                                },
                                Err(_) => {},
                            }
                        },
                        Err(_) => {},
                    }
                },
                Err(_) => {},
            }
        },
        Expression::Object { fields } => {
            lemma_counting_binds_nothing(s, 0);
            match s.allocate() {
                Ok((s1, object)) => {
                    let allocate = Instruction::AllocateObject { dest: object };
                    lemma_emit_plain(s1, allocate);
                    lemma_fields_bind_nothing(s1.emit(allocate), fields@, 0, object);
                },
                Err(_) => {},
            }
        },
        Expression::Array { this } => {
            lemma_counting_binds_nothing(s, 0);
            match s.allocate() {
                Ok((s1, array)) => {
                    let allocate = Instruction::AllocateArray { dest: array };
                    lemma_emit_plain(s1, allocate);
                    lemma_elements_bind_nothing(s1.emit(allocate), this@, 0, array);
                },
                Err(_) => {},
            }
        },
        Expression::ObjectAccess { path } => {
            if path@.len() > 0 {
                lemma_counting_binds_nothing(s, 0);
                match s.allocate() {
                    Ok((s1, into)) => {
                        match resolve(s1.scopes, path@[0]@) {
                            Some(object) => {
                                lemma_counting_binds_nothing(s1, object);
                                lemma_walk_path_binds_nothing(
                                    s1.count(object),
                                    path@,
                                    1,
                                    path@.len() as int,
                                    object,
                                    into,
                                );
                                match walk_path(
                                    s1.count(object),
                                    path@,
                                    1,
                                    path@.len() as int,
                                    object,
                                    into,
                                ) {
                                    Ok((s2, _)) => {
                                        lemma_same_names_chain(s, s1.count(object), s2);
                                    },
                                    Err(_) => {},
                                }
                            },
                            None => {},
                        }
                    },
                    Err(_) => {},
                }
            }
        },
        Expression::ArrayAccess { name, index } => {
            lemma_counting_binds_nothing(s, 0);
            match s.allocate() {
                Ok((s1, into)) => {
                    match resolve(s1.scopes, name@) {
                        Some(array) => {
                            lemma_counting_binds_nothing(s1, array);
                            lemma_expression_binds_nothing(s1.count(array), *index);
                            match compile_expression(s1.count(array), *index) {
                                Ok((s2, index_register)) => {
                                    lemma_emit_plain(
                                        s2,
                                        Instruction::GetArrayIndex {
                                            array,
                                            index: index_register,
                                            return_val: into,
                                        },
                                    );
                                },
                                Err(_) => {},
                            }
                        },
                        None => {},
                    }
                },
                Err(_) => {},
            }
        },
    }
}

/// Compiling the arguments of a call binds nothing; the registers that hold
/// them are counted.
pub proof fn lemma_arguments_bind_nothing(s: State, args: Seq<Expression>, from: int)
    ensures
        compile_arguments(s, args, from) matches Ok((after, registers)) ==> same_names(s, after)
            && forall|i: int| 0 <= i < registers.len() ==> registers[i] <= after.highest,
        no_mutation_error(compile_arguments(s, args, from)),
    decreases args, args.len() - from,
{
    if 0 <= from < args.len() {
        lemma_expression_binds_nothing(s, args[from]);
        match compile_expression(s, args[from]) {
            Ok((s1, _)) => {
                lemma_arguments_bind_nothing(s1, args, from + 1);
            },
            Err(_) => {},
        }
    }
}

/// Compiling the fields of an object literal binds nothing.
pub proof fn lemma_fields_bind_nothing(
    s: State,
    fields: Seq<(String, Expression)>,
    from: int,
    object: u8,
)
    requires
        object <= s.highest,
    ensures
        compile_fields(s, fields, from, object) matches Ok(after) ==> same_names(s, after),
        no_mutation_error(compile_fields(s, fields, from, object)),
    decreases fields, fields.len() - from,
{
    if 0 <= from < fields.len() {
        lemma_load_literal_binds_nothing(s, LiteralView::String(fields[from].0@));
        match load_literal(s, LiteralView::String(fields[from].0@)) {
            Ok((s1, field)) => {
                lemma_expression_binds_nothing(s1, fields[from].1);
                match compile_expression(s1, fields[from].1) {
                    Ok((s2, value)) => {
                        let set = Instruction::SetObjectField { object, field, value };
                        lemma_emit_plain(s2, set);
                        lemma_fields_bind_nothing(s2.emit(set), fields, from + 1, object);
                    },
                    Err(_) => {},
                }
            },
            Err(_) => {},
        }
    }
}

/// Compiling the elements of an array literal binds nothing.
pub proof fn lemma_elements_bind_nothing(
    s: State,
    elements: Seq<Expression>,
    from: int,
    array: u8,
)
    requires
        array <= s.highest,
    ensures
        compile_elements(s, elements, from, array) matches Ok(after) ==> same_names(s, after),
        no_mutation_error(compile_elements(s, elements, from, array)),
    decreases elements, elements.len() - from,
{
    if 0 <= from < elements.len() && from <= i64::MAX {
        lemma_load_literal_binds_nothing(s, LiteralView::Integer(from as i64));
        match load_literal(s, LiteralView::Integer(from as i64)) {
            Ok((s1, index)) => {
                lemma_expression_binds_nothing(s1, elements[from]);
                match compile_expression(s1, elements[from]) {
                    Ok((s2, value)) => {
                        let set = Instruction::SetArrayIndex { array, index, value };
                        lemma_emit_plain(s2, set);
                        lemma_elements_bind_nothing(s2.emit(set), elements, from + 1, array);
                    },
                    Err(_) => {},
                }
            },
            Err(_) => {},
        }
    }
}

/// A variable keeps its register for good: `let` binds the variable to the
/// register of its value, and a later assignment, which compiles only where
/// the binding is mutable, copies the new value into that very register.
pub proof fn lemma_assignment_targets_the_register_of_let(
    s: State,
    name: String,
    initial: Expression,
    value: Expression,
)
    requires
        s.well_formed(),
        compile_statement(
            s,
            Statement::Let {
                name,
                value: Box::new(initial),
                is_mutable: true,
                type_annotation: None,
            },
        ) is Ok,
        compile_statement(
            compile_statement(
                s,
                Statement::Let {
                    name,
                    value: Box::new(initial),
                    is_mutable: true,
                    type_annotation: None,
                },
            )->Ok_0,
            Statement::Reassignment { name, value: Box::new(value) },
        ) is Ok,
    ensures
        ({
            let (computed, register) = compile_expression(s, initial)->Ok_0;
            let bound = compile_statement(
                s,
                Statement::Let {
                    name,
                    value: Box::new(initial),
                    is_mutable: true,
                    type_annotation: None,
                },
            )->Ok_0;
            let done = compile_statement(
                bound,
                Statement::Reassignment { name, value: Box::new(value) },
            )->Ok_0;
            &&& resolve(bound.scopes, name@) == Some(register)
            &&& done.code.last() == (Instruction::Copy {
                dest: register,
                src: compile_expression(bound, value)->Ok_0.1,
            })
            &&& resolve(done.scopes, name@) == Some(register)
        }),
{
    let (computed, register) = compile_expression(s, initial)->Ok_0;
    lemma_expression_binds_nothing(s, initial);
    let bound = computed.define(name@, register, true);
    assert(bound.scopes.last().symbols.dom().contains(name@));
    assert(resolve(bound.scopes, name@) == Some(register));
    lemma_expression_binds_nothing(bound, value);
    lemma_assignment_keeps_the_register(bound, name, value);
}

/// What resolving the breaks of a loop body does, position by position: a
/// `break` that waits becomes the jump behind the loop; every other
/// instruction, each jump that was resolved earlier among them, stays as it
/// is.
pub proof fn lemma_patch_breaks(body: Seq<Instruction>, from: int)
    requires
        0 <= from,
    ensures
        patch_breaks(body, from) matches Ok(patched) ==> {
            &&& patched.len() == body.len()
            &&& forall|i: int|
                0 <= i < body.len() ==> #[trigger] patched[i] == (if from <= i
                    && body[i].is_pending_break() {
                    Instruction::Jump { offset: break_offset(body.len() as int, i) as u16 }
                } else {
                    body[i]
                })
            &&& forall|i: int|
                from <= i < body.len() && #[trigger] body[i].is_pending_break() ==> break_offset(
                    body.len() as int,
                    i,
                ) <= u16::MAX
        },
    decreases body.len() - from,
{
    if from < body.len() {
        if body[from].is_pending_break() {
            if break_offset(body.len() as int, from) <= u16::MAX {
                let next = body.update(
                    from,
                    Instruction::Jump { offset: break_offset(body.len() as int, from) as u16 },
                );
                lemma_patch_breaks(next, from + 1);
            }
        } else {
            lemma_patch_breaks(body, from + 1);
        }
    }
}

/// A loop that is closed around a body whose jumps resolve has no break left
/// that waits, all its jumps land inside it, and it names no register that
/// the body did not name.
pub proof fn lemma_closed_loop_resolves(body: Seq<Instruction>, bound: u8, size: nat)
    requires
        jumps_resolve(body),
        counted(body, bound),
        constants_inside(body, size),
    ensures
        close_loop(body) matches Ok(code) ==> jumps_resolve(code) && counted(code, bound)
            && !has_pending_break(code) && constants_inside(code, size),
{
    lemma_patch_breaks(body, 0);
    match close_loop(body) {
        Ok(code) => {
            let patched = patch_breaks(body, 0)->Ok_0;
            assert forall|at: int| 0 <= at < code.len() implies #[trigger] lands_inside(code, at) by {
                if at < body.len() {
                    assert(code[at] == patched[at]);
                    assert(lands_inside(body, at));
                }
            }
            assert forall|at: int| 0 <= at < code.len() implies operands_within(
                #[trigger] code[at],
                bound,
            ) by {
                if at < body.len() {
                    assert(code[at] == patched[at]);
                    assert(operands_within(body[at], bound));
                }
            }
            assert forall|at: int| 0 <= at < code.len() implies !(
            #[trigger] code[at]).is_pending_break() by {
                if at < body.len() {
                    assert(code[at] == patched[at]);
                }
            }
            assert forall|at: int| 0 <= at < code.len() implies names_constant(
                #[trigger] code[at],
                size,
            ) by {
                if at < body.len() {
                    assert(code[at] == patched[at]);
                    assert(names_constant(body[at], size));
                }
            }
        },
        Err(_) => {},
    }
}

/// Binding parameters writes no code and declares no function; it counts the
/// registers that it takes.
pub proof fn lemma_bind_parameters_writes_nothing(
    s: State,
    parameters: Seq<FunctionParameter>,
    from: int,
)
    ensures
        bind_parameters(s, parameters, from) matches Ok(after) ==> after.code == s.code
            && after.functions == s.functions && after.literals == s.literals && after.highest
            >= s.highest,
    decreases parameters.len() - from,
{
    if 0 <= from < parameters.len() {
        match s.allocate() {
            Ok((s1, register)) => {
                lemma_bind_parameters_writes_nothing(
                    s1.define(parameters[from].name@, register, false),
                    parameters,
                    from + 1,
                );
            },
            Err(_) => {},
        }
    }
}

/// Whether a step of the compiler kept every jump inside its code, counted
/// every register that code names, kept every function in the table as it
/// was, finished every function that it added to the table, added to
/// the literal pool at its end only, kept every constant that code loads
/// inside the pool, and kept the pool free of duplicates.
pub open spec fn keeps_jumps_inside(before: State, after: State) -> bool {
    &&& all_jumps_resolve(after)
    &&& after.functions.len() >= before.functions.len()
    &&& forall|j: int|
        0 <= j < before.functions.len() ==> #[trigger] after.functions[j] == before.functions[j]
    &&& forall|j: int|
        before.functions.len() <= j < after.functions.len() ==> (
        #[trigger] after.functions[j]).code.len() > 0
    &&& after.highest >= before.highest
    &&& pool_extends(before.literals, after.literals)
    &&& pool_is_deduplicated(before.literals) ==> pool_is_deduplicated(after.literals)
}

/// A step that binds nothing keeps the jumps inside.
pub proof fn lemma_plain_step_keeps_jumps_inside(s: State, after: State)
    requires
        all_jumps_resolve(s),
        same_names(s, after),
    ensures
        keeps_jumps_inside(s, after),
{
    lemma_functions_stay_sound(s.functions, s.literals.len(), after.literals.len());
}

/// The code of an `if` without `else`: the jump over the body lands behind
/// the body.
pub proof fn lemma_if_code_resolves(
    before: Seq<Instruction>,
    body: Seq<Instruction>,
    test: u8,
    bound: u8,
)
    requires
        jumps_resolve(before),
        counted(before, bound),
        jumps_resolve(body),
        counted(body, bound),
        test <= bound,
        body.len() + 1 <= u16::MAX,
    ensures
        jumps_resolve(
            before.push(Instruction::JumpIfFalse { src: test, offset: (body.len() + 1) as u16 })
                + body,
        ),
        counted(
            before.push(Instruction::JumpIfFalse { src: test, offset: (body.len() + 1) as u16 })
                + body,
            bound,
        ),
{
    let jump = Instruction::JumpIfFalse { src: test, offset: (body.len() + 1) as u16 };
    let fragment = seq![jump] + body;
    assert forall|at: int| 0 <= at < fragment.len() implies #[trigger] lands_inside(
        fragment,
        at,
    ) by {
        if at > 0 {
            assert(fragment[at] == body[at - 1]);
            assert(lands_inside(body, at - 1));
        }
    }
    assert forall|at: int| 0 <= at < fragment.len() implies operands_within(
        #[trigger] fragment[at],
        bound,
    ) by {
        if at > 0 {
            assert(fragment[at] == body[at - 1]);
        }
    }
    lemma_concat_resolves(before, fragment);
    lemma_counted_concat(before, fragment, bound);
    assert(before.push(jump) + body =~= before + fragment);
}

/// The code of an `if` with `else`: the jump over the body lands on the
/// `else`, and the jump at the end of the body lands behind the `else`.
pub proof fn lemma_if_else_code_resolves(
    before: Seq<Instruction>,
    body: Seq<Instruction>,
    otherwise: Seq<Instruction>,
    test: u8,
    bound: u8,
)
    requires
        jumps_resolve(before),
        counted(before, bound),
        jumps_resolve(body),
        counted(body, bound),
        jumps_resolve(otherwise),
        counted(otherwise, bound),
        test <= bound,
        body.len() + 2 <= u16::MAX,
        otherwise.len() + 1 <= u16::MAX,
    ensures
        jumps_resolve(
            (before.push(Instruction::JumpIfFalse { src: test, offset: (body.len() + 2) as u16 })
                + body).push(Instruction::Jump { offset: (otherwise.len() + 1) as u16 })
                + otherwise,
        ),
        counted(
            (before.push(Instruction::JumpIfFalse { src: test, offset: (body.len() + 2) as u16 })
                + body).push(Instruction::Jump { offset: (otherwise.len() + 1) as u16 })
                + otherwise,
            bound,
        ),
{
    let jump = Instruction::JumpIfFalse { src: test, offset: (body.len() + 2) as u16 };
    let over = Instruction::Jump { offset: (otherwise.len() + 1) as u16 };
    let fragment = seq![jump] + body + seq![over] + otherwise;
    assert forall|at: int| 0 <= at < fragment.len() implies #[trigger] lands_inside(
        fragment,
        at,
    ) by {
        if at == 0 {
        } else if at <= body.len() {
            assert(fragment[at] == body[at - 1]);
            assert(lands_inside(body, at - 1));
        } else if at == body.len() + 1 {
        } else {
            assert(fragment[at] == otherwise[at - 2 - body.len()]);
            assert(lands_inside(otherwise, at - 2 - body.len()));
        }
    }
    assert forall|at: int| 0 <= at < fragment.len() implies operands_within(
        #[trigger] fragment[at],
        bound,
    ) by {
        if at == 0 {
        } else if at <= body.len() {
            assert(fragment[at] == body[at - 1]);
        } else if at == body.len() + 1 {
        } else {
            assert(fragment[at] == otherwise[at - 2 - body.len()]);
        }
    }
    lemma_concat_resolves(before, fragment);
    lemma_counted_concat(before, fragment, bound);
    assert((before.push(jump) + body).push(over) + otherwise =~= before + fragment);
}

/// An assignment to a variable keeps the jumps inside and counts its
/// registers.
pub proof fn lemma_assignment_keeps_jumps_inside(s: State, name: Seq<char>, value: Expression)
    requires
        all_jumps_resolve(s),
    ensures
        compile_let_mutation(s, name, value) matches Ok(after) ==> keeps_jumps_inside(s, after),
{
    lemma_expression_binds_nothing(s, value);
    if can_mutate(s.scopes, name) {
        match compile_expression(s, value) {
            Ok((s1, register)) => match resolve(s1.scopes, name) {
                Some(target) => {
                    lemma_functions_stay_sound(s.functions, s.literals.len(), s1.literals.len());
                    lemma_counting_binds_nothing(s1, target);
                    lemma_emit_plain(
                        s1.count(target),
                        Instruction::Copy { dest: target, src: register },
                    );
                },
                None => {},
            },
            Err(_) => {},
        }
    }
}

/// An assignment that is rejected because the variable is immutable, or is
/// none, leaves the compiler as it was; no other failure of an assignment is
/// reported as one of mutation.
pub proof fn lemma_rejected_assignment_changes_nothing(s: State, name: Seq<char>, value: Expression)
    ensures
        compile_let_mutation(s, name, value) == Err::<State, _>(
            ErrorView::MutationNotAllowed(name),
        ) <==> !can_mutate(s.scopes, name),
        compile_let_mutation(s, name, value) matches Err(error) ==> (error is MutationNotAllowed
            <==> !can_mutate(s.scopes, name)),
{
    lemma_expression_binds_nothing(s, value);
}

/// `let`, `const`, `return` and a lone expression keep the jumps inside and
/// count their registers.
pub proof fn lemma_simple_statements_keep_jumps_inside(
    s: State,
    name: Seq<char>,
    value: Expression,
    is_mutable: bool,
)
    requires
        all_jumps_resolve(s),
    ensures
        compile_let(s, name, value, is_mutable) matches Ok(after) ==> keeps_jumps_inside(s, after),
        compile_return(s, value) matches Ok(after) ==> keeps_jumps_inside(s, after),
        compile_expression(s, value) matches Ok((after, _)) ==> keeps_jumps_inside(s, after),
{
    lemma_expression_binds_nothing(s, value);
    match compile_expression(s, value) {
        Ok((s1, val)) => {
            lemma_functions_stay_sound(s.functions, s.literals.len(), s1.literals.len());
            lemma_emit_plain(s1, Instruction::Return { val });
        },
        Err(_) => {},
    }
}

/// Every jump that the compiler emits lands inside the code that it belongs
/// to, and every register that it names is counted: compiling a statement
/// keeps this true of the code buffer and of every function.
pub proof fn lemma_statement_keeps_jumps_inside(s: State, statement: Statement)
    requires
        all_jumps_resolve(s),
    ensures
        compile_statement(s, statement) matches Ok(after) ==> keeps_jumps_inside(s, after),
    decreases statement_height(statement), 1nat,
{
    match statement {
        Statement::Const { name, value, .. } => {
            lemma_simple_statements_keep_jumps_inside(s, name@, value, false);
        },
        Statement::Let { name, value, is_mutable, .. } => {
            lemma_simple_statements_keep_jumps_inside(s, name@, *value, is_mutable);
        },
        Statement::Reassignment { name, value } => {
            lemma_assignment_keeps_jumps_inside(s, name@, *value);
        },
        Statement::If { condition, body, else_statement } => {
            lemma_if_keeps_jumps_inside(s, *condition, *body, else_statement);
        },
        Statement::Block { body } => {
            lemma_block_keeps_jumps_inside(s, body@);
        },
        Statement::Function(function) => {
            lemma_function_keeps_jumps_inside(s, function);
        },
        Statement::Expression(expression) => {
            lemma_simple_statements_keep_jumps_inside(s, Seq::empty(), expression, false);
        },
        Statement::Return(expression) => {
            lemma_simple_statements_keep_jumps_inside(s, Seq::empty(), expression, false);
        },
        Statement::Loop { body } => {
            lemma_loop_keeps_jumps_inside(s, *body);
        },
        Statement::Break => {
            lemma_emit_plain(s, Instruction::PendingBreak);
        },
        Statement::ObjectMutation { path, value } => {
            lemma_object_mutation_keeps_jumps_inside(s, path, *value);
        },
    }
}

/// An assignment to a field emits no jump and counts its registers.
pub proof fn lemma_object_mutation_keeps_jumps_inside(s: State, path: Expression, value: Expression)
    requires
        all_jumps_resolve(s),
    ensures
        compile_object_mutation(s, path, value) matches Ok(after) ==> keeps_jumps_inside(s, after),
{
    match path {
        Expression::ObjectAccess { path } => {
            if path@.len() >= 2 {
                lemma_counting_binds_nothing(s, 0);
                match s.allocate() {
                    Ok((s1, into)) => match resolve(s1.scopes, path@[0]@) {
                        Some(base) => {
                            let s1c = s1.count(base);
                            lemma_counting_binds_nothing(s1, base);
                            lemma_walk_path_binds_nothing(s1c, path@, 1, path@.len() - 1, base, into);
                            match walk_path(s1c, path@, 1, path@.len() - 1, base, into) {
                                Ok((s2, object)) => {
                                    lemma_load_literal_binds_nothing(
                                        s2,
                                        LiteralView::String(path@.last()@),
                                    );
                                    match load_literal(s2, LiteralView::String(path@.last()@)) {
                                        Ok((s3, field)) => {
                                            lemma_expression_binds_nothing(s3, value);
                                            match compile_expression(s3, value) {
                                                Ok((s4, stored)) => {
                                                    lemma_emit_plain(
                                                        s4,
                                                        Instruction::SetObjectField {
                                                            object,
                                                            field,
                                                            value: stored,
                                                        },
                                                    );
                                                    lemma_same_names_chain(s, s1c, s2);
                                                    lemma_same_names_chain(s, s2, s3);
                                                    lemma_same_names_chain(s, s3, s4);
                                                    lemma_functions_stay_sound(
                                                        s.functions,
                                                        s.literals.len(),
                                                        s4.literals.len(),
                                                    );
                                                },
                                                Err(_) => {},
                                            }
                                        },
                                        Err(_) => {},
                                    }
                                },
                                Err(_) => {},
                            }
                        },
                        None => {},
                    },
                    Err(_) => {},
                }
            }
        },
        _ => {},
    }
}

/// Compiling statements one after the other keeps the jumps inside.
pub proof fn lemma_statements_keep_jumps_inside(s: State, statements: Seq<Statement>, from: int)
    requires
        all_jumps_resolve(s),
    ensures
        compile_statements(s, statements, from) matches Ok(after) ==> keeps_jumps_inside(s, after),
    decreases statements_height(statements, from), 0nat,
{
    if 0 <= from < statements.len() {
        lemma_statement_keeps_jumps_inside(s, statements[from]);
        match compile_statement(s, statements[from]) {
            Ok(s1) => {
                lemma_statements_keep_jumps_inside(s1, statements, from + 1);
            },
            Err(_) => {},
        }
    }
}

/// Announcing functions changes the scopes and nothing else.
pub proof fn lemma_announcing_changes_scopes_only(s: State, statements: Seq<Statement>, from: int)
    ensures
        announce_functions(s, statements, from) == (State {
            scopes: announce_functions(s, statements, from).scopes,
            ..s
        }),
        announce_functions(s, statements, from).scopes.len() == s.scopes.len()
            || s.scopes.len() == 0,
    decreases statements.len() - from,
{
    if 0 <= from < statements.len() {
        match statements[from] {
            Statement::Function(function) => {
                lemma_announcing_changes_scopes_only(
                    s.announce(function.name@),
                    statements,
                    from + 1,
                );
            },
            _ => {
                lemma_announcing_changes_scopes_only(s, statements, from + 1);
            },
        }
    }
}

/// Announcing functions forgets none that was announced.
pub proof fn lemma_announcing_forgets_nothing(
    s: State,
    statements: Seq<Statement>,
    from: int,
    name: Seq<char>,
)
    requires
        is_announced(s.scopes, name),
    ensures
        is_announced(announce_functions(s, statements, from).scopes, name),
    decreases statements.len() - from,
{
    if 0 <= from < statements.len() {
        match statements[from] {
            Statement::Function(function) => {
                let next = s.announce(function.name@);
                let i = choose|i: int|
                    0 <= i < s.scopes.len() && #[trigger] s.scopes[i].announced.contains(name);
                assert(next.scopes[i].announced.contains(name));
                lemma_announcing_forgets_nothing(next, statements, from + 1, name);
            },
            _ => {
                lemma_announcing_forgets_nothing(s, statements, from + 1, name);
            },
        }
    }
}

/// Every function that the statements of a block declare is announced when
/// the block is entered.
pub proof fn lemma_declared_functions_are_announced(
    s: State,
    statements: Seq<Statement>,
    from: int,
    at: int,
)
    requires
        s.scopes.len() > 0,
        0 <= from <= at < statements.len(),
        statements[at] is Function,
    ensures
        is_announced(
            announce_functions(s, statements, from).scopes,
            statements[at]->Function_0.name@,
        ),
    decreases at - from,
{
    let name = statements[at]->Function_0.name@;
    if from == at {
        let next = s.announce(name);
        assert(next.scopes[s.scopes.len() - 1].announced.contains(name));
        lemma_announcing_forgets_nothing(next, statements, from + 1, name);
    } else {
        match statements[from] {
            Statement::Function(function) => {
                let next = s.announce(function.name@);
                lemma_declared_functions_are_announced(next, statements, from + 1, at);
            },
            _ => {
                lemma_declared_functions_are_announced(s, statements, from + 1, at);
            },
        }
    }
}

/// A call of a function before its declaration is rejected: where no open
/// block has declared the name yet and an open block declares it further on,
/// the call is an error, whatever its arguments, and is not taken for a call
/// of a native function.
pub proof fn lemma_early_call_is_rejected(s: State, name: String, args: Vec<Expression>)
    requires
        !resolve_function(s.scopes, name@),
        is_announced(s.scopes, name@),
    ensures
        compile_expression(s, Expression::FunctionCall { name, args }) == Err::<(State, u8), _>(
            ErrorView::General(message_early_call()),
        ),
{
}

/// Compiling a block keeps the jumps inside.
pub proof fn lemma_block_keeps_jumps_inside(s: State, body: Seq<Statement>)
    requires
        all_jumps_resolve(s),
    ensures
        compile_block(s, body) matches Ok(after) ==> keeps_jumps_inside(s, after),
    decreases statements_height(body, 0), 1nat,
{
    lemma_announcing_changes_scopes_only(s.enter_scope(), body, 0);
    lemma_statements_keep_jumps_inside(announce_functions(s.enter_scope(), body, 0), body, 0);
}

/// Compiling what follows `else` keeps the jumps inside.
pub proof fn lemma_else_keeps_jumps_inside(s: State, else_statement: Statement)
    requires
        all_jumps_resolve(s),
    ensures
        compile_else(s, else_statement) matches Ok(after) ==> keeps_jumps_inside(s, after),
    decreases statement_height(else_statement), 1nat,
{
    match else_statement {
        Statement::If { condition, body, else_statement } => {
            lemma_if_keeps_jumps_inside(s, *condition, *body, else_statement);
        },
        Statement::Block { body } => {
            lemma_block_keeps_jumps_inside(s, body@);
        },
        _ => {},
    }
}

/// The jump over the body of an `if` lands on what follows the body, and the
/// jump over the `else` lands behind it.
pub proof fn lemma_if_keeps_jumps_inside(
    s: State,
    condition: Expression,
    body: Statement,
    else_statement: Option<Box<Statement>>,
)
    requires
        all_jumps_resolve(s),
    ensures
        compile_if(s, condition, body, else_statement) matches Ok(after) ==> keeps_jumps_inside(
            s,
            after,
        ),
    decreases statement_height(body) + else_height(else_statement) + 1, 0nat,
{
    lemma_expression_binds_nothing(s, condition);
    match compile_expression(s, condition) {
        Ok((s1, test)) => {
            lemma_functions_stay_sound(s.functions, s.literals.len(), s1.literals.len());
            lemma_statement_keeps_jumps_inside(s1.with_code(Seq::empty()), body);
            match compile_statement(s1.with_code(Seq::empty()), body) {
                Ok(s2) => {
                    let skip = s2.code.len() + 1 + (if else_statement is Some {
                        1int
                    } else {
                        0int
                    });
                    if skip <= u16::MAX {
                        let jump = Instruction::JumpIfFalse { src: test, offset: skip as u16 };
                        let s3 = s2.with_code(s1.code.push(jump) + s2.code);
                        match else_statement {
                            None => {
                                lemma_counted_grows(s1.code, s1.highest, s2.highest);
                                lemma_if_code_resolves(s1.code, s2.code, test, s2.highest);
                                lemma_constants_grow(
                                    s1.code,
                                    s1.literals.len(),
                                    s2.literals.len(),
                                );
                                lemma_constants_push(s1.code, jump, s2.literals.len());
                                lemma_constants_concat(
                                    s1.code.push(jump),
                                    s2.code,
                                    s2.literals.len(),
                                );
                            },
                            Some(otherwise) => {
                                lemma_else_keeps_jumps_inside(
                                    s3.with_code(Seq::empty()),
                                    *otherwise,
                                );
                                match compile_else(s3.with_code(Seq::empty()), *otherwise) {
                                    Ok(s4) => {
                                        if s4.code.len() + 1 <= u16::MAX {
                                            lemma_counted_grows(s1.code, s1.highest, s4.highest);
                                            lemma_counted_grows(s2.code, s2.highest, s4.highest);
                                            lemma_if_else_code_resolves(
                                                s1.code,
                                                s2.code,
                                                s4.code,
                                                test,
                                                s4.highest,
                                            );
                                            let size = s4.literals.len();
                                            let over = Instruction::Jump {
                                                offset: (s4.code.len() + 1) as u16,
                                            };
                                            lemma_constants_grow(s1.code, s1.literals.len(), size);
                                            lemma_constants_grow(s2.code, s2.literals.len(), size);
                                            lemma_constants_push(s1.code, jump, size);
                                            lemma_constants_concat(
                                                s1.code.push(jump),
                                                s2.code,
                                                size,
                                            );
                                            lemma_constants_push(s3.code, over, size);
                                            lemma_constants_concat(
                                                s3.code.push(over),
                                                s4.code,
                                                size,
                                            );
                                        }
                                    },
                                    Err(_) => {},
                                }
                            },
                        }
                    }
                },
                Err(_) => {},
            }
        },
        Err(_) => {},
    }
}

/// The jumps of a loop land inside the loop or just behind it.
pub proof fn lemma_loop_keeps_jumps_inside(s: State, body: Statement)
    requires
        all_jumps_resolve(s),
    ensures
        compile_loop(s, body) matches Ok(after) ==> keeps_jumps_inside(s, after),
    decreases statement_height(body), 1nat,
{
    match body {
        Statement::Block { body } => {
            lemma_block_keeps_jumps_inside(s.with_code(Seq::empty()), body@);
            match compile_block(s.with_code(Seq::empty()), body@) {
                Ok(s1) => {
                    lemma_closed_loop_resolves(s1.code, s1.highest, s1.literals.len());
                    match close_loop(s1.code) {
                        Ok(code) => {
                            lemma_counted_grows(s.code, s.highest, s1.highest);
                            lemma_concat_resolves(s.code, code);
                            lemma_counted_concat(s.code, code, s1.highest);
                            lemma_constants_grow(s.code, s.literals.len(), s1.literals.len());
                            lemma_constants_concat(s.code, code, s1.literals.len());
                        },
                        Err(_) => {},
                    }
                },
                Err(_) => {},
            }
        },
        _ => {},
    }
}

/// The jumps of a function land inside the function, no `break` waits in it,
/// and its register count is at least every register that its code names.
pub proof fn lemma_function_keeps_jumps_inside(s: State, function: Function)
    requires
        all_jumps_resolve(s),
    ensures
        compile_function(s, function) matches Ok(after) ==> keeps_jumps_inside(s, after),
    decreases statement_height(*function.body), 1nat,
{
    let entry = function_entry(s, function);
    assert(all_jumps_resolve(entry)) by {
        assert forall|j: int| 0 <= j < entry.functions.len() implies function_is_sound(
            #[trigger] entry.functions[j],
            entry.literals.len(),
        ) by {
            if j < s.functions.len() {
                assert(entry.functions[j] == s.functions[j]);
            }
        }
    }
    lemma_bind_parameters_writes_nothing(entry, function.parameters@, 0);
    match bind_parameters(entry, function.parameters@, 0) {
        Ok(s1) => match *function.body {
            Statement::Block { body } => {
                lemma_counted_grows(s1.code, entry.highest, s1.highest);
                lemma_announcing_changes_scopes_only(s1, body@, 0);
                lemma_statements_keep_jumps_inside(announce_functions(s1, body@, 0), body@, 0);
                match compile_statements(announce_functions(s1, body@, 0), body@, 0) {
                    Ok(s2) => {
                        if !has_pending_break(s2.code) {
                            lemma_push_plain(s2.code, Instruction::FunctionReturn);
                            lemma_return_closes_the_code(s2.code);
                            lemma_counted_push(s2.code, Instruction::FunctionReturn, s2.highest);
                            lemma_constants_push(
                                s2.code,
                                Instruction::FunctionReturn,
                                s2.literals.len(),
                            );
                            lemma_constants_grow(s.code, s.literals.len(), s2.literals.len());
                            let finished = s2.code.push(Instruction::FunctionReturn);
                            assert(!has_pending_break(finished)) by {
                                if has_pending_break(finished) {
                                    let at = choose|at: int|
                                        0 <= at < finished.len()
                                            && #[trigger] finished[at].is_pending_break();
                                    assert(s2.code[at].is_pending_break());
                                }
                            }
                            let after = compile_function(s, function)->Ok_0;
                            assert(s1.functions.len() == s.functions.len() + 1);
                            assert(s2.functions.len() > s.functions.len());
                            assert forall|j: int|
                                0 <= j < after.functions.len() implies function_is_sound(
                                #[trigger] after.functions[j],
                                after.literals.len(),
                            ) by {
                                if j != s.functions.len() {
                                    assert(after.functions[j] == s2.functions[j]);
                                }
                            }
                        }
                    },
                    Err(_) => {},
                }
            },
            _ => {},
        },
        Err(_) => {},
    }
}

/// A constant keeps its id: whatever is compiled after a literal was loaded,
/// the id under which the instruction loads it names that literal in the
/// pool.
pub proof fn lemma_a_constant_keeps_its_id(
    s: State,
    literal: LiteralView,
    statements: Seq<Statement>,
)
    requires
        all_jumps_resolve(s),
        load_literal(s, literal) is Ok,
        compile_statements(load_literal(s, literal)->Ok_0.0, statements, 0) is Ok,
    ensures
        ({
            let (loaded, _) = load_literal(s, literal)->Ok_0;
            let after = compile_statements(loaded, statements, 0)->Ok_0;
            loaded.code.last() matches Instruction::LoadLiteral { src, .. } && src
                < after.literals.len() && after.literals[src as int] == literal
        }),
{
    let (loaded, _) = load_literal(s, literal)->Ok_0;
    lemma_loaded_constant_is_the_literal(s, literal);
    lemma_load_literal_binds_nothing(s, literal);
    lemma_plain_step_keeps_jumps_inside(s, loaded);
    lemma_statements_keep_jumps_inside(loaded, statements, 0);
}

/// A block gives its registers back: behind a block the register counter
/// stands where it stood in front of it, and the same blocks are open.
pub proof fn lemma_block_gives_registers_back(s: State, body: Seq<Statement>)
    requires
        compile_block(s, body) is Ok,
    ensures
        compile_block(s, body)->Ok_0.next_register == s.next_register,
{
}

/// Sibling blocks reuse registers: of two blocks that stand one after the
/// other, the second starts to allocate at the register at which the first
/// started, so every register that the first took is free for the second.
pub proof fn lemma_sibling_blocks_reuse_registers(
    s: State,
    first: Seq<Statement>,
    second: Seq<Statement>,
)
    requires
        compile_block(s, first) is Ok,
    ensures
        ({
            let between = compile_block(s, first)->Ok_0;
            &&& between.next_register == s.next_register
            &&& between.enter_scope().allocate() is Ok <==> s.enter_scope().allocate() is Ok
            &&& s.enter_scope().allocate() matches Ok((_, register)) ==> register
                == s.next_register && between.enter_scope().allocate()->Ok_0.1 == register
        }),
{
}

/// In a compiled program every jump lands inside the code that it belongs to,
/// the global code or that of a function, or just behind its end; no `break`
/// is left that waits for a loop; every register that code names is at most
/// the register count of that code, and none is register 0; every constant
/// that code loads has its id inside the pool; every function comes back; and
/// no literal stands twice in the pool.
pub proof fn lemma_compiled_program_is_sound(statements: Seq<Statement>)
    requires
        compile_program(State::initial(), statements) is Ok,
    ensures
        ({
            let program = compile_program(State::initial(), statements)->Ok_0;
            &&& jumps_resolve(program.global_code)
            &&& !has_pending_break(program.global_code)
            &&& counted(program.global_code, program.global_register_count)
            &&& from_one(program.global_code)
            &&& constants_inside(program.global_code, program.literals.len())
            &&& forall|j: int|
                0 <= j < program.functions.len() ==> jumps_resolve(
                    #[trigger] program.functions[j].code,
                ) && !has_pending_break(program.functions[j].code) && counted(
                    program.functions[j].code,
                    program.functions[j].register_count,
                ) && from_one(program.functions[j].code) && constants_inside(
                    program.functions[j].code,
                    program.literals.len(),
                )
            &&& functions_close(program)
            &&& pool_is_deduplicated(program.literals)
        }),
{
    lemma_announcing_changes_scopes_only(State::initial(), statements, 0);
    lemma_statements_keep_jumps_inside(
        announce_functions(State::initial(), statements, 0),
        statements,
        0,
    );
    lemma_compiled_registers_start_at_one(statements);
}

} // verus!
