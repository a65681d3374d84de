//! Symbol tables of the compiler: one per block, mapping each name declared in
//! the block to its register and mutability, and recording the functions
//! declared there.

use crate::instructions::Register;
use vstd::prelude::*;

verus! {

/// Where a variable lives and whether it may be assigned again.
#[derive(Debug, Clone, Copy, PartialEq, Eq, Structural)]
pub struct Value {
    pub register: Register,
    pub is_mutable: bool,
}

/// Whether a scope is that of the whole program or that of a block.
#[derive(Debug, Clone, Copy, PartialEq, Eq, Structural)]
pub enum ScopeType {
    Global,
    Local,
}

/// One declared variable. A later entry for the same name shadows an earlier
/// one.
#[derive(Debug)]
pub struct Symbol {
    pub name: String,
    pub value: Value,
}

/// The names that one block declares.
#[derive(Debug)]
pub struct Scope {
    scope_type: ScopeType,
    functions: Vec<String>,
    announced: Vec<String>,
    symbols: Vec<Symbol>,
}

/// What a [`Scope`] stands for: a finite map from names to bindings and a set
/// of function names.
pub struct ScopeView {
    pub scope_type: ScopeType,
    pub functions: Set<Seq<char>>,
    /// The functions that the block declares somewhere among its statements,
    /// whether their declaration has been reached or not.
    pub announced: Set<Seq<char>>,
    pub symbols: Map<Seq<char>, Value>,
}

/// The bindings that a list of declarations amounts to: each declaration
/// overrides what was declared for its name before.
pub open spec fn bindings(symbols: Seq<Symbol>) -> Map<Seq<char>, Value>
    decreases symbols.len(),
{
    if symbols.len() == 0 {
        Map::empty()
    } else {
        bindings(symbols.drop_last()).insert(symbols.last().name@, symbols.last().value)
    }
}

/// The set of the names in a list.
pub open spec fn name_set(names: Seq<String>) -> Set<Seq<char>> {
    Set::new(|name: Seq<char>| exists|i: int| 0 <= i < names.len() && names[i]@ == name)
}

/// A name that no declaration after `from` mentions is bound as the first
/// `from` declarations bind it.
proof fn lemma_bindings_skip(symbols: Seq<Symbol>, name: Seq<char>, from: int)
    requires
        0 <= from <= symbols.len(),
        forall|j: int| from <= j < symbols.len() ==> symbols[j].name@ != name,
    ensures
        bindings(symbols).dom().contains(name) == bindings(symbols.take(from)).dom().contains(
            name,
        ),
        bindings(symbols).dom().contains(name) ==> bindings(symbols)[name] == bindings(
            symbols.take(from),
        )[name],
    decreases symbols.len() - from,
{
    if from == symbols.len() {
        assert(symbols.take(from) =~= symbols);
    } else {
        let shorter = symbols.drop_last();
        assert(shorter.take(from) =~= symbols.take(from));
        lemma_bindings_skip(shorter, name, from);
    }
}

/// A declaration that nothing after it shadows decides the binding of its
/// name.
proof fn lemma_bindings_found(symbols: Seq<Symbol>, name: Seq<char>, at: int)
    requires
        0 <= at < symbols.len(),
        symbols[at].name@ == name,
        forall|j: int| at < j < symbols.len() ==> symbols[j].name@ != name,
    ensures
        bindings(symbols).dom().contains(name),
        bindings(symbols)[name] == symbols[at].value,
{
    lemma_bindings_skip(symbols, name, at + 1);
    let upto = symbols.take(at + 1);
    assert(upto.last() == symbols[at]);
}

/// The names of a list with one more name are the names of the list and that
/// name.
proof fn lemma_name_set_push(before: Seq<String>, after: Seq<String>, name: Seq<char>)
    requires
        after.len() == before.len() + 1,
        forall|i: int| 0 <= i < before.len() ==> after[i] == before[i],
        after[before.len() as int]@ == name,
    ensures
        name_set(after) == name_set(before).insert(name),
{
    assert forall|other: Seq<char>|
        name_set(after).contains(other) == name_set(before).insert(name).contains(other) by {
        if name_set(after).contains(other) {
            let i = choose|i: int| 0 <= i < after.len() && after[i]@ == other;
            if i < before.len() {
                assert(before[i]@ == other);
            }
        } else if other == name {
            assert(after[before.len() as int]@ == other);
        } else if name_set(before).contains(other) {
            let i = choose|i: int| 0 <= i < before.len() && before[i]@ == other;
            assert(after[i]@ == other);
        }
    }
    assert(name_set(after) =~= name_set(before).insert(name));
}

/// Whether a list holds a name.
fn holds_name(names: &Vec<String>, name: &str) -> (r: bool)
    ensures
        r == name_set(names@).contains(name@),
{
    let wanted = name.to_owned();
    let mut i: usize = 0;
    while i < names.len()
        invariant
            i <= names.len(),
            wanted@ == name@,
            forall|j: int| 0 <= j < i ==> names@[j]@ != name@,
        decreases names.len() - i,
    {
        if names[i] == wanted {
            return true;
        }
        i = i + 1;
    }
    false
}

impl View for Scope {
    type V = ScopeView;

    closed spec fn view(&self) -> ScopeView {
        ScopeView {
            scope_type: self.scope_type,
            functions: name_set(self.functions@),
            announced: name_set(self.announced@),
            symbols: bindings(self.symbols@),
        }
    }
}

impl Scope {
    /// An empty scope of the given kind.
    pub fn new(scope_type: ScopeType) -> (scope: Self)
        ensures
            scope@.scope_type == scope_type,
            scope@.functions == Set::<Seq<char>>::empty(),
            scope@.announced == Set::<Seq<char>>::empty(),
            scope@.symbols == Map::<Seq<char>, Value>::empty(),
    {
        let scope = Scope {
            scope_type,
            functions: Vec::new(),
            announced: Vec::new(),
            symbols: Vec::new(),
        };
        assert(name_set(scope.functions@) =~= Set::<Seq<char>>::empty());
        assert(name_set(scope.announced@) =~= Set::<Seq<char>>::empty());
        scope
    }

    /// Whether this is the scope of the whole program.
    pub fn is_global(&self) -> (r: bool)
        ensures
            r == (self@.scope_type == ScopeType::Global),
    {
        match self.scope_type {
            ScopeType::Global => true,
            ScopeType::Local => false,
        }
    }

    /// Records that a function of this name is declared in this scope.
    pub fn define_function(&mut self, function_name: &str)
        ensures
            final(self)@.functions == old(self)@.functions.insert(function_name@),
            final(self)@.symbols == old(self)@.symbols,
            final(self)@.scope_type == old(self)@.scope_type,
            final(self)@.announced == old(self)@.announced,
    {
        let ghost before = self.functions@;
        self.functions.push(function_name.to_owned());
        proof {
            lemma_name_set_push(before, self.functions@, function_name@);
        }
    }

    /// Whether a function of this name is declared in this scope.
    pub fn contains_function(&self, function_name: &str) -> (r: bool)
        ensures
            r == self@.functions.contains(function_name@),
    {
        holds_name(&self.functions, function_name)
    }

    /// Records that the block of this scope declares a function of this name
    /// somewhere among its statements.
    pub fn announce_function(&mut self, function_name: &str)
        ensures
            final(self)@.announced == old(self)@.announced.insert(function_name@),
            final(self)@.functions == old(self)@.functions,
            final(self)@.symbols == old(self)@.symbols,
            final(self)@.scope_type == old(self)@.scope_type,
    {
        let ghost before = self.announced@;
        self.announced.push(function_name.to_owned());
        proof {
            lemma_name_set_push(before, self.announced@, function_name@);
        }
    }

    /// Whether the block of this scope declares a function of this name
    /// somewhere among its statements.
    pub fn announces_function(&self, function_name: &str) -> (r: bool)
        ensures
            r == self@.announced.contains(function_name@),
    {
        holds_name(&self.announced, function_name)
    }

    /// Binds `name` to `register`; the binding may not be assigned again.
    pub fn define_immutable(&mut self, name: &str, register: Register)
        ensures
            final(self)@.symbols == old(self)@.symbols.insert(
                name@,
                Value { register, is_mutable: false },
            ),
            final(self)@.functions == old(self)@.functions,
            final(self)@.scope_type == old(self)@.scope_type,
            final(self)@.announced == old(self)@.announced,
    {
        self.define(name, Value { register, is_mutable: false });
    }

    /// Binds `name` to `register`; the binding may be assigned again.
    pub fn define_mutable(&mut self, name: &str, register: Register)
        ensures
            final(self)@.symbols == old(self)@.symbols.insert(
                name@,
                Value { register, is_mutable: true },
            ),
            final(self)@.functions == old(self)@.functions,
            final(self)@.scope_type == old(self)@.scope_type,
            final(self)@.announced == old(self)@.announced,
    {
        self.define(name, Value { register, is_mutable: true });
    }

    fn define(&mut self, name: &str, value: Value)
        ensures
            final(self)@.symbols == old(self)@.symbols.insert(name@, value),
            final(self)@.functions == old(self)@.functions,
            final(self)@.scope_type == old(self)@.scope_type,
            final(self)@.announced == old(self)@.announced,
    {
        let ghost before = self.symbols@;
        self.symbols.push(Symbol { name: name.to_owned(), value });
        assert(self.symbols@.drop_last() =~= before);
    }

    /// The binding of `name` in this scope, if it has one.
    pub fn lookup(&self, name: &str) -> (r: Option<Value>)
        ensures
            r == (if self@.symbols.dom().contains(name@) {
                Some(self@.symbols[name@])
            } else {
                None
            }),
    {
        let wanted = name.to_owned();
        let mut i: usize = self.symbols.len();
        while i > 0
            invariant
                i <= self.symbols.len(),
                wanted@ == name@,
                forall|j: int| i <= j < self.symbols.len() ==> self.symbols@[j].name@ != name@,
            decreases i,
        {
            i = i - 1;
            if self.symbols[i].name == wanted {
                proof {
                    lemma_bindings_found(self.symbols@, name@, i as int);
                }
                return Some(self.symbols[i].value);
            }
        }
        proof {
            lemma_bindings_skip(self.symbols@, name@, 0);
            assert(self.symbols@.take(0) =~= Seq::<Symbol>::empty());
        }
        None
    }

    /// The register that `name` is bound to in this scope, if it is bound.
    pub fn contains(&self, name: &str) -> (r: Option<Register>)
        ensures
            r == (if self@.symbols.dom().contains(name@) {
                Some(self@.symbols[name@].register)
            } else {
                None
            }),
    {
        match self.lookup(name) {
            Some(value) => Some(value.register),
            None => None,
        }
    }

    /// Whether the binding of `name` in this scope may be assigned again, if
    /// it is bound.
    pub fn is_mutable(&self, name: &str) -> (r: Option<bool>)
        ensures
            r == (if self@.symbols.dom().contains(name@) {
                Some(self@.symbols[name@].is_mutable)
            } else {
                None
            }),
    {
        match self.lookup(name) {
            Some(value) => Some(value.is_mutable),
            None => None,
        }
    }
}

} // verus!
