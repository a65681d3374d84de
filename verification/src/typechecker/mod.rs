//! The typechecker: a static pass over the statement tree that rejects
//! ill-typed programs before they are compiled.

pub mod laws;
pub mod model;
pub mod types;

use crate::ast::{Expression, Function, FunctionParameter, Operator, Statement};
use crate::compiler::model::{else_height, statement_height, statements_height};
use crate::parser::error::ParserError;
use crate::typechecker::model::{
    agreement, check_all, check_block, check_elements, check_else, check_expression, check_fields,
    check_function, check_if, check_let, check_object_mutation, check_program, check_reassignment,
    check_statement, check_statements, define_function, define_parameters, define_type,
    enter_scope, field_type_position, infix_type, initial_scopes, lookup_function, lookup_type,
    named_type, path_type, prefix_type, put_field_type, returns_in, returns_in_else, returns_of,
    Agreement, TypeErrorView,
};
use crate::typechecker::types::{
    field_type_views, lemma_field_type_views, type_text, type_view, DefinedType, DefinedTypeView,
    TypeScopeView, TypecheckerScope,
};
use crate::types::Literal;
use itertools::{AllEqualValueError, Itertools};
use vstd::prelude::*;

verus! {

/// Why a program is ill-typed. Types are named by their texts.
#[derive(Debug, PartialEq)]
pub enum TypecheckerError {
    ParserError(ParserError),
    TypeMismatch { expected: String, got: String },
    TypeMismatchMulti { expected: String, got: Vec<String> },
    TypeMismatchBothWrong { mismatch1: String, mismatch2: String },
    UnexpectedType { got: String },
    NotFound { val: String, what: &'static str },
}

/// The views of a list of strings.
pub open spec fn text_views(texts: Seq<String>) -> Seq<Seq<char>> {
    Seq::new(texts.len(), |i: int| texts[i]@)
}

impl View for TypecheckerError {
    type V = TypeErrorView;

    open spec fn view(&self) -> TypeErrorView {
        match *self {
            TypecheckerError::ParserError(_) => TypeErrorView::Parser,
            TypecheckerError::TypeMismatch { expected, got } => TypeErrorView::TypeMismatch {
                expected: expected@,
                got: got@,
            },
            TypecheckerError::TypeMismatchMulti { expected, got } => TypeErrorView::TypeMismatchMulti {
                expected: expected@,
                got: text_views(got@),
            },
            TypecheckerError::TypeMismatchBothWrong {
                mismatch1,
                mismatch2,
            } => TypeErrorView::TypeMismatchBothWrong {
                mismatch1: mismatch1@,
                mismatch2: mismatch2@,
            },
            TypecheckerError::UnexpectedType { got } => TypeErrorView::UnexpectedType { got: got@ },
            TypecheckerError::NotFound { val, what } => TypeErrorView::NotFound {
                val: val@,
                what: what@,
            },
        }
    }
}

/// The views of a list of types.
pub open spec fn type_views(types: Seq<DefinedType>) -> Seq<DefinedTypeView> {
    Seq::new(types.len(), |i: int| types[i]@)
}

/// The views of a stack of scopes, outermost first.
pub open spec fn scope_views(scopes: Seq<TypecheckerScope>) -> Seq<TypeScopeView> {
    Seq::new(scopes.len(), |i: int| scopes[i]@)
}

/// What `all_equal_value` says of a list of types, as an agreement: `Ok` with
/// the type that all are equal to; an error without types for an empty list;
/// an error with the first type and the first that differs from it.
pub open spec fn agreement_of(
    result: Result<&DefinedType, Option<(&DefinedType, &DefinedType)>>,
) -> Agreement {
    match result {
        Ok(t) => Agreement::AllEqual(t@),
        Err(None) => Agreement::Empty,
        Err(Some((first, other))) => Agreement::Differ(first@, other@),
    }
}

/// `Itertools::all_equal_value` on the types of a list: where the list is
/// empty it says so; where an element differs from the first, it gives the
/// first element and the first that differs from it; otherwise it gives the
/// element that all are equal to. Elements are compared with `==`, which for
/// types means that they have the same view.
#[verifier::external_body]
fn all_equal_value<'a>(types: &'a Vec<DefinedType>) -> (agreed: Result<
    &'a DefinedType,
    Option<(&'a DefinedType, &'a DefinedType)>,
>)
    ensures
        agreement_of(agreed) == agreement(type_views(types@)),
{
    match types.iter().all_equal_value() {
        Ok(t) => Ok(t),
        Err(AllEqualValueError(None)) => Err(None),
        Err(AllEqualValueError(Some([first, other]))) => Err(Some((first, other))),
    }
}

/// The type that a name in a type annotation stands for.
pub fn type_from_name(value: &str) -> (r: Result<DefinedType, TypecheckerError>)
    ensures
        match r {
            Ok(t) => named_type(value@) == Ok::<_, TypeErrorView>(t@),
            Err(e) => named_type(value@) == Err::<DefinedTypeView, _>(e@),
        },
{
    let name = value.to_owned();
    if name == "int".to_owned() {
        Ok(DefinedType::I64)
    } else if name == "float".to_owned() {
        Ok(DefinedType::F64)
    } else if name == "bool".to_owned() {
        Ok(DefinedType::Bool)
    } else if name == "string".to_owned() {
        Ok(DefinedType::String)
    } else {
        Err(TypecheckerError::UnexpectedType { got: name })
    }
}

fn numeric(t: &DefinedType) -> (r: bool)
    ensures
        r == t@.is_numeric(),
{
    match t {
        DefinedType::I64 => true,
        DefinedType::F64 => true,
        _ => false,
    }
}

fn is_bool(t: &DefinedType) -> (r: bool)
    ensures
        r == (t@ == DefinedTypeView::Bool),
{
    match t {
        DefinedType::Bool => true,
        _ => false,
    }
}

fn is_integer(t: &DefinedType) -> (r: bool)
    ensures
        r == (t@ == DefinedTypeView::I64),
{
    match t {
        DefinedType::I64 => true,
        _ => false,
    }
}

fn mismatch(expected: String, got: &DefinedType) -> (error: TypecheckerError)
    ensures
        error@ == (TypeErrorView::TypeMismatch { expected: expected@, got: type_text(got@) }),
{
    TypecheckerError::TypeMismatch { expected, got: got.describe() }
}

fn not_numeric(lhs: &DefinedType, rhs: &DefinedType) -> (error: TypecheckerError)
    ensures
        error@ == (TypeErrorView::TypeMismatchMulti {
            expected: "numeric"@,
            got: seq![type_text(lhs@), type_text(rhs@)],
        }),
{
    let mut got: Vec<String> = Vec::new();
    got.push(lhs.describe());
    got.push(rhs.describe());
    assert(text_views(got@) =~= seq![type_text(lhs@), type_text(rhs@)]);
    TypecheckerError::TypeMismatchMulti { expected: "numeric".to_owned(), got }
}

fn not_found(val: &str, what: &'static str) -> (error: TypecheckerError)
    ensures
        error@ == (TypeErrorView::NotFound { val: val@, what: what@ }),
{
    TypecheckerError::NotFound { val: val.to_owned(), what }
}

/// The type of a prefix operator on an operand of the given type.
pub fn typecheck_prefix(op: Operator, operand: DefinedType) -> (r: Result<
    DefinedType,
    TypecheckerError,
>)
    ensures
        match r {
            Ok(t) => prefix_type(op, operand@) == Ok::<_, TypeErrorView>(t@),
            Err(e) => prefix_type(op, operand@) == Err::<DefinedTypeView, _>(e@),
        },
{
    match op {
        Operator::Plus | Operator::Minus => {
            if numeric(&operand) {
                Ok(operand)
            } else {
                Err(mismatch("numeric".to_owned(), &operand))
            }
        },
        Operator::Not => {
            if is_bool(&operand) {
                Ok(operand)
            } else {
                Err(mismatch("bool".to_owned(), &operand))
            }
        },
        _ => Err(TypecheckerError::UnexpectedType { got: operand.describe() }),
    }
}

/// The type of an infix operator on operands of the given types.
pub fn typecheck_infix(op: Operator, lhs: DefinedType, rhs: DefinedType) -> (r: Result<
    DefinedType,
    TypecheckerError,
>)
    ensures
        match r {
            Ok(t) => infix_type(op, lhs@, rhs@) == Ok::<_, TypeErrorView>(t@),
            Err(e) => infix_type(op, lhs@, rhs@) == Err::<DefinedTypeView, _>(e@),
        },
{
    match op {
        Operator::Plus | Operator::Minus | Operator::Multiply | Operator::Divide => {
            if numeric(&lhs) && numeric(&rhs) {
                if is_integer(&lhs) && is_integer(&rhs) {
                    Ok(DefinedType::I64)
                } else {
                    Ok(DefinedType::F64)
                }
            } else {
                Err(not_numeric(&lhs, &rhs))
            }
        },
        Operator::GreaterThan
        | Operator::GreaterThanOrEqual
        | Operator::LessThan
        | Operator::LessThanOrEqual => {
            if numeric(&lhs) && numeric(&rhs) {
                Ok(DefinedType::Bool)
            } else {
                Err(not_numeric(&lhs, &rhs))
            }
        },
        Operator::Equal | Operator::NotEqual => {
            if lhs.same(&rhs) {
                Ok(DefinedType::Bool)
            } else {
                Err(mismatch(lhs.describe(), &rhs))
            }
        },
        Operator::Not => Err(TypecheckerError::UnexpectedType { got: lhs.describe() }),
    }
}

/// The expressions behind the references of a list.
pub open spec fn referents(references: Seq<&Expression>) -> Seq<Expression> {
    Seq::new(references.len(), |i: int| *references[i])
}

/// The statements from a position on are no higher than all of them.
proof fn lemma_height_from(statements: Seq<Statement>, from: int)
    requires
        0 <= from <= statements.len(),
    ensures
        statements_height(statements, from) <= statements_height(statements, 0),
    decreases from,
{
    if from > 0 {
        lemma_height_from(statements, from - 1);
    }
}

fn find_returns_in<'a>(statement: &'a Statement, collection: &mut Vec<&'a Expression>)
    ensures
        referents(final(collection)@) == referents(old(collection)@) + returns_in(*statement),
    decreases statement_height(*statement), 1nat,
{
    let ghost before = referents(collection@);
    match statement {
        Statement::Return(e) => {
            collection.push(e);
            assert(referents(collection@) =~= before + seq![*e]);
        },
        Statement::If { body, else_statement, .. } => {
            find_returns_in(body, collection);
            match else_statement {
                Some(otherwise) => {
                    assert(else_height(*else_statement) == statement_height(**otherwise));
                    find_returns_in(otherwise, collection);
                },
                None => {},
            }
            assert(referents(collection@) =~= before + (returns_in(**body) + returns_in_else(
                *else_statement,
            )));
        },
        Statement::Block { body } => {
            recursively_find_all_return(body, collection);
        },
        Statement::Loop { body } => {
            find_returns_in(body, collection);
        },
        _ => {
            assert(referents(collection@) =~= before + Seq::<Expression>::empty());
        },
    }
}

/// Adds to `collection` the expressions that the statements return, in the
/// order in which they stand, whatever blocks they stand in.
pub fn recursively_find_all_return<'a>(
    statements: &'a Vec<Statement>,
    collection: &mut Vec<&'a Expression>,
)
    ensures
        referents(final(collection)@) == referents(old(collection)@) + returns_of(
            statements@,
            0,
        ),
    decreases statements_height(statements@, 0), 0nat,
{
    let ghost before = referents(collection@);
    let ghost mut found: Seq<Expression> = Seq::empty();
    let mut i: usize = 0;
    assert(referents(collection@) =~= before + found);
    assert(found + returns_of(statements@, 0) =~= returns_of(statements@, 0));
    while i < statements.len()
        invariant
            i <= statements.len(),
            before == referents(old(collection)@),
            referents(collection@) == before + found,
            found + returns_of(statements@, i as int) == returns_of(statements@, 0),
        decreases statements.len() - i,
    {
        proof {
            lemma_height_from(statements@, i as int);
        }
        find_returns_in(&statements[i], collection);
        proof {
            let more = found + returns_in(statements@[i as int]);
            assert(referents(collection@) =~= before + more);
            assert(more + returns_of(statements@, i + 1) =~= found + returns_of(
                statements@,
                i as int,
            ));
            found = more;
        }
        i = i + 1;
    }
    assert(found + Seq::<Expression>::empty() =~= found);
}

/// The typechecker between two statements: the scopes that are open, with
/// the types of their variables and functions.
pub struct Typechecker {
    scope_stack: Vec<TypecheckerScope>,
}

impl View for Typechecker {
    type V = Seq<TypeScopeView>;

    closed spec fn view(&self) -> Seq<TypeScopeView> {
        scope_views(self.scope_stack@)
    }
}

proof fn lemma_lookup_type_skip(scopes: Seq<TypeScopeView>, name: Seq<char>, upto: int)
    requires
        0 <= upto <= scopes.len(),
        forall|j: int| upto <= j < scopes.len() ==> !scopes[j].types.dom().contains(name),
    ensures
        lookup_type(scopes, name) == lookup_type(scopes.take(upto), name),
    decreases scopes.len() - upto,
{
    if upto == scopes.len() {
        assert(scopes.take(upto) =~= scopes);
    } else {
        assert(scopes.drop_last().take(upto) =~= scopes.take(upto));
        lemma_lookup_type_skip(scopes.drop_last(), name, upto);
    }
}

proof fn lemma_lookup_function_skip(scopes: Seq<TypeScopeView>, name: Seq<char>, upto: int)
    requires
        0 <= upto <= scopes.len(),
        forall|j: int| upto <= j < scopes.len() ==> !scopes[j].functions.dom().contains(name),
    ensures
        lookup_function(scopes, name) == lookup_function(scopes.take(upto), name),
    decreases scopes.len() - upto,
{
    if upto == scopes.len() {
        assert(scopes.take(upto) =~= scopes);
    } else {
        assert(scopes.drop_last().take(upto) =~= scopes.take(upto));
        lemma_lookup_function_skip(scopes.drop_last(), name, upto);
    }
}

/// Gives the field `name` the type `t`: in the place where the name stands, or
/// at the end where it is new.
fn insert_field_type(fields: &mut Vec<(String, DefinedType)>, name: String, t: DefinedType)
    ensures
        field_type_views(final(fields)@, final(fields)@.len() as int) == put_field_type(
            field_type_views(old(fields)@, old(fields)@.len() as int),
            name@,
            t@,
        ),
{
    let ghost before = fields@;
    let ghost views = field_type_views(before, before.len() as int);
    proof {
        lemma_field_type_views(before, before.len() as int);
    }
    let mut i: usize = 0;
    while i < fields.len()
        invariant
            i <= fields.len(),
            fields@ == before,
            before == old(fields)@,
            views == field_type_views(before, before.len() as int),
            views.len() == before.len(),
            forall|j: int|
                0 <= j < before.len() ==> views[j] == (before[j].0@, type_view(before[j].1)),
            field_type_position(views, name@, 0) == field_type_position(views, name@, i as int),
        decreases fields.len() - i,
    {
        if fields[i].0 == name {
            let ghost field = (name, t);
            fields.set(i, (name, t));
            proof {
                assert(fields@ =~= before.update(i as int, field));
                lemma_field_type_views(fields@, fields@.len() as int);
                assert(field_type_position(views, field.0@, i as int) == Some(i as int));
                assert(field_type_views(fields@, fields@.len() as int) =~= views.update(
                    i as int,
                    (field.0@, field.1@),
                ));
            }
            return;
        }
        i = i + 1;
    }
    let ghost field = (name, t);
    fields.push((name, t));
    proof {
        lemma_field_type_views(fields@, fields@.len() as int);
        assert(field_type_views(fields@, fields@.len() as int) =~= views.push(
            (field.0@, field.1@),
        ));
    }
}

/// The type at the end of the path `path[from..]` that starts in a value of
/// type `current`.
fn typecheck_path(current: &DefinedType, path: &Vec<String>, from: usize) -> (r: Result<
    DefinedType,
    TypecheckerError,
>)
    requires
        from <= path.len(),
    ensures
        match r {
            Ok(t) => path_type(current@, path@, from as int) == Ok::<_, TypeErrorView>(t@),
            Err(e) => path_type(current@, path@, from as int) == Err::<DefinedTypeView, _>(e@),
        },
    decreases path.len() - from,
{
    if from >= path.len() {
        return Ok(current.duplicate());
    }
    match current {
        DefinedType::Object { fields } => {
            let ghost views = field_type_views(fields@, fields@.len() as int);
            proof {
                lemma_field_type_views(fields@, fields@.len() as int);
            }
            let mut i: usize = 0;
            while i < fields.len()
                invariant
                    i <= fields.len(),
                    from < path.len(),
                    views == field_type_views(fields@, fields@.len() as int),
                    views.len() == fields.len(),
                    forall|j: int|
                        0 <= j < fields.len() ==> views[j] == (
                            fields@[j].0@,
                            type_view(fields@[j].1),
                        ),
                    field_type_position(views, path@[from as int]@, 0) == field_type_position(
                        views,
                        path@[from as int]@,
                        i as int,
                    ),
                    current@ == (DefinedTypeView::Object { fields: views }),
                decreases fields.len() - i,
            {
                if fields[i].0 == path[from] {
                    return typecheck_path(&fields[i].1, path, from + 1);
                }
                i = i + 1;
            }
            Err(not_found(path[from].as_str(), "field"))
        },
        _ => Err(TypecheckerError::UnexpectedType { got: current.describe() }),
    }
}

impl Typechecker {
    /// A typechecker that knows the standard library and nothing else.
    pub fn new() -> (checker: Self)
        ensures
            checker@ == initial_scopes(),
    {
        let mut initial_scope = TypecheckerScope::new();
        initial_scope.define_function_return("print".to_owned(), DefinedType::Nil);
        let mut scope_stack = Vec::new();
        scope_stack.push(initial_scope);
        let checker = Typechecker { scope_stack };
        assert(checker@ =~= initial_scopes());
        checker
    }

    fn add_scope(&mut self)
        ensures
            final(self)@ == enter_scope(old(self)@),
    {
        self.scope_stack.push(TypecheckerScope::new());
        assert(self@ =~= enter_scope(old(self)@));
    }

    fn remove_scope(&mut self)
        requires
            old(self)@.len() > 0,
        ensures
            final(self)@ == old(self)@.drop_last(),
    {
        self.scope_stack.pop();
        assert(self@ =~= old(self)@.drop_last());
    }

    fn define_function_return_current_scope(&mut self, name: String, defined: DefinedType)
        requires
            old(self)@.len() > 0,
        ensures
            final(self)@ == define_function(old(self)@, name@, defined@),
    {
        let mut scope = self.scope_stack.pop().unwrap();
        let ghost innermost = scope@;
        scope.define_function_return(name, defined);
        self.scope_stack.push(scope);
        assert(scope@ == TypeScopeView {
            functions: innermost.functions.insert(name@, defined@),
            ..innermost
        });
        assert(self@ =~= define_function(old(self)@, name@, defined@));
    }

    fn define_type_current_scope(&mut self, name: String, defined: DefinedType)
        requires
            old(self)@.len() > 0,
        ensures
            final(self)@ == define_type(old(self)@, name@, defined@),
    {
        let mut scope = self.scope_stack.pop().unwrap();
        let ghost innermost = scope@;
        scope.define(name, defined);
        self.scope_stack.push(scope);
        assert(scope@ == TypeScopeView {
            types: innermost.types.insert(name@, defined@),
            ..innermost
        });
        assert(self@ =~= define_type(old(self)@, name@, defined@));
    }

    fn resolve_function_return_type(&self, name: &str) -> (found: Option<&DefinedType>)
        ensures
            match found {
                Some(t) => lookup_function(self@, name@) == Some(t@),
                None => lookup_function(self@, name@) is None,
            },
    {
        let mut i: usize = self.scope_stack.len();
        while i > 0
            invariant
                i <= self.scope_stack.len(),
                forall|j: int|
                    i <= j < self.scope_stack.len() ==> !self@[j].functions.dom().contains(name@),
            decreases i,
        {
            i = i - 1;
            match self.scope_stack[i].get_function_return_for(name) {
                Some(t) => {
                    proof {
                        lemma_lookup_function_skip(self@, name@, i + 1);
                        assert(self@.take(i + 1).last() == self@[i as int]);
                    }
                    return Some(t);
                },
                None => {},
            }
        }
        proof {
            lemma_lookup_function_skip(self@, name@, 0);
        }
        None
    }

    fn resolve_type(&self, name: &str) -> (found: Option<&DefinedType>)
        ensures
            match found {
                Some(t) => lookup_type(self@, name@) == Some(t@),
                None => lookup_type(self@, name@) is None,
            },
    {
        let mut i: usize = self.scope_stack.len();
        while i > 0
            invariant
                i <= self.scope_stack.len(),
                forall|j: int|
                    i <= j < self.scope_stack.len() ==> !self@[j].types.dom().contains(name@),
            decreases i,
        {
            i = i - 1;
            match self.scope_stack[i].get_type_for(name) {
                Some(t) => {
                    proof {
                        lemma_lookup_type_skip(self@, name@, i + 1);
                        assert(self@.take(i + 1).last() == self@[i as int]);
                    }
                    return Some(t);
                },
                None => {},
            }
        }
        proof {
            lemma_lookup_type_skip(self@, name@, 0);
        }
        None
    }

    fn typecheck_fields(&self, fields: &Vec<(String, Expression)>) -> (r: Result<
        Vec<(String, DefinedType)>,
        TypecheckerError,
    >)
        ensures
            match r {
                Ok(typed) => check_fields(self@, fields@, 0, Seq::empty()) == Ok::<
                    _,
                    TypeErrorView,
                >(field_type_views(typed@, typed@.len() as int)),
                Err(e) => check_fields(self@, fields@, 0, Seq::empty()) == Err::<
                    Seq<(Seq<char>, DefinedTypeView)>,
                    _,
                >(e@),
            },
        decreases fields,
    {
        let mut typed: Vec<(String, DefinedType)> = Vec::new();
        let mut i: usize = 0;
        while i < fields.len()
            invariant
                i <= fields.len(),
                check_fields(self@, fields@, 0, Seq::empty()) == check_fields(
                    self@,
                    fields@,
                    i as int,
                    field_type_views(typed@, typed@.len() as int),
                ),
            decreases fields.len() - i,
        {
            let t = self.typecheck_expression(&fields[i].1)?;
            insert_field_type(&mut typed, fields[i].0.clone(), t);
            i = i + 1;
        }
        Ok(typed)
    }

    fn typecheck_elements(&self, elements: &Vec<Expression>) -> (r: Result<
        Vec<DefinedType>,
        TypecheckerError,
    >)
        ensures
            match r {
                Ok(types) => check_elements(self@, elements@, 0) == Ok::<_, TypeErrorView>(
                    type_views(types@),
                ),
                Err(e) => check_elements(self@, elements@, 0) == Err::<Seq<DefinedTypeView>, _>(
                    e@,
                ),
            },
        decreases elements,
    {
        let mut types: Vec<DefinedType> = Vec::new();
        let mut i: usize = 0;
        while i < elements.len()
            invariant
                i <= elements.len(),
                match check_elements(self@, elements@, i as int) {
                    Ok(rest) => check_elements(self@, elements@, 0) == Ok::<_, TypeErrorView>(
                        type_views(types@) + rest,
                    ),
                    Err(e) => check_elements(self@, elements@, 0) == Err::<
                        Seq<DefinedTypeView>,
                        _,
                    >(e),
                },
            decreases elements.len() - i,
        {
            let ghost collected = type_views(types@);
            let t = self.typecheck_expression(&elements[i])?;
            types.push(t);
            i = i + 1;
            proof {
                assert(type_views(types@) =~= collected.push(t@));
                match check_elements(self@, elements@, i as int) {
                    Ok(rest) => {
                        assert(collected + (seq![t@] + rest) =~= type_views(types@) + rest);
                    },
                    Err(e) => {},
                }
            }
        }
        assert(type_views(types@) + Seq::<DefinedTypeView>::empty() =~= type_views(types@));
        Ok(types)
    }

    /// The type of an expression under the names that are defined.
    pub fn typecheck_expression(&self, expr: &Expression) -> (r: Result<
        DefinedType,
        TypecheckerError,
    >)
        ensures
            match r {
                Ok(t) => check_expression(self@, *expr) == Ok::<_, TypeErrorView>(t@),
                Err(e) => check_expression(self@, *expr) == Err::<DefinedTypeView, _>(e@),
            },
        decreases expr,
    {
        match expr {
            Expression::Prefix { op, expr } => {
                let operand = self.typecheck_expression(expr)?;
                typecheck_prefix(*op, operand)
            },
            Expression::Infix { op, lhs, rhs } => {
                let lhs = self.typecheck_expression(lhs)?;
                let rhs = self.typecheck_expression(rhs)?;
                typecheck_infix(*op, lhs, rhs)
            },
            Expression::Literal(literal) => Ok(
                match literal {
                    Literal::String(_) => DefinedType::String,
                    Literal::Float(_) => DefinedType::F64,
                    Literal::Integer(_) => DefinedType::I64,
                    Literal::Boolean(_) => DefinedType::Bool,
                },
            ),
            Expression::Variable(name) => match self.resolve_type(name.as_str()) {
                Some(t) => Ok(t.duplicate()),
                None => Err(not_found(name.as_str(), "variable")),
            },
            Expression::FunctionCall { name, .. } => match self.resolve_function_return_type(
                name.as_str(),
            ) {
                Some(t) => Ok(t.duplicate()),
                None => Err(not_found(name.as_str(), "function")),
            },
            Expression::Object { fields } => {
                let typed = self.typecheck_fields(fields)?;
                Ok(DefinedType::Object { fields: typed })
            },
            Expression::Array { this } => {
                let types = self.typecheck_elements(this)?;
                match all_equal_value(&types) {
                    Err(None) => {
                        let empty = DefinedType::Array(Box::new(DefinedType::Nil));
                        assert(type_view(DefinedType::Nil) == DefinedTypeView::Nil);
                        assert(empty@ == DefinedTypeView::Array(Box::new(DefinedTypeView::Nil)));
                        Ok(empty)
                    },
                    Ok(t) => {
                        let array = DefinedType::Array(Box::new(t.duplicate()));
                        assert(array@ == DefinedTypeView::Array(Box::new(t@)));
                        Ok(array)
                    },
                    Err(Some((first, other))) => Err(mismatch(first.describe(), other)),
                }
            },
            Expression::ObjectAccess { path } => {
                if path.len() == 0 {
                    let empty = String::new();
                    return Err(not_found(empty.as_str(), "variable"));
                }
                match self.resolve_type(path[0].as_str()) {
                    None => Err(not_found(path[0].as_str(), "variable")),
                    Some(base) => typecheck_path(base, path, 1),
                }
            },
            Expression::ArrayAccess { name, index } => match self.resolve_type(name.as_str()) {
                None => Err(not_found(name.as_str(), "variable")),
                Some(found) => match found {
                    DefinedType::Array(element) => {
                        assert(found@ == DefinedTypeView::Array(Box::new((**element)@)));
                        let position = self.typecheck_expression(index)?;
                        if is_integer(&position) {
                            Ok(element.duplicate())
                        } else {
                            Err(mismatch(DefinedType::I64.describe(), &position))
                        }
                    },
                    other => Err(TypecheckerError::UnexpectedType { got: other.describe() }),
                },
            },
        }
    }

    fn typecheck_let(&mut self, name: &String, value: &Expression, type_annotation: &Option<String>) -> (r:
        Result<(), TypecheckerError>)
        requires
            old(self)@.len() > 0,
        ensures
            final(self)@.len() > 0,
            match r {
                Ok(_) => check_let(old(self)@, name@, *value, *type_annotation) == Ok::<
                    _,
                    TypeErrorView,
                >(final(self)@) && final(self)@.len() == old(self)@.len(),
                Err(e) => check_let(old(self)@, name@, *value, *type_annotation) == Err::<
                    Seq<TypeScopeView>,
                    _,
                >(e@),
            },
    {
        let expression_type = self.typecheck_expression(value)?;
        match type_annotation {
            None => {
                self.define_type_current_scope(name.clone(), expression_type);
            },
            Some(annotation) => {
                let defined_type = type_from_name(annotation.as_str())?;
                if defined_type.same(&expression_type) {
                    self.define_type_current_scope(name.clone(), defined_type);
                } else {
                    return Err(mismatch(annotation.clone(), &expression_type));
                }
            },
        }
        Ok(())
    }

    fn typecheck_reassignment(&self, name: &str, value: &Expression) -> (r: Result<
        (),
        TypecheckerError,
    >)
        ensures
            match r {
                Ok(_) => check_reassignment(self@, name@, *value) == Ok::<_, TypeErrorView>(self@),
                Err(e) => check_reassignment(self@, name@, *value) == Err::<
                    Seq<TypeScopeView>,
                    _,
                >(e@),
            },
    {
        let existing_var_type = match self.resolve_type(name) {
            Some(t) => t,
            None => {
                return Err(not_found(name, "variable"));
            },
        };
        let new_var_type = self.typecheck_expression(value)?;
        if existing_var_type.same(&new_var_type) {
            Ok(())
        } else {
            Err(mismatch(existing_var_type.describe(), &new_var_type))
        }
    }

    fn typecheck_object_mutation(&self, path: &Expression, value: &Expression) -> (r: Result<
        (),
        TypecheckerError,
    >)
        ensures
            match r {
                Ok(_) => check_object_mutation(self@, *path, *value) == Ok::<_, TypeErrorView>(
                    self@,
                ),
                Err(e) => check_object_mutation(self@, *path, *value) == Err::<
                    Seq<TypeScopeView>,
                    _,
                >(e@),
            },
    {
        let path_type = self.typecheck_expression(path)?;
        let value_type = self.typecheck_expression(value)?;
        if path_type.same(&value_type) {
            Ok(())
        } else {
            Err(mismatch(path_type.describe(), &value_type))
        }
    }

    fn typecheck_statements(&mut self, statements: &Vec<Statement>) -> (r: Result<
        (),
        TypecheckerError,
    >)
        requires
            old(self)@.len() > 0,
        ensures
            final(self)@.len() > 0,
            match r {
                Ok(_) => check_statements(old(self)@, statements@, 0) == Ok::<_, TypeErrorView>(
                    final(self)@,
                ) && final(self)@.len() == old(self)@.len(),
                Err(e) => check_statements(old(self)@, statements@, 0) == Err::<
                    Seq<TypeScopeView>,
                    _,
                >(e@),
            },
        decreases statements_height(statements@, 0), 0nat,
    {
        let ghost start = self@;
        let mut i: usize = 0;
        while i < statements.len()
            invariant
                i <= statements.len(),
                start == old(self)@,
                self@.len() == start.len(),
                self@.len() > 0,
                check_statements(start, statements@, 0) == check_statements(
                    self@,
                    statements@,
                    i as int,
                ),
            decreases statements.len() - i,
        {
            proof {
                lemma_height_from(statements@, i as int);
            }
            self.typecheck_statement(&statements[i])?;
            i = i + 1;
        }
        Ok(())
    }

    fn typecheck_block(&mut self, body: &Vec<Statement>) -> (r: Result<(), TypecheckerError>)
        requires
            old(self)@.len() > 0,
        ensures
            final(self)@.len() > 0,
            match r {
                Ok(_) => check_block(old(self)@, body@) == Ok::<_, TypeErrorView>(final(self)@)
                    && final(self)@.len() == old(self)@.len(),
                Err(e) => check_block(old(self)@, body@) == Err::<Seq<TypeScopeView>, _>(e@),
            },
        decreases statements_height(body@, 0), 1nat,
    {
        self.add_scope();
        self.typecheck_statements(body)?;
        self.remove_scope();
        Ok(())
    }

    fn typecheck_else(&mut self, else_statement: &Option<Box<Statement>>) -> (r: Result<
        (),
        TypecheckerError,
    >)
        requires
            old(self)@.len() > 0,
        ensures
            final(self)@.len() > 0,
            match r {
                Ok(_) => check_else(old(self)@, *else_statement) == Ok::<_, TypeErrorView>(
                    final(self)@,
                ) && final(self)@.len() == old(self)@.len(),
                Err(e) => check_else(old(self)@, *else_statement) == Err::<
                    Seq<TypeScopeView>,
                    _,
                >(e@),
            },
        decreases else_height(*else_statement), 2nat,
    {
        match else_statement {
            Some(otherwise) => self.typecheck_statement(otherwise),
            None => Ok(()),
        }
    }

    fn typecheck_if(
        &mut self,
        condition: &Expression,
        body: &Statement,
        else_statement: &Option<Box<Statement>>,
    ) -> (r: Result<(), TypecheckerError>)
        requires
            old(self)@.len() > 0,
        ensures
            final(self)@.len() > 0,
            match r {
                Ok(_) => check_if(old(self)@, *condition, *body, *else_statement) == Ok::<
                    _,
                    TypeErrorView,
                >(final(self)@) && final(self)@.len() == old(self)@.len(),
                Err(e) => check_if(old(self)@, *condition, *body, *else_statement) == Err::<
                    Seq<TypeScopeView>,
                    _,
                >(e@),
            },
        decreases statement_height(*body) + else_height(*else_statement) + 1, 0nat,
    {
        let t = self.typecheck_expression(condition)?;
        if !is_bool(&t) {
            return Err(mismatch("bool".to_owned(), &t));
        }
        self.typecheck_statement(body)?;
        self.typecheck_else(else_statement)
    }

    fn define_parameters(&mut self, parameters: &Vec<FunctionParameter>) -> (r: Result<
        (),
        TypecheckerError,
    >)
        requires
            old(self)@.len() > 0,
        ensures
            final(self)@.len() == old(self)@.len(),
            match r {
                Ok(_) => define_parameters(old(self)@, parameters@, 0) == Ok::<_, TypeErrorView>(
                    final(self)@,
                ),
                Err(e) => define_parameters(old(self)@, parameters@, 0) == Err::<
                    Seq<TypeScopeView>,
                    _,
                >(e@),
            },
    {
        let ghost start = self@;
        let mut i: usize = 0;
        while i < parameters.len()
            invariant
                i <= parameters.len(),
                start == old(self)@,
                self@.len() == start.len(),
                self@.len() > 0,
                define_parameters(start, parameters@, 0) == define_parameters(
                    self@,
                    parameters@,
                    i as int,
                ),
            decreases parameters.len() - i,
        {
            let t = type_from_name(parameters[i].type_annotation.as_str())?;
            self.define_type_current_scope(parameters[i].name.clone(), t);
            i = i + 1;
        }
        Ok(())
    }

    fn typecheck_returns(&self, returned: &Vec<&Expression>) -> (r: Result<
        Vec<DefinedType>,
        TypecheckerError,
    >)
        ensures
            match r {
                Ok(types) => check_all(self@, referents(returned@), 0) == Ok::<_, TypeErrorView>(
                    type_views(types@),
                ),
                Err(e) => check_all(self@, referents(returned@), 0) == Err::<
                    Seq<DefinedTypeView>,
                    _,
                >(e@),
            },
    {
        let mut types: Vec<DefinedType> = Vec::new();
        let mut i: usize = 0;
        while i < returned.len()
            invariant
                i <= returned.len(),
                match check_all(self@, referents(returned@), i as int) {
                    Ok(rest) => check_all(self@, referents(returned@), 0) == Ok::<
                        _,
                        TypeErrorView,
                    >(type_views(types@) + rest),
                    Err(e) => check_all(self@, referents(returned@), 0) == Err::<
                        Seq<DefinedTypeView>,
                        _,
                    >(e),
                },
            decreases returned.len() - i,
        {
            let ghost collected = type_views(types@);
            let t = self.typecheck_expression(returned[i])?;
            types.push(t);
            i = i + 1;
            proof {
                assert(type_views(types@) =~= collected.push(t@));
                match check_all(self@, referents(returned@), i as int) {
                    Ok(rest) => {
                        assert(collected + (seq![t@] + rest) =~= type_views(types@) + rest);
                    },
                    Err(e) => {},
                }
            }
        }
        assert(type_views(types@) + Seq::<DefinedTypeView>::empty() =~= type_views(types@));
        Ok(types)
    }

    fn typecheck_function(&mut self, function: &Function) -> (r: Result<(), TypecheckerError>)
        requires
            old(self)@.len() > 0,
        ensures
            final(self)@.len() > 0,
            match r {
                Ok(_) => check_function(old(self)@, *function) == Ok::<_, TypeErrorView>(
                    final(self)@,
                ) && final(self)@.len() == old(self)@.len(),
                Err(e) => check_function(old(self)@, *function) == Err::<
                    Seq<TypeScopeView>,
                    _,
                >(e@),
            },
        decreases statement_height(*function.body), 1nat,
    {
        let statements = match &*function.body {
            Statement::Block { body } => body,
            _ => {
                return Err(not_found(function.name.as_str(), "function body"));
            },
        };
        self.define_parameters(&function.parameters)?;
        self.typecheck_statements(statements)?;
        let mut return_statements: Vec<&Expression> = Vec::new();
        recursively_find_all_return(statements, &mut return_statements);
        assert(referents(return_statements@) =~= returns_of(statements@, 0));
        let return_types = self.typecheck_returns(&return_statements)?;
        let function_type = match all_equal_value(&return_types) {
            Ok(inferred_type) => match &function.return_type_name {
                Some(declared) => {
                    let func_ret_type = type_from_name(declared.as_str())?;
                    if func_ret_type.same(inferred_type) {
                        func_ret_type
                    } else {
                        return Err(mismatch(func_ret_type.describe(), inferred_type));
                    }
                },
                None => inferred_type.duplicate(),
            },
            Err(None) => DefinedType::Nil,
            Err(Some((mismatch1, mismatch2))) => {
                return Err(
                    TypecheckerError::TypeMismatchBothWrong {
                        mismatch1: mismatch1.describe(),
                        mismatch2: mismatch2.describe(),
                    },
                );
            },
        };
        self.define_function_return_current_scope(function.name.clone(), function_type);
        Ok(())
    }

    /// Checks one statement; what it defines is known afterwards.
    pub fn typecheck_statement(&mut self, statement: &Statement) -> (r: Result<
        (),
        TypecheckerError,
    >)
        requires
            old(self)@.len() > 0,
        ensures
            final(self)@.len() > 0,
            match r {
                Ok(_) => check_statement(old(self)@, *statement) == Ok::<_, TypeErrorView>(
                    final(self)@,
                ) && final(self)@.len() == old(self)@.len(),
                Err(e) => check_statement(old(self)@, *statement) == Err::<
                    Seq<TypeScopeView>,
                    _,
                >(e@),
            },
        decreases statement_height(*statement), 1nat,
    {
        match statement {
            Statement::Const { name, value, type_annotation } => self.typecheck_let(
                name,
                value,
                type_annotation,
            ),
            Statement::Let { name, value, type_annotation, .. } => self.typecheck_let(
                name,
                value,
                type_annotation,
            ),
            Statement::Block { body } => self.typecheck_block(body),
            Statement::Reassignment { name, value } => self.typecheck_reassignment(
                name.as_str(),
                value,
            ),
            Statement::ObjectMutation { path, value } => self.typecheck_object_mutation(
                path,
                value,
            ),
            Statement::If { condition, body, else_statement } => self.typecheck_if(
                condition,
                body,
                else_statement,
            ),
            Statement::Loop { body } => self.typecheck_statement(body),
            Statement::Function(function) => self.typecheck_function(function),
            Statement::Expression(expression) => {
                self.typecheck_expression(expression)?;
                Ok(())
            },
            Statement::Return(expression) => {
                self.typecheck_expression(expression)?;
                Ok(())
            },
            Statement::Break => Ok(()),
        }
    }

    /// Checks a program: `Ok` where it is well typed, else the first error.
    pub fn check(self, statements: &Vec<Statement>) -> (r: Result<(), TypecheckerError>)
        requires
            self@.len() > 0,
        ensures
            match r {
                Ok(_) => check_statements(self@, statements@, 0) is Ok,
                Err(e) => check_statements(self@, statements@, 0) == Err::<
                    Seq<TypeScopeView>,
                    _,
                >(e@),
            },
    {
        let mut checker = self;
        checker.typecheck_statements(statements)
    }
}

/// Checks a program with a new typechecker: `Ok` where it is well typed, else
/// the first error.
pub fn check_program_types(statements: &Vec<Statement>) -> (r: Result<(), TypecheckerError>)
    ensures
        match r {
            Ok(_) => check_program(statements@) == Ok::<_, TypeErrorView>(()),
            Err(e) => check_program(statements@) == Err::<(), _>(e@),
        },
{
    Typechecker::new().check(statements)
}

} // verus!
