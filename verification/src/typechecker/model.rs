//! What typechecking means, as mathematics: each construct has a type, or an
//! error, under the names that are defined where it stands.

use crate::ast::{Expression, Function, FunctionParameter, Operator, Statement};
use crate::compiler::model::{else_height, statement_height, statements_height};
use crate::typechecker::types::{type_text, DefinedTypeView, TypeScopeView};
use crate::types::LiteralView;
use vstd::prelude::*;

verus! {

/// Why a program is ill-typed.
pub enum TypeErrorView {
    /// The program could not be parsed in the first place.
    Parser,
    /// A construct has type `got` where `expected` is called for.
    TypeMismatch { expected: Seq<char>, got: Seq<char> },
    /// The operands of an operator have the types `got` where `expected` is
    /// called for.
    TypeMismatchMulti { expected: Seq<char>, got: Seq<Seq<char>> },
    /// Two `return`s of one function give different types.
    TypeMismatchBothWrong { mismatch1: Seq<char>, mismatch2: Seq<char> },
    /// A type has no place here, or a name is not that of a type.
    UnexpectedType { got: Seq<char> },
    /// Nothing of kind `what` is called `val`.
    NotFound { val: Seq<char>, what: Seq<char> },
}

/// The scopes before anything is checked: one scope, which knows the function
/// `print` of the standard library.
pub open spec fn initial_scopes() -> Seq<TypeScopeView> {
    seq![
        TypeScopeView {
            types: Map::empty(),
            functions: Map::empty().insert("print"@, DefinedTypeView::Nil),
        },
    ]
}

/// The type of a variable: that of the innermost scope that defines it.
pub open spec fn lookup_type(scopes: Seq<TypeScopeView>, name: Seq<char>) -> Option<
    DefinedTypeView,
>
    decreases scopes.len(),
{
    if scopes.len() == 0 {
        None
    } else if scopes.last().types.dom().contains(name) {
        Some(scopes.last().types[name])
    } else {
        lookup_type(scopes.drop_last(), name)
    }
}

/// The return type of a function: that of the innermost scope that defines
/// it.
pub open spec fn lookup_function(scopes: Seq<TypeScopeView>, name: Seq<char>) -> Option<
    DefinedTypeView,
>
    decreases scopes.len(),
{
    if scopes.len() == 0 {
        None
    } else if scopes.last().functions.dom().contains(name) {
        Some(scopes.last().functions[name])
    } else {
        lookup_function(scopes.drop_last(), name)
    }
}

/// The scopes with a variable defined in the innermost.
pub open spec fn define_type(scopes: Seq<TypeScopeView>, name: Seq<char>, t: DefinedTypeView) -> Seq<
    TypeScopeView,
> {
    scopes.update(
        scopes.len() - 1,
        TypeScopeView { types: scopes.last().types.insert(name, t), ..scopes.last() },
    )
}

/// The scopes with a function defined in the innermost.
pub open spec fn define_function(
    scopes: Seq<TypeScopeView>,
    name: Seq<char>,
    t: DefinedTypeView,
) -> Seq<TypeScopeView> {
    scopes.update(
        scopes.len() - 1,
        TypeScopeView { functions: scopes.last().functions.insert(name, t), ..scopes.last() },
    )
}

/// The scopes with a new, empty scope as the innermost.
pub open spec fn enter_scope(scopes: Seq<TypeScopeView>) -> Seq<TypeScopeView> {
    scopes.push(TypeScopeView { types: Map::empty(), functions: Map::empty() })
}

/// The type that a name in a type annotation stands for.
pub open spec fn named_type(name: Seq<char>) -> Result<DefinedTypeView, TypeErrorView> {
    if name == "int"@ {
        Ok(DefinedTypeView::I64)
    } else if name == "float"@ {
        Ok(DefinedTypeView::F64)
    } else if name == "bool"@ {
        Ok(DefinedTypeView::Bool)
    } else if name == "string"@ {
        Ok(DefinedTypeView::String)
    } else {
        Err(TypeErrorView::UnexpectedType { got: name })
    }
}

/// The type of a constant.
pub open spec fn literal_type(literal: LiteralView) -> DefinedTypeView {
    match literal {
        LiteralView::String(_) => DefinedTypeView::String,
        LiteralView::Float(_) => DefinedTypeView::F64,
        LiteralView::Integer(_) => DefinedTypeView::I64,
        LiteralView::Boolean(_) => DefinedTypeView::Bool,
    }
}

/// The error for a construct of type `got` where `expected` is called for.
pub open spec fn mismatch<T>(expected: Seq<char>, got: DefinedTypeView) -> Result<T, TypeErrorView> {
    Err(TypeErrorView::TypeMismatch { expected, got: type_text(got) })
}

/// The error for operands that are not both numbers.
pub open spec fn not_numeric<T>(lhs: DefinedTypeView, rhs: DefinedTypeView) -> Result<
    T,
    TypeErrorView,
> {
    Err(
        TypeErrorView::TypeMismatchMulti {
            expected: "numeric"@,
            got: seq![type_text(lhs), type_text(rhs)],
        },
    )
}

/// The error for a name that nothing of kind `what` has.
pub open spec fn not_found<T>(val: Seq<char>, what: Seq<char>) -> Result<T, TypeErrorView> {
    Err(TypeErrorView::NotFound { val, what })
}

/// The type of a prefix operator on an operand of type `operand`.
pub open spec fn prefix_type(op: Operator, operand: DefinedTypeView) -> Result<
    DefinedTypeView,
    TypeErrorView,
> {
    match op {
        Operator::Plus | Operator::Minus => if operand.is_numeric() {
            Ok(operand)
        } else {
            mismatch("numeric"@, operand)
        },
        Operator::Not => if operand == DefinedTypeView::Bool {
            Ok(operand)
        } else {
            mismatch("bool"@, operand)
        },
        _ => Err(TypeErrorView::UnexpectedType { got: type_text(operand) }),
    }
}

/// The type of an infix operator on operands of the types `lhs` and `rhs`:
/// arithmetic on two integers gives an integer and on numbers of which one is
/// a float a float; the order comparisons take numbers and equality takes two
/// operands of one type, and both give a boolean.
pub open spec fn infix_type(op: Operator, lhs: DefinedTypeView, rhs: DefinedTypeView) -> Result<
    DefinedTypeView,
    TypeErrorView,
> {
    match op {
        Operator::Plus | Operator::Minus | Operator::Multiply | Operator::Divide => if lhs.is_numeric()
            && rhs.is_numeric() {
            if lhs is I64 && rhs is I64 {
                Ok(DefinedTypeView::I64)
            } else {
                Ok(DefinedTypeView::F64)
            }
        } else {
            not_numeric(lhs, rhs)
        },
        Operator::GreaterThan
        | Operator::GreaterThanOrEqual
        | Operator::LessThan
        | Operator::LessThanOrEqual => if lhs.is_numeric() && rhs.is_numeric() {
            Ok(DefinedTypeView::Bool)
        } else {
            not_numeric(lhs, rhs)
        },
        Operator::Equal | Operator::NotEqual => if lhs == rhs {
            Ok(DefinedTypeView::Bool)
        } else {
            mismatch(type_text(lhs), rhs)
        },
        Operator::Not => Err(TypeErrorView::UnexpectedType { got: type_text(lhs) }),
    }
}

/// The first position at or after `from` of the field called `name`.
pub open spec fn field_type_position(
    fields: Seq<(Seq<char>, DefinedTypeView)>,
    name: Seq<char>,
    from: int,
) -> Option<int>
    decreases fields.len() - from,
{
    if from < 0 || from >= fields.len() {
        None
    } else if fields[from].0 == name {
        Some(from)
    } else {
        field_type_position(fields, name, from + 1)
    }
}

/// The fields of an object type after `name` was given the type `t`: a name
/// that is there keeps its place, a new name goes to the end.
pub open spec fn put_field_type(
    fields: Seq<(Seq<char>, DefinedTypeView)>,
    name: Seq<char>,
    t: DefinedTypeView,
) -> Seq<(Seq<char>, DefinedTypeView)> {
    match field_type_position(fields, name, 0) {
        Some(at) => fields.update(at, (name, t)),
        None => fields.push((name, t)),
    }
}

/// The type at the end of the path `path[from..]` that starts in a value of
/// type `current`: each name is that of a field of the object before it.
pub open spec fn path_type(current: DefinedTypeView, path: Seq<String>, from: int) -> Result<
    DefinedTypeView,
    TypeErrorView,
>
    decreases path.len() - from,
{
    if from < 0 || from >= path.len() {
        Ok(current)
    } else {
        match current {
            DefinedTypeView::Object { fields } => match field_type_position(
                fields,
                path[from]@,
                0,
            ) {
                Some(at) => path_type(fields[at].1, path, from + 1),
                None => not_found(path[from]@, "field"@),
            },
            _ => Err(TypeErrorView::UnexpectedType { got: type_text(current) }),
        }
    }
}

/// How the types of a list agree.
pub enum Agreement {
    /// There are types, and they are all this one.
    AllEqual(DefinedTypeView),
    /// There is no type in the list.
    Empty,
    /// The first type of the list, and the first that differs from it.
    Differ(DefinedTypeView, DefinedTypeView),
}

/// The first position at or after `from` of a type that differs from the
/// first of the list.
pub open spec fn first_difference(types: Seq<DefinedTypeView>, from: int) -> Option<int>
    decreases types.len() - from,
{
    if from < 0 || from >= types.len() {
        None
    } else if types[from] != types[0] {
        Some(from)
    } else {
        first_difference(types, from + 1)
    }
}

/// How the types of a list agree.
pub open spec fn agreement(types: Seq<DefinedTypeView>) -> Agreement {
    if types.len() == 0 {
        Agreement::Empty
    } else {
        match first_difference(types, 0) {
            Some(at) => Agreement::Differ(types[0], types[at]),
            None => Agreement::AllEqual(types[0]),
        }
    }
}

/// The type of an expression.
pub open spec fn check_expression(scopes: Seq<TypeScopeView>, e: Expression) -> Result<
    DefinedTypeView,
    TypeErrorView,
>
    decreases e, 0nat,
{
    match e {
        Expression::Prefix { op, expr } => match check_expression(scopes, *expr) {
            Err(error) => Err(error),
            Ok(operand) => prefix_type(op, operand),
        },
        Expression::Infix { op, lhs, rhs } => match check_expression(scopes, *lhs) {
            Err(error) => Err(error),
            Ok(left) => match check_expression(scopes, *rhs) {
                Err(error) => Err(error),
                Ok(right) => infix_type(op, left, right),
            },
        },
        Expression::Literal(literal) => Ok(literal_type(literal@)),
        Expression::Variable(name) => match lookup_type(scopes, name@) {
            Some(t) => Ok(t),
            None => not_found(name@, "variable"@),
        },
        Expression::FunctionCall { name, .. } => match lookup_function(scopes, name@) {
            Some(t) => Ok(t),
            None => not_found(name@, "function"@),
        },
        Expression::Object { fields } => match check_fields(scopes, fields@, 0, Seq::empty()) {
            Err(error) => Err(error),
            Ok(typed) => Ok(DefinedTypeView::Object { fields: typed }),
        },
        Expression::Array { this } => match check_elements(scopes, this@, 0) {
            Err(error) => Err(error),
            Ok(types) => match agreement(types) {
                Agreement::Empty => Ok(DefinedTypeView::Array(Box::new(DefinedTypeView::Nil))),
                Agreement::AllEqual(t) => Ok(DefinedTypeView::Array(Box::new(t))),
                Agreement::Differ(first, other) => mismatch(type_text(first), other),
            },
        },
        Expression::ObjectAccess { path } => if path@.len() == 0 {
            not_found(Seq::empty(), "variable"@)
        } else {
            match lookup_type(scopes, path@[0]@) {
                None => not_found(path@[0]@, "variable"@),
                Some(base) => path_type(base, path@, 1),
            }
        },
        Expression::ArrayAccess { name, index } => match lookup_type(scopes, name@) {
            None => not_found(name@, "variable"@),
            Some(DefinedTypeView::Array(element)) => match check_expression(scopes, *index) {
                Err(error) => Err(error),
                Ok(position) => if position == DefinedTypeView::I64 {
                    Ok(*element)
                } else {
                    mismatch(type_text(DefinedTypeView::I64), position)
                },
            },
            Some(other) => Err(TypeErrorView::UnexpectedType { got: type_text(other) }),
        },
    }
}

/// The types of the fields `fields[from..]` of an object literal, added to
/// `typed`.
pub open spec fn check_fields(
    scopes: Seq<TypeScopeView>,
    fields: Seq<(String, Expression)>,
    from: int,
    typed: Seq<(Seq<char>, DefinedTypeView)>,
) -> Result<Seq<(Seq<char>, DefinedTypeView)>, TypeErrorView>
    decreases fields, fields.len() - from,
{
    if from < 0 || from >= fields.len() {
        Ok(typed)
    } else {
        match check_expression(scopes, fields[from].1) {
            Err(error) => Err(error),
            Ok(t) => check_fields(
                scopes,
                fields,
                from + 1,
                put_field_type(typed, fields[from].0@, t),
            ),
        }
    }
}

/// The types of the elements `elements[from..]` of an array literal.
pub open spec fn check_elements(scopes: Seq<TypeScopeView>, elements: Seq<Expression>, from: int) -> Result<
    Seq<DefinedTypeView>,
    TypeErrorView,
>
    decreases elements, elements.len() - from,
{
    if from < 0 || from >= elements.len() {
        Ok(Seq::empty())
    } else {
        match check_expression(scopes, elements[from]) {
            Err(error) => Err(error),
            Ok(t) => match check_elements(scopes, elements, from + 1) {
                Err(error) => Err(error),
                Ok(rest) => Ok(seq![t] + rest),
            },
        }
    }
}

/// The expressions that the statement returns, in the order in which they
/// stand, whatever blocks they stand in.
pub open spec fn returns_in(statement: Statement) -> Seq<Expression>
    decreases statement_height(statement), 1nat,
{
    match statement {
        Statement::Return(expression) => seq![expression],
        Statement::If { body, else_statement, .. } => returns_in(*body) + returns_in_else(
            else_statement,
        ),
        Statement::Block { body } => returns_of(body@, 0),
        Statement::Loop { body } => returns_in(*body),
        _ => Seq::empty(),
    }
}

/// The expressions that what follows `else` returns, if anything follows.
pub open spec fn returns_in_else(else_statement: Option<Box<Statement>>) -> Seq<Expression>
    decreases else_height(else_statement), 2nat,
{
    match else_statement {
        Some(otherwise) => returns_in(*otherwise),
        None => Seq::empty(),
    }
}

/// The expressions that the statements `statements[from..]` return.
pub open spec fn returns_of(statements: Seq<Statement>, from: int) -> Seq<Expression>
    decreases statements_height(statements, from), 0nat,
{
    if from < 0 || from >= statements.len() {
        Seq::empty()
    } else {
        returns_in(statements[from]) + returns_of(statements, from + 1)
    }
}

/// The types of the expressions `expressions[from..]`.
pub open spec fn check_all(scopes: Seq<TypeScopeView>, expressions: Seq<Expression>, from: int) -> Result<
    Seq<DefinedTypeView>,
    TypeErrorView,
>
    decreases expressions.len() - from,
{
    if from < 0 || from >= expressions.len() {
        Ok(Seq::empty())
    } else {
        match check_expression(scopes, expressions[from]) {
            Err(error) => Err(error),
            Ok(t) => match check_all(scopes, expressions, from + 1) {
                Err(error) => Err(error),
                Ok(rest) => Ok(seq![t] + rest),
            },
        }
    }
}

/// `let` and `const`: the variable gets the type of its value, which has to be
/// the annotated type where there is an annotation.
pub open spec fn check_let(
    scopes: Seq<TypeScopeView>,
    name: Seq<char>,
    value: Expression,
    type_annotation: Option<String>,
) -> Result<Seq<TypeScopeView>, TypeErrorView> {
    match check_expression(scopes, value) {
        Err(error) => Err(error),
        Ok(t) => match type_annotation {
            None => Ok(define_type(scopes, name, t)),
            Some(annotation) => match named_type(annotation@) {
                Err(error) => Err(error),
                Ok(annotated) => if annotated == t {
                    Ok(define_type(scopes, name, annotated))
                } else {
                    mismatch(annotation@, t)
                },
            },
        },
    }
}

/// The parameters `parameters[from..]`, defined as variables of their types.
pub open spec fn define_parameters(
    scopes: Seq<TypeScopeView>,
    parameters: Seq<FunctionParameter>,
    from: int,
) -> Result<Seq<TypeScopeView>, TypeErrorView>
    decreases parameters.len() - from,
{
    if from < 0 || from >= parameters.len() {
        Ok(scopes)
    } else {
        match named_type(parameters[from].type_annotation@) {
            Err(error) => Err(error),
            Ok(t) => define_parameters(
                define_type(scopes, parameters[from].name@, t),
                parameters,
                from + 1,
            ),
        }
    }
}

/// The return type of a function whose `return`s have the types `returned`:
/// what they agree on, which has to be the declared type where one is
/// declared; nil where the function returns nothing.
pub open spec fn return_type(returned: Seq<DefinedTypeView>, declared: Option<String>) -> Result<
    DefinedTypeView,
    TypeErrorView,
> {
    match agreement(returned) {
        Agreement::AllEqual(inferred) => match declared {
            None => Ok(inferred),
            Some(name) => match named_type(name@) {
                Err(error) => Err(error),
                Ok(t) => if t == inferred {
                    Ok(t)
                } else {
                    mismatch(type_text(t), inferred)
                },
            },
        },
        Agreement::Empty => Ok(DefinedTypeView::Nil),
        Agreement::Differ(first, other) => Err(
            TypeErrorView::TypeMismatchBothWrong {
                mismatch1: type_text(first),
                mismatch2: type_text(other),
            },
        ),
    }
}

/// An assignment to a variable: the variable has to exist, and the value has
/// to have its type.
pub open spec fn check_reassignment(scopes: Seq<TypeScopeView>, name: Seq<char>, value: Expression) -> Result<
    Seq<TypeScopeView>,
    TypeErrorView,
> {
    match lookup_type(scopes, name) {
        None => not_found(name, "variable"@),
        Some(existing) => match check_expression(scopes, value) {
            Err(error) => Err(error),
            Ok(t) => if existing == t {
                Ok(scopes)
            } else {
                mismatch(type_text(existing), t)
            },
        },
    }
}

/// An assignment to a field: the value has to have the type of the field.
pub open spec fn check_object_mutation(
    scopes: Seq<TypeScopeView>,
    path: Expression,
    value: Expression,
) -> Result<Seq<TypeScopeView>, TypeErrorView> {
    match check_expression(scopes, path) {
        Err(error) => Err(error),
        Ok(existing) => match check_expression(scopes, value) {
            Err(error) => Err(error),
            Ok(t) => if existing == t {
                Ok(scopes)
            } else {
                mismatch(type_text(existing), t)
            },
        },
    }
}

/// `if`: the condition has to be a boolean; the body and what follows `else`
/// are checked.
pub open spec fn check_if(
    scopes: Seq<TypeScopeView>,
    condition: Expression,
    body: Statement,
    else_statement: Option<Box<Statement>>,
) -> Result<Seq<TypeScopeView>, TypeErrorView>
    decreases statement_height(body) + else_height(else_statement) + 1, 0nat,
{
    match check_expression(scopes, condition) {
        Err(error) => Err(error),
        Ok(t) => if t != DefinedTypeView::Bool {
            mismatch("bool"@, t)
        } else {
            match check_statement(scopes, body) {
                Err(error) => Err(error),
                Ok(checked) => check_else(checked, else_statement),
            }
        },
    }
}

/// Checks one statement; gives the scopes with what the statement defines.
pub open spec fn check_statement(scopes: Seq<TypeScopeView>, statement: Statement) -> Result<
    Seq<TypeScopeView>,
    TypeErrorView,
>
    decreases statement_height(statement), 1nat,
{
    match statement {
        Statement::Const { name, value, type_annotation } => check_let(
            scopes,
            name@,
            value,
            type_annotation,
        ),
        Statement::Let { name, value, type_annotation, .. } => check_let(
            scopes,
            name@,
            *value,
            type_annotation,
        ),
        Statement::Block { body } => check_block(scopes, body@),
        Statement::Reassignment { name, value } => check_reassignment(scopes, name@, *value),
        Statement::ObjectMutation { path, value } => check_object_mutation(scopes, path, *value),
        Statement::If { condition, body, else_statement } => check_if(
            scopes,
            *condition,
            *body,
            else_statement,
        ),
        Statement::Loop { body } => check_statement(scopes, *body),
        Statement::Function(function) => check_function(scopes, function),
        Statement::Expression(expression) => match check_expression(scopes, expression) {
            Err(error) => Err(error),
            Ok(_) => Ok(scopes),
        },
        Statement::Return(expression) => match check_expression(scopes, expression) {
            Err(error) => Err(error),
            Ok(_) => Ok(scopes),
        },
        Statement::Break => Ok(scopes),
    }
}

/// Checks what follows `else`, if anything follows.
pub open spec fn check_else(scopes: Seq<TypeScopeView>, else_statement: Option<Box<Statement>>) -> Result<
    Seq<TypeScopeView>,
    TypeErrorView,
>
    decreases else_height(else_statement), 2nat,
{
    match else_statement {
        Some(otherwise) => check_statement(scopes, *otherwise),
        None => Ok(scopes),
    }
}

/// Checks the statements `statements[from..]` in order.
pub open spec fn check_statements(
    scopes: Seq<TypeScopeView>,
    statements: Seq<Statement>,
    from: int,
) -> Result<Seq<TypeScopeView>, TypeErrorView>
    decreases statements_height(statements, from), 0nat,
{
    if from < 0 || from >= statements.len() {
        Ok(scopes)
    } else {
        match check_statement(scopes, statements[from]) {
            Err(error) => Err(error),
            Ok(checked) => check_statements(checked, statements, from + 1),
        }
    }
}

/// A block: its statements in a scope of their own.
pub open spec fn check_block(scopes: Seq<TypeScopeView>, body: Seq<Statement>) -> Result<
    Seq<TypeScopeView>,
    TypeErrorView,
>
    decreases statements_height(body, 0), 1nat,
{
    match check_statements(enter_scope(scopes), body, 0) {
        Err(error) => Err(error),
        Ok(checked) => Ok(checked.drop_last()),
    }
}

/// A function declaration: the parameters become variables of the scope in
/// which the function is declared; the body is checked; the function gets the
/// type that its `return`s have.
pub open spec fn check_function(scopes: Seq<TypeScopeView>, function: Function) -> Result<
    Seq<TypeScopeView>,
    TypeErrorView,
>
    decreases statement_height(*function.body), 1nat,
{
    match *function.body {
        Statement::Block { body } => match define_parameters(scopes, function.parameters@, 0) {
            Err(error) => Err(error),
            Ok(with_parameters) => match check_statements(with_parameters, body@, 0) {
                Err(error) => Err(error),
                Ok(checked) => match check_all(checked, returns_of(body@, 0), 0) {
                    Err(error) => Err(error),
                    Ok(returned) => match return_type(returned, function.return_type_name) {
                        Err(error) => Err(error),
                        Ok(t) => Ok(define_function(checked, function.name@, t)),
                    },
                },
            },
        },
        _ => not_found(function.name@, "function body"@),
    }
}

/// Whether a program is well typed.
pub open spec fn check_program(statements: Seq<Statement>) -> Result<(), TypeErrorView> {
    match check_statements(initial_scopes(), statements, 0) {
        Err(error) => Err(error),
        Ok(_) => Ok(()),
    }
}

} // verus!
