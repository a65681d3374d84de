//! The statement and expression trees that the parser builds and the compiler
//! and typechecker walk.

use crate::types::{Literal, LiteralView};
use vstd::prelude::*;

verus! {

/// A function declaration: its name, its parameters, its body, which is a
/// block, and the name of its return type where one is written.
#[derive(Debug, PartialEq)]
pub struct Function {
    pub name: String,
    pub parameters: Vec<FunctionParameter>,
    pub body: Box<Statement>,
    pub return_type_name: Option<String>,
}

/// A parameter of a function with the name of its type.
#[derive(Debug, PartialEq)]
pub struct FunctionParameter {
    pub name: String,
    pub type_annotation: String,
}

impl Function {
    /// A function declaration of these parts.
    pub fn new(
        name: String,
        parameters: Vec<FunctionParameter>,
        body: Box<Statement>,
        return_type_name: Option<String>,
    ) -> (function: Self)
        ensures
            function.name == name,
            function.parameters == parameters,
            function.body == body,
            function.return_type_name == return_type_name,
    {
        Self { name, parameters, body, return_type_name }
    }
}

/// A statement of the language.
#[allow(inconsistent_fields)]
#[derive(Debug, PartialEq)]
pub enum Statement {
    Const { name: String, value: Expression, type_annotation: Option<String> },
    Let { name: String, value: Box<Expression>, is_mutable: bool, type_annotation: Option<String> },
    Reassignment { name: String, value: Box<Expression> },
    ObjectMutation { path: Expression, value: Box<Expression> },
    If { condition: Box<Expression>, body: Box<Statement>, else_statement: Option<Box<Statement>> },
    Block { body: Vec<Statement> },
    Loop { body: Box<Statement> },
    Return(Expression),
    Function(Function),
    Expression(Expression),
    Break,
}

/// The operators of expressions.
#[derive(Debug, Clone, Copy, PartialEq, Eq, Structural)]
pub enum Operator {
    Plus,
    Minus,
    Multiply,
    Not,
    Divide,
    GreaterThan,
    GreaterThanOrEqual,
    LessThan,
    LessThanOrEqual,
    Equal,
    NotEqual,
}

impl Operator {
    /// Whether the operator can stand in front of an operand.
    pub open spec fn is_prefix(self) -> bool {
        self == Operator::Minus || self == Operator::Plus || self == Operator::Not
    }

    /// How tightly the operator binds between two operands, to its left and to
    /// its right; `None` for an operator that cannot stand there.
    pub open spec fn infix_power(self) -> Option<(u8, u8)> {
        match self {
            Operator::Equal | Operator::NotEqual => Some((5u8, 6u8)),
            Operator::GreaterThan
            | Operator::GreaterThanOrEqual
            | Operator::LessThan
            | Operator::LessThanOrEqual => Some((7u8, 8u8)),
            Operator::Plus | Operator::Minus => Some((9u8, 10u8)),
            Operator::Multiply | Operator::Divide => Some((11u8, 12u8)),
            Operator::Not => None,
        }
    }

    /// How tightly a prefix operator binds the operand to its right: tighter
    /// than every infix operator.
    pub fn prefix_binding_power(&self) -> (power: ((), u8))
        requires
            self.is_prefix(),
        ensures
            power.1 == 51,
    {
        ((), 51)
    }

    /// How tightly the operator binds between two operands; `None` for an
    /// operator that cannot stand there. A higher power binds tighter, and the
    /// right power is the higher, so that operators of one level group to the
    /// left.
    pub fn infix_binding_power(&self) -> (power: Option<(u8, u8)>)
        ensures
            power == self.infix_power(),
    {
        match self {
            Operator::Equal | Operator::NotEqual => Some((5, 6)),
            Operator::GreaterThan
            | Operator::GreaterThanOrEqual
            | Operator::LessThan
            | Operator::LessThanOrEqual => Some((7, 8)),
            Operator::Plus | Operator::Minus => Some((9, 10)),
            Operator::Multiply | Operator::Divide => Some((11, 12)),
            Operator::Not => None,
        }
    }
}

/// The fields of an object literal, in the order in which they were written.
/// No name occurs twice: writing a name again replaces the value where the name
/// first stood.
#[derive(Debug, PartialEq)]
pub struct ObjectExpression {
    pub fields: Vec<(String, Expression)>,
}

/// An expression of the language.
#[allow(inconsistent_fields)]
#[derive(Debug, PartialEq)]
pub enum Expression {
    Prefix { op: Operator, expr: Box<Expression> },
    Infix { op: Operator, lhs: Box<Expression>, rhs: Box<Expression> },
    Literal(Literal),
    Variable(String),
    FunctionCall { name: String, args: Vec<Expression> },
    Object { fields: Vec<(String, Expression)> },
    Array { this: Vec<Expression> },
    ObjectAccess { path: Vec<String> },
    ArrayAccess { name: String, index: Box<Expression> },
}

/// What an [`Expression`] stands for: the same tree over mathematical strings
/// and sequences.
#[allow(inconsistent_fields)]
pub enum ExpressionView {
    Prefix { op: Operator, expr: Box<ExpressionView> },
    Infix { op: Operator, lhs: Box<ExpressionView>, rhs: Box<ExpressionView> },
    Literal(LiteralView),
    Variable(Seq<char>),
    FunctionCall { name: Seq<char>, args: Seq<ExpressionView> },
    Object { fields: Seq<(Seq<char>, ExpressionView)> },
    Array { this: Seq<ExpressionView> },
    ObjectAccess { path: Seq<Seq<char>> },
    ArrayAccess { name: Seq<char>, index: Box<ExpressionView> },
}

/// What a [`FunctionParameter`] stands for.
pub struct ParameterView {
    pub name: Seq<char>,
    pub type_annotation: Seq<char>,
}

/// What a [`Function`] declaration stands for.
pub struct DeclarationView {
    pub name: Seq<char>,
    pub parameters: Seq<ParameterView>,
    pub body: Box<StatementView>,
    pub return_type_name: Option<Seq<char>>,
}

/// What a [`Statement`] stands for.
#[allow(inconsistent_fields)]
pub enum StatementView {
    Const { name: Seq<char>, value: ExpressionView, type_annotation: Option<Seq<char>> },
    Let {
        name: Seq<char>,
        value: Box<ExpressionView>,
        is_mutable: bool,
        type_annotation: Option<Seq<char>>,
    },
    Reassignment { name: Seq<char>, value: Box<ExpressionView> },
    ObjectMutation { path: ExpressionView, value: Box<ExpressionView> },
    If {
        condition: Box<ExpressionView>,
        body: Box<StatementView>,
        else_statement: Option<Box<StatementView>>,
    },
    Block { body: Seq<StatementView> },
    Loop { body: Box<StatementView> },
    Return(ExpressionView),
    Function(DeclarationView),
    Expression(ExpressionView),
    Break,
}

/// The view of an optional string.
pub open spec fn optional_name(name: Option<String>) -> Option<Seq<char>> {
    match name {
        Some(text) => Some(text@),
        None => None,
    }
}

/// The views of a list of strings.
pub open spec fn path_view(path: Seq<String>) -> Seq<Seq<char>> {
    Seq::new(path.len(), |i: int| path[i]@)
}

/// The views of a list of parameters.
pub open spec fn parameter_views(parameters: Seq<FunctionParameter>) -> Seq<ParameterView> {
    Seq::new(
        parameters.len(),
        |i: int|
            ParameterView {
                name: parameters[i].name@,
                type_annotation: parameters[i].type_annotation@,
            },
    )
}

/// The view of an expression.
pub open spec fn expression_view(e: Expression) -> ExpressionView
    decreases e, 0nat,
{
    match e {
        Expression::Prefix { op, expr } => ExpressionView::Prefix {
            op,
            expr: Box::new(expression_view(*expr)),
        },
        Expression::Infix { op, lhs, rhs } => ExpressionView::Infix {
            op,
            lhs: Box::new(expression_view(*lhs)),
            rhs: Box::new(expression_view(*rhs)),
        },
        Expression::Literal(literal) => ExpressionView::Literal(literal@),
        Expression::Variable(name) => ExpressionView::Variable(name@),
        Expression::FunctionCall { name, args } => ExpressionView::FunctionCall {
            name: name@,
            args: expression_views(args@, args@.len() as int),
        },
        Expression::Object { fields } => ExpressionView::Object {
            fields: field_views(fields@, fields@.len() as int),
        },
        Expression::Array { this } => ExpressionView::Array {
            this: expression_views(this@, this@.len() as int),
        },
        Expression::ObjectAccess { path } => ExpressionView::ObjectAccess { path: path_view(path@) },
        Expression::ArrayAccess { name, index } => ExpressionView::ArrayAccess {
            name: name@,
            index: Box::new(expression_view(*index)),
        },
    }
}

/// The views of the first `count` expressions of a list.
pub open spec fn expression_views(es: Seq<Expression>, count: int) -> Seq<ExpressionView>
    decreases es, count,
{
    if count <= 0 || count > es.len() {
        Seq::empty()
    } else {
        expression_views(es, count - 1).push(expression_view(es[count - 1]))
    }
}

/// The views of the first `count` fields of an object literal.
pub open spec fn field_views(fields: Seq<(String, Expression)>, count: int) -> Seq<
    (Seq<char>, ExpressionView),
>
    decreases fields, count,
{
    if count <= 0 || count > fields.len() {
        Seq::empty()
    } else {
        field_views(fields, count - 1).push(
            (fields[count - 1].0@, expression_view(fields[count - 1].1)),
        )
    }
}

/// The view of a statement.
pub open spec fn statement_view(s: Statement) -> StatementView
    decreases s, 0nat,
{
    match s {
        Statement::Const { name, value, type_annotation } => StatementView::Const {
            name: name@,
            value: expression_view(value),
            type_annotation: optional_name(type_annotation),
        },
        Statement::Let { name, value, is_mutable, type_annotation } => StatementView::Let {
            name: name@,
            value: Box::new(expression_view(*value)),
            is_mutable,
            type_annotation: optional_name(type_annotation),
        },
        Statement::Reassignment { name, value } => StatementView::Reassignment {
            name: name@,
            value: Box::new(expression_view(*value)),
        },
        Statement::ObjectMutation { path, value } => StatementView::ObjectMutation {
            path: expression_view(path),
            value: Box::new(expression_view(*value)),
        },
        Statement::If { condition, body, else_statement } => StatementView::If {
            condition: Box::new(expression_view(*condition)),
            body: Box::new(statement_view(*body)),
            else_statement: match else_statement {
                Some(otherwise) => Some(Box::new(statement_view(*otherwise))),
                None => None,
            },
        },
        Statement::Block { body } => StatementView::Block {
            body: statement_views(body@, body@.len() as int),
        },
        Statement::Loop { body } => StatementView::Loop { body: Box::new(statement_view(*body)) },
        Statement::Return(expression) => StatementView::Return(expression_view(expression)),
        Statement::Function(function) => StatementView::Function(
            DeclarationView {
                name: function.name@,
                parameters: parameter_views(function.parameters@),
                body: Box::new(statement_view(*function.body)),
                return_type_name: optional_name(function.return_type_name),
            },
        ),
        Statement::Expression(expression) => StatementView::Expression(
            expression_view(expression),
        ),
        Statement::Break => StatementView::Break,
    }
}

/// The views of the first `count` statements of a list.
pub open spec fn statement_views(statements: Seq<Statement>, count: int) -> Seq<StatementView>
    decreases statements, count,
{
    if count <= 0 || count > statements.len() {
        Seq::empty()
    } else {
        statement_views(statements, count - 1).push(statement_view(statements[count - 1]))
    }
}

impl View for Expression {
    type V = ExpressionView;

    open spec fn view(&self) -> ExpressionView {
        expression_view(*self)
    }
}

impl View for Statement {
    type V = StatementView;

    open spec fn view(&self) -> StatementView {
        statement_view(*self)
    }
}

/// The views of the first `count` expressions are the views of those
/// expressions, one for one.
pub proof fn lemma_expression_views(es: Seq<Expression>, count: int)
    requires
        0 <= count <= es.len(),
    ensures
        expression_views(es, count).len() == count,
        forall|i: int| 0 <= i < count ==> expression_views(es, count)[i] == expression_view(es[i]),
    decreases count,
{
    if count > 0 {
        lemma_expression_views(es, count - 1);
    }
}

/// The views of the first `count` fields are the views of those fields, one
/// for one.
pub proof fn lemma_field_views(fields: Seq<(String, Expression)>, count: int)
    requires
        0 <= count <= fields.len(),
    ensures
        field_views(fields, count).len() == count,
        forall|i: int|
            0 <= i < count ==> field_views(fields, count)[i] == (
                fields[i].0@,
                expression_view(fields[i].1),
            ),
    decreases count,
{
    if count > 0 {
        lemma_field_views(fields, count - 1);
    }
}

/// The views of the first `count` statements are the views of those
/// statements, one for one.
pub proof fn lemma_statement_views(statements: Seq<Statement>, count: int)
    requires
        0 <= count <= statements.len(),
    ensures
        statement_views(statements, count).len() == count,
        forall|i: int|
            0 <= i < count ==> statement_views(statements, count)[i] == statement_view(
                statements[i],
            ),
    decreases count,
{
    if count > 0 {
        lemma_statement_views(statements, count - 1);
    }
}

/// The view of a list of expressions with one more at its end.
pub proof fn lemma_expression_views_push(es: Seq<Expression>, e: Expression)
    ensures
        expression_views(es.push(e), es.len() as int + 1) == expression_views(es, es.len() as int).push(
            expression_view(e),
        ),
{
    lemma_expression_views(es, es.len() as int);
    lemma_expression_views(es.push(e), es.len() as int + 1);
    assert(expression_views(es.push(e), es.len() as int + 1) =~= expression_views(
        es,
        es.len() as int,
    ).push(expression_view(e)));
}

/// The view of a list of statements with one more at its end.
pub proof fn lemma_statement_views_push(statements: Seq<Statement>, s: Statement)
    ensures
        statement_views(statements.push(s), statements.len() as int + 1) == statement_views(
            statements,
            statements.len() as int,
        ).push(statement_view(s)),
{
    lemma_statement_views(statements, statements.len() as int);
    lemma_statement_views(statements.push(s), statements.len() as int + 1);
    assert(statement_views(statements.push(s), statements.len() as int + 1) =~= statement_views(
        statements,
        statements.len() as int,
    ).push(statement_view(s)));
}

/// The view of a list of fields with one more at its end.
pub proof fn lemma_field_views_push(fields: Seq<(String, Expression)>, field: (String, Expression))
    ensures
        field_views(fields.push(field), fields.len() as int + 1) == field_views(
            fields,
            fields.len() as int,
        ).push((field.0@, expression_view(field.1))),
{
    lemma_field_views(fields, fields.len() as int);
    lemma_field_views(fields.push(field), fields.len() as int + 1);
    assert(field_views(fields.push(field), fields.len() as int + 1) =~= field_views(
        fields,
        fields.len() as int,
    ).push((field.0@, expression_view(field.1))));
}

/// The view of a list of fields with one of them replaced.
pub proof fn lemma_field_views_update(
    fields: Seq<(String, Expression)>,
    at: int,
    field: (String, Expression),
)
    requires
        0 <= at < fields.len(),
    ensures
        field_views(fields.update(at, field), fields.len() as int) == field_views(
            fields,
            fields.len() as int,
        ).update(at, (field.0@, expression_view(field.1))),
{
    lemma_field_views(fields, fields.len() as int);
    lemma_field_views(fields.update(at, field), fields.len() as int);
    assert(field_views(fields.update(at, field), fields.len() as int) =~= field_views(
        fields,
        fields.len() as int,
    ).update(at, (field.0@, expression_view(field.1))));
}

} // verus!
