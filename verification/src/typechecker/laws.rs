//! What typechecking promises of a run.

use crate::ast::Operator;
use crate::typechecker::model::{infix_type, literal_type, prefix_type};
use crate::types::LiteralView;
use crate::vm::model::{evaluate, host_result_fits, integer_arithmetic, Evaluation};
use crate::vm::value::BinaryOperator;
use vstd::prelude::*;

verus! {

/// The operator of the machine that an infix operator of the language is
/// compiled to.
pub open spec fn machine_operator(op: Operator) -> Option<BinaryOperator> {
    match op {
        Operator::Plus => Some(BinaryOperator::Add),
        Operator::Minus => Some(BinaryOperator::Sub),
        Operator::Multiply => Some(BinaryOperator::Mul),
        Operator::Divide => Some(BinaryOperator::Div),
        Operator::Equal => Some(BinaryOperator::Equals),
        Operator::NotEqual => Some(BinaryOperator::NotEquals),
        Operator::GreaterThan => Some(BinaryOperator::GreaterThan),
        Operator::GreaterThanOrEqual => Some(BinaryOperator::GreaterThanOrEquals),
        Operator::LessThan => Some(BinaryOperator::LessThan),
        Operator::LessThanOrEqual => Some(BinaryOperator::LessThanOrEquals),
        Operator::Not => None,
    }
}

/// Operands that the typechecker accepts fit the operator in the machine:
/// the machine finds them invalid only where the result of integer arithmetic
/// does not exist; a result that the machine computes has the type that the
/// typechecker gave the expression; and where the host computes, the result
/// that the machine takes from it is of that type.
pub proof fn lemma_well_typed_operands_fit(op: Operator, lhs: LiteralView, rhs: LiteralView)
    requires
        infix_type(op, literal_type(lhs), literal_type(rhs)) is Ok,
    ensures
        machine_operator(op) is Some,
        ({
            let operator = machine_operator(op)->0;
            let t = infix_type(op, literal_type(lhs), literal_type(rhs))->Ok_0;
            match evaluate(operator, lhs, rhs) {
                Evaluation::Value(result) => literal_type(result) == t,
                Evaluation::NeedsHost => forall|result: LiteralView|
                    host_result_fits(operator, result) ==> #[trigger] literal_type(result) == t,
                Evaluation::Invalid => operator.is_arithmetic() && lhs is Integer && rhs is Integer
                    && integer_arithmetic(operator, lhs->Integer_0, rhs->Integer_0) is None,
            }
        }),
{
}

/// An operand that the typechecker accepts behind a prefix operator is of the
/// kind that the machine negates: a number behind `-`, a boolean behind `!`.
pub proof fn lemma_well_typed_operand_fits(op: Operator, operand: LiteralView)
    requires
        prefix_type(op, literal_type(operand)) is Ok,
    ensures
        op == Operator::Not ==> operand is Boolean,
        op == Operator::Minus || op == Operator::Plus ==> operand.is_numeric(),
        prefix_type(op, literal_type(operand)) == Ok::<_, crate::typechecker::model::TypeErrorView>(
            literal_type(operand),
        ),
{
}

} // verus!
