//! Compile-time evaluation of case labels.
use vstd::prelude::*;
use crate::annotations::StatementAnnotation;
use crate::ast::{AstKind, AstStatement, Operator};
use crate::context::ValidationContext;

verus! {

/// Why an expression has no compile-time value.
#[derive(Clone, Copy, Debug, PartialEq, Eq, Structural)]
pub enum EvalError {
    NonConstant,
    Overflow,
}

/// A compile-time value: an integer, or a constant of another kind.
#[derive(Clone, Copy, Debug, PartialEq, Eq, Structural)]
pub enum ConstValue {
    Integer(i128),
    Other,
}

pub open spec fn checked(v: int) -> Result<ConstValue, EvalError> {
    if i128::MIN <= v <= i128::MAX {
        Ok(ConstValue::Integer(v as i128))
    } else {
        Err(EvalError::Overflow)
    }
}

/// The value of a reference: a constant variable with an integer initializer has that
/// value; any other variable is not constant.
pub open spec fn spec_constant_value(ctx: &ValidationContext, s: AstStatement) -> Result<ConstValue, EvalError> {
    let qualifier = match ctx.qualifier {
        Some(q) => Some(q@),
        None => None,
    };
    match ctx.annotations.spec_get(s) {
        Some(StatementAnnotation::Variable { qualified_name, .. }) => match ctx.index.spec_find_variable(
            qualifier,
            qualified_name@,
        ) {
            Some(v) => match v.initial_value {
                Some(x) => if v.is_constant {
                    Ok(ConstValue::Integer(x))
                } else {
                    Err(EvalError::NonConstant)
                },
                None => Err(EvalError::NonConstant),
            },
            None => Err(EvalError::NonConstant),
        },
        _ => Err(EvalError::NonConstant),
    }
}

fn constant_value(s: &AstStatement, ctx: &ValidationContext) -> (r: Result<ConstValue, EvalError>)
    ensures
        r == spec_constant_value(ctx, *s),
{
    match ctx.annotations.get(s) {
        Some(StatementAnnotation::Variable { qualified_name, .. }) => match ctx.index.find_variable(
            ctx.qualifier,
            qualified_name.as_str(),
        ) {
            Some(v) => match v.initial_value {
                Some(x) => if v.is_constant {
                    Ok(ConstValue::Integer(x))
                } else {
                    Err(EvalError::NonConstant)
                },
                None => Err(EvalError::NonConstant),
            },
            None => Err(EvalError::NonConstant),
        },
        _ => Err(EvalError::NonConstant),
    }
}

/// The value of a constant expression: literals; references to constants; `+`, `-` and
/// `*` over integers (an overflow of 128 bits is an error); other operators over
/// constants give a non-integer constant, as do ranges; anything else is not constant.
pub open spec fn spec_evaluate(ctx: &ValidationContext, s: AstStatement) -> Result<ConstValue, EvalError>
    decreases s,
{
    match s.kind {
        AstKind::LiteralInteger { value } => Ok(ConstValue::Integer(value)),
        AstKind::LiteralReal { .. } | AstKind::LiteralBool { .. } | AstKind::LiteralString { .. }
        | AstKind::LiteralTime { .. } | AstKind::LiteralNull => Ok(ConstValue::Other),
        AstKind::Reference { .. } => spec_constant_value(ctx, s),
        AstKind::UnaryExpression { operator, value } => match spec_evaluate(ctx, *value) {
            Err(e) => Err(e),
            Ok(ConstValue::Integer(v)) => match operator {
                Operator::Minus => checked(-v),
                Operator::Plus => Ok(ConstValue::Integer(v)),
                _ => Ok(ConstValue::Other),
            },
            Ok(ConstValue::Other) => Ok(ConstValue::Other),
        },
        AstKind::BinaryExpression { operator, left, right } => match spec_evaluate(ctx, *left) {
            Err(e) => Err(e),
            Ok(a) => match spec_evaluate(ctx, *right) {
                Err(e) => Err(e),
                Ok(b) => match (a, b) {
                    (ConstValue::Integer(x), ConstValue::Integer(y)) => match operator {
                        Operator::Plus => checked(x + y),
                        Operator::Minus => checked(x - y),
                        Operator::Multiplication => checked(x * y),
                        _ => Ok(ConstValue::Other),
                    },
                    _ => Ok(ConstValue::Other),
                },
            },
        },
        AstKind::RangeStatement { start, end } => match spec_evaluate(ctx, *start) {
            Err(e) => Err(e),
            Ok(_) => match spec_evaluate(ctx, *end) {
                Err(e) => Err(e),
                Ok(_) => Ok(ConstValue::Other),
            },
        },
        _ => Err(EvalError::NonConstant),
    }
}

fn checked_result(v: Option<i128>) -> (r: Result<ConstValue, EvalError>)
    ensures
        r == match v {
            Some(x) => Ok(ConstValue::Integer(x)),
            None => Err(EvalError::Overflow),
        },
{
    match v {
        Some(x) => Ok(ConstValue::Integer(x)),
        None => Err(EvalError::Overflow),
    }
}

pub fn evaluate(s: &AstStatement, ctx: &ValidationContext) -> (r: Result<ConstValue, EvalError>)
    ensures
        r == spec_evaluate(ctx, *s),
    decreases s,
{
    match &s.kind {
        AstKind::LiteralInteger { value } => Ok(ConstValue::Integer(*value)),
        AstKind::LiteralReal { .. } | AstKind::LiteralBool { .. } | AstKind::LiteralString { .. }
        | AstKind::LiteralTime { .. } | AstKind::LiteralNull => Ok(ConstValue::Other),
        AstKind::Reference { .. } => constant_value(s, ctx),
        AstKind::UnaryExpression { operator, value } => match evaluate(value, ctx) {
            Err(e) => Err(e),
            Ok(ConstValue::Integer(v)) => match operator {
                Operator::Minus => if v == i128::MIN {
                    Err(EvalError::Overflow)
                } else {
                    Ok(ConstValue::Integer(-v))
                },
                Operator::Plus => Ok(ConstValue::Integer(v)),
                _ => Ok(ConstValue::Other),
            },
            Ok(ConstValue::Other) => Ok(ConstValue::Other),
        },
        AstKind::BinaryExpression { operator, left, right } => match evaluate(left, ctx) {
            Err(e) => Err(e),
            Ok(a) => match evaluate(right, ctx) {
                Err(e) => Err(e),
                Ok(b) => match (a, b) {
                    (ConstValue::Integer(x), ConstValue::Integer(y)) => match operator {
                        Operator::Plus => checked_result(x.checked_add(y)),
                        Operator::Minus => checked_result(x.checked_sub(y)),
                        Operator::Multiplication => checked_result(x.checked_mul(y)),
                        _ => Ok(ConstValue::Other),
                    },
                    _ => Ok(ConstValue::Other),
                },
            },
        },
        AstKind::RangeStatement { start, end } => match evaluate(start, ctx) {
            Err(e) => Err(e),
            Ok(_) => match evaluate(end, ctx) {
                Err(e) => Err(e),
                Ok(_) => Ok(ConstValue::Other),
            },
        },
        _ => Err(EvalError::NonConstant),
    }
}

} // verus!
