use crate::flow::ast::{BinaryOperator, Comparator, UnaryOperator};
use crate::flow::error::TypeError;
use crate::flow::literal::{
    FloatArithmetic, Literal, add_spec, bitwise_and_spec, bitwise_not_spec, bitwise_or_spec,
    bitwise_xor_spec, cmp_result_ok, divide_spec, modulo_spec, multiply_spec, negate_spec,
    power_spec, subtract_spec,
};
use core::cmp::Ordering;
use vstd::prelude::*;

verus! {

/// Whether the comparator holds of two values in the given order; values
/// without an order (a NaN) satisfy none.
pub open spec fn comparator_holds(c: Comparator, ord: Option<Ordering>) -> bool {
    match c {
        Comparator::Equal => ord == Some(Ordering::Equal),
        Comparator::GreaterThan => ord == Some(Ordering::Greater),
        Comparator::LessThan => ord == Some(Ordering::Less),
        Comparator::GreaterThanOrEqual => ord == Some(Ordering::Greater) || ord == Some(
            Ordering::Equal,
        ),
        Comparator::LessThanOrEqual => ord == Some(Ordering::Less) || ord == Some(Ordering::Equal),
    }
}

impl Comparator {
    /// Compares two values, giving a boolean; kinds that cannot be compared
    /// give the comparison's error.
    pub fn evaluate<U: FloatArithmetic>(&self, lhs: &Literal, rhs: &Literal, unit: &U) -> (r: Result<
        Literal,
        TypeError,
    >)
        ensures
            r is Err ==> exists|e: TypeError|
                r == Err::<Literal, TypeError>(e) && cmp_result_ok(
                    *lhs,
                    *rhs,
                    Err(e),
                ),
            r is Ok ==> exists|ord: Option<Ordering>|
                cmp_result_ok(*lhs, *rhs, Ok(ord)) && r == Ok::<
                    Literal,
                    TypeError,
                >(Literal::Boolean(comparator_holds(*self, ord))),
    {
        let ordering = match lhs.try_partial_cmp(rhs, unit) {
            Ok(o) => o,
            Err(e) => {
                return Err(e);
            },
        };
        let result = match self {
            Comparator::Equal => matches!(ordering, Some(Ordering::Equal)),
            Comparator::GreaterThan => matches!(ordering, Some(Ordering::Greater)),
            Comparator::LessThan => matches!(ordering, Some(Ordering::Less)),
            Comparator::GreaterThanOrEqual => matches!(
                ordering,
                Some(Ordering::Greater) | Some(Ordering::Equal)
            ),
            Comparator::LessThanOrEqual => matches!(
                ordering,
                Some(Ordering::Less) | Some(Ordering::Equal)
            ),
        };
        Ok(Literal::Boolean(result))
    }
}

impl UnaryOperator {
    /// Applies the operator: `Negate` negates a number, `BitwiseNot` negates
    /// a boolean or complements an integer.
    pub fn evaluate(&self, value: Literal) -> (r: Result<Literal, TypeError>)
        ensures
            match *self {
                UnaryOperator::Negate => negate_spec(value, r),
                UnaryOperator::BitwiseNot => bitwise_not_spec(value, r),
            },
    {
        match self {
            UnaryOperator::BitwiseNot => value.try_not(),
            UnaryOperator::Negate => value.try_neg(),
        }
    }
}

/// What the binary operator gives on two values.
pub open spec fn binary_spec(
    op: BinaryOperator,
    a: Literal,
    b: Literal,
    r: Result<Literal, TypeError>,
) -> bool {
    match op {
        BinaryOperator::Add => add_spec(a, b, r),
        BinaryOperator::Subtract => subtract_spec(a, b, r),
        BinaryOperator::Multiply => multiply_spec(a, b, r),
        BinaryOperator::Divide => divide_spec(a, b, r),
        BinaryOperator::Power => power_spec(a, b, r),
        BinaryOperator::Modulo => modulo_spec(a, b, r),
        BinaryOperator::BitwiseAnd => bitwise_and_spec(a, b, r),
        BinaryOperator::BitwiseOr => bitwise_or_spec(a, b, r),
        BinaryOperator::BitwiseXor => bitwise_xor_spec(a, b, r),
    }
}

impl BinaryOperator {
    /// Applies the operator to two values.
    pub fn evaluate<U: FloatArithmetic>(&self, lhs: Literal, rhs: Literal, unit: &U) -> (r: Result<
        Literal,
        TypeError,
    >)
        ensures
            binary_spec(*self, lhs, rhs, r),
    {
        match self {
            BinaryOperator::Add => lhs.try_add(rhs, unit),
            BinaryOperator::Subtract => lhs.try_sub(rhs, unit),
            BinaryOperator::Multiply => lhs.try_mul(rhs, unit),
            BinaryOperator::Divide => lhs.try_div(rhs, unit),
            BinaryOperator::Power => lhs.try_pow(rhs, unit),
            BinaryOperator::Modulo => lhs.try_modulo(rhs, unit),
            BinaryOperator::BitwiseAnd => lhs.try_bitand(rhs),
            BinaryOperator::BitwiseOr => lhs.try_bitor(rhs),
            BinaryOperator::BitwiseXor => lhs.try_bitxor(rhs),
        }
    }
}

} // verus!
