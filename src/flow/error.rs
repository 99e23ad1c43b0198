use vstd::prelude::*;

verus! {

/// A static error in a Flow program, found before it runs.
#[derive(Clone, Debug, PartialEq, Eq)]
pub enum SyntaxError {
    /// The entrypoint returns a value.
    InvalidReturn,
    /// A `Break` stands outside any loop.
    InvalidBreak,
    /// The entrypoint does not end with `End`.
    ExpectedEnd,
    /// A variable is read before it is assigned.
    UnknownVariable { name: String },
    /// A function that is not defined is called.
    UnknownFunction { name: String },
    /// A function is called with the wrong number of arguments.
    MismatchArguments { name: String, expected: usize, actual: usize },
    /// Two parameters of a function share a name.
    NonUniqueArguments,
    /// The entrypoint takes parameters.
    InvalidEntrypoint,
    /// Two functions, or two globals, share a name.
    DuplicateName { name: String },
}

/// An operation was applied to values of kinds it is not defined on.
#[derive(Clone, Copy, Debug, PartialEq, Eq)]
pub enum TypeError {
    /// A value could not be converted to the expected kind.
    Conversion { expected: &'static str, found: &'static str },
    /// Two values of these kinds cannot be compared.
    Comparison { a: &'static str, b: &'static str },
    /// The unary operator is not defined on this kind.
    UnaryOperator { operator: &'static str, kind: &'static str },
    /// The binary operator is not defined on these kinds.
    BinaryOperator { operator: &'static str, a: &'static str, b: &'static str },
    /// The integer result of the operator is undefined or does not fit in
    /// 64 bits (division by zero, overflow, a negative exponent or count).
    Arithmetic { operator: &'static str },
}

} // verus!
