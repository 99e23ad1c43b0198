use crate::flow::literal::Literal;
use vstd::prelude::*;

verus! {

/// The ways two values can be compared.
#[derive(Clone, Copy, Debug, PartialEq, Eq)]
pub enum Comparator {
    Equal,
    GreaterThan,
    LessThan,
    GreaterThanOrEqual,
    LessThanOrEqual,
}

/// The operations on a single value.
#[derive(Clone, Copy, Debug, PartialEq, Eq)]
pub enum UnaryOperator {
    Negate,
    BitwiseNot,
}

/// The operations on two values.
#[derive(Clone, Copy, Debug, PartialEq, Eq)]
pub enum BinaryOperator {
    Add,
    Subtract,
    Multiply,
    Divide,
    Power,
    Modulo,
    BitwiseAnd,
    BitwiseOr,
    BitwiseXor,
}

/// An expression that yields a value.
#[derive(Debug)]
pub enum Value {
    /// The value of a variable.
    Variable { name: String },
    /// A constant.
    Literal { value: Literal },
    /// An operator applied to one value.
    UnaryExpression { operator: UnaryOperator, value: Box<Value> },
    /// An operator applied to two values.
    BinaryExpression { operator: BinaryOperator, lhs: Box<Value>, rhs: Box<Value> },
    /// A comparison of two values, giving a boolean.
    Comparison { comparator: Comparator, lhs: Box<Value>, rhs: Box<Value> },
    /// The value a function returns.
    Function { name: String, args: Vec<Value> },
}

/// A step of a Flow program.
#[derive(Debug)]
pub enum Operation {
    /// Leaves the innermost loop.
    Break,
    /// Ends the running function without a value.
    End,
    /// Ends the running function with a value.
    Return { result: Value },
    /// Runs one of two branches depending on the truth of a condition.
    If { condition: Value, truthy: Vec<Operation>, falsy: Vec<Operation> },
    /// Runs the body once for each integer from `start` up to, not including, `end`.
    For { start: Value, end: Value, index: String, operations: Vec<Operation> },
    /// Creates or updates a variable.
    Variable { name: String, value: Value },
    /// Calls a function and drops its value.
    Function { name: String, args: Vec<Value> },
    /// Sets the brightness of the strip.
    Brightness { value: Value },
    /// Sets every pixel to one color.
    Fill { red: Value, green: Value, blue: Value },
    /// Sets the color of one pixel.
    SetPixel { index: Value, red: Value, green: Value, blue: Value },
    /// Shows the pixels written so far.
    Show,
    /// Waits for a duration.
    Sleep { duration: Value },
}

/// The name of an operation's kind, as programs write it.
pub open spec fn operation_name(op: Operation) -> &'static str {
    match op {
        Operation::Break => "break",
        Operation::End => "end",
        Operation::Return { .. } => "return",
        Operation::If { .. } => "if",
        Operation::For { .. } => "for",
        Operation::Variable { .. } => "variable",
        Operation::Function { .. } => "function",
        Operation::Brightness { .. } => "brightness",
        Operation::Fill { .. } => "fill",
        Operation::SetPixel { .. } => "set",
        Operation::Show => "show",
        Operation::Sleep { .. } => "sleep",
    }
}

impl Operation {
    /// The name of the operation's kind, as programs write it.
    pub fn name(&self) -> (r: &'static str)
        ensures
            r == operation_name(*self),
    {
        match self {
            Operation::Break => "break",
            Operation::End => "end",
            Operation::Return { .. } => "return",
            Operation::If { .. } => "if",
            Operation::For { .. } => "for",
            Operation::Variable { .. } => "variable",
            Operation::Function { .. } => "function",
            Operation::Brightness { .. } => "brightness",
            Operation::Fill { .. } => "fill",
            Operation::SetPixel { .. } => "set",
            Operation::Show => "show",
            Operation::Sleep { .. } => "sleep",
        }
    }
}

/// A function: named parameters and a body.
#[derive(Debug)]
pub struct Function {
    pub args: Vec<String>,
    pub operations: Vec<Operation>,
}

impl Function {
    /// A function without parameters.
    pub fn from_operations(operations: Vec<Operation>) -> (r: Function)
        ensures
            r.args@.len() == 0,
            r.operations == operations,
    {
        Function { args: Vec::new(), operations }
    }

    /// A function with the given parameters and body.
    pub fn new(args: Vec<String>, operations: Vec<Operation>) -> (r: Function)
        ensures
            r.args == args,
            r.operations == operations,
    {
        Function { args, operations }
    }

    /// The number of parameters.
    pub fn num_args(&self) -> (r: usize)
        ensures
            r == self.args@.len(),
    {
        self.args.len()
    }

    /// The body.
    pub fn as_operations(&self) -> (r: &Vec<Operation>)
        ensures
            r == &self.operations,
    {
        &self.operations
    }
}

/// A whole program: named functions, global variables with their starting
/// values, and the entrypoint's body, run once per frame.
#[derive(Debug)]
pub struct Program {
    pub functions: Vec<(String, Function)>,
    pub globals: Vec<(String, Literal)>,
    pub operations: Vec<Operation>,
}

/// The names of a list of pairs.
pub open spec fn keys<T>(entries: Seq<(String, T)>) -> Seq<Seq<char>> {
    entries.map_values(|e: (String, T)| e.0@)
}

/// Whether no name occurs twice in the list.
pub open spec fn unique_names(names: Seq<Seq<char>>) -> bool {
    forall|i: int, j: int| 0 <= i < j < names.len() ==> names[i] != names[j]
}

impl Program {
    /// Whether the program's functions and globals each have distinct names.
    pub open spec fn well_formed(&self) -> bool {
        unique_names(keys(self.functions@)) && unique_names(keys(self.globals@))
    }
}

} // verus!
