use lights::flow::ast::{BinaryOperator, Comparator, Function, Operation, UnaryOperator, Value};
use lights::flow::error::SyntaxError;
use lights::flow::interpret::{Effect, RuntimeError, MAX_DEPTH};
use lights::flow::literal::{Float, FloatArithmetic, Literal, Number};
use lights::flow::scope::Scope;

struct Ieee;

fn f(x: Float) -> f64 {
    f64::from_bits(x.to_bits())
}

fn bits(x: f64) -> Float {
    Float::from_bits(x.to_bits())
}

impl FloatArithmetic for Ieee {
    fn from_integer(&self, i: i64) -> Float {
        bits(i as f64)
    }
    fn add(&self, a: Float, b: Float) -> Float {
        bits(f(a) + f(b))
    }
    fn sub(&self, a: Float, b: Float) -> Float {
        bits(f(a) - f(b))
    }
    fn mul(&self, a: Float, b: Float) -> Float {
        bits(f(a) * f(b))
    }
    fn div(&self, a: Float, b: Float) -> Float {
        bits(f(a) / f(b))
    }
    fn rem(&self, a: Float, b: Float) -> Float {
        bits(f(a) % f(b))
    }
    fn powf(&self, a: Float, b: Float) -> Float {
        bits(f(a).powf(f(b)))
    }
    fn powi(&self, a: Float, n: i32) -> Float {
        bits(f(a).powi(n))
    }
    fn seconds_to_nanos(&self, secs: Float) -> Option<u64> {
        let d = std::time::Duration::try_from_secs_f64(f(secs)).ok()?;
        u64::try_from(d.as_nanos()).ok()
    }
}

fn integer(i: i64) -> Literal {
    Literal::Number(Number::Integer(i))
}

fn lit(l: Literal) -> Value {
    Value::Literal { value: l }
}

fn var(name: &str) -> Value {
    Value::Variable { name: name.to_string() }
}

fn binary(operator: BinaryOperator, lhs: Value, rhs: Value) -> Value {
    Value::BinaryExpression { operator, lhs: Box::new(lhs), rhs: Box::new(rhs) }
}

fn compare(comparator: Comparator, lhs: Value, rhs: Value) -> Value {
    Value::Comparison { comparator, lhs: Box::new(lhs), rhs: Box::new(rhs) }
}

fn call(name: &str, args: Vec<Value>) -> Value {
    Value::Function { name: name.to_string(), args }
}

fn set_var(name: &str, value: Value) -> Operation {
    Operation::Variable { name: name.to_string(), value }
}

fn ret(value: Value) -> Operation {
    Operation::Return { result: value }
}

/// Runs the function with the globals and functions; gives its result and the scope after.
fn run(
    f: &Function,
    globals: Vec<(&str, Literal)>,
    functions: Vec<(&str, Function)>,
) -> (Result<Literal, RuntimeError>, Scope) {
    let globals = globals.into_iter().map(|(k, v)| (k.to_string(), v)).collect();
    let functions: Vec<(String, Function)> =
        functions.into_iter().map(|(k, v)| (k.to_string(), v)).collect();
    let mut scope = Scope::new(globals);
    let mut out: Vec<Effect> = Vec::new();
    let r = f.evaluate(&mut scope, &functions, &Ieee, &mut out, MAX_DEPTH);
    (r, scope)
}

/// A function with `n` parameters, standing for one the program defines.
fn with_arity(n: usize) -> Function {
    Function::new((0..n).map(|i| format!("p{i}")).collect(), vec![])
}

fn check(f: &Function, globals: Vec<&str>, functions: Vec<(&str, usize)>) -> Result<(), SyntaxError> {
    let globals: Vec<String> = globals.into_iter().map(String::from).collect();
    let functions: Vec<(String, Function)> =
        functions.into_iter().map(|(k, n)| (k.to_string(), with_arity(n))).collect();
    f.validate(&functions, &globals)
}

fn check_entrypoint(f: &Function) -> Result<(), SyntaxError> {
    f.validate_entrypoint(&vec![], &vec![])
}

#[test]
fn empty() {
    let f = Function::from_operations(vec![]);
    assert_eq!(run(&f, vec![], vec![]).0, Ok(Literal::Null));
    assert_eq!(check(&f, vec![], vec![]), Ok(()));
}

#[test]
fn simple() {
    let f = Function::from_operations(vec![ret(lit(Literal::Boolean(true)))]);
    assert_eq!(run(&f, vec![], vec![]).0, Ok(Literal::Boolean(true)));
    assert_eq!(check(&f, vec![], vec![]), Ok(()));
}

#[test]
fn early_exit() {
    let f = Function::from_operations(vec![Operation::End, ret(lit(Literal::Boolean(false)))]);
    assert_eq!(run(&f, vec![], vec![]).0, Ok(Literal::Null));
    assert_eq!(check(&f, vec![], vec![]), Ok(()));
}

#[test]
fn early_return() {
    let f = Function::from_operations(vec![ret(lit(Literal::Boolean(true))), Operation::End]);
    assert_eq!(run(&f, vec![], vec![]).0, Ok(Literal::Boolean(true)));
    assert_eq!(check(&f, vec![], vec![]), Ok(()));
}

#[test]
fn invalid_break() {
    let f = Function::from_operations(vec![Operation::Break]);
    assert_eq!(run(&f, vec![], vec![]).0, Err(RuntimeError::Misplaced("break")));
    assert_eq!(check(&f, vec![], vec![]), Err(SyntaxError::InvalidBreak));
}

fn count_to_five() -> Function {
    Function::from_operations(vec![
        Operation::For {
            start: lit(integer(0)),
            end: lit(integer(10)),
            index: String::from("i"),
            operations: vec![Operation::If {
                condition: compare(Comparator::Equal, var("sum"), lit(integer(5))),
                truthy: vec![Operation::Break],
                falsy: vec![set_var("sum", binary(BinaryOperator::Add, var("sum"), lit(integer(1))))],
            }],
        },
        ret(var("sum")),
    ])
}

#[test]
fn valid_break() {
    let f = count_to_five();
    assert_eq!(run(&f, vec![("sum", integer(0))], vec![]).0, Ok(integer(5)));
    assert_eq!(check(&f, vec!["sum"], vec![]), Ok(()));
}

#[test]
fn local_variables() {
    let f = Function::from_operations(vec![
        set_var("hello", lit(Literal::Boolean(true))),
        set_var(
            "hello",
            Value::UnaryExpression { operator: UnaryOperator::BitwiseNot, value: Box::new(var("hello")) },
        ),
        ret(var("hello")),
    ]);
    assert_eq!(run(&f, vec![], vec![]).0, Ok(Literal::Boolean(false)));
    assert_eq!(check(&f, vec![], vec![]), Ok(()));
}

#[test]
fn global_variables() {
    let f = Function::from_operations(vec![ret(binary(BinaryOperator::Divide, var("f"), lit(integer(2))))]);
    let five = Literal::Number(Number::Float(bits(5.0)));
    assert_eq!(
        run(&f, vec![("f", five)], vec![]).0,
        Ok(Literal::Number(Number::Float(bits(2.5))))
    );
    assert_eq!(check(&f, vec!["f"], vec![]), Ok(()));
}

#[test]
fn local_and_global_variables() {
    let f = Function::from_operations(vec![
        Operation::If {
            condition: compare(Comparator::GreaterThan, var("value"), lit(integer(20))),
            truthy: vec![set_var("result", binary(BinaryOperator::Modulo, var("value"), lit(integer(9))))],
            falsy: vec![set_var("result", lit(integer(2)))],
        },
        set_var("result", binary(BinaryOperator::Power, var("value"), var("result"))),
        ret(var("result")),
    ]);
    assert_eq!(run(&f, vec![("value", integer(42))], vec![]).0, Ok(integer(5489031744)));
    assert_eq!(check(&f, vec!["value"], vec![]), Ok(()));
}

#[test]
fn nested_calls() {
    let six = Function::from_operations(vec![ret(lit(integer(6)))]);
    let seven = Function::from_operations(vec![ret(lit(integer(7)))]);
    let f = Function::from_operations(vec![ret(binary(
        BinaryOperator::Multiply,
        call("seven", vec![]),
        call("six", vec![]),
    ))]);
    assert_eq!(run(&f, vec![], vec![("six", six), ("seven", seven)]).0, Ok(integer(42)));
    assert_eq!(check(&f, vec![], vec![("six", 0), ("seven", 0)]), Ok(()));
}

#[test]
fn with_arguments() {
    let takes_args = Function::new(vec![String::from("arg")], vec![ret(var("arg"))]);
    let f = Function::from_operations(vec![ret(call("takes-args", vec![lit(Literal::Boolean(true))]))]);
    assert_eq!(
        run(&f, vec![], vec![("takes-args", takes_args)]).0,
        Ok(Literal::Boolean(true))
    );
    assert_eq!(check(&f, vec![], vec![("takes-args", 1)]), Ok(()));
}

#[test]
fn with_arguments_and_globals() {
    let takes_args = Function::new(
        vec![String::from("arg")],
        vec![set_var("global", lit(integer(8))), ret(var("arg"))],
    );
    let f = Function::from_operations(vec![ret(call("takes-args", vec![lit(Literal::Boolean(true))]))]);
    let (r, scope) = run(&f, vec![("global", Literal::Null)], vec![("takes-args", takes_args)]);
    assert_eq!(r, Ok(Literal::Boolean(true)));
    assert_eq!(scope.get(&String::from("global")), Some(&integer(8)));
    assert_eq!(check(&f, vec!["global"], vec![("takes-args", 1)]), Ok(()));
}

#[test]
fn with_arguments_locals_and_globals() {
    let takes_args = Function::new(
        vec![String::from("arg")],
        vec![
            set_var("global", lit(integer(8))),
            set_var("local", lit(Literal::String(String::from("callee")))),
            ret(var("arg")),
        ],
    );
    let f = Function::from_operations(vec![
        set_var("local", lit(Literal::String(String::from("caller")))),
        ret(call("takes-args", vec![lit(Literal::Boolean(true))])),
    ]);
    let (r, scope) = run(&f, vec![("global", Literal::Null)], vec![("takes-args", takes_args)]);
    assert_eq!(r, Ok(Literal::Boolean(true)));
    assert_eq!(scope.get(&String::from("global")), Some(&integer(8)));
    assert_eq!(
        scope.get(&String::from("local")),
        Some(&Literal::String(String::from("caller")))
    );
    assert_eq!(check(&f, vec!["global"], vec![("takes-args", 1)]), Ok(()));
}

fn factorial() -> Function {
    Function::new(
        vec![String::from("n")],
        vec![Operation::If {
            condition: compare(Comparator::Equal, var("n"), lit(integer(0))),
            truthy: vec![ret(lit(integer(1)))],
            falsy: vec![ret(binary(
                BinaryOperator::Multiply,
                var("n"),
                call("factorial", vec![binary(BinaryOperator::Subtract, var("n"), lit(integer(1)))]),
            ))],
        }],
    )
}

#[test]
fn recursive() {
    let f = Function::from_operations(vec![ret(call("factorial", vec![lit(integer(5))]))]);
    assert_eq!(run(&f, vec![], vec![("factorial", factorial())]).0, Ok(integer(120)));
    assert_eq!(check(&f, vec![], vec![("factorial", 1)]), Ok(()));
}

#[test]
fn invalid_entrypoint_with_args() {
    let f = Function::new(vec![String::from("a"), String::from("b")], vec![]);
    assert_eq!(check_entrypoint(&f), Err(SyntaxError::InvalidEntrypoint));
}

#[test]
fn invalid_entrypoint_no_end() {
    let f = Function::from_operations(vec![]);
    assert_eq!(check_entrypoint(&f), Err(SyntaxError::ExpectedEnd));
}

#[test]
fn invalid_entrypoint_return() {
    let f = Function::from_operations(vec![ret(lit(Literal::Boolean(true))), Operation::End]);
    assert_eq!(check_entrypoint(&f), Err(SyntaxError::InvalidReturn));
}

#[test]
fn invalid_entrypoint_break() {
    let f = Function::from_operations(vec![Operation::Break, Operation::End]);
    assert_eq!(check_entrypoint(&f), Err(SyntaxError::InvalidBreak));
}

#[test]
fn repeated_parameters_are_refused() {
    let f = Function::new(vec![String::from("a"), String::from("a")], vec![]);
    assert_eq!(check(&f, vec![], vec![]), Err(SyntaxError::NonUniqueArguments));
}

#[test]
fn unknown_names_are_refused() {
    let f = Function::from_operations(vec![ret(var("missing"))]);
    assert_eq!(
        check(&f, vec![], vec![]),
        Err(SyntaxError::UnknownVariable { name: String::from("missing") })
    );
    let g = Function::from_operations(vec![ret(call("nowhere", vec![]))]);
    assert_eq!(
        check(&g, vec![], vec![]),
        Err(SyntaxError::UnknownFunction { name: String::from("nowhere") })
    );
    let h = Function::from_operations(vec![ret(call("two", vec![lit(integer(1))]))]);
    assert_eq!(
        check(&h, vec![], vec![("two", 2)]),
        Err(SyntaxError::MismatchArguments { name: String::from("two"), expected: 2, actual: 1 })
    );
}

#[test]
fn deep_recursion_stops_with_an_error() {
    let forever = Function::from_operations(vec![ret(call("forever", vec![]))]);
    let f = Function::from_operations(vec![ret(call("forever", vec![]))]);
    assert_eq!(run(&f, vec![], vec![("forever", forever)]).0, Err(RuntimeError::Depth));
}

#[test]
fn nested_break_outside_a_loop_is_refused() {
    let f = Function::from_operations(vec![
        Operation::If { condition: lit(Literal::Boolean(true)), truthy: vec![Operation::Break], falsy: vec![] },
        Operation::End,
    ]);
    assert_eq!(check_entrypoint(&f), Err(SyntaxError::InvalidBreak));
}

#[test]
fn sleep_duration_is_checked() {
    let f = Function::from_operations(vec![Operation::Sleep { duration: var("x") }, Operation::End]);
    assert_eq!(check_entrypoint(&f), Err(SyntaxError::UnknownVariable { name: String::from("x") }));
}

#[test]
fn left_operand_error_comes_first() {
    let f = Function::from_operations(vec![ret(binary(BinaryOperator::Add, var("a"), var("b")))]);
    assert_eq!(run(&f, vec![], vec![]).0, Err(RuntimeError::Name(String::from("a"))));
    assert_eq!(
        check(&f, vec![], vec![]),
        Err(SyntaxError::UnknownVariable { name: String::from("a") })
    );
}

#[test]
fn arguments_bind_to_parameters_in_order() {
    let f = Function::new(vec![String::from("x"), String::from("y")], vec![]);
    let mut scope = Scope::new(vec![(String::from("g"), integer(7))]);
    let mut out: Vec<Effect> = Vec::new();
    let args = vec![lit(integer(1)), binary(BinaryOperator::Add, var("g"), lit(integer(1)))];
    let bound = f.associate_args(&mut scope, &args, &vec![], &Ieee, &mut out, MAX_DEPTH);
    assert_eq!(
        bound,
        Ok(vec![(String::from("x"), integer(1)), (String::from("y"), integer(8))])
    );
    let failing = vec![var("missing"), var("other")];
    let err = f.associate_args(&mut scope, &failing, &vec![], &Ieee, &mut out, MAX_DEPTH);
    assert_eq!(err, Err(RuntimeError::Name(String::from("missing"))));
    assert!(out.is_empty());
}

#[test]
fn unknown_function_call_changes_nothing() {
    let mut scope = Scope::new(vec![(String::from("g"), integer(7))]);
    let mut out: Vec<Effect> = Vec::new();
    let op = Operation::Function { name: String::from("nonexistent"), args: vec![] };
    let r = op.evaluate(&mut scope, &vec![], &Ieee, &mut out, MAX_DEPTH);
    assert_eq!(r, Err(RuntimeError::Name(String::from("nonexistent"))));
    assert_eq!(scope.globals, vec![(String::from("g"), integer(7))]);
    assert!(scope.locals.is_empty());
    assert!(out.is_empty());
}
