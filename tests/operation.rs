use lights::flow::ast::{BinaryOperator, Comparator, Function, Operation, Value};
use lights::flow::error::TypeError;
use lights::flow::interpret::{Effect, ReturnType, RuntimeError, MAX_DEPTH};
use lights::pixels::Action;
use lights::flow::literal::{Float, FloatArithmetic, Literal, Number};
use lights::flow::scope::Scope;

struct Ieee;

fn f(x: Float) -> f64 {
    f64::from_bits(x.to_bits())
}

fn bits(x: f64) -> Float {
    Float::from_bits(x.to_bits())
}

impl FloatArithmetic for Ieee {
    fn from_integer(&self, i: i64) -> Float {
        bits(i as f64)
    }
    fn add(&self, a: Float, b: Float) -> Float {
        bits(f(a) + f(b))
    }
    fn sub(&self, a: Float, b: Float) -> Float {
        bits(f(a) - f(b))
    }
    fn mul(&self, a: Float, b: Float) -> Float {
        bits(f(a) * f(b))
    }
    fn div(&self, a: Float, b: Float) -> Float {
        bits(f(a) / f(b))
    }
    fn rem(&self, a: Float, b: Float) -> Float {
        bits(f(a) % f(b))
    }
    fn powf(&self, a: Float, b: Float) -> Float {
        bits(f(a).powf(f(b)))
    }
    fn powi(&self, a: Float, n: i32) -> Float {
        bits(f(a).powi(n))
    }
    fn seconds_to_nanos(&self, secs: Float) -> Option<u64> {
        let d = std::time::Duration::try_from_secs_f64(f(secs)).ok()?;
        u64::try_from(d.as_nanos()).ok()
    }
}

fn integer(i: i64) -> Literal {
    Literal::Number(Number::Integer(i))
}

fn lit(l: Literal) -> Value {
    Value::Literal { value: l }
}

fn var(name: &str) -> Value {
    Value::Variable { name: name.to_string() }
}

fn binary(operator: BinaryOperator, lhs: Value, rhs: Value) -> Value {
    Value::BinaryExpression { operator, lhs: Box::new(lhs), rhs: Box::new(rhs) }
}

fn compare(comparator: Comparator, lhs: Value, rhs: Value) -> Value {
    Value::Comparison { comparator, lhs: Box::new(lhs), rhs: Box::new(rhs) }
}

fn call(name: &str, args: Vec<Value>) -> Value {
    Value::Function { name: name.to_string(), args }
}

fn set_var(name: &str, value: Value) -> Operation {
    Operation::Variable { name: name.to_string(), value }
}

fn ret(value: Value) -> Operation {
    Operation::Return { result: value }
}

/// Runs one operation with the globals; gives its signal, the scope and the effects.
fn step(op: &Operation, globals: Vec<(&str, Literal)>, functions: Vec<(&str, Function)>) -> (Result<ReturnType, RuntimeError>, Scope, Vec<Effect>) {
    let globals = globals.into_iter().map(|(k, v)| (k.to_string(), v)).collect();
    let functions: Vec<(String, Function)> =
        functions.into_iter().map(|(k, v)| (k.to_string(), v)).collect();
    let mut scope = Scope::new(globals);
    let mut out: Vec<Effect> = Vec::new();
    let r = op.evaluate(&mut scope, &functions, &Ieee, &mut out, MAX_DEPTH);
    (r, scope, out)
}

fn text(s: &str) -> Literal {
    Literal::String(s.to_string())
}

#[test]
fn end() {
    assert_eq!(step(&Operation::End, vec![], vec![]).0, Ok(ReturnType::End));
}

#[test]
fn if_truthy() {
    let op = Operation::If {
        condition: lit(Literal::Boolean(true)),
        truthy: vec![ret(lit(text("truthy")))],
        falsy: vec![ret(lit(text("falsy")))],
    };
    assert_eq!(step(&op, vec![], vec![]).0, Ok(ReturnType::Return(text("truthy"))));
}

#[test]
fn if_falsy() {
    let op = Operation::If {
        condition: lit(Literal::Boolean(false)),
        truthy: vec![ret(lit(text("truthy")))],
        falsy: vec![ret(lit(text("falsy")))],
    };
    assert_eq!(step(&op, vec![], vec![]).0, Ok(ReturnType::Return(text("falsy"))));
}

#[test]
fn for_simple() {
    let op = Operation::For {
        start: lit(integer(1)),
        end: lit(integer(10)),
        index: String::from("i"),
        operations: vec![set_var(
            "factorial",
            binary(BinaryOperator::Multiply, var("i"), var("factorial")),
        )],
    };
    let (r, scope, _) = step(&op, vec![("factorial", integer(1))], vec![]);
    assert_eq!(r, Ok(ReturnType::Continue));
    assert_eq!(scope.get(&String::from("factorial")), Some(&integer(362880)));
}

#[test]
fn for_break() {
    let op = Operation::For {
        start: lit(integer(0)),
        end: lit(integer(10)),
        index: String::from("i"),
        operations: vec![
            set_var("sum", binary(BinaryOperator::Add, var("sum"), lit(integer(1)))),
            Operation::If {
                condition: compare(Comparator::Equal, var("sum"), lit(integer(5))),
                truthy: vec![Operation::Break],
                falsy: vec![],
            },
        ],
    };
    let (r, scope, _) = step(&op, vec![("sum", integer(0))], vec![]);
    assert_eq!(r, Ok(ReturnType::Continue));
    assert_eq!(scope.get(&String::from("sum")), Some(&integer(5)));
}

#[test]
fn for_return() {
    let op = Operation::For {
        start: lit(integer(0)),
        end: lit(integer(10)),
        index: String::from("i"),
        operations: vec![ret(var("i"))],
    };
    assert_eq!(step(&op, vec![], vec![]).0, Ok(ReturnType::Return(integer(0))));
}

#[test]
fn variable() {
    let op = set_var("testing", lit(Literal::Boolean(true)));
    let (r, scope, _) = step(&op, vec![], vec![]);
    assert_eq!(r, Ok(ReturnType::Continue));
    assert_eq!(scope.get(&String::from("testing")), Some(&Literal::Boolean(true)));
}

#[test]
fn function_empty() {
    let op = Operation::Function { name: String::from("empty"), args: vec![] };
    let empty = Function::from_operations(vec![]);
    assert_eq!(step(&op, vec![], vec![("empty", empty)]).0, Ok(ReturnType::Continue));
}

#[test]
fn function_simple() {
    let op = Operation::Function { name: String::from("simple"), args: vec![] };
    let simple = Function::from_operations(vec![set_var("return", lit(Literal::Boolean(true)))]);
    let (r, scope, _) = step(&op, vec![("return", Literal::Null)], vec![("simple", simple)]);
    assert_eq!(r, Ok(ReturnType::Continue));
    assert_eq!(scope.get(&String::from("return")), Some(&Literal::Boolean(true)));
}

#[test]
fn function_with_args() {
    let op = Operation::Function {
        name: String::from("args"),
        args: vec![lit(Literal::Boolean(true))],
    };
    let args = Function::new(vec![String::from("unused")], vec![set_var("return", lit(integer(7)))]);
    let (r, scope, _) = step(&op, vec![("return", Literal::Null)], vec![("args", args)]);
    assert_eq!(r, Ok(ReturnType::Continue));
    assert_eq!(scope.get(&String::from("return")), Some(&integer(7)));
}

#[test]
fn nonexistent_function() {
    let op = Operation::Function { name: String::from("nonexistent"), args: vec![] };
    assert_eq!(
        step(&op, vec![], vec![]).0,
        Err(RuntimeError::Name(String::from("nonexistent")))
    );
}

#[test]
fn brightness() {
    let op = Operation::Brightness { value: lit(integer(8)) };
    let (r, _, out) = step(&op, vec![], vec![]);
    assert_eq!(r, Ok(ReturnType::Continue));
    assert_eq!(out, vec![Effect::Pixel(Action::Brightness(8))]);
}

#[test]
fn fill() {
    let op = Operation::Fill { red: lit(integer(255)), green: lit(integer(0)), blue: lit(integer(0)) };
    let (r, _, out) = step(&op, vec![], vec![]);
    assert_eq!(r, Ok(ReturnType::Continue));
    assert_eq!(out, vec![Effect::Pixel(Action::Fill { r: 255, g: 0, b: 0 })]);
}

#[test]
fn set() {
    let op = Operation::SetPixel {
        index: lit(integer(54)),
        red: lit(integer(0)),
        green: lit(integer(255)),
        blue: lit(integer(0)),
    };
    let (r, _, out) = step(&op, vec![], vec![]);
    assert_eq!(r, Ok(ReturnType::Continue));
    assert_eq!(out, vec![Effect::Pixel(Action::SetPixel { index: 54, r: 0, g: 255, b: 0 })]);
}

#[test]
fn show() {
    let (r, _, out) = step(&Operation::Show, vec![], vec![]);
    assert_eq!(r, Ok(ReturnType::Continue));
    assert_eq!(out, vec![Effect::Pixel(Action::Show)]);
}

#[test]
fn sleep() {
    let op = Operation::Sleep { duration: lit(integer(500)) };
    let (r, _, out) = step(&op, vec![], vec![]);
    assert_eq!(r, Ok(ReturnType::Continue));
    assert_eq!(out, vec![Effect::Sleep(500_000_000)]);
}

#[test]
fn pixel_values_are_clamped() {
    let op = Operation::SetPixel {
        index: lit(integer(70000)),
        red: lit(integer(-4)),
        green: lit(integer(256)),
        blue: lit(integer(255)),
    };
    let (_, _, out) = step(&op, vec![], vec![]);
    assert_eq!(out, vec![Effect::Pixel(Action::SetPixel { index: 65535, r: 0, g: 255, b: 255 })]);
}

#[test]
fn evaluate_literal() {
    let mut scope = Scope::new(vec![]);
    let r = lit(integer(56)).evaluate(&mut scope, &vec![], &Ieee, &mut vec![], MAX_DEPTH);
    assert_eq!(r, Ok(integer(56)));
}

#[test]
fn evaluate_missing_variable() {
    let mut scope = Scope::new(vec![]);
    let r = var("i-dont-exist").evaluate(&mut scope, &vec![], &Ieee, &mut vec![], MAX_DEPTH);
    assert_eq!(r, Err(RuntimeError::Name(String::from("i-dont-exist"))));
}

#[test]
fn evaluate_variable() {
    let mut scope = Scope::new(vec![(String::from("something"), Literal::Boolean(true))]);
    let r = var("something").evaluate(&mut scope, &vec![], &Ieee, &mut vec![], MAX_DEPTH);
    assert_eq!(r, Ok(Literal::Boolean(true)));
}

#[test]
fn evaluate_simple_binary_expression() {
    let mut scope = Scope::new(vec![]);
    let v = binary(BinaryOperator::Add, lit(text("hello ")), lit(text("world")));
    let r = v.evaluate(&mut scope, &vec![], &Ieee, &mut vec![], MAX_DEPTH);
    assert_eq!(r, Ok(text("hello world")));
}

#[test]
fn evaluate_failing_binary_expression() {
    let mut scope = Scope::new(vec![]);
    let v = binary(BinaryOperator::BitwiseOr, lit(Literal::Number(Number::Float(bits(1.5)))), lit(Literal::Null));
    let r = v.evaluate(&mut scope, &vec![], &Ieee, &mut vec![], MAX_DEPTH);
    assert_eq!(
        r,
        Err(RuntimeError::Type(TypeError::BinaryOperator { operator: "bitwise or", a: "float", b: "null" }))
    );
}

#[test]
fn evaluate_failing_comparison() {
    let mut scope = Scope::new(vec![]);
    let v = compare(Comparator::Equal, lit(text("abc")), lit(integer(1)));
    let r = v.evaluate(&mut scope, &vec![], &Ieee, &mut vec![], MAX_DEPTH);
    assert_eq!(r, Err(RuntimeError::Type(TypeError::Comparison { a: "string", b: "integer" })));
}

#[test]
fn evaluate_nonexistent_function() {
    let mut scope = Scope::new(vec![]);
    let r = call("nonexistent", vec![]).evaluate(&mut scope, &vec![], &Ieee, &mut vec![], MAX_DEPTH);
    assert_eq!(r, Err(RuntimeError::Name(String::from("nonexistent"))));
}

fn eval(v: &Value, globals: Vec<(&str, Literal)>, functions: Vec<(&str, Function)>) -> Result<Literal, RuntimeError> {
    let globals = globals.into_iter().map(|(k, v)| (k.to_string(), v)).collect();
    let functions: Vec<(String, Function)> =
        functions.into_iter().map(|(k, v)| (k.to_string(), v)).collect();
    let mut scope = Scope::new(globals);
    v.evaluate(&mut scope, &functions, &Ieee, &mut vec![], MAX_DEPTH)
}

fn flo(x: f64) -> Literal {
    Literal::Number(Number::Float(bits(x)))
}

fn unary(operator: lights::flow::ast::UnaryOperator, value: Value) -> Value {
    Value::UnaryExpression { operator, value: Box::new(value) }
}

#[test]
fn evaluate_simple_unary_expression() {
    let v = unary(lights::flow::ast::UnaryOperator::Negate, lit(flo(73.4)));
    assert_eq!(eval(&v, vec![], vec![]), Ok(flo(-73.4)));
}

#[test]
fn evaluate_nested_unary_expression() {
    let v = unary(lights::flow::ast::UnaryOperator::BitwiseNot, var("boolean"));
    assert_eq!(eval(&v, vec![("boolean", Literal::Boolean(true))], vec![]), Ok(Literal::Boolean(false)));
}

#[test]
fn evaluate_failing_unary_expression() {
    let v = unary(lights::flow::ast::UnaryOperator::Negate, lit(Literal::Null));
    assert_eq!(
        eval(&v, vec![], vec![]),
        Err(RuntimeError::Type(TypeError::UnaryOperator { kind: "null", operator: "negate" }))
    );
}

#[test]
fn evaluate_nested_binary_expression() {
    let v = binary(
        BinaryOperator::Multiply,
        binary(BinaryOperator::Subtract, var("a"), lit(integer(6))),
        unary(lights::flow::ast::UnaryOperator::BitwiseNot, var("b")),
    );
    assert_eq!(eval(&v, vec![("a", integer(32)), ("b", integer(3))], vec![]), Ok(integer(-104)));
}

#[test]
fn evaluate_simple_comparison() {
    let v = compare(Comparator::Equal, lit(integer(6)), lit(integer(6)));
    assert_eq!(eval(&v, vec![], vec![]), Ok(Literal::Boolean(true)));
}

#[test]
fn evaluate_nested_comparison() {
    let v = compare(
        Comparator::GreaterThanOrEqual,
        binary(BinaryOperator::Modulo, lit(integer(9)), var("a")),
        lit(integer(6)),
    );
    assert_eq!(eval(&v, vec![("a", integer(5))], vec![]), Ok(Literal::Boolean(false)));
}

#[test]
fn evaluate_empty_function() {
    let v = call("empty", vec![]);
    assert_eq!(eval(&v, vec![], vec![("empty", Function::from_operations(vec![]))]), Ok(Literal::Null));
}

#[test]
fn evaluate_simple_function() {
    let f = Function::from_operations(vec![ret(lit(Literal::Boolean(true)))]);
    assert_eq!(eval(&call("simple", vec![]), vec![], vec![("simple", f)]), Ok(Literal::Boolean(true)));
}

#[test]
fn evaluate_function_with_args() {
    let f = Function::new(vec![String::from("v"), String::from("unused")], vec![ret(var("v"))]);
    let v = call("i-have-args", vec![lit(text("value")), lit(Literal::Null)]);
    assert_eq!(eval(&v, vec![], vec![("i-have-args", f)]), Ok(text("value")));
}

#[test]
fn evaluate_nested_function() {
    let f = Function::from_operations(vec![ret(lit(integer(6)))]);
    let v = binary(BinaryOperator::Divide, call("six", vec![]), lit(flo(2.0)));
    assert_eq!(eval(&v, vec![], vec![("six", f)]), Ok(flo(3.0)));
}

#[test]
fn comparisons_across_kinds() {
    let yes = compare(Comparator::Equal, lit(Literal::Boolean(true)), lit(integer(7)));
    assert_eq!(eval(&yes, vec![], vec![]), Ok(Literal::Boolean(true)));
    let null = compare(Comparator::Equal, lit(Literal::Boolean(false)), lit(Literal::Null));
    assert_eq!(
        eval(&null, vec![], vec![]),
        Err(RuntimeError::Type(TypeError::Comparison { a: "boolean", b: "null" }))
    );
    let order = compare(Comparator::LessThan, lit(text("abc")), lit(text("abd")));
    assert_eq!(eval(&order, vec![], vec![]), Ok(Literal::Boolean(true)));
    let nan = compare(Comparator::Equal, lit(flo(f64::NAN)), lit(flo(f64::NAN)));
    assert_eq!(eval(&nan, vec![], vec![]), Ok(Literal::Boolean(false)));
    let zeros = compare(Comparator::Equal, lit(flo(-0.0)), lit(integer(0)));
    assert_eq!(eval(&zeros, vec![], vec![]), Ok(Literal::Boolean(true)));
}
