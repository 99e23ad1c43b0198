use lights::flow::duration::{duration_from_literal, DurationParseError};
use lights::flow::error::TypeError;
use lights::flow::literal::{Float, FloatArithmetic, Literal, Number};
use std::cmp::Ordering;

/// Float arithmetic of the machine, for the operations the library leaves open.
struct Ieee;

fn f(x: Float) -> f64 {
    f64::from_bits(x.to_bits())
}

fn bits(x: f64) -> Float {
    Float::from_bits(x.to_bits())
}

impl FloatArithmetic for Ieee {
    fn from_integer(&self, i: i64) -> Float {
        bits(i as f64)
    }
    fn add(&self, a: Float, b: Float) -> Float {
        bits(f(a) + f(b))
    }
    fn sub(&self, a: Float, b: Float) -> Float {
        bits(f(a) - f(b))
    }
    fn mul(&self, a: Float, b: Float) -> Float {
        bits(f(a) * f(b))
    }
    fn div(&self, a: Float, b: Float) -> Float {
        bits(f(a) / f(b))
    }
    fn rem(&self, a: Float, b: Float) -> Float {
        bits(f(a) % f(b))
    }
    fn powf(&self, a: Float, b: Float) -> Float {
        bits(f(a).powf(f(b)))
    }
    fn powi(&self, a: Float, n: i32) -> Float {
        bits(f(a).powi(n))
    }
    fn seconds_to_nanos(&self, secs: Float) -> Option<u64> {
        let d = std::time::Duration::try_from_secs_f64(f(secs)).ok()?;
        u64::try_from(d.as_nanos()).ok()
    }
}

fn float(x: f64) -> Number {
    Number::Float(bits(x))
}

fn flit(x: f64) -> Literal {
    Literal::Number(float(x))
}

fn ilit(i: i64) -> Literal {
    Literal::Number(Number::Integer(i))
}

fn slit(s: &str) -> Literal {
    Literal::String(s.to_string())
}

/// The values each conversion is tried on, in a fixed order.
fn samples() -> Vec<Literal> {
    vec![
        Literal::Null,
        Literal::Boolean(true),
        Literal::Boolean(false),
        ilit(5),
        ilit(0),
        ilit(-5),
        flit(5.3),
        flit(0.0),
        flit(-5.3),
        slit("abc"),
        slit(""),
    ]
}

fn conversion(expected: &'static str, found: &'static str) -> TypeError {
    TypeError::Conversion { expected, found }
}

#[test]
fn literal_to_boolean() {
    let expected = [false, true, false, true, false, true, true, false, true, true, false];
    for (l, e) in samples().iter().zip(expected) {
        assert_eq!(l.as_boolean(), Ok(e));
    }
}

#[test]
fn literal_to_integer() {
    let expected = vec![
        Ok(None),
        Err(conversion("integer", "boolean")),
        Err(conversion("integer", "boolean")),
        Ok(Some(5)),
        Ok(Some(0)),
        Ok(Some(-5)),
        Ok(Some(5)),
        Ok(Some(0)),
        Ok(Some(-5)),
        Err(conversion("integer", "string")),
        Err(conversion("integer", "string")),
    ];
    for (l, e) in samples().iter().zip(expected) {
        assert_eq!(l.as_integer(), e);
    }
}

#[test]
fn literal_to_non_null_integer() {
    let expected = vec![
        Err(conversion("integer", "null")),
        Err(conversion("integer", "boolean")),
        Err(conversion("integer", "boolean")),
        Ok(5),
        Ok(0),
        Ok(-5),
        Ok(5),
        Ok(0),
        Ok(-5),
        Err(conversion("integer", "string")),
        Err(conversion("integer", "string")),
    ];
    for (l, e) in samples().iter().zip(expected) {
        assert_eq!(l.as_non_null_integer(), e);
    }
}

#[test]
fn literal_to_string() {
    let expected = vec![
        Ok(None),
        Err(conversion("string", "boolean")),
        Err(conversion("string", "boolean")),
        Err(conversion("string", "integer")),
        Err(conversion("string", "integer")),
        Err(conversion("string", "integer")),
        Err(conversion("string", "float")),
        Err(conversion("string", "float")),
        Err(conversion("string", "float")),
        Ok(Some("abc")),
        Ok(Some("")),
    ];
    for (l, e) in samples().iter().zip(expected) {
        assert_eq!(l.as_string(), e);
    }
}

#[test]
fn literal_to_non_null_string() {
    let expected = vec![
        Err(conversion("string", "null")),
        Err(conversion("string", "boolean")),
        Err(conversion("string", "boolean")),
        Err(conversion("string", "integer")),
        Err(conversion("string", "integer")),
        Err(conversion("string", "integer")),
        Err(conversion("string", "float")),
        Err(conversion("string", "float")),
        Err(conversion("string", "float")),
        Ok("abc"),
        Ok(""),
    ];
    for (l, e) in samples().iter().zip(expected) {
        assert_eq!(l.as_non_null_string(), e);
    }
}

#[test]
fn literal_neg() {
    let unary = |operator, kind| Err(TypeError::UnaryOperator { operator, kind });
    let expected = vec![
        unary("negate", "null"),
        unary("negate", "boolean"),
        unary("negate", "boolean"),
        Ok(ilit(-5)),
        Ok(ilit(0)),
        Ok(ilit(5)),
        Ok(flit(-5.3)),
        Ok(flit(-0.0)),
        Ok(flit(5.3)),
        unary("negate", "string"),
        unary("negate", "string"),
    ];
    for (l, e) in samples().into_iter().zip(expected) {
        assert_eq!(l.try_neg(), e);
    }
}

#[test]
fn literal_not() {
    let unary = |operator, kind| Err(TypeError::UnaryOperator { operator, kind });
    let expected = vec![
        unary("bitwise not", "null"),
        Ok(Literal::Boolean(false)),
        Ok(Literal::Boolean(true)),
        Ok(ilit(-6)),
        Ok(ilit(-1)),
        Ok(ilit(4)),
        unary("bitwise not", "float"),
        unary("bitwise not", "float"),
        unary("bitwise not", "float"),
        unary("bitwise not", "string"),
        unary("bitwise not", "string"),
    ];
    for (l, e) in samples().into_iter().zip(expected) {
        assert_eq!(l.try_not(), e);
    }
}

#[test]
fn number_operations_on_float_and_float() {
    let (a_raw, b_raw) = (5.3, 7.2);
    let (a, b) = (float(a_raw), float(b_raw));

    assert_eq!(a == b, false);
    assert_eq!(a.compare(&b, &Ieee), Some(Ordering::Less));

    assert_eq!(a.neg(), Ok(float(-a_raw)));
    assert_eq!(a.add(b, &Ieee), Ok(float(a_raw + b_raw)));
    assert_eq!(a.sub(b, &Ieee), Ok(float(a_raw - b_raw)));
    assert_eq!(a.mul(b, &Ieee), Ok(float(a_raw * b_raw)));
    assert_eq!(a.div(b, &Ieee), Ok(float(a_raw / b_raw)));
    assert_eq!(a.rem(b, &Ieee), Ok(float(a_raw % b_raw)));
    assert_eq!(a.pow(b, &Ieee), Ok(float(a_raw.powf(b_raw))));

    assert!(a.try_not().is_err());
    assert!(a.try_bitand(b).is_err());
    assert!(a.try_bitor(b).is_err());
    assert!(a.try_bitxor(b).is_err());
}

#[test]
fn number_operations_on_integer_and_integer() {
    let (a_raw, b_raw): (i64, i64) = (5, 7);
    let (a, b) = (Number::Integer(a_raw), Number::Integer(b_raw));

    assert_eq!(a == b, false);
    assert_eq!(a.compare(&b, &Ieee), Some(Ordering::Less));

    assert_eq!(a.neg(), Ok(Number::Integer(-a_raw)));
    assert_eq!(a.add(b, &Ieee), Ok(Number::Integer(a_raw + b_raw)));
    assert_eq!(a.sub(b, &Ieee), Ok(Number::Integer(a_raw - b_raw)));
    assert_eq!(a.mul(b, &Ieee), Ok(Number::Integer(a_raw * b_raw)));
    assert_eq!(a.div(b, &Ieee), Ok(Number::Integer(a_raw / b_raw)));
    assert_eq!(a.rem(b, &Ieee), Ok(Number::Integer(a_raw % b_raw)));
    assert_eq!(a.pow(b, &Ieee), Ok(Number::Integer(a_raw.pow(b_raw as u32))));

    assert_eq!(a.try_not().unwrap(), Number::Integer(!a_raw));
    assert_eq!(a.try_bitand(b).unwrap(), Number::Integer(a_raw & b_raw));
    assert_eq!(a.try_bitor(b).unwrap(), Number::Integer(a_raw | b_raw));
    assert_eq!(a.try_bitxor(b).unwrap(), Number::Integer(a_raw ^ b_raw));
}

#[test]
fn number_operations_on_mixed_numbers() {
    let (i_raw, f_raw): (i64, f64) = (5, 7.2);
    let (i, f) = (Number::Integer(i_raw), float(f_raw));

    assert_eq!(i == f, false);
    assert_eq!(f == i, false);
    assert_eq!(i.compare(&f, &Ieee), Some(Ordering::Less));
    assert_eq!(f.compare(&i, &Ieee), Some(Ordering::Greater));

    assert_eq!(i.add(f, &Ieee), Ok(float(i_raw as f64 + f_raw)));
    assert_eq!(f.add(i, &Ieee), Ok(float(f_raw + i_raw as f64)));
    assert_eq!(i.sub(f, &Ieee), Ok(float(i_raw as f64 - f_raw)));
    assert_eq!(f.sub(i, &Ieee), Ok(float(f_raw - i_raw as f64)));
    assert_eq!(i.mul(f, &Ieee), Ok(float(i_raw as f64 * f_raw)));
    assert_eq!(f.mul(i, &Ieee), Ok(float(f_raw * i_raw as f64)));
    assert_eq!(i.div(f, &Ieee), Ok(float(i_raw as f64 / f_raw)));
    assert_eq!(f.div(i, &Ieee), Ok(float(f_raw / i_raw as f64)));
    assert_eq!(i.rem(f, &Ieee), Ok(float(i_raw as f64 % f_raw)));
    assert_eq!(f.rem(i, &Ieee), Ok(float(f_raw % i_raw as f64)));
    assert_eq!(i.pow(f, &Ieee), Ok(float((i_raw as f64).powf(f_raw))));
    assert_eq!(f.pow(i, &Ieee), Ok(float(f_raw.powi(i_raw as i32))));

    assert!(i.try_bitand(f).is_err());
    assert!(f.try_bitand(i).is_err());
    assert!(i.try_bitor(f).is_err());
    assert!(f.try_bitor(i).is_err());
    assert!(i.try_bitxor(f).is_err());
    assert!(f.try_bitxor(i).is_err());
}

#[test]
fn number_from_boolean() {
    assert_eq!(Number::from(true), Number::Integer(1));
    assert_eq!(Number::from(false), Number::Integer(0));
    assert_eq!(Number::from_bool(true), Number::Integer(1));
}

#[test]
fn number_from_signed() {
    assert_eq!(Number::from(10_i8), Number::Integer(10));
    assert_eq!(Number::from(-10_i8), Number::Integer(-10));
    assert_eq!(Number::from(15_i16), Number::Integer(15));
    assert_eq!(Number::from(-15_i16), Number::Integer(-15));
    assert_eq!(Number::from(43_i32), Number::Integer(43));
    assert_eq!(Number::from(-43_i32), Number::Integer(-43));
    assert_eq!(Number::from(63_i64), Number::Integer(63));
    assert_eq!(Number::from(-63_i64), Number::Integer(-63));
}

#[test]
fn number_from_unsigned() {
    assert_eq!(Number::from(10_u8), Number::Integer(10));
    assert_eq!(Number::from(15_u16), Number::Integer(15));
    assert_eq!(Number::from(43_u32), Number::Integer(43));
}

#[test]
fn literal_from_boolean() {
    assert_eq!(Literal::from(true), Literal::Boolean(true));
    assert_eq!(Literal::from(false), Literal::Boolean(false));
}

#[test]
fn literal_from_integers() {
    assert_eq!(Literal::from(Number::Integer(10)), Literal::Number(Number::Integer(10)));
    assert_eq!(Literal::from(-10_i8), Literal::Number(Number::Integer(-10)));
    assert_eq!(Literal::from(-15_i16), Literal::Number(Number::Integer(-15)));
    assert_eq!(Literal::from(-43_i32), Literal::Number(Number::Integer(-43)));
    assert_eq!(Literal::from(-63_i64), Literal::Number(Number::Integer(-63)));
    assert_eq!(Literal::from(10_u8), Literal::Number(Number::Integer(10)));
    assert_eq!(Literal::from(15_u16), Literal::Number(Number::Integer(15)));
    assert_eq!(Literal::from(43_u32), Literal::Number(Number::Integer(43)));
    assert_eq!(Literal::from(String::from("hello")), Literal::String(String::from("hello")));
}

#[test]
fn literal_to_duration() {
    let secs = |s: u64| s * 1_000_000_000;
    assert!(duration_from_literal(&Literal::Null, &Ieee).is_err());
    assert!(duration_from_literal(&Literal::Boolean(true), &Ieee).is_err());

    assert_eq!(duration_from_literal(&ilit(1000), &Ieee), Ok(secs(1)));
    assert_eq!(duration_from_literal(&flit(5.5), &Ieee), Ok(5_500_000_000));

    assert_eq!(duration_from_literal(&slit("1h"), &Ieee), Ok(secs(60 * 60)));
    assert_eq!(duration_from_literal(&slit("5m"), &Ieee), Ok(secs(60 * 5)));
    assert_eq!(duration_from_literal(&slit("10s"), &Ieee), Ok(secs(10)));
    assert_eq!(duration_from_literal(&slit("5ms"), &Ieee), Ok(5_000_000));
    assert_eq!(duration_from_literal(&slit("60us"), &Ieee), Ok(60_000));
    assert_eq!(duration_from_literal(&slit("328ns"), &Ieee), Ok(328));
    assert_eq!(
        duration_from_literal(&slit("6h5m4s3ms2us1ns"), &Ieee),
        Ok(21904003002001)
    );
    assert_eq!(
        duration_from_literal(&slit("4.5h"), &Ieee),
        Ok(secs(60 * 60 * 4 + 60 * 30))
    );
    assert_eq!(
        duration_from_literal(&slit("5"), &Ieee),
        Err(DurationParseError::MissingUnit)
    );
    assert_eq!(
        duration_from_literal(&slit("5t"), &Ieee),
        Err(DurationParseError::UnknownUnit(String::from('t')))
    );
    assert_eq!(
        duration_from_literal(&slit(".h"), &Ieee),
        Err(DurationParseError::InvalidDuration)
    );
    assert_eq!(
        duration_from_literal(&slit(""), &Ieee),
        Err(DurationParseError::InvalidDuration)
    );
    assert_eq!(duration_from_literal(&slit("0"), &Ieee), Ok(0));
}

#[test]
fn number_to_duration() {
    assert_eq!(duration_from_literal(&ilit(2500), &Ieee), Ok(2_500_000_000));
    assert_eq!(duration_from_literal(&flit(5.5), &Ieee), Ok(5_500_000_000));
}
