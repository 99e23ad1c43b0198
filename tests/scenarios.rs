use lights::animations::{
    decode_animation, encode_animation, host_brightness, host_fill, host_set, AnimationKind,
    Command, Directive, Executor, LoadKind,
};
use lights::errors::PixelsError;
use lights::flow::ast::{BinaryOperator, Comparator, Function, Operation, Program, Value};
use lights::flow::duration::{format_duration, parse_duration, DurationParseError};
use lights::flow::error::SyntaxError;
use lights::flow::interpret::Effect;
use lights::flow::literal::{Float, FloatArithmetic, Literal, Number};
use lights::flow::program::Flow;
use lights::interface::{ChannelBuilder, ControllerBuilder, DriverError, StripType};
use lights::pixels::{apply_action, build_controller, Action};
use lights::rainbow::wheel;
use lights::service::{brightness_request, fill_request, set_all_request, set_request, Color, RequestError};

struct Ieee;

fn f(x: Float) -> f64 {
    f64::from_bits(x.to_bits())
}

fn bits(x: f64) -> Float {
    Float::from_bits(x.to_bits())
}

impl FloatArithmetic for Ieee {
    fn from_integer(&self, i: i64) -> Float {
        bits(i as f64)
    }
    fn add(&self, a: Float, b: Float) -> Float {
        bits(f(a) + f(b))
    }
    fn sub(&self, a: Float, b: Float) -> Float {
        bits(f(a) - f(b))
    }
    fn mul(&self, a: Float, b: Float) -> Float {
        bits(f(a) * f(b))
    }
    fn div(&self, a: Float, b: Float) -> Float {
        bits(f(a) / f(b))
    }
    fn rem(&self, a: Float, b: Float) -> Float {
        bits(f(a) % f(b))
    }
    fn powf(&self, a: Float, b: Float) -> Float {
        bits(f(a).powf(f(b)))
    }
    fn powi(&self, a: Float, n: i32) -> Float {
        bits(f(a).powi(n))
    }
    fn seconds_to_nanos(&self, secs: Float) -> Option<u64> {
        let d = std::time::Duration::try_from_secs_f64(f(secs)).ok()?;
        u64::try_from(d.as_nanos()).ok()
    }
}

fn integer(i: i64) -> Literal {
    Literal::Number(Number::Integer(i))
}

fn lit(l: Literal) -> Value {
    Value::Literal { value: l }
}

fn var(name: &str) -> Value {
    Value::Variable { name: name.to_string() }
}

fn binary(operator: BinaryOperator, lhs: Value, rhs: Value) -> Value {
    Value::BinaryExpression { operator, lhs: Box::new(lhs), rhs: Box::new(rhs) }
}

fn compare(comparator: Comparator, lhs: Value, rhs: Value) -> Value {
    Value::Comparison { comparator, lhs: Box::new(lhs), rhs: Box::new(rhs) }
}

fn set_var(name: &str, value: Value) -> Operation {
    Operation::Variable { name: name.to_string(), value }
}

fn red() -> Color {
    Color { r: 255, g: 0, b: 0 }
}

/// The strip's pixels after the actions, as (r, g, b).
fn strip_after(n: u16, actions: &[Action]) -> Vec<(u8, u8, u8)> {
    let mut c = build_controller(n).unwrap();
    for a in actions {
        apply_action(&mut c, *a);
    }
    c.leds.iter().map(|p| (p[2], p[1], p[0])).collect()
}

#[test]
fn set_and_commit_on_three_pixels() {
    let actions = set_request(&vec![0, 2], Some(red()), 3).unwrap();
    assert_eq!(strip_after(3, &actions), vec![(255, 0, 0), (0, 0, 0), (255, 0, 0)]);
}

#[test]
fn shows_in_between_change_nothing() {
    let writes = [
        Action::Fill { r: 1, g: 2, b: 3 },
        Action::SetPixel { index: 1, r: 9, g: 9, b: 9 },
        Action::Brightness(40),
    ];
    let mut with_shows = vec![writes[0], Action::Show, writes[1], Action::Show, writes[2], Action::Show];
    let without = vec![writes[0], writes[1], writes[2], Action::Show];
    assert_eq!(strip_after(3, &with_shows), strip_after(3, &without));
    with_shows.push(Action::Shutdown);
    let mut c = build_controller(3).unwrap();
    let running: Vec<bool> = with_shows.iter().map(|a| apply_action(&mut c, *a)).collect();
    assert_eq!(running.last(), Some(&false));
    assert_eq!(c.brightness, 40);
}

#[test]
fn request_bounds() {
    assert_eq!(set_request(&vec![2], Some(red()), 3).map(|a| a.len()), Ok(2));
    assert_eq!(set_request(&vec![3], Some(red()), 3), Err(RequestError::OutOfRange));
    assert_eq!(set_request(&vec![0], Some(Color { r: 256, g: 0, b: 0 }), 3), Err(RequestError::OutOfRange));
    assert_eq!(set_request(&vec![0], None, 3), Err(RequestError::InvalidArgument));
    assert_eq!(set_request(&vec![], Some(red()), 3), Ok(vec![Action::Show]));
    assert_eq!(fill_request(Color { r: 255, g: 255, b: 255 }).map(|a| a.len()), Ok(2));
    assert_eq!(fill_request(Color { r: 0, g: 256, b: 0 }), Err(RequestError::OutOfRange));
    assert_eq!(brightness_request(255), Ok(vec![Action::Brightness(255), Action::Show]));
    assert_eq!(brightness_request(256), Err(RequestError::OutOfRange));
    assert_eq!(set_all_request(&vec![red(), red()], 3), Err(RequestError::InvalidArgument));
    assert_eq!(
        set_all_request(&vec![red(), Color { r: 0, g: 0, b: 300 }], 2),
        Err(RequestError::OutOfRange)
    );
    assert_eq!(
        set_all_request(&vec![red()], 1),
        Ok(vec![Action::SetPixel { index: 0, r: 255, g: 0, b: 0 }, Action::Show])
    );
}

#[test]
fn fill_on_an_empty_strip() {
    let actions = fill_request(red()).unwrap();
    assert_eq!(strip_after(0, &actions), vec![]);
}

#[test]
fn set_past_the_end_is_ignored() {
    assert_eq!(
        strip_after(2, &[Action::SetPixel { index: 5, r: 1, g: 1, b: 1 }]),
        vec![(0, 0, 0), (0, 0, 0)]
    );
}

fn factorial() -> Function {
    Function::new(
        vec![String::from("n")],
        vec![Operation::If {
            condition: compare(Comparator::Equal, var("n"), lit(integer(0))),
            truthy: vec![Operation::Return { result: lit(integer(1)) }],
            falsy: vec![Operation::Return {
                result: binary(
                    BinaryOperator::Multiply,
                    var("n"),
                    Value::Function {
                        name: String::from("factorial"),
                        args: vec![binary(BinaryOperator::Subtract, var("n"), lit(integer(1)))],
                    },
                ),
            }],
        }],
    )
}

fn factorial_program(globals: Vec<(String, Literal)>) -> Program {
    Program {
        functions: vec![(String::from("factorial"), factorial())],
        globals,
        operations: vec![
            set_var(
                "result",
                Value::Function { name: String::from("factorial"), args: vec![lit(integer(5))] },
            ),
            Operation::End,
        ],
    }
}

#[test]
fn factorial_flow_keeps_a_global_result() {
    let mut flow = Flow::build(factorial_program(vec![(String::from("result"), Literal::Null)])).unwrap();
    assert_eq!(flow.animate(&Ieee), Ok(vec![]));
    assert_eq!(flow.globals, vec![(String::from("result"), integer(120))]);
}

#[test]
fn factorial_flow_drops_a_local_result() {
    let mut flow = Flow::build(factorial_program(vec![])).unwrap();
    assert_eq!(flow.animate(&Ieee), Ok(vec![]));
    assert_eq!(flow.globals, vec![]);
}

#[test]
fn ranged_for_with_break() {
    let program = Program {
        functions: vec![],
        globals: vec![(String::from("sum"), Literal::Null)],
        operations: vec![
            set_var("sum", lit(integer(0))),
            Operation::For {
                start: lit(integer(0)),
                end: lit(integer(10)),
                index: String::from("i"),
                operations: vec![Operation::If {
                    condition: compare(Comparator::Equal, var("sum"), lit(integer(5))),
                    truthy: vec![Operation::Break],
                    falsy: vec![set_var("sum", binary(BinaryOperator::Add, var("sum"), lit(integer(1))))],
                }],
            },
            Operation::End,
        ],
    };
    let mut flow = Flow::build(program).unwrap();
    assert_eq!(flow.animate(&Ieee), Ok(vec![]));
    assert_eq!(flow.globals, vec![(String::from("sum"), integer(5))]);
}

#[test]
fn sleep_for_four_and_a_half_hours() {
    let program = Program {
        functions: vec![],
        globals: vec![],
        operations: vec![
            Operation::Sleep { duration: lit(Literal::String(String::from("4.5h"))) },
            Operation::End,
        ],
    };
    let mut flow = Flow::build(program).unwrap();
    assert_eq!(flow.animate(&Ieee), Ok(vec![Effect::Sleep(16200 * 1_000_000_000)]));
}

#[test]
fn stop_preempts_a_running_animation() {
    let mut executor = Executor::new();
    assert!(executor.waits());
    assert_eq!(executor.on_command(Some(Command::Start(String::from("x")))), Directive::Load(String::from("x")));
    executor.on_load(true);
    assert!(!executor.waits());
    assert_eq!(executor.on_frame(true), Directive::Proceed);
    assert_eq!(executor.on_command(Some(Command::Stop)), Directive::Clear);
    assert!(executor.waits());
    assert_eq!(executor.on_command(None), Directive::Exit);
}

#[test]
fn failing_frame_empties_the_slot() {
    let mut executor = Executor::new();
    executor.on_load(true);
    assert_eq!(executor.on_frame(false), Directive::Clear);
    assert!(executor.waits());
    executor.on_load(false);
    assert!(executor.waits());
    assert_eq!(executor.on_command(Some(Command::Shutdown)), Directive::Exit);
}

#[test]
fn register_then_start() {
    let program = Program {
        functions: vec![],
        globals: vec![],
        operations: vec![
            Operation::Fill { red: lit(integer(1)), green: lit(integer(2)), blue: lit(integer(3)) },
            Operation::Show,
            Operation::End,
        ],
    };
    let payload = b"{\"operations\":[]}".to_vec();
    let mut flow = Flow::build(program).unwrap();
    let file = encode_animation(AnimationKind::Flow, &payload);
    assert_eq!(file[0], 2);
    let (kind, back) = decode_animation(&file).unwrap();
    assert_eq!(kind, AnimationKind::Flow);
    assert_eq!(back, payload);
    assert_eq!(
        flow.animate(&Ieee),
        Ok(vec![Effect::Pixel(Action::Fill { r: 1, g: 2, b: 3 }), Effect::Pixel(Action::Show)])
    );
}

#[test]
fn invalid_flow_is_not_registered() {
    let program = Program {
        functions: vec![],
        globals: vec![],
        operations: vec![Operation::Show],
    };
    assert_eq!(Flow::build(program).err(), Some(SyntaxError::ExpectedEnd));
    let unknown = Program {
        functions: vec![],
        globals: vec![],
        operations: vec![Operation::Brightness { value: var("nothing") }, Operation::End],
    };
    assert_eq!(
        Flow::build(unknown).err(),
        Some(SyntaxError::UnknownVariable { name: String::from("nothing") })
    );
}

#[test]
fn store_round_trip() {
    for kind in [AnimationKind::Wasm, AnimationKind::Flow] {
        let payload = vec![0u8, 7, 255, 42];
        let file = encode_animation(kind, &payload);
        assert_eq!(decode_animation(&file), Ok((kind, payload)));
    }
    assert_eq!(encode_animation(AnimationKind::Wasm, &vec![])[0], 1);
    assert_eq!(decode_animation(&vec![3, 1, 2]), Err(LoadKind::UnknownType));
    assert_eq!(decode_animation(&vec![]), Err(LoadKind::UnknownType));
}

#[test]
fn duration_text_round_trip() {
    for text in ["0", "1h", "5m", "10s", "5ms", "60us", "328ns", "6h5m4s3ms2us1ns", "4.5h"] {
        let nanos = parse_duration(text).unwrap();
        let written = format_duration(nanos);
        assert_eq!(parse_duration(&written), Ok(nanos));
    }
    assert_eq!(format_duration(1500), "1500ns");
}

#[test]
fn duration_bounds() {
    assert_eq!(parse_duration("9223372036854775807ns"), Ok(9223372036854775807));
    assert_eq!(parse_duration("9223372036854775808ns"), Err(DurationParseError::InvalidDuration));
    assert_eq!(parse_duration("2562048h"), Err(DurationParseError::InvalidDuration));
    assert_eq!(parse_duration("1.25h"), Ok(4500 * 1_000_000_000));
    assert_eq!(parse_duration("1.h"), Ok(3600 * 1_000_000_000));
    assert_eq!(parse_duration("3\u{b5}s"), Ok(3000));
    assert_eq!(parse_duration("1s!"), Err(DurationParseError::InvalidDuration));
    assert_eq!(parse_duration("1xs"), Err(DurationParseError::UnknownUnit(String::from("xs"))));
}

#[test]
fn host_calls_are_clamped() {
    assert_eq!(host_set(-1, 300, 12, -9), Action::SetPixel { index: 0, r: 255, g: 12, b: 0 });
    assert_eq!(host_set(70000, 0, 0, 0), Action::SetPixel { index: 65535, r: 0, g: 0, b: 0 });
    assert_eq!(host_fill(256, 255, 0), Action::Fill { r: 255, g: 255, b: 0 });
    assert_eq!(host_brightness(-3), Action::Brightness(0));
}

#[test]
fn rainbow_wheel() {
    assert_eq!(wheel(0), (0, 255, 0));
    assert_eq!(wheel(84), (252, 3, 0));
    assert_eq!(wheel(85), (255, 0, 0));
    assert_eq!(wheel(170), (0, 0, 255));
    assert_eq!(wheel(255), (0, 255, 0));
}

#[test]
fn controller_builders() {
    let channel = ChannelBuilder::new().pin(18).count(4).strip_type(StripType::Ws2812).brightness(9).invert(false).build();
    assert_eq!(channel, (4, 9));
    let mut c = ControllerBuilder::new().freq(800000).dma(10).channel(0, channel).build().unwrap();
    assert_eq!(c.leds, vec![[0u8, 0, 0, 0]; 4]);
    assert_eq!(c.brightness, 9);
    c.set_brightness(0, 100);
    c.leds_mut(0)[1] = [1, 2, 3, 0];
    assert_eq!(c.render(), Ok(()));
    assert_eq!(c.brightness, 100);
    assert_eq!(c.leds[1], [1, 2, 3, 0]);
}

#[test]
fn driver_errors_map_to_setup_failures() {
    assert_eq!(PixelsError::from(DriverError::OutOfMemory), PixelsError::OutOfMemory);
    assert_eq!(PixelsError::from(DriverError::HwNotSupported), PixelsError::NotSupported);
    assert_eq!(PixelsError::from(DriverError::Dma), PixelsError::Permissions);
    assert_eq!(PixelsError::from(DriverError::SpiTransfer), PixelsError::Setup);
    assert_eq!(PixelsError::from(DriverError::MailboxDevice), PixelsError::Other);
}

#[test]
fn unit_is_consulted_for_floats_only() {
    let half = Literal::Number(Number::Float(Float::from_bits(0.5f64.to_bits())));
    let two = Literal::Number(Number::Integer(2));
    assert_eq!(
        half.clone().try_mul(two.clone(), &Ieee),
        Ok(Literal::Number(Number::Float(Float::from_bits(1.0f64.to_bits()))))
    );
    assert_eq!(two.clone().try_mul(two, &Ieee), Ok(integer(4)));
    assert_eq!(
        Literal::String(String::from("ab")).try_mul(integer(3), &Ieee),
        Ok(Literal::String(String::from("ababab")))
    );
    assert_eq!(integer(i64::MAX).try_add(integer(1), &Ieee).is_err(), true);
    assert_eq!(integer(1).try_div(integer(0), &Ieee).is_err(), true);
    assert_eq!(integer(2).try_pow(integer(-1), &Ieee).is_err(), true);
    assert_eq!(integer(-2).try_pow(integer(63), &Ieee), Ok(integer(i64::MIN)));
    assert_eq!(integer(-1).try_pow(integer(4_000_000_001), &Ieee), Ok(integer(-1)));
}

#[test]
fn duration_text_is_read_in_any_case() {
    let upper = Literal::String(String::from("1H30M"));
    assert_eq!(
        lights::flow::duration::duration_from_literal(&upper, &Ieee),
        Ok(5400 * 1_000_000_000)
    );
    assert_eq!(
        lights::flow::duration::duration_from_string("5MS"),
        Ok(5_000_000)
    );
}
