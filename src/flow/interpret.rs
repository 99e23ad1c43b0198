use crate::flow::ast::{Function, Operation, Value, keys, unique_names};
use crate::flow::literal::cmp_result_ok;
use crate::flow::operators::{binary_spec, comparator_holds};
use crate::flow::literal::{bitwise_not_spec, negate_spec};
use crate::flow::ast::UnaryOperator;
use crate::flow::duration::{DurationParseError, duration_agrees, duration_from_literal};
use crate::flow::error::TypeError;
use crate::flow::literal::{FloatArithmetic, Literal, non_null_integer_of};
use crate::flow::scope::{Scope, write_entry, lemma_absent};
use crate::flow::validate::{find_entry, find_function, find_name};
use crate::pixels::Action;
use vstd::prelude::*;

verus! {

/// How deep operations, values and calls may nest while a frame runs.
pub const MAX_DEPTH: u64 = 1000;

/// An error that stops a running frame.
#[derive(Clone, Debug, PartialEq, Eq)]
pub enum RuntimeError {
    /// A variable or function that does not exist.
    Name(String),
    /// An operation on values of the wrong kinds.
    Type(TypeError),
    /// A value that does not have the form the operation needs.
    Format { to: &'static str, source: DurationParseError },
    /// An operation where it is not allowed, such as `Break` outside a loop.
    Misplaced(&'static str),
    /// Values, operations or calls nest deeper than `MAX_DEPTH`.
    Depth,
}

/// What a frame asks of the outside world, in order.
#[derive(Clone, Copy, Debug, PartialEq, Eq)]
pub enum Effect {
    /// A command to the pixel manager.
    Pixel(Action),
    /// A pause of this many nanoseconds.
    Sleep(u64),
}

/// How control leaves an operation.
#[derive(Debug, PartialEq)]
pub enum ReturnType {
    /// Leave the innermost loop.
    Break,
    /// Go on with the next operation.
    Continue,
    /// Leave the function with a value.
    Return(Literal),
    /// Leave the function without a value.
    End,
}

/// An integer clamped to the range of `u8`.
pub open spec fn clamp_u8(v: i64) -> u8 {
    if v < 0 {
        0
    } else if v > 255 {
        255
    } else {
        v as u8
    }
}

/// An integer clamped to the range of `u16`.
pub open spec fn clamp_u16(v: i64) -> u16 {
    if v < 0 {
        0
    } else if v > 65535 {
        65535
    } else {
        v as u16
    }
}

/// Clamps an integer to the range of `u8`.
pub fn to_u8(v: i64) -> (r: u8)
    ensures
        r == clamp_u8(v),
{
    if v < 0 {
        0
    } else if v > 255 {
        255
    } else {
        v as u8
    }
}

/// Clamps an integer to the range of `u16`.
pub fn to_u16(v: i64) -> (r: u16)
    ensures
        r == clamp_u16(v),
{
    if v < 0 {
        0
    } else if v > 65535 {
        65535
    } else {
        v as u16
    }
}

/// What every evaluation keeps: the scope stays well formed, no global is
/// created or removed, and effects are only added after those already there.
pub open spec fn frame_kept(
    before: Scope,
    after: Scope,
    out_before: Seq<Effect>,
    out_after: Seq<Effect>,
) -> bool {
    &&& after.well_formed()
    &&& keys(after.globals@) == keys(before.globals@)
    &&& out_after.len() >= out_before.len()
    &&& out_after.subrange(0, out_before.len() as int) == out_before
}

proof fn lemma_kept_trans(a: Scope, b: Scope, c: Scope, x: Seq<Effect>, y: Seq<Effect>, z: Seq<Effect>)
    requires
        frame_kept(a, b, x, y),
        frame_kept(b, c, y, z),
    ensures
        frame_kept(a, c, x, z),
{
    assert(z.subrange(0, x.len() as int) =~= z.subrange(0, y.len() as int).subrange(0, x.len() as int));
}

proof fn lemma_kept_refl(a: Scope, x: Seq<Effect>)
    requires
        a.well_formed(),
    ensures
        frame_kept(a, a, x, x),
{
    assert(x.subrange(0, x.len() as int) =~= x);
}

proof fn lemma_kept_push(a: Scope, x: Seq<Effect>, e: Effect)
    requires
        a.well_formed(),
    ensures
        frame_kept(a, a, x, x.push(e)),
{
    assert(x.push(e).subrange(0, x.len() as int) =~= x);
}

/// The integer a value's result converts to, or the error on the way.
pub open spec fn integer_result(x: Result<Literal, RuntimeError>) -> Result<i64, RuntimeError> {
    match x {
        Err(e) => Err(e),
        Ok(v) => match non_null_integer_of(v) {
            Ok(i) => Ok(i),
            Err(e) => Err(RuntimeError::Type(e)),
        },
    }
}

/// Whether `i` is an integer result that the call-free value may give.
pub open spec fn int_of(v: Value, s: Scope, i: Result<i64, RuntimeError>) -> bool {
    exists|x: Result<Literal, RuntimeError>| value_result(v, s, x) && #[trigger] integer_result(x) == i
}

/// The signal and effects of a pixel operation whose integers came out as
/// `ints`, in order: the first error stops it with no effect; otherwise the
/// effect is added and control goes on.
pub open spec fn pixel_outcome(
    ints: Seq<Result<i64, RuntimeError>>,
    effect: Effect,
    r: Result<ReturnType, RuntimeError>,
    before: Seq<Effect>,
    after: Seq<Effect>,
) -> bool
    decreases ints.len(),
{
    if ints.len() == 0 {
        r matches Ok(ReturnType::Continue) && after == before.push(effect)
    } else if ints[0] is Err {
        r == Err::<ReturnType, RuntimeError>(ints[0]->Err_0) && after == before
    } else {
        pixel_outcome(ints.drop_first(), effect, r, before, after)
    }
}

/// `pixel_outcome` for one integer.
pub open spec fn outcome1(
    i: Result<i64, RuntimeError>,
    effect: Effect,
    r: Result<ReturnType, RuntimeError>,
    before: Seq<Effect>,
    after: Seq<Effect>,
) -> bool {
    pixel_outcome(seq![i], effect, r, before, after)
}

/// `pixel_outcome` for three integers.
pub open spec fn outcome3(
    i: Result<i64, RuntimeError>,
    j: Result<i64, RuntimeError>,
    k: Result<i64, RuntimeError>,
    effect: Effect,
    r: Result<ReturnType, RuntimeError>,
    before: Seq<Effect>,
    after: Seq<Effect>,
) -> bool {
    pixel_outcome(seq![i, j, k], effect, r, before, after)
}

/// `pixel_outcome` for four integers.
pub open spec fn outcome4(
    n: Result<i64, RuntimeError>,
    i: Result<i64, RuntimeError>,
    j: Result<i64, RuntimeError>,
    k: Result<i64, RuntimeError>,
    effect: Effect,
    r: Result<ReturnType, RuntimeError>,
    before: Seq<Effect>,
    after: Seq<Effect>,
) -> bool {
    pixel_outcome(seq![n, i, j, k], effect, r, before, after)
}

/// Whether `simple_outcome` describes the operation at this depth.
pub open spec fn simple_applies(op: Operation, depth: u64) -> bool {
    match op {
        Operation::Return { result } => call_free(result) && depth > height(result) + 1,
        Operation::Variable { value, .. } => call_free(value) && depth > height(value) + 1,
        Operation::Sleep { duration } => call_free(duration) && depth > height(duration) + 1,
        Operation::Brightness { value } => call_free(value) && depth > height(value) + 1,
        Operation::Fill { red, green, blue } => call_free(red) && call_free(green) && call_free(blue)
            && depth > height(red) + 1 && depth > height(green) + 1 && depth > height(blue) + 1,
        Operation::SetPixel { index, red, green, blue } => call_free(index) && call_free(red)
            && call_free(green) && call_free(blue) && depth > height(index) + 1 && depth > height(red)
            + 1 && depth > height(green) + 1 && depth > height(blue) + 1,
        _ => false,
    }
}

/// The effect of `Brightness` with the integer `i`.
pub open spec fn brightness_effect(i: Result<i64, RuntimeError>) -> Effect {
    Effect::Pixel(Action::Brightness(clamp_u8(i->Ok_0)))
}

/// The effect of `Fill` with the integers `i`, `j`, `k`.
pub open spec fn fill_effect(
    i: Result<i64, RuntimeError>,
    j: Result<i64, RuntimeError>,
    k: Result<i64, RuntimeError>,
) -> Effect {
    Effect::Pixel(Action::Fill { r: clamp_u8(i->Ok_0), g: clamp_u8(j->Ok_0), b: clamp_u8(k->Ok_0) })
}

/// The effect of `SetPixel` with the index `n` and the integers `i`, `j`, `k`.
pub open spec fn set_effect(
    n: Result<i64, RuntimeError>,
    i: Result<i64, RuntimeError>,
    j: Result<i64, RuntimeError>,
    k: Result<i64, RuntimeError>,
) -> Effect {
    Effect::Pixel(
        Action::SetPixel {
            index: clamp_u16(n->Ok_0),
            r: clamp_u8(i->Ok_0),
            g: clamp_u8(j->Ok_0),
            b: clamp_u8(k->Ok_0),
        },
    )
}

/// Whether `after` is `before` with `value` written under `key` (see
/// `Scope::set`).
pub open spec fn assigned(before: Scope, after: Scope, key: String, value: Literal) -> bool {
    if find_entry(before.globals@, key@) >= 0 {
        after.globals@ == write_entry(before.globals@, key, value) && after.locals == before.locals
    } else {
        after.globals == before.globals && after.locals@ == write_entry(before.locals@, key, value)
    }
}

/// What an operation whose values call no function does, when it does not
/// nest too deeply: `Return` gives its value, `Variable` writes it, `Sleep`
/// adds a pause of its duration, and the pixel operations add their effect
/// with their integers clamped (see `pixel_outcome`). Other operations are
/// not described here.
pub open spec fn simple_outcome(
    op: Operation,
    depth: u64,
    s: Scope,
    after: Scope,
    before_out: Seq<Effect>,
    after_out: Seq<Effect>,
    r: Result<ReturnType, RuntimeError>,
) -> bool {
    simple_applies(op, depth) ==> simple_core(op, s, after, before_out, after_out, r)
}

/// What `simple_outcome` says of an operation, without the conditions.
pub open spec fn simple_core(
    op: Operation,
    s: Scope,
    after: Scope,
    before_out: Seq<Effect>,
    after_out: Seq<Effect>,
    r: Result<ReturnType, RuntimeError>,
) -> bool {
    match op {
        Operation::Return { result } => after
            == s && after_out == before_out && exists|x: Result<Literal, RuntimeError>|
            #[trigger] value_result(result, s, x) && match x {
                Ok(v) => r == Ok::<ReturnType, RuntimeError>(ReturnType::Return(v)),
                Err(e) => r == Err::<ReturnType, RuntimeError>(e),
            },
        Operation::Variable { name, value } => after_out == before_out && exists|x: Result<Literal, RuntimeError>|
            #[trigger] value_result(value, s, x) && match x {
                Ok(v) => r matches Ok(ReturnType::Continue) && assigned(s, after, name, v),
                Err(e) => r == Err::<ReturnType, RuntimeError>(e) && after == s,
            },
        Operation::Sleep { duration } => after
            == s && exists|x: Result<Literal, RuntimeError>|
            #[trigger] value_result(duration, s, x) && match x {
                Err(e) => r == Err::<ReturnType, RuntimeError>(e) && after_out == before_out,
                Ok(v) => exists|d: Result<u64, DurationParseError>|
                    #[trigger] duration_agrees(v, d) && match d {
                        Ok(n) => r matches Ok(ReturnType::Continue) && after_out == before_out.push(
                            Effect::Sleep(n),
                        ),
                        Err(e) => r == Err::<ReturnType, RuntimeError>(
                            RuntimeError::Format { to: "duration", source: e },
                        ) && after_out == before_out,
                    },
            },
        Operation::Brightness { value } => after
            == s && exists|i: Result<i64, RuntimeError>|
            int_of(value, s, i) && #[trigger] outcome1(
                i,
                brightness_effect(i),
                r,
                before_out,
                after_out,
            ),
        Operation::Fill { red, green, blue } => after == s && exists|
            i: Result<i64, RuntimeError>,
            j: Result<i64, RuntimeError>,
            k: Result<i64, RuntimeError>,
        |
            int_of(red, s, i) && (i is Ok ==> int_of(green, s, j)) && (i is Ok && j is Ok ==> int_of(
                blue,
                s,
                k,
            )) && #[trigger] outcome3(
                i,
                j,
                k,
                fill_effect(i, j, k),
                r,
                before_out,
                after_out,
            ),
        Operation::SetPixel { index, red, green, blue } => after == s && exists|
            n: Result<i64, RuntimeError>,
            i: Result<i64, RuntimeError>,
            j: Result<i64, RuntimeError>,
            k: Result<i64, RuntimeError>,
        |
            int_of(index, s, n) && (n is Ok ==> int_of(red, s, i)) && (n is Ok && i is Ok ==> int_of(
                green,
                s,
                j,
            )) && (n is Ok && i is Ok && j is Ok ==> int_of(blue, s, k)) && #[trigger] outcome4(
                n,
                i,
                j,
                k,
                set_effect(n, i, j, k),
                r,
                before_out,
                after_out,
            ),
        _ => true,
    }
}

/// Whether no value in the operation, or in the operations it holds, calls
/// a function, and it is no call itself.
pub open spec fn op_call_free(op: Operation) -> bool
    decreases op,
{
    match op {
        Operation::Break | Operation::End | Operation::Show => true,
        Operation::Return { result } => call_free(result),
        Operation::Variable { value, .. } => call_free(value),
        Operation::Sleep { duration } => call_free(duration),
        Operation::Brightness { value } => call_free(value),
        Operation::Fill { red, green, blue } => call_free(red) && call_free(green) && call_free(
            blue,
        ),
        Operation::SetPixel { index, red, green, blue } => call_free(index) && call_free(red)
            && call_free(green) && call_free(blue),
        Operation::Function { .. } => false,
        Operation::If { condition, truthy, falsy } => call_free(condition) && ops_call_free(
            truthy@,
        ) && ops_call_free(falsy@),
        Operation::For { start, end, operations, .. } => call_free(start) && call_free(end)
            && ops_call_free(operations@),
    }
}

/// Whether none of the operations calls a function (see `op_call_free`).
pub open spec fn ops_call_free(ops: Seq<Operation>) -> bool
    decreases ops,
{
    ops.len() == 0 || (op_call_free(ops[0]) && ops_call_free(ops.drop_first()))
}

pub open spec fn max_nat(a: nat, b: nat) -> nat {
    if a > b { a } else { b }
}

/// The nesting budget an operation needs to run without reaching the limit.
pub open spec fn op_depth(op: Operation) -> nat
    decreases op,
{
    match op {
        Operation::Break | Operation::End | Operation::Show | Operation::Function { .. } => 1,
        Operation::Return { result } => height(result) + 2,
        Operation::Variable { value, .. } => height(value) + 2,
        Operation::Sleep { duration } => height(duration) + 2,
        Operation::Brightness { value } => height(value) + 2,
        Operation::Fill { red, green, blue } => max_nat(height(red), max_nat(height(green), height(blue)))
            + 2,
        Operation::SetPixel { index, red, green, blue } => max_nat(
            max_nat(height(index), height(red)),
            max_nat(height(green), height(blue)),
        ) + 2,
        Operation::If { condition, truthy, falsy } => 1 + max_nat(
            height(condition) + 1,
            max_nat(ops_depth(truthy@), ops_depth(falsy@)),
        ),
        Operation::For { start, end, operations, .. } => 1 + max_nat(
            max_nat(height(start), height(end)) + 1,
            ops_depth(operations@),
        ),
    }
}

/// The nesting budget a list of operations needs.
pub open spec fn ops_depth(ops: Seq<Operation>) -> nat
    decreases ops,
{
    if ops.len() == 0 {
        0
    } else {
        max_nat(op_depth(ops[0]), ops_depth(ops.drop_first()))
    }
}

/// A point between two steps of a run: the signal of the first step, and
/// the scope and effects after it.
pub open spec fn midpoint(r: Result<ReturnType, RuntimeError>, s: Scope, o: Seq<Effect>) -> bool {
    true
}

/// A point inside a loop's pass: the scope once the index is written, and
/// the signal, scope and effects after the body.
pub open spec fn pass_point(
    assigned_scope: Scope,
    r: Result<ReturnType, RuntimeError>,
    s: Scope,
    o: Seq<Effect>,
) -> bool {
    true
}

/// Whether an operation that calls no function may go from scope `s` and
/// effects `o` to the signal `r`, scope `s2` and effects `o2`.
pub open spec fn op_runs(
    op: Operation,
    s: Scope,
    o: Seq<Effect>,
    r: Result<ReturnType, RuntimeError>,
    s2: Scope,
    o2: Seq<Effect>,
) -> bool
    decreases op, 0int,
{
    match op {
        Operation::Break => r matches Ok(ReturnType::Break) && s2 == s && o2 == o,
        Operation::End => r matches Ok(ReturnType::End) && s2 == s && o2 == o,
        Operation::Show => r matches Ok(ReturnType::Continue) && s2 == s && o2 == o.push(
            Effect::Pixel(Action::Show),
        ),
        Operation::Function { .. } => false,
        Operation::If { condition, truthy, falsy } => exists|x: Result<Literal, RuntimeError>|
            #[trigger] value_result(condition, s, x) && match x {
                Err(e) => r == Err::<ReturnType, RuntimeError>(e) && s2 == s && o2 == o,
                Ok(c) => if crate::flow::literal::truth_of(c) {
                    block_runs(truthy@, s, o, r, s2, o2)
                } else {
                    block_runs(falsy@, s, o, r, s2, o2)
                },
            },
        Operation::For { start, end, index, operations } => exists|
            i: Result<i64, RuntimeError>,
            j: Result<i64, RuntimeError>,
        |
            #[trigger] for_bounds(start, end, s, i, j) && match i {
                Err(e) => r == Err::<ReturnType, RuntimeError>(e) && s2 == s && o2 == o,
                Ok(a) => match j {
                    Err(e) => r == Err::<ReturnType, RuntimeError>(e) && s2 == s && o2 == o,
                    Ok(b) => loop_runs(index, operations@, a, b, s, o, r, s2, o2),
                },
            },
        _ => simple_core(op, s, s2, o, o2, r),
    }
}

/// What the bounds of a loop may evaluate to: `j` counts only when `i` is
/// an integer.
pub open spec fn for_bounds(
    start: Value,
    end: Value,
    s: Scope,
    i: Result<i64, RuntimeError>,
    j: Result<i64, RuntimeError>,
) -> bool {
    int_of(start, s, i) && (i is Ok ==> int_of(end, s, j))
}

/// Whether operations run in order may go from `s`, `o` to `r`, `s2`, `o2`:
/// each step that goes on hands its scope and effects to the next, and the
/// first that does not ends the run with its signal.
pub open spec fn block_runs(
    ops: Seq<Operation>,
    s: Scope,
    o: Seq<Effect>,
    r: Result<ReturnType, RuntimeError>,
    s2: Scope,
    o2: Seq<Effect>,
) -> bool
    decreases ops, 0int,
{
    if ops.len() == 0 {
        r matches Ok(ReturnType::Continue) && s2 == s && o2 == o
    } else {
        exists|r1: Result<ReturnType, RuntimeError>, s1: Scope, o1: Seq<Effect>|
            #[trigger] midpoint(r1, s1, o1) && op_runs(ops[0], s, o, r1, s1, o1) && match r1 {
                Ok(ReturnType::Continue) => block_runs(ops.drop_first(), s1, o1, r, s2, o2),
                _ => r == r1 && s2 == s1 && o2 == o1,
            }
    }
}

/// Whether the passes of a loop from index `i` up to `end` may go from `s`,
/// `o` to `r`, `s2`, `o2`: each pass writes the index, then runs the body;
/// `Break` leaves the loop and goes on, `Return`, `End` and errors leave it
/// with their signal.
pub open spec fn loop_runs(
    index: String,
    body: Seq<Operation>,
    i: i64,
    end: i64,
    s: Scope,
    o: Seq<Effect>,
    r: Result<ReturnType, RuntimeError>,
    s2: Scope,
    o2: Seq<Effect>,
) -> bool
    decreases body, end - i,
{
    if i >= end {
        r matches Ok(ReturnType::Continue) && s2 == s && o2 == o
    } else {
        exists|sa: Scope, rb: Result<ReturnType, RuntimeError>, sb: Scope, ob: Seq<Effect>|
            #[trigger] pass_point(sa, rb, sb, ob) && assigned(
                s,
                sa,
                index,
                Literal::Number(crate::flow::literal::Number::Integer(i)),
            ) && block_runs(body, sa, o, rb, sb, ob) && match rb {
                Ok(ReturnType::Continue) => loop_runs(index, body, (i + 1) as i64, end, sb, ob, r, s2, o2),
                Ok(ReturnType::Break) => r matches Ok(ReturnType::Continue) && s2 == sb && o2 == ob,
                _ => r == rb && s2 == sb && o2 == ob,
            }
    }
}

/// Evaluates a value to an integer, as a pixel operation needs it.
fn integer_of_value<U: FloatArithmetic>(
    v: &Value,
    scope: &mut Scope,
    functions: &Vec<(String, Function)>,
    unit: &U,
    out: &mut Vec<Effect>,
    depth: u64,
) -> (r: Result<i64, RuntimeError>)
    requires
        old(scope).well_formed(),
    ensures
        frame_kept(*old(scope), *final(scope), old(out)@, final(out)@),
        call_free(*v) && depth > height(*v) ==> *final(scope) == *old(scope) && final(out)@ == old(
            out,
        )@ && int_of(*v, *old(scope), r),
    decreases depth, 1int,
{
    let ghost s0 = *scope;
    let sub = v.evaluate(scope, functions, unit, out, depth);
    proof {
        if call_free(*v) && depth > height(*v) {
            assert(value_result(*v, s0, sub));
        }
    }
    let value = match sub {
        Ok(value) => value,
        Err(e) => {
            proof {
                if call_free(*v) && depth > height(*v) {
                    assert(integer_result(sub) == Err::<i64, RuntimeError>(e));
                }
            }
            return Err(e);
        },
    };
    let i = value.as_non_null_integer();
    proof {
        if call_free(*v) && depth > height(*v) {
            assert(integer_result(sub) == match i {
                Ok(k) => Ok::<i64, RuntimeError>(k),
                Err(e) => Err::<i64, RuntimeError>(RuntimeError::Type(e)),
            });
        }
    }
    match i {
        Ok(i) => Ok(i),
        Err(e) => Err(RuntimeError::Type(e)),
    }
}

/// Writes `value` under the parameter `name` among fresh locals.
fn bind_local(locals: &mut Vec<(String, Literal)>, name: String, value: Literal)
    requires
        unique_names(keys(old(locals)@)),
    ensures
        unique_names(keys(final(locals)@)),
        final(locals)@ == write_entry(old(locals)@, name, value),
{
    let ghost before = locals@;
    match find_name(locals, &name) {
        Some(i) => {
            proof {
                crate::flow::validate::lemma_find_bounds(before, name@);
            }
            locals.set(i, (name, value));
            assert(keys(locals@) =~= keys(before));
        },
        None => {
            proof {
                lemma_absent(before, name@);
            }
            locals.push((name, value));
            assert forall|i: int, j: int|
                0 <= i < j < keys(locals@).len() implies keys(locals@)[i] != keys(locals@)[j] by {
                if j == before.len() {
                    assert(keys(locals@)[i] == before[i].0@);
                } else {
                    assert(keys(locals@)[i] == keys(before)[i]);
                    assert(keys(locals@)[j] == keys(before)[j]);
                }
            }
        },
    }
}

/// Whether every argument calls no function and nests less deeply than
/// `depth`.
pub open spec fn args_fit(args: Seq<Value>, depth: int) -> bool {
    forall|i: int| 0 <= i < args.len() ==> call_free(#[trigger] args[i]) && depth > height(args[i])
}

/// Whether the call-free arguments, evaluated in order in the scope, may
/// give `r`: all their values, or the error of the first that fails.
pub open spec fn args_result(args: Seq<Value>, s: Scope, r: Result<Seq<Literal>, RuntimeError>) -> bool {
    match r {
        Ok(vs) => vs.len() == args.len() && forall|i: int|
            0 <= i < args.len() ==> value_result(#[trigger] args[i], s, Ok(vs[i])),
        Err(e) => exists|k: int|
            0 <= k < args.len() && #[trigger] value_result(args[k], s, Err(e)) && forall|i: int|
                0 <= i < k ==> gives_value(#[trigger] args[i], s),
    }
}

/// A literal as the result of an evaluation that succeeded.
pub open spec fn literal_ok(x: Literal) -> Result<Literal, RuntimeError> {
    Ok(x)
}

/// Whether the call-free value may give a value, not an error.
pub open spec fn gives_value(v: Value, s: Scope) -> bool
    decreases v, 1int,
{
    exists|x: Literal| value_result(v, s, #[trigger] literal_ok(x))
}

/// The locals a call starts with: the parameters written in order with the
/// values, a later parameter of the same name overwriting an earlier one.
pub open spec fn bound_args(names: Seq<String>, vals: Seq<Literal>) -> Seq<(String, Literal)>
    decreases vals.len(),
{
    if vals.len() == 0 {
        Seq::empty()
    } else {
        write_entry(
            bound_args(names, vals.drop_last()),
            names[vals.len() - 1],
            vals.last(),
        )
    }
}

/// How many arguments a call binds: as many as there are both parameters
/// and arguments.
pub open spec fn bound_count(f: Function, args: Seq<Value>) -> int {
    if f.args@.len() < args.len() {
        f.args@.len() as int
    } else {
        args.len() as int
    }
}

impl Function {
    /// Evaluates the arguments in the caller's scope and pairs them with
    /// the parameters, in order.
    pub fn associate_args<U: FloatArithmetic>(
        &self,
        scope: &mut Scope,
        values: &Vec<Value>,
        functions: &Vec<(String, Function)>,
        unit: &U,
        out: &mut Vec<Effect>,
        depth: u64,
    ) -> (r: Result<Vec<(String, Literal)>, RuntimeError>)
        requires
            old(scope).well_formed(),
        ensures
            frame_kept(*old(scope), *final(scope), old(out)@, final(out)@),
            r is Ok ==> unique_names(keys(r->Ok_0@)),
            args_fit(values@.take(bound_count(*self, values@)), depth as int) ==> *final(scope)
                == *old(scope) && final(out)@ == old(out)@ && exists|
                res: Result<Seq<Literal>, RuntimeError>,
            |
                #[trigger] args_result(values@.take(bound_count(*self, values@)), *old(scope), res)
                    && match res {
                    Err(e) => r == Err::<Vec<(String, Literal)>, RuntimeError>(e),
                    Ok(vs) => r is Ok && r->Ok_0@ == bound_args(self.args@, vs),
                },
        decreases depth, 1int,
    {
        let mut associated: Vec<(String, Literal)> = Vec::new();
        let n = if self.args.len() < values.len() {
            self.args.len()
        } else {
            values.len()
        };
        let ghost scope0 = *scope;
        let ghost out0 = out@;
        let ghost applies = args_fit(values@.take(n as int), depth as int);
        let ghost vals: Seq<Literal> = Seq::empty();
        proof {
            lemma_kept_refl(*scope, out@);
            assert(n as int == bound_count(*self, values@));
            assert(values@.take(0) =~= Seq::<Value>::empty());
        }
        let mut i: usize = 0;
        while i < n
            invariant
                n <= self.args@.len(),
                n <= values@.len(),
                n as int == bound_count(*self, values@),
                i <= n,
                scope0.well_formed(),
                scope0 == *old(scope),
                out0 == old(out)@,
                frame_kept(scope0, *scope, out0, out@),
                unique_names(keys(associated@)),
                applies == args_fit(values@.take(n as int), depth as int),
                applies ==> *scope == scope0 && out@ == out0,
                applies ==> vals.len() == i && (forall|j: int|
                    0 <= j < i ==> value_result(#[trigger] values@[j], scope0, Ok(vals[j])))
                    && associated@ == bound_args(self.args@, vals),
            decreases n - i,
        {
            let ghost s1 = *scope;
            let ghost o1 = out@;
            proof {
                if applies {
                    assert(values@.take(n as int)[i as int] == values@[i as int]);
                }
            }
            let x = values[i].evaluate(scope, functions, unit, out, depth);
            proof {
                lemma_kept_trans(scope0, s1, *scope, out0, o1, out@);
            }
            let value = match x {
                Ok(v) => v,
                Err(e) => {
                    proof {
                        if applies {
                            let args = values@.take(n as int);
                            assert(args[i as int] == values@[i as int]);
                            assert(value_result(args[i as int], scope0, Err(e)));
                            assert forall|j: int| 0 <= j < i implies gives_value(
                                #[trigger] args[j],
                                scope0,
                            ) by {
                                assert(args[j] == values@[j]);
                                assert(value_result(values@[j], scope0, literal_ok(vals[j])));
                            }
                            assert(args_result(args, scope0, Err(e)));
                        }
                    }
                    return Err(e);
                },
            };
            proof {
                if applies {
                    assert(vals.push(value).drop_last() =~= vals);
                }
            }
            bind_local(&mut associated, self.args[i].clone(), value);
            proof {
                vals = vals.push(value);
            }
            i = i + 1;
        }
        proof {
            if applies {
                let args = values@.take(n as int);
                assert forall|j: int| 0 <= j < args.len() implies value_result(
                    #[trigger] args[j],
                    scope0,
                    Ok(vals[j]),
                ) by {
                    assert(args[j] == values@[j]);
                }
                assert(args_result(args, scope0, Ok(vals)));
            }
        }
        Ok(associated)
    }

    /// Runs the body: `End` leaves with null, `Return` with its value, and a
    /// `Break` that reaches the body is an error.
    pub fn evaluate<U: FloatArithmetic>(
        &self,
        scope: &mut Scope,
        functions: &Vec<(String, Function)>,
        unit: &U,
        out: &mut Vec<Effect>,
        depth: u64,
    ) -> (r: Result<Literal, RuntimeError>)
        requires
            old(scope).well_formed(),
        ensures
            frame_kept(*old(scope), *final(scope), old(out)@, final(out)@),
            self.operations@.len() == 0 ==> r == Ok::<Literal, RuntimeError>(Literal::Null),
            ops_call_free(self.operations@) && depth >= ops_depth(self.operations@) ==> exists|
                rb: Result<ReturnType, RuntimeError>,
            |
                #[trigger] body_result(rb) == r && block_runs(
                    self.operations@,
                    *old(scope),
                    old(out)@,
                    rb,
                    *final(scope),
                    final(out)@,
                ),
        decreases depth, 3int,
    {
        let rb = run_block(&self.operations, scope, functions, unit, out, depth);
        let ghost g = rb;
        let r = match rb {
            Err(e) => Err(e),
            Ok(ReturnType::Break) => Err(RuntimeError::Misplaced("break")),
            Ok(ReturnType::Continue) | Ok(ReturnType::End) => Ok(Literal::Null),
            Ok(ReturnType::Return(value)) => Ok(value),
        };
        assert(body_result(g) == r);
        r
    }
}

/// What a function gives when its body ends with the signal: a value for
/// `Return`, null for `End` or the end of the body, and an error for a
/// `Break` outside any loop.
pub open spec fn body_result(rb: Result<ReturnType, RuntimeError>) -> Result<Literal, RuntimeError> {
    match rb {
        Err(e) => Err(e),
        Ok(ReturnType::Break) => Err(RuntimeError::Misplaced("break")),
        Ok(ReturnType::Continue) | Ok(ReturnType::End) => Ok(Literal::Null),
        Ok(ReturnType::Return(value)) => Ok(value),
    }
}

/// What a call of `f` does when its bound arguments call no function and
/// nest less deeply than `depth`: they are evaluated in the caller's scope,
/// and the first that fails gives its error with nothing changed. Otherwise,
/// when the body calls no function and fits in `depth`, the body runs with
/// the caller's globals and the bound arguments as its only locals; the
/// caller keeps its locals, takes the globals the body leaves, and gets the
/// body's result (see `body_result`).
pub open spec fn call_outcome(
    f: Function,
    args: Seq<Value>,
    depth: int,
    s: Scope,
    o: Seq<Effect>,
    r: Result<Literal, RuntimeError>,
    s2: Scope,
    o2: Seq<Effect>,
) -> bool {
    args_fit(args.take(bound_count(f, args)), depth) ==> exists|
        res: Result<Seq<Literal>, RuntimeError>,
    |
        #[trigger] args_result(args.take(bound_count(f, args)), s, res) && match res {
            Err(e) => r == Err::<Literal, RuntimeError>(e) && s2 == s && o2 == o,
            Ok(vs) => ops_call_free(f.operations@) && depth >= ops_depth(f.operations@) ==> exists|
                start: Scope,
                rb: Result<ReturnType, RuntimeError>,
                end: Scope,
            |
                #[trigger] block_runs(f.operations@, start, o, rb, end, o2) && start.globals
                    == s.globals && start.locals@ == bound_args(f.args@, vs) && s2.globals
                    == end.globals && s2.locals == s.locals && r == body_result(rb),
        }
}

/// The signal of a call that stands as an operation: its value is dropped.
pub open spec fn call_signal(x: Result<Literal, RuntimeError>) -> Result<ReturnType, RuntimeError> {
    match x {
        Ok(_) => Ok(ReturnType::Continue),
        Err(e) => Err(e),
    }
}

/// Calls a function: the arguments are evaluated in the caller's scope, the
/// body runs with them as its only locals and with the caller's globals,
/// and the globals it leaves are the caller's afterwards.
fn call_function<U: FloatArithmetic>(
    function: &Function,
    args: &Vec<Value>,
    scope: &mut Scope,
    functions: &Vec<(String, Function)>,
    unit: &U,
    out: &mut Vec<Effect>,
    depth: u64,
) -> (r: Result<Literal, RuntimeError>)
    requires
        old(scope).well_formed(),
    ensures
        frame_kept(*old(scope), *final(scope), old(out)@, final(out)@),
        depth > 0 ==> call_outcome(
            *function,
            args@,
            depth - 1,
            *old(scope),
            old(out)@,
            r,
            *final(scope),
            final(out)@,
        ),
    decreases depth, 3int,
{
    if depth == 0 {
        proof {
            lemma_kept_refl(*scope, out@);
        }
        return Err(RuntimeError::Depth);
    }
    let ghost scope0 = *scope;
    let ghost out0 = out@;
    let ghost fits = args_fit(args@.take(bound_count(*function, args@)), depth - 1);
    let assoc = function.associate_args(scope, args, functions, unit, out, depth - 1);
    let ghost res = choose|res: Result<Seq<Literal>, RuntimeError>|
        #[trigger] args_result(args@.take(bound_count(*function, args@)), scope0, res) && match res {
            Err(e) => assoc == Err::<Vec<(String, Literal)>, RuntimeError>(e),
            Ok(vs) => assoc is Ok && assoc->Ok_0@ == bound_args(function.args@, vs),
        };
    let locals = match assoc {
        Ok(l) => l,
        Err(e) => {
            proof {
                if fits {
                    assert(args_result(args@.take(bound_count(*function, args@)), scope0, res));
                }
            }
            return Err(e);
        },
    };
    let ghost scope1 = *scope;
    let ghost out1 = out@;
    let mut globals: Vec<(String, Literal)> = Vec::new();
    core::mem::swap(&mut globals, &mut scope.globals);
    let mut inner = Scope { globals, locals };
    assert(inner.globals == scope1.globals);
    let ghost inner0 = inner;
    let result = function.evaluate(&mut inner, functions, unit, out, depth - 1);
    let ghost inner1 = inner;
    core::mem::swap(&mut inner.globals, &mut scope.globals);
    proof {
        assert(scope.globals == inner1.globals);
        assert(scope.locals == scope1.locals);
        assert(frame_kept(inner0, inner1, out1, out@));
        assert(frame_kept(scope1, *scope, out1, out@));
        lemma_kept_trans(scope0, scope1, *scope, out0, out1, out@);
        if fits {
            assert(args_result(args@.take(bound_count(*function, args@)), scope0, res));
            if ops_call_free(function.operations@) && depth - 1 >= ops_depth(function.operations@) {
                let rb = choose|rb: Result<ReturnType, RuntimeError>|
                    #[trigger] body_result(rb) == result && block_runs(
                        function.operations@,
                        inner0,
                        out1,
                        rb,
                        inner1,
                        out@,
                    );
                assert(block_runs(function.operations@, inner0, out0, rb, inner1, out@));
            }
        }
    }
    result
}

/// Whether the value calls no function.
pub open spec fn call_free(v: Value) -> bool
    decreases v,
{
    match v {
        Value::Variable { .. } | Value::Literal { .. } => true,
        Value::UnaryExpression { value, .. } => call_free(*value),
        Value::BinaryExpression { lhs, rhs, .. } => call_free(*lhs) && call_free(*rhs),
        Value::Comparison { lhs, rhs, .. } => call_free(*lhs) && call_free(*rhs),
        Value::Function { .. } => false,
    }
}

/// How deep the value nests.
pub open spec fn height(v: Value) -> nat
    decreases v,
{
    match v {
        Value::Variable { .. } | Value::Literal { .. } | Value::Function { .. } => 0,
        Value::UnaryExpression { value, .. } => 1 + height(*value),
        Value::BinaryExpression { lhs, rhs, .. } => 1 + if height(*lhs) > height(*rhs) {
            height(*lhs)
        } else {
            height(*rhs)
        },
        Value::Comparison { lhs, rhs, .. } => 1 + if height(*lhs) > height(*rhs) {
            height(*lhs)
        } else {
            height(*rhs)
        },
    }
}

/// An operator's type error as a runtime error.
pub open spec fn lift_type(r: Result<Literal, TypeError>) -> Result<Literal, RuntimeError> {
    match r {
        Ok(v) => Ok(v),
        Err(e) => Err(RuntimeError::Type(e)),
    }
}

/// What a unary operator gives.
pub open spec fn unary_spec(op: UnaryOperator, a: Literal, r: Result<Literal, TypeError>) -> bool {
    match op {
        UnaryOperator::Negate => negate_spec(a, r),
        UnaryOperator::BitwiseNot => bitwise_not_spec(a, r),
    }
}

/// Whether `r` is what a call-free value may give in the scope: a variable
/// reads the scope, a literal is itself, and an expression either fails as
/// its first operand fails, or as its second fails after the first gave a
/// value, or applies its operator to what its operands give.
pub open spec fn value_result(v: Value, s: Scope, r: Result<Literal, RuntimeError>) -> bool
    decreases v, 0int,
{
    match v {
        Value::Variable { name } => match s.read(name@) {
            Some(x) => r == Ok::<Literal, RuntimeError>(x),
            None => r == Err::<Literal, RuntimeError>(RuntimeError::Name(name)),
        },
        Value::Literal { value } => r == Ok::<Literal, RuntimeError>(value),
        Value::UnaryExpression { operator, value } => (r is Err && value_result(*value, s, r)) || (
        exists|a: Literal, t: Result<Literal, TypeError>|
            value_result(*value, s, Ok(a)) && #[trigger] unary_spec(operator, a, t) && r == lift_type(
                t,
            )),
        Value::BinaryExpression { operator, lhs, rhs } => (r is Err && value_result(*lhs, s, r)) || (r is Err && gives_value(*lhs, s)
            && value_result(*rhs, s, r)) || (exists|
            a: Literal,
            b: Literal,
            t: Result<Literal, TypeError>,
        |
            value_result(*lhs, s, Ok(a)) && value_result(*rhs, s, Ok(b)) && #[trigger] binary_spec(
                operator,
                a,
                b,
                t,
            ) && r == lift_type(t)),
        Value::Comparison { comparator, lhs, rhs } => (r is Err && value_result(*lhs, s, r)) || (r is Err && gives_value(*lhs, s)
            && value_result(*rhs, s, r)) || (exists|
            a: Literal,
            b: Literal,
            ord: Result<Option<core::cmp::Ordering>, TypeError>,
        |
            value_result(*lhs, s, Ok(a)) && value_result(*rhs, s, Ok(b)) && #[trigger] cmp_result_ok(
                a,
                b,
                ord,
            ) && match ord {
                Err(e) => r == Err::<Literal, RuntimeError>(RuntimeError::Type(e)),
                Ok(ordering) => r == Ok::<Literal, RuntimeError>(
                    Literal::Boolean(comparator_holds(comparator, ordering)),
                ),
            }),
        Value::Function { .. } => true,
    }
}

impl Value {
    /// Evaluates the value: a variable reads the scope, a literal is itself,
    /// expressions apply their operator, and a call runs the function.
    pub fn evaluate<U: FloatArithmetic>(
        &self,
        scope: &mut Scope,
        functions: &Vec<(String, Function)>,
        unit: &U,
        out: &mut Vec<Effect>,
        depth: u64,
    ) -> (r: Result<Literal, RuntimeError>)
        requires
            old(scope).well_formed(),
        ensures
            frame_kept(*old(scope), *final(scope), old(out)@, final(out)@),
            depth > 0 ==> match *self {
                Value::Variable { name } => match old(scope).read(name@) {
                    Some(v) => r == Ok::<Literal, RuntimeError>(v),
                    None => r == Err::<Literal, RuntimeError>(RuntimeError::Name(name)),
                },
                Value::Literal { value } => r == Ok::<Literal, RuntimeError>(value),
                Value::Function { name, .. } => find_entry(functions@, name@) < 0 ==> r == Err::<
                    Literal,
                    RuntimeError,
                >(RuntimeError::Name(name)) && *final(scope) == *old(scope) && final(out)@ == old(
                    out,
                )@,
                _ => true,
            },
            depth > 1 ==> match *self {
                Value::Function { name, args } => find_entry(functions@, name@) >= 0 ==> call_outcome(
                    functions@[find_entry(functions@, name@)].1,
                    args@,
                    depth - 2,
                    *old(scope),
                    old(out)@,
                    r,
                    *final(scope),
                    final(out)@,
                ),
                _ => true,
            },
            call_free(*self) && depth > height(*self) ==> *final(scope) == *old(scope) && final(out)@
                == old(out)@ && value_result(*self, *old(scope), r),
        decreases depth, 0int,
    {
        proof {
            lemma_kept_refl(*scope, out@);
        }
        if depth == 0 {
            return Err(RuntimeError::Depth);
        }
        match self {
            Value::Variable { name } => {
                let ghost s0 = *scope;
                match scope.get(name) {
                    Some(v) => {
                        let d = v.duplicate();
                        assert(value_result(*self, s0, Ok(d)));
                        Ok(d)
                    },
                    None => {
                        let e = RuntimeError::Name(name.clone());
                        assert(value_result(*self, s0, Err(e)));
                        Err(e)
                    },
                }
            },
            Value::Literal { value } => {
                let d = value.duplicate();
                assert(value_result(*self, *scope, Ok(d)));
                Ok(d)
            },
            Value::UnaryExpression { operator, value } => {
                let ghost s0 = *scope;
                let sub = value.evaluate(scope, functions, unit, out, depth - 1);
                let v = match sub {
                    Ok(v) => v,
                    Err(e) => {
                        proof {
                            if call_free(*self) && depth > height(*self) {
                                assert(value_result(**value, s0, sub));
                                assert(value_result(**value, s0, Err(e)));
                            }
                        }
                        return Err(e);
                    },
                };
                let t = operator.evaluate(v);
                proof {
                    if call_free(*self) && depth > height(*self) {
                        assert(value_result(**value, s0, Ok(v)));
                        assert(unary_spec(*operator, v, t));
                    }
                }
                match t {
                    Ok(r) => Ok(r),
                    Err(e) => Err(RuntimeError::Type(e)),
                }
            },
            Value::BinaryExpression { operator, lhs, rhs } => {
                let ghost s0 = *scope;
                let ghost o0 = out@;
                let first = lhs.evaluate(scope, functions, unit, out, depth - 1);
                let a = match first {
                    Ok(v) => v,
                    Err(e) => {
                        proof {
                            if call_free(*self) && depth > height(*self) {
                                assert(value_result(**lhs, s0, Err(e)));
                            }
                        }
                        return Err(e);
                    },
                };
                let ghost s1 = *scope;
                let ghost o1 = out@;
                let second = rhs.evaluate(scope, functions, unit, out, depth - 1);
                proof {
                    lemma_kept_trans(s0, s1, *scope, o0, o1, out@);
                }
                let b = match second {
                    Ok(v) => v,
                    Err(e) => {
                        proof {
                            if call_free(*self) && depth > height(*self) {
                                assert(value_result(**lhs, s0, literal_ok(a)));
                                assert(gives_value(**lhs, s0));
                                assert(value_result(**rhs, s0, second));
                            }
                        }
                        return Err(e);
                    },
                };
                let t = operator.evaluate(a, b, unit);
                proof {
                    if call_free(*self) && depth > height(*self) {
                        assert(value_result(**lhs, s0, Ok(a)));
                        assert(value_result(**rhs, s0, Ok(b)));
                        assert(binary_spec(*operator, a, b, t));
                    }
                }
                match t {
                    Ok(r) => Ok(r),
                    Err(e) => Err(RuntimeError::Type(e)),
                }
            },
            Value::Comparison { comparator, lhs, rhs } => {
                let ghost s0 = *scope;
                let ghost o0 = out@;
                let first = lhs.evaluate(scope, functions, unit, out, depth - 1);
                let a = match first {
                    Ok(v) => v,
                    Err(e) => {
                        proof {
                            if call_free(*self) && depth > height(*self) {
                                assert(value_result(**lhs, s0, Err(e)));
                            }
                        }
                        return Err(e);
                    },
                };
                let ghost s1 = *scope;
                let ghost o1 = out@;
                let second = rhs.evaluate(scope, functions, unit, out, depth - 1);
                proof {
                    lemma_kept_trans(s0, s1, *scope, o0, o1, out@);
                }
                let b = match second {
                    Ok(v) => v,
                    Err(e) => {
                        proof {
                            if call_free(*self) && depth > height(*self) {
                                assert(value_result(**lhs, s0, literal_ok(a)));
                                assert(gives_value(**lhs, s0));
                                assert(value_result(**rhs, s0, second));
                            }
                        }
                        return Err(e);
                    },
                };
                let t = comparator.evaluate(&a, &b, unit);
                proof {
                    if call_free(*self) && depth > height(*self) {
                        assert(value_result(**lhs, s0, Ok(a)));
                        assert(value_result(**rhs, s0, Ok(b)));
                        
                    }
                }
                match t {
                    Ok(r) => Ok(r),
                    Err(e) => Err(RuntimeError::Type(e)),
                }
            },
            Value::Function { name, args } => match find_function(functions, name) {
                None => Err(RuntimeError::Name(name.clone())),
                Some(index) => call_function(
                    &functions[index].1,
                    args,
                    scope,
                    functions,
                    unit,
                    out,
                    depth - 1,
                ),
            },
        }
    }
}

/// Runs operations until one leaves with something other than `Continue`,
/// which is handed on; `Continue` when all ran.
fn run_block<U: FloatArithmetic>(
    ops: &Vec<Operation>,
    scope: &mut Scope,
    functions: &Vec<(String, Function)>,
    unit: &U,
    out: &mut Vec<Effect>,
    depth: u64,
) -> (r: Result<ReturnType, RuntimeError>)
    requires
        old(scope).well_formed(),
    ensures
        frame_kept(*old(scope), *final(scope), old(out)@, final(out)@),
        ops@.len() == 0 ==> r matches Ok(ReturnType::Continue),
        ops_call_free(ops@) && depth >= ops_depth(ops@) ==> block_runs(
            ops@,
            *old(scope),
            old(out)@,
            r,
            *final(scope),
            final(out)@,
        ),
    decreases depth, 2int,
{
    let ghost scope0 = *scope;
    let ghost out0 = out@;
    let ghost applies = ops_call_free(ops@) && depth >= ops_depth(ops@);
    proof {
        lemma_kept_refl(*scope, out@);
        assert(ops@.skip(0) =~= ops@);
    }
    let mut i: usize = 0;
    while i < ops.len()
        invariant
            i <= ops@.len(),
            scope0.well_formed(),
            scope0 == *old(scope),
            out0 == old(out)@,
            applies == (ops_call_free(ops@) && depth >= ops_depth(ops@)),
            frame_kept(scope0, *scope, out0, out@),
            applies ==> ops_call_free(ops@.skip(i as int)) && depth >= ops_depth(ops@.skip(i as int)),
            applies ==> forall|r2: Result<ReturnType, RuntimeError>, s2: Scope, o2: Seq<Effect>|
                #[trigger] block_runs(ops@.skip(i as int), *scope, out@, r2, s2, o2) ==> block_runs(
                    ops@,
                    scope0,
                    out0,
                    r2,
                    s2,
                    o2,
                ),
        decreases ops@.len() - i,
    {
        let ghost s1 = *scope;
        let ghost o1 = out@;
        let ghost rest = ops@.skip(i as int);
        proof {
            assert(rest[0] == ops@[i as int]);
            assert(rest.drop_first() =~= ops@.skip(i + 1));
        }
        let signal = ops[i].evaluate(scope, functions, unit, out, depth);
        let ghost g = signal;
        proof {
            lemma_kept_trans(scope0, s1, *scope, out0, o1, out@);
            if applies {
                assert(op_runs(ops@[i as int], s1, o1, g, *scope, out@));
                assert(midpoint(g, *scope, out@));
                if !(g matches Ok(ReturnType::Continue)) {
                    assert(block_runs(rest, s1, o1, g, *scope, out@));
                } else {
                    let s_next = *scope;
                    let o_next = out@;
                    assert forall|r2: Result<ReturnType, RuntimeError>, s2: Scope, o2: Seq<Effect>|
                        #[trigger] block_runs(ops@.skip(i + 1), s_next, o_next, r2, s2, o2) implies block_runs(
                        ops@,
                        scope0,
                        out0,
                        r2,
                        s2,
                        o2,
                    ) by {
                        assert(midpoint(g, s_next, o_next));
                        assert(block_runs(rest, s1, o1, r2, s2, o2));
                    }
                }
            }
        }
        match signal {
            Ok(ReturnType::Continue) => {},
            other => {
                return other;
            },
        }
        i = i + 1;
    }
    proof {
        if applies {
            assert(ops@.skip(i as int).len() == 0);
            assert(block_runs(ops@.skip(i as int), *scope, out@, Ok(ReturnType::Continue), *scope, out@));
        }
    }
    Ok(ReturnType::Continue)
}

impl Operation {
    /// Runs the operation. Pixel operations clamp their integers to the
    /// byte (or, for an index, 16-bit) range and add a pixel effect; `Sleep`
    /// adds a pause; control operations say how to go on.
    pub fn evaluate<U: FloatArithmetic>(
        &self,
        scope: &mut Scope,
        functions: &Vec<(String, Function)>,
        unit: &U,
        out: &mut Vec<Effect>,
        depth: u64,
    ) -> (r: Result<ReturnType, RuntimeError>)
        requires
            old(scope).well_formed(),
        ensures
            frame_kept(*old(scope), *final(scope), old(out)@, final(out)@),
            depth > 0 ==> match *self {
                Operation::Break => r matches Ok(ReturnType::Break) && final(out)@ == old(out)@,
                Operation::End => r matches Ok(ReturnType::End) && final(out)@ == old(out)@,
                Operation::Show => r matches Ok(ReturnType::Continue) && final(out)@ == old(
                    out,
                )@.push(Effect::Pixel(Action::Show)),
                Operation::Function { name, .. } => find_entry(functions@, name@) < 0 ==> r
                    == Err::<ReturnType, RuntimeError>(RuntimeError::Name(name)) && *final(scope)
                    == *old(scope) && final(out)@ == old(out)@,
                _ => true,
            },
            depth > 1 ==> match *self {
                Operation::Function { name, args } => find_entry(functions@, name@) >= 0 ==> exists|
                    x: Result<Literal, RuntimeError>,
                |
                    #[trigger] call_outcome(
                        functions@[find_entry(functions@, name@)].1,
                        args@,
                        depth - 2,
                        *old(scope),
                        old(out)@,
                        x,
                        *final(scope),
                        final(out)@,
                    ) && r == call_signal(x),
                _ => true,
            },
            simple_outcome(*self, depth, *old(scope), *final(scope), old(out)@, final(out)@, r),
            op_call_free(*self) && depth >= op_depth(*self) ==> op_runs(
                *self,
                *old(scope),
                old(out)@,
                r,
                *final(scope),
                final(out)@,
            ),
        decreases depth, 1int,
    {
        proof {
            lemma_kept_refl(*scope, out@);
        }
        if depth == 0 {
            return Err(RuntimeError::Depth);
        }
        let ghost s0 = *scope;
        let ghost o0 = out@;
        match self {
            Operation::Break => Ok(ReturnType::Break),
            Operation::End => Ok(ReturnType::End),
            Operation::Return { result } => match result.evaluate(
                scope,
                functions,
                unit,
                out,
                depth - 1,
            ) {
                Ok(v) => Ok(ReturnType::Return(v)),
                Err(e) => Err(e),
            },
            Operation::If { condition, truthy, falsy } => {
                let c = match condition.evaluate(scope, functions, unit, out, depth - 1) {
                    Ok(v) => v,
                    Err(e) => {
                        return Err(e);
                    },
                };
                let truth = match c.as_boolean() {
                    Ok(t) => t,
                    Err(e) => {
                        return Err(RuntimeError::Type(e));
                    },
                };
                let ghost s1 = *scope;
                let ghost o1 = out@;
                let r = if truth {
                    run_block(truthy, scope, functions, unit, out, depth - 1)
                } else {
                    run_block(falsy, scope, functions, unit, out, depth - 1)
                };
                proof {
                    lemma_kept_trans(s0, s1, *scope, o0, o1, out@);
                }
                match r {
                    Ok(ReturnType::Continue) => Ok(ReturnType::Continue),
                    other => other,
                }
            },
            Operation::For { start, end, index, operations } => {
                let ghost applies = op_call_free(*self) && depth >= op_depth(*self);
                let ri = integer_of_value(start, scope, functions, unit, out, depth - 1);
                let first = match ri {
                    Ok(v) => v,
                    Err(e) => {
                        proof {
                            if applies {
                                assert(for_bounds(*start, *end, s0, ri, ri));
                            }
                        }
                        return Err(e);
                    },
                };
                let ghost s1 = *scope;
                let ghost o1 = out@;
                let rj = integer_of_value(end, scope, functions, unit, out, depth - 1);
                proof {
                    lemma_kept_trans(s0, s1, *scope, o0, o1, out@);
                }
                let last = match rj {
                    Ok(v) => v,
                    Err(e) => {
                        proof {
                            if applies {
                                assert(for_bounds(*start, *end, s0, ri, rj));
                            }
                        }
                        return Err(e);
                    },
                };
                proof {
                    if applies {
                        assert(for_bounds(*start, *end, s0, ri, rj));
                        assert(ops_call_free(operations@));
                        assert(depth - 1 >= ops_depth(operations@));
                    }
                }
                let mut i: i64 = first;
                while i < last
                    invariant
                        depth > 0,
                        *self matches Operation::For { .. },
                        *self == (Operation::For {
                            start: *start,
                            end: *end,
                            index: *index,
                            operations: *operations,
                        }),
                        s0.well_formed(),
                        s0 == *old(scope),
                        o0 == old(out)@,
                        frame_kept(s0, *scope, o0, out@),
                        applies == (op_call_free(*self) && depth >= op_depth(*self)),
                        applies ==> for_bounds(*start, *end, s0, ri, rj),
                        applies ==> ops_call_free(operations@) && depth - 1 >= ops_depth(operations@),
                        ri == Ok::<i64, RuntimeError>(first),
                        rj == Ok::<i64, RuntimeError>(last),
                        applies ==> forall|r2: Result<ReturnType, RuntimeError>, s2: Scope, o2: Seq<Effect>|
                            #[trigger] loop_runs(*index, operations@, i, last, *scope, out@, r2, s2, o2)
                                ==> loop_runs(*index, operations@, first, last, s0, o0, r2, s2, o2),
                    decreases last - i,
                {
                    let ghost s2 = *scope;
                    let ghost o2 = out@;
                    scope.set(index.clone(), Literal::Number(crate::flow::literal::Number::Integer(i)));
                    let ghost sa = *scope;
                    proof {
                        lemma_kept_refl(*scope, out@);
                        lemma_kept_trans(s0, s2, *scope, o0, o2, out@);
                        assert(assigned(s2, sa, *index, Literal::Number(crate::flow::literal::Number::Integer(i))));
                    }
                    let ghost s3 = *scope;
                    let ghost o3 = out@;
                    let r = run_block(operations, scope, functions, unit, out, depth - 1);
                    let ghost g = r;
                    proof {
                        lemma_kept_trans(s0, s3, *scope, o0, o3, out@);
                        if applies {
                            assert(block_runs(operations@, sa, o2, g, *scope, out@));
                            assert(pass_point(sa, g, *scope, out@));
                            if g matches Ok(ReturnType::Continue) {
                                let sb = *scope;
                                let ob = out@;
                                assert forall|r2: Result<ReturnType, RuntimeError>, s4: Scope, o4: Seq<Effect>|
                                    #[trigger] loop_runs(*index, operations@, (i + 1) as i64, last, sb, ob, r2, s4, o4)
                                        implies loop_runs(*index, operations@, first, last, s0, o0, r2, s4, o4) by {
                                    assert(pass_point(sa, g, sb, ob));
                                    assert(loop_runs(*index, operations@, i, last, s2, o2, r2, s4, o4));
                                }
                            } else if g matches Ok(ReturnType::Break) {
                                assert(loop_runs(*index, operations@, i, last, s2, o2, Ok(ReturnType::Continue), *scope, out@));
                            } else {
                                assert(loop_runs(*index, operations@, i, last, s2, o2, g, *scope, out@));
                            }
                        }
                    }
                    match r {
                        Ok(ReturnType::Continue) => {},
                        Ok(ReturnType::Break) => {
                            proof {
                                if applies {
                                    assert(block_runs(operations@, sa, o2, g, *scope, out@));
                                    assert(pass_point(sa, g, *scope, out@));
                                    assert(loop_runs(*index, operations@, i, last, s2, o2, Ok(ReturnType::Continue), *scope, out@));
                                    assert(loop_runs(*index, operations@, first, last, s0, o0, Ok(ReturnType::Continue), *scope, out@));
                                    assert(for_bounds(*start, *end, s0, ri, rj));
                                }
                            }
                            return Ok(ReturnType::Continue);
                        },
                        other => {
                            proof {
                                if applies {
                                    assert(block_runs(operations@, sa, o2, g, *scope, out@));
                                    assert(pass_point(sa, g, *scope, out@));
                                    assert(loop_runs(*index, operations@, i, last, s2, o2, g, *scope, out@));
                                    assert(loop_runs(*index, operations@, first, last, s0, o0, g, *scope, out@));
                                    assert(for_bounds(*start, *end, s0, ri, rj));
                                }
                            }
                            return other;
                        },
                    }
                    i = i + 1;
                }
                proof {
                    if applies {
                        assert(loop_runs(*index, operations@, i, last, *scope, out@, Ok(ReturnType::Continue), *scope, out@));
                    }
                }
                Ok(ReturnType::Continue)
            },
            Operation::Variable { name, value } => {
                let v = match value.evaluate(scope, functions, unit, out, depth - 1) {
                    Ok(v) => v,
                    Err(e) => {
                        return Err(e);
                    },
                };
                let ghost s1 = *scope;
                scope.set(name.clone(), v);
                proof {
                    lemma_kept_refl(*scope, out@);
                    lemma_kept_trans(s0, s1, *scope, o0, out@, out@);
                }
                Ok(ReturnType::Continue)
            },
            Operation::Function { name, args } => match find_function(functions, name) {
                None => Err(RuntimeError::Name(name.clone())),
                Some(index) => {
                    let x = call_function(
                        &functions[index].1,
                        args,
                        scope,
                        functions,
                        unit,
                        out,
                        depth - 1,
                    );
                    proof {
                        if depth > 1 {
                            assert(call_outcome(
                                functions@[index as int].1,
                                args@,
                                depth - 2,
                                s0,
                                o0,
                                x,
                                *scope,
                                out@,
                            ));
                        }
                    }
                    match x {
                        Ok(_) => Ok(ReturnType::Continue),
                        Err(e) => Err(e),
                    }
                },
            },
            Operation::Brightness { value } => {
                let ri = integer_of_value(value, scope, functions, unit, out, depth - 1);
                let v = match ri {
                    Ok(v) => v,
                    Err(e) => {
                        proof {
                            if simple_applies(*self, depth) {
                                reveal_with_fuel(pixel_outcome, 5);
                                assert(outcome1(ri, brightness_effect(ri), Err(e), o0, out@));
                            }
                        }
                        return Err(e);
                    },
                };
                let ghost s1 = *scope;
                let ghost o1 = out@;
                let e = Effect::Pixel(Action::Brightness(to_u8(v)));
                out.push(e);
                proof {
                    lemma_kept_push(*scope, o1, e);
                    lemma_kept_trans(s0, s1, *scope, o0, o1, out@);
                    if simple_applies(*self, depth) {
                        reveal_with_fuel(pixel_outcome, 5);
                        assert(seq![ri].drop_first() =~= Seq::<Result<i64, RuntimeError>>::empty());
                        assert(e == brightness_effect(ri));
                        assert(outcome1(ri, brightness_effect(ri), Ok(ReturnType::Continue), o0, out@));
                    }
                }
                Ok(ReturnType::Continue)
            },
            Operation::Fill { red, green, blue } => {
                let ri = integer_of_value(red, scope, functions, unit, out, depth - 1);
                let r = match ri {
                    Ok(v) => v,
                    Err(e) => {
                        proof {
                            if simple_applies(*self, depth) {
                                reveal_with_fuel(pixel_outcome, 5);
                                assert(outcome3(ri, ri, ri, fill_effect(ri, ri, ri), Err(e), o0, out@));
                            }
                        }
                        return Err(e);
                    },
                };
                let ghost s1 = *scope;
                let ghost o1 = out@;
                let rj = integer_of_value(green, scope, functions, unit, out, depth - 1);
                proof {
                    lemma_kept_trans(s0, s1, *scope, o0, o1, out@);
                }
                let g = match rj {
                    Ok(v) => v,
                    Err(e) => {
                        proof {
                            assert(seq![ri, rj, rj].drop_first() =~= seq![rj, rj]);
                            if simple_applies(*self, depth) {
                                reveal_with_fuel(pixel_outcome, 5);
                                assert(outcome3(ri, rj, rj, fill_effect(ri, rj, rj), Err(e), o0, out@));
                            }
                        }
                        return Err(e);
                    },
                };
                let ghost s2 = *scope;
                let ghost o2 = out@;
                let rk = integer_of_value(blue, scope, functions, unit, out, depth - 1);
                proof {
                    lemma_kept_trans(s0, s2, *scope, o0, o2, out@);
                }
                let b = match rk {
                    Ok(v) => v,
                    Err(e) => {
                        proof {
                            assert(seq![ri, rj, rk].drop_first() =~= seq![rj, rk]);
                            assert(seq![rj, rk].drop_first() =~= seq![rk]);
                            if simple_applies(*self, depth) {
                                reveal_with_fuel(pixel_outcome, 5);
                                assert(outcome3(ri, rj, rk, fill_effect(ri, rj, rk), Err(e), o0, out@));
                            }
                        }
                        return Err(e);
                    },
                };
                let ghost s3 = *scope;
                let ghost o3 = out@;
                let e = Effect::Pixel(Action::Fill { r: to_u8(r), g: to_u8(g), b: to_u8(b) });
                out.push(e);
                proof {
                    lemma_kept_push(*scope, o3, e);
                    lemma_kept_trans(s0, s3, *scope, o0, o3, out@);
                    assert(seq![ri, rj, rk].drop_first() =~= seq![rj, rk]);
                    assert(seq![rj, rk].drop_first() =~= seq![rk]);
                    assert(seq![rk].drop_first() =~= Seq::<Result<i64, RuntimeError>>::empty());
                    assert(e == fill_effect(ri, rj, rk));
                    if simple_applies(*self, depth) {
                        reveal_with_fuel(pixel_outcome, 5);
                        assert(outcome3(ri, rj, rk, fill_effect(ri, rj, rk), Ok(ReturnType::Continue), o0, out@));
                    }
                }
                Ok(ReturnType::Continue)
            },
            Operation::SetPixel { index, red, green, blue } => {
                let rn = integer_of_value(index, scope, functions, unit, out, depth - 1);
                let k = match rn {
                    Ok(v) => v,
                    Err(e) => {
                        proof {
                            if simple_applies(*self, depth) {
                                reveal_with_fuel(pixel_outcome, 5);
                                assert(outcome4(rn, rn, rn, rn, set_effect(rn, rn, rn, rn), Err(e), o0, out@));
                            }
                        }
                        return Err(e);
                    },
                };
                let ghost s1 = *scope;
                let ghost o1 = out@;
                let ri = integer_of_value(red, scope, functions, unit, out, depth - 1);
                proof {
                    lemma_kept_trans(s0, s1, *scope, o0, o1, out@);
                }
                let r = match ri {
                    Ok(v) => v,
                    Err(e) => {
                        proof {
                            assert(seq![rn, ri, ri, ri].drop_first() =~= seq![ri, ri, ri]);
                            if simple_applies(*self, depth) {
                                reveal_with_fuel(pixel_outcome, 5);
                                assert(outcome4(rn, ri, ri, ri, set_effect(rn, ri, ri, ri), Err(e), o0, out@));
                            }
                        }
                        return Err(e);
                    },
                };
                let ghost s2 = *scope;
                let ghost o2 = out@;
                let rj = integer_of_value(green, scope, functions, unit, out, depth - 1);
                proof {
                    lemma_kept_trans(s0, s2, *scope, o0, o2, out@);
                }
                let g = match rj {
                    Ok(v) => v,
                    Err(e) => {
                        proof {
                            assert(seq![rn, ri, rj, rj].drop_first() =~= seq![ri, rj, rj]);
                            assert(seq![ri, rj, rj].drop_first() =~= seq![rj, rj]);
                            if simple_applies(*self, depth) {
                                reveal_with_fuel(pixel_outcome, 5);
                                assert(outcome4(rn, ri, rj, rj, set_effect(rn, ri, rj, rj), Err(e), o0, out@));
                            }
                        }
                        return Err(e);
                    },
                };
                let ghost s3 = *scope;
                let ghost o3 = out@;
                let rk = integer_of_value(blue, scope, functions, unit, out, depth - 1);
                proof {
                    lemma_kept_trans(s0, s3, *scope, o0, o3, out@);
                }
                let b = match rk {
                    Ok(v) => v,
                    Err(e) => {
                        proof {
                            assert(seq![rn, ri, rj, rk].drop_first() =~= seq![ri, rj, rk]);
                            assert(seq![ri, rj, rk].drop_first() =~= seq![rj, rk]);
                            assert(seq![rj, rk].drop_first() =~= seq![rk]);
                            if simple_applies(*self, depth) {
                                reveal_with_fuel(pixel_outcome, 5);
                                assert(outcome4(rn, ri, rj, rk, set_effect(rn, ri, rj, rk), Err(e), o0, out@));
                            }
                        }
                        return Err(e);
                    },
                };
                let ghost s4 = *scope;
                let ghost o4 = out@;
                let e = Effect::Pixel(
                    Action::SetPixel { index: to_u16(k), r: to_u8(r), g: to_u8(g), b: to_u8(b) },
                );
                out.push(e);
                proof {
                    lemma_kept_push(*scope, o4, e);
                    lemma_kept_trans(s0, s4, *scope, o0, o4, out@);
                    assert(seq![rn, ri, rj, rk].drop_first() =~= seq![ri, rj, rk]);
                    assert(seq![ri, rj, rk].drop_first() =~= seq![rj, rk]);
                    assert(seq![rj, rk].drop_first() =~= seq![rk]);
                    assert(seq![rk].drop_first() =~= Seq::<Result<i64, RuntimeError>>::empty());
                    assert(e == set_effect(rn, ri, rj, rk));
                    if simple_applies(*self, depth) {
                        reveal_with_fuel(pixel_outcome, 5);
                        assert(outcome4(rn, ri, rj, rk, set_effect(rn, ri, rj, rk), Ok(ReturnType::Continue), o0, out@));
                    }
                }
                Ok(ReturnType::Continue)
            },
            Operation::Show => {
                out.push(Effect::Pixel(Action::Show));
                proof {
                    lemma_kept_push(*scope, o0, Effect::Pixel(Action::Show));
                }
                Ok(ReturnType::Continue)
            },
            Operation::Sleep { duration } => {
                let x = duration.evaluate(scope, functions, unit, out, depth - 1);
                let v = match x {
                    Ok(v) => v,
                    Err(e) => {
                        proof {
                            if simple_applies(*self, depth) {
                                assert(value_result(*duration, s0, x));
                            }
                        }
                        return Err(e);
                    },
                };
                let d = duration_from_literal(&v, unit);
                proof {
                    if simple_applies(*self, depth) {
                        assert(value_result(*duration, s0, x));
                        assert(duration_agrees(v, d));
                    }
                }
                match d {
                    Ok(nanos) => {
                        let ghost s1 = *scope;
                        let ghost o1 = out@;
                        out.push(Effect::Sleep(nanos));
                        proof {
                            lemma_kept_push(*scope, o1, Effect::Sleep(nanos));
                            lemma_kept_trans(s0, s1, *scope, o0, o1, out@);
                        }
                        Ok(ReturnType::Continue)
                    },
                    Err(e) => Err(RuntimeError::Format { to: "duration", source: e }),
                }
            },
        }
    }
}

} // verus!
