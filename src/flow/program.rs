use crate::flow::ast::{Function, Program, keys, unique_names};
use crate::flow::error::SyntaxError;
use crate::flow::interpret::{
    Effect, MAX_DEPTH, ReturnType, RuntimeError, block_runs, body_result, frame_kept, ops_call_free,
    ops_depth,
};
use crate::flow::literal::{FloatArithmetic, Literal};
use crate::flow::scope::Scope;
use crate::flow::ast::Operation;
use crate::flow::interpret::{
    loop_runs, midpoint, op_runs, pass_point, pixel_outcome, outcome1, outcome3,
    outcome4,
};
use crate::flow::validate::{
    op_scope, ops_scope, program_check, program_valid, entry_body_valid, global_names,
};
use vstd::prelude::*;

verus! {

/// A validated Flow program ready to run frame after frame; its globals
/// keep their values from one frame to the next.
#[derive(Debug)]
pub struct Flow {
    pub globals: Vec<(String, Literal)>,
    pub functions: Vec<(String, Function)>,
    pub entrypoint: Function,
}

/// The first name that occurs twice among the entries, if any.
fn repeated_name<T>(entries: &Vec<(String, T)>) -> (r: Option<String>)
    ensures
        r is None <==> unique_names(keys(entries@)),
{
    let ghost names = keys(entries@);
    let mut j: usize = 0;
    while j < entries.len()
        invariant
            j <= entries@.len(),
            names == keys(entries@),
            forall|p: int, q: int| 0 <= p < q < j ==> names[p] != names[q],
        decreases entries@.len() - j,
    {
        let mut i: usize = 0;
        while i < j
            invariant
                i <= j < entries@.len(),
                names == keys(entries@),
                forall|p: int| 0 <= p < i ==> names[p] != names[j as int],
            decreases j - i,
        {
            if entries[i].0 == entries[j].0 {
                assert(names[i as int] == names[j as int]);
                return Some(entries[j].0.clone());
            }
            i = i + 1;
        }
        j = j + 1;
    }
    None
}

/// A frame's run: the scope it starts with, the signal its body ends with,
/// and the scope and effects it ends with.
pub open spec fn frame_point(
    start: Scope,
    rb: Result<ReturnType, RuntimeError>,
    end: Scope,
    effects: Seq<Effect>,
) -> bool {
    true
}

impl Flow {
    /// Whether the globals have distinct names, as running a frame needs.
    pub open spec fn well_formed(&self) -> bool {
        unique_names(keys(self.globals@))
    }

    /// A flow from a program, without checking it.
    pub fn from_ast(program: Program) -> (r: Flow)
        ensures
            r.globals == program.globals,
            r.functions == program.functions,
            r.entrypoint.args@.len() == 0,
            r.entrypoint.operations == program.operations,
    {
        Flow {
            globals: program.globals,
            functions: program.functions,
            entrypoint: Function::from_operations(program.operations),
        }
    }

    /// Checks a program and makes it a flow: names must be distinct
    /// (`DuplicateName`), and the program valid (see `Program::validate`).
    pub fn build(program: Program) -> (r: Result<Flow, SyntaxError>)
        ensures
            r is Ok <==> program.well_formed() && program_valid(program),
            program.well_formed() ==> match program_check(program) {
                Ok(_) => r is Ok,
                Err(e) => r == Err::<Flow, SyntaxError>(e),
            },
            r is Ok ==> r->Ok_0.well_formed() && r->Ok_0.globals == program.globals
                && r->Ok_0.functions == program.functions && r->Ok_0.entrypoint.operations
                == program.operations,
    {
        match repeated_name(&program.functions) {
            Some(name) => {
                return Err(SyntaxError::DuplicateName { name });
            },
            None => {},
        }
        match repeated_name(&program.globals) {
            Some(name) => {
                return Err(SyntaxError::DuplicateName { name });
            },
            None => {},
        }
        match program.validate() {
            Ok(()) => Ok(Flow::from_ast(program)),
            Err(e) => Err(e),
        }
    }

    /// Runs one frame: the entrypoint runs with the globals and no locals,
    /// and its effects are added to `out` in order, also those before an
    /// error that stopped it. The globals keep their names; their values
    /// are the frame's.
    pub fn run_frame<U: FloatArithmetic>(&mut self, unit: &U, out: &mut Vec<Effect>) -> (r: Result<
        (),
        RuntimeError,
    >)
        requires
            old(self).well_formed(),
        ensures
            final(self).well_formed(),
            keys(final(self).globals@) == keys(old(self).globals@),
            final(self).functions == old(self).functions,
            final(out)@.len() >= old(out)@.len(),
            final(out)@.subrange(0, old(out)@.len() as int) == old(out)@,
            ops_call_free(old(self).entrypoint.operations@) && MAX_DEPTH >= ops_depth(
                old(self).entrypoint.operations@,
            ) ==> exists|start: Scope, rb: Result<ReturnType, RuntimeError>, end: Scope|
                #[trigger] frame_point(start, rb, end, final(out)@) && start.globals == old(
                    self,
                ).globals && start.locals@.len() == 0 && block_runs(
                    old(self).entrypoint.operations@,
                    start,
                    old(out)@,
                    rb,
                    end,
                    final(out)@,
                ) && final(self).globals == end.globals && match body_result(rb) {
                    Ok(_) => r is Ok,
                    Err(e) => r == Err::<(), RuntimeError>(e),
                },
    {
        let mut globals: Vec<(String, Literal)> = Vec::new();
        core::mem::swap(&mut globals, &mut self.globals);
        let mut scope = Scope::new(globals);
        let ghost scope0 = scope;
        let ghost out0 = out@;
        let result = self.entrypoint.evaluate(&mut scope, &self.functions, unit, out, MAX_DEPTH);
        assert(frame_kept(scope0, scope, out0, out@));
        let ghost scope1 = scope;
        let ghost res = result;
        core::mem::swap(&mut self.globals, &mut scope.globals);
        proof {
            if ops_call_free(self.entrypoint.operations@) && MAX_DEPTH >= ops_depth(
                self.entrypoint.operations@,
            ) {
                let rb = choose|rb: Result<ReturnType, RuntimeError>|
                    #[trigger] body_result(rb) == res && block_runs(
                        self.entrypoint.operations@,
                        scope0,
                        out0,
                        rb,
                        scope1,
                        out@,
                    );
                assert(frame_point(scope0, rb, scope1, out@));
            }
        }
        match result {
            Ok(_) => Ok(()),
            Err(e) => Err(e),
        }
    }

    /// Runs one frame: the entrypoint runs with the globals and no locals.
    /// Gives the effects of the frame in order, or the error that stopped it.
    /// The globals keep their names; their values are the frame's.
    pub fn animate<U: FloatArithmetic>(&mut self, unit: &U) -> (r: Result<Vec<Effect>, RuntimeError>)
        requires
            old(self).well_formed(),
        ensures
            final(self).well_formed(),
            keys(final(self).globals@) == keys(old(self).globals@),
            final(self).functions == old(self).functions,
            ops_call_free(old(self).entrypoint.operations@) && MAX_DEPTH >= ops_depth(
                old(self).entrypoint.operations@,
            ) ==> exists|start: Scope, rb: Result<ReturnType, RuntimeError>, end: Scope, effects: Seq<Effect>|
                #[trigger] frame_point(start, rb, end, effects) && start.globals == old(self).globals
                    && start.locals@.len() == 0 && block_runs(
                    old(self).entrypoint.operations@,
                    start,
                    Seq::empty(),
                    rb,
                    end,
                    effects,
                ) && final(self).globals == end.globals && match body_result(rb) {
                    Ok(_) => r is Ok && r->Ok_0@ == effects,
                    Err(e) => r == Err::<Vec<Effect>, RuntimeError>(e),
                },
    {
        let mut out: Vec<Effect> = Vec::new();
        assert(out@ =~= Seq::<Effect>::empty());
        let done = self.run_frame(unit, &mut out);
        match done {
            Ok(()) => Ok(out),
            Err(e) => Err(e),
        }
    }
}

proof fn lemma_pixel_no_break(
    ints: Seq<Result<i64, RuntimeError>>,
    effect: Effect,
    r: Result<ReturnType, RuntimeError>,
    before: Seq<Effect>,
    after: Seq<Effect>,
)
    requires
        pixel_outcome(ints, effect, r, before, after),
    ensures
        !(r matches Ok(ReturnType::Break)),
    decreases ints.len(),
{
    if ints.len() > 0 && !(ints[0] is Err) {
        lemma_pixel_no_break(ints.drop_first(), effect, r, before, after);
    }
}

proof fn lemma_loop_no_break(
    index: String,
    body: Seq<Operation>,
    i: i64,
    end: i64,
    s: Scope,
    o: Seq<Effect>,
    r: Result<ReturnType, RuntimeError>,
    s2: Scope,
    o2: Seq<Effect>,
)
    requires
        loop_runs(index, body, i, end, s, o, r, s2, o2),
    ensures
        !(r matches Ok(ReturnType::Break)),
    decreases end - i,
{
    if i < end {
        let (sa, rb, sb, ob) = choose|
            sa: Scope,
            rb: Result<ReturnType, RuntimeError>,
            sb: Scope,
            ob: Seq<Effect>,
        |
            #[trigger] pass_point(sa, rb, sb, ob) && crate::flow::interpret::assigned(
                s,
                sa,
                index,
                Literal::Number(crate::flow::literal::Number::Integer(i)),
            ) && crate::flow::interpret::block_runs(body, sa, o, rb, sb, ob) && match rb {
                Ok(ReturnType::Continue) => loop_runs(index, body, (i + 1) as i64, end, sb, ob, r, s2, o2),
                Ok(ReturnType::Break) => r matches Ok(ReturnType::Continue) && s2 == sb && o2 == ob,
                _ => r == rb && s2 == sb && o2 == ob,
            };
        if rb matches Ok(ReturnType::Continue) {
            lemma_loop_no_break(index, body, (i + 1) as i64, end, sb, ob, r, s2, o2);
        }
    }
}

proof fn lemma_op_no_break(
    op: Operation,
    fns: Seq<(String, Function)>,
    vars: Set<Seq<char>>,
    no_return: bool,
    s: Scope,
    o: Seq<Effect>,
    r: Result<ReturnType, RuntimeError>,
    s2: Scope,
    o2: Seq<Effect>,
)
    requires
        op_scope(op, fns, vars, false, no_return) is Ok,
        op_runs(op, s, o, r, s2, o2),
    ensures
        !(r matches Ok(ReturnType::Break)),
    decreases op, 0int,
{
    match op {
        Operation::If { condition, truthy, falsy } => {
            let x = choose|x: Result<Literal, RuntimeError>|
                #[trigger] crate::flow::interpret::value_result(condition, s, x) && match x {
                    Err(e) => r == Err::<ReturnType, RuntimeError>(e) && s2 == s && o2 == o,
                    Ok(c) => if crate::flow::literal::truth_of(c) {
                        block_runs(truthy@, s, o, r, s2, o2)
                    } else {
                        block_runs(falsy@, s, o, r, s2, o2)
                    },
                };
            let after = ops_scope(truthy@, fns, vars, false, no_return)->Ok_0;
            if let Ok(c) = x {
                if crate::flow::literal::truth_of(c) {
                    lemma_block_no_break(truthy@, fns, vars, no_return, s, o, r, s2, o2);
                } else {
                    lemma_block_no_break(falsy@, fns, after, no_return, s, o, r, s2, o2);
                }
            }
        },
        Operation::For { start, end, index, operations } => {
            let (i, j) = choose|i: Result<i64, RuntimeError>, j: Result<i64, RuntimeError>|
                #[trigger] crate::flow::interpret::for_bounds(start, end, s, i, j) && match i {
                    Err(e) => r == Err::<ReturnType, RuntimeError>(e) && s2 == s && o2 == o,
                    Ok(a) => match j {
                        Err(e) => r == Err::<ReturnType, RuntimeError>(e) && s2 == s && o2 == o,
                        Ok(b) => loop_runs(index, operations@, a, b, s, o, r, s2, o2),
                    },
                };
            if let Ok(a) = i {
                if let Ok(b) = j {
                    lemma_loop_no_break(index, operations@, a, b, s, o, r, s2, o2);
                }
            }
        },
        Operation::Brightness { value } => {
            let i = choose|i: Result<i64, RuntimeError>|
                crate::flow::interpret::int_of(value, s, i) && #[trigger] outcome1(
                    i,
                    crate::flow::interpret::brightness_effect(i),
                    r,
                    o,
                    o2,
                );
            lemma_pixel_no_break(seq![i], crate::flow::interpret::brightness_effect(i), r, o, o2);
        },
        Operation::Fill { red, green, blue } => {
            let (i, j, k) = choose|
                i: Result<i64, RuntimeError>,
                j: Result<i64, RuntimeError>,
                k: Result<i64, RuntimeError>,
            |
                crate::flow::interpret::int_of(red, s, i) && (i is Ok ==> crate::flow::interpret::int_of(
                    green,
                    s,
                    j,
                )) && (i is Ok && j is Ok ==> crate::flow::interpret::int_of(blue, s, k))
                    && #[trigger] outcome3(
                    i,
                    j,
                    k,
                    crate::flow::interpret::fill_effect(i, j, k),
                    r,
                    o,
                    o2,
                );
            lemma_pixel_no_break(seq![i, j, k], crate::flow::interpret::fill_effect(i, j, k), r, o, o2);
        },
        Operation::SetPixel { index, red, green, blue } => {
            let (n, i, j, k) = choose|
                n: Result<i64, RuntimeError>,
                i: Result<i64, RuntimeError>,
                j: Result<i64, RuntimeError>,
                k: Result<i64, RuntimeError>,
            |
                crate::flow::interpret::int_of(index, s, n) && (n is Ok ==> crate::flow::interpret::int_of(
                    red,
                    s,
                    i,
                )) && (n is Ok && i is Ok ==> crate::flow::interpret::int_of(green, s, j)) && (n is Ok
                    && i is Ok && j is Ok ==> crate::flow::interpret::int_of(blue, s, k))
                    && #[trigger] outcome4(
                    n,
                    i,
                    j,
                    k,
                    crate::flow::interpret::set_effect(n, i, j, k),
                    r,
                    o,
                    o2,
                );
            lemma_pixel_no_break(
                seq![n, i, j, k],
                crate::flow::interpret::set_effect(n, i, j, k),
                r,
                o,
                o2,
            );
        },
        _ => {},
    }
}

proof fn lemma_block_no_break(
    ops: Seq<Operation>,
    fns: Seq<(String, Function)>,
    vars: Set<Seq<char>>,
    no_return: bool,
    s: Scope,
    o: Seq<Effect>,
    r: Result<ReturnType, RuntimeError>,
    s2: Scope,
    o2: Seq<Effect>,
)
    requires
        ops_scope(ops, fns, vars, false, no_return) is Ok,
        block_runs(ops, s, o, r, s2, o2),
    ensures
        !(r matches Ok(ReturnType::Break)),
    decreases ops, 0int,
{
    if ops.len() > 0 {
        let (r1, s1, o1) = choose|r1: Result<ReturnType, RuntimeError>, s1: Scope, o1: Seq<Effect>|
            #[trigger] midpoint(r1, s1, o1) && op_runs(ops[0], s, o, r1, s1, o1) && match r1 {
                Ok(ReturnType::Continue) => block_runs(ops.drop_first(), s1, o1, r, s2, o2),
                _ => r == r1 && s2 == s1 && o2 == o1,
            };
        let after = op_scope(ops[0], fns, vars, false, no_return)->Ok_0;
        if r1 matches Ok(ReturnType::Continue) {
            lemma_block_no_break(ops.drop_first(), fns, after, no_return, s1, o1, r, s2, o2);
        } else {
            lemma_op_no_break(ops[0], fns, vars, no_return, s, o, r1, s1, o1);
        }
    }
}

/// In a valid program, every run of the entrypoint's body that calls no
/// function ends on something other than a `Break`: a `Break` the check
/// let through always stands inside a loop, which stops it.
pub proof fn lemma_valid_entry_has_no_stray_break(
    p: Program,
    s: Scope,
    o: Seq<Effect>,
    r: Result<ReturnType, RuntimeError>,
    s2: Scope,
    o2: Seq<Effect>,
)
    requires
        program_valid(p),
        block_runs(p.operations@, s, o, r, s2, o2),
    ensures
        !(r matches Ok(ReturnType::Break)),
{
    assert(entry_body_valid(p.operations@, p.functions@, global_names(p)));
    lemma_block_no_break(p.operations@, p.functions@, global_names(p), true, s, o, r, s2, o2);
}

} // verus!
