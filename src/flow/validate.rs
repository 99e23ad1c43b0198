use crate::flow::ast::{Function, Operation, Program, Value, keys, unique_names};
use crate::flow::error::SyntaxError;
use vstd::prelude::*;

verus! {

broadcast use vstd::std_specs::vec::group_vec_axioms, vstd::seq::group_seq_axioms;

/// The position of the first entry with the name, or -1 when none has it.
pub open spec fn find_entry<T>(entries: Seq<(String, T)>, name: Seq<char>) -> int
    decreases entries.len(),
{
    if entries.len() == 0 {
        -1
    } else {
        let f = find_entry(entries.drop_last(), name);
        if f >= 0 {
            f
        } else if entries.last().0@ == name {
            entries.len() - 1
        } else {
            -1
        }
    }
}

/// The names of a list of strings, as a set.
pub open spec fn name_set(v: Seq<String>) -> Set<Seq<char>> {
    Set::new(|x: Seq<char>| exists|i: int| 0 <= i < v.len() && v[i]@ == x)
}

/// The first error of `a` and then `b`, checked in that order.
pub open spec fn then_check(a: Result<(), SyntaxError>, b: Result<(), SyntaxError>) -> Result<
    (),
    SyntaxError,
> {
    match a {
        Ok(_) => b,
        Err(e) => Err(e),
    }
}

/// The names `vars` once the check `c` passed, or its error.
pub open spec fn keep_vars(c: Result<(), SyntaxError>, vars: Set<Seq<char>>) -> Result<
    Set<Seq<char>>,
    SyntaxError,
> {
    match c {
        Ok(_) => Ok(vars),
        Err(e) => Err(e),
    }
}

/// The first problem of a value, or `Ok`: a variable that is not in `vars`
/// (`UnknownVariable`); a call of a function that is not defined
/// (`UnknownFunction`), or with as many arguments as it has no parameters
/// (`MismatchArguments`); operands and arguments are checked in order.
pub open spec fn value_check(v: Value, fns: Seq<(String, Function)>, vars: Set<Seq<char>>) -> Result<
    (),
    SyntaxError,
>
    decreases v,
{
    match v {
        Value::Variable { name } => if vars.contains(name@) {
            Ok(())
        } else {
            Err(SyntaxError::UnknownVariable { name })
        },
        Value::Literal { .. } => Ok(()),
        Value::UnaryExpression { value, .. } => value_check(*value, fns, vars),
        Value::BinaryExpression { lhs, rhs, .. } => then_check(
            value_check(*lhs, fns, vars),
            value_check(*rhs, fns, vars),
        ),
        Value::Comparison { lhs, rhs, .. } => then_check(
            value_check(*lhs, fns, vars),
            value_check(*rhs, fns, vars),
        ),
        Value::Function { name, args } => if find_entry(fns, name@) < 0 {
            Err(SyntaxError::UnknownFunction { name })
        } else if fns[find_entry(fns, name@)].1.args@.len() != args@.len() {
            Err(
                SyntaxError::MismatchArguments {
                    name,
                    expected: fns[find_entry(fns, name@)].1.args@.len() as usize,
                    actual: args@.len() as usize,
                },
            )
        } else {
            // the first argument with a problem; when there is none, every
            // argument passes, whichever one is picked
            let i = choose|i: int|
                0 <= i < args@.len() && (value_check(#[trigger] args@[i], fns, vars) is Err) && forall|
                    k: int,
                | 0 <= k < i ==> (value_check(#[trigger] args@[k], fns, vars) is Ok);
            if 0 <= i < args@.len() {
                then_check(value_check(args@[i], fns, vars), Ok(()))
            } else {
                Ok(())
            }
        },
    }
}

/// The variables known after the operation, or its first problem: a
/// `Break` outside a loop (`InvalidBreak`), a `Return` where none is allowed
/// (`InvalidReturn`), or a value that is not valid (see `value_check`), in
/// the order the operation holds them. `Variable` and `For` add their name
/// for the operations that follow.
pub open spec fn op_scope(
    op: Operation,
    fns: Seq<(String, Function)>,
    vars: Set<Seq<char>>,
    in_loop: bool,
    no_return: bool,
) -> Result<Set<Seq<char>>, SyntaxError>
    decreases op,
{
    match op {
        Operation::Break => if in_loop {
            Ok(vars)
        } else {
            Err(SyntaxError::InvalidBreak)
        },
        Operation::End | Operation::Show => Ok(vars),
        Operation::Return { result } => if no_return {
            Err(SyntaxError::InvalidReturn)
        } else {
            keep_vars(value_check(result, fns, vars), vars)
        },
        Operation::Brightness { value } => keep_vars(value_check(value, fns, vars), vars),
        Operation::Sleep { duration } => keep_vars(value_check(duration, fns, vars), vars),
        Operation::Fill { red, green, blue } => keep_vars(
            then_check(
                value_check(red, fns, vars),
                then_check(value_check(green, fns, vars), value_check(blue, fns, vars)),
            ),
            vars,
        ),
        Operation::SetPixel { index, red, green, blue } => keep_vars(
            then_check(
                value_check(index, fns, vars),
                then_check(
                    value_check(red, fns, vars),
                    then_check(value_check(green, fns, vars), value_check(blue, fns, vars)),
                ),
            ),
            vars,
        ),
        Operation::Variable { name, value } => keep_vars(
            value_check(value, fns, vars),
            vars.insert(name@),
        ),
        Operation::Function { name, args } => keep_vars(
            value_check(Value::Function { name, args }, fns, vars),
            vars,
        ),
        Operation::If { condition, truthy, falsy } => match value_check(condition, fns, vars) {
            Err(e) => Err(e),
            Ok(_) => match ops_scope(truthy@, fns, vars, in_loop, no_return) {
                Err(e) => Err(e),
                Ok(after) => ops_scope(falsy@, fns, after, in_loop, no_return),
            },
        },
        Operation::For { start, end, index, operations } => match then_check(
            value_check(start, fns, vars),
            value_check(end, fns, vars),
        ) {
            Err(e) => Err(e),
            Ok(_) => ops_scope(operations@, fns, vars.insert(index@), true, no_return),
        },
    }
}

/// The variables known after the operations in order, or the first
/// problem of the first operation that has one.
pub open spec fn ops_scope(
    ops: Seq<Operation>,
    fns: Seq<(String, Function)>,
    vars: Set<Seq<char>>,
    in_loop: bool,
    no_return: bool,
) -> Result<Set<Seq<char>>, SyntaxError>
    decreases ops,
{
    if ops.len() == 0 {
        Ok(vars)
    } else {
        match op_scope(ops[0], fns, vars, in_loop, no_return) {
            Err(e) => Err(e),
            Ok(after) => ops_scope(ops.drop_first(), fns, after, in_loop, no_return),
        }
    }
}

/// A check on names as a check that only passes or fails.
pub open spec fn passed(c: Result<Set<Seq<char>>, SyntaxError>) -> Result<(), SyntaxError> {
    match c {
        Ok(_) => Ok(()),
        Err(e) => Err(e),
    }
}

/// The parameters plus the globals a function body starts with.
pub open spec fn function_scope(f: Function, globals: Set<Seq<char>>) -> Set<Seq<char>> {
    name_set(f.args@).union(globals)
}

/// The first problem of a function: two parameters with one name
/// (`NonUniqueArguments`), then the first problem of its body with the
/// parameters and the globals in scope.
pub open spec fn function_check(
    f: Function,
    fns: Seq<(String, Function)>,
    globals: Set<Seq<char>>,
) -> Result<(), SyntaxError> {
    if !unique_names(f.args@.map_values(|a: String| a@)) {
        Err(SyntaxError::NonUniqueArguments)
    } else {
        passed(ops_scope(f.operations@, fns, function_scope(f, globals), false, false))
    }
}

/// Whether a function's parameters are distinct and its body is valid with
/// them and the globals in scope.
pub open spec fn function_valid(
    f: Function,
    fns: Seq<(String, Function)>,
    globals: Set<Seq<char>>,
) -> bool {
    function_check(f, fns, globals) is Ok
}

/// The first problem of an entrypoint's body: no final `End`
/// (`ExpectedEnd`), then the first problem of the operations with the
/// globals in scope, where no `Return` is allowed.
pub open spec fn entry_body_check(
    ops: Seq<Operation>,
    fns: Seq<(String, Function)>,
    globals: Set<Seq<char>>,
) -> Result<(), SyntaxError> {
    if !(ops.len() > 0 && ops.last() matches Operation::End) {
        Err(SyntaxError::ExpectedEnd)
    } else {
        passed(ops_scope(ops, fns, globals, false, true))
    }
}

/// Whether an entrypoint's body ends with `End`, returns nowhere, and is
/// valid with the globals in scope.
pub open spec fn entry_body_valid(
    ops: Seq<Operation>,
    fns: Seq<(String, Function)>,
    globals: Set<Seq<char>>,
) -> bool {
    entry_body_check(ops, fns, globals) is Ok
}

/// The first problem of an entrypoint: parameters (`InvalidEntrypoint`),
/// then the first problem of its body.
pub open spec fn entrypoint_check(
    f: Function,
    fns: Seq<(String, Function)>,
    globals: Set<Seq<char>>,
) -> Result<(), SyntaxError> {
    if f.args@.len() != 0 {
        Err(SyntaxError::InvalidEntrypoint)
    } else {
        entry_body_check(f.operations@, fns, globals)
    }
}

/// Whether an entrypoint takes no parameters and has a valid body.
pub open spec fn entrypoint_valid(
    f: Function,
    fns: Seq<(String, Function)>,
    globals: Set<Seq<char>>,
) -> bool {
    entrypoint_check(f, fns, globals) is Ok
}

/// The names of the program's globals.
pub open spec fn global_names(p: Program) -> Set<Seq<char>> {
    Set::new(|x: Seq<char>| exists|i: int| 0 <= i < p.globals@.len() && p.globals@[i].0@ == x)
}

/// Whether the function at `i` has a problem while none before it has.
pub open spec fn first_bad_function(p: Program, i: int) -> bool {
    &&& 0 <= i < p.functions@.len()
    &&& function_check(p.functions@[i].1, p.functions@, global_names(p)) is Err
    &&& forall|k: int|
        0 <= k < i ==> (function_check(#[trigger] p.functions@[k].1, p.functions@, global_names(p)) is Ok)
}

/// The first problem of a program: that of the first function that has
/// one, in order, else that of the entrypoint's body.
pub open spec fn program_check(p: Program) -> Result<(), SyntaxError> {
    if exists|i: int| #[trigger] first_bad_function(p, i) {
        let i = choose|i: int| #[trigger] first_bad_function(p, i);
        function_check(p.functions@[i].1, p.functions@, global_names(p))
    } else {
        entry_body_check(p.operations@, p.functions@, global_names(p))
    }
}

/// Whether every function of the program and its entrypoint are valid.
pub open spec fn program_valid(p: Program) -> bool {
    &&& forall|i: int|
        0 <= i < p.functions@.len() ==> function_valid(
            #[trigger] p.functions@[i].1,
            p.functions@,
            global_names(p),
        )
    &&& entry_body_valid(p.operations@, p.functions@, global_names(p))
}

proof fn lemma_find_extends<T>(entries: Seq<(String, T)>, name: Seq<char>, k: int)
    requires
        0 <= k < entries.len(),
    ensures
        find_entry(entries.subrange(0, k + 1), name) == if find_entry(entries.subrange(0, k), name)
            >= 0 {
            find_entry(entries.subrange(0, k), name)
        } else if entries[k].0@ == name {
            k
        } else {
            -1
        },
{
    assert(entries.subrange(0, k + 1).drop_last() =~= entries.subrange(0, k));
}

proof fn lemma_find_stays<T>(entries: Seq<(String, T)>, name: Seq<char>, k: int)
    requires
        0 <= k <= entries.len(),
        find_entry(entries.subrange(0, k), name) >= 0,
    ensures
        find_entry(entries, name) == find_entry(entries.subrange(0, k), name),
    decreases entries.len() - k,
{
    if k < entries.len() {
        lemma_find_extends(entries, name, k);
        lemma_find_stays(entries, name, k + 1);
    } else {
        assert(entries.subrange(0, k) =~= entries);
    }
}

pub proof fn lemma_find_bounds<T>(entries: Seq<(String, T)>, name: Seq<char>)
    ensures
        -1 <= find_entry(entries, name) < entries.len(),
        find_entry(entries, name) >= 0 ==> entries[find_entry(entries, name)].0@ == name,
    decreases entries.len(),
{
    if entries.len() > 0 {
        lemma_find_bounds(entries.drop_last(), name);
    }
}

/// The position of the first function with the name.
pub fn find_function(fns: &Vec<(String, Function)>, name: &String) -> (r: Option<usize>)
    ensures
        match r {
            Some(i) => i == find_entry(fns@, name@) && i < fns@.len(),
            None => find_entry(fns@, name@) == -1,
        },
{
    find_name(fns, name)
}

/// The position of the first entry with the name.
pub fn find_name<T>(fns: &Vec<(String, T)>, name: &String) -> (r: Option<usize>)
    ensures
        match r {
            Some(i) => i == find_entry(fns@, name@) && i < fns@.len(),
            None => find_entry(fns@, name@) == -1,
        },
{
    let mut i: usize = 0;
    assert(fns@.subrange(0, 0).len() == 0);
    while i < fns.len()
        invariant
            i <= fns@.len(),
            find_entry(fns@.subrange(0, i as int), name@) == -1,
        decreases fns@.len() - i,
    {
        proof {
            lemma_find_extends(fns@, name@, i as int);
        }
        if fns[i].0 == *name {
            proof {
                lemma_find_stays(fns@, name@, i + 1);
            }
            return Some(i);
        }
        i = i + 1;
    }
    assert(fns@.subrange(0, i as int) =~= fns@);
    None
}

/// Whether the name is among the strings.
fn contains_name(vars: &Vec<String>, name: &String) -> (r: bool)
    ensures
        r == name_set(vars@).contains(name@),
{
    let mut i: usize = 0;
    while i < vars.len()
        invariant
            i <= vars@.len(),
            forall|k: int| 0 <= k < i ==> vars@[k]@ != name@,
        decreases vars@.len() - i,
    {
        if vars[i] == *name {
            return true;
        }
        i = i + 1;
    }
    false
}

/// Adds a name to the scope.
fn add_name(vars: &mut Vec<String>, name: &String)
    ensures
        name_set(final(vars)@) == name_set(old(vars)@).insert(name@),
{
    let ghost before = vars@;
    vars.push(name.clone());
    assert(name_set(vars@) =~= name_set(before).insert(name@)) by {
        assert forall|x: Seq<char>| name_set(before).insert(name@).contains(x) implies name_set(
            vars@,
        ).contains(x) by {
            if x == name@ {
                assert(vars@[before.len() as int]@ == x);
            } else {
                let i = choose|i: int| 0 <= i < before.len() && before[i]@ == x;
                assert(vars@[i]@ == x);
            }
        }
        assert forall|x: Seq<char>| name_set(vars@).contains(x) implies name_set(before).insert(
            name@,
        ).contains(x) by {
            let i = choose|i: int| 0 <= i < vars@.len() && vars@[i]@ == x;
            if i < before.len() {
                assert(before[i]@ == x);
            }
        }
    }
}

/// Checks a call: the function must exist and take as many parameters as
/// there are arguments, and each argument must be valid.
pub fn function_call_is_valid(
    vars: &Vec<String>,
    fns: &Vec<(String, Function)>,
    name: &String,
    args: &Vec<Value>,
) -> (r: Result<(), SyntaxError>)
    ensures
        r == value_check(Value::Function { name: *name, args: *args }, fns@, name_set(vars@)),
    decreases args,
{
    match find_function(fns, name) {
        None => Err(SyntaxError::UnknownFunction { name: name.clone() }),
        Some(index) => {
            let expected = fns[index].1.args.len();
            if expected != args.len() {
                return Err(
                    SyntaxError::MismatchArguments {
                        name: name.clone(),
                        expected,
                        actual: args.len(),
                    },
                );
            }
            let mut i: usize = 0;
            while i < args.len()
                invariant
                    i <= args@.len(),
                    find_entry(fns@, name@) >= 0,
                    index == find_entry(fns@, name@),
                    expected == args@.len(),
                    expected == fns@[index as int].1.args@.len(),
                    forall|k: int|
                        0 <= k < i ==> (value_check(#[trigger] args@[k], fns@, name_set(vars@)) is Ok),
                decreases args@.len() - i,
            {
                match validate_value(&args[i], fns, vars) {
                    Ok(()) => {},
                    Err(e) => {
                        proof {
                            let vs = name_set(vars@);
                            assert(value_check(args@[i as int], fns@, vs) is Err);
                            let j = choose|j: int|
                                0 <= j < args@.len() && (value_check(#[trigger] args@[j], fns@, vs) is Err)
                                    && forall|k: int|
                                    0 <= k < j ==> (value_check(#[trigger] args@[k], fns@, vs) is Ok);
                            if j > i {
                                assert(value_check(args@[i as int], fns@, vs) is Ok);
                            }
                            assert(j == i);
                        }
                        return Err(e);
                    },
                }
                i = i + 1;
            }
            Ok(())
        },
    }
}

/// Checks that a value reads only known variables and calls only defined
/// functions with the right number of arguments.
pub fn validate_value(v: &Value, fns: &Vec<(String, Function)>, vars: &Vec<String>) -> (r: Result<
    (),
    SyntaxError,
>)
    ensures
        r == value_check(*v, fns@, name_set(vars@)),
    decreases v,
{
    match v {
        Value::Variable { name } => {
            if contains_name(vars, name) {
                Ok(())
            } else {
                Err(SyntaxError::UnknownVariable { name: name.clone() })
            }
        },
        Value::Literal { .. } => Ok(()),
        Value::UnaryExpression { value, .. } => validate_value(value, fns, vars),
        Value::BinaryExpression { lhs, rhs, .. } | Value::Comparison { lhs, rhs, .. } => {
            match validate_value(lhs, fns, vars) {
                Ok(()) => validate_value(rhs, fns, vars),
                Err(e) => Err(e),
            }
        },
        Value::Function { name, args } => function_call_is_valid(vars, fns, name, args),
    }
}

/// Checks one operation and adds the names it defines to the scope (see
/// `op_scope`).
pub fn validate_operation(
    op: &Operation,
    fns: &Vec<(String, Function)>,
    vars: &mut Vec<String>,
    in_loop: bool,
    no_return: bool,
) -> (r: Result<(), SyntaxError>)
    ensures
        match op_scope(*op, fns@, name_set(old(vars)@), in_loop, no_return) {
            Ok(after) => r is Ok && name_set(final(vars)@) == after,
            Err(e) => r == Err::<(), SyntaxError>(e),
        },
    decreases op,
{
    match op {
        Operation::Break => {
            if in_loop {
                Ok(())
            } else {
                Err(SyntaxError::InvalidBreak)
            }
        },
        Operation::End | Operation::Show => Ok(()),
        Operation::Return { result } => {
            if no_return {
                return Err(SyntaxError::InvalidReturn);
            }
            validate_value(result, fns, vars)
        },
        Operation::Brightness { value } => validate_value(value, fns, vars),
        Operation::Sleep { duration } => validate_value(duration, fns, vars),
        Operation::Fill { red, green, blue } => {
            match validate_value(red, fns, vars) {
                Ok(()) => {},
                Err(e) => {
                    return Err(e);
                },
            }
            match validate_value(green, fns, vars) {
                Ok(()) => {},
                Err(e) => {
                    return Err(e);
                },
            }
            validate_value(blue, fns, vars)
        },
        Operation::SetPixel { index, red, green, blue } => {
            match validate_value(index, fns, vars) {
                Ok(()) => {},
                Err(e) => {
                    return Err(e);
                },
            }
            match validate_value(red, fns, vars) {
                Ok(()) => {},
                Err(e) => {
                    return Err(e);
                },
            }
            match validate_value(green, fns, vars) {
                Ok(()) => {},
                Err(e) => {
                    return Err(e);
                },
            }
            validate_value(blue, fns, vars)
        },
        Operation::Variable { name, value } => {
            match validate_value(value, fns, vars) {
                Ok(()) => {},
                Err(e) => {
                    return Err(e);
                },
            }
            add_name(vars, name);
            Ok(())
        },
        Operation::Function { name, args } => function_call_is_valid(vars, fns, name, args),
        Operation::If { condition, truthy, falsy } => {
            match validate_value(condition, fns, vars) {
                Ok(()) => {},
                Err(e) => {
                    return Err(e);
                },
            }
            match validate_operations(truthy, fns, vars, in_loop, no_return) {
                Ok(()) => {},
                Err(e) => {
                    return Err(e);
                },
            }
            validate_operations(falsy, fns, vars, in_loop, no_return)
        },
        Operation::For { start, end, index, operations } => {
            match validate_value(start, fns, vars) {
                Ok(()) => {},
                Err(e) => {
                    return Err(e);
                },
            }
            match validate_value(end, fns, vars) {
                Ok(()) => {},
                Err(e) => {
                    return Err(e);
                },
            }
            add_name(vars, index);
            validate_operations(operations, fns, vars, true, no_return)
        },
    }
}

/// Checks operations in order, each with the names the earlier ones defined
/// (see `ops_scope`).
pub fn validate_operations(
    ops: &Vec<Operation>,
    fns: &Vec<(String, Function)>,
    vars: &mut Vec<String>,
    in_loop: bool,
    no_return: bool,
) -> (r: Result<(), SyntaxError>)
    ensures
        match ops_scope(ops@, fns@, name_set(old(vars)@), in_loop, no_return) {
            Ok(after) => r is Ok && name_set(final(vars)@) == after,
            Err(e) => r == Err::<(), SyntaxError>(e),
        },
    decreases ops,
{
    let ghost start = name_set(vars@);
    let mut i: usize = 0;
    assert(ops@.skip(0) =~= ops@);
    while i < ops.len()
        invariant
            i <= ops@.len(),
            start == name_set(old(vars)@),
            ops_scope(ops@, fns@, start, in_loop, no_return) == ops_scope(
                ops@.skip(i as int),
                fns@,
                name_set(vars@),
                in_loop,
                no_return,
            ),
        decreases ops@.len() - i,
    {
        assert(ops@.skip(i as int)[0] == ops@[i as int]);
        assert(ops@.skip(i as int).drop_first() =~= ops@.skip(i + 1));
        let ghost before = name_set(vars@);
        match validate_operation(&ops[i], fns, vars, in_loop, no_return) {
            Ok(()) => {},
            Err(e) => {
                assert(op_scope(ops@[i as int], fns@, before, in_loop, no_return) == Err::<
                    Set<Seq<char>>,
                    SyntaxError,
                >(e));
                assert(ops_scope(ops@, fns@, start, in_loop, no_return) == Err::<
                    Set<Seq<char>>,
                    SyntaxError,
                >(e));
                return Err(e);
            },
        }
        i = i + 1;
    }
    assert(ops@.skip(i as int).len() == 0);
    Ok(())
}

/// Whether two parameter names are the same, at positions `i < j`.
fn first_repeat(args: &Vec<String>) -> (r: bool)
    ensures
        r == !unique_names(args@.map_values(|a: String| a@)),
{
    let ghost names = args@.map_values(|a: String| a@);
    let mut j: usize = 0;
    while j < args.len()
        invariant
            j <= args@.len(),
            names == args@.map_values(|a: String| a@),
            forall|p: int, q: int| 0 <= p < q < j ==> names[p] != names[q],
        decreases args@.len() - j,
    {
        let mut i: usize = 0;
        while i < j
            invariant
                i <= j < args@.len(),
                names == args@.map_values(|a: String| a@),
                forall|p: int| 0 <= p < i ==> names[p] != names[j as int],
            decreases j - i,
        {
            if args[i] == args[j] {
                assert(names[i as int] == names[j as int]);
                return true;
            }
            i = i + 1;
        }
        j = j + 1;
    }
    false
}

/// The names of the globals, in order.
fn global_list(globals: &Vec<(String, crate::flow::literal::Literal)>) -> (r: Vec<String>)
    ensures
        forall|x: Seq<char>|
            name_set(r@).contains(x) <==> exists|i: int|
                0 <= i < globals@.len() && globals@[i].0@ == x,
{
    let mut out: Vec<String> = Vec::new();
    let mut i: usize = 0;
    while i < globals.len()
        invariant
            i <= globals@.len(),
            out@.len() == i,
            forall|k: int| 0 <= k < i ==> out@[k]@ == globals@[k].0@,
        decreases globals@.len() - i,
    {
        out.push(globals[i].0.clone());
        i = i + 1;
    }
    assert forall|x: Seq<char>| name_set(out@).contains(x) <== exists|i: int|
        0 <= i < globals@.len() && globals@[i].0@ == x by {
        if exists|i: int| 0 <= i < globals@.len() && globals@[i].0@ == x {
            let i = choose|i: int| 0 <= i < globals@.len() && globals@[i].0@ == x;
            assert(out@[i]@ == x);
        }
    }
    out
}

impl Function {
    /// Checks a function: its parameters must be distinct (else
    /// `NonUniqueArguments`), and its body valid with the parameters and the
    /// globals in scope.
    pub fn validate(&self, fns: &Vec<(String, Function)>, globals: &Vec<String>) -> (r: Result<
        (),
        SyntaxError,
    >)
        ensures
            r == function_check(*self, fns@, name_set(globals@)),
            r is Ok <==> function_valid(*self, fns@, name_set(globals@)),
    {
        if first_repeat(&self.args) {
            return Err(SyntaxError::NonUniqueArguments);
        }
        let mut vars: Vec<String> = Vec::new();
        let mut i: usize = 0;
        while i < self.args.len()
            invariant
                i <= self.args@.len(),
                vars@.len() == i,
                forall|k: int| 0 <= k < i ==> vars@[k]@ == self.args@[k]@,
            decreases self.args@.len() - i,
        {
            vars.push(self.args[i].clone());
            i = i + 1;
        }
        let mut k: usize = 0;
        while k < globals.len()
            invariant
                k <= globals@.len(),
                vars@.len() == self.args@.len() + k,
                forall|p: int| 0 <= p < self.args@.len() ==> vars@[p]@ == self.args@[p]@,
                forall|p: int| 0 <= p < k ==> vars@[self.args@.len() + p]@ == globals@[p]@,
            decreases globals@.len() - k,
        {
            vars.push(globals[k].clone());
            k = k + 1;
        }
        assert(name_set(vars@) =~= function_scope(*self, name_set(globals@))) by {
            assert forall|x: Seq<char>| name_set(vars@).contains(x) implies function_scope(
                *self,
                name_set(globals@),
            ).contains(x) by {
                let p = choose|p: int| 0 <= p < vars@.len() && vars@[p]@ == x;
                if p < self.args@.len() {
                    assert(self.args@[p]@ == x);
                } else {
                    assert(globals@[p - self.args@.len()]@ == x);
                }
            }
            assert forall|x: Seq<char>| function_scope(*self, name_set(globals@)).contains(
                x,
            ) implies name_set(vars@).contains(x) by {
                if name_set(self.args@).contains(x) {
                    let p = choose|p: int| 0 <= p < self.args@.len() && self.args@[p]@ == x;
                    assert(vars@[p]@ == x);
                } else {
                    let p = choose|p: int| 0 <= p < globals@.len() && globals@[p]@ == x;
                    assert(vars@[self.args@.len() + p]@ == x);
                }
            }
        }
        match validate_operations(&self.operations, fns, &mut vars, false, false) {
            Ok(()) => Ok(()),
            Err(e) => Err(e),
        }
    }

    /// Checks the entrypoint: no parameters (else `InvalidEntrypoint`), a
    /// final `End` (else `ExpectedEnd`), no `Return` anywhere, and a valid
    /// body with the globals in scope.
    pub fn validate_entrypoint(&self, fns: &Vec<(String, Function)>, globals: &Vec<String>) -> (r:
        Result<(), SyntaxError>)
        ensures
            r == entrypoint_check(*self, fns@, name_set(globals@)),
            r is Ok <==> entrypoint_valid(*self, fns@, name_set(globals@)),
    {
        if self.args.len() != 0 {
            return Err(SyntaxError::InvalidEntrypoint);
        }
        let n = self.operations.len();
        if n == 0 {
            return Err(SyntaxError::ExpectedEnd);
        }
        match &self.operations[n - 1] {
            Operation::End => {},
            _ => {
                return Err(SyntaxError::ExpectedEnd);
            },
        }
        let mut vars: Vec<String> = Vec::new();
        let mut k: usize = 0;
        while k < globals.len()
            invariant
                k <= globals@.len(),
                vars@.len() == k,
                forall|p: int| 0 <= p < k ==> vars@[p]@ == globals@[p]@,
            decreases globals@.len() - k,
        {
            vars.push(globals[k].clone());
            k = k + 1;
        }
        assert(name_set(vars@) =~= name_set(globals@)) by {
            assert forall|x: Seq<char>| name_set(globals@).contains(x) implies name_set(
                vars@,
            ).contains(x) by {
                let p = choose|p: int| 0 <= p < globals@.len() && globals@[p]@ == x;
                assert(vars@[p]@ == x);
            }
        }
        match validate_operations(&self.operations, fns, &mut vars, false, true) {
            Ok(()) => Ok(()),
            Err(e) => Err(e),
        }
    }
}

impl Program {
    /// Checks every function of the program, in order, then the entrypoint;
    /// stops at the first error.
    pub fn validate(&self) -> (r: Result<(), SyntaxError>)
        ensures
            r == program_check(*self),
            r is Ok <==> program_valid(*self),
    {
        let globals = global_list(&self.globals);
        assert(name_set(globals@) =~= global_names(*self));
        let mut i: usize = 0;
        while i < self.functions.len()
            invariant
                i <= self.functions@.len(),
                name_set(globals@) == global_names(*self),
                forall|k: int|
                    0 <= k < i ==> (function_check(
                        #[trigger] self.functions@[k].1,
                        self.functions@,
                        global_names(*self),
                    ) is Ok),
            decreases self.functions@.len() - i,
        {
            match self.functions[i].1.validate(&self.functions, &globals) {
                Ok(()) => {},
                Err(e) => {
                    proof {
                        assert(first_bad_function(*self, i as int));
                        let j = choose|j: int| #[trigger] first_bad_function(*self, j);
                        if j > i {
                            assert(function_check(self.functions@[i as int].1, self.functions@, global_names(*self)) is Ok);
                        }
                        assert(j == i);
                    }
                    return Err(e);
                },
            }
            i = i + 1;
        }
        proof {
            assert forall|j: int| !first_bad_function(*self, j) by {
                if 0 <= j < self.functions@.len() {
                    assert(function_check(self.functions@[j].1, self.functions@, global_names(*self)) is Ok);
                }
            }
        }
        let n = self.operations.len();
        if n == 0 {
            return Err(SyntaxError::ExpectedEnd);
        }
        match &self.operations[n - 1] {
            Operation::End => {},
            _ => {
                return Err(SyntaxError::ExpectedEnd);
            },
        }
        let mut vars = globals;
        match validate_operations(&self.operations, &self.functions, &mut vars, false, true) {
            Ok(()) => Ok(()),
            Err(e) => Err(e),
        }
    }
}

} // verus!
