use crate::flow::error::TypeError;
use crate::flow::literal::{FloatArithmetic, Literal, Number, kind_of};
use vstd::prelude::*;
use vstd::string::StrSliceExecFns;
use vstd::string::StringExecFns;

verus! {

/// The largest duration, in nanoseconds.
pub const MAX_NANOS: u64 = 0x7fffffffffffffff;

/// The most fraction digits that count; later ones are ignored.
pub const FRACTION_DIGITS: usize = 18;

/// Why a value is not a duration.
#[derive(Clone, Debug, PartialEq, Eq)]
pub enum DurationParseError {
    /// The text is not a sequence of numbers with units, or the total is too large.
    InvalidDuration,
    /// A number has no unit after it.
    MissingUnit,
    /// A unit is not one of `ns`, `us`, `µs`, `μs`, `ms`, `s`, `m`, `h`.
    UnknownUnit(String),
    /// The value is of a kind that is not a duration.
    TypeError(TypeError),
}

/// A parse failure, with the unknown unit as text.
pub enum DurationFault {
    Invalid,
    MissingUnit,
    UnknownUnit(Seq<char>),
}

/// Whether the error is the failure.
pub open spec fn fault_matches(e: DurationParseError, f: DurationFault) -> bool {
    match (e, f) {
        (DurationParseError::InvalidDuration, DurationFault::Invalid) => true,
        (DurationParseError::MissingUnit, DurationFault::MissingUnit) => true,
        (DurationParseError::UnknownUnit(u), DurationFault::UnknownUnit(v)) => u@ == v,
        _ => false,
    }
}

pub open spec fn is_digit(c: char) -> bool {
    48 <= (c as u32) && (c as u32) <= 57
}

/// The characters a unit is made of: lower-case letters and the micro signs.
pub open spec fn is_unit_char(c: char) -> bool {
    ('a' <= c && c <= 'z') || c == '\u{b5}' || c == '\u{3bc}'
}

/// The length of the run of digits that starts at `i`.
pub open spec fn digit_run(s: Seq<char>, i: int) -> nat
    decreases s.len() - i,
{
    if 0 <= i < s.len() && is_digit(s[i]) {
        1 + digit_run(s, i + 1)
    } else {
        0
    }
}

/// The length of the run of unit characters that starts at `i`.
pub open spec fn unit_run(s: Seq<char>, i: int) -> nat
    decreases s.len() - i,
{
    if 0 <= i < s.len() && is_unit_char(s[i]) {
        1 + unit_run(s, i + 1)
    } else {
        0
    }
}

/// The number written by the `n` digits that start at `i`.
pub open spec fn digits_value(s: Seq<char>, i: int, n: nat) -> nat
    decreases n,
{
    if n == 0 {
        0
    } else {
        digits_value(s, i, (n - 1) as nat) * 10 + (s[i + n - 1] as u32 - 48) as nat
    }
}

pub open spec fn pow10(n: nat) -> nat
    decreases n,
{
    if n == 0 {
        1
    } else {
        10 * pow10((n - 1) as nat)
    }
}

/// The nanoseconds in one of the unit: `ns`, `us` (also with a micro sign),
/// `ms`, `s`, `m` or `h`.
pub open spec fn unit_nanos(u: Seq<char>) -> Option<nat> {
    if u.len() == 1 {
        if u[0] == 's' {
            Some(1000000000)
        } else if u[0] == 'm' {
            Some(60000000000)
        } else if u[0] == 'h' {
            Some(3600000000000)
        } else {
            None
        }
    } else if u.len() == 2 && u[1] == 's' {
        if u[0] == 'n' {
            Some(1)
        } else if u[0] == 'u' || u[0] == '\u{b5}' || u[0] == '\u{3bc}' {
            Some(1000)
        } else if u[0] == 'm' {
            Some(1000000)
        } else {
            None
        }
    } else {
        None
    }
}

pub open spec fn min_nat(a: nat, b: nat) -> nat {
    if a < b { a } else { b }
}

/// Parses the segments from position `i` on, `total` nanoseconds having been
/// read before. A segment is digits, an optional `.` with fraction digits,
/// and a unit; the fraction counts to the nanosecond, rounded down.
pub open spec fn parse_from(s: Seq<char>, i: int, total: nat) -> Result<nat, DurationFault>
    decreases s.len() - i,
    via parse_from_decreases
{
    if i < 0 || i >= s.len() {
        Ok(total)
    } else if !(s[i] == '.' || is_digit(s[i])) {
        Err(DurationFault::Invalid)
    } else {
        let d = digit_run(s, i);
        let j = i + d;
        let has_dot = j < s.len() && s[j] == '.';
        let fd: nat = if has_dot { digit_run(s, j + 1) } else { 0 };
        let k = if has_dot { j + 1 + fd } else { j };
        let v = digits_value(s, i, d);
        if d == 0 || v > u64::MAX {
            Err(DurationFault::Invalid)
        } else {
            let ul = unit_run(s, k);
            let u = s.subrange(k, k + ul);
            if ul == 0 {
                Err(DurationFault::MissingUnit)
            } else if unit_nanos(u) is None {
                Err(DurationFault::UnknownUnit(u))
            } else {
                let n = unit_nanos(u)->0;
                let fl = min_nat(fd, FRACTION_DIGITS as nat);
                let seg = v * n + digits_value(s, j + 1, fl) * n / pow10(fl);
                if total + seg > MAX_NANOS {
                    Err(DurationFault::Invalid)
                } else {
                    parse_from(s, k + ul, total + seg)
                }
            }
        }
    }
}

proof fn lemma_digit_run_bound(s: Seq<char>, i: int)
    requires
        0 <= i <= s.len(),
    ensures
        i + digit_run(s, i) <= s.len(),
    decreases s.len() - i,
{
    if i < s.len() {
        lemma_digit_run_bound(s, i + 1);
    }
}

proof fn lemma_unit_run_bound(s: Seq<char>, i: int)
    requires
        0 <= i <= s.len(),
    ensures
        i + unit_run(s, i) <= s.len(),
    decreases s.len() - i,
{
    if i < s.len() {
        lemma_unit_run_bound(s, i + 1);
    }
}

#[via_fn]
proof fn parse_from_decreases(s: Seq<char>, i: int, total: nat) {
    if 0 <= i < s.len() {
        lemma_digit_run_bound(s, i);
        let j = i + digit_run(s, i);
        if j < s.len() {
            lemma_digit_run_bound(s, j + 1);
        }
        let has_dot = j < s.len() && s[j] == '.';
        let fd: nat = if has_dot { digit_run(s, j + 1) } else { 0 };
        let k = if has_dot { j + 1 + fd } else { j };
        lemma_unit_run_bound(s, k);
    }
}

/// The nanoseconds of a duration written as text such as `1h30m` or `4.5s`:
/// empty text is invalid, and `0` alone needs no unit.
pub open spec fn duration_spec(s: Seq<char>) -> Result<nat, DurationFault> {
    if s.len() == 0 {
        Err(DurationFault::Invalid)
    } else if s == seq!['0'] {
        Ok(0)
    } else {
        parse_from(s, 0, 0)
    }
}

/// The result of parsing, as the spec describes it.
pub open spec fn parse_agrees(r: Result<u64, DurationParseError>, s: Seq<char>) -> bool {
    match duration_spec(s) {
        Ok(n) => r == Ok::<u64, DurationParseError>(n as u64),
        Err(f) => r is Err && fault_matches(r->Err_0, f),
    }
}

/// The characters of the text.
fn chars_of(s: &str) -> (r: Vec<char>)
    ensures
        r@ == s@,
{
    let n = s.unicode_len();
    let mut out: Vec<char> = Vec::new();
    let mut i: usize = 0;
    while i < n
        invariant
            n == s@.len(),
            i <= n,
            out@ == s@.subrange(0, i as int),
        decreases n - i,
    {
        out.push(s.get_char(i));
        i = i + 1;
        assert(out@ =~= s@.subrange(0, i as int));
    }
    assert(out@ =~= s@);
    out
}

/// The position after the run of digits that starts at `i`.
fn scan_digits(s: &Vec<char>, i: usize) -> (r: usize)
    requires
        i <= s@.len(),
    ensures
        r == i + digit_run(s@, i as int),
        r <= s@.len(),
{
    let mut j = i;
    while j < s.len() && 48 <= s[j] as u32 && s[j] as u32 <= 57
        invariant
            i <= j <= s@.len(),
            digit_run(s@, i as int) == (j - i) + digit_run(s@, j as int),
        decreases s@.len() - j,
    {
        j = j + 1;
    }
    j
}

/// The position after the run of unit characters that starts at `i`.
fn scan_unit(s: &Vec<char>, i: usize) -> (r: usize)
    requires
        i <= s@.len(),
    ensures
        r == i + unit_run(s@, i as int),
        r <= s@.len(),
{
    let mut j = i;
    while j < s.len() && (('a' <= s[j] && s[j] <= 'z') || s[j] == '\u{b5}' || s[j] == '\u{3bc}')
        invariant
            i <= j <= s@.len(),
            unit_run(s@, i as int) == (j - i) + unit_run(s@, j as int),
        decreases s@.len() - j,
    {
        j = j + 1;
    }
    j
}

/// The number written by the `n` digits at `i`, or none when it exceeds
/// `u64::MAX`.
fn read_integer(s: &Vec<char>, i: usize, n: usize) -> (r: Option<u64>)
    requires
        i + n <= s@.len(),
        forall|k: int| i <= k < i + n ==> is_digit(s@[k]),
    ensures
        digits_value(s@, i as int, n as nat) <= u64::MAX ==> r == Some(
            digits_value(s@, i as int, n as nat) as u64,
        ),
        digits_value(s@, i as int, n as nat) > u64::MAX ==> r is None,
{
    let mut v: u64 = 0;
    let mut p: usize = 0;
    while p < n
        invariant
            p <= n,
            i + n <= s@.len(),
            forall|k: int| i <= k < i + n ==> is_digit(s@[k]),
            v == digits_value(s@, i as int, p as nat),
        decreases n - p,
    {
        assert(i + p < s.len());
        assert(is_digit(s@[i + p]));
        let d = (s[i + p] as u32 - 48) as u64;
        let next = match v.checked_mul(10) {
            Some(t) => t.checked_add(d),
            None => None,
        };
        match next {
            Some(t) => {
                v = t;
                p = p + 1;
            },
            None => {
                proof {
                    lemma_digits_grow(s@, i as int, (p + 1) as nat, n as nat);
                }
                return None;
            },
        }
    }
    Some(v)
}

/// Values of longer prefixes of a run of digits are not smaller.
proof fn lemma_digits_grow(s: Seq<char>, i: int, p: nat, n: nat)
    requires
        p <= n,
        i + n <= s.len(),
        forall|k: int| i <= k < i + n ==> is_digit(s[k]),
    ensures
        digits_value(s, i, p) <= digits_value(s, i, n),
    decreases n - p,
{
    if p < n {
        lemma_digits_grow(s, i, p + 1, n);
    }
}

/// The value of the first `min(n, FRACTION_DIGITS)` digits at `i`, and ten to
/// the power of their count.
fn read_fraction(s: &Vec<char>, i: usize, n: usize) -> (r: (u64, u64))
    requires
        i + n <= s@.len(),
        forall|k: int| i <= k < i + n ==> is_digit(s@[k]),
    ensures
        r.0 == digits_value(s@, i as int, min_nat(n as nat, FRACTION_DIGITS as nat)),
        r.1 == pow10(min_nat(n as nat, FRACTION_DIGITS as nat)),
        r.0 < r.1,
        r.1 <= 1000000000000000000,
{
    let m = if n < FRACTION_DIGITS { n } else { FRACTION_DIGITS };
    let mut v: u64 = 0;
    let mut scale: u64 = 1;
    let mut p: usize = 0;
    proof {
        lemma_pow10_grows(0, m as nat);
        lemma_pow10_grows(m as nat, 18);
        lemma_pow10_18();
    }
    while p < m
        invariant
            p <= m,
            m <= FRACTION_DIGITS,
            m == min_nat(n as nat, FRACTION_DIGITS as nat),
            i + n <= s@.len(),
            forall|k: int| i <= k < i + n ==> is_digit(s@[k]),
            v == digits_value(s@, i as int, p as nat),
            scale == pow10(p as nat),
            v < scale,
            scale <= pow10(p as nat),
            pow10(p as nat) <= pow10(m as nat),
            pow10(m as nat) <= 1000000000000000000,
        decreases m - p,
    {
        assert(i + p < s.len());
        assert(is_digit(s@[i + p]));
        let d = (s[i + p] as u32 - 48) as u64;
        proof {
            lemma_pow10_grows((p + 1) as nat, m as nat);
        }
        v = v * 10 + d;
        scale = scale * 10;
        p = p + 1;
    }
    (v, scale)
}

proof fn lemma_pow10_grows(p: nat, m: nat)
    requires
        p <= m,
    ensures
        pow10(p) <= pow10(m),
    decreases m - p,
{
    if p < m {
        lemma_pow10_grows(p + 1, m);
    }
}

proof fn lemma_pow10_18()
    ensures
        pow10(18) == 1000000000000000000,
{
    reveal_with_fuel(pow10, 19);
}

/// The nanoseconds in one of the unit written by the `n` characters at `k`.
fn unit_value(s: &Vec<char>, k: usize, n: usize) -> (r: Option<u64>)
    requires
        k + n <= s@.len(),
    ensures
        match unit_nanos(s@.subrange(k as int, k + n)) {
            Some(v) => r == Some(v as u64),
            None => r is None,
        },
{
    let ghost u = s@.subrange(k as int, k + n);
    assert(u.len() == n);
    if n == 1 {
        let c = s[k];
        assert(u[0] == c);
        if c == 's' {
            Some(1000000000)
        } else if c == 'm' {
            Some(60000000000)
        } else if c == 'h' {
            Some(3600000000000)
        } else {
            None
        }
    } else if n == 2 {
        let c = s[k];
        assert(k + 1 < s.len());
        let e = s[k + 1];
        assert(u[0] == c && u[1] == e);
        if e == 's' {
            if c == 'n' {
                Some(1)
            } else if c == 'u' || c == '\u{b5}' || c == '\u{3bc}' {
                Some(1000)
            } else if c == 'm' {
                Some(1000000)
            } else {
                assert(u[0] == c);
                None
            }
        } else {
            assert(u[1] == e);
            None
        }
    } else {
        None
    }
}

/// Parses a duration written as text (see `duration_spec`); the text is
/// taken as it is, with no change of case.
pub fn parse_duration(text: &str) -> (r: Result<u64, DurationParseError>)
    ensures
        parse_agrees(r, text@),
{
    let s = chars_of(text);
    let len = s.len();
    if len == 0 {
        return Err(DurationParseError::InvalidDuration);
    }
    if len == 1 && s[0] == '0' {
        assert(s@ =~= seq!['0']);
        return Ok(0);
    }
    assert(s@ != seq!['0']);
    let mut i: usize = 0;
    let mut total: u64 = 0;
    while i < len
        invariant
            len == s@.len(),
            s@ == text@,
            i <= len,
            total <= MAX_NANOS,
            duration_spec(s@) == parse_from(s@, i as int, total as nat),
        decreases len - i,
    {
        let c = s[i];
        if !(c == '.' || (48 <= c as u32 && c as u32 <= 57)) {
            return Err(DurationParseError::InvalidDuration);
        }
        let j = scan_digits(&s, i);
        let d = j - i;
        let has_dot = j < len && s[j] == '.';
        let k = if has_dot {
            scan_digits(&s, j + 1)
        } else {
            j
        };
        proof {
            assert forall|q: int| i <= q < i + d implies is_digit(s@[q]) by {
                lemma_run_digits(s@, i as int, q);
            }
            if has_dot {
                assert forall|q: int| j + 1 <= q < k implies is_digit(s@[q]) by {
                    lemma_run_digits(s@, j + 1, q);
                }
            }
        }
        if d == 0 {
            return Err(DurationParseError::InvalidDuration);
        }
        let v = match read_integer(&s, i, d) {
            Some(v) => v,
            None => {
                return Err(DurationParseError::InvalidDuration);
            },
        };
        let end = scan_unit(&s, k);
        if end == k {
            return Err(DurationParseError::MissingUnit);
        }
        let n = match unit_value(&s, k, end - k) {
            Some(n) => n,
            None => {
                let unit = text.substring_char(k, end);
                return Err(DurationParseError::UnknownUnit(String::from_str(unit)));
            },
        };
        let (f, scale) = if has_dot {
            read_fraction(&s, j + 1, k - (j + 1))
        } else {
            proof {
                reveal_with_fuel(digits_value, 1);
                reveal_with_fuel(pow10, 1);
            }
            (0u64, 1u64)
        };
        proof {
            lemma_pow10_18();
            if !has_dot {
                assert(min_nat(0, FRACTION_DIGITS as nat) == 0);
            }
            assert(n <= 3600000000000);
            assert((v as int) * (n as int) <= 0xffffffffffffffff * 3600000000000) by (nonlinear_arith)
                requires v <= 0xffffffffffffffffu64, n <= 3600000000000u64;
            assert((f as int) * (n as int) <= 1000000000000000000 * 3600000000000) by (nonlinear_arith)
                requires f <= 1000000000000000000u64, n <= 3600000000000u64;
        }
        let whole: u128 = (v as u128) * (n as u128);
        let part: u128 = (f as u128) * (n as u128) / (scale as u128);
        proof {
            assert(part <= (f as int) * (n as int)) by (nonlinear_arith)
                requires part == (f as int) * (n as int) / (scale as int), scale >= 1, f * n >= 0;
        }
        let sum: u128 = (total as u128) + whole + part;
        if sum > MAX_NANOS as u128 {
            return Err(DurationParseError::InvalidDuration);
        }
        total = sum as u64;
        i = end;
    }
    Ok(total)
}

/// Every position in a run of digits holds a digit.
proof fn lemma_run_digits(s: Seq<char>, i: int, q: int)
    requires
        i <= q < i + digit_run(s, i),
    ensures
        is_digit(s[q]),
    decreases q - i,
{
    if q > i {
        lemma_run_digits(s, i + 1, q);
    }
}

/// What `str::to_lowercase` gives for the characters.
pub uninterp spec fn lower_of(s: Seq<char>) -> Seq<char>;

/// Relies on `str::to_lowercase`: its result depends on the characters alone.
#[verifier::external_body]
fn lowercase(s: &str) -> (r: String)
    ensures
        r@ == lower_of(s@),
{
    s.to_lowercase()
}

/// Parses a duration written as text in any case: the text is lowered, then
/// parsed as `parse_duration` does.
pub fn duration_from_string(text: &str) -> (r: Result<u64, DurationParseError>)
    ensures
        parse_agrees(r, lower_of(text@)),
{
    let lowered = lowercase(text);
    parse_duration(lowered.as_str())
}

/// The nanoseconds in `ms` milliseconds, when that is a duration.
pub open spec fn millis_nanos(ms: i64) -> Option<u64> {
    if ms < 0 || ms as int * 1000000 > MAX_NANOS {
        None
    } else {
        Some((ms as int * 1000000) as u64)
    }
}

/// Whether `r` is what `duration_from_literal` may give for the value.
pub open spec fn duration_agrees(value: Literal, r: Result<u64, DurationParseError>) -> bool {
    match value {
        Literal::String(s) => parse_agrees(r, lower_of(s@)),
        Literal::Number(Number::Integer(ms)) => match millis_nanos(ms) {
            Some(n) => r == Ok::<u64, DurationParseError>(n),
            None => r == Err::<u64, DurationParseError>(DurationParseError::InvalidDuration),
        },
        Literal::Number(Number::Float(_)) => r is Ok ==> r->Ok_0 <= MAX_NANOS,
        _ => r == Err::<u64, DurationParseError>(
            DurationParseError::TypeError(
                TypeError::Conversion { expected: "string, float, number", found: kind_of(value) },
            ),
        ),
    }
}

/// The duration a value stands for, in nanoseconds: text is parsed, an
/// integer counts milliseconds, a float counts seconds. Other kinds are a
/// type error, and a negative or too large number is an invalid duration.
pub fn duration_from_literal<U: FloatArithmetic>(value: &Literal, unit: &U) -> (r: Result<
    u64,
    DurationParseError,
>)
    ensures
        duration_agrees(*value, r),
{
    match value {
        Literal::String(s) => duration_from_string(s.as_str()),
        Literal::Number(Number::Integer(ms)) => {
            if *ms < 0 || *ms > 9223372036854 {
                Err(DurationParseError::InvalidDuration)
            } else {
                Ok((*ms as u64) * 1000000)
            }
        },
        Literal::Number(Number::Float(secs)) => match unit.seconds_to_nanos(*secs) {
            Some(n) => if n <= MAX_NANOS {
                Ok(n)
            } else {
                Err(DurationParseError::InvalidDuration)
            },
            None => Err(DurationParseError::InvalidDuration),
        },
        _ => Err(
            DurationParseError::TypeError(
                TypeError::Conversion { expected: "string, float, number", found: value.kind() },
            ),
        ),
    }
}

/// The character of a decimal digit.
pub open spec fn digit_char(d: nat) -> char {
    (48 + d) as char
}

/// The decimal digits of a number, most significant first.
pub open spec fn decimal(n: nat) -> Seq<char>
    decreases n,
{
    if n < 10 {
        seq![digit_char(n)]
    } else {
        decimal(n / 10).push(digit_char(n % 10))
    }
}

/// A duration written in whole nanoseconds, such as `1500ns`.
pub open spec fn format_spec(nanos: nat) -> Seq<char> {
    decimal(nanos) + seq!['n', 's']
}

fn digit_str(d: u64) -> (r: &'static str)
    requires
        d < 10,
    ensures
        r@ == seq![digit_char(d as nat)],
{
    proof {
        reveal_strlit("0");
        reveal_strlit("1");
        reveal_strlit("2");
        reveal_strlit("3");
        reveal_strlit("4");
        reveal_strlit("5");
        reveal_strlit("6");
        reveal_strlit("7");
        reveal_strlit("8");
        reveal_strlit("9");
    }
    let r = match d {
        0 => "0",
        1 => "1",
        2 => "2",
        3 => "3",
        4 => "4",
        5 => "5",
        6 => "6",
        7 => "7",
        8 => "8",
        _ => "9",
    };
    assert(r@ =~= seq![digit_char(d as nat)]);
    r
}

fn decimal_string(n: u64) -> (r: String)
    ensures
        r@ == decimal(n as nat),
    decreases n,
{
    if n < 10 {
        String::from_str(digit_str(n))
    } else {
        let mut s = decimal_string(n / 10);
        s.append(digit_str(n % 10));
        s
    }
}

/// Writes a duration as its whole nanoseconds, which `parse_duration` reads
/// back as the same number.
pub fn format_duration(nanos: u64) -> (r: String)
    ensures
        r@ == format_spec(nanos as nat),
{
    let mut s = decimal_string(nanos);
    proof {
        reveal_strlit("ns");
    }
    s.append("ns");
    assert(s@ =~= format_spec(nanos as nat));
    s
}

proof fn lemma_decimal_digits(n: nat)
    ensures
        decimal(n).len() >= 1,
        forall|i: int| 0 <= i < decimal(n).len() ==> is_digit(#[trigger] decimal(n)[i]),
        digits_value(decimal(n), 0, decimal(n).len()) == n,
    decreases n,
{
    lemma_digit_char(n % 10);
    if n >= 10 {
        let p = decimal(n / 10);
        lemma_decimal_digits(n / 10);
        let q = decimal(n);
        assert(q == p.push(digit_char(n % 10)));
        lemma_digits_prefix(q, p, p.len());
        assert(q[p.len() as int] == digit_char(n % 10));
        assert(digits_value(q, 0, q.len()) == digits_value(q, 0, p.len()) * 10 + (n % 10));
        assert((n / 10) * 10 + n % 10 == n);
    } else {
        assert(n % 10 == n);
        assert(digits_value(decimal(n), 0, 1) == digits_value(decimal(n), 0, 0) * 10 + n);
    }
}

proof fn lemma_digit_char(d: nat)
    requires
        d < 10,
    ensures
        digit_char(d) as u32 == 48 + d,
        is_digit(digit_char(d)),
{
    assert(((48 + d) as char) as u32 == 48 + d);
}

/// Digit values read only the digits they cover.
proof fn lemma_digits_prefix(a: Seq<char>, b: Seq<char>, m: nat)
    requires
        m <= a.len(),
        m <= b.len(),
        forall|i: int| 0 <= i < m ==> a[i] == b[i],
    ensures
        digits_value(a, 0, m) == digits_value(b, 0, m),
    decreases m,
{
    if m > 0 {
        lemma_digits_prefix(a, b, (m - 1) as nat);
    }
}

proof fn lemma_digit_run_upto(s: Seq<char>, i: int, l: int)
    requires
        0 <= i <= l < s.len(),
        forall|k: int| i <= k < l ==> is_digit(#[trigger] s[k]),
        !is_digit(s[l]),
    ensures
        digit_run(s, i) == l - i,
    decreases l - i,
{
    if i < l {
        lemma_digit_run_upto(s, i + 1, l);
    }
}

/// Every duration reads back from its written form: formatting then
/// parsing gives the same number of nanoseconds.
pub proof fn lemma_format_round_trip(nanos: nat)
    requires
        nanos <= MAX_NANOS,
    ensures
        duration_spec(format_spec(nanos)) == Ok::<nat, DurationFault>(nanos),
{
    let d = decimal(nanos);
    let s = format_spec(nanos);
    let l = d.len() as int;
    lemma_decimal_digits(nanos);
    assert(s.len() == l + 2);
    assert(s[l] == 'n');
    assert(s[l + 1] == 's');
    assert(forall|k: int| 0 <= k < l ==> s[k] == d[k]);
    assert forall|k: int| 0 <= k < l implies is_digit(#[trigger] s[k]) by {
        assert(s[k] == d[k]);
        assert(is_digit(d[k]));
    }
    lemma_digit_run_upto(s, 0, l);
    lemma_digits_prefix(s, d, l as nat);
    assert(s != seq!['0']) by {
        assert(seq!['0'].len() == 1);
    }
    assert(unit_run(s, l + 2) == 0);
    assert(unit_run(s, l + 1) == 1);
    assert(unit_run(s, l) == 2);
    let u = s.subrange(l, l + 2);
    assert(u[0] == 'n' && u[1] == 's');
    assert(unit_nanos(u) == Some(1nat));
    assert(digits_value(s, l + 1, 0) == 0);
    assert(pow10(0) == 1);
    assert(min_nat(0, FRACTION_DIGITS as nat) == 0);
    assert(parse_from(s, l + 2, nanos) == Ok::<nat, DurationFault>(nanos));
    assert(is_digit(s[0]));
    assert(digit_run(s, 0) == l);
    assert(digits_value(s, 0, l as nat) == nanos);
    assert(nanos * 1 + 0 * 1 / 1 == nanos) by (nonlinear_arith);
    assert(parse_from(s, 0, 0) == parse_from(s, l + 2, nanos));
}

proof fn lemma_parse_from_in_range(s: Seq<char>, i: int, total: nat)
    requires
        total <= MAX_NANOS,
    ensures
        parse_from(s, i, total) is Ok ==> parse_from(s, i, total)->Ok_0 <= MAX_NANOS,
    decreases s.len() - i,
{
    if 0 <= i < s.len() {
        lemma_digit_run_bound(s, i);
        let j = i + digit_run(s, i);
        if j < s.len() {
            lemma_digit_run_bound(s, j + 1);
        }
        let has_dot = j < s.len() && s[j] == '.';
        let fd: nat = if has_dot { digit_run(s, j + 1) } else { 0 };
        let k = if has_dot { j + 1 + fd } else { j };
        lemma_unit_run_bound(s, k);
        let ul = unit_run(s, k);
        if digit_run(s, i) > 0 && ul > 0 {
            let u = s.subrange(k, k + ul);
            if unit_nanos(u) is Some {
                let n = unit_nanos(u)->0;
                let fl = min_nat(fd, FRACTION_DIGITS as nat);
                let seg = digits_value(s, i, digit_run(s, i)) * n + digits_value(s, j + 1, fl) * n
                    / pow10(fl);
                if total + seg <= MAX_NANOS {
                    lemma_parse_from_in_range(s, k + ul, total + seg);
                }
            }
        }
    }
}

/// Every duration the parser accepts lies between zero and `MAX_NANOS`
/// nanoseconds; every text it refuses gives an invalid duration, a missing
/// unit, or an unknown unit, and nothing else.
pub proof fn lemma_duration_in_range(s: Seq<char>, r: Result<u64, DurationParseError>)
    requires
        parse_agrees(r, s),
    ensures
        r is Ok ==> r->Ok_0 <= MAX_NANOS,
        r is Err ==> (r->Err_0 == DurationParseError::InvalidDuration || r->Err_0
            == DurationParseError::MissingUnit || r->Err_0 is UnknownUnit),
{
    lemma_parse_from_in_range(s, 0, 0);
}

} // verus!
