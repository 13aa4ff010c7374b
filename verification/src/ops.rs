//! The arithmetic, comparison and logical operators on run-time values.
use vstd::prelude::*;
use vstd::string::StringExecFns;
use crate::ast::Op;
use crate::runtime::{RuntimeValue, Val};
use crate::text::{str_chars};

verus! {

/// The sign bit of an IEEE-754 double.
pub const SIGN_BIT: u64 = 0x8000_0000_0000_0000;

/// The bits of a double without its sign: its magnitude.
pub open spec fn f_mag(b: u64) -> u64 {
    b & 0x7fff_ffff_ffff_ffff
}

/// A double is NaN when its exponent is all ones and its fraction is not zero.
pub open spec fn f_is_nan(b: u64) -> bool {
    f_mag(b) > 0x7ff0_0000_0000_0000
}

/// The place of a non-NaN double on the number line: its magnitude, negated
/// when the sign bit is set (so that +0 and -0 both stand at 0).
pub open spec fn f_key(b: u64) -> int {
    if b >= SIGN_BIT {
        -(f_mag(b) as int)
    } else {
        f_mag(b) as int
    }
}

/// `a == b` on doubles.
pub open spec fn f_eq(a: u64, b: u64) -> bool {
    !f_is_nan(a) && !f_is_nan(b) && f_key(a) == f_key(b)
}

/// `a < b` on doubles.
pub open spec fn f_lt(a: u64, b: u64) -> bool {
    !f_is_nan(a) && !f_is_nan(b) && f_key(a) < f_key(b)
}

/// `a <= b` on doubles.
pub open spec fn f_le(a: u64, b: u64) -> bool {
    !f_is_nan(a) && !f_is_nan(b) && f_key(a) <= f_key(b)
}

/// `x != 0.0` on doubles (NaN counts as non-zero).
pub open spec fn f_nonzero(b: u64) -> bool {
    f_mag(b) != 0
}

/// The absolute value of an integer.
pub open spec fn iabs(x: int) -> int {
    if x < 0 {
        -x
    } else {
        x
    }
}

/// Division rounding toward zero, as Rust's `/` on integers.
pub open spec fn trunc_div(a: int, b: int) -> int {
    let q = iabs(a) / iabs(b);
    if (a < 0) != (b < 0) {
        -q
    } else {
        q
    }
}

/// The remainder that goes with `trunc_div`, as Rust's `%` on integers.
pub open spec fn trunc_rem(a: int, b: int) -> int {
    a - b * trunc_div(a, b)
}

/// Lexicographic order of character sequences by code point, which is the
/// order of `String`s (their UTF-8 bytes compare in the same order).
pub open spec fn seq_lt(a: Seq<char>, b: Seq<char>) -> bool
    decreases a.len(),
{
    if a.len() == 0 {
        b.len() > 0
    } else if b.len() == 0 {
        false
    } else if a[0] != b[0] {
        (a[0] as u32) < (b[0] as u32)
    } else {
        seq_lt(a.drop_first(), b.drop_first())
    }
}

/// What an operator gives. `Invalid` is the type error the interpreter reports;
/// `Panic` stands where Rust's integer arithmetic panics (overflow, division by
/// zero); `Real` stands where the result is a real number: an IEEE-754 sum,
/// difference, product or quotient, or the quotient `/` of two integers, which
/// is ordinary division; the verified core does not compute these.
pub enum OpResult {
    Value(Val),
    Invalid,
    Panic,
    Real,
}

/// An integer result, or `Panic` when it leaves the range of `i64`.
pub open spec fn int_result(x: int) -> OpResult {
    if i64::MIN <= x <= i64::MAX {
        OpResult::Value(Val::Int(x as i64))
    } else {
        OpResult::Panic
    }
}

/// The meaning of `l op r`. On integers `/` is ordinary division, whose
/// result is real, and `DIV` is integer division rounding toward zero.
pub open spec fn spec_binary(l: Val, op: Op, r: Val) -> OpResult {
    match (l, r) {
        (Val::Int(a), Val::Int(b)) => match op {
            Op::Add => int_result(a + b),
            Op::Sub => int_result(a - b),
            Op::Mul => int_result(a * b),
            Op::Div => OpResult::Real,
            Op::FullDiv => if b == 0 || (a == i64::MIN && b == -1) {
                OpResult::Panic
            } else {
                OpResult::Value(Val::Int(trunc_div(a as int, b as int) as i64))
            },
            Op::Mod => if b == 0 || (a == i64::MIN && b == -1) {
                OpResult::Panic
            } else {
                OpResult::Value(Val::Int(trunc_rem(a as int, b as int) as i64))
            },
            Op::And => OpResult::Value(Val::Bool(a != 0 && b != 0)),
            Op::Or => OpResult::Value(Val::Bool(a != 0 || b != 0)),
            Op::Eq => OpResult::Value(Val::Bool(a == b)),
            Op::Neq => OpResult::Value(Val::Bool(a != b)),
            Op::Gt => OpResult::Value(Val::Bool(a > b)),
            Op::Lt => OpResult::Value(Val::Bool(a < b)),
            Op::Gte => OpResult::Value(Val::Bool(a >= b)),
            Op::Lte => OpResult::Value(Val::Bool(a <= b)),
            _ => OpResult::Invalid,
        },
        (Val::Float(a), Val::Float(b)) => match op {
            Op::Add | Op::Sub | Op::Mul | Op::Div => OpResult::Real,
            Op::And => OpResult::Value(Val::Bool(f_nonzero(a) && f_nonzero(b))),
            Op::Or => OpResult::Value(Val::Bool(f_nonzero(a) || f_nonzero(b))),
            Op::Eq => OpResult::Value(Val::Bool(f_eq(a, b))),
            Op::Neq => OpResult::Value(Val::Bool(!f_eq(a, b))),
            Op::Gt => OpResult::Value(Val::Bool(f_lt(b, a))),
            Op::Lt => OpResult::Value(Val::Bool(f_lt(a, b))),
            Op::Gte => OpResult::Value(Val::Bool(f_le(b, a))),
            Op::Lte => OpResult::Value(Val::Bool(f_le(a, b))),
            _ => OpResult::Invalid,
        },
        (Val::Str(a), Val::Str(b)) => match op {
            Op::Add | Op::Concat => OpResult::Value(Val::Str(a + b)),
            Op::Eq => OpResult::Value(Val::Bool(a == b)),
            Op::Neq => OpResult::Value(Val::Bool(a != b)),
            Op::Gt => OpResult::Value(Val::Bool(seq_lt(b, a))),
            Op::Lt => OpResult::Value(Val::Bool(seq_lt(a, b))),
            Op::Gte => OpResult::Value(Val::Bool(!seq_lt(a, b))),
            Op::Lte => OpResult::Value(Val::Bool(!seq_lt(b, a))),
            _ => OpResult::Invalid,
        },
        (Val::Bool(a), Val::Bool(b)) => match op {
            Op::And => OpResult::Value(Val::Bool(a && b)),
            Op::Or => OpResult::Value(Val::Bool(a || b)),
            Op::Eq => OpResult::Value(Val::Bool(a == b)),
            Op::Neq => OpResult::Value(Val::Bool(a != b)),
            _ => OpResult::Invalid,
        },
        (Val::Null, Val::Null) => match op {
            Op::Eq => OpResult::Value(Val::Bool(true)),
            Op::Neq => OpResult::Value(Val::Bool(false)),
            _ => OpResult::Invalid,
        },
        _ => OpResult::Invalid,
    }
}

/// The meaning of a prefix operator applied to `v`.
pub open spec fn spec_unary(op: Op, v: Val) -> OpResult {
    match (op, v) {
        (Op::Neg, Val::Int(i)) => if i == i64::MIN {
            OpResult::Panic
        } else {
            OpResult::Value(Val::Int((-i) as i64))
        },
        (Op::Neg, Val::Float(b)) => OpResult::Value(Val::Float(b ^ SIGN_BIT)),
        (Op::Not, Val::Bool(b)) => OpResult::Value(Val::Bool(!b)),
        _ => OpResult::Invalid,
    }
}

/// The truth of a value where a condition is expected: `FALSE`, `0`, `0.0`,
/// `NULL` and every string, array, record or function count as false.
pub open spec fn truthy(v: Val) -> bool {
    match v {
        Val::Bool(b) => b,
        Val::Int(i) => i != 0,
        Val::Float(b) => f_nonzero(b),
        _ => false,
    }
}

/// The outcome of an operator in executable form.
pub enum OpOutcome {
    Value(RuntimeValue),
    Invalid,
    Panic,
    Real,
}

impl View for OpOutcome {
    type V = OpResult;

    open spec fn view(&self) -> OpResult {
        match self {
            OpOutcome::Value(v) => OpResult::Value(v@),
            OpOutcome::Invalid => OpResult::Invalid,
            OpOutcome::Panic => OpResult::Panic,
            OpOutcome::Real => OpResult::Real,
        }
    }
}

fn float_nonzero(b: u64) -> (r: bool)
    ensures
        r == f_nonzero(b),
{
    b & 0x7fff_ffff_ffff_ffff != 0
}

fn float_nan(b: u64) -> (r: bool)
    ensures
        r == f_is_nan(b),
{
    b & 0x7fff_ffff_ffff_ffff > 0x7ff0_0000_0000_0000
}

fn float_key(b: u64) -> (r: i128)
    ensures
        r == f_key(b),
{
    let m = (b & 0x7fff_ffff_ffff_ffff) as i128;
    if b >= SIGN_BIT {
        -m
    } else {
        m
    }
}

fn float_eq(a: u64, b: u64) -> (r: bool)
    ensures
        r == f_eq(a, b),
{
    !float_nan(a) && !float_nan(b) && float_key(a) == float_key(b)
}

fn float_lt(a: u64, b: u64) -> (r: bool)
    ensures
        r == f_lt(a, b),
{
    !float_nan(a) && !float_nan(b) && float_key(a) < float_key(b)
}

fn float_le(a: u64, b: u64) -> (r: bool)
    ensures
        r == f_le(a, b),
{
    !float_nan(a) && !float_nan(b) && float_key(a) <= float_key(b)
}

proof fn lemma_trunc_div_bounds(a: int, b: int)
    requires
        b != 0,
    ensures
        iabs(trunc_div(a, b)) <= iabs(a),
        iabs(b * trunc_div(a, b)) <= iabs(a),
        iabs(trunc_rem(a, b)) < iabs(b),
{
    let q = iabs(a) / iabs(b);
    assert(0 <= q <= iabs(a)) by (nonlinear_arith)
        requires
            iabs(b) >= 1,
            iabs(a) >= 0,
            q == iabs(a) / iabs(b),
    ;
    assert(iabs(b) * q <= iabs(a) < iabs(b) * q + iabs(b)) by (nonlinear_arith)
        requires
            iabs(b) >= 1,
            iabs(a) >= 0,
            q == iabs(a) / iabs(b),
    ;
    assert(iabs(b * trunc_div(a, b)) == iabs(b) * q) by (nonlinear_arith)
        requires
            q >= 0,
            trunc_div(a, b) == q || trunc_div(a, b) == -q,
    ;
    assert(iabs(trunc_rem(a, b)) == iabs(a) - iabs(b) * q) by (nonlinear_arith)
        requires
            q >= 0,
            b != 0,
            trunc_div(a, b) == (if (a < 0) != (b < 0) { -q } else { q }),
            trunc_rem(a, b) == a - b * trunc_div(a, b),
            iabs(b) * q <= iabs(a),
    ;
}

/// `a / b` and `a % b` on integers, rounding toward zero.
fn int_div_rem(a: i64, b: i64) -> (r: (i64, i64))
    requires
        b != 0,
        !(a == i64::MIN && b == -1),
    ensures
        r.0 == trunc_div(a as int, b as int),
        r.1 == trunc_rem(a as int, b as int),
{
    let wa: i128 = a as i128;
    let wb: i128 = b as i128;
    let ma: i128 = if wa < 0 { -wa } else { wa };
    let mb: i128 = if wb < 0 { -wb } else { wb };
    let q: i128 = ma / mb;
    let sq: i128 = if (wa < 0) != (wb < 0) { -q } else { q };
    proof {
        lemma_trunc_div_bounds(a as int, b as int);
        assert(sq == trunc_div(a as int, b as int));
        if iabs(a as int) == 0x8000_0000_0000_0000 {
            // Only i64::MIN has this magnitude; with b != -1 the quotient fits.
            assert(sq <= i64::MAX) by (nonlinear_arith)
                requires
                    sq == trunc_div(a as int, b as int),
                    a == i64::MIN,
                    b != -1,
                    b != 0,
                    q == 0x8000_0000_0000_0000int / iabs(b as int),
                    sq == q || sq == -q,
            ;
        }
    }
    let rem: i128 = wa - wb * sq;
    (sq as i64, rem as i64)
}

/// `l op r` on run-time values.
pub fn apply_binary(l: &RuntimeValue, op: Op, r: &RuntimeValue) -> (res: OpOutcome)
    ensures
        res@ == spec_binary(l@, op, r@),
{
    match (l, r) {
        (RuntimeValue::Int(a), RuntimeValue::Int(b)) => {
            let a = *a;
            let b = *b;
            match op {
                Op::Add => match a.checked_add(b) {
                    Some(x) => OpOutcome::Value(RuntimeValue::Int(x)),
                    None => OpOutcome::Panic,
                },
                Op::Sub => match a.checked_sub(b) {
                    Some(x) => OpOutcome::Value(RuntimeValue::Int(x)),
                    None => OpOutcome::Panic,
                },
                Op::Mul => match a.checked_mul(b) {
                    Some(x) => OpOutcome::Value(RuntimeValue::Int(x)),
                    None => OpOutcome::Panic,
                },
                Op::Div => OpOutcome::Real,
                Op::FullDiv => if b == 0 || (a == i64::MIN && b == -1) {
                    OpOutcome::Panic
                } else {
                    OpOutcome::Value(RuntimeValue::Int(int_div_rem(a, b).0))
                },
                Op::Mod => if b == 0 || (a == i64::MIN && b == -1) {
                    OpOutcome::Panic
                } else {
                    OpOutcome::Value(RuntimeValue::Int(int_div_rem(a, b).1))
                },
                Op::And => OpOutcome::Value(RuntimeValue::Bool(a != 0 && b != 0)),
                Op::Or => OpOutcome::Value(RuntimeValue::Bool(a != 0 || b != 0)),
                Op::Eq => OpOutcome::Value(RuntimeValue::Bool(a == b)),
                Op::Neq => OpOutcome::Value(RuntimeValue::Bool(a != b)),
                Op::Gt => OpOutcome::Value(RuntimeValue::Bool(a > b)),
                Op::Lt => OpOutcome::Value(RuntimeValue::Bool(a < b)),
                Op::Gte => OpOutcome::Value(RuntimeValue::Bool(a >= b)),
                Op::Lte => OpOutcome::Value(RuntimeValue::Bool(a <= b)),
                _ => OpOutcome::Invalid,
            }
        },
        (RuntimeValue::Float(a), RuntimeValue::Float(b)) => {
            let a = *a;
            let b = *b;
            match op {
                Op::Add | Op::Sub | Op::Mul | Op::Div => OpOutcome::Real,
                Op::And => OpOutcome::Value(RuntimeValue::Bool(float_nonzero(a) && float_nonzero(b))),
                Op::Or => OpOutcome::Value(RuntimeValue::Bool(float_nonzero(a) || float_nonzero(b))),
                Op::Eq => OpOutcome::Value(RuntimeValue::Bool(float_eq(a, b))),
                Op::Neq => OpOutcome::Value(RuntimeValue::Bool(!float_eq(a, b))),
                Op::Gt => OpOutcome::Value(RuntimeValue::Bool(float_lt(b, a))),
                Op::Lt => OpOutcome::Value(RuntimeValue::Bool(float_lt(a, b))),
                Op::Gte => OpOutcome::Value(RuntimeValue::Bool(float_le(b, a))),
                Op::Lte => OpOutcome::Value(RuntimeValue::Bool(float_le(a, b))),
                _ => OpOutcome::Invalid,
            }
        },
        (RuntimeValue::Str(a), RuntimeValue::Str(b)) => match op {
            Op::Add | Op::Concat => OpOutcome::Value(RuntimeValue::Str(a.clone().concat(b.as_str()))),
            Op::Eq => OpOutcome::Value(RuntimeValue::Bool(*a == *b)),
            Op::Neq => OpOutcome::Value(RuntimeValue::Bool(!(*a == *b))),
            Op::Gt => OpOutcome::Value(RuntimeValue::Bool(string_lt(b, a))),
            Op::Lt => OpOutcome::Value(RuntimeValue::Bool(string_lt(a, b))),
            Op::Gte => OpOutcome::Value(RuntimeValue::Bool(!string_lt(a, b))),
            Op::Lte => OpOutcome::Value(RuntimeValue::Bool(!string_lt(b, a))),
            _ => OpOutcome::Invalid,
        },
        (RuntimeValue::Bool(a), RuntimeValue::Bool(b)) => {
            let a = *a;
            let b = *b;
            match op {
                Op::And => OpOutcome::Value(RuntimeValue::Bool(a && b)),
                Op::Or => OpOutcome::Value(RuntimeValue::Bool(a || b)),
                Op::Eq => OpOutcome::Value(RuntimeValue::Bool(a == b)),
                Op::Neq => OpOutcome::Value(RuntimeValue::Bool(a != b)),
                _ => OpOutcome::Invalid,
            }
        },
        (RuntimeValue::Null, RuntimeValue::Null) => match op {
            Op::Eq => OpOutcome::Value(RuntimeValue::Bool(true)),
            Op::Neq => OpOutcome::Value(RuntimeValue::Bool(false)),
            _ => OpOutcome::Invalid,
        },
        _ => OpOutcome::Invalid,
    }
}

/// A prefix operator applied to a run-time value.
pub fn apply_unary(op: Op, v: &RuntimeValue) -> (res: OpOutcome)
    ensures
        res@ == spec_unary(op, v@),
{
    match (op, v) {
        (Op::Neg, RuntimeValue::Int(i)) => if *i == i64::MIN {
            OpOutcome::Panic
        } else {
            OpOutcome::Value(RuntimeValue::Int(-*i))
        },
        (Op::Neg, RuntimeValue::Float(b)) => OpOutcome::Value(RuntimeValue::Float(*b ^ SIGN_BIT)),
        (Op::Not, RuntimeValue::Bool(b)) => OpOutcome::Value(RuntimeValue::Bool(!*b)),
        _ => OpOutcome::Invalid,
    }
}

/// The truth of a value in a condition.
pub fn value_truthy(v: &RuntimeValue) -> (r: bool)
    ensures
        r == truthy(v@),
{
    match v {
        RuntimeValue::Bool(b) => *b,
        RuntimeValue::Int(i) => *i != 0,
        RuntimeValue::Float(b) => float_nonzero(*b),
        _ => false,
    }
}

/// Whether `a` comes before `b` in the order of strings.
pub fn string_lt(a: &String, b: &String) -> (r: bool)
    ensures
        r == seq_lt(a@, b@),
{
    let ca = str_chars(a.as_str());
    let cb = str_chars(b.as_str());
    let mut i: usize = 0;
    assert(a@.skip(0) =~= a@);
    assert(b@.skip(0) =~= b@);
    while i < ca.len() && i < cb.len() && ca[i] == cb[i]
        invariant
            i <= ca.len(),
            i <= cb.len(),
            ca@ == a@,
            cb@ == b@,
            seq_lt(a@, b@) == seq_lt(a@.skip(i as int), b@.skip(i as int)),
        decreases ca.len() - i,
    {
        proof {
            let sa = a@.skip(i as int);
            let sb = b@.skip(i as int);
            assert(sa.drop_first() =~= a@.skip(i + 1));
            assert(sb.drop_first() =~= b@.skip(i + 1));
        }
        i += 1;
    }
    proof {
        let sa = a@.skip(i as int);
        let sb = b@.skip(i as int);
        if i < ca.len() && i < cb.len() {
            assert(sa[0] == a@[i as int]);
            assert(sb[0] == b@[i as int]);
        }
    }
    if i == ca.len() {
        i < cb.len()
    } else if i == cb.len() {
        false
    } else {
        (ca[i] as u32) < (cb[i] as u32)
    }
}

} // verus!
