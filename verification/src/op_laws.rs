//! What each operator computes, stated over the operands themselves: the
//! logic of booleans, the arithmetic and order of integers, the joining and
//! order of strings, and the truth of values where a condition is expected.
use vstd::prelude::*;
use crate::ast::Op;
use crate::runtime::Val;
use crate::ops::{OpResult, spec_binary, spec_unary, truthy, seq_lt, f_is_nan, f_mag, SIGN_BIT};

verus! {

/// On two booleans, `AND` is conjunction, `OR` disjunction, `=` and `<>`
/// compare them, and no other binary operator applies; `NOT` negates a
/// boolean.
pub proof fn law_boolean_logic(a: bool, b: bool, op: Op)
    ensures
        spec_binary(Val::Bool(a), Op::And, Val::Bool(b)) == OpResult::Value(Val::Bool(a && b)),
        spec_binary(Val::Bool(a), Op::Or, Val::Bool(b)) == OpResult::Value(Val::Bool(a || b)),
        spec_binary(Val::Bool(a), Op::Eq, Val::Bool(b)) == OpResult::Value(Val::Bool(a == b)),
        spec_binary(Val::Bool(a), Op::Neq, Val::Bool(b)) == OpResult::Value(Val::Bool(a != b)),
        !(op is And || op is Or || op is Eq || op is Neq) ==> spec_binary(Val::Bool(a), op, Val::Bool(b))
            == OpResult::Invalid,
        spec_unary(Op::Not, Val::Bool(a)) == OpResult::Value(Val::Bool(!a)),
        spec_unary(Op::Neg, Val::Bool(a)) == OpResult::Invalid,
{
}

/// On two integers, `+`, `-` and `*` give the exact sum, difference and
/// product where it fits in 64 bits, and panic where it does not; `/` gives a
/// real quotient; the comparisons compare the numbers; `AND` and `OR` take a
/// non-zero integer as true; `&` does not apply.
pub proof fn law_integer_arithmetic(a: i64, b: i64)
    ensures
        i64::MIN <= a + b <= i64::MAX ==> spec_binary(Val::Int(a), Op::Add, Val::Int(b)) == OpResult::Value(
            Val::Int((a + b) as i64),
        ),
        !(i64::MIN <= a + b <= i64::MAX) ==> spec_binary(Val::Int(a), Op::Add, Val::Int(b)) == OpResult::Panic,
        i64::MIN <= a - b <= i64::MAX ==> spec_binary(Val::Int(a), Op::Sub, Val::Int(b)) == OpResult::Value(
            Val::Int((a - b) as i64),
        ),
        !(i64::MIN <= a - b <= i64::MAX) ==> spec_binary(Val::Int(a), Op::Sub, Val::Int(b)) == OpResult::Panic,
        i64::MIN <= a * b <= i64::MAX ==> spec_binary(Val::Int(a), Op::Mul, Val::Int(b)) == OpResult::Value(
            Val::Int((a * b) as i64),
        ),
        !(i64::MIN <= a * b <= i64::MAX) ==> spec_binary(Val::Int(a), Op::Mul, Val::Int(b)) == OpResult::Panic,
        spec_binary(Val::Int(a), Op::Div, Val::Int(b)) == OpResult::Real,
        spec_binary(Val::Int(a), Op::Eq, Val::Int(b)) == OpResult::Value(Val::Bool(a == b)),
        spec_binary(Val::Int(a), Op::Neq, Val::Int(b)) == OpResult::Value(Val::Bool(a != b)),
        spec_binary(Val::Int(a), Op::Lt, Val::Int(b)) == OpResult::Value(Val::Bool(a < b)),
        spec_binary(Val::Int(a), Op::Lte, Val::Int(b)) == OpResult::Value(Val::Bool(a <= b)),
        spec_binary(Val::Int(a), Op::Gt, Val::Int(b)) == OpResult::Value(Val::Bool(a > b)),
        spec_binary(Val::Int(a), Op::Gte, Val::Int(b)) == OpResult::Value(Val::Bool(a >= b)),
        spec_binary(Val::Int(a), Op::And, Val::Int(b)) == OpResult::Value(Val::Bool(a != 0 && b != 0)),
        spec_binary(Val::Int(a), Op::Or, Val::Int(b)) == OpResult::Value(Val::Bool(a != 0 || b != 0)),
        spec_binary(Val::Int(a), Op::Concat, Val::Int(b)) == OpResult::Invalid,
        (b == 0 || (a == i64::MIN && b == -1)) ==> spec_binary(Val::Int(a), Op::FullDiv, Val::Int(b))
            == OpResult::Panic && spec_binary(Val::Int(a), Op::Mod, Val::Int(b)) == OpResult::Panic,
{
}

/// Negating an integer gives its opposite, and panics on the one integer
/// whose opposite does not fit; `NOT` does not apply to integers.
pub proof fn law_integer_negation(a: i64)
    ensures
        a != i64::MIN ==> spec_unary(Op::Neg, Val::Int(a)) == OpResult::Value(Val::Int((-a) as i64)),
        a == i64::MIN ==> spec_unary(Op::Neg, Val::Int(a)) == OpResult::Panic,
        spec_unary(Op::Not, Val::Int(a)) == OpResult::Invalid,
{
}

/// Negating a real flips its sign bit and keeps every other bit.
pub proof fn law_real_negation(b: u64)
    ensures
        spec_unary(Op::Neg, Val::Float(b)) matches OpResult::Value(Val::Float(r)) && (r >= SIGN_BIT) != (b
            >= SIGN_BIT) && r % SIGN_BIT == b % SIGN_BIT,
{
    let r = b ^ SIGN_BIT;
    assert((r >= 0x8000_0000_0000_0000u64) != (b >= 0x8000_0000_0000_0000u64)) by (bit_vector)
        requires
            r == b ^ 0x8000_0000_0000_0000u64,
    ;
    assert(r & 0x7fff_ffff_ffff_ffffu64 == b & 0x7fff_ffff_ffff_ffffu64) by (bit_vector)
        requires
            r == b ^ 0x8000_0000_0000_0000u64,
    ;
    assert(r % 0x8000_0000_0000_0000u64 == r & 0x7fff_ffff_ffff_ffffu64) by (bit_vector);
    assert(b % 0x8000_0000_0000_0000u64 == b & 0x7fff_ffff_ffff_ffffu64) by (bit_vector);
}

/// On two reals, arithmetic gives a real; `AND` and `OR` take the truth of
/// each operand; of `<`, `=` and `>` exactly one holds unless an operand is
/// NaN, where all three fail and `<>` holds; `<=` is `<` or `=`, and `>=` is
/// `>` or `=`; zero equals negative zero.
pub proof fn law_real_operators(a: u64, b: u64, op: Op)
    ensures
        (op is Add || op is Sub || op is Mul || op is Div) ==> spec_binary(Val::Float(a), op, Val::Float(b))
            == OpResult::Real,
        spec_binary(Val::Float(a), Op::And, Val::Float(b)) == OpResult::Value(
            Val::Bool(truthy(Val::Float(a)) && truthy(Val::Float(b))),
        ),
        spec_binary(Val::Float(a), Op::Or, Val::Float(b)) == OpResult::Value(
            Val::Bool(truthy(Val::Float(a)) || truthy(Val::Float(b))),
        ),
        ({
            let lt = spec_binary(Val::Float(a), Op::Lt, Val::Float(b)) == OpResult::Value(Val::Bool(true));
            let eq = spec_binary(Val::Float(a), Op::Eq, Val::Float(b)) == OpResult::Value(Val::Bool(true));
            let gt = spec_binary(Val::Float(a), Op::Gt, Val::Float(b)) == OpResult::Value(Val::Bool(true));
            let le = spec_binary(Val::Float(a), Op::Lte, Val::Float(b)) == OpResult::Value(Val::Bool(true));
            let ge = spec_binary(Val::Float(a), Op::Gte, Val::Float(b)) == OpResult::Value(Val::Bool(true));
            let ne = spec_binary(Val::Float(a), Op::Neq, Val::Float(b)) == OpResult::Value(Val::Bool(true));
            &&& !f_is_nan(a) && !f_is_nan(b) ==> (lt || eq || gt) && !(lt && eq) && !(lt && gt) && !(eq && gt)
            &&& (f_is_nan(a) || f_is_nan(b)) ==> !lt && !eq && !gt && !le && !ge && ne
            &&& le == (lt || eq)
            &&& ge == (gt || eq)
            &&& ne == !eq
        }),
        spec_binary(Val::Float(0), Op::Eq, Val::Float(SIGN_BIT)) == OpResult::Value(Val::Bool(true)),
{
    assert(f_mag(SIGN_BIT) == 0) by (bit_vector);
    assert(f_mag(0) == 0) by (bit_vector);
}

/// Reals are ordered as numbers: among reals with the sign bit clear a larger
/// bit pattern is a larger number, among those with it set a larger pattern
/// is a smaller number, and every negative real that is not zero is below
/// every positive one. Zero and negative zero are false as conditions; every
/// other real, NaN included, is true.
pub proof fn law_real_order(a: u64, b: u64)
    requires
        !f_is_nan(a),
        !f_is_nan(b),
    ensures
        a < SIGN_BIT && b < SIGN_BIT ==> spec_binary(Val::Float(a), Op::Lt, Val::Float(b)) == OpResult::Value(
            Val::Bool(a < b),
        ),
        a >= SIGN_BIT && b >= SIGN_BIT ==> spec_binary(Val::Float(a), Op::Lt, Val::Float(b)) == OpResult::Value(
            Val::Bool(a > b),
        ),
        a > SIGN_BIT && 0 < b < SIGN_BIT ==> spec_binary(Val::Float(a), Op::Lt, Val::Float(b)) == OpResult::Value(
            Val::Bool(true),
        ),
        !truthy(Val::Float(0)),
        !truthy(Val::Float(SIGN_BIT)),
        a != 0 && a != SIGN_BIT ==> truthy(Val::Float(a)),
{
    assert(f_mag(SIGN_BIT) == 0) by (bit_vector);
    assert(f_mag(0) == 0) by (bit_vector);
    assert(a < 0x8000_0000_0000_0000u64 ==> a & 0x7fff_ffff_ffff_ffffu64 == a) by (bit_vector);
    assert(b < 0x8000_0000_0000_0000u64 ==> b & 0x7fff_ffff_ffff_ffffu64 == b) by (bit_vector);
    assert(a >= 0x8000_0000_0000_0000u64 ==> a & 0x7fff_ffff_ffff_ffffu64 == a - 0x8000_0000_0000_0000u64)
        by (bit_vector);
    assert(b >= 0x8000_0000_0000_0000u64 ==> b & 0x7fff_ffff_ffff_ffffu64 == b - 0x8000_0000_0000_0000u64)
        by (bit_vector);
}

/// On two strings, `+` and `&` join them, `=` and `<>` compare them, and no
/// arithmetic applies.
pub proof fn law_string_operators(a: Seq<char>, b: Seq<char>)
    ensures
        spec_binary(Val::Str(a), Op::Add, Val::Str(b)) == OpResult::Value(Val::Str(a + b)),
        spec_binary(Val::Str(a), Op::Concat, Val::Str(b)) == OpResult::Value(Val::Str(a + b)),
        spec_binary(Val::Str(a), Op::Eq, Val::Str(b)) == OpResult::Value(Val::Bool(a == b)),
        spec_binary(Val::Str(a), Op::Neq, Val::Str(b)) == OpResult::Value(Val::Bool(a != b)),
        spec_binary(Val::Str(a), Op::Sub, Val::Str(b)) == OpResult::Invalid,
        spec_binary(Val::Str(a), Op::Mul, Val::Str(b)) == OpResult::Invalid,
        spec_binary(Val::Str(a), Op::Div, Val::Str(b)) == OpResult::Invalid,
        spec_binary(Val::Str(a), Op::And, Val::Str(b)) == OpResult::Invalid,
        spec_binary(Val::Str(a), Op::Or, Val::Str(b)) == OpResult::Invalid,
{
}

/// Strings are ordered as a dictionary orders words, by character code: a
/// string is below every longer string that starts with it, two strings that
/// first differ at some place are ordered by the characters there, and no
/// string is below itself. `<`, `<=`, `>` and `>=` follow that order.
pub proof fn law_string_order(a: Seq<char>, b: Seq<char>, x: Seq<char>)
    ensures
        spec_binary(Val::Str(a), Op::Lt, Val::Str(a)) == OpResult::Value(Val::Bool(false)),
        x.len() > 0 ==> spec_binary(Val::Str(a), Op::Lt, Val::Str(a + x)) == OpResult::Value(Val::Bool(true)),
        x.len() > 0 ==> spec_binary(Val::Str(a + x), Op::Lt, Val::Str(a)) == OpResult::Value(Val::Bool(false)),
        forall|k: int|
            0 <= k < a.len() && k < b.len() && a.take(k) == b.take(k) && a[k] != b[k] ==> spec_binary(
                Val::Str(a),
                Op::Lt,
                Val::Str(b),
            ) == OpResult::Value(Val::Bool((#[trigger] a[k] as u32) < (b[k] as u32))),
        spec_binary(Val::Str(a), Op::Gt, Val::Str(b)) == spec_binary(Val::Str(b), Op::Lt, Val::Str(a)),
        spec_binary(Val::Str(a), Op::Lt, Val::Str(b)) matches OpResult::Value(Val::Bool(lt)) && spec_binary(
            Val::Str(a),
            Op::Gte,
            Val::Str(b),
        ) == OpResult::Value(Val::Bool(!lt)),
        spec_binary(Val::Str(b), Op::Lt, Val::Str(a)) matches OpResult::Value(Val::Bool(gt)) && spec_binary(
            Val::Str(a),
            Op::Lte,
            Val::Str(b),
        ) == OpResult::Value(Val::Bool(!gt)),
{
    lemma_seq_lt_irreflexive(a);
    if x.len() > 0 {
        lemma_seq_lt_prefix(a, x);
    }
    assert forall|k: int|
        0 <= k < a.len() && k < b.len() && a.take(k) == b.take(k) && a[k] != b[k] implies seq_lt(a, b) == ((
        #[trigger] a[k] as u32) < (b[k] as u32)) by {
        lemma_seq_lt_first_difference(a, b, k);
    }
}

proof fn lemma_seq_lt_irreflexive(a: Seq<char>)
    ensures
        !seq_lt(a, a),
    decreases a.len(),
{
    if a.len() > 0 {
        lemma_seq_lt_irreflexive(a.drop_first());
    }
}

proof fn lemma_seq_lt_prefix(a: Seq<char>, x: Seq<char>)
    requires
        x.len() > 0,
    ensures
        seq_lt(a, a + x),
        !seq_lt(a + x, a),
    decreases a.len(),
{
    if a.len() > 0 {
        assert((a + x).drop_first() =~= a.drop_first() + x);
        assert((a + x)[0] == a[0]);
        lemma_seq_lt_prefix(a.drop_first(), x);
    }
}

proof fn lemma_seq_lt_first_difference(a: Seq<char>, b: Seq<char>, k: int)
    requires
        0 <= k < a.len(),
        k < b.len(),
        a.take(k) == b.take(k),
        a[k] != b[k],
    ensures
        seq_lt(a, b) == ((a[k] as u32) < (b[k] as u32)),
    decreases k,
{
    if k > 0 {
        assert(a.take(k)[0] == b.take(k)[0]);
        assert(a[0] == a.take(k)[0]);
        assert(b[0] == b.take(k)[0]);
        assert(a.drop_first().take(k - 1) =~= a.take(k).drop_first());
        assert(b.drop_first().take(k - 1) =~= b.take(k).drop_first());
        assert(a.drop_first()[k - 1] == a[k]);
        assert(b.drop_first()[k - 1] == b[k]);
        lemma_seq_lt_first_difference(a.drop_first(), b.drop_first(), k - 1);
    }
}

/// `NULL` equals `NULL`; values of two different kinds are never compared
/// or combined.
pub proof fn law_null_and_mixed_operands(op: Op, i: i64, s: Seq<char>, b: bool)
    ensures
        spec_binary(Val::Null, Op::Eq, Val::Null) == OpResult::Value(Val::Bool(true)),
        spec_binary(Val::Null, Op::Neq, Val::Null) == OpResult::Value(Val::Bool(false)),
        spec_binary(Val::Int(i), op, Val::Str(s)) == OpResult::Invalid,
        spec_binary(Val::Str(s), op, Val::Int(i)) == OpResult::Invalid,
        spec_binary(Val::Int(i), op, Val::Bool(b)) == OpResult::Invalid,
        spec_binary(Val::Bool(b), op, Val::Int(i)) == OpResult::Invalid,
        spec_binary(Val::Str(s), op, Val::Bool(b)) == OpResult::Invalid,
        spec_binary(Val::Int(i), op, Val::Null) == OpResult::Invalid,
{
}

/// Where a condition is expected, a boolean is itself, an integer is true
/// when it is not zero, and `NULL` and strings are false.
pub proof fn law_truth_of_values(b: bool, i: i64, s: Seq<char>)
    ensures
        truthy(Val::Bool(b)) == b,
        truthy(Val::Int(i)) == (i != 0),
        !truthy(Val::Null),
        !truthy(Val::Str(s)),
{
}

} // verus!
