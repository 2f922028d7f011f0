//! Fallible truncating division on machine integers.
//!
//! The one operation, [`divide`], maps a dividend and a divisor to either the
//! quotient rounded toward zero — the meaning of `/` on Rust's signed
//! integers — or, when the divisor is zero, an error message. The contract
//! pins the outcome down completely: callers can rely on exactly which
//! quotient comes back and on the exact message that reports a zero divisor.

use vstd::arithmetic::div_mod::lemma_div_is_ordered;
use vstd::arithmetic::div_mod::lemma_div_is_ordered_by_denominator;
use vstd::arithmetic::div_mod::lemma_div_nonincreasing;
use vstd::arithmetic::div_mod::lemma_div_pos_is_pos;
use vstd::arithmetic::div_mod::lemma_fundamental_div_mod;
use vstd::arithmetic::div_mod::lemma_mod_bound;
use vstd::math::abs;
use vstd::prelude::*;
use vstd::string::StringExecFns;

verus! {

/// The message that reports a zero divisor.
pub open spec fn division_by_zero_message() -> Seq<char> {
    "Division by zero"@
}

/// The quotient of `a` by `b`, rounded toward zero: the magnitudes are
/// divided, and the quotient is negated exactly when the signs differ.
pub open spec fn trunc_div(a: int, b: int) -> int
    recommends
        b != 0,
{
    if (a < 0) == (b < 0) {
        abs(a) as int / abs(b) as int
    } else {
        -(abs(a) as int / abs(b) as int)
    }
}

/// The outcome that `divide` owes for the given inputs: the truncating
/// quotient when the divisor is nonzero, the error message otherwise.
pub open spec fn divide_spec(a: int, b: int) -> Result<int, Seq<char>> {
    if b == 0 {
        Err(division_by_zero_message())
    } else {
        Ok(trunc_div(a, b))
    }
}

/// The mathematical outcome that a returned value stands for.
pub open spec fn outcome_of(r: Result<i32, String>) -> Result<int, Seq<char>> {
    match r {
        Ok(q) => Ok(q as int),
        Err(m) => Err(m@),
    }
}

/// For a nonnegative dividend the Euclidean quotient already rounds toward
/// zero, whatever the sign of the divisor.
proof fn lemma_euclid_div_neg_denominator(x: int, d: int)
    requires
        0 <= x,
        d < 0,
    ensures
        x / d == -(x / (-d)),
{
    let q = x / (-d);
    let r = x % (-d);
    lemma_fundamental_div_mod(x, -d);
    lemma_mod_bound(x, -d);
    assert(x == d * (-q) + r) by (nonlinear_arith)
        requires
            x == (-d) * q + r,
    ;
    lemma_fundamental_div_mod(x, d);
    let q2 = x / d;
    let r2 = x % d;
    assert(0 <= r2 < -d);
    assert(q2 == -q) by (nonlinear_arith)
        requires
            d * q2 + r2 == d * (-q) + r,
            0 <= r < -d,
            0 <= r2 < -d,
            d < 0,
    ;
}

/// `trunc_div` agrees with the Euclidean quotient after the dividend's sign
/// is folded out: this is the form in which the machine division's result
/// is specified.
proof fn lemma_trunc_div_as_euclid(a: int, b: int)
    requires
        b != 0,
    ensures
        trunc_div(a, b) == if a >= 0 {
            a / b
        } else {
            -((-a) / b)
        },
{
    if a >= 0 && b < 0 {
        lemma_euclid_div_neg_denominator(a, b);
    }
    if a < 0 && b < 0 {
        lemma_euclid_div_neg_denominator(-a, b);
    }
}

/// The truncating quotient of two `i32` values stays in range, except for
/// the lone overflowing pair (`i32::MIN`, `-1`).
proof fn lemma_trunc_div_in_range(a: int, b: int)
    requires
        i32::MIN <= a <= i32::MAX,
        i32::MIN <= b <= i32::MAX,
        b != 0,
        !(a == i32::MIN && b == -1),
    ensures
        i32::MIN <= trunc_div(a, b) <= i32::MAX,
{
    let n = abs(a) as int;
    let m = abs(b) as int;
    lemma_div_pos_is_pos(n, m);
    if m == 1 {
        assert(n / 1 == n);
    } else {
        lemma_div_is_ordered_by_denominator(n, 2, m);
        lemma_div_is_ordered(n, 0x8000_0000, 2);
        assert(0x8000_0000int / 2 == 0x4000_0000);
    }
}

/// Dividing is pure: the outcome owed for a pair of inputs is a function of
/// those inputs alone, so repeated calls of `divide` with the same arguments
/// owe one and the same outcome.
pub proof fn lemma_divide_deterministic(
    a: int,
    b: int,
    r1: Result<int, Seq<char>>,
    r2: Result<int, Seq<char>>,
)
    requires
        r1 == divide_spec(a, b),
        r2 == divide_spec(a, b),
    ensures
        r1 == r2,
{
}

/// A zero dividend gives a zero quotient, whatever the nonzero divisor.
pub proof fn lemma_divide_zero_dividend(v: int)
    requires
        v != 0,
    ensures
        divide_spec(0, v) == Result::<int, Seq<char>>::Ok(0),
{
    let m = abs(v) as int;
    lemma_div_pos_is_pos(0, m);
    lemma_div_nonincreasing(0, m);
}

/// Divides `a` by `b`, rounding toward zero. A zero divisor is reported to
/// the caller as an error carrying the message "Division by zero"; the
/// operation itself never fails for any other input.
pub fn divide(a: i32, b: i32) -> (r: Result<i32, String>)
    requires
        !(a == i32::MIN && b == -1),
    ensures
        b != 0 ==> (r matches Ok(q) && q == trunc_div(a as int, b as int)),
        b == 0 ==> (r matches Err(m) && m@ == division_by_zero_message()),
        outcome_of(r) == divide_spec(a as int, b as int),
{
    if b == 0 {
        return Err(String::from_str("Division by zero"));
    }
    proof {
        lemma_trunc_div_as_euclid(a as int, b as int);
        lemma_trunc_div_in_range(a as int, b as int);
    }
    Ok(a / b)
}

} // verus!
