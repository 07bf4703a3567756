//! Fixed-point arithmetic in millionths.

use vstd::prelude::*;

verus! {

/// How many millionths make one.
pub const SCALE: i128 = 1_000_000;

/// Ten to the power `n`.
pub open spec fn pow10(n: nat) -> nat
    decreases n,
{
    if n == 0 {
        1
    } else {
        10 * pow10((n - 1) as nat)
    }
}

/// The magnitude of `a`.
pub open spec fn magnitude(a: int) -> int {
    if a < 0 {
        -a
    } else {
        a
    }
}

/// `a` divided by `b`, rounded toward zero; zero when `b` is zero.
pub open spec fn quotient(a: int, b: int) -> int {
    if b == 0 {
        0
    } else if a >= 0 && b > 0 {
        a / b
    } else if a < 0 && b < 0 {
        (-a) / (-b)
    } else if a < 0 {
        -((-a) / b)
    } else {
        -(a / (-b))
    }
}

/// `part` over `whole` in millionths, rounded toward zero; zero when `whole` is zero.
pub open spec fn ratio(part: int, whole: int) -> int {
    quotient(part * SCALE, whole)
}

/// The amount in millionths of the decimal number `mantissa / 10^places`,
/// rounded toward zero where it has more than six places.
pub open spec fn scaled(mantissa: int, places: int) -> int {
    if places <= 6 {
        mantissa * pow10((6 - places) as nat)
    } else {
        quotient(mantissa, pow10((places - 6) as nat) as int)
    }
}

/// Powers of ten are positive and grow with the exponent.
pub proof fn lemma_pow10_grows(a: nat, b: nat)
    requires
        a <= b,
    ensures
        1 <= pow10(a) <= pow10(b),
    decreases b,
{
    if b == 0 {
    } else if a == b {
        lemma_pow10_grows(0, (b - 1) as nat);
    } else {
        lemma_pow10_grows(a, (b - 1) as nat);
    }
}

/// Dividing by ten once more is dividing by the next power of ten.
pub proof fn lemma_quotient_step(a: int, k: nat)
    ensures
        quotient(quotient(a, pow10(k) as int), 10) == quotient(a, pow10(k + 1) as int),
{
    lemma_pow10_grows(0, k);
    let m = magnitude(a);
    let d = pow10(k) as int;
    vstd::arithmetic::div_mod::lemma_div_denominator(m, d, 10);
    vstd::arithmetic::div_mod::lemma_div_pos_is_pos(m, d);
    assert(pow10(k + 1) == 10 * pow10(k));
    assert(d * 10 == pow10(k + 1) as int);
}

/// A quotient is never larger in magnitude than its dividend.
pub proof fn lemma_quotient_bound(a: int, b: int)
    ensures
        magnitude(quotient(a, b)) <= magnitude(a),
        a >= 0 && b >= 0 ==> quotient(a, b) >= 0,
{
    if b != 0 {
        let m = magnitude(a);
        let d = magnitude(b);
        assert(0 <= m / d <= m) by (nonlinear_arith)
            requires
                m >= 0,
                d >= 1,
        ;
    }
}

/// Computes `quotient(a, b)`.
pub(crate) fn divide(a: i128, b: i128) -> (q: i128)
    requires
        a > i128::MIN,
    ensures
        q == quotient(a as int, b as int),
{
    proof {
        lemma_quotient_bound(a as int, b as int);
    }
    match a.checked_div(b) {
        Some(q) => q,
        None => 0,
    }
}

/// The largest magnitude of a part whose ratio can be computed.
pub const MAX_PART: i128 = 0x1_0000_0000_0000_0000_0000;

/// Computes `ratio(part, whole)`.
pub(crate) fn ratio_of(part: i128, whole: i128) -> (millionths: i128)
    requires
        -MAX_PART <= part <= MAX_PART,
    ensures
        millionths == ratio(part as int, whole as int),
{
    divide(part * SCALE, whole)
}

/// The sum of a sequence of numbers.
pub open spec fn total(values: Seq<int>) -> int
    decreases values.len(),
{
    if values.len() == 0 {
        0
    } else {
        total(values.drop_last()) + values.last()
    }
}

/// The arithmetic mean of a sequence of numbers, rounded toward zero; zero for
/// the empty sequence.
pub open spec fn mean(values: Seq<int>) -> int {
    quotient(total(values), values.len() as int)
}

/// The sum of the first `count + 1` numbers is the sum of the first `count` and the next.
pub proof fn lemma_total_step(values: Seq<int>, count: int)
    requires
        0 <= count < values.len(),
    ensures
        total(values.take(count + 1)) == total(values.take(count)) + values[count],
        total(values.take(0)) == 0,
{
    assert(values.take(count + 1).drop_last() =~= values.take(count));
}

/// The mean of numbers within a bound lies within the bound.
pub proof fn lemma_mean_bound(values: Seq<int>, bound: int)
    requires
        bound >= 0,
        forall|i: int| 0 <= i < values.len() ==> -bound <= #[trigger] values[i] <= bound,
    ensures
        magnitude(total(values)) <= bound * values.len(),
        -bound <= mean(values) <= bound,
    decreases values.len(),
{
    let n = values.len() as int;
    if n == 0 {
        assert(bound * 0 == 0);
    } else {
        let rest = values.drop_last();
        lemma_mean_bound(rest, bound);
        assert(rest.len() == n - 1);
        assert(bound * n == bound * (n - 1) + bound) by (nonlinear_arith);
        assert(-bound <= values.last() <= bound);
        let sum = magnitude(total(values));
        assert(sum <= bound * n);
        assert(0 <= sum / n <= bound) by (nonlinear_arith)
            requires
                0 <= sum <= bound * n,
                n > 0,
        ;
    }
}

/// Once a power of ten exceeds a number, so does every larger one.
pub proof fn lemma_quotient_vanishes(a: int, j: nat, k: nat)
    requires
        j <= k,
        quotient(a, pow10(j) as int) == 0,
    ensures
        quotient(a, pow10(k) as int) == 0,
    decreases k,
{
    if j < k {
        lemma_quotient_vanishes(a, j, (k - 1) as nat);
        lemma_quotient_step(a, (k - 1) as nat);
    }
}

/// Computes `scaled(mantissa, places)`.
pub fn scale(mantissa: i64, places: u64) -> (amount: i128)
    ensures
        amount == scaled(mantissa as int, places as int),
{
    if places <= 6 {
        let mut factor: i128 = 1;
        let mut k: u64 = places;
        while k < 6
            invariant
                places <= k <= 6,
                factor == pow10((k - places) as nat),
                1 <= factor <= 1_000_000,
            decreases 6 - k,
        {
            proof {
                lemma_pow10_grows((k + 1 - places) as nat, 6);
                reveal_with_fuel(pow10, 7);
            }
            factor = factor * 10;
            k = k + 1;
        }
        assert(mantissa * factor == scaled(mantissa as int, places as int));
        assert(-0x8000_0000_0000_0000 * 1_000_000 <= mantissa * factor <= 0x8000_0000_0000_0000
            * 1_000_000) by (nonlinear_arith)
            requires
                -0x8000_0000_0000_0000 <= mantissa <= 0x8000_0000_0000_0000,
                1 <= factor <= 1_000_000,
        ;
        (mantissa as i128) * factor
    } else {
        let mut value: i128 = mantissa as i128;
        let mut k: u64 = 6;
        assert(quotient(mantissa as int, pow10(0) as int) == mantissa) by {
            assert(pow10(0) == 1);
            assert(magnitude(mantissa as int) / 1 == magnitude(mantissa as int));
        }
        while k < places && value != 0
            invariant
                6 <= k <= places,
                value == quotient(mantissa as int, pow10((k - 6) as nat) as int),
                magnitude(value as int) <= magnitude(mantissa as int),
            decreases places - k,
        {
            proof {
                lemma_quotient_step(mantissa as int, (k - 6) as nat);
                lemma_quotient_bound(value as int, 10);
            }
            value = divide(value, 10);
            k = k + 1;
        }
        proof {
            if k < places {
                lemma_quotient_vanishes(mantissa as int, (k - 6) as nat, (places - 6) as nat);
            }
        }
        value
    }
}

} // verus!
