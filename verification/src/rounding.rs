use vstd::prelude::*;
use vstd::arithmetic::div_mod::lemma_fundamental_div_mod_converse;

verus! {

/// The integer nearest to the quotient `num / den`, a tie going away from
/// zero.
pub open spec fn round_half_away(num: int, den: int) -> int
    recommends
        den > 0,
{
    if num >= 0 {
        (2 * num + den) / (2 * den)
    } else {
        -((2 * (-num) + den) / (2 * den))
    }
}

/// Rounding a non-negative quotient: the whole part, plus one when twice the
/// remainder reaches the divisor.
pub proof fn lemma_round_by_remainder(m: int, d: int)
    requires
        m >= 0,
        d > 0,
    ensures
        round_half_away(m, d) == m / d + (if 2 * (m % d) >= d { 1int } else { 0int }),
{
    let q = m / d;
    let r = m % d;
    assert(m == d * q + r && 0 <= r < d) by {
        vstd::arithmetic::div_mod::lemma_fundamental_div_mod(m, d);
        vstd::arithmetic::div_mod::lemma_mod_bound(m, d);
    }
    if 2 * r >= d {
        assert(2 * m + d == (q + 1) * (2 * d) + (2 * r - d)) by (nonlinear_arith)
            requires
                m == d * q + r,
        ;
        lemma_fundamental_div_mod_converse(2 * m + d, 2 * d, q + 1, 2 * r - d);
    } else {
        assert(2 * m + d == q * (2 * d) + (2 * r + d)) by (nonlinear_arith)
            requires
                m == d * q + r,
        ;
        lemma_fundamental_div_mod_converse(2 * m + d, 2 * d, q, 2 * r + d);
    }
}

/// An exact quotient rounds to itself.
pub proof fn lemma_round_exact(k: int, d: int)
    requires
        d > 0,
    ensures
        round_half_away(k * d, d) == k,
{
    if k >= 0 {
        assert(k * d >= 0) by (nonlinear_arith)
            requires
                k >= 0,
                d > 0,
        ;
        assert(2 * (k * d) + d == k * (2 * d) + d) by (nonlinear_arith);
        lemma_fundamental_div_mod_converse(2 * (k * d) + d, 2 * d, k, d);
    } else {
        assert(k * d < 0) by (nonlinear_arith)
            requires
                k < 0,
                d > 0,
        ;
        assert(2 * (-(k * d)) + d == (-k) * (2 * d) + d) by (nonlinear_arith);
        lemma_fundamental_div_mod_converse(2 * (-(k * d)) + d, 2 * d, -k, d);
    }
}

/// Rounding keeps order: a larger dividend never rounds to less.
pub proof fn lemma_round_monotonic(a: int, b: int, d: int)
    requires
        a <= b,
        d > 0,
    ensures
        round_half_away(a, d) <= round_half_away(b, d),
{
    if a >= 0 {
        vstd::arithmetic::div_mod::lemma_div_is_ordered(2 * a + d, 2 * b + d, 2 * d);
    } else if b < 0 {
        vstd::arithmetic::div_mod::lemma_div_is_ordered(2 * (-b) + d, 2 * (-a) + d, 2 * d);
    } else {
        vstd::arithmetic::div_mod::lemma_div_pos_is_pos(2 * (-a) + d, 2 * d);
        vstd::arithmetic::div_mod::lemma_div_pos_is_pos(2 * b + d, 2 * d);
    }
}

/// Rounding never moves a quotient away from zero past its dividend.
pub proof fn lemma_round_bounded(m: int, d: int)
    requires
        m >= 0,
        d > 0,
    ensures
        0 <= round_half_away(m, d) <= m,
{
    lemma_round_by_remainder(m, d);
    let q = m / d;
    let r = m % d;
    assert(m == d * q + r && 0 <= r < d) by {
        vstd::arithmetic::div_mod::lemma_fundamental_div_mod(m, d);
        vstd::arithmetic::div_mod::lemma_mod_bound(m, d);
    }
    vstd::arithmetic::div_mod::lemma_div_pos_is_pos(m, d);
    if d == 1 {
        assert(r == 0);
        assert(d * q == q);
    } else {
        assert(d * q >= 2 * q) by (nonlinear_arith)
            requires
                d >= 2,
                q >= 0,
        ;
        if q == 0 && 2 * r >= d {
            assert(r >= 1);
        }
    }
}

/// A rounded quotient, multiplied back, misses its dividend by at most half
/// the divisor.
pub proof fn lemma_round_error(m: int, d: int)
    requires
        m >= 0,
        d > 0,
    ensures
        -d <= 2 * (round_half_away(m, d) * d - m) <= d,
{
    lemma_round_by_remainder(m, d);
    let q = m / d;
    let r = m % d;
    assert(m == d * q + r && 0 <= r < d) by {
        vstd::arithmetic::div_mod::lemma_fundamental_div_mod(m, d);
        vstd::arithmetic::div_mod::lemma_mod_bound(m, d);
    }
    assert((q + 1) * d == d * q + d && q * d == d * q) by (nonlinear_arith);
}

/// Divides and rounds to the nearest integer, a tie going away from zero.
pub fn div_round(num: i128, den: u32) -> (q: i128)
    requires
        den > 0,
    ensures
        q == round_half_away(num as int, den as int),
{
    let d: u128 = den as u128;
    if num >= 0 {
        let m: u128 = num as u128;
        let whole: u128 = m / d;
        let rest: u128 = m % d;
        proof {
            lemma_round_by_remainder(m as int, d as int);
            lemma_round_bounded(m as int, d as int);
        }
        if 2 * rest >= d {
            (whole + 1) as i128
        } else {
            whole as i128
        }
    } else {
        // The magnitude of the least value has no signed counterpart, so it
        // is taken one short and then completed as an unsigned number.
        let m: u128 = ((-(num + 1)) as u128) + 1;
        let whole: u128 = m / d;
        let rest: u128 = m % d;
        proof {
            lemma_round_by_remainder(m as int, d as int);
            lemma_round_bounded(m as int, d as int);
        }
        let rounded: u128 = if 2 * rest >= d {
            whole + 1
        } else {
            whole
        };
        if rounded == 0 {
            0
        } else {
            -((rounded - 1) as i128) - 1
        }
    }
}

} // verus!
