//! Laws of numbers in texts: what is shown is as near to the number as its digits allow.

use vstd::prelude::*;

use crate::float_text::{
    double_seconds, duration, nearest_small, one_decimal, round_even, TWO_52, TWO_53, double_of,
};
use crate::text::decimal;

verus! {

/// Whether `t` is `p / q` rounded: no other integer is nearer, and of two that are as
/// near it is the even one.
pub open spec fn is_rounded(t: int, p: int, q: int) -> bool {
    &&& -q <= 2 * (t * q - p) <= q
    &&& 2 * (t * q - p) == q || 2 * (t * q - p) == -q ==> t % 2 == 0
}

/// A quotient is rounded to the nearest integer, and a half to the even one.
pub proof fn quotients_are_rounded(p: nat, q: nat)
    requires
        q > 0,
    ensures
        is_rounded(round_even(p, q) as int, p as int, q as int),
{
    let f = p / q;
    let r = p % q;
    vstd::arithmetic::div_mod::lemma_fundamental_div_mod(p as int, q as int);
    assert(p == f * q + r) by (nonlinear_arith)
        requires
            p == q * f + r,
    ;
    assert((f + 1) * q == f * q + q) by (nonlinear_arith);
    assert(0 <= r < q) by (nonlinear_arith)
        requires
            r == p % q,
            q > 0,
    ;
}

/// A fraction is shown in tenths, those nearest to it.
pub proof fn fractions_are_shown_in_tenths(num: nat, den: nat) -> (t: nat)
    requires
        den > 0,
    ensures
        is_rounded(t as int, 10 * num as int, den as int),
        one_decimal(num, den) == decimal(t / 10) + "."@ + decimal(t % 10),
{
    quotients_are_rounded(10 * num, den);
    round_even(10 * num, den)
}

/// A quotient below 2^53 is held as a fraction over a power of two that is off by half a
/// unit of that fraction at most.
pub proof fn quotients_are_held_closely(p: nat, q: nat, den: nat) -> (k: nat)
    requires
        q > 0,
        den > 0,
    ensures
        k > 0,
        nearest_small(p, q, den).1 == k * den,
        is_rounded(nearest_small(p, q, den).0 as int, (p * k) as int, q as int),
        p > 0 ==> p * k >= TWO_52 * q,
    decreases TWO_53 * q - p,
{
    if p == 0 || p >= TWO_52 * q {
        quotients_are_rounded(p, q);
        assert(p * 1 == p && 1 * den == den);
        1
    } else {
        assert(TWO_53 * q == 2 * (TWO_52 * q)) by (nonlinear_arith)
            requires
                TWO_53 == 2 * TWO_52,
        ;
        let k = quotients_are_held_closely(2 * p, q, 2 * den);
        assert((2 * p) * k == p * (2 * k)) by (nonlinear_arith);
        assert(k * (2 * den) == (2 * k) * den) by (nonlinear_arith);
        2 * k
    }
}

/// A duration is shown as whole minutes and tenths of a second below a minute that
/// together are the tenths nearest to it; below a minute the minutes are left out.
pub proof fn durations_are_shown_in_tenths(ms: nat) -> (shown: (nat, nat))
    ensures
        ({
            let s = double_seconds(ms);
            let tenths = 600 * shown.0 + shown.1;
            let seconds = decimal(shown.1 / 10) + "."@ + decimal(shown.1 % 10) + "s"@;
            &&& s.1 > 0
            &&& shown.0 > 0 <==> s.0 >= 60 * s.1
            &&& shown.0 > 0 ==> shown.1 < 600
            &&& -(s.1 as int) <= 2 * (tenths * s.1 - 10 * s.0) <= s.1
            &&& duration(ms) == if shown.0 > 0 {
                decimal(shown.0) + "m "@ + seconds
            } else {
                seconds
            }
        }),
{
    let s = double_seconds(ms);
    if double_of(ms) < TWO_53 * 1000 {
        let k = quotients_are_held_closely(double_of(ms), 1000, 1);
    }
    if s.0 < 60 * s.1 {
        let t = fractions_are_shown_in_tenths(s.0, s.1);
        (0, t)
    } else {
        long_durations_are_shown_in_tenths(ms)
    }
}

proof fn long_durations_are_shown_in_tenths(ms: nat) -> (shown: (nat, nat))
    requires
        double_seconds(ms).1 > 0,
        double_seconds(ms).0 >= 60 * double_seconds(ms).1,
    ensures
        ({
            let s = double_seconds(ms);
            let tenths = 600 * shown.0 + shown.1;
            let seconds = decimal(shown.1 / 10) + "."@ + decimal(shown.1 % 10) + "s"@;
            &&& shown.1 < 600
            &&& shown.0 > 0
            &&& -(s.1 as int) <= 2 * (tenths * s.1 - 10 * s.0) <= s.1
            &&& duration(ms) == decimal(shown.0) + "m "@ + seconds
        }),
{
    let s = double_seconds(ms);
    let unit = 60 * s.1;
    let minutes = s.0 / unit;
    let rest = s.0 % unit;
    vstd::arithmetic::div_mod::lemma_fundamental_div_mod(s.0 as int, unit as int);
    assert(0 <= rest < unit) by (nonlinear_arith)
        requires
            rest == s.0 % unit,
            unit > 0,
    ;
    assert(minutes > 0) by (nonlinear_arith)
        requires
            s.0 == unit * minutes + rest,
            rest < unit,
            s.0 >= unit,
            unit > 0,
    ;
    quotients_are_rounded(10 * rest, s.1);
    let t = round_even(10 * rest, s.1);
    assert(t <= 600) by (nonlinear_arith)
        requires
            2 * (t * s.1 - 10 * rest) <= s.1,
            rest < 60 * s.1,
            s.1 > 0,
    ;
    assert((600 * minutes + t) * s.1 == 600 * minutes * s.1 + t * s.1) by (nonlinear_arith);
    assert(10 * (unit * minutes) == 600 * minutes * s.1) by (nonlinear_arith)
        requires
            unit == 60 * s.1,
    ;
    if t >= 600 {
        assert(600 * (minutes + 1) + 0 == 600 * minutes + t);
        reveal_strlit("m 0.0s");
        reveal_strlit("m ");
        reveal_strlit(".");
        reveal_strlit("s");
        crate::text::lemma_decimal(0);
        assert(decimal(0) =~= seq!['0']);
        assert(duration(ms) =~= decimal(minutes + 1) + "m "@ + (decimal(0) + "."@ + decimal(
            0,
        ) + "s"@));
        (minutes + 1, 0)
    } else {
        assert(duration(ms) =~= decimal(minutes) + "m "@ + (decimal(t / 10) + "."@ + decimal(
            t % 10,
        ) + "s"@));
        (minutes, t)
    }
}

} // verus!
