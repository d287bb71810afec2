//! Quotients as double-precision arithmetic rounds and prints them.
//!
//! A fraction is a pair of a numerator and a positive denominator. A quotient
//! is rounded to 53 significant bits, ties to even, and printed with a fixed
//! number of decimals, ties to even.

use vstd::prelude::*;
use vstd::string::*;

use crate::text::{decimal, u64_text};

verus! {

/// 2 to the power of 52.
pub const TWO_52: u128 = 0x10_0000_0000_0000;

/// 2 to the power of 53.
pub const TWO_53: u128 = 0x20_0000_0000_0000;

/// `p / q` rounded to an integer, ties to even.
pub open spec fn round_even(p: nat, q: nat) -> nat {
    let f = p / q;
    let r = p % q;
    if 2 * r > q || (2 * r == q && f % 2 == 1) {
        f + 1
    } else {
        f
    }
}

/// The significand and the power of two below it of a quotient under 2^53.
pub open spec fn nearest_small(p: nat, q: nat, den: nat) -> (nat, nat)
    decreases TWO_53 * q - p,
{
    if p == 0 || p >= TWO_52 * q {
        (round_even(p, q), den)
    } else {
        nearest_small(2 * p, q, 2 * den)
    }
}

/// The rounded value of a quotient of 2^53 or more.
pub open spec fn nearest_big(p: nat, q: nat, unit: nat) -> nat
    decreases p - q,
{
    if q == 0 || p < TWO_53 * q {
        round_even(p, q) * unit
    } else {
        nearest_big(p, 2 * q, 2 * unit)
    }
}

/// The fraction that a double holds for `p / q`.
pub open spec fn nearest(p: nat, q: nat) -> (nat, nat) {
    if p < TWO_53 * q {
        nearest_small(p, q, 1)
    } else {
        (nearest_big(p, q, 1), 1)
    }
}

/// An integer as a double holds it.
pub open spec fn double_of(n: nat) -> nat {
    if n < TWO_53 {
        n
    } else {
        nearest_big(n, 1, 1)
    }
}

/// The quotient of an integer, held as a double, and a small integer.
pub open spec fn double_quotient(n: nat, d: nat) -> (nat, nat) {
    nearest(double_of(n), d)
}

/// A fraction with one decimal.
pub open spec fn one_decimal(num: nat, den: nat) -> Seq<char> {
    let t = round_even(10 * num, den);
    decimal(t / 10) + "."@ + decimal(t % 10)
}

fn round_even_exec(p: u128, q: u128) -> (r: u128)
    requires
        0 < q <= 0x4000_0000_0000_0000_0000_0000_0000_0000,
        p < 0xffff_ffff_ffff_ffff_ffff_ffff_ffff_ffff,
    ensures
        r == round_even(p as nat, q as nat),
        r <= p / q + 1,
        r >= p / q,
{
    let f: u128 = p / q;
    let m: u128 = p % q;
    proof {
        assert(f <= p) by (nonlinear_arith)
            requires
                f == p / q,
                q > 0,
                p >= 0,
        ;
    }
    if 2 * m > q || (2 * m == q && f % 2 == 1) {
        f + 1
    } else {
        f
    }
}

/// `p / q` as a double holds it.
fn nearest_exec(p: u128, q: u128) -> (r: (u128, u128))
    requires
        0 < q <= 0x8_0000_0000_0000_0000,
        p <= 0x4_0000_0000_0000_0000,
    ensures
        (r.0 as nat, r.1 as nat) == nearest(p as nat, q as nat),
        r.1 > 0,
        r.0 <= 2 * p + TWO_53,
        r.1 * p <= TWO_53 * q + p,
        r.0 * q <= 2 * (r.1 * p) + q,
        p == 0 ==> r.0 == 0 && r.1 == 1,
{
    proof {
        assert(TWO_53 * q <= 0x100_0000_0000_0000_0000_0000_0000_0000) by (nonlinear_arith)
            requires
                0 < q <= 0x8_0000_0000_0000_0000,
                TWO_53 == 0x20_0000_0000_0000,
        ;
        assert(TWO_53 * q == 2 * (TWO_52 * q)) by (nonlinear_arith)
            requires
                TWO_53 == 2 * TWO_52,
        ;
    }
    if p == 0 {
        proof {
            assert(0nat / (q as nat) == 0 && 0nat % (q as nat) == 0) by (nonlinear_arith)
                requires
                    q > 0,
            ;
        }
        return (0, 1);
    }
    if p < TWO_53 * q {
        let mut a: u128 = p;
        let mut den: u128 = 1;
        while a < TWO_52 * q
            invariant
                0 < q <= 0x8_0000_0000_0000_0000,
                0 < p,
                TWO_53 * q <= 0x100_0000_0000_0000_0000_0000_0000_0000,
                TWO_53 * q == 2 * (TWO_52 * q),
                den > 0,
                a == den * p,
                a < TWO_53 * q,
                nearest_small(a as nat, q as nat, den as nat) == nearest_small(
                    p as nat,
                    q as nat,
                    1,
                ),
            decreases TWO_53 * q - a,
        {
            proof {
                assert(2 * a == (2 * den) * p) by (nonlinear_arith)
                    requires
                        a == den * p,
                ;
                assert(den <= a && a > 0) by (nonlinear_arith)
                    requires
                        a == den * p,
                        p > 0,
                        den > 0,
                ;
            }
            a = 2 * a;
            den = 2 * den;
        }
        let m: u128 = round_even_exec(a, q);
        proof {
            let f = a as int / q as int;
            assert(m * q <= 2 * a + q) by (nonlinear_arith)
                requires
                    m <= f + 1,
                    f == a as int / q as int,
                    q > 0,
                    a >= 0,
            ;
            assert(a / q < TWO_53) by (nonlinear_arith)
                requires
                    a < TWO_53 * q,
                    q > 0,
            ;
            assert(a > 0) by (nonlinear_arith)
                requires
                    a == den * p,
                    p > 0,
                    den > 0,
            ;
        }
        (m, den)
    } else {
        let mut b: u128 = q;
        let mut unit: u128 = 1;
        while p >= TWO_53 * b
            invariant
                0 < q <= b,
                0 < p <= 0x4_0000_0000_0000_0000,
                unit > 0,
                b == unit * q,
                b <= 0x8_0000_0000_0000_0000,
                unit <= p,
                b <= p,
                TWO_53 * b <= 0x100_0000_0000_0000_0000_0000_0000_0000,
                nearest_big(p as nat, b as nat, unit as nat) == nearest_big(p as nat, q as nat, 1),
            decreases p - b,
        {
            proof {
                assert(2 * b == (2 * unit) * q) by (nonlinear_arith)
                    requires
                        b == unit * q,
                ;
                assert(unit <= b) by (nonlinear_arith)
                    requires
                        b == unit * q,
                        q > 0,
                        unit > 0,
                ;
            }
            b = 2 * b;
            unit = 2 * unit;
        }
        let m: u128 = round_even_exec(p, b);
        proof {
            let k = p as int / b as int;
            assert(k < TWO_53) by (nonlinear_arith)
                requires
                    p < TWO_53 * b,
                    b > 0,
                    k == p as int / b as int,
            ;
            assert(k * unit <= p) by (nonlinear_arith)
                requires
                    k == p as int / b as int,
                    b == unit * q,
                    q > 0,
                    unit > 0,
                    b > 0,
            ;
            assert((m * unit) * q <= 2 * p) by (nonlinear_arith)
                requires
                    m <= k + 1,
                    k == p as int / b as int,
                    b == unit * q,
                    b <= p,
                    b > 0,
            ;
            assert(m * unit <= 2 * p) by (nonlinear_arith)
                requires
                    m <= k + 1,
                    k * unit <= p,
                    unit <= p,
                    unit > 0,
            ;
        }
        (m * unit, 1)
    }
}

/// `n` as a double holds it.
fn double_exec(n: u64) -> (r: u128)
    ensures
        r == double_of(n as nat),
        r <= 2 * n + TWO_53,
{
    if (n as u128) < TWO_53 {
        n as u128
    } else {
        nearest_exec(n as u128, 1).0
    }
}

/// A fraction with one decimal.
fn one_decimal_text(num: u128, den: u128) -> (r: String)
    requires
        0 < den <= 0x4000_0000_0000_0000_0000_0000_0000_0000,
        num <= 0x1000_0000_0000_0000_0000_0000_0000,
        10 * num < 0xffff_ffff_ffff_ffff * den,
    ensures
        r@ == one_decimal(num as nat, den as nat),
{
    proof {
        assert(((10 * num) as int / (den as int)) < 0xffff_ffff_ffff_ffff) by (nonlinear_arith)
            requires
                10 * num < 0xffff_ffff_ffff_ffff * den,
                den > 0,
        ;
    }
    let t: u128 = round_even_exec(10 * num, den);
    let mut s = u64_text((t / 10) as u64);
    s.append(".");
    let d = u64_text((t % 10) as u64);
    s.append(d.as_str());
    s
}

/// The quotient of `n` and `d`, each held as a double, with one decimal.
pub fn quotient_text(n: u64, d: u64) -> (r: String)
    requires
        1000 <= d,
    ensures
        r@ == one_decimal(
            double_quotient(n as nat, d as nat).0,
            double_quotient(n as nat, d as nat).1,
        ),
{
    let a: u128 = double_exec(n);
    let f: (u128, u128) = nearest_exec(a, d as u128);
    proof {
        let p = a as int;
        assert(f.1 <= 0x40_0000_0000_0000_0000_0000_0000_0000) by (nonlinear_arith)
            requires
                f.1 * p <= TWO_53 * d + p,
                p > 0 || f.1 == 1,
                d <= 0x1_0000_0000_0000_0000,
                TWO_53 == 0x20_0000_0000_0000,
                p >= 0,
                f.1 >= 0,
        ;
        assert(10 * f.0 < 0xffff_ffff_ffff_ffff * f.1) by (nonlinear_arith)
            requires
                f.0 * d <= 2 * (f.1 * p) + d,
                p <= 0x3_0000_0000_0000_0000,
                d >= 1000,
                f.1 > 0,
                f.0 >= 0,
        ;
    }
    one_decimal_text(f.0, f.1)
}

/// What a duration in milliseconds is in seconds, as a double holds it.
pub open spec fn double_seconds(ms: nat) -> (nat, nat) {
    double_quotient(ms, 1000)
}

/// A duration in milliseconds as `38.1s` or `1m 2.3s`: whole minutes and the
/// seconds left over, which make a minute where they round to one.
pub open spec fn duration(ms: nat) -> Seq<char> {
    let s = double_seconds(ms);
    if s.0 >= 60 * s.1 {
        let minutes = s.0 / (60 * s.1);
        let rest = s.0 % (60 * s.1);
        if round_even(10 * rest, s.1) >= 600 {
            decimal(minutes + 1) + "m 0.0s"@
        } else {
            decimal(minutes) + "m "@ + one_decimal(rest, s.1) + "s"@
        }
    } else {
        one_decimal(s.0, s.1) + "s"@
    }
}

/// A duration in milliseconds as `38.1s` or `1m 2.3s`.
pub fn fmt_duration(ms: u64) -> (r: String)
    ensures
        r@ == duration(ms as nat),
{
    let a: u128 = double_exec(ms);
    let s: (u128, u128) = nearest_exec(a, 1000);
    proof {
        let p = a as int;
        assert(s.1 <= 0x1_0000_0000_0000_0000_0000) by (nonlinear_arith)
            requires
                s.1 * p <= TWO_53 * 1000 + p,
                p > 0 || s.1 == 1,
                TWO_53 == 0x20_0000_0000_0000,
                p >= 0,
                s.1 >= 0,
        ;
        assert(10 * s.0 < 0xffff_ffff_ffff_ffff * s.1) by (nonlinear_arith)
            requires
                s.0 * 1000 <= 2 * (s.1 * p) + 1000,
                p <= 0x3_0000_0000_0000_0000,
                s.1 > 0,
                s.0 >= 0,
        ;
    }
    if s.0 >= 60 * s.1 {
        let q: u128 = 60 * s.1;
        proof {
            assert(q <= 0x8_0000_0000_0000_0000);
        }
        let minutes: u128 = s.0 / q;
        let rest: u128 = s.0 % q;
        proof {
            assert(minutes as int == (s.0 as int) / (q as int));
            assert(minutes < 0xffff_ffff_ffff_ffff) by (nonlinear_arith)
                requires
                    minutes == s.0 / q,
                    10 * s.0 < 0xffff_ffff_ffff_ffff * s.1,
                    q == 60 * s.1,
                    s.1 > 0,
            ;
        }
        if round_even_exec(10 * rest, s.1) >= 600 {
            let mut out = u64_text(minutes as u64 + 1);
            out.append("m 0.0s");
            out
        } else {
            let mut out = u64_text(minutes as u64);
            out.append("m ");
            let tail = one_decimal_text(rest, s.1);
            out.append(tail.as_str());
            out.append("s");
            out
        }
    } else {
        let mut out = one_decimal_text(s.0, s.1);
        out.append("s");
        out
    }
}

} // verus!
