//! Predicates on dimensions that guard which operations are allowed.

use vstd::prelude::*;

use super::{Dimension, Exponents};

verus! {

/// `x % k` can be evaluated on `i32` without overflow: `k` is non-zero and
/// the pair is not `(i32::MIN, -1)`.
pub open spec fn rem_defined(x: int, k: int) -> bool {
    k != 0 && !(k == -1 && x == i32::MIN)
}

/// Every exponent of `d` can be taken modulo `k` on `i32`.
pub open spec fn can_divide_defined(d: Exponents, k: int) -> bool {
    &&& rem_defined(d.l, k)
    &&& rem_defined(d.m, k)
    &&& rem_defined(d.t, k)
    &&& rem_defined(d.i, k)
    &&& rem_defined(d.th, k)
    &&& rem_defined(d.n, k)
    &&& rem_defined(d.j, k)
}

/// For a negative divisor the remainder is that of its absolute value.
pub(crate) proof fn lemma_mod_abs(x: int, d: int)
    requires
        d < 0,
    ensures
        x % d == x % (-d),
{
    vstd::arithmetic::div_mod::lemma_fundamental_div_mod(x, d);
    assert(x == (-(x / d)) * (-d) + x % d) by (nonlinear_arith)
        requires
            x == d * (x / d) + x % d,
    ;
    vstd::arithmetic::div_mod::lemma_fundamental_div_mod_converse(x, -d, -(x / d), x % d);
}

/// A multiple of `m` negated is still a multiple of `m`.
proof fn lemma_mod_neg_zero(x: int, m: int)
    requires
        m > 0,
        x % m == 0,
    ensures
        (-x) % m == 0,
{
    vstd::arithmetic::div_mod::lemma_fundamental_div_mod(x, m);
    assert(-x == (-(x / m)) * m + 0) by (nonlinear_arith)
        requires
            x == m * (x / m) + 0,
    ;
    vstd::arithmetic::div_mod::lemma_fundamental_div_mod_converse(-x, m, -(x / m), 0);
}

/// `x` is a multiple of `k` exactly when `|x|` is a multiple of `|k|`.
proof fn lemma_divisible_abs(x: int, k: int)
    requires
        k != 0,
    ensures
        (x % k == 0) <==> ((if x < 0 { -x } else { x }) % (if k < 0 { -k } else { k }) == 0),
{
    let m: int = if k < 0 { -k } else { k };
    if k < 0 {
        lemma_mod_abs(x, k);
    }
    if x % m == 0 {
        lemma_mod_neg_zero(x, m);
    }
    if (-x) % m == 0 {
        lemma_mod_neg_zero(-x, m);
    }
}

/// Returns whether `x` is a multiple of `k`.
fn divides(x: i32, k: i32) -> (r: bool)
    requires
        rem_defined(x as int, k as int),
    ensures
        r == (x as int % k as int == 0),
{
    let ax: i64 = if x < 0 { -(x as i64) } else { x as i64 };
    let ak: i64 = if k < 0 { -(k as i64) } else { k as i64 };
    proof {
        lemma_divisible_abs(x as int, k as int);
    }
    ax % ak == 0
}

/// Returns `x / k` for a `k` that divides `x` exactly.
pub(crate) fn exact_quotient(x: i32, k: i32) -> (q: i32)
    requires
        k != 0,
        x as int % k as int == 0,
        fits_i32_quotient(x as int, k as int),
    ensures
        q as int == x as int / k as int,
        q as int * k as int == x as int,
{
    let ax: i64 = if x < 0 { -(x as i64) } else { x as i64 };
    let ak: i64 = if k < 0 { -(k as i64) } else { k as i64 };
    proof {
        lemma_divisible_abs(x as int, k as int);
        vstd::arithmetic::div_mod::lemma_fundamental_div_mod(ax as int, ak as int);
        vstd::arithmetic::div_mod::lemma_fundamental_div_mod(x as int, k as int);
    }
    let aq: i64 = ax / ak;
    assert(aq * ak == ax) by (nonlinear_arith)
        requires
            ax == ak * (ax / ak) + ax % ak,
            ax % ak == 0,
            aq == ax / ak,
    ;
    let q: i64 = if (x < 0) == (k < 0) { aq } else { -aq };
    proof {
        assert(q * k == x) by (nonlinear_arith)
            requires
                aq * ak == ax,
                ax == (if x < 0 { -(x as int) } else { x as int }),
                ak == (if k < 0 { -(k as int) } else { k as int }),
                q == (if (x < 0) == (k < 0) { aq as int } else { -(aq as int) }),
        ;
        assert(k * (x / k) == x);
        assert(q == x / k) by (nonlinear_arith)
            requires
                k != 0,
                q * k == x,
                k * (x / k) == x,
        ;
    }
    q as i32
}

/// `x / k` is representable as an `i32`.
pub open spec fn fits_i32_quotient(x: int, k: int) -> bool {
    super::fits_i32(x / k)
}

/// Returns `true` if `d1` and `d2` have identical exponents.
///
/// Used to enforce that only quantities of matching dimension can be added,
/// subtracted, or constructed from a particular unit.
pub fn eq(d1: Dimension, d2: Dimension) -> (r: bool)
    ensures
        r == (d1@ == d2@),
        r == (d1 == d2),
{
    d1.L == d2.L && d1.M == d2.M && d1.T == d2.T && d1.I == d2.I && d1.Th == d2.Th && d1.N == d2.N
        && d1.J == d2.J
}

/// Returns `true` if every exponent in `d` is evenly divisible by `rhs`.
///
/// Used to enforce that `sqrt` (divisor 2) and `nroot` (divisor N) are only
/// callable when the resulting exponents would be integers. Requires a
/// divisor for which `%` is defined on every exponent.
pub fn can_divide(d: Dimension, rhs: i32) -> (r: bool)
    requires
        can_divide_defined(d@, rhs as int),
    ensures
        r == d@.divisible_by(rhs as int),
{
    divides(d.L, rhs) && divides(d.M, rhs) && divides(d.T, rhs) && divides(d.I, rhs) && divides(
        d.Th,
        rhs,
    ) && divides(d.N, rhs) && divides(d.J, rhs)
}

} // verus!
