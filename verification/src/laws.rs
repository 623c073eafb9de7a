//! Laws of the dimension arithmetic.
//!
//! Each law is stated over what the operators return (`a + b` returns
//! `a.add_spec(b)` whenever `a.add_req(b)` holds, and likewise for `-`, `*`,
//! `/` and unary `-`), on the inputs for which every operation named in it
//! can be evaluated without overflow.

use vstd::prelude::*;
use vstd::std_specs::ops::{AddSpec, DivSpec, MulSpec, NegSpec, SubSpec};

use crate::dimension::checks::can_divide_defined;
use crate::dimension::reading::{
    is_digit, lemma_decimal, lemma_exponent_text_reads_back, lemma_unit_text_reads_back,
    parse_decimal, read_exponent_text, read_unit_text,
};
use crate::dimension::text::{decimal, exponent_text, unit_text};
use crate::dimension::{Dimension, Exponents};

verus! {

/// The dimensionless dimension (all exponents zero), as `Dimension::default()`
/// returns it.
pub open spec fn dimensionless() -> Dimension {
    Dimension::from_exponents(Exponents::zero())
}

/// Multiplying quantities in either order gives the same dimension:
/// `a + b == b + a`.
pub proof fn law_add_commutative(a: Dimension, b: Dimension)
    requires
        a.add_req(b),
    ensures
        b.add_req(a),
        a.add_spec(b) == b.add_spec(a),
{
}

/// Multiplying three quantities in either grouping gives the same dimension:
/// `(a + b) + c == a + (b + c)`.
pub proof fn law_add_associative(a: Dimension, b: Dimension, c: Dimension)
    requires
        a.add_req(b),
        a.add_spec(b).add_req(c),
        b.add_req(c),
        a.add_req(b.add_spec(c)),
    ensures
        a.add_spec(b).add_spec(c) == a.add_spec(b.add_spec(c)),
{
}

/// The dimensionless dimension is neutral for products and quotients:
/// `a + 0 == a` and `a - 0 == a`.
pub proof fn law_dimensionless_identity(a: Dimension)
    ensures
        a.add_req(dimensionless()),
        a.add_spec(dimensionless()) == a,
        a.sub_req(dimensionless()),
        a.sub_spec(dimensionless()) == a,
{
}

/// Dividing a quantity by one of the same dimension gives a ratio:
/// `a - a == 0`.
pub proof fn law_sub_self(a: Dimension)
    ensures
        a.sub_req(a),
        a.sub_spec(a) == dimensionless(),
{
}

/// Dividing by a quantity is multiplying by its reciprocal:
/// `a - b == a + (-b)`.
pub proof fn law_sub_is_add_neg(a: Dimension, b: Dimension)
    requires
        b.neg_req(),
    ensures
        a.sub_req(b) <==> a.add_req(b.neg_spec()),
        a.sub_req(b) ==> a.sub_spec(b) == a.add_spec(b.neg_spec()),
{
}

/// The reciprocal of a quantity (a ratio divided by it) has the negated
/// dimension: `0 - a == -a`.
pub proof fn law_inverse_is_negation(a: Dimension)
    ensures
        dimensionless().sub_req(a) <==> a.neg_req(),
        a.neg_req() ==> dimensionless().sub_spec(a) == a.neg_spec(),
{
}

/// Taking the reciprocal twice gives back the dimension: `-(-a) == a`.
pub proof fn law_neg_involutive(a: Dimension)
    requires
        a.neg_req(),
    ensures
        a.neg_spec().neg_req(),
        a.neg_spec().neg_spec() == a,
{
}

/// Dividing by a quantity and multiplying by it again gives back the
/// dimension: `(a - b) + b == a`.
pub proof fn law_sub_add_cancel(a: Dimension, b: Dimension)
    requires
        a.sub_req(b),
    ensures
        a.sub_spec(b).add_req(b),
        a.sub_spec(b).add_spec(b) == a,
{
}

/// The first power keeps the dimension and the zeroth power is
/// dimensionless: `a * 1 == a` and `a * 0 == 0`.
pub proof fn law_mul_one_zero(a: Dimension)
    ensures
        a.mul_req(1i32),
        a.mul_spec(1i32) == a,
        a.mul_req(0i32),
        a.mul_spec(0i32) == dimensionless(),
{
}

/// The product of two powers of a quantity is the power with the summed
/// exponent: `a * k1 + a * k2 == a * (k1 + k2)`.
pub proof fn law_mul_add_distributes(a: Dimension, k1: i32, k2: i32)
    requires
        a.mul_req(k1),
        a.mul_req(k2),
        a.mul_spec(k1).add_req(a.mul_spec(k2)),
        crate::dimension::fits_i32(k1 + k2),
        a.mul_req((k1 + k2) as i32),
    ensures
        a.mul_spec(k1).add_spec(a.mul_spec(k2)) == a.mul_spec((k1 + k2) as i32),
{
    let e = a@;
    let k: int = k1 + k2;
    assert(e.l * k1 + e.l * k2 == e.l * k) by (nonlinear_arith)
        requires
            k == k1 + k2,
    ;
    assert(e.m * k1 + e.m * k2 == e.m * k) by (nonlinear_arith)
        requires
            k == k1 + k2,
    ;
    assert(e.t * k1 + e.t * k2 == e.t * k) by (nonlinear_arith)
        requires
            k == k1 + k2,
    ;
    assert(e.i * k1 + e.i * k2 == e.i * k) by (nonlinear_arith)
        requires
            k == k1 + k2,
    ;
    assert(e.th * k1 + e.th * k2 == e.th * k) by (nonlinear_arith)
        requires
            k == k1 + k2,
    ;
    assert(e.n * k1 + e.n * k2 == e.n * k) by (nonlinear_arith)
        requires
            k == k1 + k2,
    ;
    assert(e.j * k1 + e.j * k2 == e.j * k) by (nonlinear_arith)
        requires
            k == k1 + k2,
    ;
}

/// A power of a power is the power with the product exponent:
/// `(a * k1) * k2 == a * (k1 * k2)`.
pub proof fn law_mul_mul(a: Dimension, k1: i32, k2: i32)
    requires
        a.mul_req(k1),
        a.mul_spec(k1).mul_req(k2),
        crate::dimension::fits_i32(k1 * k2),
        a.mul_req((k1 * k2) as i32),
    ensures
        a.mul_spec(k1).mul_spec(k2) == a.mul_spec((k1 * k2) as i32),
{
    let e = a@;
    let k: int = k1 * k2;
    assert(e.l * k1 * k2 == e.l * k) by (nonlinear_arith)
        requires
            k == k1 * k2,
    ;
    assert(e.m * k1 * k2 == e.m * k) by (nonlinear_arith)
        requires
            k == k1 * k2,
    ;
    assert(e.t * k1 * k2 == e.t * k) by (nonlinear_arith)
        requires
            k == k1 * k2,
    ;
    assert(e.i * k1 * k2 == e.i * k) by (nonlinear_arith)
        requires
            k == k1 * k2,
    ;
    assert(e.th * k1 * k2 == e.th * k) by (nonlinear_arith)
        requires
            k == k1 * k2,
    ;
    assert(e.n * k1 * k2 == e.n * k) by (nonlinear_arith)
        requires
            k == k1 * k2,
    ;
    assert(e.j * k1 * k2 == e.j * k) by (nonlinear_arith)
        requires
            k == k1 * k2,
    ;
}

/// `x * k` is a multiple of `k` and dividing it by `k` gives `x`.
proof fn lemma_mul_div_cancel(x: int, k: int)
    requires
        k != 0,
    ensures
        (x * k) % k == 0,
        (x * k) / k == x,
{
    if k > 0 {
        vstd::arithmetic::div_mod::lemma_fundamental_div_mod_converse(x * k, k, x, 0);
    } else {
        assert(x * k == (-x) * (-k) + 0) by (nonlinear_arith);
        vstd::arithmetic::div_mod::lemma_fundamental_div_mod_converse(x * k, -k, -x, 0);
        crate::dimension::checks::lemma_mod_abs(x * k, k);
        vstd::arithmetic::div_mod::lemma_fundamental_div_mod(x * k, k);
        assert((x * k) / k == x) by (nonlinear_arith)
            requires
                k != 0,
                x * k == k * ((x * k) / k) + (x * k) % k,
                (x * k) % k == 0,
        ;
    }
}

/// The `k`-th root of a `k`-th power is always allowed and gives back the
/// dimension (the square root of an area is a length):
/// `(a * k) / k == a`.
pub proof fn law_root_of_power(a: Dimension, k: i32)
    requires
        k != 0,
        a.mul_req(k),
    ensures
        a.mul_spec(k)@.divisible_by(k as int),
        a.mul_spec(k).div_req(k),
        a.mul_spec(k).div_spec(k) == a,
{
    let e = a@;
    lemma_mul_div_cancel(e.l, k as int);
    lemma_mul_div_cancel(e.m, k as int);
    lemma_mul_div_cancel(e.t, k as int);
    lemma_mul_div_cancel(e.i, k as int);
    lemma_mul_div_cancel(e.th, k as int);
    lemma_mul_div_cancel(e.n, k as int);
    lemma_mul_div_cancel(e.j, k as int);
}

/// `x` is a multiple of `k` exactly when `(x / k) * k == x`.
proof fn lemma_div_mul_cancel(x: int, k: int)
    requires
        k != 0,
        x % k == 0,
    ensures
        (x / k) * k == x,
{
    vstd::arithmetic::div_mod::lemma_fundamental_div_mod(x, k);
    assert((x / k) * k == x) by (nonlinear_arith)
        requires
            x == k * (x / k) + x % k,
            x % k == 0,
    ;
}

/// The `k`-th power of a `k`-th root gives back the dimension:
/// `(a / k) * k == a`.
pub proof fn law_power_of_root(a: Dimension, k: i32)
    requires
        a.div_req(k),
    ensures
        a.div_spec(k).mul_req(k),
        a.div_spec(k).mul_spec(k) == a,
{
    let e = a@;
    lemma_div_mul_cancel(e.l, k as int);
    lemma_div_mul_cancel(e.m, k as int);
    lemma_div_mul_cancel(e.t, k as int);
    lemma_div_mul_cancel(e.i, k as int);
    lemma_div_mul_cancel(e.th, k as int);
    lemma_div_mul_cancel(e.n, k as int);
    lemma_div_mul_cancel(e.j, k as int);
}

/// Every dimension is divisible by 1, and the first root keeps it:
/// `a / 1 == a`.
pub proof fn law_div_one(a: Dimension)
    ensures
        a.div_req(1i32),
        a.div_spec(1i32) == a,
{
}

/// An exact quotient by a divisor other than zero is no larger in size than
/// the dividend, unless it is `i32::MIN` divided by `-1`.
proof fn lemma_exact_quotient_fits(x: int, k: int)
    requires
        crate::dimension::checks::rem_defined(x, k),
        crate::dimension::fits_i32(x),
        x % k == 0,
    ensures
        crate::dimension::fits_i32(x / k),
{
    lemma_div_mul_cancel(x, k);
    let q = x / k;
    assert(-0x8000_0000 <= q <= 0x7fff_ffff) by (nonlinear_arith)
        requires
            q * k == x,
            k != 0,
            -0x8000_0000 <= x <= 0x7fff_ffff,
            !(k == -1 && x == -0x8000_0000),
    ;
}

/// Whenever `can_divide(d, k)` answers `true`, `d / k` can be computed:
/// the check that guards a root is exactly what the root needs.
pub proof fn law_can_divide_allows_root(d: Dimension, k: i32)
    requires
        can_divide_defined(d@, k as int),
        d@.divisible_by(k as int),
    ensures
        d.div_req(k),
{
    let e = d@;
    lemma_exact_quotient_fits(e.l, k as int);
    lemma_exact_quotient_fits(e.m, k as int);
    lemma_exact_quotient_fits(e.t, k as int);
    lemma_exact_quotient_fits(e.i, k as int);
    lemma_exact_quotient_fits(e.th, k as int);
    lemma_exact_quotient_fits(e.n, k as int);
    lemma_exact_quotient_fits(e.j, k as int);
}

/// The unit string is empty exactly for a dimensionless value (a quantity
/// of such a dimension is printed as its bare number).
pub proof fn law_unit_text_empty_iff_dimensionless(d: Dimension)
    ensures
        (unit_text(d@).len() == 0) <==> (d@ == Exponents::zero()),
{
}

/// The exponent listing is empty exactly for a dimensionless value.
pub proof fn law_exponent_text_empty_iff_dimensionless(d: Dimension)
    ensures
        (exponent_text(d@).len() == 0) <==> (d@ == Exponents::zero()),
{
}

/// The decimal text of an integer is its base-10 numeral: it is non-empty,
/// starts with `-` exactly when the integer is negative, is otherwise made
/// of ASCII digits, and reading it as a decimal number gives the integer
/// back.
pub proof fn law_decimal_reads_back(v: int)
    ensures
        decimal(v).len() > 0,
        (decimal(v)[0] == '-') <==> v < 0,
        forall|i: int|
            0 <= i < decimal(v).len() ==> is_digit(#[trigger] decimal(v)[i]) || (i == 0
                && decimal(v)[i] == '-'),
        parse_decimal(decimal(v)) == v,
{
    lemma_decimal(v);
}

/// Reading the SI unit string of a dimension (each `·`-separated term is a
/// unit symbol, alone for exponent 1 or followed by `^` and the exponent)
/// gives back every exponent of the dimension.
pub proof fn law_unit_text_reads_back(d: Dimension)
    ensures
        read_unit_text(unit_text(d@)) == d@,
{
    lemma_unit_text_reads_back(d@);
}

/// Different dimensions have different SI unit strings.
pub proof fn law_unit_text_injective(a: Dimension, b: Dimension)
    requires
        unit_text(a@) == unit_text(b@),
    ensures
        a == b,
{
    lemma_unit_text_reads_back(a@);
    lemma_unit_text_reads_back(b@);
}

/// Reading the exponent listing of a dimension (each `,`-separated term is
/// a field name, `=` and the exponent) gives back every exponent of the
/// dimension.
pub proof fn law_exponent_text_reads_back(d: Dimension)
    ensures
        read_exponent_text(exponent_text(d@)) == d@,
{
    lemma_exponent_text_reads_back(d@);
}

/// Different dimensions have different exponent listings.
pub proof fn law_exponent_text_injective(a: Dimension, b: Dimension)
    requires
        exponent_text(a@) == exponent_text(b@),
    ensures
        a == b,
{
    lemma_exponent_text_reads_back(a@);
    lemma_exponent_text_reads_back(b@);
}

} // verus!
