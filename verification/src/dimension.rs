//! The seven SI base-dimension exponents and their arithmetic.
//!
//! A [`Dimension`] holds one `i32` exponent per SI base dimension. Its
//! mathematical model is [`Exponents`], the same seven exponents as
//! unbounded integers; every operation is specified over that model.
#![allow(non_snake_case)]

use vstd::prelude::*;
use vstd::std_specs::ops::{AddSpecImpl, DivSpecImpl, MulSpecImpl, NegSpecImpl, SubSpecImpl};

pub mod checks;
pub mod reading;
pub mod text;


verus! {

/// The mathematical model of a [`Dimension`]: the seven exponents as
/// integers, in the order length, mass, time, current, temperature,
/// amount of substance, luminous intensity.
pub struct Exponents {
    pub l: int,
    pub m: int,
    pub t: int,
    pub i: int,
    pub th: int,
    pub n: int,
    pub j: int,
}

/// `x` is representable as an `i32`.
pub open spec fn fits_i32(x: int) -> bool {
    i32::MIN <= x <= i32::MAX
}

impl Exponents {
    /// The exponents given in the order length, mass, time, current,
    /// temperature, amount of substance, luminous intensity.
    pub open spec fn of(l: int, m: int, t: int, i: int, th: int, n: int, j: int) -> Exponents {
        Exponents { l, m, t, i, th, n, j }
    }

    /// The dimensionless exponents: all zero.
    pub open spec fn zero() -> Exponents {
        Exponents { l: 0, m: 0, t: 0, i: 0, th: 0, n: 0, j: 0 }
    }

    /// Element-wise sum (the dimension of a product of quantities).
    pub open spec fn plus(self, o: Exponents) -> Exponents {
        Exponents {
            l: self.l + o.l,
            m: self.m + o.m,
            t: self.t + o.t,
            i: self.i + o.i,
            th: self.th + o.th,
            n: self.n + o.n,
            j: self.j + o.j,
        }
    }

    /// Element-wise difference (the dimension of a quotient of quantities).
    pub open spec fn minus(self, o: Exponents) -> Exponents {
        Exponents {
            l: self.l - o.l,
            m: self.m - o.m,
            t: self.t - o.t,
            i: self.i - o.i,
            th: self.th - o.th,
            n: self.n - o.n,
            j: self.j - o.j,
        }
    }

    /// Element-wise negation (the dimension of a reciprocal).
    pub open spec fn negated(self) -> Exponents {
        Exponents {
            l: -self.l,
            m: -self.m,
            t: -self.t,
            i: -self.i,
            th: -self.th,
            n: -self.n,
            j: -self.j,
        }
    }

    /// Every exponent multiplied by `k` (the dimension of a `k`-th power).
    pub open spec fn scaled(self, k: int) -> Exponents {
        Exponents {
            l: self.l * k,
            m: self.m * k,
            t: self.t * k,
            i: self.i * k,
            th: self.th * k,
            n: self.n * k,
            j: self.j * k,
        }
    }

    /// Every exponent divided by `k` (the dimension of a `k`-th root); only
    /// meaningful when [`divisible_by`](Self::divisible_by) holds.
    pub open spec fn divided(self, k: int) -> Exponents {
        Exponents {
            l: self.l / k,
            m: self.m / k,
            t: self.t / k,
            i: self.i / k,
            th: self.th / k,
            n: self.n / k,
            j: self.j / k,
        }
    }

    /// Every exponent is a multiple of `k`.
    pub open spec fn divisible_by(self, k: int) -> bool {
        &&& self.l % k == 0
        &&& self.m % k == 0
        &&& self.t % k == 0
        &&& self.i % k == 0
        &&& self.th % k == 0
        &&& self.n % k == 0
        &&& self.j % k == 0
    }

    /// Every exponent is representable as an `i32`.
    pub open spec fn fits(self) -> bool {
        &&& fits_i32(self.l)
        &&& fits_i32(self.m)
        &&& fits_i32(self.t)
        &&& fits_i32(self.i)
        &&& fits_i32(self.th)
        &&& fits_i32(self.n)
        &&& fits_i32(self.j)
    }

    /// Some exponent equals `i32::MIN`.
    pub open spec fn has_min(self) -> bool {
        ||| self.l == i32::MIN
        ||| self.m == i32::MIN
        ||| self.t == i32::MIN
        ||| self.i == i32::MIN
        ||| self.th == i32::MIN
        ||| self.n == i32::MIN
        ||| self.j == i32::MIN
    }
}

/// The seven SI base-dimension exponents.
///
/// Each field is the exponent of the corresponding SI base dimension. A
/// dimensionless ratio has all fields equal to zero (the `Default` value).
/// Multiplying quantities adds their dimensions, dividing subtracts them,
/// raising to the power `k` scales by `k` and the `k`-th root divides by `k`.
#[derive(Clone, Copy, PartialEq, Eq, Hash, Structural)]
pub struct Dimension {
    /// Length exponent (SI base unit: metre, m).
    pub L: i32,
    /// Mass exponent (SI base unit: kilogram, kg).
    pub M: i32,
    /// Time exponent (SI base unit: second, s).
    pub T: i32,
    /// Electric-current exponent (SI base unit: ampere, A).
    pub I: i32,
    /// Thermodynamic-temperature exponent (SI base unit: kelvin, K).
    pub Th: i32,
    /// Amount-of-substance exponent (SI base unit: mole, mol).
    pub N: i32,
    /// Luminous-intensity exponent (SI base unit: candela, cd).
    pub J: i32,
}

impl View for Dimension {
    type V = Exponents;

    open spec fn view(&self) -> Exponents {
        Exponents {
            l: self.L as int,
            m: self.M as int,
            t: self.T as int,
            i: self.I as int,
            th: self.Th as int,
            n: self.N as int,
            j: self.J as int,
        }
    }
}

impl Dimension {
    /// The dimension whose exponents are `e`, each taken as an `i32`.
    pub open spec fn from_exponents(e: Exponents) -> Dimension {
        Dimension {
            L: e.l as i32,
            M: e.m as i32,
            T: e.t as i32,
            I: e.i as i32,
            Th: e.th as i32,
            N: e.n as i32,
            J: e.j as i32,
        }
    }
}

/// Returns the dimensionless (all-zeros) dimension, representing a pure ratio.
impl Default for Dimension {
    fn default() -> (d: Dimension)
        ensures
            d@ == Exponents::zero(),
    {
        Dimension { L: 0, M: 0, T: 0, I: 0, Th: 0, N: 0, J: 0 }
    }
}

/// Element-wise addition of exponents - used when multiplying two quantities.
impl core::ops::Add for Dimension {
    type Output = Dimension;

    fn add(self, rhs: Dimension) -> (d: Dimension)
        ensures
            d@ == self@.plus(rhs@),
    {
        Dimension {
            L: self.L + rhs.L,
            M: self.M + rhs.M,
            T: self.T + rhs.T,
            I: self.I + rhs.I,
            Th: self.Th + rhs.Th,
            N: self.N + rhs.N,
            J: self.J + rhs.J,
        }
    }
}

impl AddSpecImpl for Dimension {
    open spec fn obeys_add_spec() -> bool {
        true
    }

    open spec fn add_req(self, rhs: Dimension) -> bool {
        self@.plus(rhs@).fits()
    }

    open spec fn add_spec(self, rhs: Dimension) -> Dimension {
        Dimension::from_exponents(self@.plus(rhs@))
    }
}

/// Element-wise subtraction of exponents - used when dividing two quantities.
impl core::ops::Sub for Dimension {
    type Output = Dimension;

    fn sub(self, rhs: Dimension) -> (d: Dimension)
        ensures
            d@ == self@.minus(rhs@),
    {
        Dimension {
            L: self.L - rhs.L,
            M: self.M - rhs.M,
            T: self.T - rhs.T,
            I: self.I - rhs.I,
            Th: self.Th - rhs.Th,
            N: self.N - rhs.N,
            J: self.J - rhs.J,
        }
    }
}

impl SubSpecImpl for Dimension {
    open spec fn obeys_sub_spec() -> bool {
        true
    }

    open spec fn sub_req(self, rhs: Dimension) -> bool {
        self@.minus(rhs@).fits()
    }

    open spec fn sub_spec(self, rhs: Dimension) -> Dimension {
        Dimension::from_exponents(self@.minus(rhs@))
    }
}

/// Scales every exponent by a scalar - used when raising a quantity to an
/// integer power.
impl core::ops::Mul<i32> for Dimension {
    type Output = Dimension;

    fn mul(self, rhs: i32) -> (d: Dimension)
        ensures
            d@ == self@.scaled(rhs as int),
    {
        Dimension {
            L: self.L * rhs,
            M: self.M * rhs,
            T: self.T * rhs,
            I: self.I * rhs,
            Th: self.Th * rhs,
            N: self.N * rhs,
            J: self.J * rhs,
        }
    }
}

impl MulSpecImpl<i32> for Dimension {
    open spec fn obeys_mul_spec() -> bool {
        true
    }

    open spec fn mul_req(self, rhs: i32) -> bool {
        self@.scaled(rhs as int).fits()
    }

    open spec fn mul_spec(self, rhs: i32) -> Dimension {
        Dimension::from_exponents(self@.scaled(rhs as int))
    }
}

/// Divides every exponent by a scalar - used when taking an nth root.
///
/// Only defined when `rhs` is non-zero, every exponent is evenly divisible
/// by `rhs`, and every quotient fits in an `i32`; use
/// [`checks::can_divide`] or [`Dimension::checked_div`] to test first.
impl core::ops::Div<i32> for Dimension {
    type Output = Dimension;

    fn div(self, rhs: i32) -> (d: Dimension)
        ensures
            d@ == self@.divided(rhs as int),
            d@.scaled(rhs as int) == self@,
    {
        Dimension {
            L: checks::exact_quotient(self.L, rhs),
            M: checks::exact_quotient(self.M, rhs),
            T: checks::exact_quotient(self.T, rhs),
            I: checks::exact_quotient(self.I, rhs),
            Th: checks::exact_quotient(self.Th, rhs),
            N: checks::exact_quotient(self.N, rhs),
            J: checks::exact_quotient(self.J, rhs),
        }
    }
}

impl DivSpecImpl<i32> for Dimension {
    open spec fn obeys_div_spec() -> bool {
        true
    }

    open spec fn div_req(self, rhs: i32) -> bool {
        &&& rhs != 0
        &&& self@.divisible_by(rhs as int)
        &&& self@.divided(rhs as int).fits()
    }

    open spec fn div_spec(self, rhs: i32) -> Dimension {
        Dimension::from_exponents(self@.divided(rhs as int))
    }
}

/// Negates every exponent - produces the reciprocal dimension (e.g. `s^-1`
/// from `s`).
impl core::ops::Neg for Dimension {
    type Output = Dimension;

    fn neg(self) -> (d: Dimension)
        ensures
            d@ == self@.negated(),
    {
        Dimension {
            L: -self.L,
            M: -self.M,
            T: -self.T,
            I: -self.I,
            Th: -self.Th,
            N: -self.N,
            J: -self.J,
        }
    }
}

impl NegSpecImpl for Dimension {
    open spec fn obeys_neg_spec() -> bool {
        true
    }

    open spec fn neg_req(self) -> bool {
        self@.negated().fits()
    }

    open spec fn neg_spec(self) -> Dimension {
        Dimension::from_exponents(self@.negated())
    }
}

/// The product of two `i32` values fits in an `i64`.
proof fn lemma_i32_product_fits_i64(a: i32, b: i32)
    ensures
        i64::MIN <= a * b <= i64::MAX,
{
    let x = a as int;
    let y = b as int;
    assert(-0x4000_0000_0000_0000 <= x * y <= 0x4000_0000_0000_0000) by (nonlinear_arith)
        requires
            -0x8000_0000 <= x <= 0x7fff_ffff,
            -0x8000_0000 <= y <= 0x7fff_ffff,
    ;
}

/// `x` is representable as an `i32`.
fn in_i32(x: i64) -> (r: bool)
    ensures
        r == fits_i32(x as int),
{
    -0x8000_0000i64 <= x && x <= 0x7fff_ffffi64
}

/// All seven values are representable as `i32`.
fn all_in_i32(l: i64, m: i64, t: i64, i: i64, th: i64, n: i64, j: i64) -> (r: bool)
    ensures
        r == Exponents::of(l as int, m as int, t as int, i as int, th as int, n as int, j as int).fits(),
{
    in_i32(l) && in_i32(m) && in_i32(t) && in_i32(i) && in_i32(th) && in_i32(n) && in_i32(j)
}

impl Dimension {
    /// `self + rhs`, or `None` when an exponent of the sum does not fit in
    /// an `i32`.
    pub fn checked_add(self, rhs: Dimension) -> (r: Option<Dimension>)
        ensures
            r is Some <==> self@.plus(rhs@).fits(),
            r matches Some(d) ==> d@ == self@.plus(rhs@),
    {
        if all_in_i32(
            self.L as i64 + rhs.L as i64,
            self.M as i64 + rhs.M as i64,
            self.T as i64 + rhs.T as i64,
            self.I as i64 + rhs.I as i64,
            self.Th as i64 + rhs.Th as i64,
            self.N as i64 + rhs.N as i64,
            self.J as i64 + rhs.J as i64,
        ) {
            Some(self + rhs)
        } else {
            None
        }
    }

    /// `self - rhs`, or `None` when an exponent of the difference does not
    /// fit in an `i32`.
    pub fn checked_sub(self, rhs: Dimension) -> (r: Option<Dimension>)
        ensures
            r is Some <==> self@.minus(rhs@).fits(),
            r matches Some(d) ==> d@ == self@.minus(rhs@),
    {
        if all_in_i32(
            self.L as i64 - rhs.L as i64,
            self.M as i64 - rhs.M as i64,
            self.T as i64 - rhs.T as i64,
            self.I as i64 - rhs.I as i64,
            self.Th as i64 - rhs.Th as i64,
            self.N as i64 - rhs.N as i64,
            self.J as i64 - rhs.J as i64,
        ) {
            Some(self - rhs)
        } else {
            None
        }
    }

    /// `self * rhs`, or `None` when a scaled exponent does not fit in an
    /// `i32`.
    pub fn checked_mul(self, rhs: i32) -> (r: Option<Dimension>)
        ensures
            r is Some <==> self@.scaled(rhs as int).fits(),
            r matches Some(d) ==> d@ == self@.scaled(rhs as int),
    {
        let k = rhs as i64;
        proof {
            lemma_i32_product_fits_i64(self.L, rhs);
            lemma_i32_product_fits_i64(self.M, rhs);
            lemma_i32_product_fits_i64(self.T, rhs);
            lemma_i32_product_fits_i64(self.I, rhs);
            lemma_i32_product_fits_i64(self.Th, rhs);
            lemma_i32_product_fits_i64(self.N, rhs);
            lemma_i32_product_fits_i64(self.J, rhs);
        }
        if all_in_i32(
            self.L as i64 * k,
            self.M as i64 * k,
            self.T as i64 * k,
            self.I as i64 * k,
            self.Th as i64 * k,
            self.N as i64 * k,
            self.J as i64 * k,
        ) {
            Some(self * rhs)
        } else {
            None
        }
    }

    /// `-self`, or `None` when an exponent is `i32::MIN`.
    pub fn checked_neg(self) -> (r: Option<Dimension>)
        ensures
            r is Some <==> self@.negated().fits(),
            r matches Some(d) ==> d@ == self@.negated(),
    {
        if all_in_i32(
            -(self.L as i64),
            -(self.M as i64),
            -(self.T as i64),
            -(self.I as i64),
            -(self.Th as i64),
            -(self.N as i64),
            -(self.J as i64),
        ) {
            Some(core::ops::Neg::neg(self))
        } else {
            None
        }
    }

    /// `self / rhs`, or `None` when `rhs` is zero, when some exponent is not
    /// a multiple of `rhs`, or when a quotient does not fit in an `i32`
    /// (`i32::MIN / -1`).
    pub fn checked_div(self, rhs: i32) -> (r: Option<Dimension>)
        ensures
            r is Some <==> (rhs != 0 && self@.divisible_by(rhs as int) && self@.divided(
                rhs as int,
            ).fits()),
            r matches Some(d) ==> d@ == self@.divided(rhs as int),
    {
        if rhs == 0 {
            return None;
        }
        if rhs == -1 {
            return self.checked_neg();
        }
        if checks::can_divide(self, rhs) {
            proof {
                crate::laws::law_can_divide_allows_root(self, rhs);
            }
            Some(self / rhs)
        } else {
            None
        }
    }
}

} // verus!
