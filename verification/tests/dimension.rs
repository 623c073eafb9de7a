use mensura::dimension::checks::{can_divide, eq};
use mensura::dimension::Dimension;
use mensura::quantity;

fn dim(l: i32, m: i32, t: i32, i: i32, th: i32, n: i32, j: i32) -> Dimension {
    Dimension { L: l, M: m, T: t, I: i, Th: th, N: n, J: j }
}

#[test]
fn default_is_dimensionless() {
    assert!(Dimension::default() == dim(0, 0, 0, 0, 0, 0, 0));
    assert!(quantity::ratio() == Dimension::default());
    assert!(quantity::angle() == Dimension::default());
}

#[test]
fn doc_example_constants() {
    let velocity = Dimension { L: 1, T: -1, ..Dimension::default() };
    let force = Dimension { L: 1, M: 1, T: -2, ..Dimension::default() };
    assert!(velocity == quantity::velocity());
    assert!(force == quantity::force());
}

#[test]
fn add_is_elementwise() {
    let a = dim(1, 2, 3, 4, 5, 6, 7);
    let b = dim(-1, 0, 2, -3, 1, 1, -7);
    assert!(a + b == dim(0, 2, 5, 1, 6, 7, 0));
}

#[test]
fn sub_is_elementwise() {
    let a = dim(1, 2, 3, 4, 5, 6, 7);
    let b = dim(-1, 0, 2, -3, 1, 1, -7);
    assert!(a - b == dim(2, 2, 1, 7, 4, 5, 14));
}

#[test]
fn mul_scales_every_exponent() {
    let a = dim(1, -2, 3, 0, 1, -1, 2);
    assert!(a * 3 == dim(3, -6, 9, 0, 3, -3, 6));
    assert!(a * -2 == dim(-2, 4, -6, 0, -2, 2, -4));
}

#[test]
fn div_divides_every_exponent() {
    let a = dim(4, -6, 2, 0, -2, 8, 10);
    assert!(a / 2 == dim(2, -3, 1, 0, -1, 4, 5));
    assert!(a / -2 == dim(-2, 3, -1, 0, 1, -4, -5));
}

#[test]
fn neg_negates_every_exponent() {
    let a = dim(1, -2, 3, 0, 1, -1, 2);
    assert!(-a == dim(-1, 2, -3, 0, -1, 1, -2));
}

#[test]
fn extreme_exponents() {
    let a = dim(i32::MAX, i32::MIN, 0, 0, 0, 0, 0);
    assert!(a + Dimension::default() == a);
    assert!(a / 1 == a);
    assert!(can_divide(a, 1));
    assert!(!can_divide(a, 3));
    assert!(can_divide(dim(i32::MIN, 0, 0, 0, 0, 0, 0), 2));
}

#[test]
fn eq_matches_equality() {
    assert!(eq(quantity::energy(), quantity::torque()));
    assert!(!eq(quantity::energy(), quantity::force()));
    let a = dim(1, 2, 3, 4, 5, 6, 7);
    assert!(eq(a, a));
    assert!(!eq(a, dim(1, 2, 3, 4, 5, 6, 8)));
    assert!(!eq(a, dim(0, 2, 3, 4, 5, 6, 7)));
}

#[test]
fn can_divide_checks_every_exponent() {
    assert!(can_divide(quantity::area(), 2));
    assert!(!can_divide(quantity::velocity(), 2));
    assert!(can_divide(quantity::volume(), 3));
    assert!(!can_divide(quantity::volume(), 2));
    assert!(can_divide(dim(0, 0, 0, 0, 0, 0, 6), -3));
    assert!(!can_divide(dim(0, 0, 0, 0, 0, 0, 7), -3));
    assert!(can_divide(Dimension::default(), 5));
}

#[test]
fn same_dimension_same_value() {
    // Torque and energy are the same dimension.
    assert!(quantity::torque() == quantity::energy());
    // Times<Force, Length> == Times<Mass, Times<Acceleration, Length>>
    let a = quantity::force() + quantity::length();
    let b = quantity::mass() + (quantity::acceleration() + quantity::length());
    assert!(a == b);
    assert!(a == dim(2, 1, -2, 0, 0, 0, 0));
}

#[test]
fn combinator_examples() {
    // Per<Length, Time> is a velocity.
    assert!(quantity::length() - quantity::time() == quantity::velocity());
    // Raise<Length, 2> is an area, Raise<Length, 3> a volume.
    assert!(quantity::length() * 2 == quantity::area());
    assert!(quantity::length() * 3 == quantity::volume());
    // Root<Area, 2> is a length.
    assert!(quantity::area() / 2 == quantity::length());
    // Inverse<Time> is a frequency.
    assert!(quantity::ratio() - quantity::time() == quantity::frequency());
    assert!(-quantity::time() == quantity::frequency());
    // Per<Raise<Length, 3>, Mass> (specific volume).
    assert!(quantity::length() * 3 - quantity::mass() == dim(3, -1, 0, 0, 0, 0, 0));
}

#[test]
fn named_dimensions() {
    assert!(quantity::length() == dim(1, 0, 0, 0, 0, 0, 0));
    assert!(quantity::mass() == dim(0, 1, 0, 0, 0, 0, 0));
    assert!(quantity::time() == dim(0, 0, 1, 0, 0, 0, 0));
    assert!(quantity::current() == dim(0, 0, 0, 1, 0, 0, 0));
    assert!(quantity::temperature() == dim(0, 0, 0, 0, 1, 0, 0));
    assert!(quantity::amount_of_substance() == dim(0, 0, 0, 0, 0, 1, 0));
    assert!(quantity::luminous_intensity() == dim(0, 0, 0, 0, 0, 0, 1));
    assert!(quantity::acceleration() == dim(1, 0, -2, 0, 0, 0, 0));
    assert!(quantity::jerk() == dim(1, 0, -3, 0, 0, 0, 0));
    assert!(quantity::angular_velocity() == dim(0, 0, -1, 0, 0, 0, 0));
    assert!(quantity::angular_acceleration() == dim(0, 0, -2, 0, 0, 0, 0));
    assert!(quantity::angular_jerk() == dim(0, 0, -3, 0, 0, 0, 0));
    assert!(quantity::moment_of_inertia() == dim(2, 1, 0, 0, 0, 0, 0));
    assert!(quantity::angular_momentum() == dim(2, 1, -1, 0, 0, 0, 0));
    assert!(quantity::charge() == dim(0, 0, 1, 1, 0, 0, 0));
    assert!(quantity::density() == dim(-3, 1, 0, 0, 0, 0, 0));
    assert!(quantity::momentum() == dim(1, 1, -1, 0, 0, 0, 0));
    assert!(quantity::voltage() == dim(2, 1, -2, -1, 0, 0, 0));
    assert!(quantity::power() == dim(2, 1, -2, 0, 0, 0, 0));
    assert!(quantity::pressure() == dim(-1, 1, -2, 0, 0, 0, 0));
    assert!(quantity::resistance() == dim(2, 1, -2, -2, 0, 0, 0));
}

#[test]
fn unit_string_examples() {
    assert_eq!(quantity::velocity().unit_string(), "m\u{b7}s^-1");
    assert_eq!(quantity::force().unit_string(), "m\u{b7}kg\u{b7}s^-2");
    assert_eq!(quantity::length().unit_string(), "m");
    assert_eq!(quantity::ratio().unit_string(), "");
    assert_eq!(quantity::density().unit_string(), "m^-3\u{b7}kg");
    assert_eq!(dim(0, 0, 0, 1, 1, 1, 1).unit_string(), "A\u{b7}K\u{b7}mol\u{b7}cd");
    assert_eq!(dim(10, 0, 0, 0, 0, 0, 0).unit_string(), "m^10");
    assert_eq!(dim(0, 0, -123, 0, 0, 0, 0).unit_string(), "s^-123");
    assert_eq!(dim(i32::MIN, 0, 0, 0, 0, 0, i32::MAX).unit_string(), "m^-2147483648\u{b7}cd^2147483647");
}

#[test]
fn exponent_string_examples() {
    assert_eq!(quantity::velocity().exponent_string(), "L=1, T=-1");
    assert_eq!(quantity::force().exponent_string(), "L=1, M=1, T=-2");
    assert_eq!(quantity::ratio().exponent_string(), "");
    assert_eq!(quantity::temperature().exponent_string(), "Th=1");
    assert_eq!(dim(0, 0, 0, 0, 0, -20, 305).exponent_string(), "N=-20, J=305");
}

#[test]
fn law_examples_add() {
    let a = dim(1, -2, 3, 0, 1, -1, 2);
    let b = dim(4, 0, -1, 2, 0, 3, -5);
    let c = dim(-3, 7, 0, 1, 1, 0, 9);
    assert!(a + b == b + a);
    assert!((a + b) + c == a + (b + c));
    assert!(a + Dimension::default() == a);
    assert!(a - Dimension::default() == a);
    assert!(a - a == Dimension::default());
    assert!(a - b == a + (-b));
    assert!(Dimension::default() - a == -a);
    assert!(-(-a) == a);
    assert!((a - b) + b == a);
}

#[test]
fn law_examples_powers_and_roots() {
    let a = dim(1, -2, 3, 0, 1, -1, 2);
    assert!(a * 1 == a);
    assert!(a * 0 == Dimension::default());
    assert!(a * 2 + a * 3 == a * 5);
    assert!((a * 2) * 3 == a * 6);
    assert!(can_divide(a * 4, 4));
    assert!((a * 4) / 4 == a);
    assert!((a * -3) / -3 == a);
    let b = dim(6, -12, 0, 3, 9, -3, 0);
    assert!(can_divide(b, 3));
    assert!((b / 3) * 3 == b);
    assert!(b / 1 == b);
}

#[test]
fn law_examples_text_empty() {
    assert!(Dimension::default().unit_string().is_empty());
    assert!(Dimension::default().exponent_string().is_empty());
    assert!(!quantity::time().unit_string().is_empty());
    assert!(!quantity::time().exponent_string().is_empty());
}

#[test]
fn checked_operations_succeed() {
    let a = dim(1, -2, 3, 0, 1, -1, 2);
    let b = dim(4, 0, -1, 2, 0, 3, -5);
    assert!(a.checked_add(b) == Some(dim(5, -2, 2, 2, 1, 2, -3)));
    assert!(a.checked_sub(b) == Some(dim(-3, -2, 4, -2, 1, -4, 7)));
    assert!(a.checked_mul(-3) == Some(dim(-3, 6, -9, 0, -3, 3, -6)));
    assert!(a.checked_neg() == Some(dim(-1, 2, -3, 0, -1, 1, -2)));
    assert!(dim(4, -6, 2, 0, -2, 8, 10).checked_div(2) == Some(dim(2, -3, 1, 0, -1, 4, 5)));
    assert!(dim(4, -6, 2, 0, -2, 8, 10).checked_div(-1) == Some(dim(-4, 6, -2, 0, 2, -8, -10)));
}

#[test]
fn checked_operations_refuse() {
    let big = dim(0, 0, 0, 0, 0, 0, i32::MAX);
    let small = dim(0, 0, 0, 0, 0, i32::MIN, 0);
    assert!(big.checked_add(quantity::luminous_intensity()).is_none());
    assert!(small.checked_sub(quantity::amount_of_substance()).is_none());
    assert!(big.checked_mul(2).is_none());
    assert!(small.checked_mul(-1).is_none());
    assert!(small.checked_neg().is_none());
    assert!(small.checked_div(-1).is_none());
    assert!(quantity::velocity().checked_div(0).is_none());
    assert!(quantity::velocity().checked_div(2).is_none());
    assert!(small.checked_div(2) == Some(dim(0, 0, 0, 0, 0, -1073741824, 0)));
    assert!(big.checked_neg() == Some(dim(0, 0, 0, 0, 0, 0, -i32::MAX)));
}
