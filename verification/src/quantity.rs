//! The dimensions of common physical quantities.
//!
//! Each function returns the [`Dimension`] of one named quantity. Base
//! quantities have a single exponent of 1; derived quantities are computed
//! from others with the dimension arithmetic (a product adds dimensions, a
//! quotient subtracts them), so that quantities built in different ways but
//! with the same exponents are the same dimension (torque and energy, for
//! example).

use vstd::prelude::*;

use crate::dimension::{Dimension, Exponents};

verus! {

/// The dimensionless quantity (a pure ratio): all exponents zero.
pub fn ratio() -> (d: Dimension)
    ensures
        d@ == Exponents::zero(),
{
    Dimension::default()
}

/// Plane angle, a dimensionless ratio.
pub fn angle() -> (d: Dimension)
    ensures
        d@ == Exponents::zero(),
{
    ratio()
}

/// Length (SI base unit: metre).
pub fn length() -> (d: Dimension)
    ensures
        d@ == Exponents::of(1, 0, 0, 0, 0, 0, 0),
{
    Dimension { L: 1, M: 0, T: 0, I: 0, Th: 0, N: 0, J: 0 }
}

/// Mass (SI base unit: kilogram).
pub fn mass() -> (d: Dimension)
    ensures
        d@ == Exponents::of(0, 1, 0, 0, 0, 0, 0),
{
    Dimension { L: 0, M: 1, T: 0, I: 0, Th: 0, N: 0, J: 0 }
}

/// Time (SI base unit: second).
pub fn time() -> (d: Dimension)
    ensures
        d@ == Exponents::of(0, 0, 1, 0, 0, 0, 0),
{
    Dimension { L: 0, M: 0, T: 1, I: 0, Th: 0, N: 0, J: 0 }
}

/// Electric current (SI base unit: ampere).
pub fn current() -> (d: Dimension)
    ensures
        d@ == Exponents::of(0, 0, 0, 1, 0, 0, 0),
{
    Dimension { L: 0, M: 0, T: 0, I: 1, Th: 0, N: 0, J: 0 }
}

/// Thermodynamic temperature (SI base unit: kelvin).
pub fn temperature() -> (d: Dimension)
    ensures
        d@ == Exponents::of(0, 0, 0, 0, 1, 0, 0),
{
    Dimension { L: 0, M: 0, T: 0, I: 0, Th: 1, N: 0, J: 0 }
}

/// Amount of substance (SI base unit: mole).
pub fn amount_of_substance() -> (d: Dimension)
    ensures
        d@ == Exponents::of(0, 0, 0, 0, 0, 1, 0),
{
    Dimension { L: 0, M: 0, T: 0, I: 0, Th: 0, N: 1, J: 0 }
}

/// Luminous intensity (SI base unit: candela).
pub fn luminous_intensity() -> (d: Dimension)
    ensures
        d@ == Exponents::of(0, 0, 0, 0, 0, 0, 1),
{
    Dimension { L: 0, M: 0, T: 0, I: 0, Th: 0, N: 0, J: 1 }
}

/// Velocity = length / time.
pub fn velocity() -> (d: Dimension)
    ensures
        d@ == Exponents::of(1, 0, -1, 0, 0, 0, 0),
{
    length() - time()
}

/// Acceleration = velocity / time.
pub fn acceleration() -> (d: Dimension)
    ensures
        d@ == Exponents::of(1, 0, -2, 0, 0, 0, 0),
{
    velocity() - time()
}

/// Jerk = acceleration / time.
pub fn jerk() -> (d: Dimension)
    ensures
        d@ == Exponents::of(1, 0, -3, 0, 0, 0, 0),
{
    acceleration() - time()
}

/// Angular velocity = angle / time.
pub fn angular_velocity() -> (d: Dimension)
    ensures
        d@ == Exponents::of(0, 0, -1, 0, 0, 0, 0),
{
    angle() - time()
}

/// Angular acceleration = angular velocity / time.
pub fn angular_acceleration() -> (d: Dimension)
    ensures
        d@ == Exponents::of(0, 0, -2, 0, 0, 0, 0),
{
    angular_velocity() - time()
}

/// Angular jerk = angular acceleration / time.
pub fn angular_jerk() -> (d: Dimension)
    ensures
        d@ == Exponents::of(0, 0, -3, 0, 0, 0, 0),
{
    angular_acceleration() - time()
}

/// Area = length * length.
pub fn area() -> (d: Dimension)
    ensures
        d@ == Exponents::of(2, 0, 0, 0, 0, 0, 0),
{
    length() + length()
}

/// Volume = area * length.
pub fn volume() -> (d: Dimension)
    ensures
        d@ == Exponents::of(3, 0, 0, 0, 0, 0, 0),
{
    area() + length()
}

/// Moment of inertia = mass * area.
pub fn moment_of_inertia() -> (d: Dimension)
    ensures
        d@ == Exponents::of(2, 1, 0, 0, 0, 0, 0),
{
    mass() + area()
}

/// Angular momentum = angular velocity * moment of inertia.
pub fn angular_momentum() -> (d: Dimension)
    ensures
        d@ == Exponents::of(2, 1, -1, 0, 0, 0, 0),
{
    angular_velocity() + moment_of_inertia()
}

/// Electric charge = current * time.
pub fn charge() -> (d: Dimension)
    ensures
        d@ == Exponents::of(0, 0, 1, 1, 0, 0, 0),
{
    current() + time()
}

/// Density = mass / volume.
pub fn density() -> (d: Dimension)
    ensures
        d@ == Exponents::of(-3, 1, 0, 0, 0, 0, 0),
{
    mass() - volume()
}

/// Force = mass * acceleration.
pub fn force() -> (d: Dimension)
    ensures
        d@ == Exponents::of(1, 1, -2, 0, 0, 0, 0),
{
    mass() + acceleration()
}

/// Energy = force * length.
pub fn energy() -> (d: Dimension)
    ensures
        d@ == Exponents::of(2, 1, -2, 0, 0, 0, 0),
{
    force() + length()
}

/// Torque = force * length (the same dimension as energy).
pub fn torque() -> (d: Dimension)
    ensures
        d@ == Exponents::of(2, 1, -2, 0, 0, 0, 0),
{
    force() + length()
}

/// Frequency = 1 / time.
pub fn frequency() -> (d: Dimension)
    ensures
        d@ == Exponents::of(0, 0, -1, 0, 0, 0, 0),
{
    ratio() - time()
}

/// Momentum = mass * velocity.
pub fn momentum() -> (d: Dimension)
    ensures
        d@ == Exponents::of(1, 1, -1, 0, 0, 0, 0),
{
    mass() + velocity()
}

/// Voltage = energy / current.
pub fn voltage() -> (d: Dimension)
    ensures
        d@ == Exponents::of(2, 1, -2, -1, 0, 0, 0),
{
    energy() - current()
}

/// Power = voltage * current.
pub fn power() -> (d: Dimension)
    ensures
        d@ == Exponents::of(2, 1, -2, 0, 0, 0, 0),
{
    voltage() + current()
}

/// Pressure = force / area.
pub fn pressure() -> (d: Dimension)
    ensures
        d@ == Exponents::of(-1, 1, -2, 0, 0, 0, 0),
{
    force() - area()
}

/// Electrical resistance = voltage / current.
pub fn resistance() -> (d: Dimension)
    ensures
        d@ == Exponents::of(2, 1, -2, -2, 0, 0, 0),
{
    voltage() - current()
}

} // verus!
