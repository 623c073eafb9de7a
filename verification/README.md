# mensura

Dimensional analysis for physical quantities, verified with Verus.

- `src/` is the verified library: the `Dimension` type (seven SI
  base-dimension exponents) with its arithmetic (`+`, `-`, `* k`, `/ k`,
  unary `-`, and checked variants), the checks `eq` and `can_divide`, the SI
  unit string and exponent listing of a dimension, the dimensions of named
  quantities (`quantity::velocity()`, `quantity::force()`, ...), and the
  algebraic laws of the arithmetic (`src/laws.rs`).
- `app/` holds the `f64`-valued `Quantity` type and the unit conversion
  constants, which use floating point and therefore are not verified; every
  dimension rule they apply is a call into the library.
- `tests/` exercises the library on concrete values.
