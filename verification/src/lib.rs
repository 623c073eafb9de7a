//! Dimensional analysis for physical quantities: the seven SI base-dimension
//! exponents, their arithmetic, the checks that guard it, and the named
//! dimensions of common physical quantities.
//!
//! - [`dimension`]: the [`Dimension`](dimension::Dimension) struct and its
//!   arithmetic (`+` for products, `-` for quotients, `* k` for powers,
//!   `/ k` for roots, unary `-` for reciprocals), the checks
//!   [`eq`](dimension::checks::eq) and
//!   [`can_divide`](dimension::checks::can_divide), the text renderings, and
//!   readers that recover a dimension from its text.
//! - [`quantity`]: the dimensions of named physical quantities.
//! - [`laws`]: the laws of the dimension arithmetic and its text renderings.

pub mod dimension;
pub mod laws;
pub mod quantity;
