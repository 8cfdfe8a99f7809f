//! A generator of math-library routines: polynomial approximations of the
//! trigonometric functions, fitted in arbitrary-precision decimal arithmetic,
//! quantized to exact bit patterns and rendered as source text.

pub mod approx;
pub mod bigint;
pub mod emit;
pub mod error;
pub mod expr;
pub mod fixed;
pub mod number;
pub mod trig;
pub mod quantize;
pub mod render;
pub mod rounding;
pub mod semantics;
pub mod visitor;
