//! A four-function calculator core: an input buffer that accumulates one
//! operand's textual form, and an expression engine that converts a flat
//! infix token sequence to postfix (RPN) order by operator precedence and
//! reduces it to a single numeric result.
//!
//! Numbers are exact rationals over machine integers; a value whose
//! denominator is zero stands for an overflowed or undefined result, the
//! role that infinity and NaN play in floating point.

pub mod dentaku_input;
pub mod error;
pub mod model;
pub mod number;
pub mod rpn;
pub mod state;
