//! Decimal digits of the primitive integers, and of decimal text.

pub mod buffer;
pub mod decimal;
pub mod float;
pub mod integer;
pub mod text;

pub use float::{digits_after_dot, FloatDigits, FloatParts};
pub use integer::Digits;
pub use text::stringable_to_digits;
