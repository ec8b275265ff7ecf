//! Check digits for Sierra integrated-library-system record numbers.
//!
//! A record number is seven decimal digits. Its check digit is the weighted
//! sum of those digits modulo eleven, written `x` when the remainder is ten.
//! A full record number may carry a one-character record-type prefix and
//! ends with its check digit.

pub mod check_digit;
pub mod sierra;
mod text;

pub use check_digit::get_check_digit;
pub use sierra::{add_check_digit, is_numeric, validate, InvalidSierraNumber};
