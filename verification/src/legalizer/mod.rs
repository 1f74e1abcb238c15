//! Legalization: rewriting instructions that no target has into ones that
//! targets have.

pub mod expansion;
pub mod globalvalue;

pub use crate::legalizer::expansion::expand_global_values;
pub use crate::legalizer::globalvalue::expand_global_value;
