//! Helpers shared across the library.

pub mod text;
pub mod validation;
