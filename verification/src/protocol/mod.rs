//! Gomocup protocol support.
pub mod gomocup;
pub mod tokens;
