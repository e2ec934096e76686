//! Line pattern recognition.

pub mod line;
pub mod shapes;
