//! Search support: alpha-beta helpers, candidate points, transposition
//! table, move ordering, root fallback.
pub mod alphabeta;
pub mod movegen;
pub mod ordering;
pub mod root;
pub mod root_filter;
pub mod root_window;
pub mod tt;
