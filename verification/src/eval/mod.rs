//! Evaluation caches.
pub mod caches;
pub mod local;
