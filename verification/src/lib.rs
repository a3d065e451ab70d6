//! Request-handling logic of a small key/value web service whose items live in a
//! bounded least-recently-used cache.

pub mod ads;
pub mod cache;
pub mod laws;
pub mod random;
pub mod service;
pub mod text;
