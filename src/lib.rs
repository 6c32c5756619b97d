//! Rewrites the expanded source of a contract module into a flat program
//! whose single entry function dispatches a batch of calls by selector.

pub mod text;
pub mod scanner;
pub mod selector;
pub mod sanitizer;
pub mod dispatch;
pub mod pipeline;
pub mod laws;

pub use pipeline::prepare;
