//! Core of an interactive viewer for structured distributed-systems logs.
//!
//! Log lines carry a nested value literal (the payload); a small query
//! language with a boolean-predicate evaluator walks those payloads, and
//! filter / navigation / pagination state keep the operator's view of the
//! match set consistent.  Everything here is verified; terminal rendering
//! and file handling live outside this crate.

pub mod abstract_object;
pub mod app;
pub mod dsl;
pub mod err;
pub mod event;
pub mod text;
pub mod ui;

pub use err::AppError;
