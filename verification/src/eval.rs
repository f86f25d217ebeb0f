//! The evaluator.
//!
//! - `machine` contains execution state and stepping logic
//! - `forms` contains helpers for surface-form semantics
//! - `shared` contains reusable evaluator helpers
//! - `walker` evaluates by walking over expressions
pub mod forms;
pub mod io;
pub mod lines;
pub mod machine;
pub mod python;
pub mod runtime;
pub mod shared;
pub mod walker;
