//! Special forms and application.
pub mod control;
pub mod immediate;
pub mod query;
