//! Helpers shared by the evaluators.
pub mod closure;
pub mod env;
pub mod fresh;
pub mod pattern;
pub mod subst;
pub mod value;
