//! An evaluator for MeTTa programs.
pub mod atom;
pub mod builtins;
pub mod compile;
pub mod env;
pub mod eval;
pub mod expr;
pub mod func;
pub mod laws;
pub mod math_extra;
pub mod names;
pub mod numeric;
pub mod parser;
pub mod round_trip;
pub mod space;
pub mod text;
