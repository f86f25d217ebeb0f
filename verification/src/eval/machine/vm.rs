//! The bytecode machine.
pub mod bodies;
pub mod call;
pub mod calling;
pub mod compiler;
pub mod frames;
pub mod iterate;
pub mod op;
pub mod outcome;
pub mod plain;
pub mod resume;
pub mod run;
pub mod search;
pub mod state;
