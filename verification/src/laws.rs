//! What holds of the library as a whole.
//!
//! The contracts of the machines say what one step does. The modules here say
//! what the steps add up to: the values of expressions, of calls, of searches
//! and of loops.
pub mod running;
pub mod meaning;
pub mod applying;
pub mod naming;
pub mod numbers;
pub mod kinds;
pub mod currying;
pub mod folding;
pub mod searching;
pub mod lists;
pub mod states;
pub mod branching;
pub mod alternatives;
pub mod functions;
pub mod continuing;
pub mod forms;
pub mod control;
pub mod sequencing;
pub mod checking;
pub mod cases;
pub mod walking;
pub mod looping;
pub mod spaces;
pub mod compact;
pub mod generating;
pub mod querying;
pub mod matching;
pub mod gathering;
pub mod dispatching;
pub mod typing;
pub mod nesting;
pub mod combining;
pub mod invoking;
