//! A soundness checker for code regions that operate outside the host
//! language's automatic safety guarantees ("sensitive operations").
//!
//! For every function whose body contains such an operation, the engine walks
//! the function's control-flow graph, tracks an abstract program state along
//! each explored path, evaluates the safety contracts registered for each
//! sensitive call site against that state, and aggregates per-call results
//! that tell Satisfied, Violated and Unknown apart.

pub mod body;
pub mod checker;
pub mod contracts;
pub mod facts;
pub mod laws;
pub mod matcher;
pub mod program;
pub mod state;
pub mod visitor;
