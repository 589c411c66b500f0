//! A tree-walking interpreter for a small language: expressions double as
//! runtime values, statements run against a scoped environment of frames,
//! and every evaluation and execution step is proved to follow the semantics
//! stated over mathematical models in `semantics`.
pub mod ast;
pub mod copy;
pub mod environment;
pub mod harness;
pub mod interpreter;
pub mod laws;
pub mod lemmas;
pub mod model;
pub mod operators;
pub mod rational;
pub mod semantics;
