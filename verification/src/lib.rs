//! Evaluation core of the Hush scripting language: a tree-walking interpreter
//! over a resolved program, with its values, its memory and its faults.
//!
//! - `program`: the resolved program tree, and what makes it well scoped;
//! - `value`, `dict`, `mem`: values, dictionaries, and the memory that holds
//!   the slot stack, the captured cells and the shared containers;
//! - `ops`, `access`: the operators, and the reading and writing of
//!   containers;
//! - `flow`, `panic`: control flow and faults;
//! - `host`: what an embedder provides;
//! - `semantics`: what it means to run a program, as functions on views;
//! - `runtime`: the evaluator, which computes what `semantics` says;
//! - `laws`: what holds of the operators and containers;
//! - `source`, `symbol`, `syntax`: positions, interned names, and the
//!   vocabulary of the front-end.

pub mod source;
pub mod symbol;
pub mod value;
pub mod dict;
pub mod program;
pub mod flow;
pub mod panic;
pub mod mem;
pub mod ops;
pub mod access;
pub mod host;
pub mod semantics;
pub mod runtime;
pub mod laws;
pub mod budget;
pub mod syntax;
