use vstd::prelude::*;

pub mod argtree;
pub mod argument_tree;
pub mod commands;
pub mod control;
pub mod error;
pub mod grammar;
pub mod header;
pub mod parser;
pub mod program;
pub mod sample;
pub mod stansummary;
pub mod statements;
pub mod text;
pub mod translate;
pub mod tree;
pub mod unify;
pub mod variational;
mod sealed;

verus! {
} // verus!
