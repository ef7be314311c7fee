//! A small chess engine core: a static evaluator and an incremental,
//! randomised game-tree search, together with a reverse-mode automatic
//! differentiation toolkit built from composable function nodes.
use vstd::prelude::*;

pub mod composition;
pub mod differentiable;
pub mod elementary;
pub mod evaluation;
pub mod function;
pub mod history;
pub mod notation;
pub mod position;
pub mod score;
pub mod search;

verus! {

} // verus!
