//! Markers for the elementary functions of one real variable.
use vstd::prelude::*;

verus! {

/// Negation.
#[derive(Default, Clone, Copy, Debug)]
pub struct Neg;

/// Cosine.
#[derive(Default, Clone, Copy, Debug)]
pub struct Cos;

/// Sine.
#[derive(Default, Clone, Copy, Debug)]
pub struct Sin;

/// The exponential.
#[derive(Default, Clone, Copy, Debug)]
pub struct Exp;

/// The reciprocal.
#[derive(Default, Clone, Copy, Debug)]
pub struct Reciprocol;

} // verus!
