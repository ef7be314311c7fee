//! Combinators that build functions out of other functions.
use vstd::prelude::*;
use crate::differentiable::AutoDiff;

verus! {

/// `Chain(f, g)` is `g` after `f`.
#[derive(Default)]
pub struct Chain<F, G>(pub F, pub G);

impl<I, F, G> AutoDiff<I> for Chain<F, G> where F: AutoDiff<I>, G: AutoDiff<F::Output> {
    type Output = G::Output;

    open spec fn value(&self, x: I) -> G::Output {
        self.1.value(self.0.value(x))
    }

    /// The chain rule: the outer function's gradient pulled back through
    /// the inner one.
    open spec fn pullback(&self, dl_dy: G::Output) -> I {
        self.0.pullback(self.1.pullback(dl_dy))
    }

    fn y(&self, x: &I) -> G::Output {
        self.1.y(&self.0.y(x))
    }

    fn zero_grad(&mut self) {
        self.0.zero_grad();
        self.1.zero_grad();
    }

    fn forward(&mut self, x: &I) -> G::Output {
        let inner = self.0.forward(x);
        self.1.forward(&inner)
    }

    fn backward(&mut self, dl_dy: &G::Output) -> I {
        let mid = self.1.backward(dl_dy);
        self.0.backward(&mid)
    }
}

impl<F, G> Chain<F, G> {
    /// `g` after `f`.
    pub fn new(f: F, g: G) -> (r: Self)
        ensures
            r.0 == f,
            r.1 == g,
    {
        Chain(f, g)
    }
}

/// A chain evaluates the outer function at the inner one's value, and its
/// backward pass pulls the gradient back through the outer function first
/// and then through the inner one.
pub proof fn lemma_chain_rule<I, F, G>(c: Chain<F, G>, x: I, d: G::Output) where
    F: AutoDiff<I>,
    G: AutoDiff<F::Output>,

    ensures
        c.value(x) == c.1.value(c.0.value(x)),
        c.pullback(d) == c.0.pullback(c.1.pullback(d)),
{
}

/// `Add(f, g)` is the pointwise sum of `f` and `g`.
#[derive(Default)]
pub struct Add<F, G>(pub F, pub G);

impl<F, G> Add<F, G> {
    /// The sum of `f` and `g`.
    pub fn new(f: F, g: G) -> (r: Self)
        ensures
            r.0 == f,
            r.1 == g,
    {
        Add(f, g)
    }
}

} // verus!
