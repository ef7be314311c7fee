//! A handle around a differentiable function, with composition.
use vstd::prelude::*;
use crate::composition::Chain;
use crate::differentiable::AutoDiff;

verus! {

/// A differentiable function, wrapped for composition.
#[derive(Default)]
pub struct Function<F>(pub F);

impl<F> Function<F> {
    /// The value at `x`.
    pub fn y<I>(&self, x: &I) -> (r: F::Output) where F: AutoDiff<I>
        ensures
            r == self.0.value(*x),
    {
        self.0.y(x)
    }

    /// The value at `x`, recording local derivatives.
    pub fn forward<I>(&mut self, x: &I) -> (r: F::Output) where F: AutoDiff<I>
        ensures
            r == old(self).0.value(*x),
            forall|z: I| #[trigger] final(self).0.value(z) == old(self).0.value(z),
    {
        self.0.forward(x)
    }

    /// The loss gradient with respect to the input of the last forward pass.
    pub fn backward<I>(&mut self, x: &F::Output) -> (r: I) where F: AutoDiff<I>
        ensures
            r == old(self).0.pullback(*x),
            forall|z: I| #[trigger] final(self).0.value(z) == old(self).0.value(z),
    {
        self.0.backward(x)
    }

    /// Clears what the last forward pass recorded.
    pub fn zero_grad<I>(&mut self) where F: AutoDiff<I>
        ensures
            forall|z: I| #[trigger] final(self).0.value(z) == old(self).0.value(z),
    {
        self.0.zero_grad()
    }

    /// This function after `g`.
    pub fn of<G>(self, g: Function<G>) -> (r: Function<Chain<G, F>>)
        ensures
            r.0.0 == g.0,
            r.0.1 == self.0,
    {
        Function(Chain::new(g.0, self.0))
    }
}

} // verus!
