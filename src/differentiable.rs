//! Functions that can be evaluated, and differentiated by recording local
//! derivatives on a forward pass and chaining them on a backward pass.
use vstd::prelude::*;

verus! {

/// A differentiable function from `Input` to `Output`.
pub trait AutoDiff<Input> {
    type Output;

    /// The function's value at `x`.
    spec fn value(&self, x: Input) -> Self::Output;

    /// The input gradient that `backward` gives for the output gradient
    /// `dl_dy`, from what the last forward pass recorded.
    spec fn pullback(&self, dl_dy: Self::Output) -> Input;

    /// The value at `x`, recording nothing.
    fn y(&self, x: &Input) -> (r: Self::Output)
        ensures
            r == self.value(*x),
    ;

    /// Clears what the last forward pass recorded; the function's values
    /// stay as they were.
    fn zero_grad(&mut self)
        ensures
            forall|z: Input| #[trigger] final(self).value(z) == old(self).value(z),
    ;

    /// The value at `x`, recording the local derivatives for `backward`.
    fn forward(&mut self, x: &Input) -> (r: Self::Output)
        ensures
            r == old(self).value(*x),
            forall|z: Input| #[trigger] final(self).value(z) == old(self).value(z),
    ;

    /// Given the loss gradient with respect to the output, the loss
    /// gradient with respect to the input of the last forward pass.
    fn backward(&mut self, dl_dy: &Self::Output) -> (r: Input)
        ensures
            r == old(self).pullback(*dl_dy),
            forall|z: Input| #[trigger] final(self).value(z) == old(self).value(z),
    ;
}

/// The identity function.
#[derive(Default)]
pub struct Identity;

impl<I: Copy> AutoDiff<I> for Identity {
    type Output = I;

    open spec fn value(&self, x: I) -> I {
        x
    }

    open spec fn pullback(&self, dl_dy: I) -> I {
        dl_dy
    }

    fn y(&self, x: &I) -> I {
        *x
    }

    fn zero_grad(&mut self) {
    }

    fn forward(&mut self, x: &I) -> I {
        *x
    }

    fn backward(&mut self, dl_dy: &I) -> I {
        *dl_dy
    }
}

} // verus!
