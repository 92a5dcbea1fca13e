//! The processing capability: a handler from an input to an outcome. The
//! crate consumes this seam — business logic implements it — so no contract
//! is imposed on what a processor returns.

use vstd::prelude::*;

verus! {

/// A processing stage from `In` to `Out`.
pub trait Processor<In, Out> {
    /// Process one input.
    fn process(&self, input: In) -> Out;
}

} // verus!
