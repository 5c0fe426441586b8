//! Optimizer configuration.
//!
//! The stochastic-gradient-descent update itself multiplies gradients by
//! the learning rate — single-precision work that runs outside this
//! crate.  What belongs to the core is the configuration surface the
//! optimizers share.

use vstd::prelude::*;

verus! {

/// Configuration shared by every optimizer.  The base optimizer takes no
/// parameters of its own; concrete optimizers extend this with their own
/// parameter set, such as a learning rate.
pub struct OptimizerParams {}

impl OptimizerParams {
    /// An empty parameter set.
    pub fn new() -> (p: OptimizerParams)
        ensures
            p == (OptimizerParams {}),
    {
        OptimizerParams {}
    }
}

} // verus!
