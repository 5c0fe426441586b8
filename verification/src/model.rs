//! The model plan: an ordered, non-empty stack of layer plans whose
//! widths chain, so that the output of each layer is exactly what the
//! next layer consumes.  A forward pass that follows a well-formed plan
//! turns a vector of the first layer's input size into one of the last
//! layer's output size; a backward pass threads the gradients through the
//! same widths in reverse.

use crate::layer::{chained, LayerConfig};
use vstd::prelude::*;

verus! {

/// The plan of a whole model.
pub struct ModelPlan {
    /// The layer plans, in forward order.
    pub layers: Vec<LayerConfig>,
}

impl ModelPlan {
    /// The model invariant: at least one layer, and consecutive layers
    /// fit together.
    pub open spec fn wf(self) -> bool {
        &&& self.layers@.len() > 0
        &&& chained(self.layers@)
    }

    /// Builds a model plan from a stack of layers.  A gap between two
    /// consecutive widths is a caller bug and is ruled out up front.
    pub fn new(layers: Vec<LayerConfig>) -> (m: ModelPlan)
        requires
            layers@.len() > 0,
            chained(layers@),
        ensures
            m.wf(),
            m.layers@ == layers@,
    {
        ModelPlan { layers }
    }

    /// The vector length the model consumes: the first layer's input
    /// size.
    pub fn input_size(&self) -> (r: usize)
        requires
            self.wf(),
        ensures
            r == self.layers@[0].i_size,
    {
        self.layers[0].i_size
    }

    /// The vector length the model produces: the last layer's output
    /// size.  The one-hot label vector of a training sample must have
    /// exactly this length.
    pub fn output_size(&self) -> (r: usize)
        requires
            self.wf(),
        ensures
            r == self.layers@.last().o_size,
    {
        self.layers[self.layers.len() - 1].o_size
    }

    /// How many layers the model has.
    pub fn len(&self) -> (r: usize)
        ensures
            r == self.layers@.len(),
    {
        self.layers.len()
    }
}

/// Builds a model plan from a stack of layers.
pub fn create_model(layers: Vec<LayerConfig>) -> (m: ModelPlan)
    requires
        layers@.len() > 0,
        chained(layers@),
    ensures
        m.wf(),
        m.layers@ == layers@,
{
    ModelPlan::new(layers)
}

} // verus!
