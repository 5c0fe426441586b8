//! Layer plans: the shape and kind of each layer of the network.
//!
//! A layer's numeric work (its forward and backward passes) runs on
//! single-precision values outside this crate; what the engine must get
//! right beforehand is the plan those passes follow — input and output
//! sizes, the activation a fully-connected layer was configured with, and
//! how consecutive layers chain.  That plan is built and checked here.

use vstd::prelude::*;

verus! {

/// The activation a fully-connected layer applies to each pre-activation
/// value.
#[derive(Clone, Copy, Debug, PartialEq, Eq, Structural)]
pub enum Activation {
    Identity,
    Relu,
    Sigmoid,
}

/// Which activation a configuration name selects: `"relu"` and
/// `"sigmoid"` name themselves, anything else selects the identity.
pub open spec fn spec_parse_activation(name: Seq<char>) -> Activation {
    if name == "relu"@ {
        Activation::Relu
    } else if name == "sigmoid"@ {
        Activation::Sigmoid
    } else {
        Activation::Identity
    }
}

/// Binds an activation-kind name to the activation it selects.
pub fn parse_activation(name: &str) -> (a: Activation)
    ensures
        a == spec_parse_activation(name@),
{
    let owned: String = name.to_owned();
    if owned == "relu".to_owned() {
        Activation::Relu
    } else if owned == "sigmoid".to_owned() {
        Activation::Sigmoid
    } else {
        Activation::Identity
    }
}

/// The two layer variants of the engine.
#[derive(Clone, Copy, Debug, PartialEq, Eq, Structural)]
pub enum LayerKind {
    /// A dense layer: weights, biases and a configured activation.
    FullyConnected { activation: Activation },
    /// A softmax layer: no learnable parameters.
    Softmax,
}

/// The plan of one layer: how wide it is on each side and which variant
/// it is.
#[derive(Clone, Copy, Debug, PartialEq, Eq, Structural)]
pub struct LayerConfig {
    /// Length of the vector the layer consumes.
    pub i_size: usize,
    /// Length of the vector the layer produces.
    pub o_size: usize,
    /// Which variant the layer is.
    pub kind: LayerKind,
}

impl LayerConfig {
    /// Plans a fully-connected layer of the given widths and activation.
    pub fn new_fully_connected(i_size: usize, o_size: usize, activation: Activation) -> (c:
        LayerConfig)
        ensures
            c == (LayerConfig {
                i_size,
                o_size,
                kind: LayerKind::FullyConnected { activation },
            }),
    {
        LayerConfig { i_size, o_size, kind: LayerKind::FullyConnected { activation } }
    }

    /// Plans a softmax layer of the given widths.
    pub fn new_softmax(i_size: usize, o_size: usize) -> (c: LayerConfig)
        ensures
            c == (LayerConfig { i_size, o_size, kind: LayerKind::Softmax }),
    {
        LayerConfig { i_size, o_size, kind: LayerKind::Softmax }
    }

    /// How many weights the layer owns: one row of `i_size` weights per
    /// output unit, stored row-major.
    pub fn weight_len(&self) -> (r: usize)
        requires
            self.i_size * self.o_size <= usize::MAX,
        ensures
            r == self.i_size * self.o_size,
    {
        self.i_size * self.o_size
    }

    /// How many biases the layer owns: one per output unit.  Gradient
    /// buffers mirror the weight and bias buffers, so these two lengths
    /// fix every buffer shape of the layer.
    pub fn bias_len(&self) -> (r: usize)
        ensures
            r == self.o_size,
    {
        self.o_size
    }
}

/// Consecutive layers fit together: each layer produces exactly the vector
/// the next one consumes.
pub open spec fn chained(layers: Seq<LayerConfig>) -> bool {
    forall|k: int| 0 <= k < layers.len() - 1 ==> layers[k].o_size == layers[k + 1].i_size
}

/// Plans the layer stack of a network: one fully-connected layer between
/// each pair of consecutive widths in `layer_sizes`, all with the same
/// activation, and, when asked, a final square softmax layer over the last
/// width.  The resulting stack always chains.
pub fn create_layers(layer_sizes: &Vec<usize>, activation: Activation, use_softmax: bool) -> (r:
    Vec<LayerConfig>)
    requires
        layer_sizes@.len() >= 1,
    ensures
        r@.len() == layer_sizes@.len() - 1 + (if use_softmax { 1int } else { 0int }),
        forall|k: int| 0 <= k < layer_sizes@.len() - 1 ==> r@[k] == (LayerConfig {
            i_size: layer_sizes@[k],
            o_size: layer_sizes@[k + 1],
            kind: LayerKind::FullyConnected { activation },
        }),
        use_softmax ==> r@.last() == (LayerConfig {
            i_size: layer_sizes@.last(),
            o_size: layer_sizes@.last(),
            kind: LayerKind::Softmax,
        }),
        chained(r@),
{
    let mut layers: Vec<LayerConfig> = Vec::new();
    let count: usize = layer_sizes.len() - 1;
    let mut i: usize = 0;
    while i < count
        invariant
            count == layer_sizes@.len() - 1,
            i <= count,
            layers@.len() == i,
            forall|k: int| 0 <= k < i ==> layers@[k] == (LayerConfig {
                i_size: layer_sizes@[k],
                o_size: layer_sizes@[k + 1],
                kind: LayerKind::FullyConnected { activation },
            }),
        decreases count - i,
    {
        layers.push(LayerConfig::new_fully_connected(
            layer_sizes[i],
            layer_sizes[i + 1],
            activation,
        ));
        i += 1;
    }
    if use_softmax {
        let last: usize = layer_sizes[layer_sizes.len() - 1];
        layers.push(LayerConfig::new_softmax(last, last));
    }
    layers
}

} // verus!
