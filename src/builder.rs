use vstd::prelude::*;

use crate::layer::LayerShape;
use crate::network::{chain_outputs, chained, lemma_chained_forward, spec_network_forward};
use crate::shape::Shape;
use crate::error::NetworkError;

verus! {

/// A layer fed by the last one of a chain extends the chain.
proof fn lemma_push_chained(before: Seq<LayerShape>, inputs: usize, after: Seq<LayerShape>)
    requires
        chained(before, inputs),
        after.len() == before.len() + 1,
        after.drop_last() == before,
        after.last().inputs() == chain_outputs(before, inputs),
    ensures
        chained(after, inputs),
{
    assert forall|i: int| 0 <= i < after.len() implies #[trigger] after[i].inputs() == (if i == 0 {
        inputs
    } else {
        after[i - 1].outputs()
    }) by {
        if i < before.len() {
            assert(after[i] == before[i]);
            assert(before[i].inputs() == (if i == 0 {
                inputs
            } else {
                before[i - 1].outputs()
            }));
            if i > 0 {
                assert(after[i - 1] == before[i - 1]);
            }
        } else if i > 0 {
            assert(after[i - 1] == before[i - 1]);
        }
    }
}

/// Assembles the layers of a network one after the other, each one fed by
/// the outputs of the one before, with an activation of type `A` for each.
pub struct NeuralNetworkBuilder<A> {
    inputs: usize,
    last_layer_outputs: usize,
    layers: Vec<LayerShape>,
    activations: Vec<A>,
}

impl<A> NeuralNetworkBuilder<A> {
    #[verifier::type_invariant]
    spec fn well_formed(self) -> bool {
        &&& self.inputs > 0
        &&& chained(self.layers@, self.inputs)
        &&& self.last_layer_outputs == chain_outputs(self.layers@, self.inputs)
        &&& self.activations@.len() == self.layers@.len()
    }

    /// The width of the network's inputs.
    pub closed spec fn input_width(self) -> usize {
        self.inputs
    }

    /// The width of what the last layer so far produces.
    pub closed spec fn last_width(self) -> usize {
        self.last_layer_outputs
    }

    pub closed spec fn layouts(self) -> Seq<LayerShape> {
        self.layers@
    }

    pub closed spec fn activations(self) -> Seq<A> {
        self.activations@
    }

    /// A builder for a network with `inputs` inputs and no layer yet.
    pub fn with_inputs(inputs: usize) -> (r: Self)
        requires
            inputs > 0,
        ensures
            r.input_width() == inputs,
            r.last_width() == inputs,
            r.layouts() == Seq::<LayerShape>::empty(),
            r.activations() == Seq::<A>::empty(),
    {
        NeuralNetworkBuilder {
            inputs,
            last_layer_outputs: inputs,
            layers: Vec::new(),
            activations: Vec::new(),
        }
    }

    /// Adds a hidden layer of `neurons` neurons that also produces `neurons`
    /// outputs.
    pub fn layer(self, neurons: usize, activation: A) -> (r: Self)
        ensures
            r.input_width() == self.input_width(),
            r.last_width() == neurons,
            r.layouts() == self.layouts().push(
                LayerShape::TwoStage { inputs: self.last_width(), neurons, outputs: neurons },
            ),
            r.activations() == self.activations().push(activation),
    {
        proof {
            use_type_invariant(&self);
        }
        let NeuralNetworkBuilder { inputs, last_layer_outputs, mut layers, mut activations } =
            self;
        let ghost before = layers@;
        layers.push(LayerShape::TwoStage { inputs: last_layer_outputs, neurons, outputs: neurons });
        activations.push(activation);
        proof {
            assert(layers@.drop_last() =~= before);
            lemma_push_chained(before, inputs, layers@);
        }
        NeuralNetworkBuilder { inputs, last_layer_outputs: neurons, layers, activations }
    }

    /// Adds the output layer, of `neurons` neurons and `outputs` outputs, and
    /// hands out the layers with their activations, in order. The layers are
    /// chained from the input width, so that the network accepts any number
    /// of samples of that width and yields `outputs` wide rows.
    pub fn output(self, neurons: usize, outputs: usize, activation: A) -> (r: (
        Vec<LayerShape>,
        Vec<A>,
    ))
        ensures
            r.0@ == self.layouts().push(
                LayerShape::TwoStage { inputs: self.last_width(), neurons, outputs },
            ),
            r.1@ == self.activations().push(activation),
            chained(r.0@, self.input_width()),
            forall|samples: usize|
                #[trigger] spec_network_forward(
                    r.0@,
                    Shape { rows: samples, cols: self.input_width() },
                ) == Ok::<Shape, NetworkError>(Shape { rows: samples, cols: outputs }),
    {
        proof {
            use_type_invariant(&self);
        }
        let NeuralNetworkBuilder { inputs, last_layer_outputs, mut layers, mut activations } =
            self;
        let ghost before = layers@;
        layers.push(LayerShape::TwoStage { inputs: last_layer_outputs, neurons, outputs });
        activations.push(activation);
        proof {
            assert(layers@.drop_last() =~= before);
            lemma_push_chained(before, inputs, layers@);
            assert forall|samples: usize|
                #[trigger] spec_network_forward(
                    layers@,
                    Shape { rows: samples, cols: inputs },
                ) == Ok::<Shape, NetworkError>(Shape { rows: samples, cols: outputs }) by {
                lemma_chained_forward(layers@, inputs, samples);
            }
        }
        (layers, activations)
    }
}

} // verus!
