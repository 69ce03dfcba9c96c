use vstd::prelude::*;

use crate::error::NetworkError;
use crate::layer::{Backprop, LayerShape, LayerState};
use crate::shape::Shape;

verus! {

/// The output shape of a pass of inputs of shape `inputs` through `layers`
/// in order, each layer's output feeding the next one, or the error of the
/// first layer that rejects its input.
pub open spec fn thread(layers: Seq<LayerShape>, inputs: Shape) -> Result<Shape, NetworkError>
    decreases layers.len(),
{
    if layers.len() == 0 {
        Ok(inputs)
    } else {
        match thread(layers.drop_last(), inputs) {
            Err(e) => Err(e),
            Ok(m) => layers.last().spec_forward(m),
        }
    }
}

/// A network's forward pass: `EmptyTopology` without layers, else `thread`.
pub open spec fn spec_network_forward(layers: Seq<LayerShape>, inputs: Shape) -> Result<
    Shape,
    NetworkError,
> {
    if layers.len() == 0 {
        Err(NetworkError::EmptyTopology)
    } else {
        thread(layers, inputs)
    }
}

/// The shape of what feeds layer `k` of `layers` when the network's inputs
/// have shape `inputs`: the inputs themselves for the first layer, else the
/// previous layer's outputs over the same samples.
pub open spec fn layer_inputs(layers: Seq<LayerState>, inputs: Shape, k: int) -> Shape {
    if k == 0 {
        inputs
    } else {
        Shape { rows: inputs.rows, cols: layers[k - 1].layout().outputs() }
    }
}

/// The backward pass through `layers`, from the last layer to the first: the
/// last layer receives `error`, and each earlier layer receives the
/// downstream error of the layer after it. The result lists each layer's
/// backward shapes in that order (last layer first), or the first error met.
pub open spec fn backprop(layers: Seq<LayerState>, inputs: Shape, error: Shape) -> Result<
    Seq<Backprop>,
    NetworkError,
>
    decreases layers.len(),
{
    if layers.len() == 0 {
        Ok(Seq::empty())
    } else {
        let k = layers.len() - 1;
        match layers[k].spec_backward(layer_inputs(layers, inputs, k), error) {
            Err(e) => Err(e),
            Ok(b) => match backprop(layers.drop_last(), inputs, b.downstream) {
                Err(e) => Err(e),
                Ok(rest) => Ok(seq![b] + rest),
            },
        }
    }
}

/// A network's backward pass: `EmptyTopology` without layers, else
/// `backprop` from the expected outputs.
pub open spec fn spec_network_backward(
    layers: Seq<LayerState>,
    inputs: Shape,
    expected: Shape,
) -> Result<Seq<Backprop>, NetworkError> {
    if layers.len() == 0 {
        Err(NetworkError::EmptyTopology)
    } else {
        backprop(layers, inputs, expected)
    }
}

/// Whether each layer of `layers` takes the width that feeds it: `inputs`
/// for the first one, the previous layer's outputs for the others.
pub open spec fn chained(layers: Seq<LayerShape>, inputs: usize) -> bool {
    forall|i: int|
        0 <= i < layers.len() ==> #[trigger] layers[i].inputs() == (if i == 0 {
            inputs
        } else {
            layers[i - 1].outputs()
        })
}

/// The width of what comes out of `layers` when they are fed `inputs` wide
/// rows.
pub open spec fn chain_outputs(layers: Seq<LayerShape>, inputs: usize) -> usize {
    if layers.len() == 0 {
        inputs
    } else {
        layers.last().outputs()
    }
}

/// Layers that are chained from a width accept any number of samples of that
/// width and yield as many samples of the last layer's width.
pub proof fn lemma_chained_forward(layers: Seq<LayerShape>, inputs: usize, samples: usize)
    requires
        chained(layers, inputs),
    ensures
        thread(layers, Shape { rows: samples, cols: inputs }) == Ok::<Shape, NetworkError>(
            Shape { rows: samples, cols: chain_outputs(layers, inputs) },
        ),
    decreases layers.len(),
{
    if layers.len() > 0 {
        let prefix = layers.drop_last();
        assert(chained(prefix, inputs)) by {
            assert forall|i: int| 0 <= i < prefix.len() implies #[trigger] prefix[i].inputs() == (
            if i == 0 {
                inputs
            } else {
                prefix[i - 1].outputs()
            }) by {
                assert(layers[i].inputs() == (if i == 0 {
                    inputs
                } else {
                    layers[i - 1].outputs()
                }));
            }
        }
        lemma_chained_forward(prefix, inputs, samples);
        assert(layers[layers.len() - 1].inputs() == chain_outputs(prefix, inputs));
    }
}

/// The weight layouts of `layers`, in order.
pub open spec fn layouts_of(layers: Seq<LayerState>) -> Seq<LayerShape> {
    Seq::new(layers.len(), |i: int| layers[i].layout())
}

/// A pass that goes through keeps the sample count and ends with the last
/// layer's width.
proof fn lemma_thread_ok(layers: Seq<LayerShape>, inputs: Shape)
    requires
        thread(layers, inputs) is Ok,
    ensures
        thread(layers, inputs) == Ok::<Shape, NetworkError>(
            Shape { rows: inputs.rows, cols: chain_outputs(layers, inputs.cols) },
        ),
        layers.len() > 0 ==> thread(layers.drop_last(), inputs) is Ok && layers.last().inputs()
            == chain_outputs(layers.drop_last(), inputs.cols),
    decreases layers.len(),
{
    if layers.len() > 0 {
        lemma_thread_ok(layers.drop_last(), inputs);
    }
}

/// After a forward pass through every layer over `inputs`, the backward pass
/// from expected outputs over the same samples and of the last layer's width
/// goes through, as does the cost: the gradients of each layer, listed from
/// the last layer to the first, have the shapes of its weight matrices.
pub proof fn lemma_backward_after_forward(
    layers: Seq<LayerState>,
    inputs: Shape,
    expected: Shape,
)
    requires
        layers.len() > 0,
        thread(layouts_of(layers), inputs) is Ok,
        forall|i: int| 0 <= i < layers.len() ==> #[trigger] layers[i].cached() == Some(inputs.rows),
        expected.rows == inputs.rows,
        expected.cols == layers.last().layout().outputs(),
    ensures
        layers.last().spec_cost(expected) == Ok::<usize, NetworkError>(expected.cols),
        backprop(layers, inputs, expected) matches Ok(plan) && plan.len() == layers.len() && (
        forall|k: int|
            0 <= k < plan.len() ==> {
                &&& #[trigger] plan[k].input_gradient == layers[layers.len() - 1
                    - k].layout().input_weights()
                &&& plan[k].output_gradient == layers[layers.len() - 1 - k].layout().output_weights()
            }),
    decreases layers.len(),
{
    let n = layers.len();
    let shapes = layouts_of(layers);
    let prefix = layers.drop_last();
    assert(layouts_of(prefix) =~= shapes.drop_last());
    lemma_thread_ok(shapes, inputs);
    assert(shapes.last() == layers[n - 1].layout());
    let fed = layer_inputs(layers, inputs, n - 1);
    if n > 1 {
        lemma_thread_ok(shapes.drop_last(), inputs);
        assert(shapes.drop_last().last() == layers[n - 2].layout());
    } else {
        assert(shapes.drop_last().len() == 0);
    }
    assert(fed.cols == layers[n - 1].layout().inputs());
    assert(layers[n - 1].cached() == Some(inputs.rows));
    let b = Backprop {
        input_gradient: layers[n - 1].layout().input_weights(),
        output_gradient: layers[n - 1].layout().output_weights(),
        downstream: Shape { rows: inputs.rows, cols: layers[n - 1].layout().inputs() },
    };
    assert(layers[n - 1].spec_backward(fed, expected) == Ok::<Backprop, NetworkError>(b));
    if n > 1 {
        assert(prefix.last() == layers[n - 2]);
        assert forall|i: int| 0 <= i < prefix.len() implies #[trigger] prefix[i].cached() == Some(
            inputs.rows,
        ) by {
            assert(prefix[i] == layers[i]);
        }
        lemma_backward_after_forward(prefix, inputs, b.downstream);
        assert forall|i: int| 0 <= i < prefix.len() implies #[trigger] layer_inputs(
            prefix,
            inputs,
            i,
        ) == layer_inputs(layers, inputs, i) by {
            if i > 0 {
                assert(prefix[i - 1] == layers[i - 1]);
            }
        }
        let rest = backprop(prefix, inputs, b.downstream)->Ok_0;
        assert(backprop(layers, inputs, expected) == Ok::<Seq<Backprop>, NetworkError>(
            seq![b] + rest,
        ));
        assert forall|k: int| 0 <= k < n implies {
            &&& #[trigger] (seq![b] + rest)[k].input_gradient == layers[n - 1
                - k].layout().input_weights()
            &&& (seq![b] + rest)[k].output_gradient == layers[n - 1 - k].layout().output_weights()
        } by {
            if k > 0 {
                assert((seq![b] + rest)[k] == rest[k - 1]);
                assert(prefix[prefix.len() - 1 - (k - 1)] == layers[n - 1 - k]);
            }
        }
    } else {
        assert(prefix.len() == 0);
        assert(backprop(prefix, inputs, b.downstream) == Ok::<Seq<Backprop>, NetworkError>(
            Seq::empty(),
        ));
        assert(seq![b] + Seq::<Backprop>::empty() =~= seq![b]);
    }
}

/// Once a prefix of the layers rejects its input, the whole pass fails with
/// that error.
proof fn lemma_thread_stops(layers: Seq<LayerShape>, inputs: Shape, k: int)
    requires
        0 <= k <= layers.len(),
        thread(layers.take(k), inputs) is Err,
    ensures
        thread(layers, inputs) == thread(layers.take(k), inputs),
    decreases layers.len(),
{
    if layers.len() > k {
        assert(layers.drop_last().take(k) =~= layers.take(k));
        lemma_thread_stops(layers.drop_last(), inputs, k);
    } else {
        assert(layers.take(k) =~= layers);
    }
}

/// One more layer of the prefix: its forward pass applied to the prefix's
/// output.
proof fn lemma_thread_step(layers: Seq<LayerShape>, inputs: Shape, i: int)
    requires
        0 <= i < layers.len(),
    ensures
        thread(layers.take(i + 1), inputs) == match thread(layers.take(i), inputs) {
            Err(e) => Err(e),
            Ok(m) => layers[i].spec_forward(m),
        },
{
    let t = layers.take(i + 1);
    assert(t.drop_last() =~= layers.take(i));
    assert(t.last() == layers[i]);
}

/// A network whose first layer does not accept the inputs' width fails with
/// `ShapeMismatch` naming that width and the first layer's.
pub proof fn lemma_first_layer_rejects(layers: Seq<LayerShape>, inputs: Shape)
    requires
        layers.len() > 0,
        inputs.cols != layers[0].inputs(),
    ensures
        spec_network_forward(layers, inputs) == Err::<Shape, NetworkError>(
            NetworkError::ShapeMismatch { found: inputs.cols, expected: layers[0].inputs() },
        ),
{
    lemma_thread_step(layers, inputs, 0);
    assert(layers.take(0) =~= Seq::<LayerShape>::empty());
    lemma_thread_stops(layers, inputs, 1);
}

/// The ordered layers of a feed-forward network, with the bookkeeping of
/// each one's last forward pass.
pub struct Topology {
    layers: Vec<LayerState>,
}

impl Topology {
    pub closed spec fn states(self) -> Seq<LayerState> {
        self.layers@
    }

    /// The weight layouts of the layers, in order.
    pub open spec fn layouts(self) -> Seq<LayerShape> {
        layouts_of(self.states())
    }

    /// A network of the given layers, none of which has run forward yet.
    pub fn new(shapes: Vec<LayerShape>) -> (r: Topology)
        ensures
            r.layouts() == shapes@,
            forall|i: int| 0 <= i < r.states().len() ==> r.states()[i].cached() == None::<usize>,
    {
        let mut layers: Vec<LayerState> = Vec::new();
        let mut i: usize = 0;
        while i < shapes.len()
            invariant
                0 <= i <= shapes.len(),
                layers@.len() == i,
                forall|j: int| 0 <= j < i ==> layers@[j].layout() == shapes@[j],
                forall|j: int| 0 <= j < i ==> layers@[j].cached() == None::<usize>,
            decreases shapes.len() - i,
        {
            layers.push(LayerState::new(shapes[i]));
            i += 1;
        }
        let r = Topology { layers };
        assert(r.layouts() =~= shapes@);
        r
    }

    pub fn len(&self) -> (r: usize)
        ensures
            r == self.states().len(),
    {
        self.layers.len()
    }

    pub fn layer(&self, i: usize) -> (r: LayerState)
        requires
            i < self.states().len(),
        ensures
            r == self.states()[i as int],
    {
        self.layers[i]
    }

    /// Checks a forward pass of inputs of shape `inputs` through every layer
    /// in turn and returns the last layer's output shape. Fails with
    /// `EmptyTopology` without layers, and with the `ShapeMismatch` of the
    /// first layer that rejects its input. On success every layer holds a
    /// forward pass over `inputs.rows` samples.
    pub fn forward(&mut self, inputs: Shape) -> (r: Result<Shape, NetworkError>)
        ensures
            r == spec_network_forward(old(self).layouts(), inputs),
            final(self).layouts() == old(self).layouts(),
            old(self).layouts().len() > 0 && inputs.cols != old(self).layouts()[0].inputs() ==> r
                == Err::<Shape, NetworkError>(
                NetworkError::ShapeMismatch {
                    found: inputs.cols,
                    expected: old(self).layouts()[0].inputs(),
                },
            ),
            r is Err ==> final(self).states() == old(self).states(),
            r is Ok ==> forall|i: int|
                0 <= i < final(self).states().len() ==> final(self).states()[i].cached() == Some(
                    inputs.rows,
                ),
    {
        proof {
            if old(self).layouts().len() > 0 && inputs.cols != old(self).layouts()[0].inputs() {
                lemma_first_layer_rejects(old(self).layouts(), inputs);
            }
        }
        if self.layers.len() == 0 {
            return Err(NetworkError::EmptyTopology);
        }
        let ghost all = old(self).layouts();
        // check the whole chain before any layer records the pass
        let mut cur = inputs;
        let mut i: usize = 0;
        while i < self.layers.len()
            invariant
                *self == *old(self),
                all == self.layouts(),
                all.len() > 0,
                0 <= i <= all.len(),
                thread(all.take(i as int), inputs) == Ok::<Shape, NetworkError>(cur),
                cur.rows == inputs.rows,
            decreases all.len() - i,
        {
            proof {
                lemma_thread_step(all, inputs, i as int);
            }
            match self.layers[i].shape().forward(cur) {
                Err(e) => {
                    proof {
                        lemma_thread_stops(all, inputs, i + 1);
                        if inputs.cols != all[0].inputs() {
                            lemma_first_layer_rejects(all, inputs);
                        }
                    }
                    return Err(e);
                },
                Ok(next) => {
                    cur = next;
                },
            }
            i += 1;
        }
        assert(all.take(i as int) =~= all);
        let mut k: usize = 0;
        while k < self.layers.len()
            invariant
                self.states().len() == old(self).states().len(),
                self.layouts() == all,
                0 <= k <= all.len(),
                forall|j: int| 0 <= j < k ==> self.states()[j].cached() == Some(inputs.rows),
            decreases all.len() - k,
        {
            let mut layer = self.layers[k];
            layer.record_pass(inputs.rows);
            self.layers.set(k, layer);
            assert(self.layouts() =~= all);
            k += 1;
        }
        Ok(cur)
    }

    /// Checks the per-output cost of the network's prediction against
    /// expected outputs of shape `expected`: `EmptyTopology` without layers,
    /// else what the last layer's check gives. Returns the length of the cost
    /// vector.
    pub fn cost(&self, expected: Shape) -> (r: Result<usize, NetworkError>)
        ensures
            self.states().len() == 0 ==> r == Err::<usize, NetworkError>(
                NetworkError::EmptyTopology,
            ),
            self.states().len() > 0 ==> r == self.states().last().spec_cost(expected),
    {
        let n = self.layers.len();
        if n == 0 {
            Err(NetworkError::EmptyTopology)
        } else {
            self.layers[n - 1].cost(expected)
        }
    }

    /// Checks a backward pass through the whole network, from the last layer
    /// to the first, for the network's `inputs` and `expected` outputs. Each
    /// layer is checked against what fed it in the forward pass and against
    /// the error coming from the layer after it; the result lists the shapes
    /// of every layer's gradients, last layer first.
    pub fn backward(&self, inputs: Shape, expected: Shape) -> (r: Result<
        Vec<Backprop>,
        NetworkError,
    >)
        ensures
            match r {
                Ok(v) => spec_network_backward(self.states(), inputs, expected) == Ok::<
                    Seq<Backprop>,
                    NetworkError,
                >(v@),
                Err(e) => spec_network_backward(self.states(), inputs, expected) == Err::<
                    Seq<Backprop>,
                    NetworkError,
                >(e),
            },
            r matches Ok(v) ==> v@.len() == self.states().len(),
    {
        let n = self.layers.len();
        if n == 0 {
            return Err(NetworkError::EmptyTopology);
        }
        let ghost all = self.states();
        let mut acc: Vec<Backprop> = Vec::new();
        let mut error = expected;
        let mut k: usize = n;
        assert(all.take(n as int) =~= all);
        while k > 0
            invariant
                n == all.len(),
                all == self.states(),
                0 <= k <= n,
                acc@.len() == n - k,
                backprop(all, inputs, expected) == match backprop(all.take(k as int), inputs, error) {
                    Ok(rest) => Ok::<Seq<Backprop>, NetworkError>(acc@ + rest),
                    Err(e) => Err(e),
                },
            decreases k,
        {
            let fed = if k == 1 {
                inputs
            } else {
                Shape::new(inputs.rows, self.layers[k - 2].shape().output_width())
            };
            let ghost t = all.take(k as int);
            proof {
                assert(t.drop_last() =~= all.take(k - 1));
                assert(t[k - 1] == all[k - 1]);
                assert(fed == layer_inputs(t, inputs, k - 1));
            }
            match self.layers[k - 1].backward(fed, error) {
                Err(e) => {
                    return Err(e);
                },
                Ok(b) => {
                    let ghost before = acc@;
                    acc.push(b);
                    proof {
                        match backprop(all.take(k - 1), inputs, b.downstream) {
                            Ok(rest) => {
                                assert(before + (seq![b] + rest) =~= acc@ + rest);
                            },
                            Err(_) => {},
                        }
                    }
                    error = b.downstream;
                    k -= 1;
                },
            }
        }
        proof {
            assert(all.take(0) =~= Seq::<LayerState>::empty());
            assert(acc@ + Seq::<Backprop>::empty() =~= acc@);
        }
        Ok(acc)
    }
}

} // verus!
