//! Layers: a row of neurons over scalar inputs, and a dense matrix layer.

use crate::backend::ops::{dot, spec_dot};
use crate::backend::tensor::{leaf, Graph, GraphError, RTensor, Tensor, TensorView};
use crate::nn::components::{
    handles_from, neuron_output, scalar_leaves, Module, Neuron, NeuronView, Pass,
};
use vstd::prelude::*;

verus! {

/// A layer of neurons that all read the same inputs.
#[derive(Debug)]
pub struct Layer {
    neurons: Vec<Neuron>,
}

impl View for Layer {
    type V = Seq<NeuronView>;

    closed spec fn view(&self) -> Seq<NeuronView> {
        Seq::new(self.neurons@.len(), |i: int| self.neurons@[i]@)
    }
}

/// The neuron whose `n_in` weights and bias are the `n_in + 1` handles from
/// `first` on.
pub open spec fn neuron_at(first: int, n_in: nat, non_lin: bool) -> NeuronView {
    NeuronView {
        weight: handles_from(first, n_in),
        bias: (first + n_in) as usize,
        non_lin,
    }
}

/// The `n_out` neurons of `n_in` inputs each whose parameters are the
/// handles from `first` on, neuron after neuron.
pub open spec fn neurons_at(first: int, n_in: nat, n_out: nat, non_lin: bool) -> Seq<NeuronView> {
    Seq::new(n_out, |j: int| neuron_at(first + j * (n_in + 1), n_in, non_lin))
}

/// The parameters of the first `n` of `neurons`, neuron after neuron.
pub open spec fn neuron_parameters(neurons: Seq<NeuronView>, n: nat) -> Seq<usize>
    decreases n,
{
    if n == 0 {
        Seq::empty()
    } else {
        neuron_parameters(neurons, (n - 1) as nat) + neurons[n - 1].weight.push(neurons[n - 1].bias)
    }
}

/// The graph after the first `n` of `neurons` have added their outputs for
/// the inputs `x`, and the handles of the outputs. A pass stops at the
/// first operation that fails.
pub open spec fn layer_forward(
    nodes: Seq<TensorView>,
    neurons: Seq<NeuronView>,
    x: Seq<usize>,
    n: nat,
) -> Pass
    decreases n,
{
    if n == 0 {
        (nodes, Ok(Seq::empty()))
    } else {
        let before = layer_forward(nodes, neurons, x, (n - 1) as nat);
        match before.1 {
            Err(e) => before,
            Ok(outputs) => {
                let next = neuron_output(before.0, neurons[n - 1], x);
                match next.1 {
                    Err(e) => (next.0, Err(e)),
                    Ok(output) => (next.0, Ok(outputs.push(output))),
                }
            },
        }
    }
}

/// A layer that has failed on some of its neurons fails on more of them in
/// the same way.
proof fn lemma_layer_forward_stops(
    nodes: Seq<TensorView>,
    neurons: Seq<NeuronView>,
    x: Seq<usize>,
    n: nat,
    m: nat,
)
    requires
        n <= m,
        layer_forward(nodes, neurons, x, n).1 is Err,
    ensures
        layer_forward(nodes, neurons, x, m) == layer_forward(nodes, neurons, x, n),
    decreases m,
{
    if n < m {
        lemma_layer_forward_stops(nodes, neurons, x, n, (m - 1) as nat);
    }
}

impl Layer {
    /// Adds the parameters of `n_out` neurons of `n_in` inputs each, neuron
    /// after neuron, and returns the layer that holds them.
    pub fn new(graph: &mut Graph, n_in: usize, n_out: usize, non_lin: bool) -> (layer: Layer)
        requires
            old(graph).wf(),
        ensures
            final(graph).wf(),
            final(graph)@ == old(graph)@ + scalar_leaves((n_out * (n_in + 1)) as nat),
            layer@ == neurons_at(old(graph)@.len() as int, n_in as nat, n_out as nat, non_lin),
    {
        let mut neurons: Vec<Neuron> = Vec::new();
        let ghost first = old(graph)@.len() as int;
        let mut j: usize = 0;
        while j < n_out
            invariant
                j <= n_out,
                graph.wf(),
                first == old(graph)@.len(),
                graph@ == old(graph)@ + scalar_leaves((j * (n_in + 1)) as nat),
                neurons@.len() == j,
                forall|i: int|
                    0 <= i < j ==> (#[trigger] neurons@[i])@ == neuron_at(
                        first + i * (n_in + 1),
                        n_in as nat,
                        non_lin,
                    ),
            decreases n_out - j,
        {
            assert(j * (n_in + 1) >= 0) by (nonlinear_arith);
            let neuron = Neuron::new(graph, n_in, non_lin);
            neurons.push(neuron);
            proof {
                assert((j + 1) * (n_in + 1) == j * (n_in + 1) + (n_in + 1)) by (nonlinear_arith);
                assert(graph@ =~= old(graph)@ + scalar_leaves(((j + 1) * (n_in + 1)) as nat));
                assert(neuron@ =~= neuron_at(first + j * (n_in + 1), n_in as nat, non_lin));
            }
            j += 1;
        }
        let layer = Layer { neurons };
        assert(layer@ =~= neurons_at(first, n_in as nat, n_out as nat, non_lin));
        layer
    }
}

impl Module for Layer {
    open spec fn spec_parameters(&self) -> Seq<usize> {
        neuron_parameters(self@, self@.len())
    }

    open spec fn spec_forward(&self, nodes: Seq<TensorView>, x: Seq<usize>) -> Pass {
        layer_forward(nodes, self@, x, self@.len())
    }

    fn parameters(&self) -> (parameters: Vec<RTensor>) {
        let mut parameters: Vec<RTensor> = Vec::new();
        let mut j: usize = 0;
        while j < self.neurons.len()
            invariant
                j <= self.neurons@.len(),
                self@.len() == self.neurons@.len(),
                parameters@ == neuron_parameters(self@, j as nat),
            decreases self.neurons@.len() - j,
        {
            let mut of_neuron = self.neurons[j].parameters();
            assert(of_neuron@ == self@[j as int].weight.push(self@[j as int].bias));
            parameters.append(&mut of_neuron);
            j += 1;
        }
        parameters
    }

    fn forward(&self, graph: &mut Graph, x: &Vec<RTensor>) -> (y: Result<Vec<RTensor>, GraphError>) {
        let mut outputs: Vec<RTensor> = Vec::new();
        let mut j: usize = 0;
        while j < self.neurons.len()
            invariant
                j <= self.neurons@.len(),
                self@.len() == self.neurons@.len(),
                graph.wf(),
                old(graph)@.is_prefix_of(graph@),
                layer_forward(old(graph)@, self@, x@, j as nat) == (
                    graph@,
                    Ok::<Seq<usize>, GraphError>(outputs@),
                ),
            decreases self.neurons@.len() - j,
        {
            match self.neurons[j].forward(graph, x) {
                Ok(mut output) => {
                    assert(output@.len() == 1);
                    assert(outputs@ + output@ =~= outputs@.push(output@[0]));
                    outputs.append(&mut output);
                },
                Err(e) => {
                    proof {
                        lemma_layer_forward_stops(
                            old(graph)@,
                            self@,
                            x@,
                            (j + 1) as nat,
                            self@.len(),
                        );
                    }
                    return Err(e);
                },
            }
            j += 1;
        }
        Ok(outputs)
    }
}

/// A dense layer as a mathematical value.
pub struct DenseView {
    pub w: usize,
    pub b: usize,
}

/// A dense layer: an `n_in x n_out` matrix of weights and a bias of
/// `n_out` elements.
#[derive(Debug)]
pub struct Dense {
    w: RTensor,
    b: RTensor,
}

impl View for Dense {
    type V = DenseView;

    closed spec fn view(&self) -> DenseView {
        DenseView { w: self.w, b: self.b }
    }
}

/// The graph after the first `n` of the inputs `x` have been multiplied
/// with the matrix `w`, and the handles of the products. A pass stops at
/// the first product that fails.
pub open spec fn dense_forward(nodes: Seq<TensorView>, w: usize, x: Seq<usize>, n: nat) -> Pass
    decreases n,
{
    if n == 0 {
        (nodes, Ok(Seq::empty()))
    } else {
        let before = dense_forward(nodes, w, x, (n - 1) as nat);
        match before.1 {
            Err(e) => before,
            Ok(outputs) => {
                let next = spec_dot(before.0, x[n - 1], w);
                match next.1 {
                    Err(e) => (next.0, Err(e)),
                    Ok(output) => (next.0, Ok(outputs.push(output))),
                }
            },
        }
    }
}

/// A dense layer that has failed on some of its inputs fails on more of
/// them in the same way.
proof fn lemma_dense_forward_stops(nodes: Seq<TensorView>, w: usize, x: Seq<usize>, n: nat, m: nat)
    requires
        n <= m,
        dense_forward(nodes, w, x, n).1 is Err,
    ensures
        dense_forward(nodes, w, x, m) == dense_forward(nodes, w, x, n),
    decreases m,
{
    if n < m {
        lemma_dense_forward_stops(nodes, w, x, n, (m - 1) as nat);
    }
}

impl Dense {
    /// Adds a leaf of shape `n_in x n_out` for the weights and one of
    /// `n_out` elements for the bias, and returns the layer that holds
    /// them. The host gives the leaves their initial data.
    pub fn new(graph: &mut Graph, n_in: usize, n_out: usize) -> (dense: Dense)
        requires
            old(graph).wf(),
        ensures
            final(graph).wf(),
            final(graph)@ == old(graph)@.push(leaf(seq![n_in, n_out])).push(leaf(seq![n_out])),
            dense@.w == old(graph)@.len(),
            dense@.b == old(graph)@.len() + 1,
    {
        let matrix: [usize; 2] = [n_in, n_out];
        let vector: [usize; 1] = [n_out];
        assert(matrix@ =~= seq![n_in, n_out]);
        assert(vector@ =~= seq![n_out]);
        let w = Tensor::new_ref(graph, matrix.as_slice());
        let b = Tensor::new_ref(graph, vector.as_slice());
        Dense { w, b }
    }
}

impl Module for Dense {
    open spec fn spec_parameters(&self) -> Seq<usize> {
        seq![self@.w, self@.b]
    }

    open spec fn spec_forward(&self, nodes: Seq<TensorView>, x: Seq<usize>) -> Pass {
        dense_forward(nodes, self@.w, x, x.len())
    }

    fn parameters(&self) -> (parameters: Vec<RTensor>) {
        let mut parameters: Vec<RTensor> = Vec::new();
        parameters.push(self.w);
        parameters.push(self.b);
        assert(parameters@ =~= seq![self@.w, self@.b]);
        parameters
    }

    fn forward(&self, graph: &mut Graph, x: &Vec<RTensor>) -> (y: Result<Vec<RTensor>, GraphError>) {
        let mut outputs: Vec<RTensor> = Vec::new();
        let mut i: usize = 0;
        while i < x.len()
            invariant
                i <= x@.len(),
                graph.wf(),
                old(graph)@.is_prefix_of(graph@),
                dense_forward(old(graph)@, self@.w, x@, i as nat) == (
                    graph@,
                    Ok::<Seq<usize>, GraphError>(outputs@),
                ),
            decreases x@.len() - i,
        {
            match dot(graph, x[i], self.w) {
                Ok(output) => {
                    outputs.push(output);
                },
                Err(e) => {
                    proof {
                        lemma_dense_forward_stops(
                            old(graph)@,
                            self@.w,
                            x@,
                            (i + 1) as nat,
                            x@.len(),
                        );
                    }
                    return Err(e);
                },
            }
            i += 1;
        }
        Ok(outputs)
    }
}

} // verus!
