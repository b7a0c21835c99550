//! Networks: layers applied one after the other.

use crate::backend::tensor::{copy_shape, leaf, Graph, GraphError, RTensor, TensorView};
use crate::nn::components::{scalar_leaves, Module, Pass};
use crate::nn::layers::{neurons_at, Dense, DenseView, Layer};
use vstd::prelude::*;

verus! {

/// A multilayer perceptron: the output of each layer is the input of the
/// next.
#[derive(Debug)]
pub struct MLP<L> {
    layers: Vec<L>,
}

/// The parameters of the first `n` of `layers`, layer after layer.
pub open spec fn layered_parameters<L: Module>(layers: Seq<L>, n: nat) -> Seq<usize>
    decreases n,
{
    if n == 0 {
        Seq::empty()
    } else {
        layered_parameters(layers, (n - 1) as nat) + layers[n - 1].spec_parameters()
    }
}

/// The graph after the inputs `x` have passed through the first `n` of
/// `layers`, and the handles that the last of them returned. A pass stops
/// at the first layer that fails.
pub open spec fn layered_forward<L: Module>(
    nodes: Seq<TensorView>,
    layers: Seq<L>,
    x: Seq<usize>,
    n: nat,
) -> Pass
    decreases n,
{
    if n == 0 {
        (nodes, Ok(x))
    } else {
        let before = layered_forward(nodes, layers, x, (n - 1) as nat);
        match before.1 {
            Err(e) => before,
            Ok(signal) => layers[n - 1].spec_forward(before.0, signal),
        }
    }
}

/// A network that has failed in some layer fails with more layers in the
/// same way.
proof fn lemma_layered_forward_stops<L: Module>(
    nodes: Seq<TensorView>,
    layers: Seq<L>,
    x: Seq<usize>,
    n: nat,
    m: nat,
)
    requires
        n <= m,
        layered_forward(nodes, layers, x, n).1 is Err,
    ensures
        layered_forward(nodes, layers, x, m) == layered_forward(nodes, layers, x, n),
    decreases m,
{
    if n < m {
        lemma_layered_forward_stops(nodes, layers, x, n, (m - 1) as nat);
    }
}

/// The number of inputs of layer `i` of a network of `n_in` inputs whose
/// layers have `n_units` outputs.
pub open spec fn inputs_of(n_in: usize, n_units: Seq<usize>, i: int) -> usize {
    if i <= 0 {
        n_in
    } else {
        n_units[i - 1]
    }
}

/// The number of scalar parameters of the first `i` layers of neurons.
pub open spec fn scalars_before(n_in: usize, n_units: Seq<usize>, i: nat) -> nat
    decreases i,
{
    if i == 0 {
        0
    } else {
        (scalars_before(n_in, n_units, (i - 1) as nat) + n_units[i - 1] * (inputs_of(
            n_in,
            n_units,
            i - 1,
        ) + 1)) as nat
    }
}

/// The parameter leaves of the first `i` dense layers: for each layer a
/// matrix of weights and a vector of biases.
pub open spec fn dense_leaves(n_in: usize, n_units: Seq<usize>, i: nat) -> Seq<TensorView>
    decreases i,
{
    if i == 0 {
        Seq::empty()
    } else {
        dense_leaves(n_in, n_units, (i - 1) as nat).push(
            leaf(seq![inputs_of(n_in, n_units, i - 1), n_units[i - 1]]),
        ).push(leaf(seq![n_units[i - 1]]))
    }
}

impl<L> MLP<L> {
    /// The layers, first to last.
    pub closed spec fn layers(&self) -> Seq<L> {
        self.layers@
    }
}

impl MLP<Layer> {
    /// Adds the parameters of a network of layers of neurons and returns
    /// the network. It reads `n_in` inputs, and layer `i` has `n_units[i]`
    /// neurons; every layer but the last is rectified.
    pub fn new(graph: &mut Graph, n_in: usize, n_units: Vec<usize>) -> (mlp: MLP<Layer>)
        requires
            old(graph).wf(),
        ensures
            final(graph).wf(),
            final(graph)@ == old(graph)@ + scalar_leaves(
                scalars_before(n_in, n_units@, n_units@.len()),
            ),
            mlp.layers().len() == n_units@.len(),
            forall|i: int|
                0 <= i < n_units@.len() ==> (#[trigger] mlp.layers()[i])@ == neurons_at(
                    (old(graph)@.len() + scalars_before(n_in, n_units@, i as nat)) as int,
                    inputs_of(n_in, n_units@, i) as nat,
                    n_units@[i] as nat,
                    i + 1 < n_units@.len(),
                ),
    {
        let mut layers: Vec<Layer> = Vec::new();
        let mut aux_in = n_in;
        let mut i: usize = 0;
        while i < n_units.len()
            invariant
                i <= n_units@.len(),
                graph.wf(),
                aux_in == inputs_of(n_in, n_units@, i as int),
                graph@ == old(graph)@ + scalar_leaves(scalars_before(n_in, n_units@, i as nat)),
                layers@.len() == i,
                forall|j: int|
                    0 <= j < i ==> (#[trigger] layers@[j])@ == neurons_at(
                        (old(graph)@.len() + scalars_before(n_in, n_units@, j as nat)) as int,
                        inputs_of(n_in, n_units@, j) as nat,
                        n_units@[j] as nat,
                        j + 1 < n_units@.len(),
                    ),
            decreases n_units@.len() - i,
        {
            let aux_out = n_units[i];
            let layer = Layer::new(graph, aux_in, aux_out, i < n_units.len() - 1);
            layers.push(layer);
            proof {
                assert(aux_out * (aux_in + 1) >= 0) by (nonlinear_arith);
                assert(graph@ =~= old(graph)@ + scalar_leaves(
                    scalars_before(n_in, n_units@, (i + 1) as nat),
                ));
            }
            aux_in = aux_out;
            i += 1;
        }
        MLP { layers }
    }
}

impl MLP<Dense> {
    /// Adds the parameters of a network of dense layers and returns the
    /// network. It reads rows of `n_in` elements, and layer `i` has
    /// `n_units[i]` outputs.
    pub fn new(graph: &mut Graph, n_in: usize, n_units: Vec<usize>) -> (mlp: MLP<Dense>)
        requires
            old(graph).wf(),
        ensures
            final(graph).wf(),
            final(graph)@ == old(graph)@ + dense_leaves(n_in, n_units@, n_units@.len()),
            mlp.layers().len() == n_units@.len(),
            forall|i: int|
                0 <= i < n_units@.len() ==> (#[trigger] mlp.layers()[i])@ == (DenseView {
                    w: (old(graph)@.len() + 2 * i) as usize,
                    b: (old(graph)@.len() + 2 * i + 1) as usize,
                }),
    {
        let mut layers: Vec<Dense> = Vec::new();
        let mut aux_in = n_in;
        let mut i: usize = 0;
        while i < n_units.len()
            invariant
                i <= n_units@.len(),
                graph.wf(),
                aux_in == inputs_of(n_in, n_units@, i as int),
                graph@ == old(graph)@ + dense_leaves(n_in, n_units@, i as nat),
                graph@.len() == old(graph)@.len() + 2 * i,
                layers@.len() == i,
                forall|j: int|
                    0 <= j < i ==> (#[trigger] layers@[j])@ == (DenseView {
                        w: (old(graph)@.len() + 2 * j) as usize,
                        b: (old(graph)@.len() + 2 * j + 1) as usize,
                    }),
            decreases n_units@.len() - i,
        {
            let aux_out = n_units[i];
            let layer = Dense::new(graph, aux_in, aux_out);
            layers.push(layer);
            proof {
                assert(graph@ =~= old(graph)@ + dense_leaves(n_in, n_units@, (i + 1) as nat));
            }
            aux_in = aux_out;
            i += 1;
        }
        MLP { layers }
    }
}

impl<L: Module> Module for MLP<L> {
    open spec fn spec_parameters(&self) -> Seq<usize> {
        layered_parameters(self.layers(), self.layers().len())
    }

    open spec fn spec_forward(&self, nodes: Seq<TensorView>, x: Seq<usize>) -> Pass {
        layered_forward(nodes, self.layers(), x, self.layers().len())
    }

    fn parameters(&self) -> (parameters: Vec<RTensor>) {
        let mut parameters: Vec<RTensor> = Vec::new();
        let mut i: usize = 0;
        while i < self.layers.len()
            invariant
                i <= self.layers@.len(),
                parameters@ == layered_parameters(self.layers(), i as nat),
            decreases self.layers@.len() - i,
        {
            let mut of_layer = self.layers[i].parameters();
            parameters.append(&mut of_layer);
            i += 1;
        }
        parameters
    }

    fn forward(&self, graph: &mut Graph, x: &Vec<RTensor>) -> (y: Result<Vec<RTensor>, GraphError>) {
        let mut signal = copy_shape(x.as_slice());
        let mut i: usize = 0;
        while i < self.layers.len()
            invariant
                i <= self.layers@.len(),
                graph.wf(),
                old(graph)@.is_prefix_of(graph@),
                layered_forward(old(graph)@, self.layers(), x@, i as nat) == (
                    graph@,
                    Ok::<Seq<usize>, GraphError>(signal@),
                ),
            decreases self.layers@.len() - i,
        {
            match self.layers[i].forward(graph, &signal) {
                Ok(output) => {
                    signal = output;
                },
                Err(e) => {
                    proof {
                        lemma_layered_forward_stops(
                            old(graph)@,
                            self.layers(),
                            x@,
                            (i + 1) as nat,
                            self.layers().len(),
                        );
                    }
                    return Err(e);
                },
            }
            i += 1;
        }
        Ok(signal)
    }
}

} // verus!
