//! What every part of a network offers, and the smallest part: a neuron.

use crate::backend::ops::{spec_binary, spec_unary};
use crate::backend::tape::Step;
use crate::backend::tensor::{leaf, Graph, GraphError, Op, RTensor, Tensor, TensorView};
use crate::nn::activations::relu;
use vstd::prelude::*;

verus! {

/// A graph together with what a forward pass over it returned.
pub type Pass = (Seq<TensorView>, Result<Seq<usize>, GraphError>);

/// The tape that resets the gradient of each of `parameters`.
pub open spec fn resets(parameters: Seq<usize>) -> Seq<Step> {
    Seq::new(parameters.len(), |i: int| Step::Reset { node: parameters[i] })
}

/// A part of a network: it has parameters, which are leaves of the graph,
/// and it maps input nodes to output nodes by adding nodes to the graph.
pub trait Module {
    /// The handles of the parameters.
    spec fn spec_parameters(&self) -> Seq<usize>;

    /// The graph after a forward pass on the inputs `x`, and what the pass
    /// returns: the handles of the outputs, or the error that stopped it.
    spec fn spec_forward(&self, nodes: Seq<TensorView>, x: Seq<usize>) -> Pass;

    /// The handles of the parameters.
    fn parameters(&self) -> (parameters: Vec<RTensor>)
        ensures
            parameters@ == self.spec_parameters(),
    ;

    /// Adds the nodes that compute the outputs for the inputs `x` and
    /// returns the handles of the outputs.
    ///
    /// A pass stops at the first operation that fails. Nodes added before
    /// that stay in the graph; no node that was there is changed.
    fn forward(&self, graph: &mut Graph, x: &Vec<RTensor>) -> (y: Result<Vec<RTensor>, GraphError>)
        requires
            old(graph).wf(),
        ensures
            final(graph).wf(),
            old(graph)@.is_prefix_of(final(graph)@),
            final(graph)@ == self.spec_forward(old(graph)@, x@).0,
            match y {
                Ok(out) => self.spec_forward(old(graph)@, x@).1 == Ok::<Seq<usize>, GraphError>(
                    out@,
                ),
                Err(e) => self.spec_forward(old(graph)@, x@).1 == Err::<Seq<usize>, GraphError>(e),
            },
    ;

    /// The tape that sets the gradient of every parameter back to zero.
    fn zero_grad(&self) -> (tape: Vec<Step>)
        ensures
            tape@ == resets(self.spec_parameters()),
    {
        let parameters = self.parameters();
        let mut tape: Vec<Step> = Vec::new();
        let mut i: usize = 0;
        while i < parameters.len()
            invariant
                i <= parameters@.len(),
                parameters@ == self.spec_parameters(),
                tape@ == resets(parameters@).take(i as int),
            decreases parameters@.len() - i,
        {
            tape.push(Step::Reset { node: parameters[i] });
            i += 1;
            assert(tape@ =~= resets(parameters@).take(i as int));
        }
        assert(resets(parameters@).take(i as int) =~= resets(parameters@));
        tape
    }
}

/// A neuron as a mathematical value.
pub struct NeuronView {
    pub weight: Seq<usize>,
    pub bias: usize,
    pub non_lin: bool,
}

/// A neuron: one scalar weight for each input, and a scalar bias.
#[derive(Debug)]
pub struct Neuron {
    weight: Vec<RTensor>,
    bias: RTensor,
    non_lin: bool,
}

impl View for Neuron {
    type V = NeuronView;

    closed spec fn view(&self) -> NeuronView {
        NeuronView { weight: self.weight@, bias: self.bias, non_lin: self.non_lin }
    }
}

/// `count` scalar leaves.
pub open spec fn scalar_leaves(count: nat) -> Seq<TensorView> {
    Seq::new(count, |i: int| leaf(Seq::empty()))
}

/// `count` handles in a row, the first being `first`.
pub open spec fn handles_from(first: int, count: nat) -> Seq<usize> {
    Seq::new(count, |i: int| (first + i) as usize)
}

/// Stops a pass at an error, or goes on with the handle it produced.
pub open spec fn and_then(
    step: (Seq<TensorView>, Result<RTensor, GraphError>),
    next: spec_fn(Seq<TensorView>, RTensor) -> (Seq<TensorView>, Result<RTensor, GraphError>),
) -> (Seq<TensorView>, Result<RTensor, GraphError>) {
    match step.1 {
        Err(e) => (step.0, Err(e)),
        Ok(handle) => next(step.0, handle),
    }
}

/// The graph after the first `n` weights have been multiplied with the
/// first `n` inputs and the products summed from the left, and the handle
/// of the sum. A pass stops at the first operation that fails.
pub open spec fn weighted_sum(nodes: Seq<TensorView>, w: Seq<usize>, x: Seq<usize>, n: nat) -> (
    Seq<TensorView>,
    Result<RTensor, GraphError>,
)
    decreases n,
{
    if n <= 1 {
        spec_binary(nodes, Op::Mul, w[0], x[0])
    } else {
        and_then(
            weighted_sum(nodes, w, x, (n - 1) as nat),
            |g: Seq<TensorView>, sum: RTensor|
                and_then(
                    spec_binary(g, Op::Mul, w[n - 1], x[n - 1]),
                    |g: Seq<TensorView>, product: RTensor| spec_binary(g, Op::Add, sum, product),
                ),
        )
    }
}

/// The number of weights that meet an input.
pub open spec fn pairs(neuron: NeuronView, x: Seq<usize>) -> nat {
    if neuron.weight.len() <= x.len() {
        neuron.weight.len()
    } else {
        x.len()
    }
}

/// The graph after a neuron has added its output for the inputs `x`, and
/// the handle of the output: the weighted sum of the inputs plus the bias,
/// rectified if the neuron is not linear.
pub open spec fn neuron_output(nodes: Seq<TensorView>, neuron: NeuronView, x: Seq<usize>) -> (
    Seq<TensorView>,
    Result<RTensor, GraphError>,
) {
    if pairs(neuron, x) == 0 {
        (nodes, Err(GraphError::EmptyInput))
    } else {
        and_then(
            weighted_sum(nodes, neuron.weight, x, pairs(neuron, x)),
            |g: Seq<TensorView>, sum: RTensor|
                and_then(
                    spec_binary(g, Op::Add, sum, neuron.bias),
                    |g: Seq<TensorView>, biased: RTensor|
                        if neuron.non_lin {
                            spec_unary(g, Op::Relu, biased)
                        } else {
                            (g, Ok(biased))
                        },
                ),
        )
    }
}

/// A pass that returns the one handle of `step`.
pub open spec fn single(step: (Seq<TensorView>, Result<RTensor, GraphError>)) -> Pass {
    match step.1 {
        Err(e) => (step.0, Err(e)),
        Ok(handle) => (step.0, Ok(seq![handle])),
    }
}

/// A weighted sum that has failed for some inputs fails for more inputs in
/// the same way.
proof fn lemma_weighted_sum_stops(
    nodes: Seq<TensorView>,
    w: Seq<usize>,
    x: Seq<usize>,
    n: nat,
    m: nat,
)
    requires
        1 <= n <= m,
        weighted_sum(nodes, w, x, n).1 is Err,
    ensures
        weighted_sum(nodes, w, x, m) == weighted_sum(nodes, w, x, n),
    decreases m,
{
    if n < m {
        lemma_weighted_sum_stops(nodes, w, x, n, (m - 1) as nat);
    }
}

impl Neuron {
    /// Adds `n_in` scalar leaves for the weights and one for the bias, and
    /// returns the neuron that holds them. The host gives the leaves their
    /// initial data.
    pub fn new(graph: &mut Graph, n_in: usize, non_lin: bool) -> (neuron: Neuron)
        requires
            old(graph).wf(),
        ensures
            final(graph).wf(),
            final(graph)@ == old(graph)@ + scalar_leaves((n_in + 1) as nat),
            neuron@.weight == handles_from(old(graph)@.len() as int, n_in as nat),
            neuron@.bias == old(graph)@.len() + n_in,
            neuron@.non_lin == non_lin,
    {
        let scalar: [usize; 0] = [];
        let mut weight: Vec<RTensor> = Vec::new();
        let mut i: usize = 0;
        while i < n_in
            invariant
                i <= n_in,
                graph.wf(),
                scalar@.len() == 0,
                graph@ == old(graph)@ + scalar_leaves(i as nat),
                weight@ == handles_from(old(graph)@.len() as int, i as nat),
            decreases n_in - i,
        {
            let handle = Tensor::new_ref(graph, scalar.as_slice());
            weight.push(handle);
            i += 1;
            assert(scalar@ =~= Seq::<usize>::empty());
            assert(graph@ =~= old(graph)@ + scalar_leaves(i as nat));
            assert(weight@ =~= handles_from(old(graph)@.len() as int, i as nat));
        }
        let bias = Tensor::new_ref(graph, scalar.as_slice());
        assert(scalar@ =~= Seq::<usize>::empty());
        assert(graph@ =~= old(graph)@ + scalar_leaves((n_in + 1) as nat));
        Neuron { weight, bias, non_lin }
    }
}

impl Module for Neuron {
    open spec fn spec_parameters(&self) -> Seq<usize> {
        self@.weight.push(self@.bias)
    }

    open spec fn spec_forward(&self, nodes: Seq<TensorView>, x: Seq<usize>) -> Pass {
        single(neuron_output(nodes, self@, x))
    }

    fn parameters(&self) -> (parameters: Vec<RTensor>) {
        let mut parameters: Vec<RTensor> = Vec::new();
        let mut i: usize = 0;
        while i < self.weight.len()
            invariant
                i <= self.weight@.len(),
                parameters@ == self.weight@.take(i as int),
            decreases self.weight@.len() - i,
        {
            parameters.push(self.weight[i]);
            i += 1;
            assert(parameters@ =~= self.weight@.take(i as int));
        }
        assert(self.weight@.take(i as int) =~= self.weight@);
        parameters.push(self.bias);
        parameters
    }

    fn forward(&self, graph: &mut Graph, x: &Vec<RTensor>) -> (y: Result<Vec<RTensor>, GraphError>) {
        let n = if self.weight.len() <= x.len() {
            self.weight.len()
        } else {
            x.len()
        };
        if n == 0 {
            return Err(GraphError::EmptyInput);
        }
        let mut aux = match crate::backend::ops::mul(graph, self.weight[0], x[0]) {
            Ok(handle) => handle,
            Err(e) => {
                proof {
                    lemma_weighted_sum_stops(old(graph)@, self@.weight, x@, 1, n as nat);
                }
                return Err(e);
            },
        };
        let mut i: usize = 1;
        while i < n
            invariant
                1 <= i <= n,
                n == pairs(self@, x@),
                graph.wf(),
                old(graph)@.is_prefix_of(graph@),
                weighted_sum(old(graph)@, self@.weight, x@, i as nat) == (
                    graph@,
                    Ok::<RTensor, GraphError>(aux),
                ),
            decreases n - i,
        {
            let product = match crate::backend::ops::mul(graph, self.weight[i], x[i]) {
                Ok(handle) => handle,
                Err(e) => {
                    proof {
                        lemma_weighted_sum_stops(
                            old(graph)@,
                            self@.weight,
                            x@,
                            (i + 1) as nat,
                            n as nat,
                        );
                    }
                    return Err(e);
                },
            };
            aux = match crate::backend::ops::add(graph, aux, product) {
                Ok(handle) => handle,
                Err(e) => {
                    proof {
                        lemma_weighted_sum_stops(
                            old(graph)@,
                            self@.weight,
                            x@,
                            (i + 1) as nat,
                            n as nat,
                        );
                    }
                    return Err(e);
                },
            };
            i += 1;
        }
        aux = match crate::backend::ops::add(graph, aux, self.bias) {
            Ok(handle) => handle,
            Err(e) => {
                return Err(e);
            },
        };
        if self.non_lin {
            aux = match relu(graph, aux) {
                Ok(handle) => handle,
                Err(e) => {
                    return Err(e);
                },
            };
        }
        let mut y: Vec<RTensor> = Vec::new();
        y.push(aux);
        assert(y@ =~= seq![aux]);
        Ok(y)
    }
}

} // verus!
