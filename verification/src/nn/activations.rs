//! Activation functions: each adds a node to the graph and has a local
//! gradient rule.

use crate::backend::ops::{one, outcome, push_elementwise, unary_error, with_node};
use crate::backend::tape::{local_rule, Factor, Step};
use crate::backend::tensor::{Graph, GraphError, Op, RTensor, Tensor};
use vstd::prelude::*;

verus! {

/// Adds the elementwise maximum of `t` and zero and returns its handle.
///
/// The operand must be a node of the graph; otherwise the graph is left as
/// it was.
pub fn relu(graph: &mut Graph, t: RTensor) -> (rectified: Result<RTensor, GraphError>)
    requires
        old(graph).wf(),
    ensures
        final(graph).wf(),
        outcome(
            old(graph)@,
            final(graph)@,
            rectified,
            unary_error(old(graph)@, t),
            with_node(old(graph)@, Op::Relu, seq![t]),
        ),
{
    push_elementwise(graph, Op::Relu, one(t))
}

/// The local gradient rule of a rectifier: the operand receives the
/// gradient of the node where its own data is positive, and nothing
/// elsewhere.
pub(crate) fn relu_backward(t: &Tensor, at: RTensor, tape: &mut Vec<Step>)
    requires
        t@.op is Relu,
        t@.prev.len() == 1,
    ensures
        final(tape)@ == old(tape)@ + local_rule(t@, at),
{
    let t_prev = t.prev[0];
    tape.push(Step::Accumulate { from: at, into: t_prev, factor: Factor::Positive });
    assert(tape@ =~= old(tape)@ + local_rule(t@, at));
}

/// Adds the elementwise hyperbolic tangent of `t` and returns its handle.
///
/// The operand must be a node of the graph; otherwise the graph is left as
/// it was.
pub fn tanh(graph: &mut Graph, t: RTensor) -> (squashed: Result<RTensor, GraphError>)
    requires
        old(graph).wf(),
    ensures
        final(graph).wf(),
        outcome(
            old(graph)@,
            final(graph)@,
            squashed,
            unary_error(old(graph)@, t),
            with_node(old(graph)@, Op::Tanh, seq![t]),
        ),
{
    push_elementwise(graph, Op::Tanh, one(t))
}

/// The local gradient rule of a hyperbolic tangent `y = tanh(x)`: the
/// operand receives the gradient of the node times `1 - y^2`, taken from
/// the data the node already holds.
pub(crate) fn tanh_backward(t: &Tensor, at: RTensor, tape: &mut Vec<Step>)
    requires
        t@.op is Tanh,
        t@.prev.len() == 1,
    ensures
        final(tape)@ == old(tape)@ + local_rule(t@, at),
{
    let t_prev = t.prev[0];
    tape.push(Step::Accumulate { from: at, into: t_prev, factor: Factor::OneMinusSquare });
    assert(tape@ =~= old(tape)@ + local_rule(t@, at));
}

} // verus!
