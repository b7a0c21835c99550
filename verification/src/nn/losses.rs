//! Loss functions.

use crate::backend::ops::{binary_error, diff, outcome, pow, with_diff, with_node, TWO};
use crate::backend::tensor::{Graph, GraphError, Op, RTensor, TensorView};
use vstd::prelude::*;

verus! {

/// The graph after the squared error of `y_true` and `y_pred` has been
/// added: their difference, and its second power.
pub open spec fn with_squared_error(nodes: Seq<TensorView>, y_true: usize, y_pred: usize) -> Seq<
    TensorView,
> {
    let difference = with_diff(nodes, y_true, y_pred);
    with_node(difference, Op::Pow { power: TWO }, seq![(difference.len() - 1) as usize])
}

/// Adds the elementwise squared error `(y_true - y_pred)^2` and returns its
/// handle.
///
/// Both operands must be nodes of the graph and have the same shape;
/// otherwise the graph is left as it was.
pub fn squared_error(graph: &mut Graph, y_true: RTensor, y_pred: RTensor) -> (loss: Result<
    RTensor,
    GraphError,
>)
    requires
        old(graph).wf(),
    ensures
        final(graph).wf(),
        outcome(
            old(graph)@,
            final(graph)@,
            loss,
            binary_error(old(graph)@, y_true, y_pred),
            with_squared_error(old(graph)@, y_true, y_pred),
        ),
{
    let difference = match diff(graph, y_true, y_pred) {
        Ok(handle) => handle,
        Err(e) => {
            return Err(e);
        },
    };
    pow(graph, difference, TWO)
}

} // verus!
