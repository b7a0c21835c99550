//! The arithmetic operations: each adds a node to the graph and has a local
//! gradient rule.

use crate::backend::tape::{local_rule, Factor, Step};
use crate::backend::tensor::{
    copy_shape, operands_below, same_shape, Graph, GraphError, Op, RTensor, Tensor, TensorView,
};
use vstd::prelude::*;

verus! {

/// The bit pattern of the constant `-1`.
pub const NEG_ONE: u32 = 0xBF80_0000;

/// The bit pattern of the constant `2`.
pub const TWO: u32 = 0x4000_0000;

/// The node that an elementwise operation adds: it has the shape of its
/// first operand.
pub open spec fn elementwise(nodes: Seq<TensorView>, op: Op, prev: Seq<usize>) -> TensorView {
    TensorView { shape: nodes[prev[0] as int].shape, prev, op }
}

/// The graph after an elementwise operation on `prev` has added its node.
pub open spec fn with_node(nodes: Seq<TensorView>, op: Op, prev: Seq<usize>) -> Seq<TensorView> {
    nodes.push(elementwise(nodes, op, prev))
}

/// The graph after a constant of the given shape has been added.
pub open spec fn with_constant(nodes: Seq<TensorView>, shape: Seq<usize>, bits: u32) -> Seq<
    TensorView,
> {
    nodes.push(TensorView { shape, prev: Seq::empty(), op: Op::Constant { bits } })
}

/// The handle that the next node added to `nodes` gets.
pub open spec fn next(nodes: Seq<TensorView>) -> usize {
    nodes.len() as usize
}

/// The error of a unary operation on `t`, if there is one: a handle that
/// names no node.
pub open spec fn unary_error(nodes: Seq<TensorView>, t: usize) -> Option<GraphError> {
    if t >= nodes.len() {
        Some(GraphError::UnknownNode)
    } else {
        None
    }
}

/// The error of a binary elementwise operation on `t1` and `t2`, if there
/// is one: a handle that names no node, or else shapes that differ.
pub open spec fn binary_error(nodes: Seq<TensorView>, t1: usize, t2: usize) -> Option<GraphError> {
    if t1 >= nodes.len() || t2 >= nodes.len() {
        Some(GraphError::UnknownNode)
    } else if nodes[t1 as int].shape != nodes[t2 as int].shape {
        Some(GraphError::ShapeMismatch)
    } else {
        None
    }
}

/// The error of a matrix product of `t1` and `t2`, if there is one: a handle
/// that names no node, or else operands that are not an `m x k` and a
/// `k x n` matrix.
pub open spec fn dot_error(nodes: Seq<TensorView>, t1: usize, t2: usize) -> Option<GraphError> {
    if t1 >= nodes.len() || t2 >= nodes.len() {
        Some(GraphError::UnknownNode)
    } else {
        let a = nodes[t1 as int].shape;
        let b = nodes[t2 as int].shape;
        if a.len() == 2 && b.len() == 2 && a[1] == b[0] {
            None
        } else {
            Some(GraphError::ShapeMismatch)
        }
    }
}

/// The graph after the matrix product of `t1` and `t2` has been added: an
/// `m x k` and a `k x n` operand give an `m x n` node.
pub open spec fn with_dot(nodes: Seq<TensorView>, t1: usize, t2: usize) -> Seq<TensorView> {
    nodes.push(
        TensorView {
            shape: seq![nodes[t1 as int].shape[0], nodes[t2 as int].shape[1]],
            prev: seq![t1, t2],
            op: Op::Dot,
        },
    )
}

/// The graph after the difference of `t1` and `t2` has been added: a
/// constant `-1` of their shape, its product with `t2`, and the sum of `t1`
/// and that product.
pub open spec fn with_diff(nodes: Seq<TensorView>, t1: usize, t2: usize) -> Seq<TensorView> {
    let constant = with_constant(nodes, nodes[t1 as int].shape, NEG_ONE);
    let negated = with_node(constant, Op::Mul, seq![t2, next(nodes)]);
    with_node(negated, Op::Add, seq![t1, next(constant)])
}

/// The graph after the quotient of `t1` and `t2` has been added: `t2` to
/// the power `-1`, and the product of `t1` with it.
pub open spec fn with_div(nodes: Seq<TensorView>, t1: usize, t2: usize) -> Seq<TensorView> {
    let inverse = with_node(nodes, Op::Pow { power: NEG_ONE }, seq![t2]);
    with_node(inverse, Op::Mul, seq![t1, next(nodes)])
}

/// What an operation leaves behind: on success the graph `after` and the
/// handle of its last node, on failure the error and the graph as it was.
pub open spec fn outcome(
    before: Seq<TensorView>,
    now: Seq<TensorView>,
    result: Result<RTensor, GraphError>,
    error: Option<GraphError>,
    after: Seq<TensorView>,
) -> bool {
    match result {
        Ok(handle) => error is None && now == after && handle == after.len() - 1,
        Err(e) => error == Some(e) && now == before,
    }
}

/// The graph and the result that [`outcome`] describes, as a pair.
pub open spec fn applied(before: Seq<TensorView>, error: Option<GraphError>, after: Seq<TensorView>) -> (
    Seq<TensorView>,
    Result<RTensor, GraphError>,
) {
    match error {
        Some(e) => (before, Err(e)),
        None => (after, Ok((after.len() - 1) as usize)),
    }
}

/// What [`add`] and [`mul`] do to a graph and return.
pub open spec fn spec_binary(nodes: Seq<TensorView>, op: Op, t1: usize, t2: usize) -> (
    Seq<TensorView>,
    Result<RTensor, GraphError>,
) {
    applied(nodes, binary_error(nodes, t1, t2), with_node(nodes, op, seq![t1, t2]))
}

/// What a unary operation does to a graph and returns.
pub open spec fn spec_unary(nodes: Seq<TensorView>, op: Op, t: usize) -> (
    Seq<TensorView>,
    Result<RTensor, GraphError>,
) {
    applied(nodes, unary_error(nodes, t), with_node(nodes, op, seq![t]))
}

/// What [`dot`] does to a graph and returns.
pub open spec fn spec_dot(nodes: Seq<TensorView>, t1: usize, t2: usize) -> (
    Seq<TensorView>,
    Result<RTensor, GraphError>,
) {
    applied(nodes, dot_error(nodes, t1, t2), with_dot(nodes, t1, t2))
}

/// Building is repeatable: adding a node changes no node that was there,
/// and the same operation on the same operands adds the same node again.
pub proof fn lemma_with_node_repeatable(nodes: Seq<TensorView>, op: Op, prev: Seq<usize>)
    requires
        0 < prev.len(),
        prev[0] < nodes.len(),
    ensures
        nodes.is_prefix_of(with_node(nodes, op, prev)),
        elementwise(with_node(nodes, op, prev), op, prev) == elementwise(nodes, op, prev),
{
}

/// Building a matrix product is repeatable: adding the product changes no
/// node that was there, and the same product of the same operands adds the
/// same node again.
pub proof fn lemma_with_dot_repeatable(nodes: Seq<TensorView>, t1: usize, t2: usize)
    requires
        t1 < nodes.len(),
        t2 < nodes.len(),
    ensures
        nodes.is_prefix_of(with_dot(nodes, t1, t2)),
        with_dot(with_dot(nodes, t1, t2), t1, t2).last() == with_dot(nodes, t1, t2).last(),
{
}

/// The error of a binary elementwise operation, computed.
fn check_binary(graph: &Graph, t1: RTensor, t2: RTensor) -> (error: Option<GraphError>)
    ensures
        error == binary_error(graph@, t1, t2),
{
    match (graph.get(t1), graph.get(t2)) {
        (Some(a), Some(b)) => {
            if same_shape(a.shape.as_slice(), b.shape.as_slice()) {
                None
            } else {
                Some(GraphError::ShapeMismatch)
            }
        },
        _ => Some(GraphError::UnknownNode),
    }
}

/// Adds the node of a unary or binary elementwise operation.
pub(crate) fn push_elementwise(graph: &mut Graph, op: Op, prev: Vec<RTensor>) -> (added: Result<
    RTensor,
    GraphError,
>)
    requires
        old(graph).wf(),
        prev@.len() == op.spec_arity(),
        op is Add || op is Mul || op is Pow || op is Relu || op is Tanh,
    ensures
        final(graph).wf(),
        outcome(
            old(graph)@,
            final(graph)@,
            added,
            if prev@.len() == 2 {
                binary_error(old(graph)@, prev@[0], prev@[1])
            } else {
                unary_error(old(graph)@, prev@[0])
            },
            with_node(old(graph)@, op, prev@),
        ),
{
    let shape = match graph.get(prev[0]) {
        Some(first) => copy_shape(first.shape.as_slice()),
        None => {
            return Err(GraphError::UnknownNode);
        },
    };
    let t = Tensor { shape, prev, op };
    assert(t@ == elementwise(graph@, op, prev@));
    let added = t.to_ref(graph);
    proof {
        if prev@.len() == 2 {
            assert(prev@[1] < old(graph)@.len() <==> operands_below(
                t@,
                old(graph)@.len() as int,
            )) by {
                if prev@[1] < old(graph)@.len() {
                    assert forall|k: int| 0 <= k < t@.prev.len() implies (#[trigger] t@.prev[k])
                        < old(graph)@.len() by {
                        assert(k == 0 || k == 1);
                    }
                }
            }
        } else {
            assert(operands_below(t@, old(graph)@.len() as int));
        }
    }
    added
}

/// A vector of one handle.
pub(crate) fn one(t: RTensor) -> (prev: Vec<RTensor>)
    ensures
        prev@ == seq![t],
{
    let mut prev: Vec<RTensor> = Vec::new();
    prev.push(t);
    assert(prev@ =~= seq![t]);
    prev
}

/// A vector of two handles.
fn two(t1: RTensor, t2: RTensor) -> (prev: Vec<RTensor>)
    ensures
        prev@ == seq![t1, t2],
{
    let mut prev: Vec<RTensor> = Vec::new();
    prev.push(t1);
    prev.push(t2);
    assert(prev@ =~= seq![t1, t2]);
    prev
}

/// Adds the elementwise sum of `t1` and `t2` and returns its handle.
///
/// Both operands must be nodes of the graph and have the same shape;
/// otherwise the graph is left as it was.
pub fn add(graph: &mut Graph, t1: RTensor, t2: RTensor) -> (sum: Result<RTensor, GraphError>)
    requires
        old(graph).wf(),
    ensures
        final(graph).wf(),
        outcome(
            old(graph)@,
            final(graph)@,
            sum,
            binary_error(old(graph)@, t1, t2),
            with_node(old(graph)@, Op::Add, seq![t1, t2]),
        ),
{
    push_elementwise(graph, Op::Add, two(t1, t2))
}

/// The local gradient rule of a sum: every operand receives the gradient
/// of the sum as it is.
pub(crate) fn add_backward(t: &Tensor, at: RTensor, tape: &mut Vec<Step>)
    requires
        t@.op is Add,
    ensures
        final(tape)@ == old(tape)@ + local_rule(t@, at),
{
    let mut k: usize = 0;
    while k < t.prev.len()
        invariant
            k <= t@.prev.len(),
            t@.op is Add,
            tape@ == old(tape)@ + local_rule(t@, at).take(k as int),
        decreases t@.prev.len() - k,
    {
        tape.push(Step::Accumulate { from: at, into: t.prev[k], factor: Factor::Identity });
        k += 1;
        assert(tape@ =~= old(tape)@ + local_rule(t@, at).take(k as int));
    }
    assert(local_rule(t@, at).take(k as int) =~= local_rule(t@, at));
}

/// Adds the elementwise difference of `t1` and `t2` and returns its handle.
///
/// The difference is the sum of `t1` and the product of `t2` with a
/// constant `-1`, so three nodes are added. Both operands must be nodes of
/// the graph and have the same shape; otherwise the graph is left as it
/// was.
pub fn diff(graph: &mut Graph, t1: RTensor, t2: RTensor) -> (difference: Result<
    RTensor,
    GraphError,
>)
    requires
        old(graph).wf(),
    ensures
        final(graph).wf(),
        outcome(
            old(graph)@,
            final(graph)@,
            difference,
            binary_error(old(graph)@, t1, t2),
            with_diff(old(graph)@, t1, t2),
        ),
{
    if let Some(e) = check_binary(graph, t1, t2) {
        return Err(e);
    }
    let shape = copy_shape(graph.node(t1).shape.as_slice());
    let constant = Tensor { shape, prev: Vec::new(), op: Op::Constant { bits: NEG_ONE } };
    let minus_one = match constant.to_ref(graph) {
        Ok(handle) => handle,
        Err(e) => {
            return Err(e);
        },
    };
    let negated = match self::mul(graph, t2, minus_one) {
        Ok(handle) => handle,
        Err(e) => {
            return Err(e);
        },
    };
    self::add(graph, t1, negated)
}

/// Adds the elementwise product of `t1` and `t2` and returns its handle.
///
/// Both operands must be nodes of the graph and have the same shape;
/// otherwise the graph is left as it was.
pub fn mul(graph: &mut Graph, t1: RTensor, t2: RTensor) -> (product: Result<RTensor, GraphError>)
    requires
        old(graph).wf(),
    ensures
        final(graph).wf(),
        outcome(
            old(graph)@,
            final(graph)@,
            product,
            binary_error(old(graph)@, t1, t2),
            with_node(old(graph)@, Op::Mul, seq![t1, t2]),
        ),
{
    push_elementwise(graph, Op::Mul, two(t1, t2))
}

/// The local gradient rule of a product: each operand receives the gradient
/// of the product times the data of the other operand.
pub(crate) fn mul_backward(t: &Tensor, at: RTensor, tape: &mut Vec<Step>)
    requires
        t@.op is Mul,
        t@.prev.len() == 2,
    ensures
        final(tape)@ == old(tape)@ + local_rule(t@, at),
{
    let t1 = t.prev[0];
    let t2 = t.prev[1];
    tape.push(Step::Accumulate { from: at, into: t1, factor: Factor::Times { other: t2 } });
    tape.push(Step::Accumulate { from: at, into: t2, factor: Factor::Times { other: t1 } });
    assert(tape@ =~= old(tape)@ + local_rule(t@, at));
}

/// Adds the matrix product of `t1` and `t2` and returns its handle.
///
/// Both operands must be nodes of the graph, `t1` an `m x k` matrix and
/// `t2` a `k x n` matrix; the product is an `m x n` matrix. Otherwise the
/// graph is left as it was.
pub fn dot(graph: &mut Graph, t1: RTensor, t2: RTensor) -> (product: Result<RTensor, GraphError>)
    requires
        old(graph).wf(),
    ensures
        final(graph).wf(),
        outcome(
            old(graph)@,
            final(graph)@,
            product,
            dot_error(old(graph)@, t1, t2),
            with_dot(old(graph)@, t1, t2),
        ),
{
    let shape = match (graph.get(t1), graph.get(t2)) {
        (Some(a), Some(b)) => {
            if a.shape.len() == 2 && b.shape.len() == 2 && a.shape[1] == b.shape[0] {
                two(a.shape[0], b.shape[1])
            } else {
                return Err(GraphError::ShapeMismatch);
            }
        },
        _ => {
            return Err(GraphError::UnknownNode);
        },
    };
    let t = Tensor { shape, prev: two(t1, t2), op: Op::Dot };
    proof {
        assert forall|k: int| 0 <= k < t@.prev.len() implies (#[trigger] t@.prev[k])
            < graph@.len() by {
            assert(k == 0 || k == 1);
        }
    }
    t.to_ref(graph)
}

/// The local gradient rule of a matrix product `a . b` with gradient `g`:
/// `a` receives `g . b^T` and `b` receives `a^T . g`.
pub(crate) fn dot_backward(t: &Tensor, at: RTensor, tape: &mut Vec<Step>)
    requires
        t@.op is Dot,
        t@.prev.len() == 2,
    ensures
        final(tape)@ == old(tape)@ + local_rule(t@, at),
{
    let t1 = t.prev[0];
    let t2 = t.prev[1];
    tape.push(
        Step::Accumulate { from: at, into: t1, factor: Factor::TimesTransposed { other: t2 } },
    );
    tape.push(
        Step::Accumulate { from: at, into: t2, factor: Factor::TransposedTimes { other: t1 } },
    );
    assert(tape@ =~= old(tape)@ + local_rule(t@, at));
}

/// Adds the elementwise quotient of `t1` and `t2` and returns its handle.
///
/// The quotient is the product of `t1` and `t2` to the power `-1`, so two
/// nodes are added. Both operands must be nodes of the graph and have the
/// same shape; otherwise the graph is left as it was.
pub fn div(graph: &mut Graph, t1: RTensor, t2: RTensor) -> (quotient: Result<RTensor, GraphError>)
    requires
        old(graph).wf(),
    ensures
        final(graph).wf(),
        outcome(
            old(graph)@,
            final(graph)@,
            quotient,
            binary_error(old(graph)@, t1, t2),
            with_div(old(graph)@, t1, t2),
        ),
{
    if let Some(e) = check_binary(graph, t1, t2) {
        return Err(e);
    }
    let inverse = match pow(graph, t2, NEG_ONE) {
        Ok(handle) => handle,
        Err(e) => {
            return Err(e);
        },
    };
    self::mul(graph, t1, inverse)
}

/// Adds `t1` raised elementwise to a constant power and returns its handle.
///
/// The exponent is given as an IEEE 754 binary32 bit pattern and is not a
/// node: no gradient flows to it. The operand must be a node of the graph;
/// otherwise the graph is left as it was.
pub fn pow(graph: &mut Graph, t1: RTensor, power: u32) -> (raised: Result<RTensor, GraphError>)
    requires
        old(graph).wf(),
    ensures
        final(graph).wf(),
        outcome(
            old(graph)@,
            final(graph)@,
            raised,
            unary_error(old(graph)@, t1),
            with_node(old(graph)@, Op::Pow { power }, seq![t1]),
        ),
{
    push_elementwise(graph, Op::Pow { power }, one(t1))
}

/// The local gradient rule of a power `x^p`: the operand receives the
/// gradient of the power times `p * x^(p - 1)`.
pub(crate) fn pow_backward(t: &Tensor, at: RTensor, power: u32, tape: &mut Vec<Step>)
    requires
        t@.op == (Op::Pow { power }),
        t@.prev.len() == 1,
    ensures
        final(tape)@ == old(tape)@ + local_rule(t@, at),
{
    let prev = t.prev[0];
    tape.push(Step::Accumulate { from: at, into: prev, factor: Factor::Power { power } });
    assert(tape@ =~= old(tape)@ + local_rule(t@, at));
}

} // verus!
