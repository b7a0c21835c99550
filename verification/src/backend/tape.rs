//! The tape of a backward pass.
//!
//! A backward pass is laid out as a sequence of steps over the gradients of
//! the nodes. The host that owns the numbers runs the steps in order; the
//! tape fixes which gradient is touched when, and by which local rule.

use crate::backend::tensor::{fits, operands_below, well_formed, Op, RTensor, TensorView};
use vstd::prelude::*;

verus! {

/// The local derivative by which a node's gradient `g` is scaled before it
/// is added to the gradient of one of its operands.
#[derive(Clone, Copy, Debug, PartialEq, Eq, Structural)]
pub enum Factor {
    /// The contribution is `g` itself.
    Identity,
    /// The contribution is `g * data(other)`, elementwise.
    Times { other: RTensor },
    /// The contribution is the matrix product of `g` with the transpose of
    /// `data(other)`.
    TimesTransposed { other: RTensor },
    /// The contribution is the matrix product of the transpose of
    /// `data(other)` with `g`.
    TransposedTimes { other: RTensor },
    /// The contribution is `g * (p * x^(p - 1))`, elementwise, where `x` is
    /// the data of the operand and `p` the exponent, given as an IEEE 754
    /// binary32 bit pattern.
    Power { power: u32 },
    /// The contribution is `g` where the data of the operand is positive and
    /// zero elsewhere.
    Positive,
    /// The contribution is `g * (1 - y^2)`, elementwise, where `y` is the
    /// data of the propagating node.
    OneMinusSquare,
}

/// One step of a tape.
#[derive(Clone, Copy, Debug, PartialEq, Eq, Structural)]
pub enum Step {
    /// Set every element of the gradient of `node` to one.
    Seed { node: RTensor },
    /// Set every element of the gradient of `node` to zero.
    Reset { node: RTensor },
    /// Add to the gradient of `into` the gradient of `from` scaled by
    /// `factor`.
    Accumulate { from: RTensor, into: RTensor, factor: Factor },
}

/// The factor with which a node of operation `op` contributes to its operand
/// in slot `k`, the operands being `prev`.
pub open spec fn local_factor(op: Op, prev: Seq<usize>, k: int) -> Factor {
    match op {
        Op::Leaf | Op::Constant { .. } | Op::Add => Factor::Identity,
        Op::Mul => Factor::Times { other: prev[1 - k] },
        Op::Dot => if k == 0 {
            Factor::TimesTransposed { other: prev[1] }
        } else {
            Factor::TransposedTimes { other: prev[0] }
        },
        Op::Pow { power } => Factor::Power { power },
        Op::Relu => Factor::Positive,
        Op::Tanh => Factor::OneMinusSquare,
    }
}

/// The local gradient rule of the node `t` that stands at `at`: one
/// accumulation for each operand slot, in argument order.
pub open spec fn local_rule(t: TensorView, at: usize) -> Seq<Step> {
    Seq::new(
        t.prev.len(),
        |k: int| Step::Accumulate { from: at, into: t.prev[k], factor: local_factor(t.op, t.prev, k) },
    )
}

/// The local rules of the nodes of `order`, one after the other.
pub open spec fn rules_of(nodes: Seq<TensorView>, order: Seq<usize>) -> Seq<Step>
    decreases order.len(),
{
    if order.len() == 0 {
        Seq::empty()
    } else {
        rules_of(nodes, order.drop_last()) + local_rule(
            nodes[order.last() as int],
            order.last(),
        )
    }
}

/// The shape of the gradient of `from` scaled by `factor`, or `None` where
/// the shapes at hand do not allow the product.
pub open spec fn contribution_shape(nodes: Seq<TensorView>, from: usize, factor: Factor) -> Option<
    Seq<usize>,
> {
    let g = nodes[from as int].shape;
    match factor {
        Factor::Identity | Factor::Power { .. } | Factor::Positive | Factor::OneMinusSquare => Some(
            g,
        ),
        Factor::Times { other } => if other < nodes.len() && nodes[other as int].shape == g {
            Some(g)
        } else {
            None
        },
        Factor::TimesTransposed { other } => {
            let o = nodes[other as int].shape;
            if other < nodes.len() && g.len() == 2 && o.len() == 2 && g[1] == o[1] {
                Some(seq![g[0], o[0]])
            } else {
                None
            }
        },
        Factor::TransposedTimes { other } => {
            let o = nodes[other as int].shape;
            if other < nodes.len() && g.len() == 2 && o.len() == 2 && o[0] == g[0] {
                Some(seq![o[1], g[1]])
            } else {
                None
            }
        },
    }
}

/// The position in `order` of the node whose local rule holds step `a` of
/// `rules_of(nodes, order)`.
pub open spec fn origin(nodes: Seq<TensorView>, order: Seq<usize>, a: int) -> int
    decreases order.len(),
{
    if order.len() == 0 {
        0
    } else if a >= rules_of(nodes, order.drop_last()).len() {
        order.len() - 1
    } else {
        origin(nodes, order.drop_last(), a)
    }
}

/// Every step of `rules_of(nodes, order)` is one step of the local rule of
/// a node of `order`, the one at its origin.
pub proof fn lemma_origin(nodes: Seq<TensorView>, order: Seq<usize>, a: int)
    requires
        0 <= a < rules_of(nodes, order).len(),
    ensures
        0 <= origin(nodes, order, a) < order.len(),
        exists|k: int|
            0 <= k < nodes[order[origin(nodes, order, a)] as int].prev.len() && rules_of(
                nodes,
                order,
            )[a] == #[trigger] local_rule(
                nodes[order[origin(nodes, order, a)] as int],
                order[origin(nodes, order, a)],
            )[k],
    decreases order.len(),
{
    let before = rules_of(nodes, order.drop_last());
    let block = local_rule(nodes[order.last() as int], order.last());
    if a >= before.len() {
        assert(rules_of(nodes, order)[a] == block[a - before.len()]);
    } else {
        lemma_origin(nodes, order.drop_last(), a);
        let i = origin(nodes, order.drop_last(), a);
        assert(order.drop_last()[i] == order[i]);
        let k = choose|k: int|
            0 <= k < nodes[order[i] as int].prev.len() && before[a] == #[trigger] local_rule(
                nodes[order[i] as int],
                order[i],
            )[k];
        assert(rules_of(nodes, order)[a] == local_rule(nodes[order[i] as int], order[i])[k]);
    }
}

/// Steps keep the order of the nodes they come from.
pub proof fn lemma_origin_monotone(nodes: Seq<TensorView>, order: Seq<usize>, a: int, b: int)
    requires
        0 <= a <= b < rules_of(nodes, order).len(),
    ensures
        origin(nodes, order, a) <= origin(nodes, order, b),
    decreases order.len(),
{
    let before = rules_of(nodes, order.drop_last());
    if b >= before.len() {
        lemma_origin(nodes, order, a);
    } else {
        lemma_origin_monotone(nodes, order.drop_last(), a, b);
    }
}

/// In a well-formed graph the contribution to each operand has the shape of
/// that operand, so a gradient keeps the shape of its data. For a matrix
/// product of an `m x k` and a `k x n` operand the contributions are
/// `m x k` and `k x n`.
pub proof fn lemma_local_rule_shapes(nodes: Seq<TensorView>, v: usize, k: int)
    requires
        well_formed(nodes),
        v < nodes.len(),
        0 <= k < nodes[v as int].prev.len(),
    ensures
        nodes[v as int].prev[k] < v,
        contribution_shape(nodes, v, local_factor(nodes[v as int].op, nodes[v as int].prev, k))
            == Some(nodes[nodes[v as int].prev[k] as int].shape),
{
    let t = nodes[v as int];
    assert(fits(nodes, v as int, t));
    assert(operands_below(t, v as int));
    assert(t.prev[k] < v);
    if t.prev.len() == 2 {
        assert(t.prev[0] < v);
        assert(t.prev[1] < v);
        assert(k == 0 || k == 1);
    }
    if t.op is Dot {
        let a = nodes[t.prev[0] as int].shape;
        let b = nodes[t.prev[1] as int].shape;
        assert(a =~= seq![a[0], a[1]]);
        assert(b =~= seq![b[0], b[1]]);
    }
}

/// The number of steps of `tape` that add to the gradient of `x`.
pub open spec fn accumulations_into(tape: Seq<Step>, x: usize) -> nat
    decreases tape.len(),
{
    if tape.len() == 0 {
        0
    } else {
        let rest = accumulations_into(tape.drop_last(), x);
        match tape.last() {
            Step::Accumulate { into, .. } => if into == x {
                rest + 1
            } else {
                rest
            },
            _ => rest,
        }
    }
}

/// The number of operand slots among `prev` that hold `x`.
pub open spec fn slots_holding(prev: Seq<usize>, x: usize) -> nat
    decreases prev.len(),
{
    if prev.len() == 0 {
        0
    } else if prev.last() == x {
        slots_holding(prev.drop_last(), x) + 1
    } else {
        slots_holding(prev.drop_last(), x)
    }
}

/// The number of operand slots of the nodes of `order` that hold `x`.
pub open spec fn uses(nodes: Seq<TensorView>, order: Seq<usize>, x: usize) -> nat
    decreases order.len(),
{
    if order.len() == 0 {
        0
    } else {
        uses(nodes, order.drop_last(), x) + slots_holding(nodes[order.last() as int].prev, x)
    }
}

/// The accumulations of two tapes, one after the other, add up.
pub proof fn lemma_accumulations_concat(a: Seq<Step>, b: Seq<Step>, x: usize)
    ensures
        accumulations_into(a + b, x) == accumulations_into(a, x) + accumulations_into(b, x),
    decreases b.len(),
{
    if b.len() == 0 {
        assert(a + b =~= a);
    } else {
        assert((a + b).drop_last() =~= a + b.drop_last());
        assert((a + b).last() == b.last());
        lemma_accumulations_concat(a, b.drop_last(), x);
    }
}

/// Steps that add to one operand each, slot by slot, add to `x` once for
/// each slot that holds `x`.
proof fn lemma_accumulations_per_slot(steps: Seq<Step>, prev: Seq<usize>, x: usize)
    requires
        steps.len() == prev.len(),
        forall|k: int|
            0 <= k < steps.len() ==> (#[trigger] steps[k]) is Accumulate && steps[k]->into
                == prev[k],
    ensures
        accumulations_into(steps, x) == slots_holding(prev, x),
    decreases steps.len(),
{
    if steps.len() > 0 {
        assert(steps.last() == steps[steps.len() - 1]);
        assert forall|k: int| 0 <= k < steps.drop_last().len() implies (
        #[trigger] steps.drop_last()[k]) is Accumulate && steps.drop_last()[k]->into
            == prev.drop_last()[k] by {
            assert(steps.drop_last()[k] == steps[k]);
        }
        lemma_accumulations_per_slot(steps.drop_last(), prev.drop_last(), x);
    }
}

/// The local rules of the nodes of `order` add to the gradient of `x` once
/// for each operand slot of those nodes that holds `x`.
pub proof fn lemma_accumulations_of_rules(nodes: Seq<TensorView>, order: Seq<usize>, x: usize)
    ensures
        accumulations_into(rules_of(nodes, order), x) == uses(nodes, order, x),
    decreases order.len(),
{
    if order.len() > 0 {
        let t = nodes[order.last() as int];
        lemma_accumulations_of_rules(nodes, order.drop_last(), x);
        lemma_accumulations_per_slot(local_rule(t, order.last()), t.prev, x);
        lemma_accumulations_concat(
            rules_of(nodes, order.drop_last()),
            local_rule(t, order.last()),
            x,
        );
    }
}

} // verus!
