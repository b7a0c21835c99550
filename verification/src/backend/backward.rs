//! The backward pass: the search that orders it and the tape it lays out.

use crate::backend::ops::{add_backward, dot_backward, mul_backward, pow_backward};
use crate::backend::order::{
    backward_order, lemma_backward_order_consumers_first, lemma_backward_order_distinct,
    lemma_backward_order_members, lemma_depends_on_below, lemma_topological_order,
    lemma_visit_extends, lemma_visit_operands_in_extension, placement, topological_order,
    visit, visit_operands,
};
use crate::backend::tape::{
    accumulations_into, contribution_shape, lemma_accumulations_of_rules, lemma_local_rule_shapes,
    lemma_accumulations_concat, lemma_origin, lemma_origin_monotone, local_rule, origin,
    rules_of, uses, Factor, Step,
};
use crate::backend::tensor::{
    fits, operands_below, well_formed, Graph, GraphError, Op, RTensor, Tensor, TensorView,
};
use crate::nn::activations::{relu_backward, tanh_backward};
use std::collections::HashSet;
use vstd::prelude::*;

verus! {

broadcast use vstd::std_specs::hash::group_hash_axioms;

/// What a sequence contains after one more element is pushed.
proof fn lemma_push_contains(s: Seq<usize>, x: usize)
    ensures
        forall|u: usize| s.push(x).contains(u) <==> (s.contains(u) || u == x),
{
    assert forall|u: usize| s.push(x).contains(u) <==> (s.contains(u) || u == x) by {
        if s.contains(u) {
            let i = choose|i: int| 0 <= i < s.len() && s[i] == u;
            assert(s.push(x)[i] == u);
        }
        if u == x {
            assert(s.push(x)[s.len() as int] == u);
        }
        if s.push(x).contains(u) {
            let i = choose|i: int| 0 <= i < s.push(x).len() && s.push(x)[i] == u;
            if i < s.len() {
                assert(s[i] == u);
            }
        }
    }
}

/// The tape of a backward pass from `root`: the gradient of the root is
/// seeded with ones, then the root and every node it depends on apply
/// their local rule, in the order of the backward pass.
pub open spec fn backward_tape(nodes: Seq<TensorView>, root: usize) -> Seq<Step> {
    seq![Step::Seed { node: root }] + rules_of(nodes, backward_order(nodes, root))
}

/// What stands in a prefix stands in the whole.
proof fn lemma_extended_contains(a: Seq<usize>, b: Seq<usize>)
    requires
        a.is_prefix_of(b),
    ensures
        forall|u: usize| a.contains(u) ==> b.contains(u),
{
    assert forall|u: usize| a.contains(u) implies b.contains(u) by {
        let i = choose|i: int| 0 <= i < a.len() && a[i] == u;
        assert(b[i] == u);
    }
}

/// The rules of an order that grows by one node grow by that node's rule.
proof fn lemma_rules_of_next(nodes: Seq<TensorView>, order: Seq<usize>, m: int)
    requires
        0 <= m < order.len(),
    ensures
        rules_of(nodes, order.take(m + 1)) == rules_of(nodes, order.take(m)) + local_rule(
            nodes[order[m] as int],
            order[m],
        ),
{
    assert(order.take(m + 1).drop_last() =~= order.take(m));
    assert(order.take(m + 1).last() == order[m]);
}

/// Appends the local gradient rule of the node at `at` to the tape.
fn propagate(graph: &Graph, at: RTensor, tape: &mut Vec<Step>)
    requires
        graph.wf(),
        at < graph@.len(),
    ensures
        final(tape)@ == old(tape)@ + local_rule(graph@[at as int], at),
{
    let t = graph.node(at);
    assert(fits(graph@, at as int, graph@[at as int]));
    match t.op {
        Op::Leaf | Op::Constant { .. } => {
            assert(tape@ =~= old(tape)@ + local_rule(graph@[at as int], at));
        },
        Op::Add => add_backward(t, at, tape),
        Op::Mul => mul_backward(t, at, tape),
        Op::Dot => dot_backward(t, at, tape),
        Op::Pow { power } => pow_backward(t, at, power, tape),
        Op::Relu => relu_backward(t, at, tape),
        Op::Tanh => tanh_backward(t, at, tape),
    }
}

impl Tensor {
    /// Searches depth first from `value` and places every node not yet
    /// visited after its operands.
    fn topological_sort(
        graph: &Graph,
        value: RTensor,
        topo: &mut Vec<RTensor>,
        visited: &mut HashSet<RTensor>,
    )
        requires
            graph.wf(),
            value < graph@.len(),
            forall|u: usize| old(topo)@.contains(u) ==> old(visited)@.contains(u),
            forall|u: usize|
                u <= value && old(visited)@.contains(u) ==> old(topo)@.contains(u),
        ensures
            final(topo)@ == visit(graph@, value, old(topo)@),
            forall|u: usize|
                final(visited)@.contains(u) <==> (old(visited)@.contains(u)
                    || final(topo)@.contains(u)),
        decreases value,
    {
        if !visited.contains(&value) {
            visited.insert(value);
            let node = graph.node(value);
            let mut k: usize = 0;
            while k < node.prev.len()
                invariant
                    graph.wf(),
                    value < graph@.len(),
                    node@ == graph@[value as int],
                    k <= node@.prev.len(),
                    !old(topo)@.contains(value),
                    visit_operands(graph@, value, k as nat, topo@) == visit_operands(
                        graph@,
                        value,
                        0,
                        old(topo)@,
                    ),
                    forall|u: usize| u < value && visited@.contains(u) ==> topo@.contains(u),
                    forall|u: usize|
                        visited@.contains(u) <==> (old(visited)@.contains(u) || u == value
                            || topo@.contains(u)),
                decreases node@.prev.len() - k,
            {
                let operand = node.prev[k];
                assert(operand < value) by {
                    assert(fits(graph@, value as int, graph@[value as int]));
                    assert(node@.prev[k as int] < value);
                }
                let ghost before = topo@;
                Tensor::topological_sort(graph, operand, topo, visited);
                proof {
                    lemma_visit_extends(graph@, operand, before);
                    lemma_extended_contains(before, topo@);
                }
                k += 1;
            }
            let ghost placed = topo@;
            topo.push(value);
            proof {
                lemma_push_contains(placed, value);
                assert forall|u: usize|
                    visited@.contains(u) <==> (old(visited)@.contains(u)
                        || topo@.contains(u)) by {
                    assert(topo@.contains(u) <==> (placed.contains(u) || u == value));
                }
            }
        }
    }

    /// Lays out the backward pass from `root` as a tape.
    ///
    /// The tape first seeds the gradient of `root` with ones and lets `root`
    /// apply its local rule. Then every node `root` depends on applies its
    /// local rule once, consumers before their operands, so that the
    /// gradient of a node is complete before the node passes it on. No
    /// gradient but that of `root` is overwritten: run on gradients that
    /// were not reset, the tape adds to what they hold.
    ///
    /// A `root` that names no node of the graph is an error.
    pub fn backward(graph: &Graph, root: RTensor) -> (tape: Result<Vec<Step>, GraphError>)
        requires
            graph.wf(),
        ensures
            match tape {
                Ok(steps) => root < graph@.len() && steps@ == backward_tape(graph@, root),
                Err(e) => root >= graph@.len() && e == GraphError::UnknownNode,
            },
    {
        if root >= graph.len() {
            return Err(GraphError::UnknownNode);
        }
        let mut visited: HashSet<RTensor> = HashSet::new();
        let mut topo: Vec<RTensor> = Vec::new();
        let node = graph.node(root);
        let mut k: usize = 0;
        while k < node.prev.len()
            invariant
                graph.wf(),
                root < graph@.len(),
                node@ == graph@[root as int],
                k <= node@.prev.len(),
                visit_operands(graph@, root, k as nat, topo@) == topological_order(graph@, root),
                forall|u: usize| topo@.contains(u) ==> visited@.contains(u),
                forall|u: usize| u < root && visited@.contains(u) ==> topo@.contains(u),
            decreases node@.prev.len() - k,
        {
            let operand = node.prev[k];
            assert(operand < root) by {
                assert(fits(graph@, root as int, graph@[root as int]));
                assert(node@.prev[k as int] < root);
            }
            let ghost before = topo@;
            Tensor::topological_sort(graph, operand, &mut topo, &mut visited);
            proof {
                lemma_visit_extends(graph@, operand, before);
                lemma_extended_contains(before, topo@);
            }
            k += 1;
        }
        let ghost order = backward_order(graph@, root);
        proof {
            lemma_topological_order(graph@, root);
            lemma_rules_of_next(graph@, order, 0);
            assert(rules_of(graph@, order.take(0)) =~= Seq::<Step>::empty());
            assert(rules_of(graph@, order.take(1)) =~= local_rule(graph@[root as int], root));
        }
        let mut tape: Vec<Step> = Vec::new();
        tape.push(Step::Seed { node: root });
        propagate(graph, root, &mut tape);
        let mut i: usize = topo.len();
        while i > 0
            invariant
                graph.wf(),
                i <= topo@.len(),
                topo@ == topological_order(graph@, root),
                placement(graph@, topo@),
                order == backward_order(graph@, root),
                tape@ == seq![Step::Seed { node: root }] + rules_of(
                    graph@,
                    order.take(1 + topo@.len() - i),
                ),
            decreases i,
        {
            i -= 1;
            let v = topo[i];
            proof {
                let m = topo@.len() as int - i as int;
                assert(order[m] == v);
                lemma_rules_of_next(graph@, order, m);
            }
            propagate(graph, v, &mut tape);
            assert(tape@ =~= seq![Step::Seed { node: root }] + rules_of(
                graph@,
                order.take(1 + topo@.len() - i),
            ));
        }
        assert(order.take(1 + topo@.len() as int) =~= order);
        Ok(tape)
    }
}

/// The backward pass of a sum of two leaves: the gradient of the sum is
/// seeded, and each leaf receives it as it is. A leaf that is both operands
/// receives it twice.
pub proof fn lemma_tape_of_sum(nodes: Seq<TensorView>, root: usize)
    requires
        well_formed(nodes),
        root < nodes.len(),
        nodes[root as int].op is Add,
        nodes[nodes[root as int].prev[0] as int].op is Leaf,
        nodes[nodes[root as int].prev[1] as int].op is Leaf,
    ensures
        backward_tape(nodes, root) == seq![
            Step::Seed { node: root },
            Step::Accumulate {
                from: root,
                into: nodes[root as int].prev[0],
                factor: Factor::Identity,
            },
            Step::Accumulate {
                from: root,
                into: nodes[root as int].prev[1],
                factor: Factor::Identity,
            },
        ],
{
    let t = nodes[root as int];
    let a = t.prev[0];
    let b = t.prev[1];
    assert(fits(nodes, root as int, t));
    assert(operands_below(t, root as int));
    assert(a < root && b < root);
    assert(fits(nodes, a as int, nodes[a as int]));
    assert(fits(nodes, b as int, nodes[b as int]));
    let empty = Seq::<usize>::empty();
    assert(visit_operands(nodes, a, 0, empty) == empty);
    assert(visit(nodes, a, empty) == seq![a]) by {
        assert(!empty.contains(a));
        assert(empty.push(a) =~= seq![a]);
    }
    let after_a = seq![a];
    assert(visit_operands(nodes, b, 0, after_a) == after_a);
    let topo = topological_order(nodes, root);
    assert(topo == visit_operands(nodes, root, 2, visit(nodes, b, after_a))) by {
        reveal_with_fuel(visit_operands, 3);
    }
    assert(topo == visit(nodes, b, after_a));
    let order = backward_order(nodes, root);
    let rule = local_rule(t, root);
    assert(local_rule(nodes[a as int], a) =~= Seq::<Step>::empty());
    assert(local_rule(nodes[b as int], b) =~= Seq::<Step>::empty());
    assert(rules_of(nodes, order.take(0)) =~= Seq::<Step>::empty());
    lemma_rules_of_next(nodes, order, 0);
    assert(rules_of(nodes, order.take(1)) =~= rule);
    if a == b {
        assert(after_a[0] == b);
        assert(after_a.contains(b));
        assert(order =~= seq![root, a]);
    } else {
        assert(!after_a.contains(b));
        assert(topo =~= seq![a, b]);
        assert(order =~= seq![root, b, a]);
        lemma_rules_of_next(nodes, order, 2);
    }
    lemma_rules_of_next(nodes, order, 1);
    assert(order.take(order.len() as int) =~= order);
    assert(rules_of(nodes, order) =~= rule);
    assert(backward_tape(nodes, root) =~= seq![
        Step::Seed { node: root },
        Step::Accumulate { from: root, into: a, factor: Factor::Identity },
        Step::Accumulate { from: root, into: b, factor: Factor::Identity },
    ]);
}

/// One seed, and nothing else is overwritten: the tape of a backward pass
/// starts by seeding the gradient of the root, and every later step adds
/// the gradient of the root or of a node below it, scaled, to the gradient
/// of a node further below. So nothing is ever added to the seed, and run
/// twice without a reset in between, the tape adds its contributions to
/// the operands a second time.
pub proof fn lemma_tape_accumulates(nodes: Seq<TensorView>, root: usize, a: int)
    requires
        well_formed(nodes),
        root < nodes.len(),
        0 <= a < backward_tape(nodes, root).len(),
    ensures
        backward_tape(nodes, root)[0] == (Step::Seed { node: root }),
        a > 0 ==> {
            &&& backward_tape(nodes, root)[a] is Accumulate
            &&& backward_tape(nodes, root)[a]->into < backward_tape(nodes, root)[a]->from
            &&& backward_tape(nodes, root)[a]->from <= root
        },
{
    if a > 0 {
        let order = backward_order(nodes, root);
        lemma_step_of_tape(nodes, root, a);
        let v = order[origin(nodes, order, a - 1)];
        assert(order.contains(v));
        lemma_backward_order_members(nodes, root, v);
        if v != root {
            lemma_depends_on_below(nodes, root, v);
        }
    }
}

/// Step `a` of the tape, for `a > 0`, is the step for one operand slot of
/// the node of the backward order at the step's origin.
proof fn lemma_step_of_tape(nodes: Seq<TensorView>, root: usize, a: int)
    requires
        well_formed(nodes),
        root < nodes.len(),
        0 < a < backward_tape(nodes, root).len(),
    ensures
        ({
            let order = backward_order(nodes, root);
            let i = origin(nodes, order, a - 1);
            &&& 0 <= i < order.len()
            &&& order[i] < nodes.len()
            &&& exists|k: int|
                0 <= k < nodes[order[i] as int].prev.len() && backward_tape(nodes, root)[a]
                    == #[trigger] local_rule(nodes[order[i] as int], order[i])[k]
        }),
{
    let order = backward_order(nodes, root);
    lemma_origin(nodes, order, a - 1);
    lemma_topological_order(nodes, root);
    let topo = topological_order(nodes, root);
    let i = origin(nodes, order, a - 1);
    if i > 0 {
        assert(order[i] == topo[topo.len() - i]);
    }
    assert(backward_tape(nodes, root)[a] == rules_of(nodes, order)[a - 1]);
}

/// Complete before it is passed on: on the tape of a backward pass, every
/// step that adds to the gradient of a node stands before every step that
/// reads the gradient of that node.
pub proof fn lemma_tape_consumers_first(nodes: Seq<TensorView>, root: usize, a: int, b: int)
    requires
        well_formed(nodes),
        root < nodes.len(),
        0 <= a < backward_tape(nodes, root).len(),
        0 <= b < backward_tape(nodes, root).len(),
        backward_tape(nodes, root)[a] is Accumulate,
        backward_tape(nodes, root)[b] is Accumulate,
        backward_tape(nodes, root)[a]->from == backward_tape(nodes, root)[b]->into,
    ensures
        b < a,
{
    let order = backward_order(nodes, root);
    let tape = backward_tape(nodes, root);
    let v = tape[a]->from;
    lemma_step_of_tape(nodes, root, a);
    lemma_step_of_tape(nodes, root, b);
    let i = origin(nodes, order, a - 1);
    let j = origin(nodes, order, b - 1);
    let ka = choose|k: int|
        0 <= k < nodes[order[i] as int].prev.len() && tape[a] == #[trigger] local_rule(
            nodes[order[i] as int],
            order[i],
        )[k];
    let kb = choose|k: int|
        0 <= k < nodes[order[j] as int].prev.len() && tape[b] == #[trigger] local_rule(
            nodes[order[j] as int],
            order[j],
        )[k];
    assert(order[i] == v);
    assert(nodes[order[j] as int].prev[kb] == v);
    if a <= b {
        lemma_origin_monotone(nodes, order, a - 1, b - 1);
        lemma_backward_order_consumers_first(nodes, root, j, kb);
        let later = choose|later: int| j < later < order.len() && order[later] == v;
        lemma_backward_order_distinct(nodes, root);
        assert(later == i);
    }
}

/// Gradients keep their shape: every step of the tape of a backward pass
/// adds to the gradient of a node a contribution of that node's shape.
pub proof fn lemma_tape_shapes(nodes: Seq<TensorView>, root: usize, a: int)
    requires
        well_formed(nodes),
        root < nodes.len(),
        0 < a < backward_tape(nodes, root).len(),
    ensures
        backward_tape(nodes, root)[a] is Accumulate,
        contribution_shape(
            nodes,
            backward_tape(nodes, root)[a]->from,
            backward_tape(nodes, root)[a]->factor,
        ) == Some(nodes[backward_tape(nodes, root)[a]->into as int].shape),
{
    let order = backward_order(nodes, root);
    let tape = backward_tape(nodes, root);
    lemma_step_of_tape(nodes, root, a);
    let i = origin(nodes, order, a - 1);
    let k = choose|k: int|
        0 <= k < nodes[order[i] as int].prev.len() && tape[a] == #[trigger] local_rule(
            nodes[order[i] as int],
            order[i],
        )[k];
    lemma_local_rule_shapes(nodes, order[i], k);
}

/// Every path counts: the tape of a backward pass adds to the gradient of a
/// node once for each operand slot that holds the node, among the slots of
/// the root and of the nodes the root depends on. A node that the root
/// reaches along two paths receives both contributions, and they add up.
pub proof fn lemma_tape_accumulations(nodes: Seq<TensorView>, root: usize, x: usize)
    ensures
        accumulations_into(backward_tape(nodes, root), x) == uses(
            nodes,
            backward_order(nodes, root),
            x,
        ),
{
    let seed = seq![Step::Seed { node: root }];
    let rules = rules_of(nodes, backward_order(nodes, root));
    lemma_accumulations_of_rules(nodes, backward_order(nodes, root), x);
    assert(accumulations_into(seed, x) == 0) by {
        assert(seed.drop_last() =~= Seq::<Step>::empty());
        assert(accumulations_into(seed.drop_last(), x) == 0);
    }
    lemma_accumulations_concat(seed, rules, x);
}

/// Growth changes nothing below: the tape of a backward pass from a node is
/// the same in every graph that extends the one the node stands in.
pub proof fn lemma_tape_in_extension(nodes: Seq<TensorView>, more: Seq<TensorView>, root: usize)
    requires
        well_formed(nodes),
        nodes.is_prefix_of(more),
        root < nodes.len(),
    ensures
        backward_tape(more, root) == backward_tape(nodes, root),
{
    lemma_visit_operands_in_extension(nodes, more, root, 0, Seq::empty());
    lemma_topological_order(nodes, root);
    let topo = topological_order(nodes, root);
    let order = backward_order(nodes, root);
    assert forall|i: int| 0 <= i < order.len() implies (#[trigger] order[i]) < nodes.len() by {
        if i > 0 {
            assert(order[i] == topo[topo.len() - i]);
        }
    }
    lemma_rules_in_extension(nodes, more, order);
}

/// The local rules of nodes of a graph are the same in every graph that
/// extends it.
proof fn lemma_rules_in_extension(nodes: Seq<TensorView>, more: Seq<TensorView>, order: Seq<usize>)
    requires
        nodes.is_prefix_of(more),
        forall|i: int| 0 <= i < order.len() ==> (#[trigger] order[i]) < nodes.len(),
    ensures
        rules_of(more, order) == rules_of(nodes, order),
    decreases order.len(),
{
    if order.len() > 0 {
        assert(order.last() == order[order.len() - 1]);
        assert(more[order.last() as int] == nodes[order.last() as int]);
        assert forall|i: int| 0 <= i < order.drop_last().len() implies (
        #[trigger] order.drop_last()[i]) < nodes.len() by {
            assert(order.drop_last()[i] == order[i]);
        }
        lemma_rules_in_extension(nodes, more, order.drop_last());
    }
}

} // verus!
