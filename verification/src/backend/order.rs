//! The order in which a backward pass visits the nodes of a graph.
//!
//! The operands of the root are searched depth first, each node is placed
//! once all of its operands are placed, and a node met a second time is
//! skipped. The backward pass starts at the root and then walks that
//! placement from its end to its start.

use crate::backend::tensor::{fits, operands_below, well_formed, TensorView};
use vstd::prelude::*;

verus! {

/// The placement after a depth-first search from `v`, continuing the
/// placement `done`: unchanged if `v` is already placed, else `v` follows
/// everything that the search from its operands places.
pub open spec fn visit(nodes: Seq<TensorView>, v: usize, done: Seq<usize>) -> Seq<usize>
    decreases v, 1nat, 0nat,
{
    if v >= nodes.len() || done.contains(v) {
        done
    } else {
        visit_operands(nodes, v, 0, done).push(v)
    }
}

/// The placement after searching from the operands of `v`, from operand `k`
/// on and in argument order, continuing the placement `done`.
pub open spec fn visit_operands(nodes: Seq<TensorView>, v: usize, k: nat, done: Seq<usize>) -> Seq<
    usize,
>
    decreases v, 0nat, nodes[v as int].prev.len() - k,
{
    if v >= nodes.len() || k >= nodes[v as int].prev.len() {
        done
    } else {
        let operand = nodes[v as int].prev[k as int];
        let placed = if operand < v {
            visit(nodes, operand, done)
        } else {
            done
        };
        visit_operands(nodes, v, k + 1, placed)
    }
}

/// The placement of all nodes that `root` depends on, `root` itself left
/// out: every node stands after all of its own operands.
pub open spec fn topological_order(nodes: Seq<TensorView>, root: usize) -> Seq<usize> {
    visit_operands(nodes, root, 0, Seq::empty())
}

/// The order in which a backward pass from `root` propagates: `root` first,
/// then the nodes it depends on, the last placed first.
pub open spec fn backward_order(nodes: Seq<TensorView>, root: usize) -> Seq<usize> {
    seq![root] + topological_order(nodes, root).reverse()
}

/// A search only ever adds to the end of a placement.
pub proof fn lemma_visit_extends(nodes: Seq<TensorView>, v: usize, done: Seq<usize>)
    ensures
        done.is_prefix_of(visit(nodes, v, done)),
    decreases v, 1nat, 0nat,
{
    if !(v >= nodes.len() || done.contains(v)) {
        lemma_visit_operands_extends(nodes, v, 0, done);
    }
}

/// A search from the operands only ever adds to the end of a placement.
pub proof fn lemma_visit_operands_extends(
    nodes: Seq<TensorView>,
    v: usize,
    k: nat,
    done: Seq<usize>,
)
    ensures
        done.is_prefix_of(visit_operands(nodes, v, k, done)),
    decreases v, 0nat, nodes[v as int].prev.len() - k,
{
    if !(v >= nodes.len() || k >= nodes[v as int].prev.len()) {
        let operand = nodes[v as int].prev[k as int];
        let placed = if operand < v {
            visit(nodes, operand, done)
        } else {
            done
        };
        if operand < v {
            lemma_visit_extends(nodes, operand, done);
        }
        lemma_visit_operands_extends(nodes, v, k + 1, placed);
    }
}

/// Node `a` depends on node `b`: `b` is an operand of `a`, or of a node
/// that `a` depends on.
pub open spec fn depends_on(nodes: Seq<TensorView>, a: usize, b: usize) -> bool
    decreases a,
{
    a < nodes.len() && exists|k: int|
        0 <= k < nodes[a as int].prev.len() && {
            let c = #[trigger] nodes[a as int].prev[k];
            c < a && (c == b || depends_on(nodes, c, b))
        }
}

/// `x` stands in `s` before position `i`.
pub open spec fn placed_before(s: Seq<usize>, x: usize, i: int) -> bool {
    exists|j: int| 0 <= j < i && j < s.len() && s[j] == x
}

/// `s` places nodes of the graph, none of them twice, and each after all of
/// its operands.
pub open spec fn placement(nodes: Seq<TensorView>, s: Seq<usize>) -> bool {
    &&& s.no_duplicates()
    &&& forall|i: int| 0 <= i < s.len() ==> (#[trigger] s[i]) < nodes.len()
    &&& forall|i: int, k: int|
        0 <= i < s.len() && 0 <= k < nodes[s[i] as int].prev.len() ==> #[trigger] placed_before(
            s,
            nodes[s[i] as int].prev[k],
            i,
        )
}

/// In a well-formed graph every operand stands before its node.
proof fn lemma_operand_below(nodes: Seq<TensorView>, v: usize, k: int)
    requires
        well_formed(nodes),
        v < nodes.len(),
        0 <= k < nodes[v as int].prev.len(),
    ensures
        nodes[v as int].prev[k] < v,
{
    assert(fits(nodes, v as int, nodes[v as int]));
    assert(operands_below(nodes[v as int], v as int));
}

/// A node stands after every node it depends on.
pub proof fn lemma_depends_on_below(nodes: Seq<TensorView>, a: usize, b: usize)
    requires
        depends_on(nodes, a, b),
    ensures
        b < a,
    decreases a,
{
    let k = choose|k: int|
        0 <= k < nodes[a as int].prev.len() && {
            let c = #[trigger] nodes[a as int].prev[k];
            c < a && (c == b || depends_on(nodes, c, b))
        };
    let c = nodes[a as int].prev[k];
    if c != b {
        lemma_depends_on_below(nodes, c, b);
    }
}

/// A node depends on whatever its operands are and depend on.
proof fn lemma_depends_on_through(nodes: Seq<TensorView>, a: usize, k: int, b: usize)
    requires
        well_formed(nodes),
        a < nodes.len(),
        0 <= k < nodes[a as int].prev.len(),
        nodes[a as int].prev[k] == b || depends_on(nodes, nodes[a as int].prev[k], b),
    ensures
        depends_on(nodes, a, b),
{
    lemma_operand_below(nodes, a, k);
    let c = nodes[a as int].prev[k];
    assert(c < a && (c == b || depends_on(nodes, c, b)));
}

/// What stands in a prefix stands in the whole.
proof fn lemma_prefix_contains(a: Seq<usize>, b: Seq<usize>, x: usize)
    requires
        a.is_prefix_of(b),
        a.contains(x),
    ensures
        b.contains(x),
{
    let i = choose|i: int| 0 <= i < a.len() && a[i] == x;
    assert(b[i] == x);
}

/// A search from `v` keeps a placement a placement, places `v`, and adds
/// only `v` and nodes that `v` depends on.
proof fn lemma_visit_placement(nodes: Seq<TensorView>, v: usize, done: Seq<usize>)
    requires
        well_formed(nodes),
        placement(nodes, done),
        v < nodes.len(),
    ensures
        placement(nodes, visit(nodes, v, done)),
        done.is_prefix_of(visit(nodes, v, done)),
        visit(nodes, v, done).contains(v),
        forall|x: usize|
            visit(nodes, v, done).contains(x) ==> done.contains(x) || x == v || depends_on(
                nodes,
                v,
                x,
            ),
    decreases v, 1nat, 0nat,
{
    if !done.contains(v) {
        lemma_visit_operands_placement(nodes, v, 0, done);
        let below = visit_operands(nodes, v, 0, done);
        let r = below.push(v);
        assert(r == visit(nodes, v, done));
        assert(r[below.len() as int] == v);
        assert(r.no_duplicates()) by {
            assert forall|i: int, j: int| 0 <= i < r.len() && 0 <= j < r.len() && i != j implies r[i]
                != r[j] by {
                if i < below.len() && j < below.len() {
                } else if i < below.len() {
                    assert(below[i] == r[i]);
                    assert(below.contains(r[i]));
                } else {
                    assert(below[j] == r[j]);
                    assert(below.contains(r[j]));
                }
            }
        }
        assert forall|i: int, k: int|
            0 <= i < r.len() && 0 <= k < nodes[r[i] as int].prev.len() implies #[trigger] placed_before(
            r,
            nodes[r[i] as int].prev[k],
            i,
        ) by {
            let x = nodes[r[i] as int].prev[k];
            if i < below.len() {
                assert(r[i] == below[i]);
                assert(placed_before(below, nodes[below[i] as int].prev[k], i));
                let j = choose|j: int| 0 <= j < i && j < below.len() && below[j] == x;
                assert(r[j] == x);
            } else {
                assert(below.contains(x));
                let j = choose|j: int| 0 <= j < below.len() && below[j] == x;
                assert(r[j] == x);
            }
        }
        assert forall|x: usize| r.contains(x) implies done.contains(x) || x == v || depends_on(
            nodes,
            v,
            x,
        ) by {
            let i = choose|i: int| 0 <= i < r.len() && r[i] == x;
            if i < below.len() {
                assert(below[i] == x);
                assert(below.contains(x));
            }
        }
    }
}

/// A search from the operands of `v`, from operand `k` on, keeps a
/// placement a placement, places every operand of `v`, and adds only nodes
/// that `v` depends on.
proof fn lemma_visit_operands_placement(
    nodes: Seq<TensorView>,
    v: usize,
    k: nat,
    done: Seq<usize>,
)
    requires
        well_formed(nodes),
        placement(nodes, done),
        v < nodes.len(),
        k <= nodes[v as int].prev.len(),
        !done.contains(v),
        forall|j: int| 0 <= j < k ==> done.contains(#[trigger] nodes[v as int].prev[j]),
    ensures
        placement(nodes, visit_operands(nodes, v, k, done)),
        done.is_prefix_of(visit_operands(nodes, v, k, done)),
        !visit_operands(nodes, v, k, done).contains(v),
        forall|j: int|
            0 <= j < nodes[v as int].prev.len() ==> visit_operands(nodes, v, k, done).contains(
                #[trigger] nodes[v as int].prev[j],
            ),
        forall|x: usize|
            visit_operands(nodes, v, k, done).contains(x) ==> done.contains(x) || depends_on(
                nodes,
                v,
                x,
            ),
    decreases v, 0nat, nodes[v as int].prev.len() - k,
{
    if k < nodes[v as int].prev.len() {
        let operand = nodes[v as int].prev[k as int];
        lemma_operand_below(nodes, v, k as int);
        lemma_visit_placement(nodes, operand, done);
        let placed = visit(nodes, operand, done);
        lemma_depends_on_through(nodes, v, k as int, operand);
        assert forall|x: usize| placed.contains(x) implies done.contains(x) || depends_on(
            nodes,
            v,
            x,
        ) by {
            if !done.contains(x) && x != operand {
                lemma_depends_on_through(nodes, v, k as int, x);
            }
        }
        if placed.contains(v) {
            lemma_depends_on_below(nodes, v, v);
        }
        assert forall|j: int| 0 <= j < k + 1 implies placed.contains(
            #[trigger] nodes[v as int].prev[j],
        ) by {
            if j < k {
                lemma_prefix_contains(done, placed, nodes[v as int].prev[j]);
            }
        }
        lemma_visit_operands_placement(nodes, v, k + 1, placed);
        let r = visit_operands(nodes, v, k + 1, placed);
        assert(r == visit_operands(nodes, v, k, done));
        assert(done.is_prefix_of(r));
    }
}

/// A placement that holds a node holds every node it depends on.
proof fn lemma_placement_closed(nodes: Seq<TensorView>, s: Seq<usize>, v: usize, x: usize)
    requires
        placement(nodes, s),
        s.contains(v),
        depends_on(nodes, v, x),
    ensures
        s.contains(x),
    decreases v,
{
    let k = choose|k: int|
        0 <= k < nodes[v as int].prev.len() && {
            let c = #[trigger] nodes[v as int].prev[k];
            c < v && (c == x || depends_on(nodes, c, x))
        };
    let c = nodes[v as int].prev[k];
    let i = choose|i: int| 0 <= i < s.len() && s[i] == v;
    assert(placed_before(s, nodes[s[i] as int].prev[k], i));
    let j = choose|j: int| 0 <= j < i && j < s.len() && s[j] == c;
    assert(s.contains(c));
    if c != x {
        lemma_placement_closed(nodes, s, c, x);
    }
}

/// The nodes below the root, as the search places them: a placement that
/// holds exactly the nodes the root depends on.
pub proof fn lemma_topological_order(nodes: Seq<TensorView>, root: usize)
    requires
        well_formed(nodes),
        root < nodes.len(),
    ensures
        placement(nodes, topological_order(nodes, root)),
        forall|x: usize|
            topological_order(nodes, root).contains(x) <==> depends_on(nodes, root, x),
{
    let empty = Seq::<usize>::empty();
    lemma_visit_operands_placement(nodes, root, 0, empty);
    let topo = topological_order(nodes, root);
    assert(topo == visit_operands(nodes, root, 0, empty));
    assert forall|x: usize| topo.contains(x) implies depends_on(nodes, root, x) by {
        assert(!empty.contains(x));
    }
    assert forall|x: usize| depends_on(nodes, root, x) implies topo.contains(x) by {
        let k = choose|k: int|
            0 <= k < nodes[root as int].prev.len() && {
                let c = #[trigger] nodes[root as int].prev[k];
                c < root && (c == x || depends_on(nodes, c, x))
            };
        let c = nodes[root as int].prev[k];
        assert(topo.contains(c));
        if c != x {
            lemma_placement_closed(nodes, topo, c, x);
        }
    }
}

/// No node is propagated twice: the order of a backward pass holds each
/// node at most once.
pub proof fn lemma_backward_order_distinct(nodes: Seq<TensorView>, root: usize)
    requires
        well_formed(nodes),
        root < nodes.len(),
    ensures
        backward_order(nodes, root).no_duplicates(),
{
    lemma_topological_order(nodes, root);
    let topo = topological_order(nodes, root);
    let order = backward_order(nodes, root);
    assert forall|i: int, j: int| 0 <= i < order.len() && 0 <= j < order.len() && i != j implies order[i]
        != order[j] by {
        if i > 0 {
            assert(order[i] == topo[topo.len() - i]);
            assert(topo.contains(order[i]));
        }
        if j > 0 {
            assert(order[j] == topo[topo.len() - j]);
            assert(topo.contains(order[j]));
        }
        if order[i] == root && i > 0 {
            lemma_depends_on_below(nodes, root, root);
        }
        if order[j] == root && j > 0 {
            lemma_depends_on_below(nodes, root, root);
        }
    }
}

/// The order of a backward pass holds the root and the nodes the root
/// depends on, and no others.
pub proof fn lemma_backward_order_members(nodes: Seq<TensorView>, root: usize, x: usize)
    requires
        well_formed(nodes),
        root < nodes.len(),
    ensures
        backward_order(nodes, root).contains(x) <==> (x == root || depends_on(nodes, root, x)),
{
    lemma_topological_order(nodes, root);
    let topo = topological_order(nodes, root);
    let order = backward_order(nodes, root);
    assert(order[0] == root);
    if order.contains(x) && x != root {
        let i = choose|i: int| 0 <= i < order.len() && order[i] == x;
        assert(order[i] == topo[topo.len() - i]);
        assert(topo.contains(x));
    }
    if depends_on(nodes, root, x) {
        let j = choose|j: int| 0 <= j < topo.len() && topo[j] == x;
        assert(order[topo.len() - j] == x);
    }
}

/// Consumers come first: in the order of a backward pass every operand of a
/// node stands after the node. So when a node is propagated, every node
/// that consumes it has been propagated already.
pub proof fn lemma_backward_order_consumers_first(
    nodes: Seq<TensorView>,
    root: usize,
    i: int,
    k: int,
)
    requires
        well_formed(nodes),
        root < nodes.len(),
        0 <= i < backward_order(nodes, root).len(),
        0 <= k < nodes[backward_order(nodes, root)[i] as int].prev.len(),
    ensures
        exists|j: int|
            i < j < backward_order(nodes, root).len() && backward_order(nodes, root)[j]
                == nodes[backward_order(nodes, root)[i] as int].prev[k],
{
    lemma_topological_order(nodes, root);
    let topo = topological_order(nodes, root);
    let order = backward_order(nodes, root);
    let n = topo.len() as int;
    let x = nodes[order[i] as int].prev[k];
    if i == 0 {
        lemma_depends_on_through(nodes, root, k, x);
        assert(topo.contains(x));
        let p = choose|p: int| 0 <= p < topo.len() && topo[p] == x;
        assert(order[n - p] == x);
    } else {
        assert(order[i] == topo[n - i]);
        assert(placed_before(topo, nodes[topo[n - i] as int].prev[k], n - i));
        let p = choose|p: int| 0 <= p < n - i && p < topo.len() && topo[p] == x;
        assert(order[n - p] == x);
    }
}

/// A search from `v` reads no node that stands after `v`: it places the
/// same nodes in every graph that extends the one `v` stands in.
pub proof fn lemma_visit_in_extension(
    nodes: Seq<TensorView>,
    more: Seq<TensorView>,
    v: usize,
    done: Seq<usize>,
)
    requires
        nodes.is_prefix_of(more),
        v < nodes.len(),
    ensures
        visit(more, v, done) == visit(nodes, v, done),
    decreases v, 1nat, 0nat,
{
    if !done.contains(v) {
        lemma_visit_operands_in_extension(nodes, more, v, 0, done);
    }
}

/// A search from the operands of `v` reads no node that stands after `v`.
pub proof fn lemma_visit_operands_in_extension(
    nodes: Seq<TensorView>,
    more: Seq<TensorView>,
    v: usize,
    k: nat,
    done: Seq<usize>,
)
    requires
        nodes.is_prefix_of(more),
        v < nodes.len(),
    ensures
        visit_operands(more, v, k, done) == visit_operands(nodes, v, k, done),
    decreases v, 0nat, nodes[v as int].prev.len() - k,
{
    assert(more[v as int] == nodes[v as int]);
    if k < nodes[v as int].prev.len() {
        let operand = nodes[v as int].prev[k as int];
        if operand < v {
            lemma_visit_in_extension(nodes, more, operand, done);
            lemma_visit_operands_in_extension(nodes, more, v, k + 1, visit(nodes, operand, done));
        } else {
            lemma_visit_operands_in_extension(nodes, more, v, k + 1, done);
        }
    }
}

} // verus!
