//! Nodes of the computation graph and the arena that owns them.
//!
//! A node records the operation that produced it, the handles of its
//! operands and the shape shared by its data and its gradient. Nodes live in
//! a [`Graph`]; a handle is a position in it, and every operand of a node
//! stands before the node, so the graph cannot hold a cycle.

use vstd::prelude::*;

verus! {

/// A handle to a node: its position in the arena.
pub type RTensor = usize;

/// The operation that produced a node.
#[derive(Clone, Copy, Debug, PartialEq, Eq, Structural)]
pub enum Op {
    /// A node supplied by the caller; it has no operands.
    Leaf,
    /// A node whose every element is one constant, given as an IEEE 754
    /// binary32 bit pattern; it has no operands.
    Constant { bits: u32 },
    /// Elementwise sum of two operands.
    Add,
    /// Elementwise product of two operands.
    Mul,
    /// Matrix product of two rank-2 operands.
    Dot,
    /// Elementwise power with a constant exponent, given as an IEEE 754
    /// binary32 bit pattern.
    Pow { power: u32 },
    /// Elementwise maximum with zero.
    Relu,
    /// Elementwise hyperbolic tangent.
    Tanh,
}

impl Op {
    /// The number of operands the operation takes.
    pub open spec fn spec_arity(self) -> nat {
        match self {
            Op::Leaf | Op::Constant { .. } => 0,
            Op::Pow { .. } | Op::Relu | Op::Tanh => 1,
            Op::Add | Op::Mul | Op::Dot => 2,
        }
    }

    /// The number of operands the operation takes.
    pub fn arity(&self) -> (n: usize)
        ensures
            n == self.spec_arity(),
    {
        match self {
            Op::Leaf | Op::Constant { .. } => 0,
            Op::Pow { .. } | Op::Relu | Op::Tanh => 1,
            Op::Add | Op::Mul | Op::Dot => 2,
        }
    }
}

/// Why a node was not added to a graph.
#[derive(Clone, Copy, Debug, PartialEq, Eq, Structural)]
pub enum GraphError {
    /// The node does not have the number of operands its operation takes.
    ArityViolation,
    /// An operand handle does not name a node of the graph.
    UnknownNode,
    /// The shapes of the operands or of the result break the operation's
    /// shape rule.
    ShapeMismatch,
    /// A sum was asked for over no terms at all.
    EmptyInput,
}

/// A node as a mathematical value.
pub struct TensorView {
    pub shape: Seq<usize>,
    pub prev: Seq<usize>,
    pub op: Op,
}

/// A node of the computation graph.
#[derive(Debug)]
pub struct Tensor {
    /// The shape of the node's data and of its gradient.
    pub shape: Vec<usize>,
    /// The operands, in argument order.
    pub prev: Vec<RTensor>,
    /// The operation that produced the node.
    pub op: Op,
}

impl View for Tensor {
    type V = TensorView;

    open spec fn view(&self) -> TensorView {
        TensorView { shape: self.shape@, prev: self.prev@, op: self.op }
    }
}

/// The shape rule of each operation: `shape` is the result's shape, `a` and
/// `b` are the shapes of the first and second operand.
///
/// Elementwise operations keep the shape of their operands, which must all
/// agree. A matrix product takes an `m x k` and a `k x n` operand to an
/// `m x n` result.
pub open spec fn shape_rule(op: Op, shape: Seq<usize>, a: Seq<usize>, b: Seq<usize>) -> bool {
    match op {
        Op::Leaf | Op::Constant { .. } => true,
        Op::Add | Op::Mul => a == shape && b == shape,
        Op::Pow { .. } | Op::Relu | Op::Tanh => a == shape,
        Op::Dot => a.len() == 2 && b.len() == 2 && a[1] == b[0] && shape == seq![a[0], b[1]],
    }
}

/// The shape of operand `k` of `t`, looked up in `nodes`; the empty shape
/// where `t` has no such operand.
pub open spec fn operand_shape(nodes: Seq<TensorView>, t: TensorView, k: int) -> Seq<usize> {
    if 0 <= k < t.prev.len() && t.prev[k] < nodes.len() {
        nodes[t.prev[k] as int].shape
    } else {
        Seq::empty()
    }
}

/// All operands of `t` are handles below `at`.
pub open spec fn operands_below(t: TensorView, at: int) -> bool {
    forall|k: int| 0 <= k < t.prev.len() ==> (#[trigger] t.prev[k]) < at
}

/// Node `t` may stand at position `at` of `nodes`: it has the operands its
/// operation takes, they all stand before it, and the shapes follow the
/// operation's rule.
pub open spec fn fits(nodes: Seq<TensorView>, at: int, t: TensorView) -> bool {
    &&& t.prev.len() == t.op.spec_arity()
    &&& operands_below(t, at)
    &&& shape_rule(t.op, t.shape, operand_shape(nodes, t, 0), operand_shape(nodes, t, 1))
}

/// Every node of the graph fits where it stands.
pub open spec fn well_formed(nodes: Seq<TensorView>) -> bool {
    forall|i: int| 0 <= i < nodes.len() ==> fits(nodes, i, #[trigger] nodes[i])
}

/// A leaf of the given shape.
pub open spec fn leaf(shape: Seq<usize>) -> TensorView {
    TensorView { shape, prev: Seq::empty(), op: Op::Leaf }
}

/// Appending a node that fits keeps a graph well formed.
pub proof fn lemma_push_well_formed(nodes: Seq<TensorView>, t: TensorView)
    requires
        well_formed(nodes),
        fits(nodes, nodes.len() as int, t),
    ensures
        well_formed(nodes.push(t)),
{
    let after = nodes.push(t);
    assert forall|i: int| 0 <= i < after.len() implies fits(after, i, #[trigger] after[i]) by {
        let n = after[i];
        if i < nodes.len() {
            assert(n == nodes[i]);
            assert(fits(nodes, i, n));
        }
        assert(operands_below(n, i));
        if 0 < n.prev.len() {
            assert(n.prev[0] < i);
        }
        if 1 < n.prev.len() {
            assert(n.prev[1] < i);
        }
        assert(operand_shape(after, n, 0) == operand_shape(nodes, n, 0));
        assert(operand_shape(after, n, 1) == operand_shape(nodes, n, 1));
    }
}

/// The first nodes of a well-formed graph are a well-formed graph: no node
/// refers to a node that stands after it.
pub proof fn lemma_take_well_formed(nodes: Seq<TensorView>, len: int)
    requires
        well_formed(nodes),
        0 <= len <= nodes.len(),
    ensures
        well_formed(nodes.take(len)),
{
    let kept = nodes.take(len);
    assert forall|i: int| 0 <= i < kept.len() implies fits(kept, i, #[trigger] kept[i]) by {
        let n = kept[i];
        assert(n == nodes[i]);
        assert(fits(nodes, i, n));
        assert(operands_below(n, i));
        if 0 < n.prev.len() {
            assert(n.prev[0] < i);
        }
        if 1 < n.prev.len() {
            assert(n.prev[1] < i);
        }
        assert(operand_shape(kept, n, 0) == operand_shape(nodes, n, 0));
        assert(operand_shape(kept, n, 1) == operand_shape(nodes, n, 1));
    }
}

/// The arena that owns the nodes of a computation graph.
#[derive(Debug)]
pub struct Graph {
    nodes: Vec<Tensor>,
}

impl View for Graph {
    type V = Seq<TensorView>;

    closed spec fn view(&self) -> Seq<TensorView> {
        Seq::new(self.nodes@.len(), |i: int| self.nodes@[i]@)
    }
}

/// Copies a shape.
pub(crate) fn copy_shape(shape: &[usize]) -> (copy: Vec<usize>)
    ensures
        copy@ == shape@,
{
    let mut copy: Vec<usize> = Vec::new();
    let mut i: usize = 0;
    while i < shape.len()
        invariant
            i <= shape.len(),
            copy@ == shape@.take(i as int),
        decreases shape.len() - i,
    {
        copy.push(shape[i]);
        i += 1;
        assert(copy@ =~= shape@.take(i as int));
    }
    assert(shape@.take(shape.len() as int) =~= shape@);
    copy
}

/// Whether two shapes are equal.
pub(crate) fn same_shape(a: &[usize], b: &[usize]) -> (same: bool)
    ensures
        same == (a@ == b@),
{
    if a.len() != b.len() {
        return false;
    }
    let mut i: usize = 0;
    while i < a.len()
        invariant
            i <= a.len(),
            a.len() == b.len(),
            forall|j: int| 0 <= j < i ==> a@[j] == b@[j],
        decreases a.len() - i,
    {
        if a[i] != b[i] {
            return false;
        }
        i += 1;
    }
    assert(a@ =~= b@);
    true
}

impl Graph {
    /// Every node fits where it stands; see [`well_formed`].
    pub open spec fn wf(&self) -> bool {
        well_formed(self@)
    }

    /// An empty graph.
    pub fn new() -> (graph: Graph)
        ensures
            graph.wf(),
            graph@.len() == 0,
    {
        Graph { nodes: Vec::new() }
    }

    /// The number of nodes.
    pub fn len(&self) -> (n: usize)
        ensures
            n == self@.len(),
    {
        self.nodes.len()
    }

    /// The node behind a handle, if the handle names one.
    pub fn get(&self, handle: RTensor) -> (node: Option<&Tensor>)
        ensures
            handle < self@.len() ==> node.is_some() && node.unwrap()@ == self@[handle as int],
            handle >= self@.len() ==> node.is_none(),
    {
        if handle < self.nodes.len() {
            Some(&self.nodes[handle])
        } else {
            None
        }
    }

    /// Drops every node from position `len` on; a graph that has no more
    /// than `len` nodes is left as it is.
    ///
    /// The nodes that stay are untouched, and so are their handles. This is
    /// how a host lets go of what one forward pass built once it has used
    /// the gradients.
    pub fn truncate(&mut self, len: usize)
        requires
            old(self).wf(),
        ensures
            final(self).wf(),
            final(self)@ == if len <= old(self)@.len() {
                old(self)@.take(len as int)
            } else {
                old(self)@
            },
    {
        proof {
            if len <= self@.len() {
                lemma_take_well_formed(self@, len as int);
            }
        }
        self.nodes.truncate(len);
        assert(self@ =~= if len <= old(self)@.len() {
            old(self)@.take(len as int)
        } else {
            old(self)@
        });
    }

    /// The node behind a handle of the graph.
    pub(crate) fn node(&self, handle: RTensor) -> (node: &Tensor)
        requires
            handle < self@.len(),
        ensures
            node@ == self@[handle as int],
    {
        &self.nodes[handle]
    }

    /// Whether `t` follows its operation's shape rule in this graph.
    fn follows_shape_rule(&self, t: &Tensor) -> (ok: bool)
        requires
            t@.prev.len() == t@.op.spec_arity(),
            operands_below(t@, self@.len() as int),
        ensures
            ok == shape_rule(
                t@.op,
                t@.shape,
                operand_shape(self@, t@, 0),
                operand_shape(self@, t@, 1),
            ),
    {
        match t.op {
            Op::Leaf | Op::Constant { .. } => true,
            Op::Add | Op::Mul => {
                let a = &self.nodes[t.prev[0]];
                let b = &self.nodes[t.prev[1]];
                same_shape(a.shape.as_slice(), t.shape.as_slice()) && same_shape(
                    b.shape.as_slice(),
                    t.shape.as_slice(),
                )
            },
            Op::Pow { .. } | Op::Relu | Op::Tanh => {
                let a = &self.nodes[t.prev[0]];
                same_shape(a.shape.as_slice(), t.shape.as_slice())
            },
            Op::Dot => {
                let a = &self.nodes[t.prev[0]];
                let b = &self.nodes[t.prev[1]];
                let ok = a.shape.len() == 2 && b.shape.len() == 2 && t.shape.len() == 2
                    && a.shape[1] == b.shape[0] && t.shape[0] == a.shape[0] && t.shape[1]
                    == b.shape[1];
                proof {
                    if ok {
                        assert(t@.shape =~= seq![a@.shape[0], b@.shape[1]]);
                    }
                }
                ok
            },
        }
    }
}

impl Tensor {
    /// A leaf of the given shape: no operands, and nothing to propagate.
    pub fn new(shape: &[usize]) -> (t: Tensor)
        ensures
            t@ == leaf(shape@),
    {
        Tensor { shape: copy_shape(shape), prev: Vec::new(), op: Op::Leaf }
    }

    /// Adds a leaf of the given shape to the graph and returns its handle.
    pub fn new_ref(graph: &mut Graph, shape: &[usize]) -> (handle: RTensor)
        requires
            old(graph).wf(),
        ensures
            final(graph).wf(),
            final(graph)@ == old(graph)@.push(leaf(shape@)),
            handle == old(graph)@.len(),
    {
        let t = Tensor::new(shape);
        let handle = graph.nodes.len();
        proof {
            lemma_push_well_formed(graph@, t@);
        }
        graph.nodes.push(t);
        assert(graph@ =~= old(graph)@.push(leaf(shape@)));
        handle
    }

    /// Moves the node into the graph and returns its handle.
    ///
    /// The node is checked first: it must have the number of operands its
    /// operation takes, every operand must be a node of the graph, and the
    /// shapes must follow the operation's rule. A node that fails a check is
    /// dropped and the graph is left as it was.
    pub fn to_ref(self, graph: &mut Graph) -> (added: Result<RTensor, GraphError>)
        requires
            old(graph).wf(),
        ensures
            final(graph).wf(),
            match added {
                Ok(handle) => {
                    &&& fits(old(graph)@, old(graph)@.len() as int, self@)
                    &&& handle == old(graph)@.len()
                    &&& final(graph)@ == old(graph)@.push(self@)
                },
                Err(e) => {
                    &&& final(graph)@ == old(graph)@
                    &&& e == rejection(old(graph)@, self@)
                    &&& !fits(old(graph)@, old(graph)@.len() as int, self@)
                },
            },
    {
        if self.prev.len() != self.op.arity() {
            return Err(GraphError::ArityViolation);
        }
        let count = graph.nodes.len();
        let mut k: usize = 0;
        while k < self.prev.len()
            invariant
                k <= self.prev.len(),
                count == graph@.len(),
                graph@ == old(graph)@,
                graph.wf(),
                self@.prev.len() == self@.op.spec_arity(),
                forall|j: int| 0 <= j < k ==> (#[trigger] self@.prev[j]) < count,
            decreases self.prev.len() - k,
        {
            if self.prev[k] >= count {
                assert(!(self@.prev[k as int] < count));
                return Err(GraphError::UnknownNode);
            }
            k += 1;
        }
        if !graph.follows_shape_rule(&self) {
            return Err(GraphError::ShapeMismatch);
        }
        proof {
            lemma_push_well_formed(graph@, self@);
        }
        graph.nodes.push(self);
        assert(graph@ =~= old(graph)@.push(self@));
        Ok(count)
    }
}

/// The error for a node that does not fit at the end of `nodes`: the first
/// check it fails, in the order arity, operand handles, shapes.
pub open spec fn rejection(nodes: Seq<TensorView>, t: TensorView) -> GraphError {
    if t.prev.len() != t.op.spec_arity() {
        GraphError::ArityViolation
    } else if !operands_below(t, nodes.len() as int) {
        GraphError::UnknownNode
    } else {
        GraphError::ShapeMismatch
    }
}

} // verus!
