//! Scalar nodes.

use crate::backend::tensor::{leaf, Graph, RTensor, Tensor};
use vstd::prelude::*;

verus! {

/// A scalar node: a tensor of rank 0.
pub type Value = Tensor;

impl Tensor {
    /// Adds a scalar leaf to the graph and returns its handle.
    pub fn new_rc(graph: &mut Graph) -> (handle: RTensor)
        requires
            old(graph).wf(),
        ensures
            final(graph).wf(),
            final(graph)@ == old(graph)@.push(leaf(Seq::empty())),
            handle == old(graph)@.len(),
    {
        let scalar: [usize; 0] = [];
        assert(scalar@ =~= Seq::<usize>::empty());
        Tensor::new_ref(graph, scalar.as_slice())
    }
}

} // verus!
