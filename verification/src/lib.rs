//! The planning core of a small reverse-mode automatic-differentiation engine.
//!
//! The crate records a computation graph in an arena, checks the shape rule
//! of every operation, and lays out the backward pass as an explicit tape of
//! gradient accumulations. It holds no numbers: a host keeps the data and
//! the gradient of each node, computes the data of the nodes that the crate
//! records, and carries out the tapes that the crate lays out.
//!
//! - [`backend::tensor`]: nodes, handles and the graph that owns the nodes.
//! - [`backend::ops`], [`nn::activations`], [`nn::losses`]: the operations;
//!   each adds nodes to a graph and has a local gradient rule.
//! - [`backend::order`]: the order in which a backward pass visits nodes,
//!   and what is proved of it.
//! - [`backend::tape`], [`backend::backward`]: the steps of a backward pass
//!   and the pass itself.
//! - [`nn::components`], [`nn::layers`], [`nn::models`]: neurons, layers and
//!   networks built from the operations.

pub mod backend;
pub mod nn;
