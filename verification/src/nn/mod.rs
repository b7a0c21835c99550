//! Building blocks of small neural networks on top of the graph.

pub mod activations;
pub mod components;
pub mod layers;
pub mod losses;
pub mod models;
