//! The graph arena, its operations and the backward pass.

pub mod backward;
pub mod ops;
pub mod order;
pub mod tape;
pub mod tensor;
pub mod value;
