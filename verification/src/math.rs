//! Numbers, tuples and matrices.

pub mod arithmetic;
pub mod float;
pub mod layout;
pub mod matrix;
pub mod order;
pub mod tuple;
