//! The traversal primitives and the operations defined on top of them.

pub mod biplate;
pub mod context;
pub mod holes;
pub mod uniplate;
