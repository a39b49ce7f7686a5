//! The derivation engine: from the declaration of a type and the
//! traversal instances asked for it to a plan of the traversal step of
//! each instance, field by field.

pub mod ast;
pub mod error;
pub mod plan;
pub mod state;
