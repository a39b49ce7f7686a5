//! The declaration of a type as the derivation engine sees it.

pub mod data;
pub mod derive_input;
pub mod typ;
