//! Generic traversal of recursive data types, with proofs.
//!
//! A type takes part by giving one traversal step ([`Uniplate`]): the
//! direct children of a node, in the structure in which they lie (a
//! [`Tree`]), and the node put together again around replacement children.
//! From that step alone come the children and the universe of a node,
//! bottom-up transformation, rewriting and folding ([`UniplateExt`]),
//! holes and contexts, and cursors that edit a tree in place
//! ([`zipper::Zipper`], [`tagged_zipper::TaggedZipper`]). [`Biplate`] is the
//! same for the values of one type within a value of another.
//!
//! The contracts are stated over mathematical models: a tree over
//! sequences ([`Shape`]) for [`Tree`], a focus and a path of levels for a
//! zipper. The laws of the library are proved from the laws that an
//! implementation of the traversal step gives: that a node put together
//! around its own children is the node, that every child ranks below its
//! parent, and that a clone of a node is the node. Equality of nodes is
//! equality of values.
//!
//! The module [`derive`] plans the traversal steps of a declared type: from
//! the declaration and the instances asked for it to what is done with each
//! field of each variant. [`spez`] resolves, where such a step is written
//! out, whether the type of a field takes part in a traversal.

pub mod derive;
pub mod error;
pub mod impls;
pub mod spez;
pub mod tagged_zipper;
pub mod test_common;
pub mod text;
pub mod traits;
pub mod tree;
pub mod zipper;

pub use error::UniplateError;
pub use traits::biplate::Biplate;
pub use traits::biplate::BiplateExt;
pub use traits::uniplate::Rank;
pub use traits::uniplate::Uniplate;
pub use traits::uniplate::UniplateExt;
pub use tree::Shape;
pub use tree::Tree;
