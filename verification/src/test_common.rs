//! Types to try the traversals on.

pub mod paper;
