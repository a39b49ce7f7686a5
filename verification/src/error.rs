//! The one failure of the traversal operations.

use crate::text::append_digits;
use crate::text::digits;
use vstd::prelude::*;
use vstd::string::StringExecFns;

verus! {

/// Why a node could not be put together again.
#[derive(Debug, PartialEq, Eq, Structural)]
pub enum UniplateError {
    /// The number of children given differs from the number the node has:
    /// the first field is the number expected, the second the number given.
    WrongNumberOfChildren(usize, usize),
}

impl UniplateError {
    /// What the error says.
    pub open spec fn text(self) -> Seq<char> {
        match self {
            UniplateError::WrongNumberOfChildren(expected, got) =>
                "Could not reconstruct node because wrong number of children was provided. Expected "@
                    + digits(expected as nat) + " children, got "@ + digits(got as nat) + "."@,
        }
    }

    /// Returns what the error says.
    pub fn message(&self) -> (r: String)
        ensures
            r@ == self.text(),
    {
        match self {
            UniplateError::WrongNumberOfChildren(expected, got) => {
                let mut text = String::from_str(
                    "Could not reconstruct node because wrong number of children was provided. Expected ",
                );
                append_digits(&mut text, *expected);
                text.append(" children, got ");
                append_digits(&mut text, *got);
                text.append(".");
                text
            },
        }
    }
}

} // verus!
