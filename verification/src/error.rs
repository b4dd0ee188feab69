use vstd::prelude::*;

verus! {

/// Why building a tree failed.
#[derive(Debug, Clone, Copy, PartialEq, Eq, Structural)]
pub enum TreeError {
    /// A tree, or one of its subtrees, would have had to be built from no values.
    EmptyInput,
}

} // verus!
