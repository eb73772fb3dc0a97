use vstd::prelude::*;

verus! {

/// The kind of object a repository listing line describes.
#[derive(Clone, Copy, Debug, PartialEq, Eq, Structural)]
pub enum GitObjectType {
    Commit,
    Blob,
    Tree,
}

} // verus!
