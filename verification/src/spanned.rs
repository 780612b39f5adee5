use vstd::prelude::*;

verus! {

/// A value tagged with the byte offset in the source where it starts.
#[derive(Debug, Clone, Copy, PartialEq, Eq)]
pub struct Spanned<T> {
    pub offset: usize,
    pub node: T,
}

} // verus!
