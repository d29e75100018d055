//! Positional encoding of lifetimes in layout descriptions.

use vstd::prelude::*;

verus! {

/// A lifetime as it appears in a layout description: either the unbounded
/// lifetime, or the lifetime parameter declared at a given position.
///
/// Positions count the enclosing type's lifetime parameters first, in
/// declaration order, followed by any lifetimes bound by a function
/// pointer's own binder (named ones first, then those introduced for
/// elided occurrences, in order of appearance).
#[derive(Debug, Copy, Clone, PartialEq, Eq, Hash, Structural)]
pub enum LifetimeIndex {
    /// The unbounded lifetime.
    Static,
    /// The lifetime parameter at declaration position `index`.
    Param { index: usize },
}

/// Pairs a [`LifetimeIndex`] with nothing else; a later rendering stage
/// (outside this crate's verified core) turns it into source tokens.
#[derive(Debug, Copy, Clone, PartialEq, Eq, Structural)]
pub struct LifetimeIndexTokenizer {
    pub li: LifetimeIndex,
}

impl LifetimeIndex {
    /// Wraps this index for token rendering.
    pub fn tokenizer(self) -> (r: LifetimeIndexTokenizer)
        ensures
            r.li == self,
    {
        LifetimeIndexTokenizer { li: self }
    }
}

} // verus!
