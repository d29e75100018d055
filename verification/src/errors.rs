//! The error taxonomy.
//!
//! `GenerationError` is fatal and reported while a description is built,
//! before any binary exists. `Incompatibility` (in [`crate::checker`]) is
//! reported once per load attempt. `FieldAbsent` and `UnknownVariant` are
//! ordinary result values handed back to the immediate caller of an
//! open-struct field access or an open-enumeration recovery.

use vstd::prelude::*;

verus! {

/// A rule violation found while building a layout description.
#[derive(Debug, Copy, Clone, PartialEq, Eq, Structural)]
pub enum GenerationError {
    /// A function pointer declares a calling convention other than the
    /// one supported across the module boundary.
    UnsupportedAbi,
    /// A lifetime name resolves neither to the enclosing type's parameters
    /// nor to a function pointer's own binder.
    UnknownLifetime { name: u64 },
    /// An elided lifetime occurs in a field outside any function pointer,
    /// where every lifetime must be written out.
    ElidedLifetimeInField,
    /// An elided lifetime in a function pointer's return type, with no
    /// lifetime bound by the function to resolve it to.
    ElidedReturnNoCandidate,
    /// An elided lifetime in a function pointer's return type, with more
    /// than one candidate lifetime bound by the function.
    ElidedReturnAmbiguous,
    /// A function pointer nested inside another function pointer's
    /// parameter or return type; a named wrapper type is required instead.
    NestedFunctionPointer,
    /// A size or alignment that no Rust type can have: a zero or
    /// non-power-of-two alignment, or a size that is not a multiple of the
    /// alignment.
    MalformedRepr,
    /// An enumeration discriminant value that does not fit the declared
    /// discriminant representation width.
    DiscriminantOverflow,
    /// An open struct whose publication boundary lies beyond its fields,
    /// or which marks a field at or before the boundary conditional.
    MalformedPrefix,
    /// Two tags with the same key on one type; the comparison looks tags
    /// up by key, so keys must be unique.
    DuplicateTag,
}

/// An open-struct field access beyond the fields the providing binary
/// reports present. Recoverable per access: the capability is simply not
/// available.
#[derive(Debug, Copy, Clone, PartialEq, Eq, Structural)]
pub struct FieldAbsent {
    /// The index of the requested field.
    pub field_index: usize,
}

/// An open-enumeration discriminant not among those the consumer was
/// compiled to understand. Recoverable per access, analogous to
/// [`FieldAbsent`].
#[derive(Debug, Copy, Clone, PartialEq, Eq, Structural)]
pub struct UnknownVariant {
    /// The discriminant value that was not recognised.
    pub discriminant: u64,
}

} // verus!
