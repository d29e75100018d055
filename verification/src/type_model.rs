//! The declaration-side model of a field's type, as read by description
//! generation.
//!
//! Generation does not need the full shape of a type expression: it reads
//! the lifetime occurrences in source order, the function-pointer types the
//! field contains, and, inside a function pointer, whether a further
//! function pointer is nested (which is rejected). A field's type is
//! therefore modelled as the ordered sequence of those observations, with
//! named entities (lifetime identifiers) interned as numbers and type
//! references given as indices into the registry of layout descriptions.

use vstd::prelude::*;

verus! {

/// One written lifetime occurrence in a declaration.
#[derive(Debug, Copy, Clone, PartialEq, Eq, Structural)]
pub enum LtArg {
    /// The unbounded lifetime.
    StaticLt,
    /// A named lifetime parameter, by interned identifier.
    NamedLt { name: u64 },
    /// An elided lifetime: one written as a placeholder, or a reference
    /// position that names no lifetime at all.
    ElidedLt,
}

/// One parameter or return type of a function pointer: its lifetime
/// occurrences in source order, the registry index of its own layout
/// description, and whether a function pointer is nested anywhere inside
/// it.
#[derive(Debug, Clone, PartialEq, Eq)]
pub struct ParamTy {
    pub lts: Vec<LtArg>,
    pub type_ref: usize,
    pub has_nested_fn: bool,
}

/// A function-pointer type as declared: its calling convention, the
/// lifetimes bound by its own binder, its parameters and its optional
/// return type (absent means the unit return).
#[derive(Debug, Clone, PartialEq, Eq)]
pub struct FnDecl {
    /// Whether the pointer declares the one supported calling convention.
    pub c_abi: bool,
    /// Interned identifiers of the lifetimes named by the binder, in order.
    pub bound_lts: Vec<u64>,
    pub params: Vec<ParamTy>,
    pub ret: Option<ParamTy>,
}

/// One observation made while walking a field's type in source order.
#[derive(Debug, Clone, PartialEq, Eq)]
pub enum FieldTyPart {
    /// A lifetime occurrence outside any function pointer.
    Lifetime(LtArg),
    /// A function-pointer type.
    FnPointer(FnDecl),
}

/// A field's type, as the ordered sequence of observations generation
/// reads from it.
#[derive(Debug, Clone, PartialEq, Eq)]
pub struct FieldTy {
    pub parts: Vec<FieldTyPart>,
}

} // verus!
