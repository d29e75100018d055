//! Layout descriptions for types shared between independently compiled
//! binaries, and the load-time compatibility check over them.
//!
//! A binary that hands values of a type across a dynamic-loading boundary
//! publishes a [`type_layout::TypeLayout`] for it: a self-contained,
//! comparable record of the type's name, size, alignment, representation and
//! payload (fields, variants or function signature). At load time the host's
//! expected description and the module's provided one are compared by
//! [`checker::check`], which either accepts the pairing or reports a
//! structured [`checker::Incompatibility`] naming the offending field.
//!
//! Two mechanisms let a published type grow without breaking old consumers:
//! open structs ([`prefix_type`]), which may gain trailing fields past a
//! recorded publication boundary, and open enumerations
//! ([`nonexhaustive_enum`]), which may gain variants consumed only through
//! type-erased storage plus an operations table.
//!
//! The guarantees that hold of the comparison in general — determinism of
//! generation, reflexivity of the check, acceptance of open-struct and
//! open-enumeration growth, rejection of a missing requirement — are
//! stated and proved in [`laws`].
//!
//! Lifetimes appearing in fields and function-pointer signatures are
//! normalised at generation time by [`fn_lifetimes::TypeVisitor`] into
//! positional [`lifetimes::LifetimeIndex`] values, so that two independently
//! generated descriptions of equivalent declarations agree.

pub mod checker;
pub mod cmp_ordering;
pub mod errors;
pub mod fn_lifetimes;
pub mod laws;
pub mod lifetimes;
pub mod nonexhaustive_enum;
pub mod once;
pub mod prefix_type;
pub mod string_iters;
pub mod type_layout;
pub mod type_model;

pub use checker::{check, check_items, Incompatibility};
pub use lifetimes::LifetimeIndex;
pub use type_layout::{generate, TypeLayout, TypeRegistry};
