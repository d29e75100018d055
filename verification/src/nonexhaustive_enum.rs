//! The open-enumeration mechanism.
//!
//! An enumeration that opts into forward compatibility may gain variants
//! after publication. A consumer that must stay compatible never matches
//! on such a value structurally: the producer erases it behind an opaque
//! handle carrying only the discriminant and raw payload, plus a
//! reference to an operations table. The consumer may invoke any
//! operation the table supports without knowing the variant, and may
//! recover the concrete variant only by checking the discriminant against
//! the set it was itself compiled to understand — an unrecognised
//! discriminant is an explicit [`UnknownVariant`] outcome, never a crash.

use vstd::prelude::*;

use crate::errors::UnknownVariant;
use crate::fn_lifetimes::spec_position_of;

verus! {

/// Which operations an open enumeration's table provides. The table that
/// crosses the boundary is a bundle of function pointers keyed by these
/// capabilities; the description records only which are present, since
/// their absence is part of the compatibility comparison.
#[derive(Debug, Copy, Clone, PartialEq, Eq, Structural)]
pub struct OperationsTable {
    pub clone_op: bool,
    pub compare_op: bool,
    pub format_op: bool,
    pub drop_op: bool,
}

/// One of the operations an [`OperationsTable`] may provide.
#[derive(Debug, Copy, Clone, PartialEq, Eq, Structural)]
pub enum EnumOp {
    CloneOp,
    CompareOp,
    FormatOp,
    DropOp,
}

impl OperationsTable {
    /// Whether the table provides the given operation.
    pub open spec fn spec_supports(self, op: EnumOp) -> bool {
        match op {
            EnumOp::CloneOp => self.clone_op,
            EnumOp::CompareOp => self.compare_op,
            EnumOp::FormatOp => self.format_op,
            EnumOp::DropOp => self.drop_op,
        }
    }

    /// Whether the table provides the given operation.
    pub fn supports(&self, op: EnumOp) -> (r: bool)
        ensures
            r == self.spec_supports(op),
    {
        match op {
            EnumOp::CloneOp => self.clone_op,
            EnumOp::CompareOp => self.compare_op,
            EnumOp::FormatOp => self.format_op,
            EnumOp::DropOp => self.drop_op,
        }
    }

    /// Whether every operation this table provides is also provided by
    /// `other`: what a consumer requiring `self`'s operations needs of a
    /// provider's table.
    pub fn is_subset_of(&self, other: &OperationsTable) -> (r: bool)
        ensures
            r == (forall|op: EnumOp| self.spec_supports(op) ==> other.spec_supports(op)),
    {
        let r = (!self.clone_op || other.clone_op) && (!self.compare_op || other.compare_op) && (
        !self.format_op || other.format_op) && (!self.drop_op || other.drop_op);
        proof {
            if r {
                assert forall|op: EnumOp| self.spec_supports(op) implies other.spec_supports(
                    op,
                ) by {}
            } else {
                if !(!self.clone_op || other.clone_op) {
                    assert(self.spec_supports(EnumOp::CloneOp));
                } else if !(!self.compare_op || other.compare_op) {
                    assert(self.spec_supports(EnumOp::CompareOp));
                } else if !(!self.format_op || other.format_op) {
                    assert(self.spec_supports(EnumOp::FormatOp));
                } else {
                    assert(self.spec_supports(EnumOp::DropOp));
                }
            }
        }
        r
    }
}

/// What an enumeration that opts into forward compatibility records
/// besides its variants: the discriminant values known when the
/// description was generated, and which operations its table provides.
#[derive(Debug, Clone, PartialEq, Eq)]
pub struct OpenEnumInfo {
    pub known_discriminants: Vec<u64>,
    pub ops: OperationsTable,
}

/// A value of an open enumeration as it crosses the boundary: the
/// discriminant and the raw payload bytes, never matched on structurally
/// by a consumer.
#[derive(Debug, Clone, PartialEq, Eq)]
pub struct NonExhaustive {
    pub discriminant: u64,
    pub payload: Vec<u8>,
}

impl NonExhaustive {
    /// Erases a known variant: records its discriminant and payload.
    pub fn erase(discriminant: u64, payload: Vec<u8>) -> (r: NonExhaustive)
        ensures
            r.discriminant == discriminant,
            r.payload@ == payload@,
    {
        NonExhaustive { discriminant, payload }
    }

    /// Attempts to recover the concrete variant: succeeds with the
    /// variant's position among the discriminants this consumer knows,
    /// exactly when the discriminant is among them; an unrecognised
    /// discriminant is the explicit [`UnknownVariant`] outcome.
    pub fn recover_variant(&self, known: &OpenEnumInfo) -> (r: Result<usize, UnknownVariant>)
        ensures
            match r {
                Ok(i) => spec_position_of(known.known_discriminants@, self.discriminant) == i,
                Err(u) => !known.known_discriminants@.contains(self.discriminant)
                    && u.discriminant == self.discriminant,
            },
    {
        let mut i: usize = 0;
        while i < known.known_discriminants.len()
            invariant
                i <= known.known_discriminants@.len(),
                forall|j: int|
                    0 <= j < i ==> known.known_discriminants@[j] != self.discriminant,
            decreases known.known_discriminants@.len() - i,
        {
            if known.known_discriminants[i] == self.discriminant {
                proof {
                    crate::fn_lifetimes::lemma_position_of_unique(
                        known.known_discriminants@,
                        self.discriminant,
                        i as int,
                    );
                }
                return Ok(i);
            }
            i = i + 1;
        }
        proof {
            assert(!known.known_discriminants@.contains(self.discriminant));
        }
        Err(UnknownVariant { discriminant: self.discriminant })
    }
}

} // verus!
