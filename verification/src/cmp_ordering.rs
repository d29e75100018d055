//! A representation-stable ordering value, exchangeable between
//! independently compiled binaries.

use vstd::prelude::*;

verus! {

/// The result of a comparison, in a form whose representation is fixed
/// across compilations.
#[derive(Debug, Copy, Clone, PartialEq, Eq, Hash, Structural)]
pub enum RCmpOrdering {
    LessR,
    EqualR,
    GreaterR,
}

impl RCmpOrdering {
    /// The ordering with its operands swapped.
    pub fn reverse(self) -> (r: RCmpOrdering)
        ensures
            self == RCmpOrdering::LessR ==> r == RCmpOrdering::GreaterR,
            self == RCmpOrdering::GreaterR ==> r == RCmpOrdering::LessR,
            self == RCmpOrdering::EqualR ==> r == RCmpOrdering::EqualR,
    {
        match self {
            RCmpOrdering::LessR => RCmpOrdering::GreaterR,
            RCmpOrdering::EqualR => RCmpOrdering::EqualR,
            RCmpOrdering::GreaterR => RCmpOrdering::LessR,
        }
    }

    /// The standard-library ordering this value stands for.
    pub fn into_ordering(self) -> (r: core::cmp::Ordering)
        ensures
            (self == RCmpOrdering::LessR) == (r == core::cmp::Ordering::Less),
            (self == RCmpOrdering::EqualR) == (r == core::cmp::Ordering::Equal),
            (self == RCmpOrdering::GreaterR) == (r == core::cmp::Ordering::Greater),
    {
        match self {
            RCmpOrdering::LessR => core::cmp::Ordering::Less,
            RCmpOrdering::EqualR => core::cmp::Ordering::Equal,
            RCmpOrdering::GreaterR => core::cmp::Ordering::Greater,
        }
    }

    /// The representation-stable form of a standard-library ordering.
    pub fn from_ordering(o: core::cmp::Ordering) -> (r: RCmpOrdering)
        ensures
            (o == core::cmp::Ordering::Less) == (r == RCmpOrdering::LessR),
            (o == core::cmp::Ordering::Equal) == (r == RCmpOrdering::EqualR),
            (o == core::cmp::Ordering::Greater) == (r == RCmpOrdering::GreaterR),
    {
        match o {
            core::cmp::Ordering::Less => RCmpOrdering::LessR,
            core::cmp::Ordering::Equal => RCmpOrdering::EqualR,
            core::cmp::Ordering::Greater => RCmpOrdering::GreaterR,
        }
    }
}

} // verus!
