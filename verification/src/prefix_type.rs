//! The open-struct mechanism's access guard.
//!
//! A value of an open struct is addressed only through the description's
//! reported layout, never through a statically fixed offset that assumes
//! all fields exist. A read of a field beyond the publication boundary
//! first asks whether the providing binary's description reports the
//! field present, and only then yields the recorded offset; an absent
//! field is the reportable [`FieldAbsent`] condition, never an
//! out-of-bounds access.

use vstd::prelude::*;

use crate::errors::FieldAbsent;
use crate::type_layout::{TLData, TypeLayout};

verus! {

/// Whether the providing binary's description reports the field at
/// `index` present: the description must list it, and a conditional
/// field additionally needs its capability flag set in `enabled`.
/// Fields before the publication boundary are never conditional in a
/// generated description, so they are always present.
pub open spec fn spec_field_present(data: TLData, enabled: Seq<bool>, index: int) -> bool {
    match data {
        TLData::Prefix { fields_at_publish, fields } => {
            &&& 0 <= index < fields@.len()
            &&& (!fields@[index].conditional || (index < enabled.len() && enabled[index]))
        },
        _ => false,
    }
}

impl TypeLayout {
    /// The byte offset at which the providing binary lays out the open
    /// struct's field at `index`, or [`FieldAbsent`] when that binary's
    /// description does not report the field present. `enabled` carries
    /// the capability flags governing the conditional fields.
    pub fn prefix_field_offset(&self, index: usize, enabled: &Vec<bool>) -> (r: Result<
        usize,
        FieldAbsent,
    >)
        requires
            self.data is Prefix,
        ensures
            match r {
                Ok(off) => spec_field_present(self.data, enabled@, index as int)
                    && off == self.data->Prefix_fields@[index as int].offset,
                Err(fa) => !spec_field_present(self.data, enabled@, index as int)
                    && fa.field_index == index,
            },
    {
        match &self.data {
            TLData::Prefix { fields_at_publish, fields } => {
                if index >= fields.len() {
                    return Err(FieldAbsent { field_index: index });
                }
                if fields[index].conditional {
                    if index >= enabled.len() || !enabled[index] {
                        return Err(FieldAbsent { field_index: index });
                    }
                }
                Ok(fields[index].offset)
            },
            _ => Err(FieldAbsent { field_index: index }),
        }
    }
}

} // verus!
