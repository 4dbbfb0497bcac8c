//! Local type ids of the external schema system, in serializable form.

use vstd::prelude::*;

verus! {

/// A local type id: either a well-known index of the external codec's
/// schema, or an index local to one schema.
#[derive(Debug, Clone, Copy, PartialEq, Eq, Structural)]
pub enum SerializableLocalTypeId {
    WellKnown { index: u8 },
    SchemaLocalIndex { index: u64 },
}

impl SerializableLocalTypeId {
    /// Whether this id names a well-known type.
    pub fn is_well_known(&self) -> (r: bool)
        ensures
            r == (self is WellKnown),
    {
        match self {
            SerializableLocalTypeId::WellKnown { .. } => true,
            SerializableLocalTypeId::SchemaLocalIndex { .. } => false,
        }
    }

    /// The raw index this id carries.
    pub fn index(&self) -> (r: u64)
        ensures
            match self {
                SerializableLocalTypeId::WellKnown { index } => r == index as u64,
                SerializableLocalTypeId::SchemaLocalIndex { index } => r == index,
            },
    {
        match self {
            SerializableLocalTypeId::WellKnown { index } => *index as u64,
            SerializableLocalTypeId::SchemaLocalIndex { index } => *index,
        }
    }
}

} // verus!
