//! Named handles used while building a manifest.
//!
//! A manifest builder refers to buckets, proofs, address reservations and
//! named addresses by the names its caller chose; a name record maps each
//! name to the numeric handle the built manifest uses.

use vstd::prelude::*;

use crate::error::Error;
use crate::value::string_eq;

verus! {

/// A named bucket handle.
#[derive(Debug, PartialEq, Eq)]
pub struct ManifestBuilderBucket {
    pub name: String,
}

/// A named proof handle.
#[derive(Debug, PartialEq, Eq)]
pub struct ManifestBuilderProof {
    pub name: String,
}

/// A named address reservation handle.
#[derive(Debug, PartialEq, Eq)]
pub struct ManifestBuilderAddressReservation {
    pub name: String,
}

/// A named address handle.
#[derive(Debug, PartialEq, Eq)]
pub struct ManifestBuilderNamedAddress {
    pub name: String,
}

/// A named or static address in a manifest under construction.
#[derive(Debug, PartialEq, Eq)]
pub enum ManifestBuilderAddress {
    Named { value: ManifestBuilderNamedAddress },
    Static { value: crate::address::NetworkAwareAddress },
}

/// The names a builder has assigned so far, each with the numeric handle
/// the built manifest uses.
#[derive(Debug)]
pub struct NameRecord {
    pub buckets: Vec<(String, u32)>,
    pub proofs: Vec<(String, u32)>,
    pub address_reservations: Vec<(String, u32)>,
    pub named_addresses: Vec<(String, u32)>,
}

/// The handle the first binding of the name carries, if the name is bound.
pub open spec fn lookup_spec(entries: Seq<(String, u32)>, name: Seq<char>) -> Option<u32>
    decreases entries,
{
    if entries.len() == 0 {
        None
    } else if entries[0].0@ == name {
        Some(entries[0].1)
    } else {
        lookup_spec(entries.subrange(1, entries.len() as int), name)
    }
}

/// A bound position with a clean prefix is the first binding.
proof fn lemma_lookup_is(entries: Seq<(String, u32)>, name: Seq<char>, i: int)
    requires
        0 <= i < entries.len(),
        entries[i].0@ == name,
        forall|j: int| 0 <= j < i ==> (#[trigger] entries[j]).0@ != name,
    ensures
        lookup_spec(entries, name) == Some(entries[i].1),
    decreases i,
{
    if i > 0 {
        let rest = entries.subrange(1, entries.len() as int);
        assert(rest[i - 1] == entries[i]);
        assert forall|j: int| 0 <= j < i - 1 implies (#[trigger] rest[j]).0@ != name by {
            assert(rest[j] == entries[j + 1]);
        }
        lemma_lookup_is(rest, name, i - 1);
    }
}

/// An unbound name has no first binding.
proof fn lemma_lookup_none(entries: Seq<(String, u32)>, name: Seq<char>)
    requires
        forall|j: int| 0 <= j < entries.len() ==> (#[trigger] entries[j]).0@ != name,
    ensures
        lookup_spec(entries, name) is None,
    decreases entries.len(),
{
    if entries.len() > 0 {
        let rest = entries.subrange(1, entries.len() as int);
        assert forall|j: int| 0 <= j < rest.len() implies (#[trigger] rest[j]).0@ != name by {
            assert(rest[j] == entries[j + 1]);
        }
        lemma_lookup_none(rest, name);
    }
}

/// Looks a name up among the entries: the first binding wins, and an
/// unbound name is an error naming it.
pub fn lookup(entries: &Vec<(String, u32)>, name: &String) -> (r: Result<u32, Error>)
    ensures
        match r {
            Ok(v) => lookup_spec(entries@, name@) == Some(v),
            Err(e) => lookup_spec(entries@, name@) is None && e == (Error::UnknownName {
                name: *name,
            }),
        },
{
    let mut i: usize = 0;
    while i < entries.len()
        invariant
            0 <= i <= entries@.len(),
            forall|j: int| 0 <= j < i ==> (#[trigger] entries@[j]).0@ != name@,
        decreases entries@.len() - i,
    {
        if string_eq(&entries[i].0, name) {
            proof {
                lemma_lookup_is(entries@, name@, i as int);
            }
            return Ok(entries[i].1);
        }
        i = i + 1;
    }
    proof {
        lemma_lookup_none(entries@, name@);
    }
    Err(Error::UnknownName { name: name.clone() })
}

impl NameRecord {
    /// The handle of a named bucket.
    pub fn get_bucket(&self, name: &String) -> (r: Result<u32, Error>)
        ensures
            match r {
                Ok(v) => lookup_spec(self.buckets@, name@) == Some(v),
                Err(_) => lookup_spec(self.buckets@, name@) is None,
            },
    {
        lookup(&self.buckets, name)
    }

    /// The handle of a named proof.
    pub fn get_proof(&self, name: &String) -> (r: Result<u32, Error>)
        ensures
            match r {
                Ok(v) => lookup_spec(self.proofs@, name@) == Some(v),
                Err(_) => lookup_spec(self.proofs@, name@) is None,
            },
    {
        lookup(&self.proofs, name)
    }

    /// The handle of a named address reservation.
    pub fn get_address_reservation(&self, name: &String) -> (r: Result<u32, Error>)
        ensures
            match r {
                Ok(v) => lookup_spec(self.address_reservations@, name@) == Some(v),
                Err(_) => lookup_spec(self.address_reservations@, name@) is None,
            },
    {
        lookup(&self.address_reservations, name)
    }

    /// The handle of a named address.
    pub fn get_named_address(&self, name: &String) -> (r: Result<u32, Error>)
        ensures
            match r {
                Ok(v) => lookup_spec(self.named_addresses@, name@) == Some(v),
                Err(_) => lookup_spec(self.named_addresses@, name@) is None,
            },
    {
        lookup(&self.named_addresses, name)
    }
}

/// A builder handle that resolves through the name record to the form the
/// built manifest uses.
pub trait NameRecordConvertible {
    /// The resolved form.
    type Native;

    /// Resolves this handle against the names assigned so far.
    fn to_native(&self, name_record: &NameRecord) -> Result<Self::Native, Error>;
}

impl NameRecordConvertible for ManifestBuilderBucket {
    type Native = u32;

    fn to_native(&self, name_record: &NameRecord) -> Result<u32, Error> {
        name_record.get_bucket(&self.name)
    }
}

impl NameRecordConvertible for ManifestBuilderProof {
    type Native = u32;

    fn to_native(&self, name_record: &NameRecord) -> Result<u32, Error> {
        name_record.get_proof(&self.name)
    }
}

impl NameRecordConvertible for ManifestBuilderAddressReservation {
    type Native = u32;

    fn to_native(&self, name_record: &NameRecord) -> Result<u32, Error> {
        name_record.get_address_reservation(&self.name)
    }
}

impl NameRecordConvertible for ManifestBuilderNamedAddress {
    type Native = u32;

    fn to_native(&self, name_record: &NameRecord) -> Result<u32, Error> {
        name_record.get_named_address(&self.name)
    }
}

impl NameRecordConvertible for ManifestBuilderAddress {
    type Native = crate::instruction::ManifestAddress;

    fn to_native(&self, name_record: &NameRecord) -> Result<
        crate::instruction::ManifestAddress,
        Error,
    > {
        match self {
            ManifestBuilderAddress::Named { value } => match value.to_native(name_record) {
                Ok(id) => Ok(crate::instruction::ManifestAddress::Named { id }),
                Err(e) => Err(e),
            },
            ManifestBuilderAddress::Static { value } => Ok(
                crate::instruction::ManifestAddress::Static {
                    address: crate::visitor::copy_address(value),
                },
            ),
        }
    }
}

} // verus!
