//! Network-aware entity addresses.
//!
//! An address wraps the raw entity identifier bytes together with the id of
//! the network it was read on. Two addresses are equal exactly when their raw
//! bytes are equal: the network id affects only textual rendering.

use vstd::prelude::*;

verus! {

use vstd::std_specs::cmp::PartialEqSpec;

/// Number of bytes in a raw entity address.
pub const ADDRESS_LENGTH: usize = 30;

// Discriminator byte (the first raw byte) for each entity class the library
// distinguishes. The values come from the network's address registry and are
// treated as fixed constants.
pub const ENTITY_GENERIC_COMPONENT: u8 = 0xc0;
pub const ENTITY_ACCOUNT: u8 = 0xc1;
pub const ENTITY_VIRTUAL_SECP256K1_ACCOUNT: u8 = 0xd1;
pub const ENTITY_VIRTUAL_ED25519_ACCOUNT: u8 = 0x51;
pub const ENTITY_IDENTITY: u8 = 0x12;
pub const ENTITY_VIRTUAL_SECP256K1_IDENTITY: u8 = 0xd2;
pub const ENTITY_VIRTUAL_ED25519_IDENTITY: u8 = 0x52;
pub const ENTITY_CLOCK: u8 = 0x84;
pub const ENTITY_EPOCH_MANAGER: u8 = 0x86;
pub const ENTITY_VALIDATOR: u8 = 0x83;
pub const ENTITY_ACCESS_CONTROLLER: u8 = 0x58;
pub const ENTITY_FUNGIBLE_RESOURCE: u8 = 0x5d;
pub const ENTITY_NON_FUNGIBLE_RESOURCE: u8 = 0x9a;
pub const ENTITY_PACKAGE: u8 = 0x0d;

/// A raw entity address paired with the id of the network it belongs to.
#[derive(Debug, Clone, Eq)]
pub struct NetworkAwareAddress {
    /// The id of the network this address was constructed for. It only
    /// affects how the address renders textually.
    pub network_id: u8,
    /// The raw entity address bytes. The first byte identifies the entity
    /// class.
    pub raw: Vec<u8>,
}

impl NetworkAwareAddress {
    /// A structurally well-formed address: the raw part has the expected
    /// length, so the entity discriminator byte exists.
    pub open spec fn wf(self) -> bool {
        self.raw@.len() == ADDRESS_LENGTH
    }

    /// The entity discriminator: the first raw byte.
    pub open spec fn spec_entity_byte(self) -> u8 {
        self.raw@[0]
    }

    /// Returns the entity discriminator byte.
    pub fn entity_byte(&self) -> (r: u8)
        requires
            self.wf(),
        ensures
            r == self.spec_entity_byte(),
    {
        self.raw[0]
    }
}

impl PartialEq for NetworkAwareAddress {
    /// Equality looks at the raw bytes only; the network id is ignored.
    fn eq(&self, other: &Self) -> (r: bool) {
        let r = self.raw == other.raw;
        proof {
            assert(self.raw.eq_spec(&other.raw) <==> self.raw@ == other.raw@) by {
                if self.raw.eq_spec(&other.raw) {
                    assert(self.raw@ =~= other.raw@);
                }
            }
        }
        r
    }
}

impl vstd::std_specs::cmp::PartialEqSpecImpl for NetworkAwareAddress {
    open spec fn obeys_eq_spec() -> bool {
        true
    }

    open spec fn eq_spec(&self, other: &Self) -> bool {
        self.raw@ == other.raw@
    }
}

/// The class of entity an address refers to, derived from the discriminator
/// byte alone.
#[derive(Debug, Clone, Copy, PartialEq, Eq, Structural)]
pub enum EntityClass {
    UserApplication,
    Account,
    Identity,
    Clock,
    EpochManager,
    Validator,
    AccessController,
    Resource,
    Package,
    Other,
}

/// The entity class a discriminator byte denotes.
pub open spec fn spec_entity_class(b: u8) -> EntityClass {
    if b == ENTITY_GENERIC_COMPONENT {
        EntityClass::UserApplication
    } else if b == ENTITY_ACCOUNT || b == ENTITY_VIRTUAL_SECP256K1_ACCOUNT
        || b == ENTITY_VIRTUAL_ED25519_ACCOUNT {
        EntityClass::Account
    } else if b == ENTITY_IDENTITY || b == ENTITY_VIRTUAL_SECP256K1_IDENTITY
        || b == ENTITY_VIRTUAL_ED25519_IDENTITY {
        EntityClass::Identity
    } else if b == ENTITY_CLOCK {
        EntityClass::Clock
    } else if b == ENTITY_EPOCH_MANAGER {
        EntityClass::EpochManager
    } else if b == ENTITY_VALIDATOR {
        EntityClass::Validator
    } else if b == ENTITY_ACCESS_CONTROLLER {
        EntityClass::AccessController
    } else if b == ENTITY_FUNGIBLE_RESOURCE || b == ENTITY_NON_FUNGIBLE_RESOURCE {
        EntityClass::Resource
    } else if b == ENTITY_PACKAGE {
        EntityClass::Package
    } else {
        EntityClass::Other
    }
}

/// Classifies a discriminator byte.
pub fn entity_class(b: u8) -> (r: EntityClass)
    ensures
        r == spec_entity_class(b),
{
    if b == ENTITY_GENERIC_COMPONENT {
        EntityClass::UserApplication
    } else if b == ENTITY_ACCOUNT || b == ENTITY_VIRTUAL_SECP256K1_ACCOUNT
        || b == ENTITY_VIRTUAL_ED25519_ACCOUNT {
        EntityClass::Account
    } else if b == ENTITY_IDENTITY || b == ENTITY_VIRTUAL_SECP256K1_IDENTITY
        || b == ENTITY_VIRTUAL_ED25519_IDENTITY {
        EntityClass::Identity
    } else if b == ENTITY_CLOCK {
        EntityClass::Clock
    } else if b == ENTITY_EPOCH_MANAGER {
        EntityClass::EpochManager
    } else if b == ENTITY_VALIDATOR {
        EntityClass::Validator
    } else if b == ENTITY_ACCESS_CONTROLLER {
        EntityClass::AccessController
    } else if b == ENTITY_FUNGIBLE_RESOURCE || b == ENTITY_NON_FUNGIBLE_RESOURCE {
        EntityClass::Resource
    } else if b == ENTITY_PACKAGE {
        EntityClass::Package
    } else {
        EntityClass::Other
    }
}

/// Whether an address refers to an account component.
pub open spec fn spec_is_account(a: NetworkAwareAddress) -> bool {
    spec_entity_class(a.spec_entity_byte()) == EntityClass::Account
}

/// Returns true exactly when the address refers to an account component.
pub fn is_account(a: &NetworkAwareAddress) -> (r: bool)
    requires
        a.wf(),
    ensures
        r == spec_is_account(*a),
{
    entity_class(a.entity_byte()) == EntityClass::Account
}

/// Whether an address refers to an identity component.
pub open spec fn spec_is_identity(a: NetworkAwareAddress) -> bool {
    spec_entity_class(a.spec_entity_byte()) == EntityClass::Identity
}

/// Returns true exactly when the address refers to an identity component.
pub fn is_identity(a: &NetworkAwareAddress) -> (r: bool)
    requires
        a.wf(),
    ensures
        r == spec_is_identity(*a),
{
    entity_class(a.entity_byte()) == EntityClass::Identity
}

/// Whether an address refers to a validator component.
pub open spec fn spec_is_validator(a: NetworkAwareAddress) -> bool {
    spec_entity_class(a.spec_entity_byte()) == EntityClass::Validator
}

/// Returns true exactly when the address refers to a validator component.
pub fn is_validator(a: &NetworkAwareAddress) -> (r: bool)
    requires
        a.wf(),
    ensures
        r == spec_is_validator(*a),
{
    entity_class(a.entity_byte()) == EntityClass::Validator
}

/// Whether an address refers to an access controller component.
pub open spec fn spec_is_access_controller(a: NetworkAwareAddress) -> bool {
    spec_entity_class(a.spec_entity_byte()) == EntityClass::AccessController
}

/// Returns true exactly when the address refers to an access controller.
pub fn is_access_controller(a: &NetworkAwareAddress) -> (r: bool)
    requires
        a.wf(),
    ensures
        r == spec_is_access_controller(*a),
{
    entity_class(a.entity_byte()) == EntityClass::AccessController
}

/// Compares two addresses, true exactly when the raw bytes agree.
pub fn address_eq(a: &NetworkAwareAddress, b: &NetworkAwareAddress) -> (r: bool)
    ensures
        r == (a.raw@ == b.raw@),
{
    let r = a.raw == b.raw;
    proof {
        if r {
            assert(a.raw@ =~= b.raw@);
        }
    }
    r
}

} // verus!
