//! The canonical tagged-union value model.
//!
//! A [`Value`] is the structured in-memory representation of a manifest
//! value. Every variant has a [`ValueKind`] discriminant, computed by
//! [`Value::kind`] from the variant tag alone. Array and map values declare
//! the kind of their elements, and constructing one whose elements disagree
//! with the declaration is an error, never a silent coercion.

use vstd::prelude::*;

use crate::address::NetworkAwareAddress;
use crate::error::Error;

verus! {

/// Compares two strings by their character sequences.
pub fn string_eq(a: &String, b: &String) -> (r: bool)
    ensures
        r == (a@ == b@),
{
    <String as PartialEq>::eq(a, b)
}

/// Wire discriminator index reserved for the `Some` case of options.
pub const OPTION_SOME_DISCRIMINATOR: u8 = 0;
/// Wire discriminator index reserved for the `None` case of options.
pub const OPTION_NONE_DISCRIMINATOR: u8 = 1;
/// Wire discriminator index reserved for the `Ok` case of results.
pub const RESULT_OK_DISCRIMINATOR: u8 = 0;
/// Wire discriminator index reserved for the `Err` case of results.
pub const RESULT_ERR_DISCRIMINATOR: u8 = 1;

/// The discriminant of every [`Value`] variant.
///
/// The option and result cases (`OptionSome`, `OptionNone`, `ResultOk`,
/// `ResultErr`) are distinct kinds here although they all collapse to the
/// single `Enum` kind on the wire.
#[derive(Debug, Clone, Copy, PartialEq, Eq, Structural)]
pub enum ValueKind {
    Bool,
    U8,
    U16,
    U32,
    U64,
    U128,
    I8,
    I16,
    I32,
    I64,
    I128,
    String,
    Enum,
    OptionSome,
    OptionNone,
    ResultOk,
    ResultErr,
    MapValue,
    Array,
    Tuple,
    Decimal,
    PreciseDecimal,
    Own,
    ComponentAddress,
    ResourceAddress,
    PackageAddress,
    Hash,
    EcdsaSecp256k1PublicKey,
    EcdsaSecp256k1Signature,
    EddsaEd25519PublicKey,
    EddsaEd25519Signature,
    Bucket,
    Proof,
    NonFungibleLocalId,
    NonFungibleGlobalId,
    Expression,
    Blob,
    Bytes,
}

/// Names or numbers an enum variant. A string discriminator must be one of
/// the well-known names to convert to the wire form.
#[derive(Debug, Clone, PartialEq, Eq)]
pub enum EnumDiscriminator {
    U8 { discriminator: u8 },
    String { discriminator: String },
}

impl EnumDiscriminator {
    /// The wire index a discriminator resolves to: a numeric discriminator
    /// is itself; a string discriminator resolves through the table of
    /// well-known names.
    pub open spec fn spec_resolve(self) -> Option<u8> {
        match self {
            EnumDiscriminator::U8 { discriminator } => Some(discriminator),
            EnumDiscriminator::String { discriminator } => {
                if discriminator@ == "Option::Some"@ {
                    Some(OPTION_SOME_DISCRIMINATOR)
                } else if discriminator@ == "Option::None"@ {
                    Some(OPTION_NONE_DISCRIMINATOR)
                } else if discriminator@ == "Result::Ok"@ {
                    Some(RESULT_OK_DISCRIMINATOR)
                } else if discriminator@ == "Result::Err"@ {
                    Some(RESULT_ERR_DISCRIMINATOR)
                } else {
                    None
                }
            },
        }
    }

    /// Resolves the discriminator to its wire index, failing on a string
    /// that is not a well-known variant name.
    pub fn resolve_discriminator(&self) -> (r: Result<u8, Error>)
        ensures
            match self.spec_resolve() {
                Some(d) => r == Ok::<u8, Error>(d),
                None => r matches Err(e) && e@ == (crate::error::ErrorView::InvalidEnumDiscriminator {
                    discriminator: match self@ {
                        DiscriminatorView::String { discriminator } => discriminator,
                        DiscriminatorView::U8 { .. } => Seq::empty(),
                    },
                }),
            },
    {
        match self {
            EnumDiscriminator::U8 { discriminator } => Ok(*discriminator),
            EnumDiscriminator::String { discriminator } => {
                if string_eq(discriminator, &String::from_str("Option::Some")) {
                    Ok(OPTION_SOME_DISCRIMINATOR)
                } else if string_eq(discriminator, &String::from_str("Option::None")) {
                    Ok(OPTION_NONE_DISCRIMINATOR)
                } else if string_eq(discriminator, &String::from_str("Result::Ok")) {
                    Ok(RESULT_OK_DISCRIMINATOR)
                } else if string_eq(discriminator, &String::from_str("Result::Err")) {
                    Ok(RESULT_ERR_DISCRIMINATOR)
                } else {
                    Err(Error::InvalidEnumDiscriminator { discriminator: discriminator.clone() })
                }
            },
        }
    }
}

/// A transient identifier for a manifest-scoped bucket or proof: either a
/// name or a numeric index.
#[derive(Debug, Clone, PartialEq, Eq)]
pub enum TransientIdentifier {
    String { value: String },
    U32 { value: u32 },
}

/// The local (within one resource) id of a non-fungible unit.
#[derive(Debug, Clone, PartialEq, Eq)]
pub enum NonFungibleLocalId {
    Integer { value: u64 },
    String { value: String },
    Bytes { value: Vec<u8> },
    UUID { value: u128 },
}

/// The global id of a non-fungible unit: its resource plus its local id.
#[derive(Debug, Clone, PartialEq, Eq)]
pub struct NonFungibleGlobalId {
    pub resource_address: NetworkAwareAddress,
    pub non_fungible_local_id: NonFungibleLocalId,
}

/// A transaction manifest expression.
#[derive(Debug, Clone, Copy, PartialEq, Eq, Structural)]
pub enum ManifestExpression {
    EntireWorktop,
    EntireAuthZone,
}

/// A node owned from the point of view of the manifest.
#[derive(Debug, Clone, PartialEq, Eq)]
pub enum OwnedNode {
    Bucket { id: u32 },
    Proof { id: u32 },
    Vault { id: Vec<u8> },
    Object { id: Vec<u8> },
    KeyValueStore { id: Vec<u8> },
}

/// The canonical value model: one variant per [`ValueKind`].
///
/// Byte-array payloads (hashes, public keys, signatures, blob references)
/// hold the raw bytes; decimals hold their literal text; addresses are
/// network-aware.
#[derive(Debug, PartialEq, Eq)]
pub enum Value {
    Bool { value: bool },
    U8 { value: u8 },
    U16 { value: u16 },
    U32 { value: u32 },
    U64 { value: u64 },
    U128 { value: u128 },
    I8 { value: i8 },
    I16 { value: i16 },
    I32 { value: i32 },
    I64 { value: i64 },
    I128 { value: i128 },
    String { value: String },
    Enum { variant: EnumDiscriminator, fields: Option<Vec<Value>> },
    OptionSome { value: Box<Value> },
    OptionNone,
    ResultOk { value: Box<Value> },
    ResultErr { value: Box<Value> },
    Array { element_kind: ValueKind, elements: Vec<Value> },
    MapValue { key_value_kind: ValueKind, value_value_kind: ValueKind, entries: Vec<(Value, Value)> },
    Tuple { elements: Vec<Value> },
    Decimal { value: String },
    PreciseDecimal { value: String },
    Own { value: OwnedNode },
    ComponentAddress { address: NetworkAwareAddress },
    ResourceAddress { address: NetworkAwareAddress },
    PackageAddress { address: NetworkAwareAddress },
    Hash { value: Vec<u8> },
    EcdsaSecp256k1PublicKey { public_key: Vec<u8> },
    EcdsaSecp256k1Signature { signature: Vec<u8> },
    EddsaEd25519PublicKey { public_key: Vec<u8> },
    EddsaEd25519Signature { signature: Vec<u8> },
    Bucket { identifier: TransientIdentifier },
    Proof { identifier: TransientIdentifier },
    NonFungibleLocalId { value: NonFungibleLocalId },
    NonFungibleGlobalId { address: NonFungibleGlobalId },
    Expression { value: ManifestExpression },
    Blob { hash: Vec<u8> },
    Bytes { value: Vec<u8> },
}

/// The kind of a value: a function of the variant tag alone; it never
/// inspects the payload.
pub open spec fn spec_kind(v: Value) -> ValueKind {
    match v {
        Value::Bool { .. } => ValueKind::Bool,
        Value::U8 { .. } => ValueKind::U8,
        Value::U16 { .. } => ValueKind::U16,
        Value::U32 { .. } => ValueKind::U32,
        Value::U64 { .. } => ValueKind::U64,
        Value::U128 { .. } => ValueKind::U128,
        Value::I8 { .. } => ValueKind::I8,
        Value::I16 { .. } => ValueKind::I16,
        Value::I32 { .. } => ValueKind::I32,
        Value::I64 { .. } => ValueKind::I64,
        Value::I128 { .. } => ValueKind::I128,
        Value::String { .. } => ValueKind::String,
        Value::Enum { .. } => ValueKind::Enum,
        Value::OptionSome { .. } => ValueKind::OptionSome,
        Value::OptionNone => ValueKind::OptionNone,
        Value::ResultOk { .. } => ValueKind::ResultOk,
        Value::ResultErr { .. } => ValueKind::ResultErr,
        Value::Array { .. } => ValueKind::Array,
        Value::MapValue { .. } => ValueKind::MapValue,
        Value::Tuple { .. } => ValueKind::Tuple,
        Value::Decimal { .. } => ValueKind::Decimal,
        Value::PreciseDecimal { .. } => ValueKind::PreciseDecimal,
        Value::Own { .. } => ValueKind::Own,
        Value::ComponentAddress { .. } => ValueKind::ComponentAddress,
        Value::ResourceAddress { .. } => ValueKind::ResourceAddress,
        Value::PackageAddress { .. } => ValueKind::PackageAddress,
        Value::Hash { .. } => ValueKind::Hash,
        Value::EcdsaSecp256k1PublicKey { .. } => ValueKind::EcdsaSecp256k1PublicKey,
        Value::EcdsaSecp256k1Signature { .. } => ValueKind::EcdsaSecp256k1Signature,
        Value::EddsaEd25519PublicKey { .. } => ValueKind::EddsaEd25519PublicKey,
        Value::EddsaEd25519Signature { .. } => ValueKind::EddsaEd25519Signature,
        Value::Bucket { .. } => ValueKind::Bucket,
        Value::Proof { .. } => ValueKind::Proof,
        Value::NonFungibleLocalId { .. } => ValueKind::NonFungibleLocalId,
        Value::NonFungibleGlobalId { .. } => ValueKind::NonFungibleGlobalId,
        Value::Expression { .. } => ValueKind::Expression,
        Value::Blob { .. } => ValueKind::Blob,
        Value::Bytes { .. } => ValueKind::Bytes,
    }
}

/// Whether two values carry the same variant tag, whatever their payloads.
pub open spec fn same_variant(a: Value, b: Value) -> bool {
    match a {
        Value::Bool { .. } => b is Bool,
        Value::U8 { .. } => b is U8,
        Value::U16 { .. } => b is U16,
        Value::U32 { .. } => b is U32,
        Value::U64 { .. } => b is U64,
        Value::U128 { .. } => b is U128,
        Value::I8 { .. } => b is I8,
        Value::I16 { .. } => b is I16,
        Value::I32 { .. } => b is I32,
        Value::I64 { .. } => b is I64,
        Value::I128 { .. } => b is I128,
        Value::String { .. } => b is String,
        Value::Enum { .. } => b is Enum,
        Value::OptionSome { .. } => b is OptionSome,
        Value::OptionNone => b is OptionNone,
        Value::ResultOk { .. } => b is ResultOk,
        Value::ResultErr { .. } => b is ResultErr,
        Value::Array { .. } => b is Array,
        Value::MapValue { .. } => b is MapValue,
        Value::Tuple { .. } => b is Tuple,
        Value::Decimal { .. } => b is Decimal,
        Value::PreciseDecimal { .. } => b is PreciseDecimal,
        Value::Own { .. } => b is Own,
        Value::ComponentAddress { .. } => b is ComponentAddress,
        Value::ResourceAddress { .. } => b is ResourceAddress,
        Value::PackageAddress { .. } => b is PackageAddress,
        Value::Hash { .. } => b is Hash,
        Value::EcdsaSecp256k1PublicKey { .. } => b is EcdsaSecp256k1PublicKey,
        Value::EcdsaSecp256k1Signature { .. } => b is EcdsaSecp256k1Signature,
        Value::EddsaEd25519PublicKey { .. } => b is EddsaEd25519PublicKey,
        Value::EddsaEd25519Signature { .. } => b is EddsaEd25519Signature,
        Value::Bucket { .. } => b is Bucket,
        Value::Proof { .. } => b is Proof,
        Value::NonFungibleLocalId { .. } => b is NonFungibleLocalId,
        Value::NonFungibleGlobalId { .. } => b is NonFungibleGlobalId,
        Value::Expression { .. } => b is Expression,
        Value::Blob { .. } => b is Blob,
        Value::Bytes { .. } => b is Bytes,
    }
}

/// The kind of a value is a pure, total function of its variant tag: two
/// values with the same tag have the same kind, whatever their payloads.
pub proof fn lemma_kind_payload_independent(a: Value, b: Value)
    requires
        same_variant(a, b),
    ensures
        spec_kind(a) == spec_kind(b),
{
}

impl Value {
    /// Returns the [`ValueKind`] of this value. The result depends on the
    /// variant tag alone.
    pub fn kind(&self) -> (r: ValueKind)
        ensures
            r == spec_kind(*self),
    {
        match self {
            Value::Bool { .. } => ValueKind::Bool,
            Value::U8 { .. } => ValueKind::U8,
            Value::U16 { .. } => ValueKind::U16,
            Value::U32 { .. } => ValueKind::U32,
            Value::U64 { .. } => ValueKind::U64,
            Value::U128 { .. } => ValueKind::U128,
            Value::I8 { .. } => ValueKind::I8,
            Value::I16 { .. } => ValueKind::I16,
            Value::I32 { .. } => ValueKind::I32,
            Value::I64 { .. } => ValueKind::I64,
            Value::I128 { .. } => ValueKind::I128,
            Value::String { .. } => ValueKind::String,
            Value::Enum { .. } => ValueKind::Enum,
            Value::OptionSome { .. } => ValueKind::OptionSome,
            Value::OptionNone => ValueKind::OptionNone,
            Value::ResultOk { .. } => ValueKind::ResultOk,
            Value::ResultErr { .. } => ValueKind::ResultErr,
            Value::Array { .. } => ValueKind::Array,
            Value::MapValue { .. } => ValueKind::MapValue,
            Value::Tuple { .. } => ValueKind::Tuple,
            Value::Decimal { .. } => ValueKind::Decimal,
            Value::PreciseDecimal { .. } => ValueKind::PreciseDecimal,
            Value::Own { .. } => ValueKind::Own,
            Value::ComponentAddress { .. } => ValueKind::ComponentAddress,
            Value::ResourceAddress { .. } => ValueKind::ResourceAddress,
            Value::PackageAddress { .. } => ValueKind::PackageAddress,
            Value::Hash { .. } => ValueKind::Hash,
            Value::EcdsaSecp256k1PublicKey { .. } => ValueKind::EcdsaSecp256k1PublicKey,
            Value::EcdsaSecp256k1Signature { .. } => ValueKind::EcdsaSecp256k1Signature,
            Value::EddsaEd25519PublicKey { .. } => ValueKind::EddsaEd25519PublicKey,
            Value::EddsaEd25519Signature { .. } => ValueKind::EddsaEd25519Signature,
            Value::Bucket { .. } => ValueKind::Bucket,
            Value::Proof { .. } => ValueKind::Proof,
            Value::NonFungibleLocalId { .. } => ValueKind::NonFungibleLocalId,
            Value::NonFungibleGlobalId { .. } => ValueKind::NonFungibleGlobalId,
            Value::Expression { .. } => ValueKind::Expression,
            Value::Blob { .. } => ValueKind::Blob,
            Value::Bytes { .. } => ValueKind::Bytes,
        }
    }
}

/// The mathematical model of an [`EnumDiscriminator`].
pub enum DiscriminatorView {
    U8 { discriminator: u8 },
    String { discriminator: Seq<char> },
}

impl View for EnumDiscriminator {
    type V = DiscriminatorView;

    open spec fn view(&self) -> DiscriminatorView {
        match self {
            EnumDiscriminator::U8 { discriminator } => DiscriminatorView::U8 {
                discriminator: *discriminator,
            },
            EnumDiscriminator::String { discriminator } => DiscriminatorView::String {
                discriminator: discriminator@,
            },
        }
    }
}

/// The wire index a discriminator view resolves to; see
/// [`EnumDiscriminator::spec_resolve`].
pub open spec fn resolve_view(d: DiscriminatorView) -> Option<u8> {
    match d {
        DiscriminatorView::U8 { discriminator } => Some(discriminator),
        DiscriminatorView::String { discriminator } => {
            if discriminator == "Option::Some"@ {
                Some(OPTION_SOME_DISCRIMINATOR)
            } else if discriminator == "Option::None"@ {
                Some(OPTION_NONE_DISCRIMINATOR)
            } else if discriminator == "Result::Ok"@ {
                Some(RESULT_OK_DISCRIMINATOR)
            } else if discriminator == "Result::Err"@ {
                Some(RESULT_ERR_DISCRIMINATOR)
            } else {
                None
            }
        },
    }
}

/// The mathematical model of a [`TransientIdentifier`].
pub enum TransientIdentifierView {
    String { value: Seq<char> },
    U32 { value: u32 },
}

impl View for TransientIdentifier {
    type V = TransientIdentifierView;

    open spec fn view(&self) -> TransientIdentifierView {
        match self {
            TransientIdentifier::String { value } => TransientIdentifierView::String {
                value: value@,
            },
            TransientIdentifier::U32 { value } => TransientIdentifierView::U32 { value: *value },
        }
    }
}

/// The mathematical model of a [`NonFungibleLocalId`].
pub enum NonFungibleLocalIdView {
    Integer { value: u64 },
    String { value: Seq<char> },
    Bytes { value: Seq<u8> },
    UUID { value: u128 },
}

impl View for NonFungibleLocalId {
    type V = NonFungibleLocalIdView;

    open spec fn view(&self) -> NonFungibleLocalIdView {
        match self {
            NonFungibleLocalId::Integer { value } => NonFungibleLocalIdView::Integer {
                value: *value,
            },
            NonFungibleLocalId::String { value } => NonFungibleLocalIdView::String {
                value: value@,
            },
            NonFungibleLocalId::Bytes { value } => NonFungibleLocalIdView::Bytes { value: value@ },
            NonFungibleLocalId::UUID { value } => NonFungibleLocalIdView::UUID { value: *value },
        }
    }
}

/// The mathematical model of a [`NetworkAwareAddress`].
pub struct AddressView {
    pub network_id: u8,
    pub raw: Seq<u8>,
}

impl View for NetworkAwareAddress {
    type V = AddressView;

    open spec fn view(&self) -> AddressView {
        AddressView { network_id: self.network_id, raw: self.raw@ }
    }
}

/// The mathematical model of a [`NonFungibleGlobalId`].
pub struct NonFungibleGlobalIdView {
    pub resource_address: AddressView,
    pub non_fungible_local_id: NonFungibleLocalIdView,
}

impl View for NonFungibleGlobalId {
    type V = NonFungibleGlobalIdView;

    open spec fn view(&self) -> NonFungibleGlobalIdView {
        NonFungibleGlobalIdView {
            resource_address: self.resource_address@,
            non_fungible_local_id: self.non_fungible_local_id@,
        }
    }
}

/// The mathematical model of an [`OwnedNode`].
pub enum OwnedNodeView {
    Bucket { id: u32 },
    Proof { id: u32 },
    Vault { id: Seq<u8> },
    Object { id: Seq<u8> },
    KeyValueStore { id: Seq<u8> },
}

impl View for OwnedNode {
    type V = OwnedNodeView;

    open spec fn view(&self) -> OwnedNodeView {
        match self {
            OwnedNode::Bucket { id } => OwnedNodeView::Bucket { id: *id },
            OwnedNode::Proof { id } => OwnedNodeView::Proof { id: *id },
            OwnedNode::Vault { id } => OwnedNodeView::Vault { id: id@ },
            OwnedNode::Object { id } => OwnedNodeView::Object { id: id@ },
            OwnedNode::KeyValueStore { id } => OwnedNodeView::KeyValueStore { id: id@ },
        }
    }
}

/// The mathematical model of a [`Value`]: the same tree with sequences in
/// place of vectors and character sequences in place of strings.
pub enum ValueView {
    Bool { value: bool },
    U8 { value: u8 },
    U16 { value: u16 },
    U32 { value: u32 },
    U64 { value: u64 },
    U128 { value: u128 },
    I8 { value: i8 },
    I16 { value: i16 },
    I32 { value: i32 },
    I64 { value: i64 },
    I128 { value: i128 },
    String { value: Seq<char> },
    Enum { variant: DiscriminatorView, fields: Option<Seq<ValueView>> },
    OptionSome { value: Box<ValueView> },
    OptionNone,
    ResultOk { value: Box<ValueView> },
    ResultErr { value: Box<ValueView> },
    Array { element_kind: ValueKind, elements: Seq<ValueView> },
    MapValue {
        key_value_kind: ValueKind,
        value_value_kind: ValueKind,
        entries: Seq<(ValueView, ValueView)>,
    },
    Tuple { elements: Seq<ValueView> },
    Decimal { value: Seq<char> },
    PreciseDecimal { value: Seq<char> },
    Own { value: OwnedNodeView },
    ComponentAddress { address: AddressView },
    ResourceAddress { address: AddressView },
    PackageAddress { address: AddressView },
    Hash { value: Seq<u8> },
    EcdsaSecp256k1PublicKey { public_key: Seq<u8> },
    EcdsaSecp256k1Signature { signature: Seq<u8> },
    EddsaEd25519PublicKey { public_key: Seq<u8> },
    EddsaEd25519Signature { signature: Seq<u8> },
    Bucket { identifier: TransientIdentifierView },
    Proof { identifier: TransientIdentifierView },
    NonFungibleLocalId { value: NonFungibleLocalIdView },
    NonFungibleGlobalId { address: NonFungibleGlobalIdView },
    Expression { value: ManifestExpression },
    Blob { hash: Seq<u8> },
    Bytes { value: Seq<u8> },
}

/// The model of a value.
pub open spec fn value_view(v: Value) -> ValueView
    decreases v,
{
    match v {
        Value::Bool { value } => ValueView::Bool { value },
        Value::U8 { value } => ValueView::U8 { value },
        Value::U16 { value } => ValueView::U16 { value },
        Value::U32 { value } => ValueView::U32 { value },
        Value::U64 { value } => ValueView::U64 { value },
        Value::U128 { value } => ValueView::U128 { value },
        Value::I8 { value } => ValueView::I8 { value },
        Value::I16 { value } => ValueView::I16 { value },
        Value::I32 { value } => ValueView::I32 { value },
        Value::I64 { value } => ValueView::I64 { value },
        Value::I128 { value } => ValueView::I128 { value },
        Value::String { value } => ValueView::String { value: value@ },
        Value::Enum { variant, fields } => ValueView::Enum {
            variant: variant@,
            fields: match fields {
                Some(fs) => Some(views_of(fs@)),
                None => None,
            },
        },
        Value::OptionSome { value } => ValueView::OptionSome {
            value: Box::new(value_view(*value)),
        },
        Value::OptionNone => ValueView::OptionNone,
        Value::ResultOk { value } => ValueView::ResultOk { value: Box::new(value_view(*value)) },
        Value::ResultErr { value } => ValueView::ResultErr { value: Box::new(value_view(*value)) },
        Value::Array { element_kind, elements } => ValueView::Array {
            element_kind,
            elements: views_of(elements@),
        },
        Value::MapValue { key_value_kind, value_value_kind, entries } => ValueView::MapValue {
            key_value_kind,
            value_value_kind,
            entries: entry_views_of(entries@),
        },
        Value::Tuple { elements } => ValueView::Tuple { elements: views_of(elements@) },
        Value::Decimal { value } => ValueView::Decimal { value: value@ },
        Value::PreciseDecimal { value } => ValueView::PreciseDecimal { value: value@ },
        Value::Own { value } => ValueView::Own { value: value@ },
        Value::ComponentAddress { address } => ValueView::ComponentAddress { address: address@ },
        Value::ResourceAddress { address } => ValueView::ResourceAddress { address: address@ },
        Value::PackageAddress { address } => ValueView::PackageAddress { address: address@ },
        Value::Hash { value } => ValueView::Hash { value: value@ },
        Value::EcdsaSecp256k1PublicKey { public_key } => ValueView::EcdsaSecp256k1PublicKey {
            public_key: public_key@,
        },
        Value::EcdsaSecp256k1Signature { signature } => ValueView::EcdsaSecp256k1Signature {
            signature: signature@,
        },
        Value::EddsaEd25519PublicKey { public_key } => ValueView::EddsaEd25519PublicKey {
            public_key: public_key@,
        },
        Value::EddsaEd25519Signature { signature } => ValueView::EddsaEd25519Signature {
            signature: signature@,
        },
        Value::Bucket { identifier } => ValueView::Bucket { identifier: identifier@ },
        Value::Proof { identifier } => ValueView::Proof { identifier: identifier@ },
        Value::NonFungibleLocalId { value } => ValueView::NonFungibleLocalId { value: value@ },
        Value::NonFungibleGlobalId { address } => ValueView::NonFungibleGlobalId {
            address: address@,
        },
        Value::Expression { value } => ValueView::Expression { value },
        Value::Blob { hash } => ValueView::Blob { hash: hash@ },
        Value::Bytes { value } => ValueView::Bytes { value: value@ },
    }
}

/// The models of a vector of values, in order.
pub open spec fn views_of(s: Seq<Value>) -> Seq<ValueView>
    decreases s,
{
    if s.len() == 0 {
        Seq::empty()
    } else {
        views_of(s.drop_last()).push(value_view(s.last()))
    }
}

/// The models of a vector of key-value entries, in order.
pub open spec fn entry_views_of(s: Seq<(Value, Value)>) -> Seq<(ValueView, ValueView)>
    decreases s,
{
    if s.len() == 0 {
        Seq::empty()
    } else {
        entry_views_of(s.drop_last()).push(
            (value_view(s.last().0), value_view(s.last().1)),
        )
    }
}

impl View for Value {
    type V = ValueView;

    open spec fn view(&self) -> ValueView {
        value_view(*self)
    }
}

/// `views_of` maps the sequence elementwise.
pub proof fn lemma_views_of(s: Seq<Value>)
    ensures
        views_of(s).len() == s.len(),
        forall|i: int| 0 <= i < s.len() ==> #[trigger] views_of(s)[i] == value_view(s[i]),
    decreases s,
{
    if s.len() > 0 {
        lemma_views_of(s.drop_last());
    }
}

/// `entry_views_of` maps the sequence elementwise.
pub proof fn lemma_entry_views_of(s: Seq<(Value, Value)>)
    ensures
        entry_views_of(s).len() == s.len(),
        forall|i: int| 0 <= i < s.len() ==> #[trigger] entry_views_of(s)[i] == (
            value_view(s[i].0),
            value_view(s[i].1),
        ),
    decreases s,
{
    if s.len() > 0 {
        lemma_entry_views_of(s.drop_last());
    }
}

/// A discriminator resolves through its model to the same wire index.
pub proof fn lemma_resolve_view(d: EnumDiscriminator)
    ensures
        resolve_view(d@) == d.spec_resolve(),
{
}

/// The kind of a value model, mirroring [`spec_kind`].
pub open spec fn view_kind(v: ValueView) -> ValueKind {
    match v {
        ValueView::Bool { .. } => ValueKind::Bool,
        ValueView::U8 { .. } => ValueKind::U8,
        ValueView::U16 { .. } => ValueKind::U16,
        ValueView::U32 { .. } => ValueKind::U32,
        ValueView::U64 { .. } => ValueKind::U64,
        ValueView::U128 { .. } => ValueKind::U128,
        ValueView::I8 { .. } => ValueKind::I8,
        ValueView::I16 { .. } => ValueKind::I16,
        ValueView::I32 { .. } => ValueKind::I32,
        ValueView::I64 { .. } => ValueKind::I64,
        ValueView::I128 { .. } => ValueKind::I128,
        ValueView::String { .. } => ValueKind::String,
        ValueView::Enum { .. } => ValueKind::Enum,
        ValueView::OptionSome { .. } => ValueKind::OptionSome,
        ValueView::OptionNone => ValueKind::OptionNone,
        ValueView::ResultOk { .. } => ValueKind::ResultOk,
        ValueView::ResultErr { .. } => ValueKind::ResultErr,
        ValueView::Array { .. } => ValueKind::Array,
        ValueView::MapValue { .. } => ValueKind::MapValue,
        ValueView::Tuple { .. } => ValueKind::Tuple,
        ValueView::Decimal { .. } => ValueKind::Decimal,
        ValueView::PreciseDecimal { .. } => ValueKind::PreciseDecimal,
        ValueView::Own { .. } => ValueKind::Own,
        ValueView::ComponentAddress { .. } => ValueKind::ComponentAddress,
        ValueView::ResourceAddress { .. } => ValueKind::ResourceAddress,
        ValueView::PackageAddress { .. } => ValueKind::PackageAddress,
        ValueView::Hash { .. } => ValueKind::Hash,
        ValueView::EcdsaSecp256k1PublicKey { .. } => ValueKind::EcdsaSecp256k1PublicKey,
        ValueView::EcdsaSecp256k1Signature { .. } => ValueKind::EcdsaSecp256k1Signature,
        ValueView::EddsaEd25519PublicKey { .. } => ValueKind::EddsaEd25519PublicKey,
        ValueView::EddsaEd25519Signature { .. } => ValueKind::EddsaEd25519Signature,
        ValueView::Bucket { .. } => ValueKind::Bucket,
        ValueView::Proof { .. } => ValueKind::Proof,
        ValueView::NonFungibleLocalId { .. } => ValueKind::NonFungibleLocalId,
        ValueView::NonFungibleGlobalId { .. } => ValueKind::NonFungibleGlobalId,
        ValueView::Expression { .. } => ValueKind::Expression,
        ValueView::Blob { .. } => ValueKind::Blob,
        ValueView::Bytes { .. } => ValueKind::Bytes,
    }
}

/// A value and its model have the same kind.
pub proof fn lemma_view_kind(v: Value)
    ensures
        view_kind(value_view(v)) == spec_kind(v),
{
}

/// Every element of the sequence has the declared kind.
pub open spec fn homogeneous_elements(element_kind: ValueKind, elements: Seq<Value>) -> bool {
    forall|i: int| 0 <= i < elements.len() ==> spec_kind(elements[i]) == element_kind
}

/// Every key and every value of the entry sequence has its declared kind.
pub open spec fn homogeneous_entries(
    key_kind: ValueKind,
    value_kind: ValueKind,
    entries: Seq<(Value, Value)>,
) -> bool {
    forall|i: int| 0 <= i < entries.len()
        ==> spec_kind(#[trigger] entries[i].0) == key_kind && spec_kind(entries[i].1) == value_kind
}

/// Constructs an array value, rejecting any element whose kind differs from
/// the declared element kind.
pub fn array(element_kind: ValueKind, elements: Vec<Value>) -> (r: Result<Value, Error>)
    ensures
        homogeneous_elements(element_kind, elements@) ==> r == Ok::<Value, Error>(
            Value::Array { element_kind, elements },
        ),
        !homogeneous_elements(element_kind, elements@) ==> (r matches Err(e) && (e matches
            Error::HeterogeneousContainer { expected, found } && expected == element_kind
            && (exists|i: int|
            0 <= i < elements@.len() && spec_kind(elements@[i]) == found && found != element_kind))),
{
    let n: usize = elements.len();
    let mut i: usize = 0;
    while i < n
        invariant
            n == elements@.len(),
            0 <= i <= n,
            forall|j: int| 0 <= j < i ==> spec_kind(elements@[j]) == element_kind,
        decreases n - i,
    {
        let k = elements[i].kind();
        if k != element_kind {
            return Err(Error::HeterogeneousContainer { expected: element_kind, found: k });
        }
        i = i + 1;
    }
    Ok(Value::Array { element_kind, elements })
}

/// Constructs a map value, rejecting any key or value whose kind differs
/// from the declared key or value kind.
pub fn map_value(
    key_value_kind: ValueKind,
    value_value_kind: ValueKind,
    entries: Vec<(Value, Value)>,
) -> (r: Result<Value, Error>)
    ensures
        homogeneous_entries(key_value_kind, value_value_kind, entries@) ==> r == Ok::<Value, Error>(
            Value::MapValue { key_value_kind, value_value_kind, entries },
        ),
        !homogeneous_entries(key_value_kind, value_value_kind, entries@) ==> (r matches Err(e)
            && e matches Error::HeterogeneousContainer { .. }),
{
    let n: usize = entries.len();
    let mut i: usize = 0;
    while i < n
        invariant
            n == entries@.len(),
            0 <= i <= n,
            forall|j: int| 0 <= j < i ==> spec_kind(#[trigger] entries@[j].0) == key_value_kind
                && spec_kind(entries@[j].1) == value_value_kind,
        decreases n - i,
    {
        let k = entries[i].0.kind();
        if k != key_value_kind {
            return Err(Error::HeterogeneousContainer { expected: key_value_kind, found: k });
        }
        let k = entries[i].1.kind();
        if k != value_value_kind {
            return Err(Error::HeterogeneousContainer { expected: value_value_kind, found: k });
        }
        i = i + 1;
    }
    Ok(Value::MapValue { key_value_kind, value_value_kind, entries })
}

} // verus!
