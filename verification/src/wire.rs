//! The structured wire form of values.
//!
//! A [`WireValue`] is the library's model of the tagged payload that the
//! external binary codec serializes byte-for-byte. It differs from [`Value`]
//! in exactly the ways the wire format does: the option and result sugar
//! kinds collapse to a generic enum with a well-known discriminator index,
//! byte blobs become arrays of bytes, non-fungible global ids become tuples,
//! and addresses carry no network id.

use vstd::prelude::*;

use crate::error::{Error, ErrorView};
use crate::value::{
    DiscriminatorView, EnumDiscriminator, ManifestExpression, NonFungibleLocalId,
    NonFungibleLocalIdView, OwnedNode, OwnedNodeView, TransientIdentifier,
    TransientIdentifierView, Value, ValueKind, ValueView, AddressView, resolve_view, view_kind,
    OPTION_SOME_DISCRIMINATOR, OPTION_NONE_DISCRIMINATOR, RESULT_OK_DISCRIMINATOR,
    RESULT_ERR_DISCRIMINATOR,
};

verus! {

/// The discriminant of every [`WireValue`] variant.
#[derive(Debug, Clone, Copy, PartialEq, Eq, Structural)]
pub enum WireValueKind {
    Bool,
    U8,
    U16,
    U32,
    U64,
    U128,
    I8,
    I16,
    I32,
    I64,
    I128,
    String,
    Enum,
    Array,
    Tuple,
    MapValue,
    Decimal,
    PreciseDecimal,
    Own,
    ComponentAddress,
    ResourceAddress,
    PackageAddress,
    Hash,
    EcdsaSecp256k1PublicKey,
    EcdsaSecp256k1Signature,
    EddsaEd25519PublicKey,
    EddsaEd25519Signature,
    Bucket,
    Proof,
    NonFungibleLocalId,
    Expression,
    Blob,
}

/// The structured wire form of a value.
#[derive(Debug, PartialEq, Eq)]
pub enum WireValue {
    Bool { value: bool },
    U8 { value: u8 },
    U16 { value: u16 },
    U32 { value: u32 },
    U64 { value: u64 },
    U128 { value: u128 },
    I8 { value: i8 },
    I16 { value: i16 },
    I32 { value: i32 },
    I64 { value: i64 },
    I128 { value: i128 },
    String { value: String },
    Enum { discriminator: u8, fields: Vec<WireValue> },
    Array { element_value_kind: WireValueKind, elements: Vec<WireValue> },
    Tuple { fields: Vec<WireValue> },
    MapValue {
        key_value_kind: WireValueKind,
        value_value_kind: WireValueKind,
        entries: Vec<(WireValue, WireValue)>,
    },
    Decimal { value: String },
    PreciseDecimal { value: String },
    Own { value: OwnedNode },
    ComponentAddress { address: Vec<u8> },
    ResourceAddress { address: Vec<u8> },
    PackageAddress { address: Vec<u8> },
    Hash { value: Vec<u8> },
    EcdsaSecp256k1PublicKey { public_key: Vec<u8> },
    EcdsaSecp256k1Signature { signature: Vec<u8> },
    EddsaEd25519PublicKey { public_key: Vec<u8> },
    EddsaEd25519Signature { signature: Vec<u8> },
    Bucket { identifier: u32 },
    Proof { identifier: u32 },
    NonFungibleLocalId { value: NonFungibleLocalId },
    Expression { value: ManifestExpression },
    Blob { hash: Vec<u8> },
}

/// The mathematical model of a [`WireValue`].
pub enum WireValueView {
    Bool { value: bool },
    U8 { value: u8 },
    U16 { value: u16 },
    U32 { value: u32 },
    U64 { value: u64 },
    U128 { value: u128 },
    I8 { value: i8 },
    I16 { value: i16 },
    I32 { value: i32 },
    I64 { value: i64 },
    I128 { value: i128 },
    String { value: Seq<char> },
    Enum { discriminator: u8, fields: Seq<WireValueView> },
    Array { element_value_kind: WireValueKind, elements: Seq<WireValueView> },
    Tuple { fields: Seq<WireValueView> },
    MapValue {
        key_value_kind: WireValueKind,
        value_value_kind: WireValueKind,
        entries: Seq<(WireValueView, WireValueView)>,
    },
    Decimal { value: Seq<char> },
    PreciseDecimal { value: Seq<char> },
    Own { value: OwnedNodeView },
    ComponentAddress { address: Seq<u8> },
    ResourceAddress { address: Seq<u8> },
    PackageAddress { address: Seq<u8> },
    Hash { value: Seq<u8> },
    EcdsaSecp256k1PublicKey { public_key: Seq<u8> },
    EcdsaSecp256k1Signature { signature: Seq<u8> },
    EddsaEd25519PublicKey { public_key: Seq<u8> },
    EddsaEd25519Signature { signature: Seq<u8> },
    Bucket { identifier: u32 },
    Proof { identifier: u32 },
    NonFungibleLocalId { value: NonFungibleLocalIdView },
    Expression { value: ManifestExpression },
    Blob { hash: Seq<u8> },
}

/// The model of a wire value.
pub open spec fn wire_view(w: WireValue) -> WireValueView
    decreases w,
{
    match w {
        WireValue::Bool { value } => WireValueView::Bool { value },
        WireValue::U8 { value } => WireValueView::U8 { value },
        WireValue::U16 { value } => WireValueView::U16 { value },
        WireValue::U32 { value } => WireValueView::U32 { value },
        WireValue::U64 { value } => WireValueView::U64 { value },
        WireValue::U128 { value } => WireValueView::U128 { value },
        WireValue::I8 { value } => WireValueView::I8 { value },
        WireValue::I16 { value } => WireValueView::I16 { value },
        WireValue::I32 { value } => WireValueView::I32 { value },
        WireValue::I64 { value } => WireValueView::I64 { value },
        WireValue::I128 { value } => WireValueView::I128 { value },
        WireValue::String { value } => WireValueView::String { value: value@ },
        WireValue::Enum { discriminator, fields } => WireValueView::Enum {
            discriminator,
            fields: wire_views_of(fields@),
        },
        WireValue::Array { element_value_kind, elements } => WireValueView::Array {
            element_value_kind,
            elements: wire_views_of(elements@),
        },
        WireValue::Tuple { fields } => WireValueView::Tuple { fields: wire_views_of(fields@) },
        WireValue::MapValue { key_value_kind, value_value_kind, entries } => {
            WireValueView::MapValue {
                key_value_kind,
                value_value_kind,
                entries: wire_entry_views_of(entries@),
            }
        },
        WireValue::Decimal { value } => WireValueView::Decimal { value: value@ },
        WireValue::PreciseDecimal { value } => WireValueView::PreciseDecimal { value: value@ },
        WireValue::Own { value } => WireValueView::Own { value: value@ },
        WireValue::ComponentAddress { address } => WireValueView::ComponentAddress {
            address: address@,
        },
        WireValue::ResourceAddress { address } => WireValueView::ResourceAddress {
            address: address@,
        },
        WireValue::PackageAddress { address } => WireValueView::PackageAddress {
            address: address@,
        },
        WireValue::Hash { value } => WireValueView::Hash { value: value@ },
        WireValue::EcdsaSecp256k1PublicKey { public_key } => {
            WireValueView::EcdsaSecp256k1PublicKey { public_key: public_key@ }
        },
        WireValue::EcdsaSecp256k1Signature { signature } => {
            WireValueView::EcdsaSecp256k1Signature { signature: signature@ }
        },
        WireValue::EddsaEd25519PublicKey { public_key } => WireValueView::EddsaEd25519PublicKey {
            public_key: public_key@,
        },
        WireValue::EddsaEd25519Signature { signature } => WireValueView::EddsaEd25519Signature {
            signature: signature@,
        },
        WireValue::Bucket { identifier } => WireValueView::Bucket { identifier },
        WireValue::Proof { identifier } => WireValueView::Proof { identifier },
        WireValue::NonFungibleLocalId { value } => WireValueView::NonFungibleLocalId {
            value: value@,
        },
        WireValue::Expression { value } => WireValueView::Expression { value },
        WireValue::Blob { hash } => WireValueView::Blob { hash: hash@ },
    }
}

/// The models of a vector of wire values, in order.
pub open spec fn wire_views_of(s: Seq<WireValue>) -> Seq<WireValueView>
    decreases s,
{
    if s.len() == 0 {
        Seq::empty()
    } else {
        wire_views_of(s.drop_last()).push(wire_view(s.last()))
    }
}

/// The models of a vector of wire entries, in order.
pub open spec fn wire_entry_views_of(s: Seq<(WireValue, WireValue)>) -> Seq<
    (WireValueView, WireValueView),
>
    decreases s,
{
    if s.len() == 0 {
        Seq::empty()
    } else {
        wire_entry_views_of(s.drop_last()).push(
            (wire_view(s.last().0), wire_view(s.last().1)),
        )
    }
}

impl View for WireValue {
    type V = WireValueView;

    open spec fn view(&self) -> WireValueView {
        wire_view(*self)
    }
}

/// `wire_views_of` maps the sequence elementwise.
pub proof fn lemma_wire_views_of(s: Seq<WireValue>)
    ensures
        wire_views_of(s).len() == s.len(),
        forall|i: int| 0 <= i < s.len() ==> #[trigger] wire_views_of(s)[i] == wire_view(s[i]),
    decreases s,
{
    if s.len() > 0 {
        lemma_wire_views_of(s.drop_last());
    }
}

/// `wire_entry_views_of` maps the sequence elementwise.
pub proof fn lemma_wire_entry_views_of(s: Seq<(WireValue, WireValue)>)
    ensures
        wire_entry_views_of(s).len() == s.len(),
        forall|i: int| 0 <= i < s.len() ==> #[trigger] wire_entry_views_of(s)[i] == (
            wire_view(s[i].0),
            wire_view(s[i].1),
        ),
    decreases s,
{
    if s.len() > 0 {
        lemma_wire_entry_views_of(s.drop_last());
    }
}

/// The wire kind each value kind serializes under. This is the deliberate
/// surjection of the model onto the wire: the four option and result kinds
/// collapse to `Enum`, byte blobs to `Array`, and non-fungible global ids to
/// `Tuple`.
pub open spec fn kind_to_wire_spec(k: ValueKind) -> WireValueKind {
    match k {
        ValueKind::Bool => WireValueKind::Bool,
        ValueKind::U8 => WireValueKind::U8,
        ValueKind::U16 => WireValueKind::U16,
        ValueKind::U32 => WireValueKind::U32,
        ValueKind::U64 => WireValueKind::U64,
        ValueKind::U128 => WireValueKind::U128,
        ValueKind::I8 => WireValueKind::I8,
        ValueKind::I16 => WireValueKind::I16,
        ValueKind::I32 => WireValueKind::I32,
        ValueKind::I64 => WireValueKind::I64,
        ValueKind::I128 => WireValueKind::I128,
        ValueKind::String => WireValueKind::String,
        ValueKind::Enum => WireValueKind::Enum,
        ValueKind::OptionSome => WireValueKind::Enum,
        ValueKind::OptionNone => WireValueKind::Enum,
        ValueKind::ResultOk => WireValueKind::Enum,
        ValueKind::ResultErr => WireValueKind::Enum,
        ValueKind::MapValue => WireValueKind::MapValue,
        ValueKind::Array => WireValueKind::Array,
        ValueKind::Bytes => WireValueKind::Array,
        ValueKind::Tuple => WireValueKind::Tuple,
        ValueKind::NonFungibleGlobalId => WireValueKind::Tuple,
        ValueKind::Decimal => WireValueKind::Decimal,
        ValueKind::PreciseDecimal => WireValueKind::PreciseDecimal,
        ValueKind::Own => WireValueKind::Own,
        ValueKind::ComponentAddress => WireValueKind::ComponentAddress,
        ValueKind::ResourceAddress => WireValueKind::ResourceAddress,
        ValueKind::PackageAddress => WireValueKind::PackageAddress,
        ValueKind::Hash => WireValueKind::Hash,
        ValueKind::EcdsaSecp256k1PublicKey => WireValueKind::EcdsaSecp256k1PublicKey,
        ValueKind::EcdsaSecp256k1Signature => WireValueKind::EcdsaSecp256k1Signature,
        ValueKind::EddsaEd25519PublicKey => WireValueKind::EddsaEd25519PublicKey,
        ValueKind::EddsaEd25519Signature => WireValueKind::EddsaEd25519Signature,
        ValueKind::Bucket => WireValueKind::Bucket,
        ValueKind::Proof => WireValueKind::Proof,
        ValueKind::NonFungibleLocalId => WireValueKind::NonFungibleLocalId,
        ValueKind::Expression => WireValueKind::Expression,
        ValueKind::Blob => WireValueKind::Blob,
    }
}

/// The value kind a wire kind decodes to. Decoding never produces the
/// option, result, byte-blob or global-id sugar kinds: those are only
/// recoverable by inspecting discriminators, not the wire kind alone.
pub open spec fn kind_from_wire_spec(k: WireValueKind) -> ValueKind {
    match k {
        WireValueKind::Bool => ValueKind::Bool,
        WireValueKind::U8 => ValueKind::U8,
        WireValueKind::U16 => ValueKind::U16,
        WireValueKind::U32 => ValueKind::U32,
        WireValueKind::U64 => ValueKind::U64,
        WireValueKind::U128 => ValueKind::U128,
        WireValueKind::I8 => ValueKind::I8,
        WireValueKind::I16 => ValueKind::I16,
        WireValueKind::I32 => ValueKind::I32,
        WireValueKind::I64 => ValueKind::I64,
        WireValueKind::I128 => ValueKind::I128,
        WireValueKind::String => ValueKind::String,
        WireValueKind::Enum => ValueKind::Enum,
        WireValueKind::Array => ValueKind::Array,
        WireValueKind::Tuple => ValueKind::Tuple,
        WireValueKind::MapValue => ValueKind::MapValue,
        WireValueKind::Decimal => ValueKind::Decimal,
        WireValueKind::PreciseDecimal => ValueKind::PreciseDecimal,
        WireValueKind::Own => ValueKind::Own,
        WireValueKind::ComponentAddress => ValueKind::ComponentAddress,
        WireValueKind::ResourceAddress => ValueKind::ResourceAddress,
        WireValueKind::PackageAddress => ValueKind::PackageAddress,
        WireValueKind::Hash => ValueKind::Hash,
        WireValueKind::EcdsaSecp256k1PublicKey => ValueKind::EcdsaSecp256k1PublicKey,
        WireValueKind::EcdsaSecp256k1Signature => ValueKind::EcdsaSecp256k1Signature,
        WireValueKind::EddsaEd25519PublicKey => ValueKind::EddsaEd25519PublicKey,
        WireValueKind::EddsaEd25519Signature => ValueKind::EddsaEd25519Signature,
        WireValueKind::Bucket => ValueKind::Bucket,
        WireValueKind::Proof => ValueKind::Proof,
        WireValueKind::NonFungibleLocalId => ValueKind::NonFungibleLocalId,
        WireValueKind::Expression => ValueKind::Expression,
        WireValueKind::Blob => ValueKind::Blob,
    }
}

/// Converts a value kind to the wire kind it serializes under.
pub fn kind_to_wire(k: ValueKind) -> (r: WireValueKind)
    ensures
        r == kind_to_wire_spec(k),
{
    match k {
        ValueKind::Bool => WireValueKind::Bool,
        ValueKind::U8 => WireValueKind::U8,
        ValueKind::U16 => WireValueKind::U16,
        ValueKind::U32 => WireValueKind::U32,
        ValueKind::U64 => WireValueKind::U64,
        ValueKind::U128 => WireValueKind::U128,
        ValueKind::I8 => WireValueKind::I8,
        ValueKind::I16 => WireValueKind::I16,
        ValueKind::I32 => WireValueKind::I32,
        ValueKind::I64 => WireValueKind::I64,
        ValueKind::I128 => WireValueKind::I128,
        ValueKind::String => WireValueKind::String,
        ValueKind::Enum => WireValueKind::Enum,
        ValueKind::OptionSome => WireValueKind::Enum,
        ValueKind::OptionNone => WireValueKind::Enum,
        ValueKind::ResultOk => WireValueKind::Enum,
        ValueKind::ResultErr => WireValueKind::Enum,
        ValueKind::MapValue => WireValueKind::MapValue,
        ValueKind::Array => WireValueKind::Array,
        ValueKind::Bytes => WireValueKind::Array,
        ValueKind::Tuple => WireValueKind::Tuple,
        ValueKind::NonFungibleGlobalId => WireValueKind::Tuple,
        ValueKind::Decimal => WireValueKind::Decimal,
        ValueKind::PreciseDecimal => WireValueKind::PreciseDecimal,
        ValueKind::Own => WireValueKind::Own,
        ValueKind::ComponentAddress => WireValueKind::ComponentAddress,
        ValueKind::ResourceAddress => WireValueKind::ResourceAddress,
        ValueKind::PackageAddress => WireValueKind::PackageAddress,
        ValueKind::Hash => WireValueKind::Hash,
        ValueKind::EcdsaSecp256k1PublicKey => WireValueKind::EcdsaSecp256k1PublicKey,
        ValueKind::EcdsaSecp256k1Signature => WireValueKind::EcdsaSecp256k1Signature,
        ValueKind::EddsaEd25519PublicKey => WireValueKind::EddsaEd25519PublicKey,
        ValueKind::EddsaEd25519Signature => WireValueKind::EddsaEd25519Signature,
        ValueKind::Bucket => WireValueKind::Bucket,
        ValueKind::Proof => WireValueKind::Proof,
        ValueKind::NonFungibleLocalId => WireValueKind::NonFungibleLocalId,
        ValueKind::Expression => WireValueKind::Expression,
        ValueKind::Blob => WireValueKind::Blob,
    }
}

/// Converts a wire kind to the value kind it decodes to.
pub fn kind_from_wire(k: WireValueKind) -> (r: ValueKind)
    ensures
        r == kind_from_wire_spec(k),
{
    match k {
        WireValueKind::Bool => ValueKind::Bool,
        WireValueKind::U8 => ValueKind::U8,
        WireValueKind::U16 => ValueKind::U16,
        WireValueKind::U32 => ValueKind::U32,
        WireValueKind::U64 => ValueKind::U64,
        WireValueKind::U128 => ValueKind::U128,
        WireValueKind::I8 => ValueKind::I8,
        WireValueKind::I16 => ValueKind::I16,
        WireValueKind::I32 => ValueKind::I32,
        WireValueKind::I64 => ValueKind::I64,
        WireValueKind::I128 => ValueKind::I128,
        WireValueKind::String => ValueKind::String,
        WireValueKind::Enum => ValueKind::Enum,
        WireValueKind::Array => ValueKind::Array,
        WireValueKind::Tuple => ValueKind::Tuple,
        WireValueKind::MapValue => ValueKind::MapValue,
        WireValueKind::Decimal => ValueKind::Decimal,
        WireValueKind::PreciseDecimal => ValueKind::PreciseDecimal,
        WireValueKind::Own => ValueKind::Own,
        WireValueKind::ComponentAddress => ValueKind::ComponentAddress,
        WireValueKind::ResourceAddress => ValueKind::ResourceAddress,
        WireValueKind::PackageAddress => ValueKind::PackageAddress,
        WireValueKind::Hash => ValueKind::Hash,
        WireValueKind::EcdsaSecp256k1PublicKey => ValueKind::EcdsaSecp256k1PublicKey,
        WireValueKind::EcdsaSecp256k1Signature => ValueKind::EcdsaSecp256k1Signature,
        WireValueKind::EddsaEd25519PublicKey => ValueKind::EddsaEd25519PublicKey,
        WireValueKind::EddsaEd25519Signature => ValueKind::EddsaEd25519Signature,
        WireValueKind::Bucket => ValueKind::Bucket,
        WireValueKind::Proof => ValueKind::Proof,
        WireValueKind::NonFungibleLocalId => ValueKind::NonFungibleLocalId,
        WireValueKind::Expression => ValueKind::Expression,
        WireValueKind::Blob => ValueKind::Blob,
    }
}

/// A value kind that survives the trip onto the wire and back unchanged.
pub open spec fn kind_wire_faithful(k: ValueKind) -> bool {
    kind_from_wire_spec(kind_to_wire_spec(k)) == k
}

/// Every wire kind is hit by the kind surjection, and decoding a wire kind
/// then re-encoding it is the identity: the collapse loses only the sugar
/// kinds, never a wire kind.
pub proof fn lemma_kind_surjection(wk: WireValueKind)
    ensures
        kind_to_wire_spec(kind_from_wire_spec(wk)) == wk,
        kind_wire_faithful(kind_from_wire_spec(wk)),
{
}

/// What converting a value model to its wire model yields: the wire model,
/// or the first error in conversion order.
pub open spec fn to_wire_view(v: ValueView) -> Result<WireValueView, ErrorView>
    decreases v,
{
    match v {
        ValueView::Bool { value } => Ok(WireValueView::Bool { value }),
        ValueView::U8 { value } => Ok(WireValueView::U8 { value }),
        ValueView::U16 { value } => Ok(WireValueView::U16 { value }),
        ValueView::U32 { value } => Ok(WireValueView::U32 { value }),
        ValueView::U64 { value } => Ok(WireValueView::U64 { value }),
        ValueView::U128 { value } => Ok(WireValueView::U128 { value }),
        ValueView::I8 { value } => Ok(WireValueView::I8 { value }),
        ValueView::I16 { value } => Ok(WireValueView::I16 { value }),
        ValueView::I32 { value } => Ok(WireValueView::I32 { value }),
        ValueView::I64 { value } => Ok(WireValueView::I64 { value }),
        ValueView::I128 { value } => Ok(WireValueView::I128 { value }),
        ValueView::String { value } => Ok(WireValueView::String { value }),
        ValueView::Enum { variant, fields } => match resolve_view(variant) {
            Some(d) => match fields {
                Some(fs) => match to_wire_seq_view(None, fs) {
                    Ok(ws) => Ok(WireValueView::Enum { discriminator: d, fields: ws }),
                    Err(e) => Err(e),
                },
                None => Ok(WireValueView::Enum { discriminator: d, fields: Seq::empty() }),
            },
            None => Err(
                ErrorView::InvalidEnumDiscriminator {
                    discriminator: match variant {
                        DiscriminatorView::String { discriminator } => discriminator,
                        DiscriminatorView::U8 { .. } => Seq::empty(),
                    },
                },
            ),
        },
        ValueView::OptionSome { value } => match to_wire_view(*value) {
            Ok(w) => Ok(
                WireValueView::Enum {
                    discriminator: OPTION_SOME_DISCRIMINATOR,
                    fields: seq![w],
                },
            ),
            Err(e) => Err(e),
        },
        ValueView::OptionNone => Ok(
            WireValueView::Enum { discriminator: OPTION_NONE_DISCRIMINATOR, fields: Seq::empty() },
        ),
        ValueView::ResultOk { value } => match to_wire_view(*value) {
            Ok(w) => Ok(
                WireValueView::Enum { discriminator: RESULT_OK_DISCRIMINATOR, fields: seq![w] },
            ),
            Err(e) => Err(e),
        },
        ValueView::ResultErr { value } => match to_wire_view(*value) {
            Ok(w) => Ok(
                WireValueView::Enum { discriminator: RESULT_ERR_DISCRIMINATOR, fields: seq![w] },
            ),
            Err(e) => Err(e),
        },
        ValueView::Array { element_kind, elements } => match to_wire_seq_view(
            Some(element_kind),
            elements,
        ) {
            Ok(ws) => Ok(
                WireValueView::Array {
                    element_value_kind: kind_to_wire_spec(element_kind),
                    elements: ws,
                },
            ),
            Err(e) => Err(e),
        },
        ValueView::MapValue { key_value_kind, value_value_kind, entries } => {
            match to_wire_entries_view(key_value_kind, value_value_kind, entries) {
                Ok(ws) => Ok(
                    WireValueView::MapValue {
                        key_value_kind: kind_to_wire_spec(key_value_kind),
                        value_value_kind: kind_to_wire_spec(value_value_kind),
                        entries: ws,
                    },
                ),
                Err(e) => Err(e),
            }
        },
        ValueView::Tuple { elements } => match to_wire_seq_view(None, elements) {
            Ok(ws) => Ok(WireValueView::Tuple { fields: ws }),
            Err(e) => Err(e),
        },
        ValueView::Decimal { value } => Ok(WireValueView::Decimal { value }),
        ValueView::PreciseDecimal { value } => Ok(WireValueView::PreciseDecimal { value }),
        ValueView::Own { value } => Ok(WireValueView::Own { value }),
        ValueView::ComponentAddress { address } => Ok(
            WireValueView::ComponentAddress { address: address.raw },
        ),
        ValueView::ResourceAddress { address } => Ok(
            WireValueView::ResourceAddress { address: address.raw },
        ),
        ValueView::PackageAddress { address } => Ok(
            WireValueView::PackageAddress { address: address.raw },
        ),
        ValueView::Hash { value } => Ok(WireValueView::Hash { value }),
        ValueView::EcdsaSecp256k1PublicKey { public_key } => Ok(
            WireValueView::EcdsaSecp256k1PublicKey { public_key },
        ),
        ValueView::EcdsaSecp256k1Signature { signature } => Ok(
            WireValueView::EcdsaSecp256k1Signature { signature },
        ),
        ValueView::EddsaEd25519PublicKey { public_key } => Ok(
            WireValueView::EddsaEd25519PublicKey { public_key },
        ),
        ValueView::EddsaEd25519Signature { signature } => Ok(
            WireValueView::EddsaEd25519Signature { signature },
        ),
        ValueView::Bucket { identifier } => match identifier {
            TransientIdentifierView::U32 { value } => Ok(WireValueView::Bucket {
                identifier: value,
            }),
            TransientIdentifierView::String { value } => Err(
                ErrorView::UnresolvedTransientIdentifier { identifier: value },
            ),
        },
        ValueView::Proof { identifier } => match identifier {
            TransientIdentifierView::U32 { value } => Ok(WireValueView::Proof {
                identifier: value,
            }),
            TransientIdentifierView::String { value } => Err(
                ErrorView::UnresolvedTransientIdentifier { identifier: value },
            ),
        },
        ValueView::NonFungibleLocalId { value } => Ok(
            WireValueView::NonFungibleLocalId { value },
        ),
        ValueView::NonFungibleGlobalId { address } => Ok(
            WireValueView::Tuple {
                fields: seq![
                    WireValueView::ResourceAddress { address: address.resource_address.raw },
                    WireValueView::NonFungibleLocalId { value: address.non_fungible_local_id },
                ],
            },
        ),
        ValueView::Expression { value } => Ok(WireValueView::Expression { value }),
        ValueView::Blob { hash } => Ok(WireValueView::Blob { hash }),
        ValueView::Bytes { value } => Ok(
            WireValueView::Array {
                element_value_kind: WireValueKind::U8,
                elements: value.map_values(|b: u8| WireValueView::U8 { value: b }),
            },
        ),
    }
}

/// Converts a sequence of value models in order, optionally holding each
/// element to a declared kind first; the first failure wins.
pub open spec fn to_wire_seq_view(check: Option<ValueKind>, s: Seq<ValueView>) -> Result<
    Seq<WireValueView>,
    ErrorView,
>
    decreases s,
{
    if s.len() == 0 {
        Ok(Seq::empty())
    } else {
        match to_wire_seq_view(check, s.drop_last()) {
            Err(e) => Err(e),
            Ok(ws) => {
                if check matches Some(k) && view_kind(s.last()) != k {
                    Err(
                        ErrorView::HeterogeneousContainer {
                            expected: check->Some_0,
                            found: view_kind(s.last()),
                        },
                    )
                } else {
                    match to_wire_view(s.last()) {
                        Err(e) => Err(e),
                        Ok(w) => Ok(ws.push(w)),
                    }
                }
            },
        }
    }
}

/// Converts a sequence of key-value entry models in order, holding keys and
/// values to the declared kinds; the first failure wins.
pub open spec fn to_wire_entries_view(
    key_kind: ValueKind,
    value_kind: ValueKind,
    s: Seq<(ValueView, ValueView)>,
) -> Result<Seq<(WireValueView, WireValueView)>, ErrorView>
    decreases s,
{
    if s.len() == 0 {
        Ok(Seq::empty())
    } else {
        match to_wire_entries_view(key_kind, value_kind, s.drop_last()) {
            Err(e) => Err(e),
            Ok(ws) => {
                if view_kind(s.last().0) != key_kind {
                    Err(
                        ErrorView::HeterogeneousContainer {
                            expected: key_kind,
                            found: view_kind(s.last().0),
                        },
                    )
                } else if view_kind(s.last().1) != value_kind {
                    Err(
                        ErrorView::HeterogeneousContainer {
                            expected: value_kind,
                            found: view_kind(s.last().1),
                        },
                    )
                } else {
                    match to_wire_view(s.last().0) {
                        Err(e) => Err(e),
                        Ok(wk) => match to_wire_view(s.last().1) {
                            Err(e) => Err(e),
                            Ok(wv) => Ok(ws.push((wk, wv))),
                        },
                    }
                }
            },
        }
    }
}

/// What decoding a wire model on network `n` yields. Decoding is total: it
/// reattaches `n` to every address and renders every enum generically; it
/// never resurrects the option, result, byte-blob or global-id sugar forms.
pub open spec fn from_wire_view(w: WireValueView, n: u8) -> ValueView
    decreases w,
{
    match w {
        WireValueView::Bool { value } => ValueView::Bool { value },
        WireValueView::U8 { value } => ValueView::U8 { value },
        WireValueView::U16 { value } => ValueView::U16 { value },
        WireValueView::U32 { value } => ValueView::U32 { value },
        WireValueView::U64 { value } => ValueView::U64 { value },
        WireValueView::U128 { value } => ValueView::U128 { value },
        WireValueView::I8 { value } => ValueView::I8 { value },
        WireValueView::I16 { value } => ValueView::I16 { value },
        WireValueView::I32 { value } => ValueView::I32 { value },
        WireValueView::I64 { value } => ValueView::I64 { value },
        WireValueView::I128 { value } => ValueView::I128 { value },
        WireValueView::String { value } => ValueView::String { value },
        WireValueView::Enum { discriminator, fields } => ValueView::Enum {
            variant: DiscriminatorView::U8 { discriminator },
            fields: if fields.len() == 0 {
                None
            } else {
                Some(from_wire_seq_view(fields, n))
            },
        },
        WireValueView::Array { element_value_kind, elements } => ValueView::Array {
            element_kind: kind_from_wire_spec(element_value_kind),
            elements: from_wire_seq_view(elements, n),
        },
        WireValueView::Tuple { fields } => ValueView::Tuple {
            elements: from_wire_seq_view(fields, n),
        },
        WireValueView::MapValue { key_value_kind, value_value_kind, entries } => {
            ValueView::MapValue {
                key_value_kind: kind_from_wire_spec(key_value_kind),
                value_value_kind: kind_from_wire_spec(value_value_kind),
                entries: from_wire_entries_view(entries, n),
            }
        },
        WireValueView::Decimal { value } => ValueView::Decimal { value },
        WireValueView::PreciseDecimal { value } => ValueView::PreciseDecimal { value },
        WireValueView::Own { value } => ValueView::Own { value },
        WireValueView::ComponentAddress { address } => ValueView::ComponentAddress {
            address: AddressView { network_id: n, raw: address },
        },
        WireValueView::ResourceAddress { address } => ValueView::ResourceAddress {
            address: AddressView { network_id: n, raw: address },
        },
        WireValueView::PackageAddress { address } => ValueView::PackageAddress {
            address: AddressView { network_id: n, raw: address },
        },
        WireValueView::Hash { value } => ValueView::Hash { value },
        WireValueView::EcdsaSecp256k1PublicKey { public_key } => {
            ValueView::EcdsaSecp256k1PublicKey { public_key }
        },
        WireValueView::EcdsaSecp256k1Signature { signature } => {
            ValueView::EcdsaSecp256k1Signature { signature }
        },
        WireValueView::EddsaEd25519PublicKey { public_key } => ValueView::EddsaEd25519PublicKey {
            public_key,
        },
        WireValueView::EddsaEd25519Signature { signature } => ValueView::EddsaEd25519Signature {
            signature,
        },
        WireValueView::Bucket { identifier } => ValueView::Bucket {
            identifier: TransientIdentifierView::U32 { value: identifier },
        },
        WireValueView::Proof { identifier } => ValueView::Proof {
            identifier: TransientIdentifierView::U32 { value: identifier },
        },
        WireValueView::NonFungibleLocalId { value } => ValueView::NonFungibleLocalId { value },
        WireValueView::Expression { value } => ValueView::Expression { value },
        WireValueView::Blob { hash } => ValueView::Blob { hash },
    }
}

/// Decodes a sequence of wire models in order.
pub open spec fn from_wire_seq_view(s: Seq<WireValueView>, n: u8) -> Seq<ValueView>
    decreases s,
{
    if s.len() == 0 {
        Seq::empty()
    } else {
        from_wire_seq_view(s.drop_last(), n).push(from_wire_view(s.last(), n))
    }
}

/// Decodes a sequence of wire entry models in order.
pub open spec fn from_wire_entries_view(s: Seq<(WireValueView, WireValueView)>, n: u8) -> Seq<
    (ValueView, ValueView),
>
    decreases s,
{
    if s.len() == 0 {
        Seq::empty()
    } else {
        from_wire_entries_view(s.drop_last(), n).push(
            (from_wire_view(s.last().0, n), from_wire_view(s.last().1, n)),
        )
    }
}

/// `from_wire_seq_view` maps the sequence elementwise.
pub proof fn lemma_from_wire_seq_view(s: Seq<WireValueView>, n: u8)
    ensures
        from_wire_seq_view(s, n).len() == s.len(),
        forall|i: int| 0 <= i < s.len() ==> #[trigger] from_wire_seq_view(s, n)[i]
            == from_wire_view(s[i], n),
    decreases s,
{
    if s.len() > 0 {
        lemma_from_wire_seq_view(s.drop_last(), n);
    }
}

/// `from_wire_entries_view` maps the sequence elementwise.
pub proof fn lemma_from_wire_entries_view(s: Seq<(WireValueView, WireValueView)>, n: u8)
    ensures
        from_wire_entries_view(s, n).len() == s.len(),
        forall|i: int| 0 <= i < s.len() ==> #[trigger] from_wire_entries_view(s, n)[i] == (
            from_wire_view(s[i].0, n),
            from_wire_view(s[i].1, n),
        ),
    decreases s,
{
    if s.len() > 0 {
        lemma_from_wire_entries_view(s.drop_last(), n);
    }
}

/// A value model that converts to the wire and decodes back to exactly
/// itself: no option, result, byte-blob or global-id sugar anywhere, no
/// string discriminators or named transient identifiers, containers
/// homogeneous with wire-faithful declared kinds, and enums with fields
/// present only when there is at least one.
pub open spec fn wire_faithful(v: ValueView) -> bool
    decreases v,
{
    match v {
        ValueView::Enum { variant, fields } => variant is U8 && match fields {
            Some(fs) => fs.len() > 0 && (forall|i: int|
                0 <= i < fs.len() ==> wire_faithful(#[trigger] fs[i])),
            None => true,
        },
        ValueView::OptionSome { .. } => false,
        ValueView::OptionNone => false,
        ValueView::ResultOk { .. } => false,
        ValueView::ResultErr { .. } => false,
        ValueView::Bytes { .. } => false,
        ValueView::NonFungibleGlobalId { .. } => false,
        ValueView::Bucket { identifier } => identifier is U32,
        ValueView::Proof { identifier } => identifier is U32,
        ValueView::Array { element_kind, elements } => kind_wire_faithful(element_kind)
            && (forall|i: int|
            0 <= i < elements.len() ==> view_kind(#[trigger] elements[i]) == element_kind
                && wire_faithful(elements[i])),
        ValueView::MapValue { key_value_kind, value_value_kind, entries } => kind_wire_faithful(
            key_value_kind,
        ) && kind_wire_faithful(value_value_kind) && (forall|i: int|
            0 <= i < entries.len() ==> view_kind(#[trigger] entries[i].0) == key_value_kind
                && view_kind(entries[i].1) == value_value_kind && wire_faithful(entries[i].0)
                && wire_faithful(entries[i].1)),
        ValueView::Tuple { elements } => forall|i: int|
            0 <= i < elements.len() ==> wire_faithful(#[trigger] elements[i]),
        _ => true,
    }
}

/// Every address payload in the value carries network id `n`. A value
/// without address payloads satisfies this for every `n`.
pub open spec fn addresses_on_network(v: ValueView, n: u8) -> bool
    decreases v,
{
    match v {
        ValueView::ComponentAddress { address } => address.network_id == n,
        ValueView::ResourceAddress { address } => address.network_id == n,
        ValueView::PackageAddress { address } => address.network_id == n,
        ValueView::NonFungibleGlobalId { address } => address.resource_address.network_id == n,
        ValueView::Enum { variant, fields } => match fields {
            Some(fs) => forall|i: int|
                0 <= i < fs.len() ==> addresses_on_network(#[trigger] fs[i], n),
            None => true,
        },
        ValueView::OptionSome { value } => addresses_on_network(*value, n),
        ValueView::ResultOk { value } => addresses_on_network(*value, n),
        ValueView::ResultErr { value } => addresses_on_network(*value, n),
        ValueView::Array { elements, .. } => forall|i: int|
            0 <= i < elements.len() ==> addresses_on_network(#[trigger] elements[i], n),
        ValueView::MapValue { entries, .. } => forall|i: int|
            0 <= i < entries.len() ==> addresses_on_network(#[trigger] entries[i].0, n)
                && addresses_on_network(entries[i].1, n),
        ValueView::Tuple { elements } => forall|i: int|
            0 <= i < elements.len() ==> addresses_on_network(#[trigger] elements[i], n),
        _ => true,
    }
}

/// Round trip: a wire-faithful value whose addresses all carry network `n`
/// converts to the wire without error, and decoding the result on network
/// `n` gives back exactly the value.
pub proof fn lemma_wire_round_trip(v: ValueView, n: u8)
    requires
        wire_faithful(v),
        addresses_on_network(v, n),
    ensures
        to_wire_view(v) is Ok,
        from_wire_view(to_wire_view(v)->Ok_0, n) == v,
    decreases v,
{
    match v {
        ValueView::Enum { variant, fields } => {
            match fields {
                Some(fs) => {
                    lemma_wire_round_trip_seq(None, fs, n);
                },
                None => {},
            }
        },
        ValueView::Array { element_kind, elements } => {
            lemma_wire_round_trip_seq(Some(element_kind), elements, n);
        },
        ValueView::MapValue { key_value_kind, value_value_kind, entries } => {
            lemma_wire_round_trip_entries(key_value_kind, value_value_kind, entries, n);
        },
        ValueView::Tuple { elements } => {
            lemma_wire_round_trip_seq(None, elements, n);
        },
        _ => {},
    }
}

/// Round trip for element sequences.
pub proof fn lemma_wire_round_trip_seq(check: Option<ValueKind>, s: Seq<ValueView>, n: u8)
    requires
        forall|i: int| 0 <= i < s.len() ==> wire_faithful(#[trigger] s[i]),
        forall|i: int| 0 <= i < s.len() ==> addresses_on_network(#[trigger] s[i], n),
        check matches Some(k) ==> forall|i: int| 0 <= i < s.len() ==> view_kind(#[trigger] s[i])
            == k,
    ensures
        to_wire_seq_view(check, s) is Ok,
        to_wire_seq_view(check, s)->Ok_0.len() == s.len(),
        from_wire_seq_view(to_wire_seq_view(check, s)->Ok_0, n) == s,
    decreases s,
{
    if s.len() == 0 {
        assert(from_wire_seq_view(Seq::empty(), n) =~= s);
    } else {
        lemma_wire_round_trip_seq(check, s.drop_last(), n);
        lemma_wire_round_trip(s.last(), n);
        let ws = to_wire_seq_view(check, s.drop_last())->Ok_0;
        let w = to_wire_view(s.last())->Ok_0;
        assert(ws.push(w).drop_last() =~= ws);
        assert(from_wire_seq_view(ws.push(w), n) =~= s);
    }
}

/// Round trip for entry sequences.
pub proof fn lemma_wire_round_trip_entries(
    key_kind: ValueKind,
    value_kind: ValueKind,
    s: Seq<(ValueView, ValueView)>,
    n: u8,
)
    requires
        forall|i: int| 0 <= i < s.len() ==> wire_faithful(#[trigger] s[i].0) && wire_faithful(
            s[i].1,
        ),
        forall|i: int| 0 <= i < s.len() ==> addresses_on_network(#[trigger] s[i].0, n)
            && addresses_on_network(s[i].1, n),
        forall|i: int| 0 <= i < s.len() ==> view_kind(#[trigger] s[i].0) == key_kind && view_kind(
            s[i].1,
        ) == value_kind,
    ensures
        to_wire_entries_view(key_kind, value_kind, s) is Ok,
        to_wire_entries_view(key_kind, value_kind, s)->Ok_0.len() == s.len(),
        from_wire_entries_view(to_wire_entries_view(key_kind, value_kind, s)->Ok_0, n) == s,
    decreases s,
{
    if s.len() == 0 {
        assert(from_wire_entries_view(Seq::empty(), n) =~= s);
    } else {
        lemma_wire_round_trip_entries(key_kind, value_kind, s.drop_last(), n);
        lemma_wire_round_trip(s.last().0, n);
        lemma_wire_round_trip(s.last().1, n);
        let ws = to_wire_entries_view(key_kind, value_kind, s.drop_last())->Ok_0;
        let wk = to_wire_view(s.last().0)->Ok_0;
        let wv = to_wire_view(s.last().1)->Ok_0;
        assert(ws.push((wk, wv)).drop_last() =~= ws);
        assert(from_wire_entries_view(ws.push((wk, wv)), n) =~= s);
    }
}

/// The componentwise model of a converted element vector.
pub open spec fn seq_result_view(r: Result<Vec<WireValue>, Error>) -> Result<
    Seq<WireValueView>,
    ErrorView,
> {
    match r {
        Ok(v) => Ok(wire_views_of(v@)),
        Err(e) => Err(e@),
    }
}

/// The componentwise model of a converted entry vector.
pub open spec fn entries_result_view(r: Result<Vec<(WireValue, WireValue)>, Error>) -> Result<
    Seq<(WireValueView, WireValueView)>,
    ErrorView,
> {
    match r {
        Ok(v) => Ok(wire_entry_views_of(v@)),
        Err(e) => Err(e@),
    }
}

/// Extending a converted prefix by one element.
pub proof fn lemma_to_wire_seq_step(check: Option<ValueKind>, s: Seq<ValueView>, i: int)
    requires
        0 <= i < s.len(),
    ensures
        to_wire_seq_view(check, s.take(i + 1)) == (match to_wire_seq_view(check, s.take(i)) {
            Err(e) => Err(e),
            Ok(ws) => {
                if check matches Some(k) && view_kind(s[i]) != k {
                    Err(
                        ErrorView::HeterogeneousContainer {
                            expected: check->Some_0,
                            found: view_kind(s[i]),
                        },
                    )
                } else {
                    match to_wire_view(s[i]) {
                        Err(e) => Err(e),
                        Ok(w) => Ok(ws.push(w)),
                    }
                }
            },
        }),
{
    assert(s.take(i + 1).drop_last() =~= s.take(i));
    assert(s.take(i + 1).last() == s[i]);
}

/// A failed prefix decides the whole conversion.
pub proof fn lemma_to_wire_seq_prefix_err(check: Option<ValueKind>, s: Seq<ValueView>, i: int)
    requires
        0 <= i <= s.len(),
        to_wire_seq_view(check, s.take(i)) is Err,
    ensures
        to_wire_seq_view(check, s) == to_wire_seq_view(check, s.take(i)),
    decreases s.len(),
{
    if i == s.len() {
        assert(s.take(i) =~= s);
    } else {
        assert(s.drop_last().take(i) =~= s.take(i));
        lemma_to_wire_seq_prefix_err(check, s.drop_last(), i);
    }
}

/// Extending a converted entry prefix by one entry.
pub proof fn lemma_to_wire_entries_step(
    key_kind: ValueKind,
    value_kind: ValueKind,
    s: Seq<(ValueView, ValueView)>,
    i: int,
)
    requires
        0 <= i < s.len(),
    ensures
        to_wire_entries_view(key_kind, value_kind, s.take(i + 1)) == (match to_wire_entries_view(
            key_kind,
            value_kind,
            s.take(i),
        ) {
            Err(e) => Err(e),
            Ok(ws) => {
                if view_kind(s[i].0) != key_kind {
                    Err(
                        ErrorView::HeterogeneousContainer {
                            expected: key_kind,
                            found: view_kind(s[i].0),
                        },
                    )
                } else if view_kind(s[i].1) != value_kind {
                    Err(
                        ErrorView::HeterogeneousContainer {
                            expected: value_kind,
                            found: view_kind(s[i].1),
                        },
                    )
                } else {
                    match to_wire_view(s[i].0) {
                        Err(e) => Err(e),
                        Ok(wk) => match to_wire_view(s[i].1) {
                            Err(e) => Err(e),
                            Ok(wv) => Ok(ws.push((wk, wv))),
                        },
                    }
                }
            },
        }),
{
    assert(s.take(i + 1).drop_last() =~= s.take(i));
    assert(s.take(i + 1).last() == s[i]);
}

/// A failed entry prefix decides the whole conversion.
pub proof fn lemma_to_wire_entries_prefix_err(
    key_kind: ValueKind,
    value_kind: ValueKind,
    s: Seq<(ValueView, ValueView)>,
    i: int,
)
    requires
        0 <= i <= s.len(),
        to_wire_entries_view(key_kind, value_kind, s.take(i)) is Err,
    ensures
        to_wire_entries_view(key_kind, value_kind, s) == to_wire_entries_view(
            key_kind,
            value_kind,
            s.take(i),
        ),
    decreases s.len(),
{
    if i == s.len() {
        assert(s.take(i) =~= s);
    } else {
        assert(s.drop_last().take(i) =~= s.take(i));
        lemma_to_wire_entries_prefix_err(key_kind, value_kind, s.drop_last(), i);
    }
}

/// Builds a one-element wire value vector.
fn wire_vec1(w: WireValue) -> (r: Vec<WireValue>)
    ensures
        wire_views_of(r@) == seq![wire_view(w)],
{
    let ghost wv = w@;
    let mut out: Vec<WireValue> = Vec::new();
    out.push(w);
    proof {
        reveal_with_fuel(wire_views_of, 2);
        assert(out@.drop_last() =~= Seq::<WireValue>::empty());
        assert(wire_views_of(out@) =~= seq![wv]);
    }
    out
}

/// Builds a two-element wire value vector.
fn wire_vec2(a: WireValue, b: WireValue) -> (r: Vec<WireValue>)
    ensures
        wire_views_of(r@) == seq![wire_view(a), wire_view(b)],
{
    let ghost av = a@;
    let ghost bv = b@;
    let mut out: Vec<WireValue> = Vec::new();
    out.push(a);
    let ghost f1 = out@;
    out.push(b);
    proof {
        reveal_with_fuel(wire_views_of, 3);
        assert(f1.drop_last() =~= Seq::<WireValue>::empty());
        assert(wire_views_of(f1) =~= seq![av]);
        assert(out@.drop_last() =~= f1);
        assert(wire_views_of(out@) =~= seq![av, bv]);
    }
    out
}

/// Copies a byte vector.
pub fn copy_bytes(v: &Vec<u8>) -> (r: Vec<u8>)
    ensures
        r@ == v@,
{
    let mut out: Vec<u8> = Vec::new();
    let mut i: usize = 0;
    while i < v.len()
        invariant
            0 <= i <= v@.len(),
            out@ == v@.take(i as int),
        decreases v@.len() - i,
    {
        out.push(v[i]);
        proof {
            assert(out@ =~= v@.take(i + 1));
        }
        i = i + 1;
    }
    proof {
        assert(v@.take(v@.len() as int) =~= v@);
    }
    out
}

/// Copies a non-fungible local id.
pub fn copy_non_fungible_local_id(v: &NonFungibleLocalId) -> (r: NonFungibleLocalId)
    ensures
        r@ == v@,
{
    match v {
        NonFungibleLocalId::Integer { value } => NonFungibleLocalId::Integer { value: *value },
        NonFungibleLocalId::String { value } => NonFungibleLocalId::String {
            value: value.clone(),
        },
        NonFungibleLocalId::Bytes { value } => NonFungibleLocalId::Bytes {
            value: copy_bytes(value),
        },
        NonFungibleLocalId::UUID { value } => NonFungibleLocalId::UUID { value: *value },
    }
}

/// Copies an owned-node reference.
pub fn copy_owned_node(v: &OwnedNode) -> (r: OwnedNode)
    ensures
        r@ == v@,
{
    match v {
        OwnedNode::Bucket { id } => OwnedNode::Bucket { id: *id },
        OwnedNode::Proof { id } => OwnedNode::Proof { id: *id },
        OwnedNode::Vault { id } => OwnedNode::Vault { id: copy_bytes(id) },
        OwnedNode::Object { id } => OwnedNode::Object { id: copy_bytes(id) },
        OwnedNode::KeyValueStore { id } => OwnedNode::KeyValueStore { id: copy_bytes(id) },
    }
}

impl crate::value::Value {
    /// Converts this value to its structured wire form, or reports the first
    /// conversion error: an unresolvable enum discriminator, a heterogeneous
    /// container element, or a named bucket or proof identifier.
    pub fn to_wire(&self) -> (r: Result<WireValue, Error>)
        ensures
            crate::error::result_view(r) == to_wire_view(self@),
        decreases *self,
    {
        match self {
            Value::Bool { value } => Ok(WireValue::Bool { value: *value }),
            Value::U8 { value } => Ok(WireValue::U8 { value: *value }),
            Value::U16 { value } => Ok(WireValue::U16 { value: *value }),
            Value::U32 { value } => Ok(WireValue::U32 { value: *value }),
            Value::U64 { value } => Ok(WireValue::U64 { value: *value }),
            Value::U128 { value } => Ok(WireValue::U128 { value: *value }),
            Value::I8 { value } => Ok(WireValue::I8 { value: *value }),
            Value::I16 { value } => Ok(WireValue::I16 { value: *value }),
            Value::I32 { value } => Ok(WireValue::I32 { value: *value }),
            Value::I64 { value } => Ok(WireValue::I64 { value: *value }),
            Value::I128 { value } => Ok(WireValue::I128 { value: *value }),
            Value::String { value } => Ok(WireValue::String { value: value.clone() }),
            Value::Enum { variant, fields } => {
                let d = match variant.resolve_discriminator() {
                    Ok(d) => d,
                    Err(e) => {
                        proof {
                            crate::value::lemma_resolve_view(*variant);
                        }
                        return Err(e);
                    },
                };
                proof {
                    crate::value::lemma_resolve_view(*variant);
                }
                match fields {
                    Some(fs) => match to_wire_seq(None, fs) {
                        Ok(ws) => Ok(WireValue::Enum { discriminator: d, fields: ws }),
                        Err(e) => Err(e),
                    },
                    None => Ok(WireValue::Enum { discriminator: d, fields: Vec::new() }),
                }
            },
            Value::OptionSome { value } => match (&**value).to_wire() {
                Ok(w) => Ok(
                    WireValue::Enum {
                        discriminator: OPTION_SOME_DISCRIMINATOR,
                        fields: wire_vec1(w),
                    },
                ),
                Err(e) => Err(e),
            },
            Value::OptionNone => Ok(
                WireValue::Enum { discriminator: OPTION_NONE_DISCRIMINATOR, fields: Vec::new() },
            ),
            Value::ResultOk { value } => match (&**value).to_wire() {
                Ok(w) => Ok(
                    WireValue::Enum { discriminator: RESULT_OK_DISCRIMINATOR, fields: wire_vec1(w) },
                ),
                Err(e) => Err(e),
            },
            Value::ResultErr { value } => match (&**value).to_wire() {
                Ok(w) => Ok(
                    WireValue::Enum { discriminator: RESULT_ERR_DISCRIMINATOR, fields: wire_vec1(w) },
                ),
                Err(e) => Err(e),
            },
            Value::Array { element_kind, elements } => match to_wire_seq(
                Some(*element_kind),
                elements,
            ) {
                Ok(ws) => Ok(
                    WireValue::Array {
                        element_value_kind: kind_to_wire(*element_kind),
                        elements: ws,
                    },
                ),
                Err(e) => Err(e),
            },
            Value::MapValue { key_value_kind, value_value_kind, entries } => {
                match to_wire_entries(*key_value_kind, *value_value_kind, entries) {
                    Ok(ws) => Ok(
                        WireValue::MapValue {
                            key_value_kind: kind_to_wire(*key_value_kind),
                            value_value_kind: kind_to_wire(*value_value_kind),
                            entries: ws,
                        },
                    ),
                    Err(e) => Err(e),
                }
            },
            Value::Tuple { elements } => match to_wire_seq(None, elements) {
                Ok(ws) => Ok(WireValue::Tuple { fields: ws }),
                Err(e) => Err(e),
            },
            Value::Decimal { value } => Ok(WireValue::Decimal { value: value.clone() }),
            Value::PreciseDecimal { value } => Ok(
                WireValue::PreciseDecimal { value: value.clone() },
            ),
            Value::Own { value } => Ok(WireValue::Own { value: copy_owned_node(value) }),
            Value::ComponentAddress { address } => Ok(
                WireValue::ComponentAddress { address: copy_bytes(&address.raw) },
            ),
            Value::ResourceAddress { address } => Ok(
                WireValue::ResourceAddress { address: copy_bytes(&address.raw) },
            ),
            Value::PackageAddress { address } => Ok(
                WireValue::PackageAddress { address: copy_bytes(&address.raw) },
            ),
            Value::Hash { value } => Ok(WireValue::Hash { value: copy_bytes(value) }),
            Value::EcdsaSecp256k1PublicKey { public_key } => Ok(
                WireValue::EcdsaSecp256k1PublicKey { public_key: copy_bytes(public_key) },
            ),
            Value::EcdsaSecp256k1Signature { signature } => Ok(
                WireValue::EcdsaSecp256k1Signature { signature: copy_bytes(signature) },
            ),
            Value::EddsaEd25519PublicKey { public_key } => Ok(
                WireValue::EddsaEd25519PublicKey { public_key: copy_bytes(public_key) },
            ),
            Value::EddsaEd25519Signature { signature } => Ok(
                WireValue::EddsaEd25519Signature { signature: copy_bytes(signature) },
            ),
            Value::Bucket { identifier } => match identifier {
                TransientIdentifier::U32 { value } => Ok(WireValue::Bucket { identifier: *value }),
                TransientIdentifier::String { value } => Err(
                    Error::UnresolvedTransientIdentifier { identifier: value.clone() },
                ),
            },
            Value::Proof { identifier } => match identifier {
                TransientIdentifier::U32 { value } => Ok(WireValue::Proof { identifier: *value }),
                TransientIdentifier::String { value } => Err(
                    Error::UnresolvedTransientIdentifier { identifier: value.clone() },
                ),
            },
            Value::NonFungibleLocalId { value } => Ok(
                WireValue::NonFungibleLocalId { value: copy_non_fungible_local_id(value) },
            ),
            Value::NonFungibleGlobalId { address } => {
                let resource = WireValue::ResourceAddress {
                    address: copy_bytes(&address.resource_address.raw),
                };
                let local = WireValue::NonFungibleLocalId {
                    value: copy_non_fungible_local_id(&address.non_fungible_local_id),
                };
                Ok(WireValue::Tuple { fields: wire_vec2(resource, local) })
            },
            Value::Expression { value } => Ok(WireValue::Expression { value: *value }),
            Value::Blob { hash } => Ok(WireValue::Blob { hash: copy_bytes(hash) }),
            Value::Bytes { value } => {
                let mut elements: Vec<WireValue> = Vec::new();
                let mut i: usize = 0;
                while i < value.len()
                    invariant
                        0 <= i <= value@.len(),
                        elements@.len() == i,
                        forall|j: int| 0 <= j < i ==> #[trigger] elements@[j] == (WireValue::U8 {
                            value: value@[j],
                        }),
                    decreases value@.len() - i,
                {
                    elements.push(WireValue::U8 { value: value[i] });
                    i = i + 1;
                }
                proof {
                    lemma_wire_views_of(elements@);
                    assert(wire_views_of(elements@) =~= value@.map_values(
                        |b: u8| WireValueView::U8 { value: b },
                    ));
                }
                Ok(WireValue::Array { element_value_kind: WireValueKind::U8, elements })
            },
        }
    }
}

impl Value {
    /// Decodes a structured wire value on the given network. Decoding is
    /// total: every address is reattached to `network_id`, every enum comes
    /// back generically, and no option, result, byte-blob or global-id sugar
    /// form is resurrected.
    pub fn from_wire(w: &WireValue, network_id: u8) -> (r: Value)
        ensures
            r@ == from_wire_view(w@, network_id),
        decreases *w,
    {
        match w {
            WireValue::Bool { value } => Value::Bool { value: *value },
            WireValue::U8 { value } => Value::U8 { value: *value },
            WireValue::U16 { value } => Value::U16 { value: *value },
            WireValue::U32 { value } => Value::U32 { value: *value },
            WireValue::U64 { value } => Value::U64 { value: *value },
            WireValue::U128 { value } => Value::U128 { value: *value },
            WireValue::I8 { value } => Value::I8 { value: *value },
            WireValue::I16 { value } => Value::I16 { value: *value },
            WireValue::I32 { value } => Value::I32 { value: *value },
            WireValue::I64 { value } => Value::I64 { value: *value },
            WireValue::I128 { value } => Value::I128 { value: *value },
            WireValue::String { value } => Value::String { value: value.clone() },
            WireValue::Enum { discriminator, fields } => Value::Enum {
                variant: EnumDiscriminator::U8 { discriminator: *discriminator },
                fields: if fields.len() == 0 {
                    None
                } else {
                    Some(from_wire_seq(fields, network_id))
                },
            },
            WireValue::Array { element_value_kind, elements } => Value::Array {
                element_kind: kind_from_wire(*element_value_kind),
                elements: from_wire_seq(elements, network_id),
            },
            WireValue::Tuple { fields } => Value::Tuple {
                elements: from_wire_seq(fields, network_id),
            },
            WireValue::MapValue { key_value_kind, value_value_kind, entries } => Value::MapValue {
                key_value_kind: kind_from_wire(*key_value_kind),
                value_value_kind: kind_from_wire(*value_value_kind),
                entries: from_wire_entries(entries, network_id),
            },
            WireValue::Decimal { value } => Value::Decimal { value: value.clone() },
            WireValue::PreciseDecimal { value } => Value::PreciseDecimal { value: value.clone() },
            WireValue::Own { value } => Value::Own { value: copy_owned_node(value) },
            WireValue::ComponentAddress { address } => Value::ComponentAddress {
                address: crate::address::NetworkAwareAddress {
                    network_id,
                    raw: copy_bytes(address),
                },
            },
            WireValue::ResourceAddress { address } => Value::ResourceAddress {
                address: crate::address::NetworkAwareAddress {
                    network_id,
                    raw: copy_bytes(address),
                },
            },
            WireValue::PackageAddress { address } => Value::PackageAddress {
                address: crate::address::NetworkAwareAddress {
                    network_id,
                    raw: copy_bytes(address),
                },
            },
            WireValue::Hash { value } => Value::Hash { value: copy_bytes(value) },
            WireValue::EcdsaSecp256k1PublicKey { public_key } => Value::EcdsaSecp256k1PublicKey {
                public_key: copy_bytes(public_key),
            },
            WireValue::EcdsaSecp256k1Signature { signature } => Value::EcdsaSecp256k1Signature {
                signature: copy_bytes(signature),
            },
            WireValue::EddsaEd25519PublicKey { public_key } => Value::EddsaEd25519PublicKey {
                public_key: copy_bytes(public_key),
            },
            WireValue::EddsaEd25519Signature { signature } => Value::EddsaEd25519Signature {
                signature: copy_bytes(signature),
            },
            WireValue::Bucket { identifier } => Value::Bucket {
                identifier: TransientIdentifier::U32 { value: *identifier },
            },
            WireValue::Proof { identifier } => Value::Proof {
                identifier: TransientIdentifier::U32 { value: *identifier },
            },
            WireValue::NonFungibleLocalId { value } => Value::NonFungibleLocalId {
                value: copy_non_fungible_local_id(value),
            },
            WireValue::Expression { value } => Value::Expression { value: *value },
            WireValue::Blob { hash } => Value::Blob { hash: copy_bytes(hash) },
        }
    }
}

/// Decodes the elements of a wire vector in order.
fn from_wire_seq(elements: &Vec<WireValue>, n: u8) -> (r: Vec<Value>)
    ensures
        crate::value::views_of(r@) == from_wire_seq_view(wire_views_of(elements@), n),
    decreases elements@,
{
    let ghost ws = wire_views_of(elements@);
    proof {
        lemma_wire_views_of(elements@);
    }
    let mut out: Vec<Value> = Vec::new();
    let mut i: usize = 0;
    while i < elements.len()
        invariant
            0 <= i <= elements@.len(),
            ws == wire_views_of(elements@),
            ws.len() == elements@.len(),
            forall|j: int| 0 <= j < elements@.len() ==> #[trigger] ws[j] == wire_view(
                elements@[j],
            ),
            crate::value::views_of(out@) == from_wire_seq_view(ws.take(i as int), n),
        decreases elements@.len() - i,
    {
        let elem = &elements[i];
        proof {
            assert(decreases_to!(elements@ => elements@[i as int]));
        }
        let v = Value::from_wire(elem, n);
        let ghost out_pre = out@;
        let ghost vv = v@;
        out.push(v);
        proof {
            assert(ws.take(i as int + 1).drop_last() =~= ws.take(i as int));
            assert(ws.take(i as int + 1).last() == ws[i as int]);
            assert(out@.drop_last() =~= out_pre);
            assert(crate::value::views_of(out@) == crate::value::views_of(out_pre).push(vv));
        }
        i = i + 1;
    }
    proof {
        assert(ws.take(ws.len() as int) =~= ws);
    }
    out
}

/// Decodes the entries of a wire map vector in order.
fn from_wire_entries(entries: &Vec<(WireValue, WireValue)>, n: u8) -> (r: Vec<(Value, Value)>)
    ensures
        crate::value::entry_views_of(r@) == from_wire_entries_view(
            wire_entry_views_of(entries@),
            n,
        ),
    decreases entries@,
{
    let ghost ws = wire_entry_views_of(entries@);
    proof {
        lemma_wire_entry_views_of(entries@);
    }
    let mut out: Vec<(Value, Value)> = Vec::new();
    let mut i: usize = 0;
    while i < entries.len()
        invariant
            0 <= i <= entries@.len(),
            ws == wire_entry_views_of(entries@),
            ws.len() == entries@.len(),
            forall|j: int| 0 <= j < entries@.len() ==> #[trigger] ws[j] == (
                wire_view(entries@[j].0),
                wire_view(entries@[j].1),
            ),
            crate::value::entry_views_of(out@) == from_wire_entries_view(ws.take(i as int), n),
        decreases entries@.len() - i,
    {
        let key = &entries[i].0;
        let val = &entries[i].1;
        proof {
            assert(decreases_to!(entries@ => entries@[i as int]));
        }
        let kv = Value::from_wire(key, n);
        let vv = Value::from_wire(val, n);
        let ghost out_pre = out@;
        let ghost kvv = kv@;
        let ghost vvv = vv@;
        out.push((kv, vv));
        proof {
            assert(ws.take(i as int + 1).drop_last() =~= ws.take(i as int));
            assert(ws.take(i as int + 1).last() == ws[i as int]);
            assert(out@.drop_last() =~= out_pre);
            assert(crate::value::entry_views_of(out@) == crate::value::entry_views_of(
                out_pre,
            ).push((kvv, vvv)));
        }
        i = i + 1;
    }
    proof {
        assert(ws.take(ws.len() as int) =~= ws);
    }
    out
}

/// A value model the wire conversion accepts: discriminators resolvable,
/// containers homogeneous, and bucket and proof identifiers numeric.
pub open spec fn encodable(v: ValueView) -> bool
    decreases v,
{
    match v {
        ValueView::Enum { variant, fields } => resolve_view(variant) is Some && match fields {
            Some(fs) => forall|i: int| 0 <= i < fs.len() ==> encodable(#[trigger] fs[i]),
            None => true,
        },
        ValueView::OptionSome { value } => encodable(*value),
        ValueView::ResultOk { value } => encodable(*value),
        ValueView::ResultErr { value } => encodable(*value),
        ValueView::Array { element_kind, elements } => forall|i: int|
            0 <= i < elements.len() ==> view_kind(#[trigger] elements[i]) == element_kind
                && encodable(elements[i]),
        ValueView::MapValue { key_value_kind, value_value_kind, entries } => forall|i: int|
            0 <= i < entries.len() ==> view_kind(#[trigger] entries[i].0) == key_value_kind
                && view_kind(entries[i].1) == value_value_kind && encodable(entries[i].0)
                && encodable(entries[i].1),
        ValueView::Tuple { elements } => forall|i: int|
            0 <= i < elements.len() ==> encodable(#[trigger] elements[i]),
        ValueView::Bucket { identifier } => identifier is U32,
        ValueView::Proof { identifier } => identifier is U32,
        _ => true,
    }
}

/// The wire conversion succeeds exactly on encodable values.
pub proof fn lemma_to_wire_ok_iff(v: ValueView)
    ensures
        to_wire_view(v) is Ok <==> encodable(v),
    decreases v,
{
    match v {
        ValueView::Enum { variant, fields } => {
            match fields {
                Some(fs) => {
                    lemma_to_wire_seq_ok_iff(None, fs);
                },
                None => {},
            }
        },
        ValueView::OptionSome { value } => lemma_to_wire_ok_iff(*value),
        ValueView::ResultOk { value } => lemma_to_wire_ok_iff(*value),
        ValueView::ResultErr { value } => lemma_to_wire_ok_iff(*value),
        ValueView::Array { element_kind, elements } => {
            lemma_to_wire_seq_ok_iff(Some(element_kind), elements);
        },
        ValueView::MapValue { key_value_kind, value_value_kind, entries } => {
            lemma_to_wire_entries_ok_iff(key_value_kind, value_value_kind, entries);
        },
        ValueView::Tuple { elements } => {
            lemma_to_wire_seq_ok_iff(None, elements);
        },
        _ => {},
    }
}

/// The element conversion succeeds exactly when every element passes the
/// kind check and is encodable.
pub proof fn lemma_to_wire_seq_ok_iff(check: Option<ValueKind>, s: Seq<ValueView>)
    ensures
        to_wire_seq_view(check, s) is Ok <==> forall|i: int|
            0 <= i < s.len() ==> (check matches Some(k) ==> view_kind(#[trigger] s[i]) == k)
                && encodable(s[i]),
    decreases s,
{
    if s.len() > 0 {
        lemma_to_wire_seq_ok_iff(check, s.drop_last());
        lemma_to_wire_ok_iff(s.last());
        if to_wire_seq_view(check, s) is Ok {
            assert forall|i: int| 0 <= i < s.len() implies (check matches Some(k) ==> view_kind(
                #[trigger] s[i],
            ) == k) && encodable(s[i]) by {
                if i < s.len() - 1 {
                    assert(s.drop_last()[i] == s[i]);
                }
            }
        } else {
            if forall|i: int| 0 <= i < s.len() ==> (check matches Some(k) ==> view_kind(
                #[trigger] s[i],
            ) == k) && encodable(s[i]) {
                assert forall|i: int| 0 <= i < s.drop_last().len() implies (check matches Some(k)
                    ==> view_kind(#[trigger] s.drop_last()[i]) == k) && encodable(
                    s.drop_last()[i],
                ) by {
                    assert(s.drop_last()[i] == s[i]);
                }
                assert(s.last() == s[s.len() - 1]);
                assert(false);
            }
        }
    }
}

/// The entry conversion succeeds exactly when every key and value passes its
/// kind check and is encodable.
pub proof fn lemma_to_wire_entries_ok_iff(
    key_kind: ValueKind,
    value_kind: ValueKind,
    s: Seq<(ValueView, ValueView)>,
)
    ensures
        to_wire_entries_view(key_kind, value_kind, s) is Ok <==> forall|i: int|
            0 <= i < s.len() ==> view_kind(#[trigger] s[i].0) == key_kind && view_kind(s[i].1)
                == value_kind && encodable(s[i].0) && encodable(s[i].1),
    decreases s,
{
    if s.len() > 0 {
        lemma_to_wire_entries_ok_iff(key_kind, value_kind, s.drop_last());
        lemma_to_wire_ok_iff(s.last().0);
        lemma_to_wire_ok_iff(s.last().1);
        if to_wire_entries_view(key_kind, value_kind, s) is Ok {
            assert forall|i: int| 0 <= i < s.len() implies view_kind(#[trigger] s[i].0) == key_kind
                && view_kind(s[i].1) == value_kind && encodable(s[i].0) && encodable(s[i].1) by {
                if i < s.len() - 1 {
                    assert(s.drop_last()[i] == s[i]);
                }
            }
        } else {
            if forall|i: int| 0 <= i < s.len() ==> view_kind(#[trigger] s[i].0) == key_kind
                && view_kind(s[i].1) == value_kind && encodable(s[i].0) && encodable(s[i].1) {
                assert forall|i: int| 0 <= i < s.drop_last().len() implies view_kind(
                    #[trigger] s.drop_last()[i].0,
                ) == key_kind && view_kind(s.drop_last()[i].1) == value_kind && encodable(
                    s.drop_last()[i].0,
                ) && encodable(s.drop_last()[i].1) by {
                    assert(s.drop_last()[i] == s[i]);
                }
                assert(s.last() == s[s.len() - 1]);
                assert(false);
            }
        }
    }
}

/// Converts the elements of a vector in order, optionally holding each to a
/// declared kind first.
fn to_wire_seq(check: Option<ValueKind>, elements: &Vec<Value>) -> (r: Result<
    Vec<WireValue>,
    Error,
>)
    ensures
        seq_result_view(r) == to_wire_seq_view(check, crate::value::views_of(elements@)),
    decreases elements@,
{
    let ghost vs = crate::value::views_of(elements@);
    proof {
        crate::value::lemma_views_of(elements@);
    }
    let mut out: Vec<WireValue> = Vec::new();
    let mut i: usize = 0;
    while i < elements.len()
        invariant
            0 <= i <= elements@.len(),
            vs == crate::value::views_of(elements@),
            vs.len() == elements@.len(),
            forall|j: int| 0 <= j < elements@.len() ==> #[trigger] vs[j] == crate::value::value_view(
                elements@[j],
            ),
            to_wire_seq_view(check, vs.take(i as int)) == Ok::<_, ErrorView>(
                wire_views_of(out@),
            ),
        decreases elements@.len() - i,
    {
        let elem = &elements[i];
        proof {
            assert(decreases_to!(elements@ => elements@[i as int]));
        }
        if let Some(k) = check {
            let ek = elem.kind();
            if ek != k {
                proof {
                    lemma_to_wire_seq_step(check, vs, i as int);
                    lemma_to_wire_seq_prefix_err(check, vs, i as int + 1);
                }
                return Err(Error::HeterogeneousContainer { expected: k, found: ek });
            }
        }
        match elem.to_wire() {
            Ok(w) => {
                let ghost out_pre = out@;
                let ghost wv = w@;
                out.push(w);
                proof {
                    lemma_to_wire_seq_step(check, vs, i as int);
                    assert(out@.drop_last() =~= out_pre);
                    assert(wire_views_of(out@) == wire_views_of(out_pre).push(wv));
                }
            },
            Err(e) => {
                proof {
                    lemma_to_wire_seq_step(check, vs, i as int);
                    lemma_to_wire_seq_prefix_err(check, vs, i as int + 1);
                }
                return Err(e);
            },
        }
        i = i + 1;
    }
    proof {
        assert(vs.take(vs.len() as int) =~= vs);
    }
    Ok(out)
}

/// Converts the entries of a map vector in order, holding keys and values to
/// the declared kinds.
fn to_wire_entries(
    key_kind: ValueKind,
    value_kind: ValueKind,
    entries: &Vec<(Value, Value)>,
) -> (r: Result<Vec<(WireValue, WireValue)>, Error>)
    ensures
        entries_result_view(r) == to_wire_entries_view(
            key_kind,
            value_kind,
            crate::value::entry_views_of(entries@),
        ),
    decreases entries@,
{
    let ghost vs = crate::value::entry_views_of(entries@);
    proof {
        crate::value::lemma_entry_views_of(entries@);
    }
    let mut out: Vec<(WireValue, WireValue)> = Vec::new();
    let mut i: usize = 0;
    while i < entries.len()
        invariant
            0 <= i <= entries@.len(),
            vs == crate::value::entry_views_of(entries@),
            vs.len() == entries@.len(),
            forall|j: int| 0 <= j < entries@.len() ==> #[trigger] vs[j] == (
                crate::value::value_view(entries@[j].0),
                crate::value::value_view(entries@[j].1),
            ),
            to_wire_entries_view(key_kind, value_kind, vs.take(i as int)) == Ok::<_, ErrorView>(
                wire_entry_views_of(out@),
            ),
        decreases entries@.len() - i,
    {
        let key = &entries[i].0;
        let val = &entries[i].1;
        proof {
            assert(decreases_to!(entries@ => entries@[i as int]));
        }
        let kk = key.kind();
        if kk != key_kind {
            proof {
                lemma_to_wire_entries_step(key_kind, value_kind, vs, i as int);
                lemma_to_wire_entries_prefix_err(key_kind, value_kind, vs, i as int + 1);
            }
            return Err(Error::HeterogeneousContainer { expected: key_kind, found: kk });
        }
        let vk = val.kind();
        if vk != value_kind {
            proof {
                lemma_to_wire_entries_step(key_kind, value_kind, vs, i as int);
                lemma_to_wire_entries_prefix_err(key_kind, value_kind, vs, i as int + 1);
            }
            return Err(Error::HeterogeneousContainer { expected: value_kind, found: vk });
        }
        let wk = match key.to_wire() {
            Ok(w) => w,
            Err(e) => {
                proof {
                    lemma_to_wire_entries_step(key_kind, value_kind, vs, i as int);
                    lemma_to_wire_entries_prefix_err(key_kind, value_kind, vs, i as int + 1);
                }
                return Err(e);
            },
        };
        let wv = match val.to_wire() {
            Ok(w) => w,
            Err(e) => {
                proof {
                    lemma_to_wire_entries_step(key_kind, value_kind, vs, i as int);
                    lemma_to_wire_entries_prefix_err(key_kind, value_kind, vs, i as int + 1);
                }
                return Err(e);
            },
        };
        let ghost out_pre = out@;
        let ghost wkv = wk@;
        let ghost wvv = wv@;
        out.push((wk, wv));
        proof {
            lemma_to_wire_entries_step(key_kind, value_kind, vs, i as int);
            assert(out@.drop_last() =~= out_pre);
            assert(wire_entry_views_of(out@) == wire_entry_views_of(out_pre).push((wkv, wvv)));
        }
        i = i + 1;
    }
    proof {
        assert(vs.take(vs.len() as int) =~= vs);
    }
    Ok(out)
}

} // verus!
