//! The error taxonomy.
//!
//! Every fallible operation of the library reports its cause through a
//! distinct variant, so that callers can branch on it.

use vstd::prelude::*;

use crate::value::ValueKind;

verus! {

/// Every way a conversion, a traversal or a classification can fail.
#[derive(Debug, Clone, PartialEq, Eq)]
pub enum Error {
    /// A value of one kind stood where another kind was required.
    InvalidKind { expected: Vec<ValueKind>, found: ValueKind },
    /// An array or map element disagreed with the container's declared kind.
    HeterogeneousContainer { expected: ValueKind, found: ValueKind },
    /// A textual node's inner shape does not match what its kind requires.
    UnexpectedShape { parsing: ValueKind, expected: Vec<ValueKind>, found: ValueKind },
    /// A string enum discriminator that is not a well-known variant name.
    InvalidEnumDiscriminator { discriminator: String },
    /// An expression literal other than the recognized expression names.
    InvalidExpressionString { found: String, expected: Vec<String> },
    /// A textual map literal with an odd number of element nodes.
    OddNumberOfElements,
    /// A decimal literal that does not follow the decimal grammar.
    InvalidDecimalString { value: String },
    /// A literal that is not valid hexadecimal text.
    InvalidHexString { value: String },
    /// A byte payload of the wrong length for its kind.
    InvalidLength { parsing: ValueKind, expected: usize, found: usize },
    /// An address string that does not decode for the requested network.
    InvalidAddressString { value: String },
    /// A non-fungible local id literal in none of the recognized forms.
    InvalidNonFungibleLocalIdString { value: String },
    /// A named bucket or proof where the wire form needs a numeric one.
    UnresolvedTransientIdentifier { identifier: String },
    /// An owned-node value has a rendered form but no parsed one.
    UnrepresentableOwn,
    /// A value carries a network id other than the declared one.
    NetworkMismatchError { found: u8, expected: u8 },
    /// The execution receipt is present but not committed successfully.
    TransactionNotCommitted,
    /// A compiled intent payload in none of the recognized formats.
    UnrecognizedCompiledIntentFormat,
    /// A public key of a length that matches no supported curve.
    InvalidPublicKey,
    /// A name that the manifest builder's name record does not know.
    UnknownName { name: String },
}

/// The mathematical model of an [`Error`].
pub enum ErrorView {
    InvalidKind { expected: Seq<ValueKind>, found: ValueKind },
    HeterogeneousContainer { expected: ValueKind, found: ValueKind },
    UnexpectedShape { parsing: ValueKind, expected: Seq<ValueKind>, found: ValueKind },
    InvalidEnumDiscriminator { discriminator: Seq<char> },
    InvalidExpressionString { found: Seq<char>, expected: Seq<Seq<char>> },
    OddNumberOfElements,
    InvalidDecimalString { value: Seq<char> },
    InvalidHexString { value: Seq<char> },
    InvalidLength { parsing: ValueKind, expected: int, found: int },
    InvalidAddressString { value: Seq<char> },
    InvalidNonFungibleLocalIdString { value: Seq<char> },
    UnresolvedTransientIdentifier { identifier: Seq<char> },
    UnrepresentableOwn,
    NetworkMismatchError { found: u8, expected: u8 },
    TransactionNotCommitted,
    UnrecognizedCompiledIntentFormat,
    InvalidPublicKey,
    UnknownName { name: Seq<char> },
}

impl View for Error {
    type V = ErrorView;

    open spec fn view(&self) -> ErrorView {
        match self {
            Error::InvalidKind { expected, found } => ErrorView::InvalidKind {
                expected: expected@,
                found: *found,
            },
            Error::HeterogeneousContainer { expected, found } => ErrorView::HeterogeneousContainer {
                expected: *expected,
                found: *found,
            },
            Error::UnexpectedShape { parsing, expected, found } => ErrorView::UnexpectedShape {
                parsing: *parsing,
                expected: expected@,
                found: *found,
            },
            Error::InvalidEnumDiscriminator { discriminator } => {
                ErrorView::InvalidEnumDiscriminator { discriminator: discriminator@ }
            },
            Error::InvalidExpressionString { found, expected } => {
                ErrorView::InvalidExpressionString {
                    found: found@,
                    expected: expected.deep_view(),
                }
            },
            Error::OddNumberOfElements => ErrorView::OddNumberOfElements,
            Error::InvalidDecimalString { value } => ErrorView::InvalidDecimalString {
                value: value@,
            },
            Error::InvalidHexString { value } => ErrorView::InvalidHexString { value: value@ },
            Error::InvalidLength { parsing, expected, found } => ErrorView::InvalidLength {
                parsing: *parsing,
                expected: *expected as int,
                found: *found as int,
            },
            Error::InvalidAddressString { value } => ErrorView::InvalidAddressString {
                value: value@,
            },
            Error::InvalidNonFungibleLocalIdString { value } => {
                ErrorView::InvalidNonFungibleLocalIdString { value: value@ }
            },
            Error::UnresolvedTransientIdentifier { identifier } => {
                ErrorView::UnresolvedTransientIdentifier { identifier: identifier@ }
            },
            Error::UnrepresentableOwn => ErrorView::UnrepresentableOwn,
            Error::NetworkMismatchError { found, expected } => ErrorView::NetworkMismatchError {
                found: *found,
                expected: *expected,
            },
            Error::TransactionNotCommitted => ErrorView::TransactionNotCommitted,
            Error::UnrecognizedCompiledIntentFormat => ErrorView::UnrecognizedCompiledIntentFormat,
            Error::InvalidPublicKey => ErrorView::InvalidPublicKey,
            Error::UnknownName { name } => ErrorView::UnknownName { name: name@ },
        }
    }
}

/// The componentwise model of a result.
pub open spec fn result_view<T: View, E: View>(r: Result<T, E>) -> Result<T::V, E::V> {
    match r {
        Ok(t) => Ok(t@),
        Err(e) => Err(e@),
    }
}

} // verus!
