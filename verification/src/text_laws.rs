//! Round-trip laws of the textual form.
//!
//! The wire round trip lives beside the wire conversions; the textual
//! counterpart lives here: a text-faithful value renders to a textual node
//! that parses back to exactly the value, on any network.

use vstd::prelude::*;

use crate::error::ErrorView;
use crate::strings::{dec_str_of, hex_of};
use crate::text::{
    from_text_elements_view, from_text_entries_view, from_text_seq_view, from_text_view,
    is_decimal_string, kind_from_text_spec, kind_to_text_spec, nflid_parse_spec, nflid_str_spec,
    to_text_pairs_view, to_text_seq_view, to_text_view,
};
use crate::value::{ValueKind, ValueView};

verus! {

/// A non-fungible local id literal parses back to the id it renders.
pub proof fn lemma_nflid_round_trip(id: crate::value::NonFungibleLocalIdView)
    ensures
        nflid_parse_spec(nflid_str_spec(id)) == Some(id),
{
    let s = nflid_str_spec(id);
    match id {
        crate::value::NonFungibleLocalIdView::Integer { value } => {
            crate::strings::lemma_dec_round_trip(value as nat);
            assert(s.subrange(1, s.len() - 1) =~= dec_str_of(value as nat));
        },
        crate::value::NonFungibleLocalIdView::String { value } => {
            assert(s.subrange(1, s.len() - 1) =~= value);
        },
        crate::value::NonFungibleLocalIdView::Bytes { value } => {
            crate::strings::lemma_hex_of_len(value);
            crate::strings::lemma_hex_round_trip(value);
            assert(s.subrange(1, s.len() - 1) =~= hex_of(value));
        },
        crate::value::NonFungibleLocalIdView::UUID { value } => {
            assert((value as nat) < crate::strings::pow16(32nat)) by {
                reveal_with_fuel(crate::strings::pow16, 33);
            }
            crate::strings::lemma_hex_fixed_round_trip(value as nat, 32nat);
            assert(s.subrange(1, s.len() - 1) =~= crate::strings::hex_str_fixed(
                value as nat,
                32,
            ));
        },
    }
}

/// A value kind that survives the trip into a textual node kind and back.
pub open spec fn kind_text_faithful(k: ValueKind) -> bool {
    kind_from_text_spec(kind_to_text_spec(k)) == k
}

/// A value model whose textual rendering parses back to exactly itself on
/// any network: no address, global id or owned-node payload (addresses
/// render through the external codec and are covered by tests instead), no
/// string discriminators, enum fields present only when there is at least
/// one, containers homogeneous with text-faithful declared kinds, decimal
/// payloads well formed, and byte payloads of their kinds' exact lengths.
pub open spec fn text_faithful(v: ValueView) -> bool
    decreases v,
{
    match v {
        ValueView::Enum { variant, fields } => variant is U8 && match fields {
            Some(fs) => fs.len() > 0 && (forall|i: int|
                0 <= i < fs.len() ==> text_faithful(#[trigger] fs[i])),
            None => true,
        },
        ValueView::OptionSome { value } => text_faithful(*value),
        ValueView::ResultOk { value } => text_faithful(*value),
        ValueView::ResultErr { value } => text_faithful(*value),
        ValueView::Array { element_kind, elements } => kind_text_faithful(element_kind) && (
        forall|i: int|
            0 <= i < elements.len() ==> crate::value::view_kind(#[trigger] elements[i])
                == element_kind && text_faithful(elements[i])),
        ValueView::MapValue { key_value_kind, value_value_kind, entries } => kind_text_faithful(
            key_value_kind,
        ) && kind_text_faithful(value_value_kind) && (forall|i: int|
            0 <= i < entries.len() ==> crate::value::view_kind(#[trigger] entries[i].0)
                == key_value_kind && crate::value::view_kind(entries[i].1) == value_value_kind
                && text_faithful(entries[i].0) && text_faithful(entries[i].1)),
        ValueView::Tuple { elements } => forall|i: int|
            0 <= i < elements.len() ==> text_faithful(#[trigger] elements[i]),
        ValueView::Decimal { value } => is_decimal_string(value),
        ValueView::PreciseDecimal { value } => is_decimal_string(value),
        ValueView::Own { .. } => false,
        ValueView::ComponentAddress { .. } => false,
        ValueView::ResourceAddress { .. } => false,
        ValueView::PackageAddress { .. } => false,
        ValueView::NonFungibleGlobalId { .. } => false,
        ValueView::Hash { value } => value.len() == 32,
        ValueView::EcdsaSecp256k1PublicKey { public_key } => public_key.len() == 33,
        ValueView::EcdsaSecp256k1Signature { signature } => signature.len() == 65,
        ValueView::EddsaEd25519PublicKey { public_key } => public_key.len() == 32,
        ValueView::EddsaEd25519Signature { signature } => signature.len() == 64,
        ValueView::Blob { hash } => hash.len() == 32,
        _ => true,
    }
}

/// Textual round trip: a text-faithful value renders without error, and
/// parsing the rendering on the same network gives back exactly the value.
/// Textual round trip for the byte-carrying leaf kinds.
#[verifier::spinoff_prover]
proof fn lemma_text_round_trip_hex(v: ValueView, n: u8)
    requires
        text_faithful(v),
        v is Hash || v is EcdsaSecp256k1PublicKey || v is EcdsaSecp256k1Signature || v
            is EddsaEd25519PublicKey || v is EddsaEd25519Signature || v is Blob || v is Bytes,
    ensures
        to_text_view(v, n) is Ok,
        from_text_view(to_text_view(v, n)->Ok_0, n) == Ok::<ValueView, ErrorView>(v),
{
    match v {
        ValueView::Hash { value } => {
            crate::strings::lemma_hex_of_len(value);
            crate::strings::lemma_hex_round_trip(value);
        },
        ValueView::EcdsaSecp256k1PublicKey { public_key } => {
            crate::strings::lemma_hex_of_len(public_key);
            crate::strings::lemma_hex_round_trip(public_key);
        },
        ValueView::EcdsaSecp256k1Signature { signature } => {
            crate::strings::lemma_hex_of_len(signature);
            crate::strings::lemma_hex_round_trip(signature);
        },
        ValueView::EddsaEd25519PublicKey { public_key } => {
            crate::strings::lemma_hex_of_len(public_key);
            crate::strings::lemma_hex_round_trip(public_key);
        },
        ValueView::EddsaEd25519Signature { signature } => {
            crate::strings::lemma_hex_of_len(signature);
            crate::strings::lemma_hex_round_trip(signature);
        },
        ValueView::Blob { hash } => {
            crate::strings::lemma_hex_of_len(hash);
            crate::strings::lemma_hex_round_trip(hash);
        },
        ValueView::Bytes { value } => {
            crate::strings::lemma_hex_of_len(value);
            crate::strings::lemma_hex_round_trip(value);
        },
        _ => {},
    }
}

/// Textual round trip for the string-literal leaf kinds.
#[verifier::spinoff_prover]
proof fn lemma_text_round_trip_literal(v: ValueView, n: u8)
    requires
        text_faithful(v),
        v is Decimal || v is PreciseDecimal || v is NonFungibleLocalId || v is Expression,
    ensures
        to_text_view(v, n) is Ok,
        from_text_view(to_text_view(v, n)->Ok_0, n) == Ok::<ValueView, ErrorView>(v),
{
    match v {
        ValueView::NonFungibleLocalId { value } => {
            lemma_nflid_round_trip(value);
        },
        ValueView::Expression { value } => {
            reveal_strlit("ENTIRE_WORKTOP");
            reveal_strlit("ENTIRE_AUTH_ZONE");
            assert("ENTIRE_WORKTOP"@.len() != "ENTIRE_AUTH_ZONE"@.len());
        },
        _ => {},
    }
}

/// Textual round trip for the remaining leaf kinds.
#[verifier::spinoff_prover]
proof fn lemma_text_round_trip_plain(v: ValueView, n: u8)
    requires
        text_faithful(v),
        !(v is Enum || v is OptionSome || v is ResultOk || v is ResultErr || v is Array || v
            is MapValue || v is Tuple || v is Hash || v is EcdsaSecp256k1PublicKey || v
            is EcdsaSecp256k1Signature || v is EddsaEd25519PublicKey || v
            is EddsaEd25519Signature || v is Blob || v is Bytes || v is Decimal || v
            is PreciseDecimal || v is NonFungibleLocalId || v is Expression),
    ensures
        to_text_view(v, n) is Ok,
        from_text_view(to_text_view(v, n)->Ok_0, n) == Ok::<ValueView, ErrorView>(v),
{
}

/// Textual round trip: a text-faithful value renders without error, and
/// parsing the rendering on the same network gives back exactly the value.
#[verifier::rlimit(100)]
#[verifier::spinoff_prover]
pub proof fn lemma_text_round_trip(v: ValueView, n: u8)
    requires
        text_faithful(v),
    ensures
        to_text_view(v, n) is Ok,
        from_text_view(to_text_view(v, n)->Ok_0, n) == Ok::<ValueView, ErrorView>(v),
    decreases v,
{
    let ghost goal = from_text_view(to_text_view(v, n)->Ok_0, n);
    match v {
        ValueView::Enum { variant, fields } => {
            match fields {
                Some(fs) => {
                    lemma_text_round_trip_seq(fs, n);
                    let ghost d = crate::value::resolve_view(variant)->Some_0;
                    let ghost ts = to_text_seq_view(fs, n)->Ok_0;
                    assert(goal == Ok::<ValueView, ErrorView>(v)) by {
                        assert(to_text_view(v, n) == Ok::<_, ErrorView>(
                            crate::text::TextValueView::Enum(d, ts),
                        ));
                        assert(ts.len() == fs.len());
                        assert(from_text_seq_view(ts, n) == Ok::<Seq<ValueView>, ErrorView>(fs));
                        assert(goal == Ok::<ValueView, ErrorView>(
                            ValueView::Enum {
                                variant: crate::value::DiscriminatorView::U8 { discriminator: d },
                                fields: Some(fs),
                            },
                        ));
                        assert(variant == (crate::value::DiscriminatorView::U8 {
                            discriminator: d,
                        }));
                        assert(fields == Some(fs));
                        assert(v == (ValueView::Enum { variant, fields }));
                        assert((ValueView::Enum {
                            variant: crate::value::DiscriminatorView::U8 { discriminator: d },
                            fields: Some(fs),
                        }) == (ValueView::Enum { variant, fields }));
                    }
                },
                None => {
                    assert(from_text_seq_view(Seq::empty(), n) == Ok::<
                        Seq<ValueView>,
                        ErrorView,
                    >(Seq::empty()));
                    assert(goal == Ok::<ValueView, ErrorView>(v));
                },
            }
        },
        ValueView::OptionSome { value } => {
            lemma_text_round_trip(*value, n);
            assert(goal == Ok::<ValueView, ErrorView>(v));
        },
        ValueView::ResultOk { value } => {
            lemma_text_round_trip(*value, n);
            assert(goal == Ok::<ValueView, ErrorView>(v));
        },
        ValueView::ResultErr { value } => {
            lemma_text_round_trip(*value, n);
            assert(goal == Ok::<ValueView, ErrorView>(v));
        },
        ValueView::Array { element_kind, elements } => {
            lemma_text_round_trip_elements(element_kind, elements, n);
            assert(goal == Ok::<ValueView, ErrorView>(v));
        },
        ValueView::MapValue { key_value_kind, value_value_kind, entries } => {
            lemma_text_round_trip_entries(key_value_kind, value_value_kind, entries, n);
            assert(goal == Ok::<ValueView, ErrorView>(v));
        },
        ValueView::Tuple { elements } => {
            lemma_text_round_trip_seq(elements, n);
            assert(goal == Ok::<ValueView, ErrorView>(v));
        },
        ValueView::Hash { .. } => lemma_text_round_trip_hex(v, n),
        ValueView::EcdsaSecp256k1PublicKey { .. } => lemma_text_round_trip_hex(v, n),
        ValueView::EcdsaSecp256k1Signature { .. } => lemma_text_round_trip_hex(v, n),
        ValueView::EddsaEd25519PublicKey { .. } => lemma_text_round_trip_hex(v, n),
        ValueView::EddsaEd25519Signature { .. } => lemma_text_round_trip_hex(v, n),
        ValueView::Blob { .. } => lemma_text_round_trip_hex(v, n),
        ValueView::Bytes { .. } => lemma_text_round_trip_hex(v, n),
        ValueView::Decimal { .. } => lemma_text_round_trip_literal(v, n),
        ValueView::PreciseDecimal { .. } => lemma_text_round_trip_literal(v, n),
        ValueView::NonFungibleLocalId { .. } => lemma_text_round_trip_literal(v, n),
        ValueView::Expression { .. } => lemma_text_round_trip_literal(v, n),
        _ => lemma_text_round_trip_plain(v, n),
    }
}

/// Textual round trip for plain node sequences.
pub proof fn lemma_text_round_trip_seq(s: Seq<ValueView>, n: u8)
    requires
        forall|i: int| 0 <= i < s.len() ==> text_faithful(#[trigger] s[i]),
    ensures
        to_text_seq_view(s, n) is Ok,
        to_text_seq_view(s, n)->Ok_0.len() == s.len(),
        from_text_seq_view(to_text_seq_view(s, n)->Ok_0, n) == Ok::<Seq<ValueView>, ErrorView>(s),
    decreases s,
{
    if s.len() == 0 {
        assert(from_text_seq_view(Seq::empty(), n) == Ok::<Seq<ValueView>, ErrorView>(
            Seq::empty(),
        ));
        assert(Seq::<ValueView>::empty() =~= s);
    } else {
        lemma_text_round_trip_seq(s.drop_last(), n);
        lemma_text_round_trip(s.last(), n);
        let ts = to_text_seq_view(s.drop_last(), n)->Ok_0;
        let t = to_text_view(s.last(), n)->Ok_0;
        assert(ts.push(t).drop_last() =~= ts);
        assert(s.drop_last().push(s.last()) =~= s);
    }
}

/// Textual round trip for homogeneous element sequences under a faithful
/// declared kind.
pub proof fn lemma_text_round_trip_elements(kind: ValueKind, s: Seq<ValueView>, n: u8)
    requires
        kind_text_faithful(kind),
        forall|i: int| 0 <= i < s.len() ==> crate::value::view_kind(#[trigger] s[i]) == kind
            && text_faithful(s[i]),
    ensures
        to_text_seq_view(s, n) is Ok,
        to_text_seq_view(s, n)->Ok_0.len() == s.len(),
        from_text_elements_view(kind, to_text_seq_view(s, n)->Ok_0, n) == Ok::<
            Seq<ValueView>,
            ErrorView,
        >(s),
    decreases s,
{
    if s.len() == 0 {
        assert(Seq::<ValueView>::empty() =~= s);
    } else {
        lemma_text_round_trip_elements(kind, s.drop_last(), n);
        lemma_text_round_trip(s.last(), n);
        let ts = to_text_seq_view(s.drop_last(), n)->Ok_0;
        let t = to_text_view(s.last(), n)->Ok_0;
        assert(ts.push(t).drop_last() =~= ts);
        assert(s.drop_last().push(s.last()) =~= s);
    }
}

/// Textual round trip for map entries under faithful declared kinds.
pub proof fn lemma_text_round_trip_entries(
    key_kind: ValueKind,
    value_kind: ValueKind,
    s: Seq<(ValueView, ValueView)>,
    n: u8,
)
    requires
        kind_text_faithful(key_kind),
        kind_text_faithful(value_kind),
        forall|i: int| 0 <= i < s.len() ==> crate::value::view_kind(#[trigger] s[i].0) == key_kind
            && crate::value::view_kind(s[i].1) == value_kind && text_faithful(s[i].0)
            && text_faithful(s[i].1),
    ensures
        to_text_pairs_view(s, n) is Ok,
        to_text_pairs_view(s, n)->Ok_0.len() == 2 * s.len(),
        from_text_entries_view(key_kind, value_kind, to_text_pairs_view(s, n)->Ok_0, n) == Ok::<
            Seq<(ValueView, ValueView)>,
            ErrorView,
        >(s),
    decreases s,
{
    if s.len() == 0 {
        assert(Seq::<(ValueView, ValueView)>::empty() =~= s);
    } else {
        lemma_text_round_trip_entries(key_kind, value_kind, s.drop_last(), n);
        lemma_text_round_trip(s.last().0, n);
        lemma_text_round_trip(s.last().1, n);
        let ts = to_text_pairs_view(s.drop_last(), n)->Ok_0;
        let tk = to_text_view(s.last().0, n)->Ok_0;
        let tv = to_text_view(s.last().1, n)->Ok_0;
        let flat = ts.push(tk).push(tv);
        assert(flat.subrange(0, flat.len() - 2) =~= ts);
        assert(flat[flat.len() - 2] == tk);
        assert(flat[flat.len() - 1] == tv);
        assert(s.drop_last().push(s.last()) =~= s);
    }
}

} // verus!
