//! The textual AST form of values.
//!
//! A [`TextValue`] models one node of the human-readable instruction-argument
//! syntax: every domain-specific kind renders as a typed literal wrapping an
//! inner node, most often a string. Addresses render through the external
//! bech32m codec; byte payloads render as hexadecimal text.

use vstd::prelude::*;

use crate::address::{NetworkAwareAddress, ADDRESS_LENGTH};
use crate::error::{Error, ErrorView, result_view};
use crate::strings::{
    dec_str_of, dec_char_val, dec_val_of, hex_of, is_dec_seq, string_push_char,
    u64_to_dec_string,
};
use crate::value::{
    DiscriminatorView, EnumDiscriminator, TransientIdentifier, TransientIdentifierView, Value,
    ValueKind, ValueView, entry_views_of, lemma_entry_views_of, lemma_resolve_view,
    lemma_views_of, resolve_view, value_view, views_of,
};

verus! {

/// What the external bech32m codec renders for a human-readable part and a
/// data payload: a function of the two arguments alone.
pub uninterp spec fn bech32m_of(hrp: Seq<char>, data: Seq<u8>) -> Seq<char>;

/// What the external bech32m codec decodes a string to, if anything: a
/// function of the string alone.
pub uninterp spec fn bech32m_decode_of(s: Seq<char>) -> Option<(Seq<char>, Seq<u8>)>;

/// A human-readable part the bech32m codec accepts without error: short
/// enough and built of lowercase letters, digits and underscores.
pub open spec fn valid_hrp(h: Seq<char>) -> bool {
    1 <= h.len() <= 83 && forall|i: int|
        0 <= i < h.len() ==> ('a' <= #[trigger] h[i] && h[i] <= 'z') || ('0' <= h[i] && h[i]
            <= '9') || h[i] == '_'
}

/// Relies on bech32::encode with the bech32m variant and bech32::ToBase32
/// for bytes: the rendering depends on the human-readable part and the data
/// alone, and a valid human-readable part is never rejected.
#[verifier::external_body]
fn bech32m_encode(hrp: &String, data: &Vec<u8>) -> (r: String)
    requires
        valid_hrp(hrp@),
    ensures
        r@ == bech32m_of(hrp@, data@),
{
    match bech32::encode(
        hrp.as_str(),
        bech32::ToBase32::to_base32(data),
        bech32::Variant::Bech32m,
    ) {
        Ok(s) => s,
        Err(_) => String::new(),
    }
}

/// Relies on bech32::decode and bech32::FromBase32 for bytes: decoding
/// depends on the string alone, and decoding inverts encoding.
#[verifier::external_body]
fn bech32m_decode(s: &String) -> (r: Option<(String, Vec<u8>)>)
    ensures
        match r {
            Some(p) => bech32m_decode_of(s@) == Some((p.0@, p.1@)) && (forall|
                h: Seq<char>,
                d: Seq<u8>,
            | valid_hrp(h) && s@ == bech32m_of(h, d) ==> h == p.0@ && d == p.1@),
            None => bech32m_decode_of(s@) is None && (forall|h: Seq<char>, d: Seq<u8>|
                valid_hrp(h) ==> s@ != bech32m_of(h, d)),
        },
{
    match bech32::decode(s.as_str()) {
        Ok((hrp, data, bech32::Variant::Bech32m)) => {
            match <Vec<u8> as bech32::FromBase32>::from_base32(&data) {
                Ok(bytes) => Some((hrp, bytes)),
                Err(_) => None,
            }
        },
        _ => None,
    }
}

/// The suffix of a network's human-readable address part: well-known names
/// for the main and simulator networks, a numbered test-network form
/// otherwise.
pub open spec fn hrp_suffix_spec(n: u8) -> Seq<char> {
    if n == 1 {
        "rdx"@
    } else if n == 242 {
        "sim"@
    } else {
        "tdx_"@ + dec_str_of(n as nat) + "_"@
    }
}

/// The full human-readable part of an address: an entity prefix plus the
/// network suffix.
pub open spec fn address_hrp_spec(prefix: Seq<char>, n: u8) -> Seq<char> {
    prefix + hrp_suffix_spec(n)
}

/// A lowercase alphanumeric-or-underscore prefix of bounded length yields a
/// valid human-readable part for every network.
pub proof fn lemma_prefixed_hrp_valid(prefix: Seq<char>, n: u8)
    requires
        1 <= prefix.len() <= 70,
        forall|i: int| 0 <= i < prefix.len() ==> ('a' <= #[trigger] prefix[i] && prefix[i] <= 'z')
            || prefix[i] == '_',
    ensures
        valid_hrp(address_hrp_spec(prefix, n)),
{
    reveal_strlit("rdx");
    reveal_strlit("sim");
    reveal_strlit("tdx_");
    reveal_strlit("_");
    crate::strings::lemma_dec_str_of_digits(n as nat);
    crate::strings::lemma_dec_str_of_u8_len(n as nat);
    let h = address_hrp_spec(prefix, n);
    assert forall|i: int| 0 <= i < h.len() implies ('a' <= #[trigger] h[i] && h[i] <= 'z') || ('0'
        <= h[i] && h[i] <= '9') || h[i] == '_' by {
        if i >= prefix.len() {
            let s = hrp_suffix_spec(n);
            let j = i - prefix.len();
            assert(s[j] == h[i]);
            if n == 1 || n == 242 {
            } else {
                if 4 <= j < 4 + dec_str_of(n as nat).len() {
                    assert(s[j] == dec_str_of(n as nat)[j - 4]);
                    assert(dec_char_val(dec_str_of(n as nat)[j - 4]) < 10);
                }
            }
        }
    }
}

/// Renders the network suffix of a human-readable address part.
pub fn hrp_suffix(n: u8) -> (r: String)
    ensures
        r@ == hrp_suffix_spec(n),
{
    if n == 1 {
        String::from_str("rdx")
    } else if n == 242 {
        String::from_str("sim")
    } else {
        let mut s = String::from_str("tdx_");
        let d = u64_to_dec_string(n as u64);
        s.append(d.as_str());
        s.append("_");
        s
    }
}

/// Renders the full human-readable part of an address.
pub fn address_hrp(prefix: &str, n: u8) -> (r: String)
    ensures
        r@ == address_hrp_spec(prefix@, n),
{
    let mut s = String::from_str(prefix);
    let suffix = hrp_suffix(n);
    s.append(suffix.as_str());
    s
}

/// The textual rendering of an address under an entity prefix on a network.
pub open spec fn address_str_spec(prefix: Seq<char>, n: u8, raw: Seq<u8>) -> Seq<char> {
    bech32m_of(address_hrp_spec(prefix, n), raw)
}

/// Renders a component address for a network.
pub fn component_address_string(raw: &Vec<u8>, n: u8) -> (r: String)
    ensures
        r@ == address_str_spec("component_"@, n, raw@),
{
    proof {
        reveal_strlit("component_");
        lemma_prefixed_hrp_valid("component_"@, n);
    }
    let hrp = address_hrp("component_", n);
    bech32m_encode(&hrp, raw)
}

/// Renders a resource address for a network.
pub fn resource_address_string(raw: &Vec<u8>, n: u8) -> (r: String)
    ensures
        r@ == address_str_spec("resource_"@, n, raw@),
{
    proof {
        reveal_strlit("resource_");
        lemma_prefixed_hrp_valid("resource_"@, n);
    }
    let hrp = address_hrp("resource_", n);
    bech32m_encode(&hrp, raw)
}

/// Renders a package address for a network.
pub fn package_address_string(raw: &Vec<u8>, n: u8) -> (r: String)
    ensures
        r@ == address_str_spec("package_"@, n, raw@),
{
    proof {
        reveal_strlit("package_");
        lemma_prefixed_hrp_valid("package_"@, n);
    }
    let hrp = address_hrp("package_", n);
    bech32m_encode(&hrp, raw)
}

/// The textual literal of a non-fungible local id: integers between number
/// signs, names between angle brackets, bytes between square brackets as
/// hexadecimal, uuids between braces as thirty-two hexadecimal digits.
pub open spec fn nflid_str_spec(v: crate::value::NonFungibleLocalIdView) -> Seq<char> {
    match v {
        crate::value::NonFungibleLocalIdView::Integer { value } => seq!['#'] + dec_str_of(
            value as nat,
        ) + seq!['#'],
        crate::value::NonFungibleLocalIdView::String { value } => seq!['<'] + value + seq!['>'],
        crate::value::NonFungibleLocalIdView::Bytes { value } => seq!['['] + hex_of(value)
            + seq![']'],
        crate::value::NonFungibleLocalIdView::UUID { value } => seq!['{'] + crate::strings::hex_str_fixed(
            value as nat,
            32,
        ) + seq!['}'],
    }
}

/// Renders a non-fungible local id literal.
pub fn nflid_to_string(v: &crate::value::NonFungibleLocalId) -> (r: String)
    ensures
        r@ == nflid_str_spec(v@),
{
    match v {
        crate::value::NonFungibleLocalId::Integer { value } => {
            let mut s = String::new();
            string_push_char(&mut s, '#');
            let d = u64_to_dec_string(*value);
            s.append(d.as_str());
            string_push_char(&mut s, '#');
            proof {
                assert(s@ =~= nflid_str_spec(v@));
            }
            s
        },
        crate::value::NonFungibleLocalId::String { value } => {
            let mut s = String::new();
            string_push_char(&mut s, '<');
            s.append(value.as_str());
            string_push_char(&mut s, '>');
            proof {
                assert(s@ =~= nflid_str_spec(v@));
            }
            s
        },
        crate::value::NonFungibleLocalId::Bytes { value } => {
            let mut s = String::new();
            string_push_char(&mut s, '[');
            let h = crate::strings::hex_encode(value);
            s.append(h.as_str());
            string_push_char(&mut s, ']');
            proof {
                assert(s@ =~= nflid_str_spec(v@));
            }
            s
        },
        crate::value::NonFungibleLocalId::UUID { value } => {
            let mut s = String::new();
            string_push_char(&mut s, '{');
            let d = crate::strings::u128_to_hex_fixed(*value, 32);
            s.append(d.as_str());
            string_push_char(&mut s, '}');
            proof {
                assert(s@ =~= nflid_str_spec(v@));
            }
            s
        },
    }
}

/// The textual literal of an owned node: its class name, a colon, and its
/// identifier in decimal or hexadecimal.
pub open spec fn own_str_spec(v: crate::value::OwnedNodeView) -> Seq<char> {
    match v {
        crate::value::OwnedNodeView::Bucket { id } => "bucket:"@ + dec_str_of(id as nat),
        crate::value::OwnedNodeView::Proof { id } => "proof:"@ + dec_str_of(id as nat),
        crate::value::OwnedNodeView::Vault { id } => "vault:"@ + hex_of(id),
        crate::value::OwnedNodeView::Object { id } => "object:"@ + hex_of(id),
        crate::value::OwnedNodeView::KeyValueStore { id } => "kvstore:"@ + hex_of(id),
    }
}

/// Renders an owned-node literal.
pub fn own_to_string(v: &crate::value::OwnedNode) -> (r: String)
    ensures
        r@ == own_str_spec(v@),
{
    match v {
        crate::value::OwnedNode::Bucket { id } => {
            let mut s = String::from_str("bucket:");
            let d = u64_to_dec_string(*id as u64);
            s.append(d.as_str());
            s
        },
        crate::value::OwnedNode::Proof { id } => {
            let mut s = String::from_str("proof:");
            let d = u64_to_dec_string(*id as u64);
            s.append(d.as_str());
            s
        },
        crate::value::OwnedNode::Vault { id } => {
            let mut s = String::from_str("vault:");
            let h = crate::strings::hex_encode(id);
            s.append(h.as_str());
            s
        },
        crate::value::OwnedNode::Object { id } => {
            let mut s = String::from_str("object:");
            let h = crate::strings::hex_encode(id);
            s.append(h.as_str());
            s
        },
        crate::value::OwnedNode::KeyValueStore { id } => {
            let mut s = String::from_str("kvstore:");
            let h = crate::strings::hex_encode(id);
            s.append(h.as_str());
            s
        },
    }
}

/// The textual literal of a manifest expression.
pub open spec fn expression_str_spec(v: crate::value::ManifestExpression) -> Seq<char> {
    match v {
        crate::value::ManifestExpression::EntireWorktop => "ENTIRE_WORKTOP"@,
        crate::value::ManifestExpression::EntireAuthZone => "ENTIRE_AUTH_ZONE"@,
    }
}

/// Renders a manifest expression literal.
pub fn expression_to_string(v: &crate::value::ManifestExpression) -> (r: String)
    ensures
        r@ == expression_str_spec(*v),
{
    match v {
        crate::value::ManifestExpression::EntireWorktop => String::from_str("ENTIRE_WORKTOP"),
        crate::value::ManifestExpression::EntireAuthZone => String::from_str("ENTIRE_AUTH_ZONE"),
    }
}

/// The number of dot characters in a sequence.
pub open spec fn count_dots(s: Seq<char>) -> nat
    decreases s,
{
    if s.len() == 0 {
        0
    } else {
        count_dots(s.drop_last()) + if s.last() == '.' {
            1nat
        } else {
            0nat
        }
    }
}

/// The part of a decimal literal after its optional sign.
pub open spec fn decimal_body(s: Seq<char>) -> Seq<char> {
    if s.len() > 0 && (s[0] == '-' || s[0] == '+') {
        s.subrange(1, s.len() as int)
    } else {
        s
    }
}

/// An unsigned decimal body: digits with at most one dot among them, ending
/// in a digit.
pub open spec fn decimal_body_ok(body: Seq<char>) -> bool {
    body.len() > 0 && dec_char_val(body.last()) < 10 && count_dots(body) <= 1 && forall|i: int|
        0 <= i < body.len() ==> dec_char_val(#[trigger] body[i]) < 10 || body[i] == '.'
}

/// A decimal literal: an optional sign, then digits with at most one dot
/// among them, ending in a digit.
pub open spec fn is_decimal_string(s: Seq<char>) -> bool {
    decimal_body_ok(decimal_body(s))
}

/// Counting dots of a prefix extended by one character.
proof fn lemma_count_dots_step(s: Seq<char>, i: int)
    requires
        0 <= i < s.len(),
    ensures
        count_dots(s.take(i + 1)) == count_dots(s.take(i)) + if s[i] == '.' {
            1nat
        } else {
            0nat
        },
{
    assert(s.take(i + 1).drop_last() =~= s.take(i));
    assert(s.take(i + 1).last() == s[i]);
}

/// Checks a string against the decimal literal grammar.
pub fn check_decimal_string(s: &String) -> (r: bool)
    ensures
        r == is_decimal_string(s@),
{
    let t = s.as_str();
    let len = t.unicode_len();
    let start: usize = if len > 0 {
        let c0 = t.get_char(0);
        if c0 == '-' || c0 == '+' {
            1
        } else {
            0
        }
    } else {
        0
    };
    let ghost body = decimal_body(s@);
    proof {
        assert(body =~= s@.subrange(start as int, s@.len() as int));
    }
    if start >= len {
        return false;
    }
    let last = t.get_char(len - 1);
    let ghost lastg = s@[len - 1];
    proof {
        assert(body.last() == lastg);
    }
    let last_ok = last == '0' || last == '1' || last == '2' || last == '3' || last == '4' || last
        == '5' || last == '6' || last == '7' || last == '8' || last == '9';
    if !last_ok {
        proof {
            assert(dec_char_val(body.last()) >= 10);
        }
        return false;
    }
    let mut dots: usize = 0;
    let mut i: usize = start;
    while i < len
        invariant
            start <= i <= len,
            t@ == s@,
            len == s@.len(),
            start + body.len() == len,
            body == s@.subrange(start as int, s@.len() as int),
            body == decimal_body(s@),
            dots as nat == count_dots(body.take(i - start)),
            dots <= i,
            forall|j: int| 0 <= j < i - start ==> dec_char_val(#[trigger] body[j]) < 10 || body[j]
                == '.',
        decreases len - i,
    {
        let c = t.get_char(i);
        proof {
            assert(body[i - start] == s@[i as int]);
            lemma_count_dots_step(body, i - start);
        }
        if c == '.' {
            dots = dots + 1;
        } else if c == '0' || c == '1' || c == '2' || c == '3' || c == '4' || c == '5' || c == '6'
            || c == '7' || c == '8' || c == '9' {
        } else {
            proof {
                assert(dec_char_val(body[i - start]) >= 10 && body[i - start] != '.');
                assert(!decimal_body_ok(body));
            }
            return false;
        }
        i = i + 1;
    }
    proof {
        assert(body.take(len - start) =~= body);
    }
    dots <= 1
}

/// What a non-fungible local id literal denotes, if anything: an integer
/// between number signs, a name between angle brackets, hexadecimal bytes
/// between square brackets, or a decimal uuid between braces.
pub open spec fn nflid_parse_spec(s: Seq<char>) -> Option<crate::value::NonFungibleLocalIdView> {
    if s.len() < 2 {
        None
    } else {
        let mid = s.subrange(1, s.len() - 1);
        if s[0] == '#' && s.last() == '#' {
            if is_dec_seq(mid) && dec_val_of(mid) <= u64::MAX {
                Some(
                    crate::value::NonFungibleLocalIdView::Integer {
                        value: dec_val_of(mid) as u64,
                    },
                )
            } else {
                None
            }
        } else if s[0] == '<' && s.last() == '>' {
            Some(crate::value::NonFungibleLocalIdView::String { value: mid })
        } else if s[0] == '[' && s.last() == ']' {
            if crate::strings::is_hex_seq(mid) {
                Some(
                    crate::value::NonFungibleLocalIdView::Bytes {
                        value: crate::strings::hex_bytes_of(mid),
                    },
                )
            } else {
                None
            }
        } else if s[0] == '{' && s.last() == '}' {
            if mid.len() <= 32 && crate::strings::is_hex_digits(mid) {
                Some(
                    crate::value::NonFungibleLocalIdView::UUID {
                        value: crate::strings::hex_val_of(mid) as u128,
                    },
                )
            } else {
                None
            }
        } else {
            None
        }
    }
}

/// Parses a non-fungible local id literal.
pub fn parse_nflid(s: &String) -> (r: Option<crate::value::NonFungibleLocalId>)
    ensures
        match r {
            Some(v) => nflid_parse_spec(s@) == Some(v@),
            None => nflid_parse_spec(s@) is None,
        },
{
    let t = s.as_str();
    let len = t.unicode_len();
    if len < 2 {
        return None;
    }
    let first = t.get_char(0);
    let last = t.get_char(len - 1);
    let ghost mid = s@.subrange(1, s@.len() - 1);
    if first == '#' && last == '#' {
        proof {
            assert(mid =~= s@.subrange(1, len - 1));
        }
        match crate::strings::parse_u64_dec(t, 1, len - 1) {
            Some(v) => Some(crate::value::NonFungibleLocalId::Integer { value: v }),
            None => None,
        }
    } else if first == '<' && last == '>' {
        let midstr = t.substring_char(1, len - 1);
        Some(crate::value::NonFungibleLocalId::String { value: midstr.to_owned() })
    } else if first == '[' && last == ']' {
        let midstr = t.substring_char(1, len - 1);
        match crate::strings::hex_decode(&midstr.to_owned()) {
            Some(b) => Some(crate::value::NonFungibleLocalId::Bytes { value: b }),
            None => None,
        }
    } else if first == '{' && last == '}' {
        proof {
            assert(mid =~= s@.subrange(1, len - 1));
        }
        if len - 2 > 32 {
            return None;
        }
        match crate::strings::parse_u128_hex(t, 1, len - 1) {
            Some(v) => Some(crate::value::NonFungibleLocalId::UUID { value: v }),
            None => None,
        }
    } else {
        None
    }
}

/// The position of the first occurrence of a character, or negative one.
pub open spec fn first_index_of(s: Seq<char>, c: char) -> int
    decreases s.len(),
{
    if s.len() == 0 {
        -1
    } else if s[0] == c {
        0
    } else {
        let r = first_index_of(s.subrange(1, s.len() as int), c);
        if r == -1 {
            -1
        } else {
            r + 1
        }
    }
}

/// A position bearing the character with a clean prefix is the first.
proof fn lemma_first_index_is(s: Seq<char>, c: char, i: int)
    requires
        0 <= i < s.len(),
        s[i] == c,
        forall|j: int| 0 <= j < i ==> s[j] != c,
    ensures
        first_index_of(s, c) == i,
    decreases i,
{
    if i > 0 {
        let rest = s.subrange(1, s.len() as int);
        assert(rest[i - 1] == c);
        assert forall|j: int| 0 <= j < i - 1 implies rest[j] != c by {
            assert(rest[j] == s[j + 1]);
        }
        lemma_first_index_is(rest, c, i - 1);
    }
}

/// A sequence without the character has no first occurrence.
proof fn lemma_first_index_none(s: Seq<char>, c: char)
    requires
        forall|j: int| 0 <= j < s.len() ==> s[j] != c,
    ensures
        first_index_of(s, c) == -1,
    decreases s.len(),
{
    if s.len() > 0 {
        let rest = s.subrange(1, s.len() as int);
        assert forall|j: int| 0 <= j < rest.len() implies rest[j] != c by {
            assert(rest[j] == s[j + 1]);
        }
        lemma_first_index_none(rest, c);
    }
}

/// Finds the first occurrence of a character.
pub fn find_char(s: &str, c: char) -> (r: Option<usize>)
    ensures
        match r {
            Some(i) => first_index_of(s@, c) == i as int && i < s@.len(),
            None => first_index_of(s@, c) == -1,
        },
{
    let len = s.unicode_len();
    let mut i: usize = 0;
    while i < len
        invariant
            0 <= i <= len,
            len == s@.len(),
            forall|j: int| 0 <= j < i ==> s@[j] != c,
        decreases len - i,
    {
        if s.get_char(i) == c {
            proof {
                lemma_first_index_is(s@, c, i as int);
            }
            return Some(i);
        }
        i = i + 1;
    }
    proof {
        lemma_first_index_none(s@, c);
    }
    None
}

/// Builds a one-element kind vector.
pub fn kind_vec1(k: ValueKind) -> (r: Vec<ValueKind>)
    ensures
        r@ == seq![k],
{
    let mut v: Vec<ValueKind> = Vec::new();
    v.push(k);
    proof {
        assert(v@ =~= seq![k]);
    }
    v
}

/// Builds a two-element kind vector.
pub fn kind_vec2(a: ValueKind, b: ValueKind) -> (r: Vec<ValueKind>)
    ensures
        r@ == seq![a, b],
{
    let mut v: Vec<ValueKind> = Vec::new();
    v.push(a);
    v.push(b);
    proof {
        assert(v@ =~= seq![a, b]);
    }
    v
}

/// The node kind of every [`TextValue`] variant. The textual syntax has no
/// map kind of its own: maps print under the array kind.
#[derive(Debug, Clone, Copy, PartialEq, Eq, Structural)]
pub enum TextKind {
    Bool,
    U8,
    U16,
    U32,
    U64,
    U128,
    I8,
    I16,
    I32,
    I64,
    I128,
    String,
    Enum,
    Array,
    Tuple,
    Decimal,
    PreciseDecimal,
    Own,
    ComponentAddress,
    ResourceAddress,
    PackageAddress,
    Hash,
    EcdsaSecp256k1PublicKey,
    EcdsaSecp256k1Signature,
    EddsaEd25519PublicKey,
    EddsaEd25519Signature,
    Bucket,
    Proof,
    NonFungibleLocalId,
    NonFungibleGlobalId,
    Expression,
    Blob,
    Bytes,
}

/// One node of the textual AST.
#[derive(Debug, PartialEq, Eq)]
pub enum TextValue {
    Bool(bool),
    U8(u8),
    U16(u16),
    U32(u32),
    U64(u64),
    U128(u128),
    I8(i8),
    I16(i16),
    I32(i32),
    I64(i64),
    I128(i128),
    String(String),
    Enum(u8, Vec<TextValue>),
    OptionSome(Box<TextValue>),
    OptionNone,
    ResultOk(Box<TextValue>),
    ResultErr(Box<TextValue>),
    Array(TextKind, Vec<TextValue>),
    Tuple(Vec<TextValue>),
    MapValue(TextKind, TextKind, Vec<TextValue>),
    Decimal(Box<TextValue>),
    PreciseDecimal(Box<TextValue>),
    Own(Box<TextValue>),
    ComponentAddress(Box<TextValue>),
    ResourceAddress(Box<TextValue>),
    PackageAddress(Box<TextValue>),
    Hash(Box<TextValue>),
    EcdsaSecp256k1PublicKey(Box<TextValue>),
    EcdsaSecp256k1Signature(Box<TextValue>),
    EddsaEd25519PublicKey(Box<TextValue>),
    EddsaEd25519Signature(Box<TextValue>),
    Bucket(Box<TextValue>),
    Proof(Box<TextValue>),
    NonFungibleLocalId(Box<TextValue>),
    NonFungibleGlobalId(Box<TextValue>),
    Expression(Box<TextValue>),
    Blob(Box<TextValue>),
    Bytes(Box<TextValue>),
}

/// The mathematical model of a [`TextValue`].
pub enum TextValueView {
    Bool(bool),
    U8(u8),
    U16(u16),
    U32(u32),
    U64(u64),
    U128(u128),
    I8(i8),
    I16(i16),
    I32(i32),
    I64(i64),
    I128(i128),
    String(Seq<char>),
    Enum(u8, Seq<TextValueView>),
    OptionSome(Box<TextValueView>),
    OptionNone,
    ResultOk(Box<TextValueView>),
    ResultErr(Box<TextValueView>),
    Array(TextKind, Seq<TextValueView>),
    Tuple(Seq<TextValueView>),
    MapValue(TextKind, TextKind, Seq<TextValueView>),
    Decimal(Box<TextValueView>),
    PreciseDecimal(Box<TextValueView>),
    Own(Box<TextValueView>),
    ComponentAddress(Box<TextValueView>),
    ResourceAddress(Box<TextValueView>),
    PackageAddress(Box<TextValueView>),
    Hash(Box<TextValueView>),
    EcdsaSecp256k1PublicKey(Box<TextValueView>),
    EcdsaSecp256k1Signature(Box<TextValueView>),
    EddsaEd25519PublicKey(Box<TextValueView>),
    EddsaEd25519Signature(Box<TextValueView>),
    Bucket(Box<TextValueView>),
    Proof(Box<TextValueView>),
    NonFungibleLocalId(Box<TextValueView>),
    NonFungibleGlobalId(Box<TextValueView>),
    Expression(Box<TextValueView>),
    Blob(Box<TextValueView>),
    Bytes(Box<TextValueView>),
}

/// The model of a textual node.
pub open spec fn text_view(t: TextValue) -> TextValueView
    decreases t,
{
    match t {
        TextValue::Bool(v) => TextValueView::Bool(v),
        TextValue::U8(v) => TextValueView::U8(v),
        TextValue::U16(v) => TextValueView::U16(v),
        TextValue::U32(v) => TextValueView::U32(v),
        TextValue::U64(v) => TextValueView::U64(v),
        TextValue::U128(v) => TextValueView::U128(v),
        TextValue::I8(v) => TextValueView::I8(v),
        TextValue::I16(v) => TextValueView::I16(v),
        TextValue::I32(v) => TextValueView::I32(v),
        TextValue::I64(v) => TextValueView::I64(v),
        TextValue::I128(v) => TextValueView::I128(v),
        TextValue::String(v) => TextValueView::String(v@),
        TextValue::Enum(d, fields) => TextValueView::Enum(d, text_views_of(fields@)),
        TextValue::OptionSome(v) => TextValueView::OptionSome(Box::new(text_view(*v))),
        TextValue::OptionNone => TextValueView::OptionNone,
        TextValue::ResultOk(v) => TextValueView::ResultOk(Box::new(text_view(*v))),
        TextValue::ResultErr(v) => TextValueView::ResultErr(Box::new(text_view(*v))),
        TextValue::Array(k, elements) => TextValueView::Array(k, text_views_of(elements@)),
        TextValue::Tuple(elements) => TextValueView::Tuple(text_views_of(elements@)),
        TextValue::MapValue(kk, vk, nodes) => TextValueView::MapValue(
            kk,
            vk,
            text_views_of(nodes@),
        ),
        TextValue::Decimal(v) => TextValueView::Decimal(Box::new(text_view(*v))),
        TextValue::PreciseDecimal(v) => TextValueView::PreciseDecimal(Box::new(text_view(*v))),
        TextValue::Own(v) => TextValueView::Own(Box::new(text_view(*v))),
        TextValue::ComponentAddress(v) => TextValueView::ComponentAddress(
            Box::new(text_view(*v)),
        ),
        TextValue::ResourceAddress(v) => TextValueView::ResourceAddress(Box::new(text_view(*v))),
        TextValue::PackageAddress(v) => TextValueView::PackageAddress(Box::new(text_view(*v))),
        TextValue::Hash(v) => TextValueView::Hash(Box::new(text_view(*v))),
        TextValue::EcdsaSecp256k1PublicKey(v) => TextValueView::EcdsaSecp256k1PublicKey(
            Box::new(text_view(*v)),
        ),
        TextValue::EcdsaSecp256k1Signature(v) => TextValueView::EcdsaSecp256k1Signature(
            Box::new(text_view(*v)),
        ),
        TextValue::EddsaEd25519PublicKey(v) => TextValueView::EddsaEd25519PublicKey(
            Box::new(text_view(*v)),
        ),
        TextValue::EddsaEd25519Signature(v) => TextValueView::EddsaEd25519Signature(
            Box::new(text_view(*v)),
        ),
        TextValue::Bucket(v) => TextValueView::Bucket(Box::new(text_view(*v))),
        TextValue::Proof(v) => TextValueView::Proof(Box::new(text_view(*v))),
        TextValue::NonFungibleLocalId(v) => TextValueView::NonFungibleLocalId(
            Box::new(text_view(*v)),
        ),
        TextValue::NonFungibleGlobalId(v) => TextValueView::NonFungibleGlobalId(
            Box::new(text_view(*v)),
        ),
        TextValue::Expression(v) => TextValueView::Expression(Box::new(text_view(*v))),
        TextValue::Blob(v) => TextValueView::Blob(Box::new(text_view(*v))),
        TextValue::Bytes(v) => TextValueView::Bytes(Box::new(text_view(*v))),
    }
}

/// The models of a vector of textual nodes, in order.
pub open spec fn text_views_of(s: Seq<TextValue>) -> Seq<TextValueView>
    decreases s,
{
    if s.len() == 0 {
        Seq::empty()
    } else {
        text_views_of(s.drop_last()).push(text_view(s.last()))
    }
}

impl View for TextValue {
    type V = TextValueView;

    open spec fn view(&self) -> TextValueView {
        text_view(*self)
    }
}

/// `text_views_of` maps the sequence elementwise.
pub proof fn lemma_text_views_of(s: Seq<TextValue>)
    ensures
        text_views_of(s).len() == s.len(),
        forall|i: int| 0 <= i < s.len() ==> #[trigger] text_views_of(s)[i] == text_view(s[i]),
    decreases s,
{
    if s.len() > 0 {
        lemma_text_views_of(s.drop_last());
    }
}

/// The node kind of a textual model.
pub open spec fn text_view_kind(t: TextValueView) -> TextKind {
    match t {
        TextValueView::Bool(..) => TextKind::Bool,
        TextValueView::U8(..) => TextKind::U8,
        TextValueView::U16(..) => TextKind::U16,
        TextValueView::U32(..) => TextKind::U32,
        TextValueView::U64(..) => TextKind::U64,
        TextValueView::U128(..) => TextKind::U128,
        TextValueView::I8(..) => TextKind::I8,
        TextValueView::I16(..) => TextKind::I16,
        TextValueView::I32(..) => TextKind::I32,
        TextValueView::I64(..) => TextKind::I64,
        TextValueView::I128(..) => TextKind::I128,
        TextValueView::String(..) => TextKind::String,
        TextValueView::Enum(..) => TextKind::Enum,
        TextValueView::OptionSome(..) => TextKind::Enum,
        TextValueView::OptionNone => TextKind::Enum,
        TextValueView::ResultOk(..) => TextKind::Enum,
        TextValueView::ResultErr(..) => TextKind::Enum,
        TextValueView::Array(..) => TextKind::Array,
        TextValueView::Tuple(..) => TextKind::Tuple,
        TextValueView::MapValue(..) => TextKind::Array,
        TextValueView::Decimal(..) => TextKind::Decimal,
        TextValueView::PreciseDecimal(..) => TextKind::PreciseDecimal,
        TextValueView::Own(..) => TextKind::Own,
        TextValueView::ComponentAddress(..) => TextKind::ComponentAddress,
        TextValueView::ResourceAddress(..) => TextKind::ResourceAddress,
        TextValueView::PackageAddress(..) => TextKind::PackageAddress,
        TextValueView::Hash(..) => TextKind::Hash,
        TextValueView::EcdsaSecp256k1PublicKey(..) => TextKind::EcdsaSecp256k1PublicKey,
        TextValueView::EcdsaSecp256k1Signature(..) => TextKind::EcdsaSecp256k1Signature,
        TextValueView::EddsaEd25519PublicKey(..) => TextKind::EddsaEd25519PublicKey,
        TextValueView::EddsaEd25519Signature(..) => TextKind::EddsaEd25519Signature,
        TextValueView::Bucket(..) => TextKind::Bucket,
        TextValueView::Proof(..) => TextKind::Proof,
        TextValueView::NonFungibleLocalId(..) => TextKind::NonFungibleLocalId,
        TextValueView::NonFungibleGlobalId(..) => TextKind::NonFungibleGlobalId,
        TextValueView::Expression(..) => TextKind::Expression,
        TextValueView::Blob(..) => TextKind::Blob,
        TextValueView::Bytes(..) => TextKind::Bytes,
    }
}

impl TextValue {
    /// Returns the node kind of this textual node.
    pub fn kind(&self) -> (r: TextKind)
        ensures
            r == text_view_kind(self@),
    {
        match self {
            TextValue::Bool(..) => TextKind::Bool,
            TextValue::U8(..) => TextKind::U8,
            TextValue::U16(..) => TextKind::U16,
            TextValue::U32(..) => TextKind::U32,
            TextValue::U64(..) => TextKind::U64,
            TextValue::U128(..) => TextKind::U128,
            TextValue::I8(..) => TextKind::I8,
            TextValue::I16(..) => TextKind::I16,
            TextValue::I32(..) => TextKind::I32,
            TextValue::I64(..) => TextKind::I64,
            TextValue::I128(..) => TextKind::I128,
            TextValue::String(..) => TextKind::String,
            TextValue::Enum(..) => TextKind::Enum,
            TextValue::OptionSome(..) => TextKind::Enum,
            TextValue::OptionNone => TextKind::Enum,
            TextValue::ResultOk(..) => TextKind::Enum,
            TextValue::ResultErr(..) => TextKind::Enum,
            TextValue::Array(..) => TextKind::Array,
            TextValue::Tuple(..) => TextKind::Tuple,
            TextValue::MapValue(..) => TextKind::Array,
            TextValue::Decimal(..) => TextKind::Decimal,
            TextValue::PreciseDecimal(..) => TextKind::PreciseDecimal,
            TextValue::Own(..) => TextKind::Own,
            TextValue::ComponentAddress(..) => TextKind::ComponentAddress,
            TextValue::ResourceAddress(..) => TextKind::ResourceAddress,
            TextValue::PackageAddress(..) => TextKind::PackageAddress,
            TextValue::Hash(..) => TextKind::Hash,
            TextValue::EcdsaSecp256k1PublicKey(..) => TextKind::EcdsaSecp256k1PublicKey,
            TextValue::EcdsaSecp256k1Signature(..) => TextKind::EcdsaSecp256k1Signature,
            TextValue::EddsaEd25519PublicKey(..) => TextKind::EddsaEd25519PublicKey,
            TextValue::EddsaEd25519Signature(..) => TextKind::EddsaEd25519Signature,
            TextValue::Bucket(..) => TextKind::Bucket,
            TextValue::Proof(..) => TextKind::Proof,
            TextValue::NonFungibleLocalId(..) => TextKind::NonFungibleLocalId,
            TextValue::NonFungibleGlobalId(..) => TextKind::NonFungibleGlobalId,
            TextValue::Expression(..) => TextKind::Expression,
            TextValue::Blob(..) => TextKind::Blob,
            TextValue::Bytes(..) => TextKind::Bytes,
        }
    }
}

/// The textual node kind each value kind prints under: maps print under the
/// array kind.
pub open spec fn kind_to_text_spec(k: ValueKind) -> TextKind {
    match k {
        ValueKind::Bool => TextKind::Bool,
        ValueKind::U8 => TextKind::U8,
        ValueKind::U16 => TextKind::U16,
        ValueKind::U32 => TextKind::U32,
        ValueKind::U64 => TextKind::U64,
        ValueKind::U128 => TextKind::U128,
        ValueKind::I8 => TextKind::I8,
        ValueKind::I16 => TextKind::I16,
        ValueKind::I32 => TextKind::I32,
        ValueKind::I64 => TextKind::I64,
        ValueKind::I128 => TextKind::I128,
        ValueKind::String => TextKind::String,
        ValueKind::Enum => TextKind::Enum,
        ValueKind::OptionSome => TextKind::Enum,
        ValueKind::OptionNone => TextKind::Enum,
        ValueKind::ResultOk => TextKind::Enum,
        ValueKind::ResultErr => TextKind::Enum,
        ValueKind::MapValue => TextKind::Array,
        ValueKind::Array => TextKind::Array,
        ValueKind::Tuple => TextKind::Tuple,
        ValueKind::Decimal => TextKind::Decimal,
        ValueKind::PreciseDecimal => TextKind::PreciseDecimal,
        ValueKind::Own => TextKind::Own,
        ValueKind::ComponentAddress => TextKind::ComponentAddress,
        ValueKind::ResourceAddress => TextKind::ResourceAddress,
        ValueKind::PackageAddress => TextKind::PackageAddress,
        ValueKind::Hash => TextKind::Hash,
        ValueKind::EcdsaSecp256k1PublicKey => TextKind::EcdsaSecp256k1PublicKey,
        ValueKind::EcdsaSecp256k1Signature => TextKind::EcdsaSecp256k1Signature,
        ValueKind::EddsaEd25519PublicKey => TextKind::EddsaEd25519PublicKey,
        ValueKind::EddsaEd25519Signature => TextKind::EddsaEd25519Signature,
        ValueKind::Bucket => TextKind::Bucket,
        ValueKind::Proof => TextKind::Proof,
        ValueKind::NonFungibleLocalId => TextKind::NonFungibleLocalId,
        ValueKind::NonFungibleGlobalId => TextKind::NonFungibleGlobalId,
        ValueKind::Expression => TextKind::Expression,
        ValueKind::Blob => TextKind::Blob,
        ValueKind::Bytes => TextKind::Bytes,
    }
}

/// The value kind a textual node kind parses to.
pub open spec fn kind_from_text_spec(k: TextKind) -> ValueKind {
    match k {
        TextKind::Bool => ValueKind::Bool,
        TextKind::U8 => ValueKind::U8,
        TextKind::U16 => ValueKind::U16,
        TextKind::U32 => ValueKind::U32,
        TextKind::U64 => ValueKind::U64,
        TextKind::U128 => ValueKind::U128,
        TextKind::I8 => ValueKind::I8,
        TextKind::I16 => ValueKind::I16,
        TextKind::I32 => ValueKind::I32,
        TextKind::I64 => ValueKind::I64,
        TextKind::I128 => ValueKind::I128,
        TextKind::String => ValueKind::String,
        TextKind::Enum => ValueKind::Enum,
        TextKind::Array => ValueKind::Array,
        TextKind::Tuple => ValueKind::Tuple,
        TextKind::Decimal => ValueKind::Decimal,
        TextKind::PreciseDecimal => ValueKind::PreciseDecimal,
        TextKind::Own => ValueKind::Own,
        TextKind::ComponentAddress => ValueKind::ComponentAddress,
        TextKind::ResourceAddress => ValueKind::ResourceAddress,
        TextKind::PackageAddress => ValueKind::PackageAddress,
        TextKind::Hash => ValueKind::Hash,
        TextKind::EcdsaSecp256k1PublicKey => ValueKind::EcdsaSecp256k1PublicKey,
        TextKind::EcdsaSecp256k1Signature => ValueKind::EcdsaSecp256k1Signature,
        TextKind::EddsaEd25519PublicKey => ValueKind::EddsaEd25519PublicKey,
        TextKind::EddsaEd25519Signature => ValueKind::EddsaEd25519Signature,
        TextKind::Bucket => ValueKind::Bucket,
        TextKind::Proof => ValueKind::Proof,
        TextKind::NonFungibleLocalId => ValueKind::NonFungibleLocalId,
        TextKind::NonFungibleGlobalId => ValueKind::NonFungibleGlobalId,
        TextKind::Expression => ValueKind::Expression,
        TextKind::Blob => ValueKind::Blob,
        TextKind::Bytes => ValueKind::Bytes,
    }
}

/// Converts a value kind to its textual node kind.
pub fn kind_to_text(k: ValueKind) -> (r: TextKind)
    ensures
        r == kind_to_text_spec(k),
{
    match k {
        ValueKind::Bool => TextKind::Bool,
        ValueKind::U8 => TextKind::U8,
        ValueKind::U16 => TextKind::U16,
        ValueKind::U32 => TextKind::U32,
        ValueKind::U64 => TextKind::U64,
        ValueKind::U128 => TextKind::U128,
        ValueKind::I8 => TextKind::I8,
        ValueKind::I16 => TextKind::I16,
        ValueKind::I32 => TextKind::I32,
        ValueKind::I64 => TextKind::I64,
        ValueKind::I128 => TextKind::I128,
        ValueKind::String => TextKind::String,
        ValueKind::Enum => TextKind::Enum,
        ValueKind::OptionSome => TextKind::Enum,
        ValueKind::OptionNone => TextKind::Enum,
        ValueKind::ResultOk => TextKind::Enum,
        ValueKind::ResultErr => TextKind::Enum,
        ValueKind::MapValue => TextKind::Array,
        ValueKind::Array => TextKind::Array,
        ValueKind::Tuple => TextKind::Tuple,
        ValueKind::Decimal => TextKind::Decimal,
        ValueKind::PreciseDecimal => TextKind::PreciseDecimal,
        ValueKind::Own => TextKind::Own,
        ValueKind::ComponentAddress => TextKind::ComponentAddress,
        ValueKind::ResourceAddress => TextKind::ResourceAddress,
        ValueKind::PackageAddress => TextKind::PackageAddress,
        ValueKind::Hash => TextKind::Hash,
        ValueKind::EcdsaSecp256k1PublicKey => TextKind::EcdsaSecp256k1PublicKey,
        ValueKind::EcdsaSecp256k1Signature => TextKind::EcdsaSecp256k1Signature,
        ValueKind::EddsaEd25519PublicKey => TextKind::EddsaEd25519PublicKey,
        ValueKind::EddsaEd25519Signature => TextKind::EddsaEd25519Signature,
        ValueKind::Bucket => TextKind::Bucket,
        ValueKind::Proof => TextKind::Proof,
        ValueKind::NonFungibleLocalId => TextKind::NonFungibleLocalId,
        ValueKind::NonFungibleGlobalId => TextKind::NonFungibleGlobalId,
        ValueKind::Expression => TextKind::Expression,
        ValueKind::Blob => TextKind::Blob,
        ValueKind::Bytes => TextKind::Bytes,
    }
}

/// Textual node kinds and value kinds convert back and forth: every text
/// kind is hit and returns to itself; a value kind returns to itself unless
/// it is one of the option and result sugar kinds, which print under the
/// enum kind, or the map kind, which prints under the array kind.
pub proof fn lemma_text_kind_round_trip(tk: TextKind, k: ValueKind)
    ensures
        kind_to_text_spec(kind_from_text_spec(tk)) == tk,
        (k is OptionSome || k is OptionNone || k is ResultOk || k is ResultErr)
            ==> kind_to_text_spec(k) == TextKind::Enum,
        k is MapValue ==> kind_to_text_spec(k) == TextKind::Array,
        !(k is OptionSome || k is OptionNone || k is ResultOk || k is ResultErr || k
            is MapValue) ==> kind_from_text_spec(kind_to_text_spec(k)) == k,
{
}

/// What rendering a value model as a textual node on network `n` yields:
/// the textual model, or the first error in rendering order.
pub open spec fn to_text_view(v: ValueView, n: u8) -> Result<TextValueView, ErrorView>
    decreases v,
{
    match v {
        ValueView::Bool { value } => Ok(TextValueView::Bool(value)),
        ValueView::U8 { value } => Ok(TextValueView::U8(value)),
        ValueView::U16 { value } => Ok(TextValueView::U16(value)),
        ValueView::U32 { value } => Ok(TextValueView::U32(value)),
        ValueView::U64 { value } => Ok(TextValueView::U64(value)),
        ValueView::U128 { value } => Ok(TextValueView::U128(value)),
        ValueView::I8 { value } => Ok(TextValueView::I8(value)),
        ValueView::I16 { value } => Ok(TextValueView::I16(value)),
        ValueView::I32 { value } => Ok(TextValueView::I32(value)),
        ValueView::I64 { value } => Ok(TextValueView::I64(value)),
        ValueView::I128 { value } => Ok(TextValueView::I128(value)),
        ValueView::String { value } => Ok(TextValueView::String(value)),
        ValueView::Enum { variant, fields } => match resolve_view(variant) {
            Some(d) => match fields {
                Some(fs) => match to_text_seq_view(fs, n) {
                    Ok(ts) => Ok(TextValueView::Enum(d, ts)),
                    Err(e) => Err(e),
                },
                None => Ok(TextValueView::Enum(d, Seq::empty())),
            },
            None => Err(
                ErrorView::InvalidEnumDiscriminator {
                    discriminator: match variant {
                        DiscriminatorView::String { discriminator } => discriminator,
                        DiscriminatorView::U8 { .. } => Seq::empty(),
                    },
                },
            ),
        },
        ValueView::OptionSome { value } => match to_text_view(*value, n) {
            Ok(t) => Ok(TextValueView::OptionSome(Box::new(t))),
            Err(e) => Err(e),
        },
        ValueView::OptionNone => Ok(TextValueView::OptionNone),
        ValueView::ResultOk { value } => match to_text_view(*value, n) {
            Ok(t) => Ok(TextValueView::ResultOk(Box::new(t))),
            Err(e) => Err(e),
        },
        ValueView::ResultErr { value } => match to_text_view(*value, n) {
            Ok(t) => Ok(TextValueView::ResultErr(Box::new(t))),
            Err(e) => Err(e),
        },
        ValueView::Array { element_kind, elements } => match to_text_seq_view(elements, n) {
            Ok(ts) => Ok(TextValueView::Array(kind_to_text_spec(element_kind), ts)),
            Err(e) => Err(e),
        },
        ValueView::MapValue { key_value_kind, value_value_kind, entries } => {
            match to_text_pairs_view(entries, n) {
                Ok(ts) => Ok(
                    TextValueView::MapValue(
                        kind_to_text_spec(key_value_kind),
                        kind_to_text_spec(value_value_kind),
                        ts,
                    ),
                ),
                Err(e) => Err(e),
            }
        },
        ValueView::Tuple { elements } => match to_text_seq_view(elements, n) {
            Ok(ts) => Ok(TextValueView::Tuple(ts)),
            Err(e) => Err(e),
        },
        ValueView::Decimal { value } => Ok(
            TextValueView::Decimal(Box::new(TextValueView::String(value))),
        ),
        ValueView::PreciseDecimal { value } => Ok(
            TextValueView::PreciseDecimal(Box::new(TextValueView::String(value))),
        ),
        ValueView::Own { value } => Ok(
            TextValueView::Own(Box::new(TextValueView::String(own_str_spec(value)))),
        ),
        ValueView::ComponentAddress { address } => Ok(
            TextValueView::ComponentAddress(
                Box::new(
                    TextValueView::String(address_str_spec("component_"@, n, address.raw)),
                ),
            ),
        ),
        ValueView::ResourceAddress { address } => Ok(
            TextValueView::ResourceAddress(
                Box::new(TextValueView::String(address_str_spec("resource_"@, n, address.raw))),
            ),
        ),
        ValueView::PackageAddress { address } => Ok(
            TextValueView::PackageAddress(
                Box::new(TextValueView::String(address_str_spec("package_"@, n, address.raw))),
            ),
        ),
        ValueView::Hash { value } => Ok(
            TextValueView::Hash(Box::new(TextValueView::String(hex_of(value)))),
        ),
        ValueView::EcdsaSecp256k1PublicKey { public_key } => Ok(
            TextValueView::EcdsaSecp256k1PublicKey(
                Box::new(TextValueView::String(hex_of(public_key))),
            ),
        ),
        ValueView::EcdsaSecp256k1Signature { signature } => Ok(
            TextValueView::EcdsaSecp256k1Signature(
                Box::new(TextValueView::String(hex_of(signature))),
            ),
        ),
        ValueView::EddsaEd25519PublicKey { public_key } => Ok(
            TextValueView::EddsaEd25519PublicKey(
                Box::new(TextValueView::String(hex_of(public_key))),
            ),
        ),
        ValueView::EddsaEd25519Signature { signature } => Ok(
            TextValueView::EddsaEd25519Signature(
                Box::new(TextValueView::String(hex_of(signature))),
            ),
        ),
        ValueView::Bucket { identifier } => Ok(
            TextValueView::Bucket(
                Box::new(
                    match identifier {
                        TransientIdentifierView::String { value } => TextValueView::String(value),
                        TransientIdentifierView::U32 { value } => TextValueView::U32(value),
                    },
                ),
            ),
        ),
        ValueView::Proof { identifier } => Ok(
            TextValueView::Proof(
                Box::new(
                    match identifier {
                        TransientIdentifierView::String { value } => TextValueView::String(value),
                        TransientIdentifierView::U32 { value } => TextValueView::U32(value),
                    },
                ),
            ),
        ),
        ValueView::NonFungibleLocalId { value } => Ok(
            TextValueView::NonFungibleLocalId(
                Box::new(TextValueView::String(nflid_str_spec(value))),
            ),
        ),
        ValueView::NonFungibleGlobalId { address } => Ok(
            TextValueView::NonFungibleGlobalId(
                Box::new(
                    TextValueView::String(
                        address_str_spec("resource_"@, n, address.resource_address.raw)
                            + seq![':'] + nflid_str_spec(address.non_fungible_local_id),
                    ),
                ),
            ),
        ),
        ValueView::Expression { value } => Ok(
            TextValueView::Expression(
                Box::new(TextValueView::String(expression_str_spec(value))),
            ),
        ),
        ValueView::Blob { hash } => Ok(
            TextValueView::Blob(Box::new(TextValueView::String(hex_of(hash)))),
        ),
        ValueView::Bytes { value } => Ok(
            TextValueView::Bytes(Box::new(TextValueView::String(hex_of(value)))),
        ),
    }
}

/// Renders a sequence of value models in order; the first failure wins.
pub open spec fn to_text_seq_view(s: Seq<ValueView>, n: u8) -> Result<Seq<TextValueView>, ErrorView>
    decreases s,
{
    if s.len() == 0 {
        Ok(Seq::empty())
    } else {
        match to_text_seq_view(s.drop_last(), n) {
            Err(e) => Err(e),
            Ok(ts) => match to_text_view(s.last(), n) {
                Err(e) => Err(e),
                Ok(t) => Ok(ts.push(t)),
            },
        }
    }
}

/// Renders a sequence of key-value entry models in order, two nodes per
/// entry; the first failure wins.
pub open spec fn to_text_pairs_view(s: Seq<(ValueView, ValueView)>, n: u8) -> Result<
    Seq<TextValueView>,
    ErrorView,
>
    decreases s,
{
    if s.len() == 0 {
        Ok(Seq::empty())
    } else {
        match to_text_pairs_view(s.drop_last(), n) {
            Err(e) => Err(e),
            Ok(ts) => match to_text_view(s.last().0, n) {
                Err(e) => Err(e),
                Ok(tk) => match to_text_view(s.last().1, n) {
                    Err(e) => Err(e),
                    Ok(tv) => Ok(ts.push(tk).push(tv)),
                },
            },
        }
    }
}

/// Extending a rendered prefix by one element.
pub proof fn lemma_to_text_seq_step(s: Seq<ValueView>, n: u8, i: int)
    requires
        0 <= i < s.len(),
    ensures
        to_text_seq_view(s.take(i + 1), n) == (match to_text_seq_view(s.take(i), n) {
            Err(e) => Err(e),
            Ok(ts) => match to_text_view(s[i], n) {
                Err(e) => Err(e),
                Ok(t) => Ok(ts.push(t)),
            },
        }),
{
    assert(s.take(i + 1).drop_last() =~= s.take(i));
    assert(s.take(i + 1).last() == s[i]);
}

/// A failed rendered prefix decides the whole rendering.
pub proof fn lemma_to_text_seq_prefix_err(s: Seq<ValueView>, n: u8, i: int)
    requires
        0 <= i <= s.len(),
        to_text_seq_view(s.take(i), n) is Err,
    ensures
        to_text_seq_view(s, n) == to_text_seq_view(s.take(i), n),
    decreases s.len(),
{
    if i == s.len() {
        assert(s.take(i) =~= s);
    } else {
        assert(s.drop_last().take(i) =~= s.take(i));
        lemma_to_text_seq_prefix_err(s.drop_last(), n, i);
    }
}

/// Extending a rendered entry prefix by one entry.
pub proof fn lemma_to_text_pairs_step(s: Seq<(ValueView, ValueView)>, n: u8, i: int)
    requires
        0 <= i < s.len(),
    ensures
        to_text_pairs_view(s.take(i + 1), n) == (match to_text_pairs_view(s.take(i), n) {
            Err(e) => Err(e),
            Ok(ts) => match to_text_view(s[i].0, n) {
                Err(e) => Err(e),
                Ok(tk) => match to_text_view(s[i].1, n) {
                    Err(e) => Err(e),
                    Ok(tv) => Ok(ts.push(tk).push(tv)),
                },
            },
        }),
{
    assert(s.take(i + 1).drop_last() =~= s.take(i));
    assert(s.take(i + 1).last() == s[i]);
}

/// A failed rendered entry prefix decides the whole rendering.
pub proof fn lemma_to_text_pairs_prefix_err(s: Seq<(ValueView, ValueView)>, n: u8, i: int)
    requires
        0 <= i <= s.len(),
        to_text_pairs_view(s.take(i), n) is Err,
    ensures
        to_text_pairs_view(s, n) == to_text_pairs_view(s.take(i), n),
    decreases s.len(),
{
    if i == s.len() {
        assert(s.take(i) =~= s);
    } else {
        assert(s.drop_last().take(i) =~= s.take(i));
        lemma_to_text_pairs_prefix_err(s.drop_last(), n, i);
    }
}

/// What parsing a textual node model on network `n` yields: the value
/// model, or the first error in parsing order.
pub open spec fn from_text_view(t: TextValueView, n: u8) -> Result<ValueView, ErrorView>
    decreases t,
{
    match t {
        TextValueView::Bool(v) => Ok(ValueView::Bool { value: v }),
        TextValueView::U8(v) => Ok(ValueView::U8 { value: v }),
        TextValueView::U16(v) => Ok(ValueView::U16 { value: v }),
        TextValueView::U32(v) => Ok(ValueView::U32 { value: v }),
        TextValueView::U64(v) => Ok(ValueView::U64 { value: v }),
        TextValueView::U128(v) => Ok(ValueView::U128 { value: v }),
        TextValueView::I8(v) => Ok(ValueView::I8 { value: v }),
        TextValueView::I16(v) => Ok(ValueView::I16 { value: v }),
        TextValueView::I32(v) => Ok(ValueView::I32 { value: v }),
        TextValueView::I64(v) => Ok(ValueView::I64 { value: v }),
        TextValueView::I128(v) => Ok(ValueView::I128 { value: v }),
        TextValueView::String(v) => Ok(ValueView::String { value: v }),
        TextValueView::Enum(d, fields) => match from_text_seq_view(fields, n) {
            Ok(vs) => Ok(
                ValueView::Enum {
                    variant: DiscriminatorView::U8 { discriminator: d },
                    fields: if fields.len() == 0 {
                        None
                    } else {
                        Some(vs)
                    },
                },
            ),
            Err(e) => Err(e),
        },
        TextValueView::OptionSome(v) => match from_text_view(*v, n) {
            Ok(inner) => Ok(ValueView::OptionSome { value: Box::new(inner) }),
            Err(e) => Err(e),
        },
        TextValueView::OptionNone => Ok(ValueView::OptionNone),
        TextValueView::ResultOk(v) => match from_text_view(*v, n) {
            Ok(inner) => Ok(ValueView::ResultOk { value: Box::new(inner) }),
            Err(e) => Err(e),
        },
        TextValueView::ResultErr(v) => match from_text_view(*v, n) {
            Ok(inner) => Ok(ValueView::ResultErr { value: Box::new(inner) }),
            Err(e) => Err(e),
        },
        TextValueView::Array(tk, elements) => match from_text_elements_view(
            kind_from_text_spec(tk),
            elements,
            n,
        ) {
            Ok(vs) => Ok(ValueView::Array { element_kind: kind_from_text_spec(tk), elements: vs }),
            Err(e) => Err(e),
        },
        TextValueView::Tuple(elements) => match from_text_seq_view(elements, n) {
            Ok(vs) => Ok(ValueView::Tuple { elements: vs }),
            Err(e) => Err(e),
        },
        TextValueView::MapValue(ktk, vtk, nodes) => {
            if nodes.len() % 2 != 0 {
                Err(ErrorView::OddNumberOfElements)
            } else {
                match from_text_entries_view(
                    kind_from_text_spec(ktk),
                    kind_from_text_spec(vtk),
                    nodes,
                    n,
                ) {
                    Ok(es) => Ok(
                        ValueView::MapValue {
                            key_value_kind: kind_from_text_spec(ktk),
                            value_value_kind: kind_from_text_spec(vtk),
                            entries: es,
                        },
                    ),
                    Err(e) => Err(e),
                }
            }
        },
        TextValueView::Decimal(inner) => match *inner {
            TextValueView::String(s) => {
                if is_decimal_string(s) {
                    Ok(ValueView::Decimal { value: s })
                } else {
                    Err(ErrorView::InvalidDecimalString { value: s })
                }
            },
            _ => Err(
                ErrorView::UnexpectedShape {
                    parsing: ValueKind::Decimal,
                    expected: seq![ValueKind::String],
                    found: kind_from_text_spec(text_view_kind(*inner)),
                },
            ),
        },
        TextValueView::PreciseDecimal(inner) => match *inner {
            TextValueView::String(s) => {
                if is_decimal_string(s) {
                    Ok(ValueView::PreciseDecimal { value: s })
                } else {
                    Err(ErrorView::InvalidDecimalString { value: s })
                }
            },
            _ => Err(
                ErrorView::UnexpectedShape {
                    parsing: ValueKind::PreciseDecimal,
                    expected: seq![ValueKind::String],
                    found: kind_from_text_spec(text_view_kind(*inner)),
                },
            ),
        },
        TextValueView::Own(inner) => match *inner {
            TextValueView::String(..) => Err(ErrorView::UnrepresentableOwn),
            _ => Err(
                ErrorView::UnexpectedShape {
                    parsing: ValueKind::Own,
                    expected: seq![ValueKind::String],
                    found: kind_from_text_spec(text_view_kind(*inner)),
                },
            ),
        },
        TextValueView::ComponentAddress(inner) => match *inner {
            TextValueView::String(s) => match bech32m_decode_of(s) {
                Some(p) => {
                    if p.0 == address_hrp_spec("component_"@, n) && p.1.len() == ADDRESS_LENGTH {
                        Ok(
                            ValueView::ComponentAddress {
                                address: crate::value::AddressView { network_id: n, raw: p.1 },
                            },
                        )
                    } else {
                        Err(ErrorView::InvalidAddressString { value: s })
                    }
                },
                None => Err(ErrorView::InvalidAddressString { value: s }),
            },
            _ => Err(
                ErrorView::UnexpectedShape {
                    parsing: ValueKind::ComponentAddress,
                    expected: seq![ValueKind::String],
                    found: kind_from_text_spec(text_view_kind(*inner)),
                },
            ),
        },
        TextValueView::ResourceAddress(inner) => match *inner {
            TextValueView::String(s) => match bech32m_decode_of(s) {
                Some(p) => {
                    if p.0 == address_hrp_spec("resource_"@, n) && p.1.len() == ADDRESS_LENGTH {
                        Ok(
                            ValueView::ResourceAddress {
                                address: crate::value::AddressView { network_id: n, raw: p.1 },
                            },
                        )
                    } else {
                        Err(ErrorView::InvalidAddressString { value: s })
                    }
                },
                None => Err(ErrorView::InvalidAddressString { value: s }),
            },
            _ => Err(
                ErrorView::UnexpectedShape {
                    parsing: ValueKind::ResourceAddress,
                    expected: seq![ValueKind::String],
                    found: kind_from_text_spec(text_view_kind(*inner)),
                },
            ),
        },
        TextValueView::PackageAddress(inner) => match *inner {
            TextValueView::String(s) => match bech32m_decode_of(s) {
                Some(p) => {
                    if p.0 == address_hrp_spec("package_"@, n) && p.1.len() == ADDRESS_LENGTH {
                        Ok(
                            ValueView::PackageAddress {
                                address: crate::value::AddressView { network_id: n, raw: p.1 },
                            },
                        )
                    } else {
                        Err(ErrorView::InvalidAddressString { value: s })
                    }
                },
                None => Err(ErrorView::InvalidAddressString { value: s }),
            },
            _ => Err(
                ErrorView::UnexpectedShape {
                    parsing: ValueKind::PackageAddress,
                    expected: seq![ValueKind::String],
                    found: kind_from_text_spec(text_view_kind(*inner)),
                },
            ),
        },
        TextValueView::Hash(inner) => from_hex_text(
            *inner,
            ValueKind::Hash,
            Some(32),
            n,
        ),
        TextValueView::EcdsaSecp256k1PublicKey(inner) => from_hex_text(
            *inner,
            ValueKind::EcdsaSecp256k1PublicKey,
            Some(33),
            n,
        ),
        TextValueView::EcdsaSecp256k1Signature(inner) => from_hex_text(
            *inner,
            ValueKind::EcdsaSecp256k1Signature,
            Some(65),
            n,
        ),
        TextValueView::EddsaEd25519PublicKey(inner) => from_hex_text(
            *inner,
            ValueKind::EddsaEd25519PublicKey,
            Some(32),
            n,
        ),
        TextValueView::EddsaEd25519Signature(inner) => from_hex_text(
            *inner,
            ValueKind::EddsaEd25519Signature,
            Some(64),
            n,
        ),
        TextValueView::Bucket(inner) => match *inner {
            TextValueView::U32(v) => Ok(
                ValueView::Bucket { identifier: TransientIdentifierView::U32 { value: v } },
            ),
            TextValueView::String(s) => Ok(
                ValueView::Bucket { identifier: TransientIdentifierView::String { value: s } },
            ),
            _ => Err(
                ErrorView::UnexpectedShape {
                    parsing: ValueKind::Bucket,
                    expected: seq![ValueKind::U32, ValueKind::String],
                    found: kind_from_text_spec(text_view_kind(*inner)),
                },
            ),
        },
        TextValueView::Proof(inner) => match *inner {
            TextValueView::U32(v) => Ok(
                ValueView::Proof { identifier: TransientIdentifierView::U32 { value: v } },
            ),
            TextValueView::String(s) => Ok(
                ValueView::Proof { identifier: TransientIdentifierView::String { value: s } },
            ),
            _ => Err(
                ErrorView::UnexpectedShape {
                    parsing: ValueKind::Proof,
                    expected: seq![ValueKind::U32, ValueKind::String],
                    found: kind_from_text_spec(text_view_kind(*inner)),
                },
            ),
        },
        TextValueView::NonFungibleLocalId(inner) => match *inner {
            TextValueView::String(s) => match nflid_parse_spec(s) {
                Some(v) => Ok(ValueView::NonFungibleLocalId { value: v }),
                None => Err(ErrorView::InvalidNonFungibleLocalIdString { value: s }),
            },
            _ => Err(
                ErrorView::UnexpectedShape {
                    parsing: ValueKind::NonFungibleLocalId,
                    expected: seq![ValueKind::String],
                    found: kind_from_text_spec(text_view_kind(*inner)),
                },
            ),
        },
        TextValueView::NonFungibleGlobalId(inner) => match *inner {
            TextValueView::String(s) => {
                let c = first_index_of(s, ':');
                if c < 0 {
                    Err(ErrorView::InvalidAddressString { value: s })
                } else {
                    let addr_part = s.subrange(0, c);
                    let local_part = s.subrange(c + 1, s.len() as int);
                    match bech32m_decode_of(addr_part) {
                        Some(p) => {
                            if p.0 == address_hrp_spec("resource_"@, n) && p.1.len()
                                == ADDRESS_LENGTH {
                                match nflid_parse_spec(local_part) {
                                    Some(l) => Ok(
                                        ValueView::NonFungibleGlobalId {
                                            address: crate::value::NonFungibleGlobalIdView {
                                                resource_address: crate::value::AddressView {
                                                    network_id: n,
                                                    raw: p.1,
                                                },
                                                non_fungible_local_id: l,
                                            },
                                        },
                                    ),
                                    None => Err(
                                        ErrorView::InvalidNonFungibleLocalIdString {
                                            value: local_part,
                                        },
                                    ),
                                }
                            } else {
                                Err(ErrorView::InvalidAddressString { value: addr_part })
                            }
                        },
                        None => Err(ErrorView::InvalidAddressString { value: addr_part }),
                    }
                }
            },
            _ => Err(
                ErrorView::UnexpectedShape {
                    parsing: ValueKind::NonFungibleGlobalId,
                    expected: seq![ValueKind::String],
                    found: kind_from_text_spec(text_view_kind(*inner)),
                },
            ),
        },
        TextValueView::Expression(inner) => match *inner {
            TextValueView::String(s) => {
                if s == "ENTIRE_WORKTOP"@ {
                    Ok(
                        ValueView::Expression {
                            value: crate::value::ManifestExpression::EntireWorktop,
                        },
                    )
                } else if s == "ENTIRE_AUTH_ZONE"@ {
                    Ok(
                        ValueView::Expression {
                            value: crate::value::ManifestExpression::EntireAuthZone,
                        },
                    )
                } else {
                    Err(
                        ErrorView::InvalidExpressionString {
                            found: s,
                            expected: seq!["ENTIRE_WORKTOP"@, "ENTIRE_AUTH_ZONE"@],
                        },
                    )
                }
            },
            _ => Err(
                ErrorView::UnexpectedShape {
                    parsing: ValueKind::Expression,
                    expected: seq![ValueKind::String],
                    found: kind_from_text_spec(text_view_kind(*inner)),
                },
            ),
        },
        TextValueView::Blob(inner) => from_hex_text(*inner, ValueKind::Blob, Some(32), n),
        TextValueView::Bytes(inner) => from_hex_text(*inner, ValueKind::Bytes, None, n),
    }
}

/// Parses a hexadecimal string literal into the byte-carrying kind named by
/// `parsing`, holding it to an exact byte length where one is required.
pub open spec fn from_hex_text(
    inner: TextValueView,
    parsing: ValueKind,
    expected_len: Option<usize>,
    n: u8,
) -> Result<ValueView, ErrorView> {
    match inner {
        TextValueView::String(s) => {
            if !crate::strings::is_hex_seq(s) {
                Err(ErrorView::InvalidHexString { value: s })
            } else {
                let b = crate::strings::hex_bytes_of(s);
                if expected_len matches Some(l) && b.len() != l {
                    Err(
                        ErrorView::InvalidLength {
                            parsing,
                            expected: expected_len->Some_0 as int,
                            found: b.len() as int,
                        },
                    )
                } else {
                    match parsing {
                        ValueKind::Hash => Ok(ValueView::Hash { value: b }),
                        ValueKind::EcdsaSecp256k1PublicKey => Ok(
                            ValueView::EcdsaSecp256k1PublicKey { public_key: b },
                        ),
                        ValueKind::EcdsaSecp256k1Signature => Ok(
                            ValueView::EcdsaSecp256k1Signature { signature: b },
                        ),
                        ValueKind::EddsaEd25519PublicKey => Ok(
                            ValueView::EddsaEd25519PublicKey { public_key: b },
                        ),
                        ValueKind::EddsaEd25519Signature => Ok(
                            ValueView::EddsaEd25519Signature { signature: b },
                        ),
                        ValueKind::Blob => Ok(ValueView::Blob { hash: b }),
                        _ => Ok(ValueView::Bytes { value: b }),
                    }
                }
            }
        },
        _ => Err(
            ErrorView::UnexpectedShape {
                parsing,
                expected: seq![ValueKind::String],
                found: kind_from_text_spec(text_view_kind(inner)),
            },
        ),
    }
}

/// Parses a sequence of textual node models in order; the first failure
/// wins.
pub open spec fn from_text_seq_view(s: Seq<TextValueView>, n: u8) -> Result<Seq<ValueView>, ErrorView>
    decreases s,
{
    if s.len() == 0 {
        Ok(Seq::empty())
    } else {
        match from_text_seq_view(s.drop_last(), n) {
            Err(e) => Err(e),
            Ok(vs) => match from_text_view(s.last(), n) {
                Err(e) => Err(e),
                Ok(v) => Ok(vs.push(v)),
            },
        }
    }
}

/// Parses a sequence of textual node models in order, holding each parsed
/// element to the declared kind; the first failure wins.
pub open spec fn from_text_elements_view(kind: ValueKind, s: Seq<TextValueView>, n: u8) -> Result<
    Seq<ValueView>,
    ErrorView,
>
    decreases s,
{
    if s.len() == 0 {
        Ok(Seq::empty())
    } else {
        match from_text_elements_view(kind, s.drop_last(), n) {
            Err(e) => Err(e),
            Ok(vs) => match from_text_view(s.last(), n) {
                Err(e) => Err(e),
                Ok(v) => {
                    if crate::value::view_kind(v) != kind {
                        Err(
                            ErrorView::HeterogeneousContainer {
                                expected: kind,
                                found: crate::value::view_kind(v),
                            },
                        )
                    } else {
                        Ok(vs.push(v))
                    }
                },
            },
        }
    }
}

/// Parses a flattened sequence of textual map nodes two at a time, holding
/// parsed keys and values to the declared kinds; the first failure wins.
pub open spec fn from_text_entries_view(
    key_kind: ValueKind,
    value_kind: ValueKind,
    s: Seq<TextValueView>,
    n: u8,
) -> Result<Seq<(ValueView, ValueView)>, ErrorView>
    decreases s,
{
    if s.len() == 0 {
        Ok(Seq::empty())
    } else if s.len() == 1 {
        Err(ErrorView::OddNumberOfElements)
    } else {
        match from_text_entries_view(key_kind, value_kind, s.subrange(0, s.len() - 2), n) {
            Err(e) => Err(e),
            Ok(es) => match from_text_view(s[s.len() - 2], n) {
                Err(e) => Err(e),
                Ok(k) => {
                    if crate::value::view_kind(k) != key_kind {
                        Err(
                            ErrorView::HeterogeneousContainer {
                                expected: key_kind,
                                found: crate::value::view_kind(k),
                            },
                        )
                    } else {
                        match from_text_view(s[s.len() - 1], n) {
                            Err(e) => Err(e),
                            Ok(v) => {
                                if crate::value::view_kind(v) != value_kind {
                                    Err(
                                        ErrorView::HeterogeneousContainer {
                                            expected: value_kind,
                                            found: crate::value::view_kind(v),
                                        },
                                    )
                                } else {
                                    Ok(es.push((k, v)))
                                }
                            },
                        }
                    }
                },
            },
        }
    }
}

/// The componentwise model of a parsed node vector.
pub open spec fn value_seq_result_view(r: Result<Vec<Value>, Error>) -> Result<
    Seq<ValueView>,
    ErrorView,
> {
    match r {
        Ok(v) => Ok(views_of(v@)),
        Err(e) => Err(e@),
    }
}

/// The componentwise model of a parsed entry vector.
pub open spec fn value_entries_result_view(r: Result<Vec<(Value, Value)>, Error>) -> Result<
    Seq<(ValueView, ValueView)>,
    ErrorView,
> {
    match r {
        Ok(v) => Ok(entry_views_of(v@)),
        Err(e) => Err(e@),
    }
}

/// Extending a parsed prefix by one node.
proof fn lemma_from_text_seq_step(s: Seq<TextValueView>, n: u8, i: int)
    requires
        0 <= i < s.len(),
    ensures
        from_text_seq_view(s.take(i + 1), n) == (match from_text_seq_view(s.take(i), n) {
            Err(e) => Err(e),
            Ok(vs) => match from_text_view(s[i], n) {
                Err(e) => Err(e),
                Ok(v) => Ok(vs.push(v)),
            },
        }),
{
    assert(s.take(i + 1).drop_last() =~= s.take(i));
    assert(s.take(i + 1).last() == s[i]);
}

/// A failed parsed prefix decides the whole parse.
proof fn lemma_from_text_seq_prefix_err(s: Seq<TextValueView>, n: u8, i: int)
    requires
        0 <= i <= s.len(),
        from_text_seq_view(s.take(i), n) is Err,
    ensures
        from_text_seq_view(s, n) == from_text_seq_view(s.take(i), n),
    decreases s.len(),
{
    if i == s.len() {
        assert(s.take(i) =~= s);
    } else {
        assert(s.drop_last().take(i) =~= s.take(i));
        lemma_from_text_seq_prefix_err(s.drop_last(), n, i);
    }
}

/// Extending a parsed, kind-checked prefix by one node.
proof fn lemma_from_text_elements_step(kind: ValueKind, s: Seq<TextValueView>, n: u8, i: int)
    requires
        0 <= i < s.len(),
    ensures
        from_text_elements_view(kind, s.take(i + 1), n) == (match from_text_elements_view(
            kind,
            s.take(i),
            n,
        ) {
            Err(e) => Err(e),
            Ok(vs) => match from_text_view(s[i], n) {
                Err(e) => Err(e),
                Ok(v) => {
                    if crate::value::view_kind(v) != kind {
                        Err(
                            ErrorView::HeterogeneousContainer {
                                expected: kind,
                                found: crate::value::view_kind(v),
                            },
                        )
                    } else {
                        Ok(vs.push(v))
                    }
                },
            },
        }),
{
    assert(s.take(i + 1).drop_last() =~= s.take(i));
    assert(s.take(i + 1).last() == s[i]);
}

/// A failed parsed, kind-checked prefix decides the whole parse.
proof fn lemma_from_text_elements_prefix_err(kind: ValueKind, s: Seq<TextValueView>, n: u8, i: int)
    requires
        0 <= i <= s.len(),
        from_text_elements_view(kind, s.take(i), n) is Err,
    ensures
        from_text_elements_view(kind, s, n) == from_text_elements_view(kind, s.take(i), n),
    decreases s.len(),
{
    if i == s.len() {
        assert(s.take(i) =~= s);
    } else {
        assert(s.drop_last().take(i) =~= s.take(i));
        lemma_from_text_elements_prefix_err(kind, s.drop_last(), n, i);
    }
}

/// Extending a parsed entry prefix by one key-value pair of nodes.
proof fn lemma_from_text_entries_step(
    key_kind: ValueKind,
    value_kind: ValueKind,
    s: Seq<TextValueView>,
    n: u8,
    i: int,
)
    requires
        0 <= i,
        i % 2 == 0,
        i + 2 <= s.len(),
    ensures
        from_text_entries_view(key_kind, value_kind, s.take(i + 2), n) == (
        match from_text_entries_view(key_kind, value_kind, s.take(i), n) {
            Err(e) => Err(e),
            Ok(es) => match from_text_view(s[i], n) {
                Err(e) => Err(e),
                Ok(k) => {
                    if crate::value::view_kind(k) != key_kind {
                        Err(
                            ErrorView::HeterogeneousContainer {
                                expected: key_kind,
                                found: crate::value::view_kind(k),
                            },
                        )
                    } else {
                        match from_text_view(s[i + 1], n) {
                            Err(e) => Err(e),
                            Ok(v) => {
                                if crate::value::view_kind(v) != value_kind {
                                    Err(
                                        ErrorView::HeterogeneousContainer {
                                            expected: value_kind,
                                            found: crate::value::view_kind(v),
                                        },
                                    )
                                } else {
                                    Ok(es.push((k, v)))
                                }
                            },
                        }
                    }
                },
            },
        }),
{
    assert(s.take(i + 2).subrange(0, i) =~= s.take(i));
    assert(s.take(i + 2)[i] == s[i]);
    assert(s.take(i + 2)[i + 1] == s[i + 1]);
}

/// A failed parsed entry prefix decides the whole parse.
proof fn lemma_from_text_entries_prefix_err(
    key_kind: ValueKind,
    value_kind: ValueKind,
    s: Seq<TextValueView>,
    n: u8,
    i: int,
)
    requires
        0 <= i <= s.len(),
        i % 2 == 0,
        s.len() % 2 == 0,
        from_text_entries_view(key_kind, value_kind, s.take(i), n) is Err,
    ensures
        from_text_entries_view(key_kind, value_kind, s, n) == from_text_entries_view(
            key_kind,
            value_kind,
            s.take(i),
            n,
        ),
    decreases s.len(),
{
    if i == s.len() {
        assert(s.take(i) =~= s);
    } else {
        let shorter = s.subrange(0, s.len() - 2);
        assert(shorter.take(i) =~= s.take(i));
        lemma_from_text_entries_prefix_err(key_kind, value_kind, shorter, n, i);
    }
}

impl Value {
    /// Parses a textual AST node on the given network: addresses through the
    /// external bech32m codec, holding their human-readable part to the
    /// network's, hexadecimal byte payloads with their exact lengths, and
    /// decimal, id and expression literals against their grammars. Container
    /// nodes whose parsed elements disagree with the declared kinds are
    /// rejected, never coerced.
    #[verifier::rlimit(100)]
    pub fn from_text(t: &TextValue, network_id: u8) -> (r: Result<Value, Error>)
        ensures
            result_view(r) == from_text_view(t@, network_id),
        decreases *t,
    {
        match t {
            TextValue::Bool(v) => Ok(Value::Bool { value: *v }),
            TextValue::U8(v) => Ok(Value::U8 { value: *v }),
            TextValue::U16(v) => Ok(Value::U16 { value: *v }),
            TextValue::U32(v) => Ok(Value::U32 { value: *v }),
            TextValue::U64(v) => Ok(Value::U64 { value: *v }),
            TextValue::U128(v) => Ok(Value::U128 { value: *v }),
            TextValue::I8(v) => Ok(Value::I8 { value: *v }),
            TextValue::I16(v) => Ok(Value::I16 { value: *v }),
            TextValue::I32(v) => Ok(Value::I32 { value: *v }),
            TextValue::I64(v) => Ok(Value::I64 { value: *v }),
            TextValue::I128(v) => Ok(Value::I128 { value: *v }),
            TextValue::String(v) => Ok(Value::String { value: v.clone() }),
            TextValue::Enum(d, fields) => match from_text_seq(fields, network_id) {
                Ok(vs) => {
                    if fields.len() == 0 {
                        let r = Value::Enum {
                            variant: EnumDiscriminator::U8 { discriminator: *d },
                            fields: None,
                        };
                        Ok(r)
                    } else {
                        let r = Value::Enum {
                            variant: EnumDiscriminator::U8 { discriminator: *d },
                            fields: Some(vs),
                        };
                        Ok(r)
                    }
                },
                Err(e) => Err(e),
            },
            TextValue::OptionSome(v) => match Value::from_text(&**v, network_id) {
                Ok(inner) => Ok(Value::OptionSome { value: Box::new(inner) }),
                Err(e) => Err(e),
            },
            TextValue::OptionNone => Ok(Value::OptionNone),
            TextValue::ResultOk(v) => match Value::from_text(&**v, network_id) {
                Ok(inner) => Ok(Value::ResultOk { value: Box::new(inner) }),
                Err(e) => Err(e),
            },
            TextValue::ResultErr(v) => match Value::from_text(&**v, network_id) {
                Ok(inner) => Ok(Value::ResultErr { value: Box::new(inner) }),
                Err(e) => Err(e),
            },
            TextValue::Array(tk, elements) => {
                let kind = kind_from_text(*tk);
                match from_text_elements(kind, elements, network_id) {
                    Ok(vs) => Ok(Value::Array { element_kind: kind, elements: vs }),
                    Err(e) => Err(e),
                }
            },
            TextValue::Tuple(elements) => match from_text_seq(elements, network_id) {
                Ok(vs) => Ok(Value::Tuple { elements: vs }),
                Err(e) => Err(e),
            },
            TextValue::MapValue(ktk, vtk, nodes) => {
                proof {
                    lemma_text_views_of(nodes@);
                }
                if nodes.len() % 2 != 0 {
                    return Err(Error::OddNumberOfElements);
                }
                let kk = kind_from_text(*ktk);
                let vk = kind_from_text(*vtk);
                match from_text_entries(kk, vk, nodes, network_id) {
                    Ok(es) => Ok(
                        Value::MapValue {
                            key_value_kind: kk,
                            value_value_kind: vk,
                            entries: es,
                        },
                    ),
                    Err(e) => Err(e),
                }
            },
            TextValue::Decimal(inner) => from_text_decimal(&**inner, network_id),
            TextValue::PreciseDecimal(inner) => from_text_precise_decimal(&**inner, network_id),
            TextValue::Own(inner) => from_text_own(&**inner, network_id),
            TextValue::ComponentAddress(inner) => from_text_component_address(&**inner, network_id),
            TextValue::ResourceAddress(inner) => from_text_resource_address(&**inner, network_id),
            TextValue::PackageAddress(inner) => from_text_package_address(&**inner, network_id),
            TextValue::Hash(inner) => parse_hex_payload(
                inner,
                ValueKind::Hash,
                Some(32),
                network_id,
            ),
            TextValue::EcdsaSecp256k1PublicKey(inner) => parse_hex_payload(
                inner,
                ValueKind::EcdsaSecp256k1PublicKey,
                Some(33),
                network_id,
            ),
            TextValue::EcdsaSecp256k1Signature(inner) => parse_hex_payload(
                inner,
                ValueKind::EcdsaSecp256k1Signature,
                Some(65),
                network_id,
            ),
            TextValue::EddsaEd25519PublicKey(inner) => parse_hex_payload(
                inner,
                ValueKind::EddsaEd25519PublicKey,
                Some(32),
                network_id,
            ),
            TextValue::EddsaEd25519Signature(inner) => parse_hex_payload(
                inner,
                ValueKind::EddsaEd25519Signature,
                Some(64),
                network_id,
            ),
            TextValue::Bucket(inner) => from_text_bucket(&**inner, network_id),
            TextValue::Proof(inner) => from_text_proof(&**inner, network_id),
            TextValue::NonFungibleLocalId(inner) => from_text_nflid(&**inner, network_id),
            TextValue::NonFungibleGlobalId(inner) => from_text_global_id(&**inner, network_id),
            TextValue::Expression(inner) => from_text_expression(&**inner, network_id),
            TextValue::Blob(inner) => parse_hex_payload(
                inner,
                ValueKind::Blob,
                Some(32),
                network_id,
            ),
            TextValue::Bytes(inner) => parse_hex_payload(inner, ValueKind::Bytes, None, network_id),
        }
    }
}

/// Parses the inner node of a decimal literal.
fn from_text_decimal(inner: &TextValue, n: u8) -> (r: Result<Value, Error>)
    ensures
        result_view(r) == from_text_view(TextValueView::Decimal(Box::new(inner@)), n),
{
    match inner {
        TextValue::String(s) => {
            if check_decimal_string(s) {
                Ok(Value::Decimal { value: s.clone() })
            } else {
                Err(Error::InvalidDecimalString { value: s.clone() })
            }
        },
        other => Err(
            Error::UnexpectedShape {
                parsing: ValueKind::Decimal,
                expected: kind_vec1(ValueKind::String),
                found: kind_from_text(other.kind()),
            },
        ),
    }
}

/// Parses the inner node of a precise decimal literal.
fn from_text_precise_decimal(inner: &TextValue, n: u8) -> (r: Result<Value, Error>)
    ensures
        result_view(r) == from_text_view(TextValueView::PreciseDecimal(Box::new(inner@)), n),
{
    match inner {
        TextValue::String(s) => {
            if check_decimal_string(s) {
                Ok(Value::PreciseDecimal { value: s.clone() })
            } else {
                Err(Error::InvalidDecimalString { value: s.clone() })
            }
        },
        other => Err(
            Error::UnexpectedShape {
                parsing: ValueKind::PreciseDecimal,
                expected: kind_vec1(ValueKind::String),
                found: kind_from_text(other.kind()),
            },
        ),
    }
}

/// Rejects the inner node of an owned-node literal: the rendered form has no
/// parsed counterpart.
fn from_text_own(inner: &TextValue, n: u8) -> (r: Result<Value, Error>)
    ensures
        result_view(r) == from_text_view(TextValueView::Own(Box::new(inner@)), n),
{
    match inner {
        TextValue::String(..) => Err(Error::UnrepresentableOwn),
        other => Err(
            Error::UnexpectedShape {
                parsing: ValueKind::Own,
                expected: kind_vec1(ValueKind::String),
                found: kind_from_text(other.kind()),
            },
        ),
    }
}

/// Parses the inner node of a component address literal.
fn from_text_component_address(inner: &TextValue, n: u8) -> (r: Result<Value, Error>)
    ensures
        result_view(r) == from_text_view(TextValueView::ComponentAddress(Box::new(inner@)), n),
{
    match inner {
        TextValue::String(s) => match bech32m_decode(s) {
            Some((h, d)) => {
                let expected = address_hrp("component_", n);
                if crate::value::string_eq(&h, &expected) && d.len() == ADDRESS_LENGTH {
                    Ok(
                        Value::ComponentAddress {
                            address: NetworkAwareAddress { network_id: n, raw: d },
                        },
                    )
                } else {
                    Err(Error::InvalidAddressString { value: s.clone() })
                }
            },
            None => Err(Error::InvalidAddressString { value: s.clone() }),
        },
        other => Err(
            Error::UnexpectedShape {
                parsing: ValueKind::ComponentAddress,
                expected: kind_vec1(ValueKind::String),
                found: kind_from_text(other.kind()),
            },
        ),
    }
}

/// Parses the inner node of a resource address literal.
fn from_text_resource_address(inner: &TextValue, n: u8) -> (r: Result<Value, Error>)
    ensures
        result_view(r) == from_text_view(TextValueView::ResourceAddress(Box::new(inner@)), n),
{
    match inner {
        TextValue::String(s) => match bech32m_decode(s) {
            Some((h, d)) => {
                let expected = address_hrp("resource_", n);
                if crate::value::string_eq(&h, &expected) && d.len() == ADDRESS_LENGTH {
                    Ok(
                        Value::ResourceAddress {
                            address: NetworkAwareAddress { network_id: n, raw: d },
                        },
                    )
                } else {
                    Err(Error::InvalidAddressString { value: s.clone() })
                }
            },
            None => Err(Error::InvalidAddressString { value: s.clone() }),
        },
        other => Err(
            Error::UnexpectedShape {
                parsing: ValueKind::ResourceAddress,
                expected: kind_vec1(ValueKind::String),
                found: kind_from_text(other.kind()),
            },
        ),
    }
}

/// Parses the inner node of a package address literal.
fn from_text_package_address(inner: &TextValue, n: u8) -> (r: Result<Value, Error>)
    ensures
        result_view(r) == from_text_view(TextValueView::PackageAddress(Box::new(inner@)), n),
{
    match inner {
        TextValue::String(s) => match bech32m_decode(s) {
            Some((h, d)) => {
                let expected = address_hrp("package_", n);
                if crate::value::string_eq(&h, &expected) && d.len() == ADDRESS_LENGTH {
                    Ok(
                        Value::PackageAddress {
                            address: NetworkAwareAddress { network_id: n, raw: d },
                        },
                    )
                } else {
                    Err(Error::InvalidAddressString { value: s.clone() })
                }
            },
            None => Err(Error::InvalidAddressString { value: s.clone() }),
        },
        other => Err(
            Error::UnexpectedShape {
                parsing: ValueKind::PackageAddress,
                expected: kind_vec1(ValueKind::String),
                found: kind_from_text(other.kind()),
            },
        ),
    }
}

/// Parses the inner node of a bucket literal.
fn from_text_bucket(inner: &TextValue, n: u8) -> (r: Result<Value, Error>)
    ensures
        result_view(r) == from_text_view(TextValueView::Bucket(Box::new(inner@)), n),
{
    match inner {
        TextValue::U32(v) => Ok(
            Value::Bucket { identifier: TransientIdentifier::U32 { value: *v } },
        ),
        TextValue::String(s) => Ok(
            Value::Bucket { identifier: TransientIdentifier::String { value: s.clone() } },
        ),
        other => Err(
            Error::UnexpectedShape {
                parsing: ValueKind::Bucket,
                expected: kind_vec2(ValueKind::U32, ValueKind::String),
                found: kind_from_text(other.kind()),
            },
        ),
    }
}

/// Parses the inner node of a proof literal.
fn from_text_proof(inner: &TextValue, n: u8) -> (r: Result<Value, Error>)
    ensures
        result_view(r) == from_text_view(TextValueView::Proof(Box::new(inner@)), n),
{
    match inner {
        TextValue::U32(v) => Ok(
            Value::Proof { identifier: TransientIdentifier::U32 { value: *v } },
        ),
        TextValue::String(s) => Ok(
            Value::Proof { identifier: TransientIdentifier::String { value: s.clone() } },
        ),
        other => Err(
            Error::UnexpectedShape {
                parsing: ValueKind::Proof,
                expected: kind_vec2(ValueKind::U32, ValueKind::String),
                found: kind_from_text(other.kind()),
            },
        ),
    }
}

/// Parses the inner node of a non-fungible local id literal.
fn from_text_nflid(inner: &TextValue, n: u8) -> (r: Result<Value, Error>)
    ensures
        result_view(r) == from_text_view(TextValueView::NonFungibleLocalId(Box::new(inner@)), n),
{
    match inner {
        TextValue::String(s) => match parse_nflid(s) {
            Some(v) => Ok(Value::NonFungibleLocalId { value: v }),
            None => Err(Error::InvalidNonFungibleLocalIdString { value: s.clone() }),
        },
        other => Err(
            Error::UnexpectedShape {
                parsing: ValueKind::NonFungibleLocalId,
                expected: kind_vec1(ValueKind::String),
                found: kind_from_text(other.kind()),
            },
        ),
    }
}

/// Parses the inner node of a non-fungible global id literal: a resource
/// address, a colon, and a local id.
fn from_text_global_id(inner: &TextValue, n: u8) -> (r: Result<Value, Error>)
    ensures
        result_view(r) == from_text_view(TextValueView::NonFungibleGlobalId(Box::new(inner@)), n),
{
    match inner {
        TextValue::String(s) => {
            let st = s.as_str();
            match find_char(st, ':') {
                None => Err(Error::InvalidAddressString { value: s.clone() }),
                Some(c) => {
                    let len = st.unicode_len();
                    let addr_str = st.substring_char(0, c).to_owned();
                    let local_str = st.substring_char(c + 1, len).to_owned();
                    match bech32m_decode(&addr_str) {
                        Some((h, d)) => {
                            let expected = address_hrp("resource_", n);
                            if crate::value::string_eq(&h, &expected) && d.len()
                                == ADDRESS_LENGTH {
                                match parse_nflid(&local_str) {
                                    Some(l) => Ok(
                                        Value::NonFungibleGlobalId {
                                            address: crate::value::NonFungibleGlobalId {
                                                resource_address: NetworkAwareAddress {
                                                    network_id: n,
                                                    raw: d,
                                                },
                                                non_fungible_local_id: l,
                                            },
                                        },
                                    ),
                                    None => Err(
                                        Error::InvalidNonFungibleLocalIdString {
                                            value: local_str,
                                        },
                                    ),
                                }
                            } else {
                                Err(Error::InvalidAddressString { value: addr_str })
                            }
                        },
                        None => Err(Error::InvalidAddressString { value: addr_str }),
                    }
                },
            }
        },
        other => Err(
            Error::UnexpectedShape {
                parsing: ValueKind::NonFungibleGlobalId,
                expected: kind_vec1(ValueKind::String),
                found: kind_from_text(other.kind()),
            },
        ),
    }
}

/// Parses the inner node of an expression literal.
fn from_text_expression(inner: &TextValue, n: u8) -> (r: Result<Value, Error>)
    ensures
        result_view(r) == from_text_view(TextValueView::Expression(Box::new(inner@)), n),
{
    match inner {
        TextValue::String(s) => {
            if crate::value::string_eq(s, &String::from_str("ENTIRE_WORKTOP")) {
                Ok(Value::Expression { value: crate::value::ManifestExpression::EntireWorktop })
            } else if crate::value::string_eq(s, &String::from_str("ENTIRE_AUTH_ZONE")) {
                Ok(Value::Expression { value: crate::value::ManifestExpression::EntireAuthZone })
            } else {
                Err(
                    Error::InvalidExpressionString {
                        found: s.clone(),
                        expected: expression_names(),
                    },
                )
            }
        },
        other => Err(
            Error::UnexpectedShape {
                parsing: ValueKind::Expression,
                expected: kind_vec1(ValueKind::String),
                found: kind_from_text(other.kind()),
            },
        ),
    }
}

/// The two recognized expression literals.
fn expression_names() -> (r: Vec<String>)
    ensures
        r.deep_view() == seq!["ENTIRE_WORKTOP"@, "ENTIRE_AUTH_ZONE"@],
{
    let mut v: Vec<String> = Vec::new();
    v.push(String::from_str("ENTIRE_WORKTOP"));
    v.push(String::from_str("ENTIRE_AUTH_ZONE"));
    proof {
        assert(v.deep_view() =~= seq!["ENTIRE_WORKTOP"@, "ENTIRE_AUTH_ZONE"@]);
    }
    v
}

/// Parses a hexadecimal string literal into the byte-carrying kind named by
/// `parsing`; see [`from_hex_text`].
fn parse_hex_payload(
    inner: &TextValue,
    parsing: ValueKind,
    expected_len: Option<usize>,
    n: u8,
) -> (r: Result<Value, Error>)
    ensures
        result_view(r) == from_hex_text(inner@, parsing, expected_len, n),
{
    match inner {
        TextValue::String(s) => match crate::strings::hex_decode(s) {
            None => Err(Error::InvalidHexString { value: s.clone() }),
            Some(b) => {
                if let Some(l) = expected_len {
                    if b.len() != l {
                        return Err(
                            Error::InvalidLength { parsing, expected: l, found: b.len() },
                        );
                    }
                }
                match parsing {
                    ValueKind::Hash => Ok(Value::Hash { value: b }),
                    ValueKind::EcdsaSecp256k1PublicKey => Ok(
                        Value::EcdsaSecp256k1PublicKey { public_key: b },
                    ),
                    ValueKind::EcdsaSecp256k1Signature => Ok(
                        Value::EcdsaSecp256k1Signature { signature: b },
                    ),
                    ValueKind::EddsaEd25519PublicKey => Ok(
                        Value::EddsaEd25519PublicKey { public_key: b },
                    ),
                    ValueKind::EddsaEd25519Signature => Ok(
                        Value::EddsaEd25519Signature { signature: b },
                    ),
                    ValueKind::Blob => Ok(Value::Blob { hash: b }),
                    _ => Ok(Value::Bytes { value: b }),
                }
            },
        },
        other => Err(
            Error::UnexpectedShape {
                parsing,
                expected: kind_vec1(ValueKind::String),
                found: kind_from_text(other.kind()),
            },
        ),
    }
}

/// Parses the elements of a textual node vector in order.
fn from_text_seq(elements: &Vec<TextValue>, n: u8) -> (r: Result<Vec<Value>, Error>)
    ensures
        value_seq_result_view(r) == from_text_seq_view(text_views_of(elements@), n),
    decreases elements@,
{
    let ghost ts = text_views_of(elements@);
    proof {
        lemma_text_views_of(elements@);
    }
    let mut out: Vec<Value> = Vec::new();
    let mut i: usize = 0;
    while i < elements.len()
        invariant
            0 <= i <= elements@.len(),
            ts == text_views_of(elements@),
            ts.len() == elements@.len(),
            forall|j: int| 0 <= j < elements@.len() ==> #[trigger] ts[j] == text_view(
                elements@[j],
            ),
            from_text_seq_view(ts.take(i as int), n) == Ok::<_, ErrorView>(views_of(out@)),
        decreases elements@.len() - i,
    {
        let elem = &elements[i];
        proof {
            assert(decreases_to!(elements@ => elements@[i as int]));
        }
        match Value::from_text(elem, n) {
            Ok(v) => {
                let ghost out_pre = out@;
                let ghost vv = v@;
                out.push(v);
                proof {
                    lemma_from_text_seq_step(ts, n, i as int);
                    assert(out@.drop_last() =~= out_pre);
                    assert(views_of(out@) == views_of(out_pre).push(vv));
                }
            },
            Err(e) => {
                proof {
                    lemma_from_text_seq_step(ts, n, i as int);
                    lemma_from_text_seq_prefix_err(ts, n, i as int + 1);
                }
                return Err(e);
            },
        }
        i = i + 1;
    }
    proof {
        assert(ts.take(ts.len() as int) =~= ts);
    }
    Ok(out)
}

/// Parses the elements of a textual node vector in order, holding each
/// parsed element to the declared kind.
fn from_text_elements(kind: ValueKind, elements: &Vec<TextValue>, n: u8) -> (r: Result<
    Vec<Value>,
    Error,
>)
    ensures
        value_seq_result_view(r) == from_text_elements_view(kind, text_views_of(elements@), n),
    decreases elements@,
{
    let ghost ts = text_views_of(elements@);
    proof {
        lemma_text_views_of(elements@);
    }
    let mut out: Vec<Value> = Vec::new();
    let mut i: usize = 0;
    while i < elements.len()
        invariant
            0 <= i <= elements@.len(),
            ts == text_views_of(elements@),
            ts.len() == elements@.len(),
            forall|j: int| 0 <= j < elements@.len() ==> #[trigger] ts[j] == text_view(
                elements@[j],
            ),
            from_text_elements_view(kind, ts.take(i as int), n) == Ok::<_, ErrorView>(
                views_of(out@),
            ),
        decreases elements@.len() - i,
    {
        let elem = &elements[i];
        proof {
            assert(decreases_to!(elements@ => elements@[i as int]));
        }
        match Value::from_text(elem, n) {
            Ok(v) => {
                let k = v.kind();
                if k != kind {
                    proof {
                        lemma_from_text_elements_step(kind, ts, n, i as int);
                        lemma_from_text_elements_prefix_err(kind, ts, n, i as int + 1);
                    }
                    return Err(Error::HeterogeneousContainer { expected: kind, found: k });
                }
                let ghost out_pre = out@;
                let ghost vv = v@;
                out.push(v);
                proof {
                    lemma_from_text_elements_step(kind, ts, n, i as int);
                    assert(out@.drop_last() =~= out_pre);
                    assert(views_of(out@) == views_of(out_pre).push(vv));
                    crate::value::lemma_view_kind(out@.last());
                }
            },
            Err(e) => {
                proof {
                    lemma_from_text_elements_step(kind, ts, n, i as int);
                    lemma_from_text_elements_prefix_err(kind, ts, n, i as int + 1);
                }
                return Err(e);
            },
        }
        i = i + 1;
    }
    proof {
        assert(ts.take(ts.len() as int) =~= ts);
    }
    Ok(out)
}

/// Parses a flattened textual map node vector two nodes at a time, holding
/// parsed keys and values to the declared kinds.
#[verifier::rlimit(100)]
#[verifier::spinoff_prover]
/// A key node that fails to parse decides the whole entry parse.
proof fn lemma_entries_err_key(
    key_kind: ValueKind,
    value_kind: ValueKind,
    s: Seq<TextValueView>,
    n: u8,
    i: int,
    e: ErrorView,
)
    requires
        0 <= i,
        i % 2 == 0,
        i + 2 <= s.len(),
        s.len() % 2 == 0,
        from_text_entries_view(key_kind, value_kind, s.take(i), n) is Ok,
        from_text_view(s[i], n) == Err::<ValueView, ErrorView>(e),
    ensures
        from_text_entries_view(key_kind, value_kind, s, n) == Err::<
            Seq<(ValueView, ValueView)>,
            ErrorView,
        >(e),
{
    lemma_from_text_entries_step(key_kind, value_kind, s, n, i);
    lemma_from_text_entries_prefix_err(key_kind, value_kind, s, n, i + 2);
}

/// A key of the wrong kind decides the whole entry parse.
proof fn lemma_entries_err_key_kind(
    key_kind: ValueKind,
    value_kind: ValueKind,
    s: Seq<TextValueView>,
    n: u8,
    i: int,
    k: ValueView,
)
    requires
        0 <= i,
        i % 2 == 0,
        i + 2 <= s.len(),
        s.len() % 2 == 0,
        from_text_entries_view(key_kind, value_kind, s.take(i), n) is Ok,
        from_text_view(s[i], n) == Ok::<ValueView, ErrorView>(k),
        crate::value::view_kind(k) != key_kind,
    ensures
        from_text_entries_view(key_kind, value_kind, s, n) == Err::<
            Seq<(ValueView, ValueView)>,
            ErrorView,
        >(
            ErrorView::HeterogeneousContainer {
                expected: key_kind,
                found: crate::value::view_kind(k),
            },
        ),
{
    lemma_from_text_entries_step(key_kind, value_kind, s, n, i);
    lemma_from_text_entries_prefix_err(key_kind, value_kind, s, n, i + 2);
}

/// A value node that fails to parse decides the whole entry parse.
proof fn lemma_entries_err_val(
    key_kind: ValueKind,
    value_kind: ValueKind,
    s: Seq<TextValueView>,
    n: u8,
    i: int,
    k: ValueView,
    e: ErrorView,
)
    requires
        0 <= i,
        i % 2 == 0,
        i + 2 <= s.len(),
        s.len() % 2 == 0,
        from_text_entries_view(key_kind, value_kind, s.take(i), n) is Ok,
        from_text_view(s[i], n) == Ok::<ValueView, ErrorView>(k),
        crate::value::view_kind(k) == key_kind,
        from_text_view(s[i + 1], n) == Err::<ValueView, ErrorView>(e),
    ensures
        from_text_entries_view(key_kind, value_kind, s, n) == Err::<
            Seq<(ValueView, ValueView)>,
            ErrorView,
        >(e),
{
    lemma_from_text_entries_step(key_kind, value_kind, s, n, i);
    lemma_from_text_entries_prefix_err(key_kind, value_kind, s, n, i + 2);
}

/// A value of the wrong kind decides the whole entry parse.
proof fn lemma_entries_err_val_kind(
    key_kind: ValueKind,
    value_kind: ValueKind,
    s: Seq<TextValueView>,
    n: u8,
    i: int,
    k: ValueView,
    v: ValueView,
)
    requires
        0 <= i,
        i % 2 == 0,
        i + 2 <= s.len(),
        s.len() % 2 == 0,
        from_text_entries_view(key_kind, value_kind, s.take(i), n) is Ok,
        from_text_view(s[i], n) == Ok::<ValueView, ErrorView>(k),
        crate::value::view_kind(k) == key_kind,
        from_text_view(s[i + 1], n) == Ok::<ValueView, ErrorView>(v),
        crate::value::view_kind(v) != value_kind,
    ensures
        from_text_entries_view(key_kind, value_kind, s, n) == Err::<
            Seq<(ValueView, ValueView)>,
            ErrorView,
        >(
            ErrorView::HeterogeneousContainer {
                expected: value_kind,
                found: crate::value::view_kind(v),
            },
        ),
{
    lemma_from_text_entries_step(key_kind, value_kind, s, n, i);
    lemma_from_text_entries_prefix_err(key_kind, value_kind, s, n, i + 2);
}

/// A well-kinded pair extends the parsed entry prefix.
proof fn lemma_entries_ok_step(
    key_kind: ValueKind,
    value_kind: ValueKind,
    s: Seq<TextValueView>,
    n: u8,
    i: int,
    k: ValueView,
    v: ValueView,
)
    requires
        0 <= i,
        i % 2 == 0,
        i + 2 <= s.len(),
        s.len() % 2 == 0,
        from_text_entries_view(key_kind, value_kind, s.take(i), n) is Ok,
        from_text_view(s[i], n) == Ok::<ValueView, ErrorView>(k),
        crate::value::view_kind(k) == key_kind,
        from_text_view(s[i + 1], n) == Ok::<ValueView, ErrorView>(v),
        crate::value::view_kind(v) == value_kind,
    ensures
        from_text_entries_view(key_kind, value_kind, s.take(i + 2), n) == Ok::<
            _,
            ErrorView,
        >(from_text_entries_view(key_kind, value_kind, s.take(i), n)->Ok_0.push((k, v))),
{
    lemma_from_text_entries_step(key_kind, value_kind, s, n, i);
}

fn from_text_entries(
    key_kind: ValueKind,
    value_kind: ValueKind,
    nodes: &Vec<TextValue>,
    n: u8,
) -> (r: Result<Vec<(Value, Value)>, Error>)
    requires
        nodes@.len() % 2 == 0,
    ensures
        value_entries_result_view(r) == from_text_entries_view(
            key_kind,
            value_kind,
            text_views_of(nodes@),
            n,
        ),
    decreases nodes@,
{
    let ghost ts = text_views_of(nodes@);
    proof {
        lemma_text_views_of(nodes@);
    }
    let mut out: Vec<(Value, Value)> = Vec::new();
    let mut i: usize = 0;
    while i < nodes.len()
        invariant
            0 <= i <= nodes@.len(),
            i % 2 == 0,
            nodes@.len() % 2 == 0,
            ts == text_views_of(nodes@),
            ts.len() == nodes@.len(),
            forall|j: int| 0 <= j < nodes@.len() ==> #[trigger] ts[j] == text_view(nodes@[j]),
            from_text_entries_view(key_kind, value_kind, ts.take(i as int), n) == Ok::<
                _,
                ErrorView,
            >(entry_views_of(out@)),
        decreases nodes@.len() - i,
    {
        let knode = &nodes[i];
        let vnode = &nodes[i + 1];
        proof {
            assert(decreases_to!(nodes@ => nodes@[i as int]));
            assert(decreases_to!(nodes@ => nodes@[i as int + 1]));
        }
        let kv = match Value::from_text(knode, n) {
            Ok(v) => v,
            Err(e) => {
                proof {
                    lemma_entries_err_key(key_kind, value_kind, ts, n, i as int, e@);
                }
                return Err(e);
            },
        };
        let kk = kv.kind();
        if kk != key_kind {
            proof {
                crate::value::lemma_view_kind(kv);
                lemma_entries_err_key_kind(key_kind, value_kind, ts, n, i as int, kv@);
            }
            return Err(Error::HeterogeneousContainer { expected: key_kind, found: kk });
        }
        let vv = match Value::from_text(vnode, n) {
            Ok(v) => v,
            Err(e) => {
                proof {
                    crate::value::lemma_view_kind(kv);
                    lemma_entries_err_val(key_kind, value_kind, ts, n, i as int, kv@, e@);
                }
                return Err(e);
            },
        };
        let vk = vv.kind();
        if vk != value_kind {
            proof {
                crate::value::lemma_view_kind(kv);
                crate::value::lemma_view_kind(vv);
                lemma_entries_err_val_kind(key_kind, value_kind, ts, n, i as int, kv@, vv@);
            }
            return Err(Error::HeterogeneousContainer { expected: value_kind, found: vk });
        }
        let ghost out_pre = out@;
        let ghost kvv = kv@;
        let ghost vvv = vv@;
        out.push((kv, vv));
        proof {
            crate::value::lemma_view_kind(out@.last().0);
            crate::value::lemma_view_kind(out@.last().1);
            lemma_entries_ok_step(key_kind, value_kind, ts, n, i as int, kvv, vvv);
            assert(out@.drop_last() =~= out_pre);
            assert(entry_views_of(out@) == entry_views_of(out_pre).push((kvv, vvv)));
        }
        i = i + 2;
    }
    proof {
        assert(ts.take(ts.len() as int) =~= ts);
    }
    Ok(out)
}

/// The componentwise model of a rendered node vector.
pub open spec fn text_seq_result_view(r: Result<Vec<TextValue>, Error>) -> Result<
    Seq<TextValueView>,
    ErrorView,
> {
    match r {
        Ok(v) => Ok(text_views_of(v@)),
        Err(e) => Err(e@),
    }
}

impl Value {
    /// Renders this value as a textual AST node for the given network:
    /// addresses through the external bech32m codec under that network's
    /// human-readable part, byte payloads as hexadecimal, decimals and ids
    /// as string-wrapped literals. Fails exactly on an unresolvable string
    /// enum discriminator.
    #[verifier::rlimit(100)]
    pub fn to_text(&self, network_id: u8) -> (r: Result<TextValue, Error>)
        ensures
            result_view(r) == to_text_view(self@, network_id),
        decreases *self,
    {
        proof {
            reveal_with_fuel(text_view, 3);
        }
        match self {
            Value::Bool { value } => Ok(TextValue::Bool(*value)),
            Value::U8 { value } => Ok(TextValue::U8(*value)),
            Value::U16 { value } => Ok(TextValue::U16(*value)),
            Value::U32 { value } => Ok(TextValue::U32(*value)),
            Value::U64 { value } => Ok(TextValue::U64(*value)),
            Value::U128 { value } => Ok(TextValue::U128(*value)),
            Value::I8 { value } => Ok(TextValue::I8(*value)),
            Value::I16 { value } => Ok(TextValue::I16(*value)),
            Value::I32 { value } => Ok(TextValue::I32(*value)),
            Value::I64 { value } => Ok(TextValue::I64(*value)),
            Value::I128 { value } => Ok(TextValue::I128(*value)),
            Value::String { value } => Ok(TextValue::String(value.clone())),
            Value::Enum { variant, fields } => {
                let d = match variant.resolve_discriminator() {
                    Ok(d) => d,
                    Err(e) => {
                        proof {
                            lemma_resolve_view(*variant);
                        }
                        return Err(e);
                    },
                };
                proof {
                    lemma_resolve_view(*variant);
                }
                match fields {
                    Some(fs) => match to_text_seq(fs, network_id) {
                        Ok(ts) => {
                            let r = TextValue::Enum(d, ts);
                            proof {
                                assert(r@ == TextValueView::Enum(
                                    d,
                                    to_text_seq_view(views_of(fs@), network_id)->Ok_0,
                                ));
                                assert(to_text_view(self@, network_id) == Ok::<_, ErrorView>(
                                    TextValueView::Enum(
                                        d,
                                        to_text_seq_view(views_of(fs@), network_id)->Ok_0,
                                    ),
                                ));
                            }
                            Ok(r)
                        },
                        Err(e) => Err(e),
                    },
                    None => {
                        let fs: Vec<TextValue> = Vec::new();
                        let r = TextValue::Enum(d, fs);
                        proof {
                            reveal_with_fuel(text_views_of, 2);
                            assert(fs@.len() == 0);
                            assert(text_views_of(fs@) == Seq::<TextValueView>::empty());
                            assert(r@ == TextValueView::Enum(d, Seq::<TextValueView>::empty()));
                            assert(to_text_view(self@, network_id) == Ok::<_, ErrorView>(
                                TextValueView::Enum(d, Seq::<TextValueView>::empty()),
                            ));
                        }
                        Ok(r)
                    },
                }
            },
            Value::OptionSome { value } => match (&**value).to_text(network_id) {
                Ok(t) => Ok(TextValue::OptionSome(Box::new(t))),
                Err(e) => Err(e),
            },
            Value::OptionNone => Ok(TextValue::OptionNone),
            Value::ResultOk { value } => match (&**value).to_text(network_id) {
                Ok(t) => Ok(TextValue::ResultOk(Box::new(t))),
                Err(e) => Err(e),
            },
            Value::ResultErr { value } => match (&**value).to_text(network_id) {
                Ok(t) => Ok(TextValue::ResultErr(Box::new(t))),
                Err(e) => Err(e),
            },
            Value::Array { element_kind, elements } => match to_text_seq(elements, network_id) {
                Ok(ts) => Ok(TextValue::Array(kind_to_text(*element_kind), ts)),
                Err(e) => Err(e),
            },
            Value::MapValue { key_value_kind, value_value_kind, entries } => {
                match to_text_pairs(entries, network_id) {
                    Ok(ts) => Ok(
                        TextValue::MapValue(
                            kind_to_text(*key_value_kind),
                            kind_to_text(*value_value_kind),
                            ts,
                        ),
                    ),
                    Err(e) => Err(e),
                }
            },
            Value::Tuple { elements } => match to_text_seq(elements, network_id) {
                Ok(ts) => Ok(TextValue::Tuple(ts)),
                Err(e) => Err(e),
            },
            Value::Decimal { value } => Ok(
                TextValue::Decimal(Box::new(TextValue::String(value.clone()))),
            ),
            Value::PreciseDecimal { value } => Ok(
                TextValue::PreciseDecimal(Box::new(TextValue::String(value.clone()))),
            ),
            Value::Own { value } => Ok(
                TextValue::Own(Box::new(TextValue::String(own_to_string(value)))),
            ),
            Value::ComponentAddress { address } => Ok(
                TextValue::ComponentAddress(
                    Box::new(
                        TextValue::String(component_address_string(&address.raw, network_id)),
                    ),
                ),
            ),
            Value::ResourceAddress { address } => Ok(
                TextValue::ResourceAddress(
                    Box::new(TextValue::String(resource_address_string(&address.raw, network_id))),
                ),
            ),
            Value::PackageAddress { address } => Ok(
                TextValue::PackageAddress(
                    Box::new(TextValue::String(package_address_string(&address.raw, network_id))),
                ),
            ),
            Value::Hash { value } => Ok(
                TextValue::Hash(Box::new(TextValue::String(crate::strings::hex_encode(value)))),
            ),
            Value::EcdsaSecp256k1PublicKey { public_key } => Ok(
                TextValue::EcdsaSecp256k1PublicKey(
                    Box::new(TextValue::String(crate::strings::hex_encode(public_key))),
                ),
            ),
            Value::EcdsaSecp256k1Signature { signature } => Ok(
                TextValue::EcdsaSecp256k1Signature(
                    Box::new(TextValue::String(crate::strings::hex_encode(signature))),
                ),
            ),
            Value::EddsaEd25519PublicKey { public_key } => Ok(
                TextValue::EddsaEd25519PublicKey(
                    Box::new(TextValue::String(crate::strings::hex_encode(public_key))),
                ),
            ),
            Value::EddsaEd25519Signature { signature } => Ok(
                TextValue::EddsaEd25519Signature(
                    Box::new(TextValue::String(crate::strings::hex_encode(signature))),
                ),
            ),
            Value::Bucket { identifier } => Ok(
                TextValue::Bucket(
                    Box::new(
                        match identifier {
                            TransientIdentifier::String { value } => TextValue::String(
                                value.clone(),
                            ),
                            TransientIdentifier::U32 { value } => TextValue::U32(*value),
                        },
                    ),
                ),
            ),
            Value::Proof { identifier } => Ok(
                TextValue::Proof(
                    Box::new(
                        match identifier {
                            TransientIdentifier::String { value } => TextValue::String(
                                value.clone(),
                            ),
                            TransientIdentifier::U32 { value } => TextValue::U32(*value),
                        },
                    ),
                ),
            ),
            Value::NonFungibleLocalId { value } => Ok(
                TextValue::NonFungibleLocalId(
                    Box::new(TextValue::String(nflid_to_string(value))),
                ),
            ),
            Value::NonFungibleGlobalId { address } => {
                let mut s = resource_address_string(&address.resource_address.raw, network_id);
                string_push_char(&mut s, ':');
                let local = nflid_to_string(&address.non_fungible_local_id);
                s.append(local.as_str());
                proof {
                    assert(s@ =~= address_str_spec(
                        "resource_"@,
                        network_id,
                        address.resource_address.raw@,
                    ) + seq![':'] + nflid_str_spec(address.non_fungible_local_id@));
                }
                Ok(TextValue::NonFungibleGlobalId(Box::new(TextValue::String(s))))
            },
            Value::Expression { value } => Ok(
                TextValue::Expression(Box::new(TextValue::String(expression_to_string(value)))),
            ),
            Value::Blob { hash } => Ok(
                TextValue::Blob(Box::new(TextValue::String(crate::strings::hex_encode(hash)))),
            ),
            Value::Bytes { value } => Ok(
                TextValue::Bytes(Box::new(TextValue::String(crate::strings::hex_encode(value)))),
            ),
        }
    }
}

/// Renders the elements of a vector in order.
fn to_text_seq(elements: &Vec<Value>, n: u8) -> (r: Result<Vec<TextValue>, Error>)
    ensures
        text_seq_result_view(r) == to_text_seq_view(views_of(elements@), n),
    decreases elements@,
{
    let ghost vs = views_of(elements@);
    proof {
        lemma_views_of(elements@);
    }
    let mut out: Vec<TextValue> = Vec::new();
    let mut i: usize = 0;
    while i < elements.len()
        invariant
            0 <= i <= elements@.len(),
            vs == views_of(elements@),
            vs.len() == elements@.len(),
            forall|j: int| 0 <= j < elements@.len() ==> #[trigger] vs[j] == value_view(
                elements@[j],
            ),
            to_text_seq_view(vs.take(i as int), n) == Ok::<_, ErrorView>(text_views_of(out@)),
        decreases elements@.len() - i,
    {
        let elem = &elements[i];
        proof {
            assert(decreases_to!(elements@ => elements@[i as int]));
        }
        match elem.to_text(n) {
            Ok(t) => {
                let ghost out_pre = out@;
                let ghost tv = t@;
                out.push(t);
                proof {
                    lemma_to_text_seq_step(vs, n, i as int);
                    assert(out@.drop_last() =~= out_pre);
                    assert(text_views_of(out@) == text_views_of(out_pre).push(tv));
                }
            },
            Err(e) => {
                proof {
                    lemma_to_text_seq_step(vs, n, i as int);
                    lemma_to_text_seq_prefix_err(vs, n, i as int + 1);
                }
                return Err(e);
            },
        }
        i = i + 1;
    }
    proof {
        assert(vs.take(vs.len() as int) =~= vs);
    }
    Ok(out)
}

/// Renders the entries of a map vector in order, two nodes per entry.
fn to_text_pairs(entries: &Vec<(Value, Value)>, n: u8) -> (r: Result<Vec<TextValue>, Error>)
    ensures
        text_seq_result_view(r) == to_text_pairs_view(entry_views_of(entries@), n),
    decreases entries@,
{
    let ghost vs = entry_views_of(entries@);
    proof {
        lemma_entry_views_of(entries@);
    }
    let mut out: Vec<TextValue> = Vec::new();
    let mut i: usize = 0;
    while i < entries.len()
        invariant
            0 <= i <= entries@.len(),
            vs == entry_views_of(entries@),
            vs.len() == entries@.len(),
            forall|j: int| 0 <= j < entries@.len() ==> #[trigger] vs[j] == (
                value_view(entries@[j].0),
                value_view(entries@[j].1),
            ),
            to_text_pairs_view(vs.take(i as int), n) == Ok::<_, ErrorView>(text_views_of(out@)),
        decreases entries@.len() - i,
    {
        let key = &entries[i].0;
        let val = &entries[i].1;
        proof {
            assert(decreases_to!(entries@ => entries@[i as int]));
        }
        let tk = match key.to_text(n) {
            Ok(t) => t,
            Err(e) => {
                proof {
                    lemma_to_text_pairs_step(vs, n, i as int);
                    lemma_to_text_pairs_prefix_err(vs, n, i as int + 1);
                }
                return Err(e);
            },
        };
        let tv = match val.to_text(n) {
            Ok(t) => t,
            Err(e) => {
                proof {
                    lemma_to_text_pairs_step(vs, n, i as int);
                    lemma_to_text_pairs_prefix_err(vs, n, i as int + 1);
                }
                return Err(e);
            },
        };
        let ghost out_pre = out@;
        let ghost tkv = tk@;
        let ghost tvv = tv@;
        out.push(tk);
        let ghost out_mid = out@;
        out.push(tv);
        proof {
            lemma_to_text_pairs_step(vs, n, i as int);
            assert(out_mid.drop_last() =~= out_pre);
            assert(text_views_of(out_mid) == text_views_of(out_pre).push(tkv));
            assert(out@.drop_last() =~= out_mid);
            assert(text_views_of(out@) == text_views_of(out_mid).push(tvv));
        }
        i = i + 1;
    }
    proof {
        assert(vs.take(vs.len() as int) =~= vs);
    }
    Ok(out)
}

/// Converts a textual node kind to the value kind it parses to.
pub fn kind_from_text(k: TextKind) -> (r: ValueKind)
    ensures
        r == kind_from_text_spec(k),
{
    match k {
        TextKind::Bool => ValueKind::Bool,
        TextKind::U8 => ValueKind::U8,
        TextKind::U16 => ValueKind::U16,
        TextKind::U32 => ValueKind::U32,
        TextKind::U64 => ValueKind::U64,
        TextKind::U128 => ValueKind::U128,
        TextKind::I8 => ValueKind::I8,
        TextKind::I16 => ValueKind::I16,
        TextKind::I32 => ValueKind::I32,
        TextKind::I64 => ValueKind::I64,
        TextKind::I128 => ValueKind::I128,
        TextKind::String => ValueKind::String,
        TextKind::Enum => ValueKind::Enum,
        TextKind::Array => ValueKind::Array,
        TextKind::Tuple => ValueKind::Tuple,
        TextKind::Decimal => ValueKind::Decimal,
        TextKind::PreciseDecimal => ValueKind::PreciseDecimal,
        TextKind::Own => ValueKind::Own,
        TextKind::ComponentAddress => ValueKind::ComponentAddress,
        TextKind::ResourceAddress => ValueKind::ResourceAddress,
        TextKind::PackageAddress => ValueKind::PackageAddress,
        TextKind::Hash => ValueKind::Hash,
        TextKind::EcdsaSecp256k1PublicKey => ValueKind::EcdsaSecp256k1PublicKey,
        TextKind::EcdsaSecp256k1Signature => ValueKind::EcdsaSecp256k1Signature,
        TextKind::EddsaEd25519PublicKey => ValueKind::EddsaEd25519PublicKey,
        TextKind::EddsaEd25519Signature => ValueKind::EddsaEd25519Signature,
        TextKind::Bucket => ValueKind::Bucket,
        TextKind::Proof => ValueKind::Proof,
        TextKind::NonFungibleLocalId => ValueKind::NonFungibleLocalId,
        TextKind::NonFungibleGlobalId => ValueKind::NonFungibleGlobalId,
        TextKind::Expression => ValueKind::Expression,
        TextKind::Blob => ValueKind::Blob,
        TextKind::Bytes => ValueKind::Bytes,
    }
}


} // verus!
