use radix_engine_toolkit::address::{
    NetworkAwareAddress, ENTITY_ACCOUNT, ENTITY_FUNGIBLE_RESOURCE, ENTITY_NON_FUNGIBLE_RESOURCE,
    ENTITY_VALIDATOR,
};
use radix_engine_toolkit::classify::{
    classify, summarize, MintedNonFungible, TransactionReceipt, TransactionType, UnstakeData,
};
use radix_engine_toolkit::error::Error;
use radix_engine_toolkit::instruction::{
    Amount, Instruction, ManifestAddress, ReservedInstruction, ResourceSpecifier, ATTOS_PER_UNIT,
};
use radix_engine_toolkit::instruction::parse_amount;
use radix_engine_toolkit::strings::{hex_decode, hex_encode};
use radix_engine_toolkit::text::TextValue;
use radix_engine_toolkit::value::{
    array, EnumDiscriminator, NonFungibleLocalId, TransientIdentifier, Value, ValueKind,
};
use radix_engine_toolkit::visitor::{traverse, ValueVisitor};
use radix_engine_toolkit::wire::WireValue;

fn addr(class: u8, network_id: u8, tag: u8) -> NetworkAwareAddress {
    let mut raw = vec![class];
    raw.extend(std::iter::repeat(tag).take(29));
    NetworkAwareAddress { network_id, raw }
}

fn account(network_id: u8, tag: u8) -> NetworkAwareAddress {
    addr(ENTITY_ACCOUNT, network_id, tag)
}

fn resource(network_id: u8, tag: u8) -> NetworkAwareAddress {
    addr(ENTITY_FUNGIBLE_RESOURCE, network_id, tag)
}

fn withdraw_call(from: &NetworkAwareAddress, res: &NetworkAwareAddress, amount: &str) -> Instruction {
    Instruction::CallMethod {
        address: ManifestAddress::Static {
            address: NetworkAwareAddress { network_id: from.network_id, raw: from.raw.clone() },
        },
        method_name: String::from("withdraw"),
        args: vec![
            Value::ResourceAddress {
                address: NetworkAwareAddress { network_id: res.network_id, raw: res.raw.clone() },
            },
            Value::Decimal { value: String::from(amount) },
        ],
    }
}

fn take_call(res: &NetworkAwareAddress, amount: &str, bucket: u32) -> Instruction {
    Instruction::TakeFromWorktop {
        resource_address: NetworkAwareAddress {
            network_id: res.network_id,
            raw: res.raw.clone(),
        },
        amount: String::from(amount),
        new_bucket: TransientIdentifier::U32 { value: bucket },
    }
}

fn deposit_call(to: &NetworkAwareAddress, bucket: u32) -> Instruction {
    Instruction::CallMethod {
        address: ManifestAddress::Static {
            address: NetworkAwareAddress { network_id: to.network_id, raw: to.raw.clone() },
        },
        method_name: String::from("deposit"),
        args: vec![Value::Bucket { identifier: TransientIdentifier::U32 { value: bucket } }],
    }
}

fn committed_receipt() -> TransactionReceipt {
    TransactionReceipt {
        committed_success: true,
        new_component_addresses: vec![],
        new_resource_addresses: vec![],
        new_package_addresses: vec![],
        minted_non_fungible_data: vec![],
    }
}

#[test]
fn wire_round_trip_composite() {
    let v = Value::Tuple {
        elements: vec![
            Value::Bool { value: true },
            Value::U64 { value: 42 },
            Value::String { value: String::from("hello") },
            Value::Array {
                element_kind: ValueKind::U8,
                elements: vec![Value::U8 { value: 1 }, Value::U8 { value: 2 }],
            },
        ],
    };
    let w = v.to_wire().unwrap();
    let back = Value::from_wire(&w, 1);
    assert_eq!(back, v);
}

#[test]
fn wire_round_trip_address_same_network() {
    let v = Value::ComponentAddress { address: account(7, 3) };
    let w = v.to_wire().unwrap();
    let back = Value::from_wire(&w, 7);
    assert_eq!(back, v);
}

#[test]
fn wire_option_sugar_collapses_to_enum() {
    let v = Value::OptionSome { value: Box::new(Value::U8 { value: 5 }) };
    let w = v.to_wire().unwrap();
    match &w {
        WireValue::Enum { discriminator, fields } => {
            assert_eq!(*discriminator, 0);
            assert_eq!(fields.len(), 1);
        },
        _ => panic!("expected an enum on the wire"),
    }
    let back = Value::from_wire(&w, 1);
    assert!(matches!(back, Value::Enum { .. }));
}

#[test]
fn wire_rejects_named_bucket() {
    let v = Value::Bucket {
        identifier: TransientIdentifier::String { value: String::from("payment") },
    };
    match v.to_wire() {
        Err(Error::UnresolvedTransientIdentifier { identifier }) => {
            assert_eq!(identifier, "payment");
        },
        other => panic!("expected an unresolved identifier error, got {other:?}"),
    }
}

#[test]
fn kind_is_constant_across_calls() {
    let v = Value::Decimal { value: String::from("1.5") };
    let first = v.kind();
    let second = v.kind();
    assert_eq!(first, second);
    assert_eq!(first, ValueKind::Decimal);
    let w = Value::Decimal { value: String::from("999") };
    assert_eq!(w.kind(), ValueKind::Decimal);
}

#[test]
fn array_homogeneity_is_enforced() {
    let ok = array(
        ValueKind::U8,
        vec![Value::U8 { value: 1 }, Value::U8 { value: 2 }],
    );
    match ok {
        Ok(Value::Array { element_kind, elements }) => {
            assert_eq!(element_kind, ValueKind::U8);
            for e in &elements {
                assert_eq!(e.kind(), ValueKind::U8);
            }
        },
        other => panic!("expected a homogeneous array, got {other:?}"),
    }
    let bad = array(
        ValueKind::U8,
        vec![Value::U8 { value: 1 }, Value::String { value: String::from("x") }],
    );
    match bad {
        Err(Error::HeterogeneousContainer { expected, found }) => {
            assert_eq!(expected, ValueKind::U8);
            assert_eq!(found, ValueKind::String);
        },
        other => panic!("expected a heterogeneous container error, got {other:?}"),
    }
}

#[test]
fn enum_discriminator_resolution() {
    let d = EnumDiscriminator::String { discriminator: String::from("Option::None") };
    assert_eq!(d.resolve_discriminator().unwrap(), 1);
    let bad = EnumDiscriminator::String { discriminator: String::from("Nothing::Here") };
    assert!(matches!(
        bad.resolve_discriminator(),
        Err(Error::InvalidEnumDiscriminator { .. })
    ));
}

#[test]
fn text_bytes_render_as_hex() {
    let v = Value::Bytes { value: vec![0x0a, 0xff] };
    let t = v.to_text(1).unwrap();
    match &t {
        TextValue::Bytes(inner) => match &**inner {
            TextValue::String(s) => assert_eq!(s, "0aff"),
            other => panic!("expected a string literal, got {other:?}"),
        },
        other => panic!("expected a bytes node, got {other:?}"),
    }
    let back = Value::from_text(&t, 1).unwrap();
    assert_eq!(back, v);
}

#[test]
fn text_hex_differs_from_raw_bytes() {
    // The rendering must not hand the bytes back unchanged: two bytes become
    // four hexadecimal characters.
    let v = Value::Bytes { value: vec![1, 2] };
    match v.to_text(1).unwrap() {
        TextValue::Bytes(inner) => match *inner {
            TextValue::String(s) => assert_eq!(s.len(), 4),
            other => panic!("expected a string literal, got {other:?}"),
        },
        other => panic!("expected a bytes node, got {other:?}"),
    }
}

#[test]
fn text_address_round_trip_through_bech32() {
    let v = Value::ComponentAddress { address: account(1, 9) };
    let t = v.to_text(1).unwrap();
    let rendered = match &t {
        TextValue::ComponentAddress(inner) => match &**inner {
            TextValue::String(s) => s.clone(),
            other => panic!("expected a string literal, got {other:?}"),
        },
        other => panic!("expected an address node, got {other:?}"),
    };
    // The wrapper must agree with the outside codec called directly.
    let direct = bech32::encode(
        "component_rdx",
        bech32::ToBase32::to_base32(&account(1, 9).raw),
        bech32::Variant::Bech32m,
    )
    .unwrap();
    assert_eq!(rendered, direct);
    let back = Value::from_text(&t, 1).unwrap();
    assert_eq!(back, v);
}

#[test]
fn text_address_rejects_wrong_network() {
    let v = Value::ComponentAddress { address: account(1, 9) };
    let t = v.to_text(1).unwrap();
    match Value::from_text(&t, 2) {
        Err(Error::InvalidAddressString { .. }) => {},
        other => panic!("expected an address error, got {other:?}"),
    }
}

#[test]
fn text_decimal_grammar() {
    let t = TextValue::Decimal(Box::new(TextValue::String(String::from("10.5"))));
    assert_eq!(
        Value::from_text(&t, 1).unwrap(),
        Value::Decimal { value: String::from("10.5") }
    );
    let bad = TextValue::Decimal(Box::new(TextValue::String(String::from("ten"))));
    assert!(matches!(
        Value::from_text(&bad, 1),
        Err(Error::InvalidDecimalString { .. })
    ));
    let shape = TextValue::Decimal(Box::new(TextValue::U8(3)));
    assert!(matches!(Value::from_text(&shape, 1), Err(Error::UnexpectedShape { .. })));
}

#[test]
fn text_non_fungible_local_id_forms() {
    let v = Value::NonFungibleLocalId { value: NonFungibleLocalId::Integer { value: 12 } };
    let t = v.to_text(1).unwrap();
    match &t {
        TextValue::NonFungibleLocalId(inner) => match &**inner {
            TextValue::String(s) => assert_eq!(s, "#12#"),
            other => panic!("expected a string literal, got {other:?}"),
        },
        other => panic!("expected a local id node, got {other:?}"),
    }
    assert_eq!(Value::from_text(&t, 1).unwrap(), v);
    let bad = TextValue::NonFungibleLocalId(Box::new(TextValue::String(String::from("#x#"))));
    assert!(matches!(
        Value::from_text(&bad, 1),
        Err(Error::InvalidNonFungibleLocalIdString { .. })
    ));
}

#[test]
fn text_expression_literals() {
    let v = Value::Expression {
        value: radix_engine_toolkit::value::ManifestExpression::EntireWorktop,
    };
    let t = v.to_text(1).unwrap();
    assert_eq!(Value::from_text(&t, 1).unwrap(), v);
    let bad = TextValue::Expression(Box::new(TextValue::String(String::from("EVERYTHING"))));
    assert!(matches!(
        Value::from_text(&bad, 1),
        Err(Error::InvalidExpressionString { .. })
    ));
}

#[test]
fn text_map_rejects_odd_node_count() {
    let t = TextValue::MapValue(
        radix_engine_toolkit::text::TextKind::U8,
        radix_engine_toolkit::text::TextKind::U8,
        vec![TextValue::U8(1)],
    );
    assert!(matches!(Value::from_text(&t, 1), Err(Error::OddNumberOfElements)));
}

#[test]
fn traversal_aborts_on_second_instruction() {
    // Five instructions; the second carries an address on the wrong network.
    // The verifier runs before the aggregator, so the aggregator only ever
    // sees the first instruction.
    let good = resource(1, 1);
    let bad = resource(7, 2);
    let instructions = vec![
        take_call(&good, "1", 1),
        take_call(&bad, "1", 2),
        take_call(&good, "1", 3),
        take_call(&good, "1", 4),
        take_call(&good, "1", 5),
    ];
    let mut vvs = vec![
        ValueVisitor::NetworkVerifier { expected_network_id: 1 },
        ValueVisitor::AddressAggregator {
            component_addresses: vec![],
            resource_addresses: vec![],
            package_addresses: vec![],
        },
    ];
    let mut ivs = vec![];
    let r = traverse(&instructions, &mut vvs, &mut ivs);
    match r {
        Err(Error::NetworkMismatchError { found, expected }) => {
            assert_eq!(found, 7);
            assert_eq!(expected, 1);
        },
        other => panic!("expected a network mismatch, got {other:?}"),
    }
    match &vvs[1] {
        ValueVisitor::AddressAggregator { resource_addresses, .. } => {
            // Only the first instruction was seen by the later-registered
            // visitor: one resource address, from instruction one.
            assert_eq!(resource_addresses.len(), 1);
            assert_eq!(resource_addresses[0].raw, good.raw);
        },
        other => panic!("expected the aggregator, got {other:?}"),
    }
}

#[test]
fn classifier_is_deterministic() {
    let a = account(1, 1);
    let b = account(1, 2);
    let r = resource(1, 3);
    let instructions = vec![
        withdraw_call(&a, &r, "10"),
        take_call(&r, "10", 1),
        deposit_call(&b, 1),
    ];
    let receipt = committed_receipt();
    let first = classify(&instructions, summarize(&instructions), Some(&receipt));
    let second = classify(&instructions, summarize(&instructions), Some(&receipt));
    assert!(matches!(first, TransactionType::SimpleTransfer { .. }));
    assert!(matches!(second, TransactionType::SimpleTransfer { .. }));
}

#[test]
fn simple_transfer_scenario() {
    let a = account(1, 1);
    let b = account(1, 2);
    let r = resource(1, 3);
    let instructions = vec![
        withdraw_call(&a, &r, "10"),
        take_call(&r, "10", 1),
        deposit_call(&b, 1),
    ];
    let summary = summarize(&instructions);
    match classify(&instructions, summary, None) {
        TransactionType::SimpleTransfer { from, to, transferred } => {
            assert_eq!(from.raw, a.raw);
            assert_eq!(to.raw, b.raw);
            match transferred {
                ResourceSpecifier::Amount { resource_address, amount } => {
                    assert_eq!(resource_address.raw, r.raw);
                    assert_eq!(amount, Amount { attos: 10 * ATTOS_PER_UNIT });
                },
                other => panic!("expected a fungible amount, got {other:?}"),
            }
        },
        other => panic!("expected a simple transfer, got {other:?}"),
    }
}

#[test]
fn ambiguous_transfer_becomes_general() {
    let a = account(1, 1);
    let b = account(1, 2);
    let r = resource(1, 3);
    let instructions = vec![
        withdraw_call(&a, &r, "10"),
        withdraw_call(&b, &r, "5"),
        take_call(&r, "15", 1),
    ];
    let summary = summarize(&instructions);
    match classify(&instructions, summary, None) {
        TransactionType::GeneralTransaction { account_withdraws, .. } => {
            assert_eq!(account_withdraws.len(), 2);
            assert_eq!(account_withdraws[0].account.raw, a.raw);
            assert_eq!(account_withdraws[1].account.raw, b.raw);
        },
        other => panic!("expected the general fallback, got {other:?}"),
    }
}

#[test]
fn unstake_scenario() {
    let a = account(1, 1);
    let stake_unit = resource(1, 4);
    let validator = addr(ENTITY_VALIDATOR, 1, 5);
    let claim_nft = addr(ENTITY_NON_FUNGIBLE_RESOURCE, 1, 6);
    let instructions = vec![
        withdraw_call(&a, &stake_unit, "5"),
        take_call(&stake_unit, "5", 1),
        Instruction::CallMethod {
            address: ManifestAddress::Static {
                address: NetworkAwareAddress {
                    network_id: validator.network_id,
                    raw: validator.raw.clone(),
                },
            },
            method_name: String::from("unstake"),
            args: vec![Value::Bucket { identifier: TransientIdentifier::U32 { value: 1 } }],
        },
    ];
    let receipt = TransactionReceipt {
        committed_success: true,
        new_component_addresses: vec![],
        new_resource_addresses: vec![],
        new_package_addresses: vec![],
        minted_non_fungible_data: vec![MintedNonFungible {
            resource_address: claim_nft.clone(),
            local_id: NonFungibleLocalId::Integer { value: 1 },
            data: UnstakeData {
                name: String::from("Stake Claim"),
                claim_epoch: 700,
                claim_amount: Amount { attos: 5 * ATTOS_PER_UNIT },
            },
        }],
    };
    let summary = summarize(&instructions);
    match classify(&instructions, summary, Some(&receipt)) {
        TransactionType::Unstake { unstakes } => {
            assert_eq!(unstakes.len(), 1);
            assert_eq!(
                unstakes[0].claim_nft_local_id,
                NonFungibleLocalId::Integer { value: 1 }
            );
            assert_eq!(unstakes[0].claim_nft_data.claim_epoch, 700);
            assert_eq!(unstakes[0].claim_nft_resource.raw, claim_nft.raw);
            assert_eq!(unstakes[0].from_account.raw, a.raw);
        },
        other => panic!("expected an unstake, got {other:?}"),
    }
}

#[test]
fn reserved_instruction_flag_is_orthogonal() {
    let a = account(1, 1);
    let b = account(1, 2);
    let r = resource(1, 3);
    let instructions = vec![
        Instruction::CallMethod {
            address: ManifestAddress::Static {
                address: NetworkAwareAddress { network_id: a.network_id, raw: a.raw.clone() },
            },
            method_name: String::from("lock_fee"),
            args: vec![Value::Decimal { value: String::from("10") }],
        },
        withdraw_call(&a, &r, "10"),
        take_call(&r, "10", 1),
        deposit_call(&b, 1),
    ];
    let summary = summarize(&instructions);
    assert!(summary
        .reserved_instructions
        .contains(&ReservedInstruction::AccountLockFee));
}

#[test]
fn amount_parsing_is_exact() {
    assert_eq!(
        parse_amount(&String::from("10")),
        Some(Amount { attos: 10 * ATTOS_PER_UNIT })
    );
    assert_eq!(
        parse_amount(&String::from("10.5")),
        Some(Amount { attos: 10 * ATTOS_PER_UNIT + ATTOS_PER_UNIT / 2 })
    );
    assert_eq!(parse_amount(&String::from("")), None);
    assert_eq!(parse_amount(&String::from("1.2.3")), None);
}

#[test]
fn hex_wrappers_agree_with_the_crate() {
    let bytes = vec![0u8, 1, 2, 250];
    let rendered = hex_encode(&bytes);
    assert_eq!(rendered, hex::encode(&bytes));
    assert_eq!(hex_decode(&rendered), Some(bytes));
    assert_eq!(hex_decode(&String::from("zz")), None);
    assert_eq!(hex_decode(&String::from("abc")), None);
}

#[test]
fn text_uuid_renders_as_fixed_hex() {
    let v = Value::NonFungibleLocalId { value: NonFungibleLocalId::UUID { value: 5 } };
    let t = v.to_text(1).unwrap();
    match &t {
        TextValue::NonFungibleLocalId(inner) => match &**inner {
            TextValue::String(s) => {
                assert_eq!(s, "{00000000000000000000000000000005}");
            },
            other => panic!("expected a string literal, got {other:?}"),
        },
        other => panic!("expected a local id node, got {other:?}"),
    }
    assert_eq!(Value::from_text(&t, 1).unwrap(), v);
}

#[test]
fn stake_scenario_records_validators() {
    let a = account(1, 1);
    let xrd = resource(1, 3);
    let validator = addr(ENTITY_VALIDATOR, 1, 5);
    let instructions = vec![
        withdraw_call(&a, &xrd, "7"),
        take_call(&xrd, "7", 1),
        Instruction::CallMethod {
            address: ManifestAddress::Static {
                address: NetworkAwareAddress {
                    network_id: validator.network_id,
                    raw: validator.raw.clone(),
                },
            },
            method_name: String::from("stake"),
            args: vec![Value::Bucket { identifier: TransientIdentifier::U32 { value: 1 } }],
        },
    ];
    let receipt = committed_receipt();
    let summary = summarize(&instructions);
    match classify(&instructions, summary, Some(&receipt)) {
        TransactionType::Stake { stakes } => {
            assert_eq!(stakes.len(), 1);
            assert_eq!(stakes[0].validator_address.raw, validator.raw);
            assert_eq!(stakes[0].from_account.raw, a.raw);
            assert_eq!(stakes[0].staked_xrd, Amount { attos: 7 * ATTOS_PER_UNIT });
        },
        other => panic!("expected a stake, got {other:?}"),
    }
}
