//! The transaction classifier.
//!
//! The classifier consumes a parsed instruction sequence and, for the
//! receipt-dependent categories, a committed execution receipt, and assigns
//! the manifest to exactly one semantic transaction category by a fixed
//! first-match order. Independently, a reserved-instruction scan flags every
//! instruction that needs privileged signature-based authorization.

use vstd::prelude::*;

use crate::address::NetworkAwareAddress;
use crate::error::{Error, ErrorView};
use crate::instruction::{
    AccountDeposit, AccountDepositView, AccountWithdraw, AccountWithdrawView, Amount,
    Instruction, ManifestAddress, ReservedInstruction, ResourceSpecifier, ResourceSpecifierView,
    Source, SourceView, amount_of_spec, nflid_views_of, parse_amount,
};
use crate::value::{
    AddressView, NonFungibleLocalId, NonFungibleLocalIdView, TransientIdentifier,
    TransientIdentifierView, Value, ValueKind, string_eq,
};
use crate::visitor::{addr_class, addr_views_of, copy_address};

verus! {

/// A method that an account only honours with its owner's authorization.
pub open spec fn account_auth_method(m: Seq<char>) -> bool {
    m == "withdraw"@ || m == "withdraw_non_fungibles"@ || m == "lock_fee"@ || m
        == "lock_contingent_fee"@ || m == "securify"@ || m == "create_proof_of_amount"@ || m
        == "create_proof_of_non_fungibles"@ || account_settings_method(m)
}

/// A method that changes an account's deposit settings.
pub open spec fn account_settings_method(m: Seq<char>) -> bool {
    m == "set_resource_preference"@ || m == "remove_resource_preference"@ || m
        == "set_default_deposit_rule"@ || m == "add_authorized_depositor"@ || m
        == "remove_authorized_depositor"@
}

/// Decides [`account_auth_method`].
pub fn is_account_auth_method(m: &String) -> (r: bool)
    ensures
        r == account_auth_method(m@),
{
    string_eq(m, &String::from_str("withdraw")) || string_eq(
        m,
        &String::from_str("withdraw_non_fungibles"),
    ) || string_eq(m, &String::from_str("lock_fee")) || string_eq(
        m,
        &String::from_str("lock_contingent_fee"),
    ) || string_eq(m, &String::from_str("securify")) || string_eq(
        m,
        &String::from_str("create_proof_of_amount"),
    ) || string_eq(m, &String::from_str("create_proof_of_non_fungibles"))
        || is_account_settings_method(m)
}

/// Decides [`account_settings_method`].
pub fn is_account_settings_method(m: &String) -> (r: bool)
    ensures
        r == account_settings_method(m@),
{
    string_eq(m, &String::from_str("set_resource_preference")) || string_eq(
        m,
        &String::from_str("remove_resource_preference"),
    ) || string_eq(m, &String::from_str("set_default_deposit_rule")) || string_eq(
        m,
        &String::from_str("add_authorized_depositor"),
    ) || string_eq(m, &String::from_str("remove_authorized_depositor"))
}

/// The local ids named by a vector of non-fungible local id values, if all
/// elements are such values.
pub open spec fn nflid_list_of(s: Seq<Value>) -> Option<Seq<NonFungibleLocalIdView>>
    decreases s,
{
    if s.len() == 0 {
        Some(Seq::empty())
    } else {
        match nflid_list_of(s.drop_last()) {
            None => None,
            Some(ids) => match s.last() {
                Value::NonFungibleLocalId { value } => Some(ids.push(value@)),
                _ => None,
            },
        }
    }
}

/// Extracts the local ids of a vector of non-fungible local id values.
pub fn extract_nflids(elements: &Vec<Value>) -> (r: Option<Vec<NonFungibleLocalId>>)
    ensures
        match r {
            Some(ids) => nflid_list_of(elements@) == Some(nflid_views_of(ids@)),
            None => nflid_list_of(elements@) is None,
        },
{
    let mut out: Vec<NonFungibleLocalId> = Vec::new();
    let mut i: usize = 0;
    while i < elements.len()
        invariant
            0 <= i <= elements@.len(),
            nflid_list_of(elements@.take(i as int)) == Some(nflid_views_of(out@)),
        decreases elements@.len() - i,
    {
        proof {
            assert(elements@.take(i as int + 1).drop_last() =~= elements@.take(i as int));
            assert(elements@.take(i as int + 1).last() == elements@[i as int]);
        }
        match &elements[i] {
            Value::NonFungibleLocalId { value } => {
                let ghost pre = out@;
                out.push(crate::wire::copy_non_fungible_local_id(value));
                proof {
                    assert(out@.drop_last() =~= pre);
                    assert(nflid_views_of(out@) == nflid_views_of(pre).push(
                        elements@[i as int]->NonFungibleLocalId_value@,
                    ));
                }
            },
            _ => {
                proof {
                    lemma_nflid_list_prefix_none(elements@, i as int + 1);
                }
                return None;
            },
        }
        i = i + 1;
    }
    proof {
        assert(elements@.take(elements@.len() as int) =~= elements@);
    }
    Some(out)
}

/// A failed local-id prefix decides the whole extraction.
proof fn lemma_nflid_list_prefix_none(s: Seq<Value>, i: int)
    requires
        0 <= i <= s.len(),
        nflid_list_of(s.take(i)) is None,
    ensures
        nflid_list_of(s) is None,
    decreases s.len(),
{
    if i == s.len() {
        assert(s.take(i) =~= s);
    } else {
        assert(s.drop_last().take(i) =~= s.take(i));
        lemma_nflid_list_prefix_none(s.drop_last(), i);
    }
}

/// The withdrawals one instruction performs: a `withdraw` or
/// `withdraw_non_fungibles` call on an account with well-formed arguments.
pub open spec fn withdraw_facts(instr: Instruction) -> Seq<AccountWithdrawView> {
    match instr {
        Instruction::CallMethod { address: ManifestAddress::Static { address }, method_name, args } => {
            if addr_class(address) is Account && method_name@ == "withdraw"@ && args@.len() == 2
                && args@[0] is ResourceAddress && args@[1] is Decimal && amount_of_spec(
                args@[1]->Decimal_value@,
            ) is Some {
                seq![
                    AccountWithdrawView {
                        account: address@,
                        specifier: ResourceSpecifierView::Amount {
                            resource_address: args@[0]->ResourceAddress_address@,
                            amount: Amount {
                                attos: amount_of_spec(args@[1]->Decimal_value@)->Some_0,
                            },
                        },
                    },
                ]
            } else if addr_class(address) is Account && method_name@ == "withdraw_non_fungibles"@
                && args@.len() == 2 && args@[0] is ResourceAddress && args@[1] is Array
                && nflid_list_of(args@[1]->Array_elements@) is Some {
                seq![
                    AccountWithdrawView {
                        account: address@,
                        specifier: ResourceSpecifierView::Ids {
                            resource_address: args@[0]->ResourceAddress_address@,
                            ids: nflid_list_of(args@[1]->Array_elements@)->Some_0,
                        },
                    },
                ]
            } else {
                Seq::empty()
            }
        },
        _ => Seq::empty(),
    }
}

/// The accounts whose authorization one instruction needs.
pub open spec fn auth_facts(instr: Instruction) -> Seq<AddressView> {
    match instr {
        Instruction::CallMethod { address: ManifestAddress::Static { address }, method_name, .. } => {
            if addr_class(address) is Account && account_auth_method(method_name@) {
                seq![address@]
            } else {
                Seq::empty()
            }
        },
        _ => Seq::empty(),
    }
}

/// The resources one instruction proves from an account.
pub open spec fn proof_facts(instr: Instruction) -> Seq<AddressView> {
    match instr {
        Instruction::CallMethod { address: ManifestAddress::Static { address }, method_name, args } => {
            if addr_class(address) is Account && (method_name@ == "create_proof_of_amount"@
                || method_name@ == "create_proof_of_non_fungibles"@) && args@.len() >= 1
                && args@[0] is ResourceAddress {
                seq![args@[0]->ResourceAddress_address@]
            } else {
                Seq::empty()
            }
        },
        _ => Seq::empty(),
    }
}

/// The reserved-instruction flags one instruction raises.
pub open spec fn reserved_facts(instr: Instruction) -> Seq<ReservedInstruction> {
    match instr {
        Instruction::CallMethod { address: ManifestAddress::Static { address }, method_name, .. } => {
            if addr_class(address) is Account && (method_name@ == "lock_fee"@ || method_name@
                == "lock_contingent_fee"@) {
                seq![ReservedInstruction::AccountLockFee]
            } else if addr_class(address) is Account && method_name@ == "securify"@ {
                seq![ReservedInstruction::AccountSecurify]
            } else if addr_class(address) is Identity && method_name@ == "securify"@ {
                seq![ReservedInstruction::IdentitySecurify]
            } else if addr_class(address) is Account && account_settings_method(method_name@) {
                seq![ReservedInstruction::AccountUpdateSettings]
            } else if addr_class(address) is AccessController {
                seq![ReservedInstruction::AccessController]
            } else {
                Seq::empty()
            }
        },
        _ => Seq::empty(),
    }
}

/// An instruction visitor: dispatched once per instruction, in order.
#[derive(Debug)]
pub enum InstructionVisitor {
    /// Collects the accounts whose authorization the manifest needs.
    AccountInteractions { auth_required: Vec<NetworkAwareAddress> },
    /// Collects the withdrawals from accounts, in manifest order.
    AccountWithdraws { withdraws: Vec<AccountWithdraw> },
    /// Collects the resources proved from accounts.
    AccountProofs { created_proofs: Vec<NetworkAwareAddress> },
    /// Collects the reserved-instruction flags.
    ReservedInstructions { reserved: Vec<ReservedInstruction> },
}

/// The mathematical model of an instruction visitor's state.
pub enum InstructionVisitorView {
    AccountInteractions { auth_required: Seq<AddressView> },
    AccountWithdraws { withdraws: Seq<AccountWithdrawView> },
    AccountProofs { created_proofs: Seq<AddressView> },
    ReservedInstructions { reserved: Seq<ReservedInstruction> },
}

/// The models of a vector of withdrawals, in order.
pub open spec fn withdraw_views_of(s: Seq<AccountWithdraw>) -> Seq<AccountWithdrawView>
    decreases s,
{
    if s.len() == 0 {
        Seq::empty()
    } else {
        withdraw_views_of(s.drop_last()).push(s.last()@)
    }
}

/// `withdraw_views_of` maps the sequence elementwise.
pub proof fn lemma_withdraw_views_of(s: Seq<AccountWithdraw>)
    ensures
        withdraw_views_of(s).len() == s.len(),
        forall|i: int| 0 <= i < s.len() ==> #[trigger] withdraw_views_of(s)[i] == s[i]@,
    decreases s,
{
    if s.len() > 0 {
        lemma_withdraw_views_of(s.drop_last());
    }
}

impl View for InstructionVisitor {
    type V = InstructionVisitorView;

    open spec fn view(&self) -> InstructionVisitorView {
        match self {
            InstructionVisitor::AccountInteractions { auth_required } => {
                InstructionVisitorView::AccountInteractions {
                    auth_required: addr_views_of(auth_required@),
                }
            },
            InstructionVisitor::AccountWithdraws { withdraws } => {
                InstructionVisitorView::AccountWithdraws {
                    withdraws: withdraw_views_of(withdraws@),
                }
            },
            InstructionVisitor::AccountProofs { created_proofs } => {
                InstructionVisitorView::AccountProofs {
                    created_proofs: addr_views_of(created_proofs@),
                }
            },
            InstructionVisitor::ReservedInstructions { reserved } => {
                InstructionVisitorView::ReservedInstructions { reserved: reserved@ }
            },
        }
    }
}

/// What one instruction visitor's state becomes on one instruction.
pub open spec fn iv_step_view(v: InstructionVisitorView, instr: Instruction)
    -> InstructionVisitorView {
    match v {
        InstructionVisitorView::AccountInteractions { auth_required } => {
            InstructionVisitorView::AccountInteractions {
                auth_required: auth_required + auth_facts(instr),
            }
        },
        InstructionVisitorView::AccountWithdraws { withdraws } => {
            InstructionVisitorView::AccountWithdraws {
                withdraws: withdraws + withdraw_facts(instr),
            }
        },
        InstructionVisitorView::AccountProofs { created_proofs } => {
            InstructionVisitorView::AccountProofs {
                created_proofs: created_proofs + proof_facts(instr),
            }
        },
        InstructionVisitorView::ReservedInstructions { reserved } => {
            InstructionVisitorView::ReservedInstructions {
                reserved: reserved + reserved_facts(instr),
            }
        },
    }
}

/// Steps one instruction visitor on one instruction. Instruction visitors
/// are total: they report no errors.
pub fn iv_step(v: InstructionVisitor, instr: &Instruction) -> (r: InstructionVisitor)
    ensures
        r@ == iv_step_view(v@, *instr),
{
    match v {
        InstructionVisitor::AccountInteractions { mut auth_required } => {
            let ghost pre = auth_required@;
            if let Instruction::CallMethod {
                address: ManifestAddress::Static { address },
                method_name,
                ..
            } = instr {
                if address.raw.len() > 0 && crate::address::entity_class(address.raw[0])
                    == crate::address::EntityClass::Account && is_account_auth_method(
                    method_name,
                ) {
                    auth_required.push(copy_address(address));
                    proof {
                        assert(auth_required@.drop_last() =~= pre);
                        assert(addr_views_of(auth_required@) =~= addr_views_of(pre) + auth_facts(
                            *instr,
                        ));
                    }
                }
            }
            proof {
                assert(addr_views_of(pre) + Seq::<AddressView>::empty() =~= addr_views_of(pre));
                assert(addr_views_of(auth_required@) =~= addr_views_of(pre) + auth_facts(
                    *instr,
                ));
            }
            InstructionVisitor::AccountInteractions { auth_required }
        },
        InstructionVisitor::AccountWithdraws { mut withdraws } => {
            let ghost pre = withdraws@;
            proof {
                reveal_strlit("withdraw");
                reveal_strlit("withdraw_non_fungibles");
                assert("withdraw"@.len() != "withdraw_non_fungibles"@.len());
            }
            if let Instruction::CallMethod {
                address: ManifestAddress::Static { address },
                method_name,
                args,
            } = instr {
                if address.raw.len() > 0 && crate::address::entity_class(address.raw[0])
                    == crate::address::EntityClass::Account {
                    if string_eq(method_name, &String::from_str("withdraw")) && args.len() == 2 {
                        if let Value::ResourceAddress { address: res } = &args[0] {
                            if let Value::Decimal { value: d } = &args[1] {
                            if let Some(amount) = parse_amount(d) {
                                let w = AccountWithdraw {
                                    account: copy_address(address),
                                    specifier: ResourceSpecifier::Amount {
                                        resource_address: copy_address(res),
                                        amount,
                                    },
                                };
                                let ghost wv = w@;
                                withdraws.push(w);
                                proof {
                                    assert(withdraws@.drop_last() =~= pre);
                                    assert(wv == withdraw_facts(*instr)[0]);
                                    assert(withdraw_views_of(withdraws@) =~= withdraw_views_of(
                                        pre,
                                    ) + withdraw_facts(*instr));
                                }
                            }
                            }
                        }
                    } else if string_eq(method_name, &String::from_str("withdraw_non_fungibles"))
                        && args.len() == 2 {
                        if let Value::ResourceAddress { address: res } = &args[0] {
                            if let Value::Array { elements, .. } = &args[1] {
                            if let Some(ids) = extract_nflids(elements) {
                                let ghost idsv = nflid_views_of(ids@);
                                let w = AccountWithdraw {
                                    account: copy_address(address),
                                    specifier: ResourceSpecifier::Ids {
                                        resource_address: copy_address(res),
                                        ids,
                                    },
                                };
                                let ghost wv = w@;
                                withdraws.push(w);
                                proof {
                                    assert(withdraws@.drop_last() =~= pre);
                                    assert(wv.specifier->Ids_ids == idsv);
                                    assert(nflid_list_of(args@[1]->Array_elements@)
                                        == Some(idsv));
                                    assert(wv == withdraw_facts(*instr)[0]);
                                    assert(withdraw_facts(*instr) =~= seq![wv]);
                                    assert(withdraw_views_of(withdraws@) =~= withdraw_views_of(
                                        pre,
                                    ).push(wv));
                                    assert(withdraw_views_of(pre) + seq![wv]
                                        =~= withdraw_views_of(pre).push(wv));
                                    assert(withdraw_views_of(withdraws@) =~= withdraw_views_of(
                                        pre,
                                    ) + withdraw_facts(*instr));
                                }
                            }
                            }
                        }
                    }
                }
            }
            proof {
                if withdraws@ == pre {
                    assert(withdraw_facts(*instr) =~= Seq::<AccountWithdrawView>::empty());
                    assert(withdraw_views_of(pre) + Seq::<AccountWithdrawView>::empty()
                        =~= withdraw_views_of(pre));
                }
                assert(withdraw_views_of(withdraws@) =~= withdraw_views_of(pre) + withdraw_facts(
                    *instr,
                ));
            }
            InstructionVisitor::AccountWithdraws { withdraws }
        },
        InstructionVisitor::AccountProofs { mut created_proofs } => {
            let ghost pre = created_proofs@;
            if let Instruction::CallMethod {
                address: ManifestAddress::Static { address },
                method_name,
                args,
            } = instr {
                if address.raw.len() > 0 && crate::address::entity_class(address.raw[0])
                    == crate::address::EntityClass::Account && (string_eq(
                    method_name,
                    &String::from_str("create_proof_of_amount"),
                ) || string_eq(method_name, &String::from_str("create_proof_of_non_fungibles")))
                    && args.len() >= 1 {
                    if let Value::ResourceAddress { address: res } = &args[0] {
                        created_proofs.push(copy_address(res));
                        proof {
                            assert(created_proofs@.drop_last() =~= pre);
                            assert(addr_views_of(created_proofs@) =~= addr_views_of(pre)
                                + proof_facts(*instr));
                        }
                    }
                }
            }
            proof {
                assert(addr_views_of(pre) + Seq::<AddressView>::empty() =~= addr_views_of(pre));
                assert(addr_views_of(created_proofs@) =~= addr_views_of(pre) + proof_facts(
                    *instr,
                ));
            }
            InstructionVisitor::AccountProofs { created_proofs }
        },
        InstructionVisitor::ReservedInstructions { mut reserved } => {
            let ghost pre = reserved@;
            if let Instruction::CallMethod {
                address: ManifestAddress::Static { address },
                method_name,
                ..
            } = instr {
                if address.raw.len() > 0 {
                    let class = crate::address::entity_class(address.raw[0]);
                    let flag: Option<ReservedInstruction> = if class
                        == crate::address::EntityClass::Account && (string_eq(
                        method_name,
                        &String::from_str("lock_fee"),
                    ) || string_eq(method_name, &String::from_str("lock_contingent_fee"))) {
                        Some(ReservedInstruction::AccountLockFee)
                    } else if class == crate::address::EntityClass::Account && string_eq(
                        method_name,
                        &String::from_str("securify"),
                    ) {
                        Some(ReservedInstruction::AccountSecurify)
                    } else if class == crate::address::EntityClass::Identity && string_eq(
                        method_name,
                        &String::from_str("securify"),
                    ) {
                        Some(ReservedInstruction::IdentitySecurify)
                    } else if class == crate::address::EntityClass::Account
                        && is_account_settings_method(method_name) {
                        Some(ReservedInstruction::AccountUpdateSettings)
                    } else if class == crate::address::EntityClass::AccessController {
                        Some(ReservedInstruction::AccessController)
                    } else {
                        None
                    };
                    if let Some(f) = flag {
                        reserved.push(f);
                        proof {
                            assert(reserved@ =~= pre + reserved_facts(*instr));
                        }
                    }
                }
            }
            proof {
                assert(pre + Seq::<ReservedInstruction>::empty() =~= pre);
                assert(reserved@ =~= pre + reserved_facts(*instr));
            }
            InstructionVisitor::ReservedInstructions { reserved }
        },
    }
}

/// The data carried by a claim non-fungible minted while unstaking.
#[derive(Debug, PartialEq, Eq)]
pub struct UnstakeData {
    pub name: String,
    pub claim_epoch: u64,
    pub claim_amount: Amount,
}

/// One non-fungible minted during execution, as the receipt reports it.
#[derive(Debug, PartialEq, Eq)]
pub struct MintedNonFungible {
    pub resource_address: NetworkAwareAddress,
    pub local_id: NonFungibleLocalId,
    pub data: UnstakeData,
}

/// The model of an execution receipt, as far as the classifier reads it:
/// whether the transaction committed successfully, the entities it created,
/// and the claim non-fungibles it minted.
#[derive(Debug, PartialEq, Eq)]
pub struct TransactionReceipt {
    pub committed_success: bool,
    pub new_component_addresses: Vec<NetworkAwareAddress>,
    pub new_resource_addresses: Vec<NetworkAwareAddress>,
    pub new_package_addresses: Vec<NetworkAwareAddress>,
    pub minted_non_fungible_data: Vec<MintedNonFungible>,
}

/// The facts one pass of the standard visitors extracts from a manifest.
#[derive(Debug)]
pub struct ManifestSummary {
    pub component_addresses: Vec<NetworkAwareAddress>,
    pub resource_addresses: Vec<NetworkAwareAddress>,
    pub package_addresses: Vec<NetworkAwareAddress>,
    pub accounts_requiring_auth: Vec<NetworkAwareAddress>,
    pub account_withdraws: Vec<AccountWithdraw>,
    pub account_proof_resources: Vec<NetworkAwareAddress>,
    pub reserved_instructions: Vec<ReservedInstruction>,
}

/// The initial visitor states the standard pass starts from.
pub open spec fn standard_vvs() -> Seq<crate::visitor::ValueVisitorView> {
    seq![
        crate::visitor::ValueVisitorView::AddressAggregator {
            component_addresses: Seq::empty(),
            resource_addresses: Seq::empty(),
            package_addresses: Seq::empty(),
        },
    ]
}

/// The initial instruction visitor states of the standard pass.
pub open spec fn standard_ivs() -> Seq<InstructionVisitorView> {
    seq![
        InstructionVisitorView::AccountInteractions { auth_required: Seq::empty() },
        InstructionVisitorView::AccountWithdraws { withdraws: Seq::empty() },
        InstructionVisitorView::AccountProofs { created_proofs: Seq::empty() },
        InstructionVisitorView::ReservedInstructions { reserved: Seq::empty() },
    ]
}

/// The standard pass never fails and keeps each visitor's shape.
pub proof fn lemma_standard_pass_shapes(instrs: Seq<Instruction>, k: int)
    requires
        0 <= k <= instrs.len(),
    ensures
        ({
            let out = crate::visitor::traverse_upto(instrs, standard_vvs(), standard_ivs(), k);
            &&& out.2 is None
            &&& out.0.len() == 1
            &&& out.0[0] is AddressAggregator
            &&& out.1.len() == 4
            &&& out.1[0] is AccountInteractions
            &&& out.1[1] is AccountWithdraws
            &&& out.1[2] is AccountProofs
            &&& out.1[3] is ReservedInstructions
        }),
    decreases k,
{
    if k > 0 {
        lemma_standard_pass_shapes(instrs, k - 1);
        let prev = crate::visitor::traverse_upto(instrs, standard_vvs(), standard_ivs(), k - 1);
        crate::visitor::lemma_vv_first_err(prev.0, instrs[k - 1]);
    }
}

/// Runs the standard visitors over the manifest: the address aggregation,
/// account interaction, account withdrawal, account proof and reserved
/// instruction passes, in one traversal.
pub fn summarize(instructions: &Vec<Instruction>) -> (r: ManifestSummary)
    ensures
        ({
            let out = crate::visitor::traverse_upto(
                instructions@,
                standard_vvs(),
                standard_ivs(),
                instructions@.len() as int,
            );
            &&& crate::visitor::addr_views_of(r.component_addresses@) == out.0[0]
                ->AddressAggregator_component_addresses
            &&& crate::visitor::addr_views_of(r.resource_addresses@) == out.0[0]
                ->AddressAggregator_resource_addresses
            &&& crate::visitor::addr_views_of(r.package_addresses@) == out.0[0]
                ->AddressAggregator_package_addresses
            &&& crate::visitor::addr_views_of(r.accounts_requiring_auth@) == out.1[0]
                ->AccountInteractions_auth_required
            &&& withdraw_views_of(r.account_withdraws@) == out.1[1]->AccountWithdraws_withdraws
            &&& crate::visitor::addr_views_of(r.account_proof_resources@) == out.1[2]
                ->AccountProofs_created_proofs
            &&& r.reserved_instructions@ == out.1[3]->ReservedInstructions_reserved
        }),
{
    let mut vvs: Vec<crate::visitor::ValueVisitor> = Vec::new();
    vvs.push(
        crate::visitor::ValueVisitor::AddressAggregator {
            component_addresses: Vec::new(),
            resource_addresses: Vec::new(),
            package_addresses: Vec::new(),
        },
    );
    let mut ivs: Vec<InstructionVisitor> = Vec::new();
    ivs.push(InstructionVisitor::AccountInteractions { auth_required: Vec::new() });
    ivs.push(InstructionVisitor::AccountWithdraws { withdraws: Vec::new() });
    ivs.push(InstructionVisitor::AccountProofs { created_proofs: Vec::new() });
    ivs.push(InstructionVisitor::ReservedInstructions { reserved: Vec::new() });
    proof {
        crate::visitor::lemma_vv_views_of(vvs@);
        crate::visitor::lemma_iv_views_of(ivs@);
        assert(crate::visitor::vv_views_of(vvs@) =~= standard_vvs());
        assert(crate::visitor::iv_views_of(ivs@) =~= standard_ivs());
        lemma_standard_pass_shapes(instructions@, instructions@.len() as int);
    }
    let res = crate::visitor::traverse(instructions, &mut vvs, &mut ivs);
    proof {
        crate::visitor::lemma_vv_views_of(vvs@);
        crate::visitor::lemma_iv_views_of(ivs@);
    }
    let agg = vvs.remove(0);
    let interactions = ivs.remove(0);
    let withdraws_v = ivs.remove(0);
    let proofs_v = ivs.remove(0);
    let reserved_v = ivs.remove(0);
    match (agg, interactions, withdraws_v, proofs_v, reserved_v) {
        (
            crate::visitor::ValueVisitor::AddressAggregator {
                component_addresses,
                resource_addresses,
                package_addresses,
            },
            InstructionVisitor::AccountInteractions { auth_required },
            InstructionVisitor::AccountWithdraws { withdraws },
            InstructionVisitor::AccountProofs { created_proofs },
            InstructionVisitor::ReservedInstructions { reserved },
        ) => ManifestSummary {
            component_addresses,
            resource_addresses,
            package_addresses,
            accounts_requiring_auth: auth_required,
            account_withdraws: withdraws,
            account_proof_resources: created_proofs,
            reserved_instructions: reserved,
        },
        _ => {
            proof {
                assert(false);
            }
            ManifestSummary {
                component_addresses: Vec::new(),
                resource_addresses: Vec::new(),
                package_addresses: Vec::new(),
                accounts_requiring_auth: Vec::new(),
                account_withdraws: Vec::new(),
                account_proof_resources: Vec::new(),
                reserved_instructions: Vec::new(),
            }
        },
    }
}

/// One per-validator stake record.
#[derive(Debug, PartialEq, Eq)]
pub struct StakeInformation {
    pub from_account: NetworkAwareAddress,
    pub validator_address: NetworkAwareAddress,
    pub staked_xrd: Amount,
}

/// One per-validator unstake record, with the claim non-fungible the
/// receipt shows was minted.
#[derive(Debug, PartialEq, Eq)]
pub struct UnstakeInformation {
    pub from_account: NetworkAwareAddress,
    pub stake_unit_address: NetworkAwareAddress,
    pub stake_unit_amount: Amount,
    pub validator_address: NetworkAwareAddress,
    pub claim_nft_resource: NetworkAwareAddress,
    pub claim_nft_local_id: NonFungibleLocalId,
    pub claim_nft_data: UnstakeData,
}

/// One per-validator claim record.
#[derive(Debug, PartialEq, Eq)]
pub struct ClaimStakeInformation {
    pub from_account: NetworkAwareAddress,
    pub validator_address: NetworkAwareAddress,
}

/// The mathematical model of a [`StakeInformation`].
pub struct StakeInformationView {
    pub from_account: AddressView,
    pub validator_address: AddressView,
    pub staked_xrd: Amount,
}

impl View for StakeInformation {
    type V = StakeInformationView;

    open spec fn view(&self) -> StakeInformationView {
        StakeInformationView {
            from_account: self.from_account@,
            validator_address: self.validator_address@,
            staked_xrd: self.staked_xrd,
        }
    }
}

/// The mathematical model of an [`UnstakeInformation`].
pub struct UnstakeInformationView {
    pub from_account: AddressView,
    pub stake_unit_address: AddressView,
    pub stake_unit_amount: Amount,
    pub validator_address: AddressView,
    pub claim_nft_resource: AddressView,
    pub claim_nft_local_id: NonFungibleLocalIdView,
    pub name: Seq<char>,
    pub claim_epoch: u64,
    pub claim_amount: Amount,
}

impl View for UnstakeInformation {
    type V = UnstakeInformationView;

    open spec fn view(&self) -> UnstakeInformationView {
        UnstakeInformationView {
            from_account: self.from_account@,
            stake_unit_address: self.stake_unit_address@,
            stake_unit_amount: self.stake_unit_amount,
            validator_address: self.validator_address@,
            claim_nft_resource: self.claim_nft_resource@,
            claim_nft_local_id: self.claim_nft_local_id@,
            name: self.claim_nft_data.name@,
            claim_epoch: self.claim_nft_data.claim_epoch,
            claim_amount: self.claim_nft_data.claim_amount,
        }
    }
}

/// The mathematical model of a [`ClaimStakeInformation`].
pub struct ClaimStakeInformationView {
    pub from_account: AddressView,
    pub validator_address: AddressView,
}

impl View for ClaimStakeInformation {
    type V = ClaimStakeInformationView;

    open spec fn view(&self) -> ClaimStakeInformationView {
        ClaimStakeInformationView {
            from_account: self.from_account@,
            validator_address: self.validator_address@,
        }
    }
}

/// The models of a vector of stake records, in order.
pub open spec fn stake_views_of(s: Seq<StakeInformation>) -> Seq<StakeInformationView>
    decreases s,
{
    if s.len() == 0 {
        Seq::empty()
    } else {
        stake_views_of(s.drop_last()).push(s.last()@)
    }
}

/// The models of a vector of unstake records, in order.
pub open spec fn unstake_views_of(s: Seq<UnstakeInformation>) -> Seq<UnstakeInformationView>
    decreases s,
{
    if s.len() == 0 {
        Seq::empty()
    } else {
        unstake_views_of(s.drop_last()).push(s.last()@)
    }
}

/// The models of a vector of claim records, in order.
pub open spec fn claim_views_of(s: Seq<ClaimStakeInformation>) -> Seq<ClaimStakeInformationView>
    decreases s,
{
    if s.len() == 0 {
        Seq::empty()
    } else {
        claim_views_of(s.drop_last()).push(s.last()@)
    }
}

/// The validator a static method call targets, if the instruction is one.
pub open spec fn static_validator_of(instr: Instruction) -> Option<AddressView> {
    match instr {
        Instruction::CallMethod { address: ManifestAddress::Static { address }, .. } => {
            if addr_class(address) is Validator {
                Some(address@)
            } else {
                None
            }
        },
        _ => None,
    }
}

/// The validators targeted by static method calls, in manifest order.
pub open spec fn validators_called(instrs: Seq<Instruction>) -> Seq<AddressView>
    decreases instrs,
{
    if instrs.len() == 0 {
        Seq::empty()
    } else {
        match static_validator_of(instrs.last()) {
            Some(v) => validators_called(instrs.drop_last()).push(v),
            None => validators_called(instrs.drop_last()),
        }
    }
}

/// The address a static method call targets, if the instruction is one.
pub open spec fn static_call_address_of(instr: Instruction) -> Option<AddressView> {
    match instr {
        Instruction::CallMethod { address: ManifestAddress::Static { address }, .. } => Some(
            address@,
        ),
        _ => None,
    }
}

/// The addresses targeted by static method calls, in manifest order.
pub open spec fn static_call_accounts(instrs: Seq<Instruction>) -> Seq<AddressView>
    decreases instrs,
{
    if instrs.len() == 0 {
        Seq::empty()
    } else {
        match static_call_address_of(instrs.last()) {
            Some(a) => static_call_accounts(instrs.drop_last()).push(a),
            None => static_call_accounts(instrs.drop_last()),
        }
    }
}

/// The first validator targeted by a static method call, if any.
pub open spec fn first_validator_spec(instrs: Seq<Instruction>) -> Option<AddressView>
    decreases instrs.len(),
{
    if instrs.len() == 0 {
        None
    } else {
        match static_validator_of(instrs[0]) {
            Some(v) => Some(v),
            None => first_validator_spec(instrs.subrange(1, instrs.len() as int)),
        }
    }
}

/// The source account a staking record names: the manifest's first
/// withdrawing account, or the given fallback where nothing was withdrawn.
pub open spec fn summary_from_account(summary: ManifestSummary, alt: AddressView) -> AddressView {
    if summary.account_withdraws@.len() > 0 {
        summary.account_withdraws@[0].account@
    } else {
        alt
    }
}

/// The resource the manifest's first withdrawal moves, or the fallback.
pub open spec fn summary_resource(summary: ManifestSummary, alt: AddressView) -> AddressView {
    if summary.account_withdraws@.len() > 0 {
        match summary.account_withdraws@[0].specifier {
            ResourceSpecifier::Amount { resource_address, .. } => resource_address@,
            ResourceSpecifier::Ids { resource_address, .. } => resource_address@,
        }
    } else {
        alt
    }
}

/// The amount of the manifest's first fungible withdrawal, or zero.
pub open spec fn summary_amount(summary: ManifestSummary) -> Amount {
    if summary.account_withdraws@.len() > 0 {
        match summary.account_withdraws@[0].specifier {
            ResourceSpecifier::Amount { amount, .. } => amount,
            ResourceSpecifier::Ids { .. } => Amount { attos: 0 },
        }
    } else {
        Amount { attos: 0 }
    }
}

/// One stake record: the targeted validator, with the manifest's first
/// withdrawal naming the source account and the staked amount.
pub open spec fn stake_record(summary: ManifestSummary, v: AddressView) -> StakeInformationView {
    StakeInformationView {
        from_account: summary_from_account(summary, v),
        validator_address: v,
        staked_xrd: summary_amount(summary),
    }
}

/// One claim record: the targeted validator with the source account.
pub open spec fn claim_record(summary: ManifestSummary, v: AddressView) -> ClaimStakeInformationView {
    ClaimStakeInformationView { from_account: summary_from_account(summary, v), validator_address: v }
}

/// One unstake record: one minted claim non-fungible of the receipt, with
/// the manifest's first withdrawal naming the source account, stake-unit
/// resource and amount, and the first validator call naming the validator;
/// the claim resource stands in for any of these the manifest lacks.
pub open spec fn unstake_record(
    summary: ManifestSummary,
    fv: Option<AddressView>,
    m: MintedNonFungible,
) -> UnstakeInformationView {
    UnstakeInformationView {
        from_account: summary_from_account(summary, m.resource_address@),
        stake_unit_address: summary_resource(summary, m.resource_address@),
        stake_unit_amount: summary_amount(summary),
        validator_address: match fv {
            Some(v) => v,
            None => m.resource_address@,
        },
        claim_nft_resource: m.resource_address@,
        claim_nft_local_id: m.local_id@,
        name: m.data.name@,
        claim_epoch: m.data.claim_epoch,
        claim_amount: m.data.claim_amount,
    }
}

/// The semantic category of a transaction, with its extracted facts:
/// exactly one is produced per manifest and receipt pair.
#[derive(Debug)]
pub enum TransactionType {
    SimpleTransfer {
        from: NetworkAwareAddress,
        to: NetworkAwareAddress,
        transferred: ResourceSpecifier,
    },
    Transfer { from: NetworkAwareAddress, deposits: Vec<AccountDeposit> },
    AccountDepositSettings { accounts: Vec<NetworkAwareAddress> },
    Stake { stakes: Vec<StakeInformation> },
    Unstake { unstakes: Vec<UnstakeInformation> },
    ClaimStake { claims: Vec<ClaimStakeInformation> },
    GeneralTransaction {
        account_proofs: Vec<NetworkAwareAddress>,
        account_withdraws: Vec<AccountWithdraw>,
        component_addresses: Vec<NetworkAwareAddress>,
        resource_addresses: Vec<NetworkAwareAddress>,
        package_addresses: Vec<NetworkAwareAddress>,
    },
}

/// The category alone, used to pin the classifier's choice.
#[derive(Debug, Clone, Copy, PartialEq, Eq, Structural)]
pub enum TransactionKind {
    SimpleTransfer,
    Transfer,
    AccountDepositSettings,
    Stake,
    Unstake,
    ClaimStake,
    GeneralTransaction,
}

/// A scaffolding instruction of a staking flow: worktop movement or an
/// account withdraw or deposit.
pub open spec fn scaffolding(instr: Instruction) -> bool {
    match instr {
        Instruction::TakeFromWorktop { .. } => true,
        Instruction::TakeAllFromWorktop { .. } => true,
        Instruction::TakeNonFungiblesFromWorktop { .. } => true,
        Instruction::ReturnToWorktop { .. } => true,
        Instruction::CallMethod { address: ManifestAddress::Static { address }, method_name, .. } => {
            addr_class(address) is Account && (method_name@ == "withdraw"@ || method_name@
                == "withdraw_non_fungibles"@ || method_name@ == "deposit"@ || method_name@
                == "deposit_batch"@)
        },
        _ => false,
    }
}

/// A call of the named method on a validator component.
pub open spec fn validator_call(instr: Instruction, method: Seq<char>) -> bool {
    match instr {
        Instruction::CallMethod { address: ManifestAddress::Static { address }, method_name, .. } => {
            addr_class(address) is Validator && method_name@ == method
        },
        _ => false,
    }
}

/// The manifest exclusively stakes: validator `stake` calls plus
/// scaffolding, at least one of each kind of work.
pub open spec fn stake_shape(instrs: Seq<Instruction>) -> bool {
    (forall|i: int| 0 <= i < instrs.len() ==> scaffolding(#[trigger] instrs[i]) || validator_call(
        instrs[i],
        "stake"@,
    )) && (exists|i: int| 0 <= i < instrs.len() && validator_call(#[trigger] instrs[i], "stake"@))
}

/// The manifest exclusively unstakes.
pub open spec fn unstake_shape(instrs: Seq<Instruction>) -> bool {
    (forall|i: int| 0 <= i < instrs.len() ==> scaffolding(#[trigger] instrs[i]) || validator_call(
        instrs[i],
        "unstake"@,
    )) && (exists|i: int|
        0 <= i < instrs.len() && validator_call(#[trigger] instrs[i], "unstake"@))
}

/// The manifest exclusively claims unstaked stake.
pub open spec fn claim_shape(instrs: Seq<Instruction>) -> bool {
    (forall|i: int| 0 <= i < instrs.len() ==> scaffolding(#[trigger] instrs[i]) || validator_call(
        instrs[i],
        "claim_xrd"@,
    )) && (exists|i: int|
        0 <= i < instrs.len() && validator_call(#[trigger] instrs[i], "claim_xrd"@))
}

/// The manifest exclusively configures account deposit settings.
pub open spec fn settings_shape(instrs: Seq<Instruction>) -> bool {
    instrs.len() > 0 && forall|i: int| 0 <= i < instrs.len() ==> settings_call(
        #[trigger] instrs[i],
    )
}

/// A call of a deposit-settings method on an account.
pub open spec fn settings_call(instr: Instruction) -> bool {
    match instr {
        Instruction::CallMethod { address: ManifestAddress::Static { address }, method_name, .. } => {
            addr_class(address) is Account && account_settings_method(method_name@)
        },
        _ => false,
    }
}

/// The deposits of a transfer tail: from position `i` on, the instructions
/// pair up as a take of the transferred resource followed by a deposit of
/// the new bucket into an account.
pub open spec fn transfer_pairs(instrs: Seq<Instruction>, i: int, resource: AddressView) -> Option<
    Seq<AccountDepositView>,
>
    decreases instrs.len() - i,
{
    if i >= instrs.len() {
        Some(Seq::empty())
    } else if i + 1 >= instrs.len() {
        None
    } else {
        match (instrs[i], instrs[i + 1]) {
            (
                Instruction::TakeFromWorktop { resource_address, amount, new_bucket },
                Instruction::CallMethod {
                    address: ManifestAddress::Static { address },
                    method_name,
                    args,
                },
            ) => {
                if resource_address@ == resource && addr_class(address) is Account && method_name@
                    == "deposit"@ && args@.len() == 1 && args@[0] is Bucket && args@[0]
                    ->Bucket_identifier@ == new_bucket@ && amount_of_spec(amount@) is Some {
                    match transfer_pairs(instrs, i + 2, resource) {
                        Some(rest) => Some(
                            Seq::empty().push(
                                AccountDepositView {
                                    account: address@,
                                    source: SourceView::Guaranteed {
                                        specifier: ResourceSpecifierView::Amount {
                                            resource_address: resource,
                                            amount: Amount {
                                                attos: amount_of_spec(amount@)->Some_0,
                                            },
                                        },
                                    },
                                },
                            ) + rest,
                        ),
                        None => None,
                    }
                } else {
                    None
                }
            },
            _ => None,
        }
    }
}

/// The models of a vector of deposits, in order.
pub open spec fn deposit_views_of(s: Seq<AccountDeposit>) -> Seq<AccountDepositView>
    decreases s,
{
    if s.len() == 0 {
        Seq::empty()
    } else {
        deposit_views_of(s.drop_last()).push(s.last()@)
    }
}

/// Extracts the transfer tail deposits starting at position `i`.
fn collect_transfer_pairs(
    instructions: &Vec<Instruction>,
    i: usize,
    resource: &NetworkAwareAddress,
) -> (r: Option<Vec<AccountDeposit>>)
    ensures
        match r {
            Some(ds) => transfer_pairs(instructions@, i as int, resource@) == Some(
                deposit_views_of(ds@),
            ),
            None => transfer_pairs(instructions@, i as int, resource@) is None,
        },
    decreases instructions@.len() - i,
{
    if i >= instructions.len() {
        proof {
            assert(deposit_views_of(Seq::<AccountDeposit>::empty()) =~= Seq::<
                AccountDepositView,
            >::empty());
        }
        return Some(Vec::new());
    }
    if i + 1 >= instructions.len() {
        return None;
    }
    if let Instruction::TakeFromWorktop { resource_address, amount, new_bucket } = &instructions[i] {
        if let Instruction::CallMethod {
            address: ManifestAddress::Static { address },
            method_name,
            args,
        } = &instructions[i + 1] {
            if crate::address::address_eq(resource_address, resource)
                && resource_address.network_id == resource.network_id && address.raw.len() > 0
                && crate::address::entity_class(address.raw[0])
                == crate::address::EntityClass::Account && string_eq(
                method_name,
                &String::from_str("deposit"),
            ) && args.len() == 1 {
                if let Value::Bucket { identifier } = &args[0] {
                    let same_bucket = match (identifier, new_bucket) {
                        (
                            TransientIdentifier::U32 { value: a },
                            TransientIdentifier::U32 { value: b },
                        ) => *a == *b,
                        (
                            TransientIdentifier::String { value: a },
                            TransientIdentifier::String { value: b },
                        ) => string_eq(a, b),
                        _ => false,
                    };
                    if same_bucket {
                        if let Some(amt) = parse_amount(amount) {
                            if let Some(rest) = collect_transfer_pairs(
                                instructions,
                                i + 2,
                                resource,
                            ) {
                                let mut out: Vec<AccountDeposit> = Vec::new();
                                out.push(
                                    AccountDeposit {
                                        account: copy_address(address),
                                        source: Source::Guaranteed {
                                            specifier: ResourceSpecifier::Amount {
                                                resource_address: copy_address(resource),
                                                amount: amt,
                                            },
                                        },
                                    },
                                );
                                let ghost first = out@;
                                let ghost firstv = deposit_views_of(out@);
                                let mut rest_vec = rest;
                                let ghost restv = deposit_views_of(rest_vec@);
                                proof {
                                    reveal_with_fuel(deposit_views_of, 3);
                                    assert(first.drop_last() =~= Seq::<AccountDeposit>::empty());
                                    lemma_deposit_views_concat(first, rest_vec@);
                                }
                                out.append(&mut rest_vec);
                                proof {
                                    assert(deposit_views_of(out@) == firstv + restv);
                                    assert(firstv =~= Seq::empty().push(
                                        transfer_pairs(
                                            instructions@,
                                            i as int,
                                            resource@,
                                        )->Some_0[0],
                                    ));
                                    assert(deposit_views_of(out@) =~= transfer_pairs(
                                        instructions@,
                                        i as int,
                                        resource@,
                                    )->Some_0);
                                }
                                return Some(out);
                            } else {
                                return None;
                            }
                        }
                    }
                }
            }
        }
    }
    None
}

/// Views distribute over concatenation of deposit vectors.
proof fn lemma_deposit_views_concat(a: Seq<AccountDeposit>, b: Seq<AccountDeposit>)
    ensures
        deposit_views_of(a + b) == deposit_views_of(a) + deposit_views_of(b),
    decreases b,
{
    if b.len() == 0 {
        assert(a + b =~= a);
        assert(deposit_views_of(a) + deposit_views_of(b) =~= deposit_views_of(a));
    } else {
        lemma_deposit_views_concat(a, b.drop_last());
        assert((a + b).drop_last() =~= a + b.drop_last());
        assert((a + b).last() == b.last());
        assert(deposit_views_of(a) + deposit_views_of(b) =~= (deposit_views_of(a)
            + deposit_views_of(b.drop_last())).push(b.last()@));
    }
}

/// The category the classifier assigns, by the fixed first-match order:
/// simple transfer, then transfer, then stake, unstake and stake claim
/// (each needing a successfully committed receipt), then deposit settings,
/// then the general fallback.
pub open spec fn decision(instrs: Seq<Instruction>, committed: bool) -> TransactionKind {
    let wf = withdraw_facts(instrs[0]);
    let transfer_ok = instrs.len() >= 3 && wf.len() == 1 && wf[0].specifier is Amount
        && transfer_pairs(instrs, 1, wf[0].specifier->Amount_resource_address) is Some
        && transfer_pairs(instrs, 1, wf[0].specifier->Amount_resource_address)->Some_0.len() >= 1;
    if transfer_ok && transfer_pairs(
        instrs,
        1,
        wf[0].specifier->Amount_resource_address,
    )->Some_0.len() == 1 && transfer_pairs(
        instrs,
        1,
        wf[0].specifier->Amount_resource_address,
    )->Some_0[0].source->Guaranteed_specifier->Amount_amount == wf[0].specifier->Amount_amount {
        TransactionKind::SimpleTransfer
    } else if transfer_ok {
        TransactionKind::Transfer
    } else if committed && stake_shape(instrs) {
        TransactionKind::Stake
    } else if committed && unstake_shape(instrs) {
        TransactionKind::Unstake
    } else if committed && claim_shape(instrs) {
        TransactionKind::ClaimStake
    } else if settings_shape(instrs) {
        TransactionKind::AccountDepositSettings
    } else {
        TransactionKind::GeneralTransaction
    }
}

/// Extending the validator fold by one instruction.
proof fn lemma_validators_called_step(s: Seq<Instruction>, i: int)
    requires
        0 <= i < s.len(),
    ensures
        validators_called(s.take(i + 1)) == (match static_validator_of(s[i]) {
            Some(v) => validators_called(s.take(i)).push(v),
            None => validators_called(s.take(i)),
        }),
{
    assert(s.take(i + 1).drop_last() =~= s.take(i));
    assert(s.take(i + 1).last() == s[i]);
}

/// Extending the static-call fold by one instruction.
proof fn lemma_static_calls_step(s: Seq<Instruction>, i: int)
    requires
        0 <= i < s.len(),
    ensures
        static_call_accounts(s.take(i + 1)) == (match static_call_address_of(s[i]) {
            Some(a) => static_call_accounts(s.take(i)).push(a),
            None => static_call_accounts(s.take(i)),
        }),
{
    assert(s.take(i + 1).drop_last() =~= s.take(i));
    assert(s.take(i + 1).last() == s[i]);
}

/// A validator call with a clean prefix is the first one.
proof fn lemma_first_validator_is(s: Seq<Instruction>, i: int)
    requires
        0 <= i < s.len(),
        static_validator_of(s[i]) is Some,
        forall|j: int| 0 <= j < i ==> static_validator_of(#[trigger] s[j]) is None,
    ensures
        first_validator_spec(s) == static_validator_of(s[i]),
    decreases i,
{
    if i > 0 {
        let rest = s.subrange(1, s.len() as int);
        assert(rest[i - 1] == s[i]);
        assert forall|j: int| 0 <= j < i - 1 implies static_validator_of(
            #[trigger] rest[j],
        ) is None by {
            assert(rest[j] == s[j + 1]);
        }
        lemma_first_validator_is(rest, i - 1);
    }
}

/// A manifest without validator calls has no first one.
proof fn lemma_first_validator_none(s: Seq<Instruction>)
    requires
        forall|j: int| 0 <= j < s.len() ==> static_validator_of(#[trigger] s[j]) is None,
    ensures
        first_validator_spec(s) is None,
    decreases s.len(),
{
    if s.len() > 0 {
        let rest = s.subrange(1, s.len() as int);
        assert forall|j: int| 0 <= j < rest.len() implies static_validator_of(
            #[trigger] rest[j],
        ) is None by {
            assert(rest[j] == s[j + 1]);
        }
        lemma_first_validator_none(rest);
    }
}

/// Decides [`scaffolding`].
fn is_scaffolding(instr: &Instruction) -> (r: bool)
    ensures
        r == scaffolding(*instr),
{
    match instr {
        Instruction::TakeFromWorktop { .. } => true,
        Instruction::TakeAllFromWorktop { .. } => true,
        Instruction::TakeNonFungiblesFromWorktop { .. } => true,
        Instruction::ReturnToWorktop { .. } => true,
        Instruction::CallMethod { address: ManifestAddress::Static { address }, method_name, .. } => {
            address.raw.len() > 0 && crate::address::entity_class(address.raw[0])
                == crate::address::EntityClass::Account && (string_eq(
                method_name,
                &String::from_str("withdraw"),
            ) || string_eq(method_name, &String::from_str("withdraw_non_fungibles")) || string_eq(
                method_name,
                &String::from_str("deposit"),
            ) || string_eq(method_name, &String::from_str("deposit_batch")))
        },
        _ => false,
    }
}

/// Decides [`validator_call`] for the given method name.
fn is_validator_call(instr: &Instruction, method: &String) -> (r: bool)
    ensures
        r == validator_call(*instr, method@),
{
    match instr {
        Instruction::CallMethod { address: ManifestAddress::Static { address }, method_name, .. } => {
            address.raw.len() > 0 && crate::address::entity_class(address.raw[0])
                == crate::address::EntityClass::Validator && string_eq(method_name, method)
        },
        _ => false,
    }
}

/// Checks the exclusive staking-flow shape for one validator method.
fn check_validator_shape(instructions: &Vec<Instruction>, method: &String) -> (r: bool)
    ensures
        r == ((forall|i: int| 0 <= i < instructions@.len() ==> scaffolding(
            #[trigger] instructions@[i],
        ) || validator_call(instructions@[i], method@)) && (exists|i: int|
            0 <= i < instructions@.len() && validator_call(#[trigger] instructions@[i], method@))),
{
    let mut found = false;
    let mut i: usize = 0;
    while i < instructions.len()
        invariant
            0 <= i <= instructions@.len(),
            forall|j: int| 0 <= j < i ==> scaffolding(#[trigger] instructions@[j])
                || validator_call(instructions@[j], method@),
            found == (exists|j: int| 0 <= j < i && validator_call(
                #[trigger] instructions@[j],
                method@,
            )),
        decreases instructions@.len() - i,
    {
        let v = is_validator_call(&instructions[i], method);
        if v {
            found = true;
        } else if !is_scaffolding(&instructions[i]) {
            return false;
        }
        i = i + 1;
    }
    found
}

/// Checks the exclusive deposit-settings shape.
fn check_settings_shape(instructions: &Vec<Instruction>) -> (r: bool)
    ensures
        r == settings_shape(instructions@),
{
    if instructions.len() == 0 {
        return false;
    }
    let mut i: usize = 0;
    while i < instructions.len()
        invariant
            0 <= i <= instructions@.len(),
            forall|j: int| 0 <= j < i ==> settings_call(#[trigger] instructions@[j]),
        decreases instructions@.len() - i,
    {
        let ok = match &instructions[i] {
            Instruction::CallMethod {
                address: ManifestAddress::Static { address },
                method_name,
                ..
            } => address.raw.len() > 0 && crate::address::entity_class(address.raw[0])
                == crate::address::EntityClass::Account && is_account_settings_method(method_name),
            _ => false,
        };
        if !ok {
            return false;
        }
        i = i + 1;
    }
    true
}

/// The first withdrawal of the manifest's opening instruction, where it is
/// a fungible one.
fn opening_amount_withdraw(instructions: &Vec<Instruction>) -> (r: Option<
    (NetworkAwareAddress, NetworkAwareAddress, Amount),
>)
    requires
        instructions@.len() > 0,
    ensures
        match r {
            Some(t) => {
                let wf = withdraw_facts(instructions@[0]);
                wf.len() == 1 && wf[0].specifier is Amount && t.0@ == wf[0].account && t.1@
                    == wf[0].specifier->Amount_resource_address && t.2 == wf[0].specifier
                    ->Amount_amount
            },
            None => !(withdraw_facts(instructions@[0]).len() == 1 && withdraw_facts(
                instructions@[0],
            )[0].specifier is Amount),
        },
{
    proof {
        reveal_strlit("withdraw");
        reveal_strlit("withdraw_non_fungibles");
        assert("withdraw"@.len() != "withdraw_non_fungibles"@.len());
    }
    if let Instruction::CallMethod {
        address: ManifestAddress::Static { address },
        method_name,
        args,
    } = &instructions[0] {
        if address.raw.len() > 0 && crate::address::entity_class(address.raw[0])
            == crate::address::EntityClass::Account && string_eq(
            method_name,
            &String::from_str("withdraw"),
        ) && args.len() == 2 {
            if let Value::ResourceAddress { address: res } = &args[0] {
                if let Value::Decimal { value: d } = &args[1] {
                    if let Some(amount) = parse_amount(d) {
                        return Some((copy_address(address), copy_address(res), amount));
                    }
                }
            }
        }
    }
    None
}

/// Assigns the manifest to exactly one transaction category, in the fixed
/// first-match order of [`decision`], and extracts that category's facts.
/// The receipt-dependent categories need a successfully committed receipt;
/// without one the manifest falls through to the general category, which
/// reports the summary's facts as they stand.
pub fn classify(
    instructions: &Vec<Instruction>,
    summary: ManifestSummary,
    receipt: Option<&TransactionReceipt>,
) -> (r: TransactionType)
    ensures
        ({
            let committed = match receipt {
                Some(rc) => rc.committed_success,
                None => false,
            };
            let kind = decision(instructions@, committed);
            &&& (r is SimpleTransfer <==> kind == TransactionKind::SimpleTransfer)
            &&& (r is Transfer <==> kind == TransactionKind::Transfer)
            &&& (r is Stake <==> kind == TransactionKind::Stake)
            &&& (r is Unstake <==> kind == TransactionKind::Unstake)
            &&& (r is ClaimStake <==> kind == TransactionKind::ClaimStake)
            &&& (r is AccountDepositSettings <==> kind
                == TransactionKind::AccountDepositSettings)
            &&& (r is GeneralTransaction <==> kind == TransactionKind::GeneralTransaction)
            &&& (r is SimpleTransfer ==> {
                let wf = withdraw_facts(instructions@[0]);
                r->SimpleTransfer_from@ == wf[0].account && r->SimpleTransfer_transferred@
                    == wf[0].specifier && r->SimpleTransfer_to@ == transfer_pairs(
                    instructions@,
                    1,
                    wf[0].specifier->Amount_resource_address,
                )->Some_0[0].account
            })
            &&& (r is Transfer ==> {
                let wf = withdraw_facts(instructions@[0]);
                r->Transfer_from@ == wf[0].account && deposit_views_of(r->Transfer_deposits@)
                    == transfer_pairs(
                    instructions@,
                    1,
                    wf[0].specifier->Amount_resource_address,
                )->Some_0
            })
            &&& (r is Unstake ==> unstake_views_of(r->Unstake_unstakes@)
                == receipt->Some_0.minted_non_fungible_data@.map_values(
                |m: MintedNonFungible| unstake_record(
                    summary,
                    first_validator_spec(instructions@),
                    m,
                ),
            ))
            &&& (r is Stake ==> stake_views_of(r->Stake_stakes@) == validators_called(
                instructions@,
            ).map_values(|v: AddressView| stake_record(summary, v)))
            &&& (r is ClaimStake ==> claim_views_of(r->ClaimStake_claims@) == validators_called(
                instructions@,
            ).map_values(|v: AddressView| claim_record(summary, v)))
            &&& (r is AccountDepositSettings ==> addr_views_of(
                r->AccountDepositSettings_accounts@,
            ) == static_call_accounts(instructions@))
            &&& (r is GeneralTransaction ==> r->GeneralTransaction_account_withdraws
                == summary.account_withdraws
                && r->GeneralTransaction_account_proofs == summary.account_proof_resources
                && r->GeneralTransaction_component_addresses == summary.component_addresses
                && r->GeneralTransaction_resource_addresses == summary.resource_addresses
                && r->GeneralTransaction_package_addresses == summary.package_addresses)
        }),
{
    let committed = match receipt {
        Some(rc) => rc.committed_success,
        None => false,
    };
    if instructions.len() >= 3 {
        if let Some((from, res, amount)) = opening_amount_withdraw(instructions) {
            if let Some(deposits) = collect_transfer_pairs(instructions, 1, &res) {
                if deposits.len() >= 1 {
                    proof {
                        lemma_deposit_views_len(deposits@);
                    }
                    if deposits.len() == 1 {
                        let only_amount = match &deposits[0].source {
                            Source::Guaranteed {
                                specifier: ResourceSpecifier::Amount { amount: a, .. },
                            } => Some(*a),
                            _ => None,
                        };
                        if let Some(da) = only_amount {
                            if da == amount {
                                let to = copy_address(&deposits[0].account);
                                return TransactionType::SimpleTransfer {
                                    from,
                                    to,
                                    transferred: ResourceSpecifier::Amount {
                                        resource_address: res,
                                        amount,
                                    },
                                };
                            }
                        }
                    }
                    return TransactionType::Transfer { from, deposits };
                }
            }
        }
    }
    if committed && check_validator_shape(instructions, &String::from_str("stake")) {
        proof {
            reveal_strlit("stake");
        }
        let mut stakes: Vec<StakeInformation> = Vec::new();
        let mut i: usize = 0;
        while i < instructions.len()
            invariant
                0 <= i <= instructions@.len(),
                stake_views_of(stakes@) == validators_called(
                    instructions@.take(i as int),
                ).map_values(|v: AddressView| stake_record(summary, v)),
            decreases instructions@.len() - i,
        {
            let ghost pre = stakes@;
            proof {
                lemma_validators_called_step(instructions@, i as int);
            }
            if let Instruction::CallMethod {
                address: ManifestAddress::Static { address },
                ..
            } = &instructions[i] {
                if address.raw.len() > 0 && crate::address::entity_class(address.raw[0])
                    == crate::address::EntityClass::Validator {
                    let from = first_withdraw_account(&summary);
                    stakes.push(
                        StakeInformation {
                            from_account: match from {
                                Some(a) => a,
                                None => copy_address(address),
                            },
                            validator_address: copy_address(address),
                            staked_xrd: first_withdraw_amount(&summary),
                        },
                    );
                    proof {
                        assert(stakes@.drop_last() =~= pre);
                        assert(stakes@.last()@ == stake_record(
                            summary,
                            static_validator_of(instructions@[i as int])->Some_0,
                        ));
                        assert(stake_views_of(stakes@) =~= validators_called(
                            instructions@.take(i as int + 1),
                        ).map_values(|v: AddressView| stake_record(summary, v)));
                    }
                }
            }
            proof {
                if stakes@ == pre {
                    assert(stake_views_of(stakes@) =~= validators_called(
                        instructions@.take(i as int + 1),
                    ).map_values(|v: AddressView| stake_record(summary, v)));
                }
            }
            i = i + 1;
        }
        proof {
            assert(instructions@.take(instructions@.len() as int) =~= instructions@);
        }
        return TransactionType::Stake { stakes };
    }
    if committed && check_validator_shape(instructions, &String::from_str("unstake")) {
        proof {
            reveal_strlit("stake");
            reveal_strlit("unstake");
            assert("stake"@.len() != "unstake"@.len());
        }
        let rc = match receipt {
            Some(rc) => rc,
            None => {
                proof {
                    assert(false);
                }
                return TransactionType::GeneralTransaction {
                    account_proofs: summary.account_proof_resources,
                    account_withdraws: summary.account_withdraws,
                    component_addresses: summary.component_addresses,
                    resource_addresses: summary.resource_addresses,
                    package_addresses: summary.package_addresses,
                };
            },
        };
        let mut unstakes: Vec<UnstakeInformation> = Vec::new();
        let mut i: usize = 0;
        let validator = first_validator(instructions);
        let from = first_withdraw_account(&summary);
        let stake_unit = first_withdraw_resource(&summary);
        let ghost fv = first_validator_spec(instructions@);
        while i < rc.minted_non_fungible_data.len()
            invariant
                0 <= i <= rc.minted_non_fungible_data@.len(),
                fv == first_validator_spec(instructions@),
                match validator {
                    Some(a) => fv == Some(a@),
                    None => fv is None,
                },
                match from {
                    Some(a) => summary.account_withdraws@.len() > 0 && a@
                        == summary.account_withdraws@[0].account@,
                    None => summary.account_withdraws@.len() == 0,
                },
                match stake_unit {
                    Some(a) => summary.account_withdraws@.len() > 0 && a@ == (
                    match summary.account_withdraws@[0].specifier {
                        ResourceSpecifier::Amount { resource_address, .. } => resource_address@,
                        ResourceSpecifier::Ids { resource_address, .. } => resource_address@,
                    }),
                    None => summary.account_withdraws@.len() == 0,
                },
                unstake_views_of(unstakes@) == rc.minted_non_fungible_data@.take(
                    i as int,
                ).map_values(|m: MintedNonFungible| unstake_record(summary, fv, m)),
            decreases rc.minted_non_fungible_data@.len() - i,
        {
            let ghost pre = unstakes@;
            let m = &rc.minted_non_fungible_data[i];
            unstakes.push(
                UnstakeInformation {
                    from_account: match &from {
                        Some(a) => copy_address(a),
                        None => copy_address(&m.resource_address),
                    },
                    stake_unit_address: match &stake_unit {
                        Some(a) => copy_address(a),
                        None => copy_address(&m.resource_address),
                    },
                    stake_unit_amount: first_withdraw_amount(&summary),
                    validator_address: match &validator {
                        Some(a) => copy_address(a),
                        None => copy_address(&m.resource_address),
                    },
                    claim_nft_resource: copy_address(&m.resource_address),
                    claim_nft_local_id: crate::wire::copy_non_fungible_local_id(&m.local_id),
                    claim_nft_data: UnstakeData {
                        name: m.data.name.clone(),
                        claim_epoch: m.data.claim_epoch,
                        claim_amount: m.data.claim_amount,
                    },
                },
            );
            proof {
                assert(unstakes@.drop_last() =~= pre);
                assert(unstakes@.last()@ == unstake_record(
                    summary,
                    fv,
                    rc.minted_non_fungible_data@[i as int],
                ));
                assert(rc.minted_non_fungible_data@.take(i as int + 1).drop_last()
                    =~= rc.minted_non_fungible_data@.take(i as int));
                assert(rc.minted_non_fungible_data@.take(i as int + 1).last()
                    == rc.minted_non_fungible_data@[i as int]);
                assert(unstake_views_of(unstakes@) =~= rc.minted_non_fungible_data@.take(
                    i as int + 1,
                ).map_values(|m: MintedNonFungible| unstake_record(summary, fv, m)));
            }
            i = i + 1;
        }
        proof {
            assert(rc.minted_non_fungible_data@.take(rc.minted_non_fungible_data@.len() as int)
                =~= rc.minted_non_fungible_data@);
        }
        return TransactionType::Unstake { unstakes };
    }
    if committed && check_validator_shape(instructions, &String::from_str("claim_xrd")) {
        proof {
            reveal_strlit("stake");
            reveal_strlit("unstake");
            reveal_strlit("claim_xrd");
            assert("stake"@.len() != "claim_xrd"@.len());
            assert("unstake"@.len() != "claim_xrd"@.len());
        }
        let mut claims: Vec<ClaimStakeInformation> = Vec::new();
        let mut i: usize = 0;
        let from = first_withdraw_account(&summary);
        while i < instructions.len()
            invariant
                0 <= i <= instructions@.len(),
                match from {
                    Some(a) => summary.account_withdraws@.len() > 0 && a@
                        == summary.account_withdraws@[0].account@,
                    None => summary.account_withdraws@.len() == 0,
                },
                claim_views_of(claims@) == validators_called(
                    instructions@.take(i as int),
                ).map_values(|v: AddressView| claim_record(summary, v)),
            decreases instructions@.len() - i,
        {
            let ghost pre = claims@;
            proof {
                lemma_validators_called_step(instructions@, i as int);
            }
            if let Instruction::CallMethod {
                address: ManifestAddress::Static { address },
                ..
            } = &instructions[i] {
                if address.raw.len() > 0 && crate::address::entity_class(address.raw[0])
                    == crate::address::EntityClass::Validator {
                    claims.push(
                        ClaimStakeInformation {
                            from_account: match &from {
                                Some(a) => copy_address(a),
                                None => copy_address(address),
                            },
                            validator_address: copy_address(address),
                        },
                    );
                    proof {
                        assert(claims@.drop_last() =~= pre);
                        assert(claims@.last()@ == claim_record(
                            summary,
                            static_validator_of(instructions@[i as int])->Some_0,
                        ));
                        assert(claim_views_of(claims@) =~= validators_called(
                            instructions@.take(i as int + 1),
                        ).map_values(|v: AddressView| claim_record(summary, v)));
                    }
                }
            }
            proof {
                if claims@ == pre {
                    assert(claim_views_of(claims@) =~= validators_called(
                        instructions@.take(i as int + 1),
                    ).map_values(|v: AddressView| claim_record(summary, v)));
                }
            }
            i = i + 1;
        }
        proof {
            assert(instructions@.take(instructions@.len() as int) =~= instructions@);
        }
        return TransactionType::ClaimStake { claims };
    }
    if check_settings_shape(instructions) {
        let mut accounts: Vec<NetworkAwareAddress> = Vec::new();
        let mut i: usize = 0;
        while i < instructions.len()
            invariant
                0 <= i <= instructions@.len(),
                addr_views_of(accounts@) == static_call_accounts(instructions@.take(i as int)),
            decreases instructions@.len() - i,
        {
            let ghost pre = accounts@;
            proof {
                lemma_static_calls_step(instructions@, i as int);
            }
            if let Instruction::CallMethod {
                address: ManifestAddress::Static { address },
                ..
            } = &instructions[i] {
                accounts.push(copy_address(address));
                proof {
                    assert(accounts@.drop_last() =~= pre);
                    assert(addr_views_of(accounts@) =~= static_call_accounts(
                        instructions@.take(i as int + 1),
                    ));
                }
            }
            proof {
                if accounts@ == pre {
                    assert(addr_views_of(accounts@) =~= static_call_accounts(
                        instructions@.take(i as int + 1),
                    ));
                }
            }
            i = i + 1;
        }
        proof {
            assert(instructions@.take(instructions@.len() as int) =~= instructions@);
        }
        return TransactionType::AccountDepositSettings { accounts };
    }
    TransactionType::GeneralTransaction {
        account_proofs: summary.account_proof_resources,
        account_withdraws: summary.account_withdraws,
        component_addresses: summary.component_addresses,
        resource_addresses: summary.resource_addresses,
        package_addresses: summary.package_addresses,
    }
}

/// The length of the deposit view sequence.
proof fn lemma_deposit_views_len(s: Seq<AccountDeposit>)
    ensures
        deposit_views_of(s).len() == s.len(),
        forall|i: int| 0 <= i < s.len() ==> #[trigger] deposit_views_of(s)[i] == s[i]@,
    decreases s,
{
    if s.len() > 0 {
        lemma_deposit_views_len(s.drop_last());
    }
}

/// The account of the first withdrawal of the summary, if any.
fn first_withdraw_account(summary: &ManifestSummary) -> (r: Option<NetworkAwareAddress>)
    ensures
        match r {
            Some(a) => summary.account_withdraws@.len() > 0 && a@
                == summary.account_withdraws@[0].account@,
            None => summary.account_withdraws@.len() == 0,
        },
{
    if summary.account_withdraws.len() > 0 {
        Some(copy_address(&summary.account_withdraws[0].account))
    } else {
        None
    }
}

/// The resource of the first withdrawal of the summary, if any.
fn first_withdraw_resource(summary: &ManifestSummary) -> (r: Option<NetworkAwareAddress>)
    ensures
        match r {
            Some(a) => summary.account_withdraws@.len() > 0 && a@ == (
            match summary.account_withdraws@[0].specifier {
                ResourceSpecifier::Amount { resource_address, .. } => resource_address@,
                ResourceSpecifier::Ids { resource_address, .. } => resource_address@,
            }),
            None => summary.account_withdraws@.len() == 0,
        },
{
    if summary.account_withdraws.len() > 0 {
        match &summary.account_withdraws[0].specifier {
            ResourceSpecifier::Amount { resource_address, .. } => Some(
                copy_address(resource_address),
            ),
            ResourceSpecifier::Ids { resource_address, .. } => Some(
                copy_address(resource_address),
            ),
        }
    } else {
        None
    }
}

/// The amount of the first fungible withdrawal of the summary, or zero.
fn first_withdraw_amount(summary: &ManifestSummary) -> (r: Amount)
    ensures
        r == summary_amount(*summary),
{
    if summary.account_withdraws.len() > 0 {
        match &summary.account_withdraws[0].specifier {
            ResourceSpecifier::Amount { amount, .. } => *amount,
            ResourceSpecifier::Ids { .. } => Amount { attos: 0 },
        }
    } else {
        Amount { attos: 0 }
    }
}

/// The first validator address a static method call targets, if any.
fn first_validator(instructions: &Vec<Instruction>) -> (r: Option<NetworkAwareAddress>)
    ensures
        match r {
            Some(a) => first_validator_spec(instructions@) == Some(a@),
            None => first_validator_spec(instructions@) is None,
        },
{
    let mut i: usize = 0;
    while i < instructions.len()
        invariant
            0 <= i <= instructions@.len(),
            forall|j: int| 0 <= j < i ==> static_validator_of(#[trigger] instructions@[j])
                is None,
        decreases instructions@.len() - i,
    {
        if let Instruction::CallMethod {
            address: ManifestAddress::Static { address },
            ..
        } = &instructions[i] {
            if address.raw.len() > 0 && crate::address::entity_class(address.raw[0])
                == crate::address::EntityClass::Validator {
                proof {
                    lemma_first_validator_is(instructions@, i as int);
                }
                return Some(copy_address(address));
            }
        }
        i = i + 1;
    }
    proof {
        lemma_first_validator_none(instructions@);
    }
    None
}

/// The addresses of the sequence that fall in the class.
pub open spec fn class_filtered(s: Seq<NetworkAwareAddress>, c: crate::address::EntityClass) -> Seq<
    AddressView,
>
    decreases s,
{
    if s.len() == 0 {
        Seq::empty()
    } else if addr_class(s.last()) == c {
        class_filtered(s.drop_last(), c).push(s.last()@)
    } else {
        class_filtered(s.drop_last(), c)
    }
}

/// The entity class an address model falls in, from its first raw byte.
pub open spec fn view_class(a: AddressView) -> crate::address::EntityClass {
    if a.raw.len() > 0 {
        crate::address::spec_entity_class(a.raw[0])
    } else {
        crate::address::EntityClass::Other
    }
}

/// The address models of the sequence that fall in the class.
pub open spec fn class_filtered_v(s: Seq<AddressView>, c: crate::address::EntityClass) -> Seq<
    AddressView,
>
    decreases s,
{
    if s.len() == 0 {
        Seq::empty()
    } else if view_class(s.last()) == c {
        class_filtered_v(s.drop_last(), c).push(s.last())
    } else {
        class_filtered_v(s.drop_last(), c)
    }
}

/// Filtering addresses and filtering their models agree.
pub proof fn lemma_class_filtered_bridge(s: Seq<NetworkAwareAddress>)
    ensures
        forall|c: crate::address::EntityClass| #[trigger] class_filtered(s, c)
            == class_filtered_v(addr_views_of(s), c),
    decreases s,
{
    if s.len() > 0 {
        lemma_class_filtered_bridge(s.drop_last());
        assert forall|c: crate::address::EntityClass| #[trigger] class_filtered(s, c)
            == class_filtered_v(addr_views_of(s), c) by {
            assert(class_filtered(s.drop_last(), c) == class_filtered_v(
                addr_views_of(s.drop_last()),
                c,
            ));
            assert(addr_views_of(s).drop_last() =~= addr_views_of(s.drop_last()));
            assert(addr_views_of(s).last() == s.last()@);
            assert(view_class(s.last()@) == addr_class(s.last()));
            assert(addr_views_of(s).len() == s.len()) by {
                crate::visitor::lemma_addr_views_of(s);
            }
        }
    }
}

/// The component addresses encountered in the manifest, partitioned by the
/// entity subtype each address's discriminator byte declares.
#[derive(Debug)]
pub struct EncounteredComponents {
    pub user_applications: Vec<NetworkAwareAddress>,
    pub accounts: Vec<NetworkAwareAddress>,
    pub identities: Vec<NetworkAwareAddress>,
    pub clocks: Vec<NetworkAwareAddress>,
    pub epoch_managers: Vec<NetworkAwareAddress>,
    pub validators: Vec<NetworkAwareAddress>,
    pub access_controller: Vec<NetworkAwareAddress>,
}

impl EncounteredComponents {
    /// Partitions component addresses by entity subtype; an address falls in
    /// exactly the list its class names, in encounter order.
    pub fn partition(addresses: &Vec<NetworkAwareAddress>) -> (r: EncounteredComponents)
        ensures
            addr_views_of(r.user_applications@) == class_filtered(
                addresses@,
                crate::address::EntityClass::UserApplication,
            ),
            addr_views_of(r.accounts@) == class_filtered(
                addresses@,
                crate::address::EntityClass::Account,
            ),
            addr_views_of(r.identities@) == class_filtered(
                addresses@,
                crate::address::EntityClass::Identity,
            ),
            addr_views_of(r.clocks@) == class_filtered(
                addresses@,
                crate::address::EntityClass::Clock,
            ),
            addr_views_of(r.epoch_managers@) == class_filtered(
                addresses@,
                crate::address::EntityClass::EpochManager,
            ),
            addr_views_of(r.validators@) == class_filtered(
                addresses@,
                crate::address::EntityClass::Validator,
            ),
            addr_views_of(r.access_controller@) == class_filtered(
                addresses@,
                crate::address::EntityClass::AccessController,
            ),
    {
        let mut out = EncounteredComponents {
            user_applications: Vec::new(),
            accounts: Vec::new(),
            identities: Vec::new(),
            clocks: Vec::new(),
            epoch_managers: Vec::new(),
            validators: Vec::new(),
            access_controller: Vec::new(),
        };
        let mut i: usize = 0;
        while i < addresses.len()
            invariant
                0 <= i <= addresses@.len(),
                addr_views_of(out.user_applications@) == class_filtered(
                    addresses@.take(i as int),
                    crate::address::EntityClass::UserApplication,
                ),
                addr_views_of(out.accounts@) == class_filtered(
                    addresses@.take(i as int),
                    crate::address::EntityClass::Account,
                ),
                addr_views_of(out.identities@) == class_filtered(
                    addresses@.take(i as int),
                    crate::address::EntityClass::Identity,
                ),
                addr_views_of(out.clocks@) == class_filtered(
                    addresses@.take(i as int),
                    crate::address::EntityClass::Clock,
                ),
                addr_views_of(out.epoch_managers@) == class_filtered(
                    addresses@.take(i as int),
                    crate::address::EntityClass::EpochManager,
                ),
                addr_views_of(out.validators@) == class_filtered(
                    addresses@.take(i as int),
                    crate::address::EntityClass::Validator,
                ),
                addr_views_of(out.access_controller@) == class_filtered(
                    addresses@.take(i as int),
                    crate::address::EntityClass::AccessController,
                ),
            decreases addresses@.len() - i,
        {
            let a = &addresses[i];
            proof {
                assert(addresses@.take(i as int + 1).drop_last() =~= addresses@.take(i as int));
                assert(addresses@.take(i as int + 1).last() == addresses@[i as int]);
            }
            let class = if a.raw.len() > 0 {
                crate::address::entity_class(a.raw[0])
            } else {
                crate::address::EntityClass::Other
            };
            let ghost pre_ua = out.user_applications@;
            let ghost pre_ac = out.accounts@;
            let ghost pre_id = out.identities@;
            let ghost pre_cl = out.clocks@;
            let ghost pre_em = out.epoch_managers@;
            let ghost pre_va = out.validators@;
            let ghost pre_co = out.access_controller@;
            match class {
                crate::address::EntityClass::UserApplication => out.user_applications.push(
                    copy_address(a),
                ),
                crate::address::EntityClass::Account => out.accounts.push(copy_address(a)),
                crate::address::EntityClass::Identity => out.identities.push(copy_address(a)),
                crate::address::EntityClass::Clock => out.clocks.push(copy_address(a)),
                crate::address::EntityClass::EpochManager => out.epoch_managers.push(
                    copy_address(a),
                ),
                crate::address::EntityClass::Validator => out.validators.push(copy_address(a)),
                crate::address::EntityClass::AccessController => out.access_controller.push(
                    copy_address(a),
                ),
                _ => {},
            }
            proof {
                if out.user_applications@ != pre_ua {
                    assert(out.user_applications@.drop_last() =~= pre_ua);
                }
                if out.accounts@ != pre_ac {
                    assert(out.accounts@.drop_last() =~= pre_ac);
                }
                if out.identities@ != pre_id {
                    assert(out.identities@.drop_last() =~= pre_id);
                }
                if out.clocks@ != pre_cl {
                    assert(out.clocks@.drop_last() =~= pre_cl);
                }
                if out.epoch_managers@ != pre_em {
                    assert(out.epoch_managers@.drop_last() =~= pre_em);
                }
                if out.validators@ != pre_va {
                    assert(out.validators@.drop_last() =~= pre_va);
                }
                if out.access_controller@ != pre_co {
                    assert(out.access_controller@.drop_last() =~= pre_co);
                }
            }
            i = i + 1;
        }
        proof {
            assert(addresses@.take(addresses@.len() as int) =~= addresses@);
        }
        out
    }
}

/// Every address encountered in the manifest, by position in it.
#[derive(Debug)]
pub struct EncounteredAddresses {
    pub component_addresses: EncounteredComponents,
    pub resource_addresses: Vec<NetworkAwareAddress>,
    pub package_addresses: Vec<NetworkAwareAddress>,
}

/// The entities the receipt shows were newly created.
#[derive(Debug)]
pub struct CreatedEntities {
    pub component_addresses: Vec<NetworkAwareAddress>,
    pub resource_addresses: Vec<NetworkAwareAddress>,
    pub package_addresses: Vec<NetworkAwareAddress>,
}

/// Copies a vector of addresses.
pub fn copy_addresses(v: &Vec<NetworkAwareAddress>) -> (r: Vec<NetworkAwareAddress>)
    ensures
        addr_views_of(r@) == addr_views_of(v@),
{
    let mut out: Vec<NetworkAwareAddress> = Vec::new();
    let mut i: usize = 0;
    while i < v.len()
        invariant
            0 <= i <= v@.len(),
            addr_views_of(out@) == addr_views_of(v@.take(i as int)),
        decreases v@.len() - i,
    {
        let ghost pre = out@;
        out.push(copy_address(&v[i]));
        proof {
            assert(out@.drop_last() =~= pre);
            assert(v@.take(i as int + 1).drop_last() =~= v@.take(i as int));
            assert(v@.take(i as int + 1).last() == v@[i as int]);
        }
        i = i + 1;
    }
    proof {
        assert(v@.take(v@.len() as int) =~= v@);
    }
    out
}

/// A request to analyze a manifest with the context of a previewed
/// execution: the declared network, the parsed manifest, and the decoded
/// receipt of the preview.
#[derive(Debug)]
pub struct AnalyzeManifestWithPreviewContextRequest {
    pub network_id: u8,
    pub manifest: Vec<Instruction>,
    pub transaction_receipt: TransactionReceipt,
}

/// The analysis of a manifest with preview context.
#[derive(Debug)]
pub struct AnalyzeManifestWithPreviewContextResponse {
    pub encountered_addresses: EncounteredAddresses,
    pub accounts_requiring_auth: Vec<NetworkAwareAddress>,
    pub account_proof_resources: Vec<NetworkAwareAddress>,
    pub account_withdraws: Vec<AccountWithdraw>,
    pub created_entities: CreatedEntities,
}

/// The first foreign network id one instruction carries, if any, in the
/// pre-order the traversal uses.
pub open spec fn instruction_mismatch(instr: Instruction, expected: u8) -> Option<u8> {
    crate::visitor::first_mismatch(
        crate::visitor::collected_of_instruction(instr).networks,
        expected,
    )
}

/// The position of the first instruction carrying a foreign network id, or
/// the sequence length if none does.
pub open spec fn first_bad_instruction(instrs: Seq<Instruction>, expected: u8) -> int
    decreases instrs.len(),
{
    if instrs.len() == 0 {
        0
    } else if instruction_mismatch(instrs[0], expected) is Some {
        0
    } else {
        1 + first_bad_instruction(instrs.subrange(1, instrs.len() as int), expected)
    }
}

/// The first bad position lies in range, everything before it is clean, and
/// it is bad where it lies in range.
pub proof fn lemma_first_bad_instruction(instrs: Seq<Instruction>, expected: u8)
    ensures
        0 <= first_bad_instruction(instrs, expected) <= instrs.len(),
        forall|j: int| 0 <= j < first_bad_instruction(instrs, expected) ==> instruction_mismatch(
            #[trigger] instrs[j],
            expected,
        ) is None,
        first_bad_instruction(instrs, expected) < instrs.len() ==> instruction_mismatch(
            instrs[first_bad_instruction(instrs, expected)],
            expected,
        ) is Some,
    decreases instrs.len(),
{
    if instrs.len() > 0 && !(instruction_mismatch(instrs[0], expected) is Some) {
        let rest = instrs.subrange(1, instrs.len() as int);
        lemma_first_bad_instruction(rest, expected);
        let f = first_bad_instruction(instrs, expected);
        assert forall|j: int| 0 <= j < f implies instruction_mismatch(
            #[trigger] instrs[j],
            expected,
        ) is None by {
            if j > 0 {
                assert(instrs[j] == rest[j - 1]);
            }
        }
        if f < instrs.len() {
            assert(instrs[f] == rest[f - 1]);
        }
    }
}

/// The whole outcome of a network-verifier pass: its state never changes,
/// and it fails exactly when some instruction carries a foreign network id,
/// with the first foreign id of the first such instruction reported.
proof fn lemma_verifier_outcome(
    instrs: Seq<Instruction>,
    vvs: Seq<crate::visitor::ValueVisitorView>,
    k: int,
    expected: u8,
)
    requires
        0 <= k <= instrs.len(),
        vvs.len() == 1,
        vvs[0] == (crate::visitor::ValueVisitorView::NetworkVerifier {
            expected_network_id: expected,
        }),
    ensures
        ({
            let out = crate::visitor::traverse_upto(instrs, vvs, Seq::empty(), k);
            let f = first_bad_instruction(instrs, expected);
            &&& out.0 == vvs
            &&& (f < k ==> out.2 == Some(
                ErrorView::NetworkMismatchError {
                    found: instruction_mismatch(instrs[f], expected)->Some_0,
                    expected,
                },
            ))
            &&& (f >= k ==> out.2 is None)
        }),
    decreases k,
{
    lemma_first_bad_instruction(instrs, expected);
    if k > 0 {
        lemma_verifier_outcome(instrs, vvs, k - 1, expected);
        let prev = crate::visitor::traverse_upto(instrs, vvs, Seq::empty(), k - 1);
        let f = first_bad_instruction(instrs, expected);
        if f >= k - 1 {
            crate::visitor::lemma_vv_first_err(vvs, instrs[k - 1]);
            assert(crate::visitor::run_vvs_states(vvs, instrs[k - 1]) =~= vvs);
        }
    }
}

/// The response facts the analysis owes for its request: the created
/// entities are exactly the receipt's new addresses, and every fact set is
/// the one the standard visitor pass extracts from the manifest.
pub open spec fn analysis_ok(
    request: AnalyzeManifestWithPreviewContextRequest,
    resp: AnalyzeManifestWithPreviewContextResponse,
) -> bool {
    let out = crate::visitor::traverse_upto(
        request.manifest@,
        standard_vvs(),
        standard_ivs(),
        request.manifest@.len() as int,
    );
    let comps = out.0[0]->AddressAggregator_component_addresses;
    &&& addr_views_of(resp.accounts_requiring_auth@) == out.1[0]
        ->AccountInteractions_auth_required
    &&& withdraw_views_of(resp.account_withdraws@) == out.1[1]->AccountWithdraws_withdraws
    &&& addr_views_of(resp.account_proof_resources@) == out.1[2]->AccountProofs_created_proofs
    &&& addr_views_of(resp.encountered_addresses.resource_addresses@) == out.0[0]
        ->AddressAggregator_resource_addresses
    &&& addr_views_of(resp.encountered_addresses.package_addresses@) == out.0[0]
        ->AddressAggregator_package_addresses
    &&& addr_views_of(resp.encountered_addresses.component_addresses.user_applications@)
        == class_filtered_v(comps, crate::address::EntityClass::UserApplication)
    &&& addr_views_of(resp.encountered_addresses.component_addresses.accounts@)
        == class_filtered_v(comps, crate::address::EntityClass::Account)
    &&& addr_views_of(resp.encountered_addresses.component_addresses.identities@)
        == class_filtered_v(comps, crate::address::EntityClass::Identity)
    &&& addr_views_of(resp.encountered_addresses.component_addresses.clocks@)
        == class_filtered_v(comps, crate::address::EntityClass::Clock)
    &&& addr_views_of(resp.encountered_addresses.component_addresses.epoch_managers@)
        == class_filtered_v(comps, crate::address::EntityClass::EpochManager)
    &&& addr_views_of(resp.encountered_addresses.component_addresses.validators@)
        == class_filtered_v(comps, crate::address::EntityClass::Validator)
    &&& addr_views_of(resp.encountered_addresses.component_addresses.access_controller@)
        == class_filtered_v(comps, crate::address::EntityClass::AccessController)
    &&& addr_views_of(resp.created_entities.component_addresses@) == addr_views_of(
        request.transaction_receipt.new_component_addresses@,
    )
    &&& addr_views_of(resp.created_entities.resource_addresses@) == addr_views_of(
        request.transaction_receipt.new_resource_addresses@,
    )
    &&& addr_views_of(resp.created_entities.package_addresses@) == addr_views_of(
        request.transaction_receipt.new_package_addresses@,
    )
}

/// Serves analysis requests.
pub struct AnalyzeManifestWithPreviewContextHandler;

impl AnalyzeManifestWithPreviewContextHandler {
    /// Checks that every address in the manifest carries the declared
    /// network, then analyzes the manifest under the receipt. The result is
    /// the first network mismatch where one exists; the uncommitted-receipt
    /// error exactly when the networks agree but the receipt did not commit
    /// successfully; and otherwise the response whose facts [`analysis_ok`]
    /// pins.
    pub fn handle(request: &AnalyzeManifestWithPreviewContextRequest) -> (r: Result<
        AnalyzeManifestWithPreviewContextResponse,
        Error,
    >)
        ensures
            ({
                let len = request.manifest@.len() as int;
                let f = first_bad_instruction(request.manifest@, request.network_id);
                &&& (f < len ==> (r matches Err(e) && e@ == (ErrorView::NetworkMismatchError {
                    found: instruction_mismatch(request.manifest@[f], request.network_id)->Some_0,
                    expected: request.network_id,
                })))
                &&& (f == len && !request.transaction_receipt.committed_success ==> r
                    == Err::<AnalyzeManifestWithPreviewContextResponse, Error>(
                    Error::TransactionNotCommitted,
                ))
                &&& (f == len && request.transaction_receipt.committed_success ==> (r matches Ok(
                    resp,
                ) && analysis_ok(*request, resp)))
                &&& (r is Ok <==> (f == len
                    && request.transaction_receipt.committed_success))
            }),
    {
        let mut vvs: Vec<crate::visitor::ValueVisitor> = Vec::new();
        vvs.push(
            crate::visitor::ValueVisitor::NetworkVerifier {
                expected_network_id: request.network_id,
            },
        );
        let mut ivs: Vec<InstructionVisitor> = Vec::new();
        proof {
            crate::visitor::lemma_vv_views_of(vvs@);
            crate::visitor::lemma_iv_views_of(ivs@);
            assert(crate::visitor::iv_views_of(ivs@) =~= Seq::<InstructionVisitorView>::empty());
            assert(crate::visitor::vv_views_of(vvs@) =~= seq![
                crate::visitor::ValueVisitorView::NetworkVerifier {
                    expected_network_id: request.network_id,
                },
            ]);
            lemma_verifier_outcome(
                request.manifest@,
                crate::visitor::vv_views_of(vvs@),
                request.manifest@.len() as int,
                request.network_id,
            );
            lemma_first_bad_instruction(request.manifest@, request.network_id);
        }
        if let Err(e) = crate::visitor::traverse(&request.manifest, &mut vvs, &mut ivs) {
            return Err(e);
        }
        if !request.transaction_receipt.committed_success {
            return Err(Error::TransactionNotCommitted);
        }
        let summary = summarize(&request.manifest);
        proof {
            lemma_class_filtered_bridge(summary.component_addresses@);
        }
        Ok(
            AnalyzeManifestWithPreviewContextResponse {
                encountered_addresses: EncounteredAddresses {
                    component_addresses: EncounteredComponents::partition(
                        &summary.component_addresses,
                    ),
                    resource_addresses: summary.resource_addresses,
                    package_addresses: summary.package_addresses,
                },
                accounts_requiring_auth: summary.accounts_requiring_auth,
                account_proof_resources: summary.account_proof_resources,
                account_withdraws: summary.account_withdraws,
                created_entities: CreatedEntities {
                    component_addresses: copy_addresses(
                        &request.transaction_receipt.new_component_addresses,
                    ),
                    resource_addresses: copy_addresses(
                        &request.transaction_receipt.new_resource_addresses,
                    ),
                    package_addresses: copy_addresses(
                        &request.transaction_receipt.new_package_addresses,
                    ),
                },
            },
        )
    }
}

/// A transfer tail contains no withdrawals: every slot of it is a worktop
/// take or an account deposit.
proof fn lemma_pairs_no_withdraws(instrs: Seq<Instruction>, start: int, resource: AddressView)
    requires
        0 <= start,
        transfer_pairs(instrs, start, resource) is Some,
    ensures
        forall|k: int| start <= k < instrs.len() ==> withdraw_facts(#[trigger] instrs[k]).len()
            == 0,
    decreases instrs.len() - start,
{
    reveal_strlit("deposit");
    reveal_strlit("withdraw");
    reveal_strlit("withdraw_non_fungibles");
    assert("deposit"@.len() != "withdraw"@.len());
    assert("deposit"@.len() != "withdraw_non_fungibles"@.len());
    if start < instrs.len() {
        lemma_pairs_no_withdraws(instrs, start + 2, resource);
        assert(withdraw_facts(instrs[start]).len() == 0);
        assert(withdraw_facts(instrs[start + 1]).len() == 0);
    }
}

/// A manifest with a second withdrawing instruction anywhere after its
/// opening one is neither a simple transfer nor a transfer: the transfer
/// tail admits only worktop takes and deposits. In particular, a manifest
/// that withdraws from two different accounts never takes either category.
pub proof fn lemma_two_withdrawers_not_transfer(
    instrs: Seq<Instruction>,
    committed: bool,
    i: int,
    j: int,
)
    requires
        0 <= i < j < instrs.len(),
        withdraw_facts(instrs[i]).len() > 0,
        withdraw_facts(instrs[j]).len() > 0,
    ensures
        decision(instrs, committed) != TransactionKind::SimpleTransfer,
        decision(instrs, committed) != TransactionKind::Transfer,
{
    let kind = decision(instrs, committed);
    if kind == TransactionKind::SimpleTransfer || kind == TransactionKind::Transfer {
        let wf = withdraw_facts(instrs[0]);
        lemma_pairs_no_withdraws(instrs, 1, wf[0].specifier->Amount_resource_address);
    }
}

/// The same manifest and receipt always yield the same category: the
/// classifier is a pure function of its inputs. The substance lives in
/// [`classify`]'s contract, which pins the chosen category and every fact
/// list by the manifest, the summary and the receipt alone; this records
/// the law over the category function itself.
pub proof fn lemma_classifier_deterministic(
    a: Seq<Instruction>,
    b: Seq<Instruction>,
    ca: bool,
    cb: bool,
)
    requires
        a == b,
        ca == cb,
    ensures
        decision(a, ca) == decision(b, cb),
{
}

} // verus!
