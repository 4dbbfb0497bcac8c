//! The traversal framework.
//!
//! A traversal applies an ordered list of value visitors and an ordered list
//! of instruction visitors to every instruction of a manifest, in manifest
//! order. All visitors run once per instruction before the next instruction
//! is taken up; the first visitor error aborts the whole traversal at once,
//! and the states visitors reached before the abort are kept.

use vstd::prelude::*;

use crate::address::{spec_entity_class, EntityClass, NetworkAwareAddress};
use crate::error::{Error, ErrorView};
use crate::instruction::{Instruction, ManifestAddress};
use crate::value::{AddressView, Value};

verus! {

/// The addresses and network ids one value or instruction contributes.
pub struct Collected {
    pub component_addresses: Seq<AddressView>,
    pub resource_addresses: Seq<AddressView>,
    pub package_addresses: Seq<AddressView>,
    pub networks: Seq<u8>,
}

impl Collected {
    /// No contribution.
    pub open spec fn empty() -> Collected {
        Collected {
            component_addresses: Seq::empty(),
            resource_addresses: Seq::empty(),
            package_addresses: Seq::empty(),
            networks: Seq::empty(),
        }
    }

    /// Contributions in sequence.
    pub open spec fn cat(self, other: Collected) -> Collected {
        Collected {
            component_addresses: self.component_addresses + other.component_addresses,
            resource_addresses: self.resource_addresses + other.resource_addresses,
            package_addresses: self.package_addresses + other.package_addresses,
            networks: self.networks + other.networks,
        }
    }

    /// One address, sorted into its class.
    pub open spec fn of_address(a: NetworkAwareAddress, class: EntityClass) -> Collected {
        Collected {
            component_addresses: if class is Resource || class is Package {
                Seq::empty()
            } else {
                seq![a@]
            },
            resource_addresses: if class is Resource {
                seq![a@]
            } else {
                Seq::empty()
            },
            package_addresses: if class is Package {
                seq![a@]
            } else {
                Seq::empty()
            },
            networks: seq![a.network_id],
        }
    }
}

/// The entity class of an address, from its first raw byte; an address with
/// no bytes falls in the residual class.
pub open spec fn addr_class(a: NetworkAwareAddress) -> EntityClass {
    if a.raw@.len() > 0 {
        spec_entity_class(a.raw@[0])
    } else {
        EntityClass::Other
    }
}

/// The addresses and networks reachable inside one value, in pre-order.
pub open spec fn collected_of_value(v: Value) -> Collected
    decreases v,
{
    match v {
        Value::ComponentAddress { address } => Collected::of_address(
            address,
            addr_class(address),
        ),
        Value::ResourceAddress { address } => Collected::of_address(address, addr_class(address)),
        Value::PackageAddress { address } => Collected::of_address(address, addr_class(address)),
        Value::NonFungibleGlobalId { address } => Collected::of_address(
            address.resource_address,
            addr_class(address.resource_address),
        ),
        Value::OptionSome { value } => collected_of_value(*value),
        Value::ResultOk { value } => collected_of_value(*value),
        Value::ResultErr { value } => collected_of_value(*value),
        Value::Enum { fields, .. } => match fields {
            Some(fs) => collected_of_list(fs@),
            None => Collected::empty(),
        },
        Value::Array { elements, .. } => collected_of_list(elements@),
        Value::Tuple { elements } => collected_of_list(elements@),
        Value::MapValue { entries, .. } => collected_of_entries(entries@),
        _ => Collected::empty(),
    }
}

/// The contributions of a list of values, in order.
pub open spec fn collected_of_list(s: Seq<Value>) -> Collected
    decreases s,
{
    if s.len() == 0 {
        Collected::empty()
    } else {
        collected_of_list(s.drop_last()).cat(collected_of_value(s.last()))
    }
}

/// The contributions of a list of entries, keys before values.
pub open spec fn collected_of_entries(s: Seq<(Value, Value)>) -> Collected
    decreases s,
{
    if s.len() == 0 {
        Collected::empty()
    } else {
        collected_of_entries(s.drop_last()).cat(
            collected_of_value(s.last().0).cat(collected_of_value(s.last().1)),
        )
    }
}

/// The contribution of a static manifest address; a named address has none.
pub open spec fn collected_of_manifest_address(a: ManifestAddress) -> Collected {
    match a {
        ManifestAddress::Static { address } => Collected::of_address(
            address,
            addr_class(address),
        ),
        ManifestAddress::Named { .. } => Collected::empty(),
    }
}

/// The addresses and networks one whole instruction contributes: its typed
/// address fields first, then its argument values left to right.
pub open spec fn collected_of_instruction(instr: Instruction) -> Collected {
    match instr {
        Instruction::CallMethod { address, args, .. } => collected_of_manifest_address(
            address,
        ).cat(collected_of_list(args@)),
        Instruction::CallFunction { package_address, args, .. } => collected_of_manifest_address(
            package_address,
        ).cat(collected_of_list(args@)),
        Instruction::TakeFromWorktop { resource_address, .. } => Collected::of_address(
            resource_address,
            addr_class(resource_address),
        ),
        Instruction::TakeAllFromWorktop { resource_address, .. } => Collected::of_address(
            resource_address,
            addr_class(resource_address),
        ),
        Instruction::TakeNonFungiblesFromWorktop { resource_address, .. } => Collected::of_address(
            resource_address,
            addr_class(resource_address),
        ),
        Instruction::ReturnToWorktop { .. } => Collected::empty(),
    }
}

/// The first network id in the sequence that differs from the declared one.
pub open spec fn first_mismatch(networks: Seq<u8>, expected: u8) -> Option<u8>
    decreases networks,
{
    if networks.len() == 0 {
        None
    } else if networks[0] != expected {
        Some(networks[0])
    } else {
        first_mismatch(networks.subrange(1, networks.len() as int), expected)
    }
}

/// A read-only visitor over the value nodes of each instruction.
#[derive(Debug)]
pub enum ValueVisitor {
    /// Collects every address encountered, partitioned by class.
    AddressAggregator {
        component_addresses: Vec<NetworkAwareAddress>,
        resource_addresses: Vec<NetworkAwareAddress>,
        package_addresses: Vec<NetworkAwareAddress>,
    },
    /// Collects the network id of every address encountered.
    NetworkAggregator { networks: Vec<u8> },
    /// Fails on the first address whose network differs from the declared
    /// one.
    NetworkVerifier { expected_network_id: u8 },
}

/// The mathematical model of a value visitor's state.
pub enum ValueVisitorView {
    AddressAggregator {
        component_addresses: Seq<AddressView>,
        resource_addresses: Seq<AddressView>,
        package_addresses: Seq<AddressView>,
    },
    NetworkAggregator { networks: Seq<u8> },
    NetworkVerifier { expected_network_id: u8 },
}

/// The models of a vector of addresses, in order.
pub open spec fn addr_views_of(s: Seq<NetworkAwareAddress>) -> Seq<AddressView>
    decreases s,
{
    if s.len() == 0 {
        Seq::empty()
    } else {
        addr_views_of(s.drop_last()).push(s.last()@)
    }
}

/// `addr_views_of` maps the sequence elementwise.
pub proof fn lemma_addr_views_of(s: Seq<NetworkAwareAddress>)
    ensures
        addr_views_of(s).len() == s.len(),
        forall|i: int| 0 <= i < s.len() ==> #[trigger] addr_views_of(s)[i] == s[i]@,
    decreases s,
{
    if s.len() > 0 {
        lemma_addr_views_of(s.drop_last());
    }
}

impl View for ValueVisitor {
    type V = ValueVisitorView;

    open spec fn view(&self) -> ValueVisitorView {
        match self {
            ValueVisitor::AddressAggregator {
                component_addresses,
                resource_addresses,
                package_addresses,
            } => ValueVisitorView::AddressAggregator {
                component_addresses: addr_views_of(component_addresses@),
                resource_addresses: addr_views_of(resource_addresses@),
                package_addresses: addr_views_of(package_addresses@),
            },
            ValueVisitor::NetworkAggregator { networks } => ValueVisitorView::NetworkAggregator {
                networks: networks@,
            },
            ValueVisitor::NetworkVerifier { expected_network_id } => {
                ValueVisitorView::NetworkVerifier { expected_network_id: *expected_network_id }
            },
        }
    }
}

/// What one value visitor's state becomes on one instruction, and the error
/// it reports, if any.
pub open spec fn vv_step_view(v: ValueVisitorView, instr: Instruction) -> (
    ValueVisitorView,
    Option<ErrorView>,
) {
    let c = collected_of_instruction(instr);
    match v {
        ValueVisitorView::AddressAggregator {
            component_addresses,
            resource_addresses,
            package_addresses,
        } => (
            ValueVisitorView::AddressAggregator {
                component_addresses: component_addresses + c.component_addresses,
                resource_addresses: resource_addresses + c.resource_addresses,
                package_addresses: package_addresses + c.package_addresses,
            },
            None,
        ),
        ValueVisitorView::NetworkAggregator { networks } => (
            ValueVisitorView::NetworkAggregator { networks: networks + c.networks },
            None,
        ),
        ValueVisitorView::NetworkVerifier { expected_network_id } => (
            v,
            match first_mismatch(c.networks, expected_network_id) {
                Some(found) => Some(
                    ErrorView::NetworkMismatchError { found, expected: expected_network_id },
                ),
                None => None,
            },
        ),
    }
}

/// Extending a collected list prefix by one value.
proof fn lemma_collected_list_step(s: Seq<Value>, i: int)
    requires
        0 <= i < s.len(),
    ensures
        collected_of_list(s.take(i + 1)) == collected_of_list(s.take(i)).cat(
            collected_of_value(s[i]),
        ),
{
    assert(s.take(i + 1).drop_last() =~= s.take(i));
    assert(s.take(i + 1).last() == s[i]);
}

/// Extending a collected entry prefix by one entry.
proof fn lemma_collected_entries_step(s: Seq<(Value, Value)>, i: int)
    requires
        0 <= i < s.len(),
    ensures
        collected_of_entries(s.take(i + 1)) == collected_of_entries(s.take(i)).cat(
            collected_of_value(s[i].0).cat(collected_of_value(s[i].1)),
        ),
{
    assert(s.take(i + 1).drop_last() =~= s.take(i));
    assert(s.take(i + 1).last() == s[i]);
}

/// Copies an address; the copy has the same model.
pub fn copy_address(a: &NetworkAwareAddress) -> (r: NetworkAwareAddress)
    ensures
        r@ == a@,
{
    NetworkAwareAddress { network_id: a.network_id, raw: crate::wire::copy_bytes(&a.raw) }
}

/// The running state of the address and network collection.
pub struct Collector {
    pub component_addresses: Vec<NetworkAwareAddress>,
    pub resource_addresses: Vec<NetworkAwareAddress>,
    pub package_addresses: Vec<NetworkAwareAddress>,
    pub networks: Vec<u8>,
}

impl Collector {
    /// The model of the state.
    pub open spec fn view_collected(self) -> Collected {
        Collected {
            component_addresses: addr_views_of(self.component_addresses@),
            resource_addresses: addr_views_of(self.resource_addresses@),
            package_addresses: addr_views_of(self.package_addresses@),
            networks: self.networks@,
        }
    }
}

/// Records one address in the collector under its entity class.
fn collect_address(a: &NetworkAwareAddress, acc: &mut Collector)
    ensures
        final(acc).view_collected() == old(acc).view_collected().cat(
            Collected::of_address(*a, addr_class(*a)),
        ),
{
    let class = if a.raw.len() > 0 {
        crate::address::entity_class(a.raw[0])
    } else {
        EntityClass::Other
    };
    let ghost pre = *acc;
    if class == EntityClass::Resource {
        acc.resource_addresses.push(copy_address(a));
        proof {
            assert(acc.resource_addresses@.drop_last() =~= pre.resource_addresses@);
            assert(addr_views_of(acc.resource_addresses@) =~= addr_views_of(
                pre.resource_addresses@,
            ) + seq![a@]);
        }
    } else if class == EntityClass::Package {
        acc.package_addresses.push(copy_address(a));
        proof {
            assert(acc.package_addresses@.drop_last() =~= pre.package_addresses@);
            assert(addr_views_of(acc.package_addresses@) =~= addr_views_of(
                pre.package_addresses@,
            ) + seq![a@]);
        }
    } else {
        acc.component_addresses.push(copy_address(a));
        proof {
            assert(acc.component_addresses@.drop_last() =~= pre.component_addresses@);
            assert(addr_views_of(acc.component_addresses@) =~= addr_views_of(
                pre.component_addresses@,
            ) + seq![a@]);
        }
    }
    acc.networks.push(a.network_id);
    proof {
        let c = Collected::of_address(*a, addr_class(*a));
        assert(acc.networks@ =~= pre.networks@ + c.networks);
        if !(addr_class(*a) is Resource) {
            assert(addr_views_of(acc.resource_addresses@) =~= addr_views_of(
                pre.resource_addresses@,
            ) + c.resource_addresses);
        }
        if !(addr_class(*a) is Package) {
            assert(addr_views_of(acc.package_addresses@) =~= addr_views_of(
                pre.package_addresses@,
            ) + c.package_addresses);
        }
        if addr_class(*a) is Resource || addr_class(*a) is Package {
            assert(addr_views_of(acc.component_addresses@) =~= addr_views_of(
                pre.component_addresses@,
            ) + c.component_addresses);
        }
    }
}

/// Walks one value in pre-order, recording every address and network id.
fn collect_value(v: &Value, acc: &mut Collector)
    ensures
        final(acc).view_collected() == old(acc).view_collected().cat(collected_of_value(*v)),
    decreases *v,
{
    match v {
        Value::ComponentAddress { address } => collect_address(address, acc),
        Value::ResourceAddress { address } => collect_address(address, acc),
        Value::PackageAddress { address } => collect_address(address, acc),
        Value::NonFungibleGlobalId { address } => collect_address(&address.resource_address, acc),
        Value::OptionSome { value } => collect_value(&**value, acc),
        Value::ResultOk { value } => collect_value(&**value, acc),
        Value::ResultErr { value } => collect_value(&**value, acc),
        Value::Enum { fields, .. } => {
            match fields {
                Some(fs) => collect_list(fs, acc),
                None => {
                    proof {
                        lemma_collected_cat_empty(old(acc).view_collected());
                    }
                },
            }
        },
        Value::Array { elements, .. } => collect_list(elements, acc),
        Value::Tuple { elements } => collect_list(elements, acc),
        Value::MapValue { entries, .. } => collect_entries(entries, acc),
        _ => {
            proof {
                lemma_collected_cat_empty(old(acc).view_collected());
            }
        },
    }
}

/// Concatenating no contribution changes nothing.
proof fn lemma_collected_cat_empty(c: Collected)
    ensures
        c.cat(Collected::empty()) == c,
{
    assert(c.component_addresses + Seq::<AddressView>::empty() =~= c.component_addresses);
    assert(c.resource_addresses + Seq::<AddressView>::empty() =~= c.resource_addresses);
    assert(c.package_addresses + Seq::<AddressView>::empty() =~= c.package_addresses);
    assert(c.networks + Seq::<u8>::empty() =~= c.networks);
}

/// Concatenation of contributions is associative.
proof fn lemma_collected_cat_assoc(a: Collected, b: Collected, c: Collected)
    ensures
        a.cat(b).cat(c) == a.cat(b.cat(c)),
{
    assert((a.component_addresses + b.component_addresses) + c.component_addresses =~= a.component_addresses
        + (b.component_addresses + c.component_addresses));
    assert((a.resource_addresses + b.resource_addresses) + c.resource_addresses =~= a.resource_addresses
        + (b.resource_addresses + c.resource_addresses));
    assert((a.package_addresses + b.package_addresses) + c.package_addresses =~= a.package_addresses
        + (b.package_addresses + c.package_addresses));
    assert((a.networks + b.networks) + c.networks =~= a.networks + (b.networks + c.networks));
}

/// Walks a list of values in order.
fn collect_list(elements: &Vec<Value>, acc: &mut Collector)
    ensures
        final(acc).view_collected() == old(acc).view_collected().cat(
            collected_of_list(elements@),
        ),
    decreases elements@,
{
    let ghost base = old(acc).view_collected();
    let mut i: usize = 0;
    proof {
        assert(elements@.take(0) =~= Seq::<Value>::empty());
        lemma_collected_cat_empty(base);
    }
    while i < elements.len()
        invariant
            0 <= i <= elements@.len(),
            acc.view_collected() == base.cat(collected_of_list(elements@.take(i as int))),
        decreases elements@.len() - i,
    {
        let elem = &elements[i];
        proof {
            assert(decreases_to!(elements@ => elements@[i as int]));
        }
        collect_value(elem, acc);
        proof {
            lemma_collected_list_step(elements@, i as int);
            lemma_collected_cat_assoc(
                base,
                collected_of_list(elements@.take(i as int)),
                collected_of_value(elements@[i as int]),
            );
        }
        i = i + 1;
    }
    proof {
        assert(elements@.take(elements@.len() as int) =~= elements@);
    }
}

/// Walks a list of entries in order, keys before values.
fn collect_entries(entries: &Vec<(Value, Value)>, acc: &mut Collector)
    ensures
        final(acc).view_collected() == old(acc).view_collected().cat(
            collected_of_entries(entries@),
        ),
    decreases entries@,
{
    let ghost base = old(acc).view_collected();
    let mut i: usize = 0;
    proof {
        assert(entries@.take(0) =~= Seq::<(Value, Value)>::empty());
        lemma_collected_cat_empty(base);
    }
    while i < entries.len()
        invariant
            0 <= i <= entries@.len(),
            acc.view_collected() == base.cat(collected_of_entries(entries@.take(i as int))),
        decreases entries@.len() - i,
    {
        proof {
            assert(decreases_to!(entries@ => entries@[i as int]));
        }
        let ghost mid = acc.view_collected();
        collect_value(&entries[i].0, acc);
        collect_value(&entries[i].1, acc);
        proof {
            lemma_collected_entries_step(entries@, i as int);
            lemma_collected_cat_assoc(
                mid,
                collected_of_value(entries@[i as int].0),
                collected_of_value(entries@[i as int].1),
            );
            lemma_collected_cat_assoc(
                base,
                collected_of_entries(entries@.take(i as int)),
                collected_of_value(entries@[i as int].0).cat(
                    collected_of_value(entries@[i as int].1),
                ),
            );
        }
        i = i + 1;
    }
    proof {
        assert(entries@.take(entries@.len() as int) =~= entries@);
    }
}

/// Collects the addresses and networks of one whole instruction.
fn collect_instruction(instr: &Instruction, acc: &mut Collector)
    ensures
        final(acc).view_collected() == old(acc).view_collected().cat(
            collected_of_instruction(*instr),
        ),
{
    let ghost base = old(acc).view_collected();
    match instr {
        Instruction::CallMethod { address, args, .. } => {
            match address {
                ManifestAddress::Static { address } => collect_address(address, acc),
                ManifestAddress::Named { .. } => {
                    proof {
                        lemma_collected_cat_empty(base);
                    }
                },
            }
            let ghost mid = acc.view_collected();
            collect_list(args, acc);
            proof {
                lemma_collected_cat_assoc(
                    base,
                    collected_of_manifest_address(instr->CallMethod_address),
                    collected_of_list(args@),
                );
            }
        },
        Instruction::CallFunction { package_address, args, .. } => {
            match package_address {
                ManifestAddress::Static { address } => collect_address(address, acc),
                ManifestAddress::Named { .. } => {
                    proof {
                        lemma_collected_cat_empty(base);
                    }
                },
            }
            collect_list(args, acc);
            proof {
                lemma_collected_cat_assoc(
                    base,
                    collected_of_manifest_address(instr->CallFunction_package_address),
                    collected_of_list(args@),
                );
            }
        },
        Instruction::TakeFromWorktop { resource_address, .. } => collect_address(
            resource_address,
            acc,
        ),
        Instruction::TakeAllFromWorktop { resource_address, .. } => collect_address(
            resource_address,
            acc,
        ),
        Instruction::TakeNonFungiblesFromWorktop { resource_address, .. } => collect_address(
            resource_address,
            acc,
        ),
        Instruction::ReturnToWorktop { .. } => {
            proof {
                lemma_collected_cat_empty(base);
            }
        },
    }
}

/// Steps one value visitor on one instruction, returning the new state and
/// the error it reports, if any.
pub fn vv_step(v: ValueVisitor, instr: &Instruction) -> (r: (ValueVisitor, Option<Error>))
    ensures
        r.0@ == vv_step_view(v@, *instr).0,
        match r.1 {
            Some(e) => vv_step_view(v@, *instr).1 == Some(e@),
            None => vv_step_view(v@, *instr).1 is None,
        },
{
    match v {
        ValueVisitor::AddressAggregator {
            component_addresses,
            resource_addresses,
            package_addresses,
        } => {
            let mut acc = Collector {
                component_addresses,
                resource_addresses,
                package_addresses,
                networks: Vec::new(),
            };
            collect_instruction(instr, &mut acc);
            (
                ValueVisitor::AddressAggregator {
                    component_addresses: acc.component_addresses,
                    resource_addresses: acc.resource_addresses,
                    package_addresses: acc.package_addresses,
                },
                None,
            )
        },
        ValueVisitor::NetworkAggregator { networks } => {
            let mut acc = Collector {
                component_addresses: Vec::new(),
                resource_addresses: Vec::new(),
                package_addresses: Vec::new(),
                networks,
            };
            collect_instruction(instr, &mut acc);
            (ValueVisitor::NetworkAggregator { networks: acc.networks }, None)
        },
        ValueVisitor::NetworkVerifier { expected_network_id } => {
            let mut acc = Collector {
                component_addresses: Vec::new(),
                resource_addresses: Vec::new(),
                package_addresses: Vec::new(),
                networks: Vec::new(),
            };
            collect_instruction(instr, &mut acc);
            proof {
                assert(Seq::<u8>::empty() + collected_of_instruction(*instr).networks
                    =~= collected_of_instruction(*instr).networks);
            }
            let mut i: usize = 0;
            let ghost nets = collected_of_instruction(*instr).networks;
            let ghost vview = ValueVisitorView::NetworkVerifier { expected_network_id };
            while i < acc.networks.len()
                invariant
                    0 <= i <= acc.networks@.len(),
                    acc.networks@ == nets,
                    nets == collected_of_instruction(*instr).networks,
                    vview == (ValueVisitorView::NetworkVerifier { expected_network_id }),
                    v@ == vview,
                    vv_step_view(vview, *instr).0 == vview,
                    vv_step_view(vview, *instr).1 == (match first_mismatch(
                        nets,
                        expected_network_id,
                    ) {
                        Some(found) => Some(
                            ErrorView::NetworkMismatchError {
                                found,
                                expected: expected_network_id,
                            },
                        ),
                        None => None,
                    }),
                    forall|j: int| 0 <= j < i ==> nets[j] == expected_network_id,
                decreases acc.networks@.len() - i,
            {
                let found = acc.networks[i];
                if found != expected_network_id {
                    proof {
                        lemma_first_mismatch_is(nets, expected_network_id, i as int);
                    }
                    return (
                        ValueVisitor::NetworkVerifier { expected_network_id },
                        Some(
                            Error::NetworkMismatchError {
                                found,
                                expected: expected_network_id,
                            },
                        ),
                    );
                }
                i = i + 1;
            }
            proof {
                lemma_first_mismatch_none(nets, expected_network_id);
            }
            (ValueVisitor::NetworkVerifier { expected_network_id }, None)
        },
    }
}

/// The models of a vector of value visitors, in order.
pub open spec fn vv_views_of(s: Seq<ValueVisitor>) -> Seq<ValueVisitorView>
    decreases s,
{
    if s.len() == 0 {
        Seq::empty()
    } else {
        vv_views_of(s.drop_last()).push(s.last()@)
    }
}

/// `vv_views_of` maps the sequence elementwise.
pub proof fn lemma_vv_views_of(s: Seq<ValueVisitor>)
    ensures
        vv_views_of(s).len() == s.len(),
        forall|i: int| 0 <= i < s.len() ==> #[trigger] vv_views_of(s)[i] == s[i]@,
    decreases s,
{
    if s.len() > 0 {
        lemma_vv_views_of(s.drop_last());
    }
}

/// The models of a vector of instruction visitors, in order.
pub open spec fn iv_views_of(s: Seq<crate::classify::InstructionVisitor>) -> Seq<
    crate::classify::InstructionVisitorView,
>
    decreases s,
{
    if s.len() == 0 {
        Seq::empty()
    } else {
        iv_views_of(s.drop_last()).push(s.last()@)
    }
}

/// `iv_views_of` maps the sequence elementwise.
pub proof fn lemma_iv_views_of(s: Seq<crate::classify::InstructionVisitor>)
    ensures
        iv_views_of(s).len() == s.len(),
        forall|i: int| 0 <= i < s.len() ==> #[trigger] iv_views_of(s)[i] == s[i]@,
    decreases s,
{
    if s.len() > 0 {
        lemma_iv_views_of(s.drop_last());
    }
}

/// The position of the first value visitor that fails on the instruction,
/// or the list length if none fails.
pub open spec fn vv_first_err(vvs: Seq<ValueVisitorView>, instr: Instruction) -> int
    decreases vvs,
{
    if vvs.len() == 0 {
        0
    } else if vv_step_view(vvs[0], instr).1 is Some {
        0
    } else {
        1 + vv_first_err(vvs.subrange(1, vvs.len() as int), instr)
    }
}

/// The first failing position lies in range, everything before it succeeds,
/// and it fails where it lies in range.
pub proof fn lemma_vv_first_err(vvs: Seq<ValueVisitorView>, instr: Instruction)
    ensures
        0 <= vv_first_err(vvs, instr) <= vvs.len(),
        forall|j: int| 0 <= j < vv_first_err(vvs, instr) ==> vv_step_view(
            #[trigger] vvs[j],
            instr,
        ).1 is None,
        vv_first_err(vvs, instr) < vvs.len() ==> vv_step_view(
            vvs[vv_first_err(vvs, instr)],
            instr,
        ).1 is Some,
    decreases vvs,
{
    if vvs.len() > 0 && !(vv_step_view(vvs[0], instr).1 is Some) {
        let rest = vvs.subrange(1, vvs.len() as int);
        lemma_vv_first_err(rest, instr);
        assert forall|j: int| 0 <= j < vv_first_err(vvs, instr) implies vv_step_view(
            #[trigger] vvs[j],
            instr,
        ).1 is None by {
            if j > 0 {
                assert(vvs[j] == rest[j - 1]);
            }
        }
        if vv_first_err(vvs, instr) < vvs.len() {
            assert(vvs[vv_first_err(vvs, instr)] == rest[vv_first_err(rest, instr)]);
        }
    }
}

/// The value visitor states after one instruction: every visitor up to and
/// including the first failing one has stepped; later ones are untouched.
pub open spec fn run_vvs_states(vvs: Seq<ValueVisitorView>, instr: Instruction) -> Seq<
    ValueVisitorView,
> {
    Seq::new(
        vvs.len(),
        |j: int|
            if j <= vv_first_err(vvs, instr) {
                vv_step_view(vvs[j], instr).0
            } else {
                vvs[j]
            },
    )
}

/// The error of a visitor pass over one instruction, if any.
pub open spec fn run_vvs_err(vvs: Seq<ValueVisitorView>, instr: Instruction) -> Option<ErrorView> {
    if vv_first_err(vvs, instr) < vvs.len() {
        vv_step_view(vvs[vv_first_err(vvs, instr)], instr).1
    } else {
        None
    }
}

/// The instruction visitor states after one instruction; instruction
/// visitors are total.
pub open spec fn run_ivs_states(
    ivs: Seq<crate::classify::InstructionVisitorView>,
    instr: Instruction,
) -> Seq<crate::classify::InstructionVisitorView> {
    Seq::new(ivs.len(), |j: int| crate::classify::iv_step_view(ivs[j], instr))
}

/// One whole traversal step: all value visitors in order, then, when none
/// failed, all instruction visitors in order.
pub open spec fn step_all(
    vvs: Seq<ValueVisitorView>,
    ivs: Seq<crate::classify::InstructionVisitorView>,
    instr: Instruction,
) -> (Seq<ValueVisitorView>, Seq<crate::classify::InstructionVisitorView>, Option<ErrorView>) {
    match run_vvs_err(vvs, instr) {
        Some(e) => (run_vvs_states(vvs, instr), ivs, Some(e)),
        None => (run_vvs_states(vvs, instr), run_ivs_states(ivs, instr), None),
    }
}

/// The visitor states and outcome after the first `k` instructions: the
/// traversal aborts at the first visitor error, leaving every state as it
/// was at the abort.
pub open spec fn traverse_upto(
    instrs: Seq<Instruction>,
    vvs: Seq<ValueVisitorView>,
    ivs: Seq<crate::classify::InstructionVisitorView>,
    k: int,
) -> (Seq<ValueVisitorView>, Seq<crate::classify::InstructionVisitorView>, Option<ErrorView>)
    decreases k,
{
    if k <= 0 {
        (vvs, ivs, None)
    } else {
        let prev = traverse_upto(instrs, vvs, ivs, k - 1);
        if prev.2 is Some {
            prev
        } else {
            step_all(prev.0, prev.1, instrs[k - 1])
        }
    }
}

/// Traversal abort: once a visitor fails at some instruction, no later
/// instruction changes any visitor's state or the outcome. The states of
/// visitors that ran before the failing one are exactly those the aborted
/// prefix produced.
pub proof fn lemma_traversal_abort(
    instrs: Seq<Instruction>,
    vvs: Seq<ValueVisitorView>,
    ivs: Seq<crate::classify::InstructionVisitorView>,
    k: int,
    m: int,
)
    requires
        0 <= k <= m <= instrs.len(),
        traverse_upto(instrs, vvs, ivs, k).2 is Some,
    ensures
        traverse_upto(instrs, vvs, ivs, m) == traverse_upto(instrs, vvs, ivs, k),
    decreases m,
{
    if m > k {
        lemma_traversal_abort(instrs, vvs, ivs, k, m - 1);
    }
}

/// Traverses the instructions in manifest order, applying every value
/// visitor and then every instruction visitor to each instruction, in the
/// order supplied, and aborting on the first visitor error with that error
/// surfaced verbatim.
pub fn traverse(
    instructions: &Vec<Instruction>,
    value_visitors: &mut Vec<ValueVisitor>,
    instruction_visitors: &mut Vec<crate::classify::InstructionVisitor>,
) -> (r: Result<(), Error>)
    ensures
        vv_views_of(final(value_visitors)@) == traverse_upto(
            instructions@,
            vv_views_of(old(value_visitors)@),
            iv_views_of(old(instruction_visitors)@),
            instructions@.len() as int,
        ).0,
        iv_views_of(final(instruction_visitors)@) == traverse_upto(
            instructions@,
            vv_views_of(old(value_visitors)@),
            iv_views_of(old(instruction_visitors)@),
            instructions@.len() as int,
        ).1,
        match r {
            Ok(()) => traverse_upto(
                instructions@,
                vv_views_of(old(value_visitors)@),
                iv_views_of(old(instruction_visitors)@),
                instructions@.len() as int,
            ).2 is None,
            Err(e) => traverse_upto(
                instructions@,
                vv_views_of(old(value_visitors)@),
                iv_views_of(old(instruction_visitors)@),
                instructions@.len() as int,
            ).2 == Some(e@),
        },
{
    let ghost vvs0 = vv_views_of(old(value_visitors)@);
    let ghost ivs0 = iv_views_of(old(instruction_visitors)@);
    let mut k: usize = 0;
    while k < instructions.len()
        invariant
            0 <= k <= instructions@.len(),
            vvs0 == vv_views_of(old(value_visitors)@),
            ivs0 == iv_views_of(old(instruction_visitors)@),
            traverse_upto(instructions@, vvs0, ivs0, k as int) == (
                vv_views_of(value_visitors@),
                iv_views_of(instruction_visitors@),
                None::<ErrorView>,
            ),
        decreases instructions@.len() - k,
    {
        let instr = &instructions[k];
        let ghost vvs_pre = vv_views_of(value_visitors@);
        let ghost ivs_pre = iv_views_of(instruction_visitors@);
        proof {
            lemma_vv_first_err(vvs_pre, *instr);
            lemma_vv_views_of(value_visitors@);
        }
        // Run the value visitors in order, keeping processed states.
        let n = value_visitors.len();
        let mut done: Vec<ValueVisitor> = Vec::new();
        let mut j: usize = 0;
        let mut failure: Option<Error> = None;
        while j < n && failure.is_none()
            invariant
                0 <= j <= n,
                value_visitors@.len() + j == n,
                done@.len() == j,
                vvs_pre.len() == n,
                forall|i: int| 0 <= i < n - j ==> (#[trigger] value_visitors@[i])@ == vvs_pre[j
                    + i],
                forall|i: int| 0 <= i < j ==> (#[trigger] done@[i])@ == vv_step_view(
                    vvs_pre[i],
                    *instr,
                ).0,
                failure is None ==> j <= vv_first_err(vvs_pre, *instr),
                failure is Some ==> vv_first_err(vvs_pre, *instr) == j - 1,
                failure is Some ==> vv_step_view(vvs_pre[j - 1], *instr).1 == Some(
                    failure->Some_0@,
                ),
            decreases n - j,
        {
            let v = value_visitors.remove(0);
            proof {
                lemma_vv_first_err(vvs_pre, *instr);
            }
            let (v2, err) = vv_step(v, instr);
            done.push(v2);
            if let Some(e) = err {
                failure = Some(e);
            }
            j = j + 1;
        }
        if let Some(e) = failure {
            // The abort keeps every state as it stands: the unprocessed
            // visitors follow the processed ones untouched.
            done.append(value_visitors);
            *value_visitors = done;
            proof {
                lemma_vv_views_of(value_visitors@);
                lemma_vv_first_err(vvs_pre, *instr);
                assert(vv_views_of(value_visitors@) =~= run_vvs_states(vvs_pre, *instr));
                assert(traverse_upto(instructions@, vvs0, ivs0, k as int + 1) == (
                    run_vvs_states(vvs_pre, *instr),
                    ivs_pre,
                    Some(e@),
                ));
                lemma_traversal_abort(
                    instructions@,
                    vvs0,
                    ivs0,
                    k as int + 1,
                    instructions@.len() as int,
                );
            }
            return Err(e);
        }
        *value_visitors = done;
        proof {
            lemma_vv_views_of(value_visitors@);
            lemma_vv_first_err(vvs_pre, *instr);
            assert(vv_views_of(value_visitors@) =~= run_vvs_states(vvs_pre, *instr));
        }
        // Run the instruction visitors in order; they are total.
        let m = instruction_visitors.len();
        let mut idone: Vec<crate::classify::InstructionVisitor> = Vec::new();
        let mut t: usize = 0;
        proof {
            lemma_iv_views_of(instruction_visitors@);
        }
        while t < m
            invariant
                0 <= t <= m,
                instruction_visitors@.len() + t == m,
                idone@.len() == t,
                ivs_pre.len() == m,
                forall|i: int| 0 <= i < m - t ==> #[trigger] instruction_visitors@[i]@
                    == ivs_pre[t + i],
                forall|i: int| 0 <= i < t ==> #[trigger] idone@[i]@ == crate::classify::iv_step_view(
                    ivs_pre[i],
                    *instr,
                ),
            decreases m - t,
        {
            let v = instruction_visitors.remove(0);
            let v2 = crate::classify::iv_step(v, instr);
            idone.push(v2);
            t = t + 1;
        }
        *instruction_visitors = idone;
        proof {
            lemma_iv_views_of(instruction_visitors@);
            assert(iv_views_of(instruction_visitors@) =~= run_ivs_states(ivs_pre, *instr));
            assert(traverse_upto(instructions@, vvs0, ivs0, k as int + 1) == (
                vv_views_of(value_visitors@),
                iv_views_of(instruction_visitors@),
                None::<ErrorView>,
            ));
        }
        k = k + 1;
    }
    Ok(())
}

/// A position bearing a mismatching network with a clean prefix is the
/// first mismatch.
proof fn lemma_first_mismatch_is(s: Seq<u8>, expected: u8, i: int)
    requires
        0 <= i < s.len(),
        s[i] != expected,
        forall|j: int| 0 <= j < i ==> s[j] == expected,
    ensures
        first_mismatch(s, expected) == Some(s[i]),
    decreases i,
{
    if i > 0 {
        let rest = s.subrange(1, s.len() as int);
        assert forall|j: int| 0 <= j < i - 1 implies rest[j] == expected by {
            assert(rest[j] == s[j + 1]);
        }
        assert(rest[i - 1] == s[i]);
        lemma_first_mismatch_is(rest, expected, i - 1);
    }
}

/// A sequence of only the declared network has no mismatch.
proof fn lemma_first_mismatch_none(s: Seq<u8>, expected: u8)
    requires
        forall|j: int| 0 <= j < s.len() ==> s[j] == expected,
    ensures
        first_mismatch(s, expected) is None,
    decreases s.len(),
{
    if s.len() > 0 {
        let rest = s.subrange(1, s.len() as int);
        assert forall|j: int| 0 <= j < rest.len() implies rest[j] == expected by {
            assert(rest[j] == s[j + 1]);
        }
        lemma_first_mismatch_none(rest, expected);
    }
}

} // verus!
