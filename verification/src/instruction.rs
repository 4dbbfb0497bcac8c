//! The parsed instruction model and the facts the analysis extracts.

use vstd::prelude::*;

use crate::address::NetworkAwareAddress;
use crate::strings::{dec_val_of, is_dec_seq};
use crate::value::{AddressView, NonFungibleLocalId, NonFungibleLocalIdView, TransientIdentifier, Value};

verus! {

/// A static or named (not yet resolved) global address in an instruction.
#[derive(Debug, PartialEq, Eq)]
pub enum ManifestAddress {
    Static { address: NetworkAwareAddress },
    Named { id: u32 },
}

/// One parsed manifest instruction: an operation tag with its fixed
/// argument list.
#[derive(Debug, PartialEq, Eq)]
pub enum Instruction {
    CallMethod { address: ManifestAddress, method_name: String, args: Vec<Value> },
    CallFunction {
        package_address: ManifestAddress,
        blueprint_name: String,
        function_name: String,
        args: Vec<Value>,
    },
    TakeFromWorktop {
        resource_address: NetworkAwareAddress,
        amount: String,
        new_bucket: TransientIdentifier,
    },
    TakeAllFromWorktop { resource_address: NetworkAwareAddress, new_bucket: TransientIdentifier },
    TakeNonFungiblesFromWorktop {
        resource_address: NetworkAwareAddress,
        ids: Vec<NonFungibleLocalId>,
        new_bucket: TransientIdentifier,
    },
    ReturnToWorktop { bucket: TransientIdentifier },
}

/// A fungible quantity in attos: the smallest subunit, ten to the
/// eighteenth per unit.
#[derive(Debug, Clone, Copy, PartialEq, Eq, Structural)]
pub struct Amount {
    pub attos: u128,
}

/// Ten to the eighteenth: attos per unit.
pub const ATTOS_PER_UNIT: u128 = 1000000000000000000;

/// Powers of ten up to the eighteenth.
pub open spec fn pow10_spec(k: nat) -> nat
    decreases k,
{
    if k == 0 {
        1
    } else {
        10 * pow10_spec((k - 1) as nat)
    }
}

/// Computes a power of ten no higher than the eighteenth.
pub fn pow10(k: u64) -> (r: u128)
    requires
        k <= 18,
    ensures
        r as nat == pow10_spec(k as nat),
    decreases k,
{
    if k == 0 {
        1
    } else {
        proof {
            assert(pow10_spec(k as nat) == 10 * pow10_spec((k - 1) as nat));
            assert(pow10_spec(18nat) == 1000000000000000000nat) by {
                reveal_with_fuel(pow10_spec, 20);
            }
            lemma_pow10_monotone((k - 1) as nat, 18nat);
        }
        10 * pow10(k - 1)
    }
}

/// Powers of ten grow with the exponent.
pub proof fn lemma_pow10_monotone(a: nat, b: nat)
    requires
        a <= b,
    ensures
        pow10_spec(a) <= pow10_spec(b),
    decreases b,
{
    if a < b {
        lemma_pow10_monotone(a, (b - 1) as nat);
        assert(pow10_spec(b) == 10 * pow10_spec((b - 1) as nat));
    }
}

/// What an unsigned decimal amount literal denotes in attos, if it is well
/// formed and in range: an integer part, optionally a dot and at most
/// eighteen fraction digits.
pub open spec fn amount_of_spec(s: Seq<char>) -> Option<u128> {
    let d = crate::text::first_index_of(s, '.');
    if d == -1 {
        if is_dec_seq(s) && dec_val_of(s) <= u128::MAX as nat / (ATTOS_PER_UNIT as nat) {
            Some((dec_val_of(s) * ATTOS_PER_UNIT as nat) as u128)
        } else {
            None
        }
    } else {
        let int_part = s.take(d);
        let frac_part = s.subrange(d + 1, s.len() as int);
        if is_dec_seq(int_part) && is_dec_seq(frac_part) && frac_part.len() <= 18 && dec_val_of(
            int_part,
        ) <= u128::MAX as nat / (ATTOS_PER_UNIT as nat) && dec_val_of(frac_part) * pow10_spec(
            (18 - frac_part.len()) as nat,
        ) <= u128::MAX as nat - dec_val_of(int_part) * (ATTOS_PER_UNIT as nat) {
            Some(
                (dec_val_of(int_part) * (ATTOS_PER_UNIT as nat) + dec_val_of(frac_part)
                    * pow10_spec((18 - frac_part.len()) as nat)) as u128,
            )
        } else {
            None
        }
    }
}

/// Parses an unsigned decimal amount literal into attos; see
/// [`amount_of_spec`].
pub fn parse_amount(s: &String) -> (r: Option<Amount>)
    ensures
        match r {
            Some(a) => amount_of_spec(s@) == Some(a.attos),
            None => amount_of_spec(s@) is None,
        },
{
    let t = s.as_str();
    let len = t.unicode_len();
    match crate::text::find_char(t, '.') {
        None => {
            proof {
                assert(t@.subrange(0, len as int) =~= s@);
            }
            match crate::strings::parse_u128_dec(t, 0, len) {
                Some(v) => {
                    if v <= u128::MAX / ATTOS_PER_UNIT {
                        proof {
                            assert(v as nat * (ATTOS_PER_UNIT as nat) <= u128::MAX as nat) by (
                            nonlinear_arith)
                                requires
                                    v <= u128::MAX / ATTOS_PER_UNIT,
                            ;
                        }
                        Some(Amount { attos: v * ATTOS_PER_UNIT })
                    } else {
                        None
                    }
                },
                None => None,
            }
        },
        Some(d) => {
            let ghost int_part = s@.take(d as int);
            let ghost frac_part = s@.subrange(d as int + 1, s@.len() as int);
            let ip = match crate::strings::parse_u128_dec(t, 0, d) {
                Some(v) => v,
                None => {
                    proof {
                        assert(s@.subrange(0, d as int) =~= int_part);
                    }
                    return None;
                },
            };
            proof {
                assert(s@.subrange(0, d as int) =~= int_part);
            }
            if len - d - 1 > 18 {
                return None;
            }
            let fp = match crate::strings::parse_u128_dec(t, d + 1, len) {
                Some(v) => v,
                None => {
                    proof {
                        assert(t@.subrange(d as int + 1, len as int) =~= frac_part);
                        if is_dec_seq(frac_part) {
                            let k = (18 - frac_part.len()) as nat;
                            lemma_pow10_monotone(0nat, k);
                            assert(dec_val_of(frac_part) * pow10_spec(k) >= dec_val_of(
                                frac_part,
                            ) * 1) by (nonlinear_arith)
                                requires
                                    pow10_spec(k) >= 1,
                            ;
                        }
                    }
                    return None;
                },
            };
            proof {
                assert(t@.subrange(d as int + 1, len as int) =~= frac_part);
            }
            if ip > u128::MAX / ATTOS_PER_UNIT {
                return None;
            }
            let scale = pow10(18 - ((len - d - 1) as u64));
            proof {
                lemma_pow10_monotone(0nat, (18 - (len - d - 1)) as nat);
                assert(scale >= 1);
            }
            proof {
                assert(ip as nat * (ATTOS_PER_UNIT as nat) <= u128::MAX as nat) by (
                nonlinear_arith)
                    requires
                        ip <= u128::MAX / ATTOS_PER_UNIT,
                ;
                assert(fp as nat <= u128::MAX as nat);
            }
            let base = ip * ATTOS_PER_UNIT;
            if fp > (u128::MAX - base) / scale {
                proof {
                    assert(fp as nat * (scale as nat) > (u128::MAX - base) as nat) by (
                    nonlinear_arith)
                        requires
                            scale >= 1,
                            fp as int > (u128::MAX - base) / (scale as int),
                    ;
                }
                return None;
            }
            proof {
                assert(fp as nat * (scale as nat) <= (u128::MAX - base) as nat) by (
                nonlinear_arith)
                    requires
                        scale >= 1,
                        fp as int <= (u128::MAX - base) / (scale as int),
                ;
            }
            proof {
                assert((u128::MAX / ATTOS_PER_UNIT) as nat == u128::MAX as nat / (
                ATTOS_PER_UNIT as nat));
                assert(dec_val_of(int_part) == ip as nat);
                assert(dec_val_of(frac_part) == fp as nat);
                assert(pow10_spec((18 - frac_part.len()) as nat) == scale as nat);
            }
            Some(Amount { attos: base + fp * scale })
        },
    }
}

/// A quantity of one resource: a fungible amount or a set of non-fungible
/// local ids.
#[derive(Debug, PartialEq, Eq)]
pub enum ResourceSpecifier {
    Amount { resource_address: NetworkAwareAddress, amount: Amount },
    Ids { resource_address: NetworkAwareAddress, ids: Vec<NonFungibleLocalId> },
}

/// The mathematical model of a [`ResourceSpecifier`].
pub enum ResourceSpecifierView {
    Amount { resource_address: AddressView, amount: Amount },
    Ids { resource_address: AddressView, ids: Seq<NonFungibleLocalIdView> },
}

/// The models of a vector of non-fungible local ids, in order.
pub open spec fn nflid_views_of(s: Seq<NonFungibleLocalId>) -> Seq<NonFungibleLocalIdView>
    decreases s,
{
    if s.len() == 0 {
        Seq::empty()
    } else {
        nflid_views_of(s.drop_last()).push(s.last()@)
    }
}

/// `nflid_views_of` maps the sequence elementwise.
pub proof fn lemma_nflid_views_of(s: Seq<NonFungibleLocalId>)
    ensures
        nflid_views_of(s).len() == s.len(),
        forall|i: int| 0 <= i < s.len() ==> #[trigger] nflid_views_of(s)[i] == s[i]@,
    decreases s,
{
    if s.len() > 0 {
        lemma_nflid_views_of(s.drop_last());
    }
}

impl View for ResourceSpecifier {
    type V = ResourceSpecifierView;

    open spec fn view(&self) -> ResourceSpecifierView {
        match self {
            ResourceSpecifier::Amount { resource_address, amount } => {
                ResourceSpecifierView::Amount { resource_address: resource_address@, amount: *amount }
            },
            ResourceSpecifier::Ids { resource_address, ids } => ResourceSpecifierView::Ids {
                resource_address: resource_address@,
                ids: nflid_views_of(ids@),
            },
        }
    }
}

/// Whether a quantity came from static analysis (exact) or from the
/// execution trace of a receipt (approximate, tied to the instruction that
/// produced it).
#[derive(Debug, PartialEq, Eq)]
pub enum Source {
    Guaranteed { specifier: ResourceSpecifier },
    Predicted { instruction_index: u64, specifier: ResourceSpecifier },
}

/// The mathematical model of a [`Source`].
pub enum SourceView {
    Guaranteed { specifier: ResourceSpecifierView },
    Predicted { instruction_index: u64, specifier: ResourceSpecifierView },
}

impl View for Source {
    type V = SourceView;

    open spec fn view(&self) -> SourceView {
        match self {
            Source::Guaranteed { specifier } => SourceView::Guaranteed { specifier: specifier@ },
            Source::Predicted { instruction_index, specifier } => SourceView::Predicted {
                instruction_index: *instruction_index,
                specifier: specifier@,
            },
        }
    }
}

/// One withdrawal from an account seen in the manifest.
#[derive(Debug, PartialEq, Eq)]
pub struct AccountWithdraw {
    pub account: NetworkAwareAddress,
    pub specifier: ResourceSpecifier,
}

/// The mathematical model of an [`AccountWithdraw`].
pub struct AccountWithdrawView {
    pub account: AddressView,
    pub specifier: ResourceSpecifierView,
}

impl View for AccountWithdraw {
    type V = AccountWithdrawView;

    open spec fn view(&self) -> AccountWithdrawView {
        AccountWithdrawView { account: self.account@, specifier: self.specifier@ }
    }
}

/// One deposit into an account seen in the manifest.
#[derive(Debug, PartialEq, Eq)]
pub struct AccountDeposit {
    pub account: NetworkAwareAddress,
    pub source: Source,
}

/// The mathematical model of an [`AccountDeposit`].
pub struct AccountDepositView {
    pub account: AddressView,
    pub source: SourceView,
}

impl View for AccountDeposit {
    type V = AccountDepositView;

    open spec fn view(&self) -> AccountDepositView {
        AccountDepositView { account: self.account@, source: self.source@ }
    }
}

/// An instruction that requires privileged signature-based authorization,
/// whatever the transaction's classification.
#[derive(Debug, Clone, Copy, PartialEq, Eq, Structural)]
pub enum ReservedInstruction {
    AccountLockFee,
    AccountSecurify,
    IdentitySecurify,
    AccountUpdateSettings,
    AccessController,
}

} // verus!
