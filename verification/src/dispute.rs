//! The dispute resolution contract: lets the parties of a delivery open a
//! dispute, attach evidence, and lets administrators (or, after a timeout,
//! the parties) settle it.
use vstd::prelude::*;
use std::collections::HashMap;
use crate::types::{
    Address, ContractError, DeliveryId, DeliveryRecord, DeliveryStatus, DriverProfile, EscrowError, EscrowStatus,
    FaniLabError,
};
use crate::env::Env;
use crate::escrow::{
    EscrowContract, EscrowView, as_result, disputed_view, resolve_dispute_outcome, split_outcome, sat_add_u64,
};
use crate::delivery::{DeliveryContract, delivery_dispute_error, with_status, DeliveryView};
use crate::identity::{
    IdentityReputationContract, IdentityView, decrease_reputation_outcome, award_reputation_outcome,
};

verus! {

broadcast use vstd::std_specs::hash::group_hash_axioms;

/// Outcome of a dispute.
#[derive(Clone, Copy, Debug, PartialEq, Eq, Structural)]
pub enum DisputeStatus {
    Open,
    ResolvedRefund,
    ResolvedPayout,
    Split,
}

/// A 32-byte evidence digest.
#[derive(Clone, Copy, Debug, PartialEq, Eq)]
pub struct EvidenceHash {
    pub bytes: [u8; 32],
}

/// A piece of evidence with the party that submitted it.
#[derive(Clone, Copy, Debug, PartialEq, Eq)]
pub struct EvidenceEntry {
    pub submitter: Address,
    pub hash: EvidenceHash,
}

/// A stored dispute.
#[derive(Clone, Debug, PartialEq, Eq)]
pub struct DisputeCase {
    pub delivery_id: DeliveryId,
    pub status: DisputeStatus,
    pub raised_at: u64,
    pub raised_by: Address,
    pub evidence_hashes: Vec<EvidenceEntry>,
    pub resolved_at: Option<u64>,
    pub resolved_by: Option<Address>,
}

/// Reputation a driver loses when a dispute is refunded to the sender,
/// unless the administrators configure another penalty.
pub const DEFAULT_DISPUTE_REPUTATION_PENALTY: u32 = 10;
/// Reputation a driver gains when a dispute is paid out to them.
pub const DISPUTE_REPUTATION_REWARD: u32 = 5;
/// Reputation a driver loses when a dispute ends in a split.
pub const DISPUTE_REPUTATION_SPLIT_PENALTY: u32 = 5;
/// The identity contract's reputation ceiling.
pub const IDENTITY_MAX_REPUTATION: u32 = 100;
/// Largest configurable dispute penalty: half the reputation ceiling.
pub const MAX_DISPUTE_REPUTATION_PENALTY: u32 = 50;
/// Shortest window, in seconds, for disputing a delivered delivery that
/// initialization accepts.
pub const MIN_DISPUTE_TIME_LIMIT: u64 = 86400;
/// Shortest window, in seconds, before a dispute may be force-resolved,
/// that initialization accepts.
pub const MIN_DISPUTE_RESOLUTION_LIMIT: u64 = 86400;
/// Most evidence hashes one party may attach to one dispute.
pub const MAX_EVIDENCE_HASHES_PER_PARTY: u32 = 20;
/// The sender's share, in basis points, of a force-resolved dispute.
pub const DEFAULT_SENDER_SHARE_BPS: u32 = 5000;

/// Storage of the dispute resolution contract.
pub struct DisputeResolutionContract {
    pub address: Address,
    /// Set by `init`; the contract cannot be initialized twice.
    pub initialized: bool,
    /// The administrators, in the order they were added.
    pub admins: Vec<Address>,
    pub delivery_contract: Option<Address>,
    pub escrow_contract: Option<Address>,
    pub identity_contract: Option<Address>,
    pub dispute_time_limit: u64,
    pub resolution_limit: u64,
    pub reputation_penalty: Option<u32>,
    pub disputes: HashMap<u64, DisputeCase>,
}

/// `s` with every occurrence of `a` taken out, order kept.
pub open spec fn without(s: Seq<Address>, a: Address) -> Seq<Address>
    decreases s.len(),
{
    if s.len() == 0 {
        s
    } else if s.last() == a {
        without(s.drop_last(), a)
    } else {
        without(s.drop_last(), a).push(s.last())
    }
}

/// No address occurs twice in `s`.
pub open spec fn no_dups(s: Seq<Address>) -> bool {
    forall|i: int, j: int| 0 <= i < j < s.len() ==> s[i] != s[j]
}

/// What `without` keeps: exactly the other addresses, each once if they
/// were once.
pub proof fn lemma_without(s: Seq<Address>, a: Address)
    ensures
        forall|x: Address| without(s, a).contains(x) <==> (s.contains(x) && x != a),
        no_dups(s) ==> no_dups(without(s, a)),
        without(s, a).len() <= s.len(),
        !s.contains(a) ==> without(s, a) == s,
    decreases s.len(),
{
    if s.len() > 0 {
        let t = s.drop_last();
        lemma_without(t, a);
        assert forall|x: Address| s.contains(x) <==> (t.contains(x) || x == s.last()) by {
            if s.contains(x) {
                let k = choose|k: int| 0 <= k < s.len() && s[k] == x;
                if k < s.len() - 1 {
                    assert(t[k] == x);
                }
            }
            if t.contains(x) {
                let k = choose|k: int| 0 <= k < t.len() && t[k] == x;
                assert(s[k] == x);
            }
            if x == s.last() {
                assert(s[s.len() - 1] == x);
            }
        };
        if s.last() != a {
            let w = without(t, a);
            assert forall|x: Address| w.push(s.last()).contains(x) <==> (w.contains(x) || x == s.last()) by {
                if w.push(s.last()).contains(x) {
                    let k = choose|k: int| 0 <= k < w.push(s.last()).len() && w.push(s.last())[k] == x;
                    if k < w.len() {
                        assert(w[k] == x);
                    }
                }
                if w.contains(x) {
                    let k = choose|k: int| 0 <= k < w.len() && w[k] == x;
                    assert(w.push(s.last())[k] == x);
                }
                if x == s.last() {
                    assert(w.push(s.last())[w.len() as int] == x);
                }
            };
            if no_dups(s) {
                assert(no_dups(t));
                assert(!t.contains(s.last())) by {
                    if t.contains(s.last()) {
                        let k = choose|k: int| 0 <= k < t.len() && t[k] == s.last();
                        assert(s[k] == s[s.len() - 1]);
                    }
                };
                assert(!w.contains(s.last()));
                assert forall|i: int, j: int| 0 <= i < j < w.push(s.last()).len() implies
                    w.push(s.last())[i] != w.push(s.last())[j] by {
                    if j == w.len() {
                        assert(w.contains(w[i]));
                    }
                };
            }
            if !s.contains(a) {
                assert(!t.contains(a));
                assert(w == t);
                assert(w.push(s.last()) =~= s);
            }
        } else {
            if no_dups(s) {
                assert(no_dups(t));
            }
            assert(s.contains(a)) by {
                assert(s[s.len() - 1] == a);
            };
        }
    } else {
        assert forall|x: Address| !s.contains(x) by {};
    }
}

/// Abstract storage of the dispute resolution contract.
#[verifier::ext_equal]
pub struct DisputeView {
    pub initialized: bool,
    pub admins: Seq<Address>,
    pub delivery_contract: Option<Address>,
    pub escrow_contract: Option<Address>,
    pub identity_contract: Option<Address>,
    pub dispute_time_limit: u64,
    pub resolution_limit: u64,
    pub reputation_penalty: Option<u32>,
    pub disputes: Map<u64, DisputeCase>,
}

impl View for DisputeResolutionContract {
    type V = DisputeView;

    open spec fn view(&self) -> DisputeView {
        DisputeView {
            initialized: self.initialized,
            admins: self.admins@,
            delivery_contract: self.delivery_contract,
            escrow_contract: self.escrow_contract,
            identity_contract: self.identity_contract,
            dispute_time_limit: self.dispute_time_limit,
            resolution_limit: self.resolution_limit,
            reputation_penalty: self.reputation_penalty,
            disputes: self.disputes@,
        }
    }
}

impl DisputeView {
    /// Once initialized, the contract always has an administrator, and no
    /// administrator is listed twice.
    pub open spec fn wf(self) -> bool {
        &&& self.initialized ==> self.admins.len() >= 1
        &&& no_dups(self.admins)
    }

    pub open spec fn is_admin(self, a: Address) -> bool {
        self.admins.contains(a)
    }

    /// The penalty in force.
    pub open spec fn penalty(self) -> u32 {
        match self.reputation_penalty {
            Some(p) => p,
            None => DEFAULT_DISPUTE_REPUTATION_PENALTY,
        }
    }
}

/// Why an administrator action by `caller` fails, if it does.
pub open spec fn dispute_admin_error(env: Env, caller: Address) -> Option<ContractError> {
    if !env.authorizes(caller) {
        Some(ContractError::AuthRequired)
    } else if !env.dispute@.is_admin(caller) {
        Some(ContractError::Fani(FaniLabError::Unauthorized))
    } else {
        None
    }
}

/// Why `remove_admin` fails, if it does.
pub open spec fn remove_admin_error(env: Env, caller: Address, old_admin: Address) -> Option<ContractError> {
    let rest = without(env.dispute@.admins, old_admin);
    if dispute_admin_error(env, caller) is Some {
        dispute_admin_error(env, caller)
    } else if rest.len() == 0 {
        Some(ContractError::Fani(FaniLabError::InvalidState))
    } else if rest.len() == 1 && old_admin != caller {
        Some(ContractError::Fani(FaniLabError::InvalidState))
    } else {
        None
    }
}

/// Why the pause precondition of the dispute contract fails, if it does.
pub open spec fn dispute_pause_error(env: Env) -> Option<ContractError> {
    match env.dispute.escrow_contract {
        None => Some(ContractError::Fani(FaniLabError::NotInitialized)),
        Some(e) => match env.spec_is_paused_at(e) {
            Err(x) => Some(x),
            Ok(true) => Some(ContractError::Fani(FaniLabError::ProtocolPaused)),
            Ok(false) => None,
        },
    }
}

impl DisputeCase {
    /// Equal field by field, evidence by its entries.
    pub open spec fn same_as(self, o: DisputeCase) -> bool {
        &&& self.delivery_id == o.delivery_id
        &&& self.status == o.status
        &&& self.raised_at == o.raised_at
        &&& self.raised_by == o.raised_by
        &&& self.evidence_hashes@ == o.evidence_hashes@
        &&& self.resolved_at == o.resolved_at
        &&& self.resolved_by == o.resolved_by
    }

    pub fn copied(&self) -> (r: DisputeCase)
        ensures
            r.same_as(*self),
    {
        DisputeCase {
            delivery_id: self.delivery_id,
            status: self.status,
            raised_at: self.raised_at,
            raised_by: self.raised_by,
            evidence_hashes: self.evidence_hashes.clone(),
            resolved_at: self.resolved_at,
            resolved_by: self.resolved_by,
        }
    }

    /// A case just opened by `caller` at `now`: open, no evidence.
    pub open spec fn is_opened(self, id: u64, caller: Address, now: u64) -> bool {
        &&& self.delivery_id == id
        &&& self.status == DisputeStatus::Open
        &&& self.raised_at == now
        &&& self.raised_by == caller
        &&& self.evidence_hashes@.len() == 0
        &&& self.resolved_at is None
        &&& self.resolved_by is None
    }

    /// `self` is `o` resolved with `status` by `caller` at `now`.
    pub open spec fn is_resolution_of(self, o: DisputeCase, status: DisputeStatus, caller: Address, now: u64) -> bool {
        &&& self.delivery_id == o.delivery_id
        &&& self.status == status
        &&& self.raised_at == o.raised_at
        &&& self.raised_by == o.raised_by
        &&& self.evidence_hashes@ == o.evidence_hashes@
        &&& self.resolved_at == Some(now)
        &&& self.resolved_by == Some(caller)
    }

    /// `self` is `o` with the evidence entry `e` appended.
    pub open spec fn is_extension_of(self, o: DisputeCase, e: EvidenceEntry) -> bool {
        &&& self.delivery_id == o.delivery_id
        &&& self.status == o.status
        &&& self.raised_at == o.raised_at
        &&& self.raised_by == o.raised_by
        &&& self.evidence_hashes@ == o.evidence_hashes@.push(e)
        &&& self.resolved_at == o.resolved_at
        &&& self.resolved_by == o.resolved_by
    }
}

/// The delivery record the dispute contract reads for `id`, or why
/// reading it fails.
pub open spec fn dispute_delivery_lookup(env: Env, id: u64) -> Result<DeliveryRecord, ContractError> {
    match env.dispute.delivery_contract {
        None => Err(ContractError::Fani(FaniLabError::NotInitialized)),
        Some(d) => if d != env.delivery.address {
            Err(ContractError::MissingContract)
        } else if !env.delivery@.deliveries.contains_key(id) {
            Err(ContractError::Fani(FaniLabError::DeliveryNotFound))
        } else {
            Ok(env.delivery@.deliveries[id])
        },
    }
}

/// Whether `a` is the sender, the recipient or the assigned driver of `d`.
pub open spec fn is_party(d: DeliveryRecord, a: Address) -> bool {
    a == d.sender || a == d.recipient || d.driver == Some(a)
}

/// When `d` was delivered (zero if never).
pub open spec fn delivered_time(d: DeliveryRecord) -> u64 {
    match d.delivered_at {
        Some(t) => t,
        None => 0,
    }
}

/// Why the dispute contract's freeze of escrow `id` fails, if it does.
pub open spec fn freeze_error(env: Env, id: u64) -> Option<ContractError> {
    match env.dispute.escrow_contract {
        None => Some(ContractError::Fani(FaniLabError::NotInitialized)),
        Some(e) => if e != env.escrow.address {
            Some(ContractError::MissingContract)
        } else if env.escrow@.dispute_contract is None {
            Some(ContractError::Fani(FaniLabError::NotInitialized))
        } else if env.escrow@.dispute_contract != Some(env.dispute.address) {
            Some(ContractError::Fani(FaniLabError::Unauthorized))
        } else if !env.escrow@.escrows.contains_key(id) {
            Some(ContractError::Escrow(EscrowError::DeliveryNotFound))
        } else {
            None
        },
    }
}

/// Why `caller`'s dispute of delivery `id` fails, if it does: a party may
/// dispute an active or in-transit delivery, or a delivered one within the
/// dispute window; the delivery and the escrow must accept the dispute, and
/// only one dispute per delivery is recorded.
pub open spec fn raise_dispute_error(env: Env, caller: Address, id: u64) -> Option<ContractError> {
    if !env.authorizes(caller) {
        Some(ContractError::AuthRequired)
    } else {
        match dispute_delivery_lookup(env, id) {
            Err(e) => Some(e),
            Ok(d) => if !is_party(d, caller) {
                Some(ContractError::Fani(FaniLabError::Unauthorized))
            } else if d.status == DeliveryStatus::Delivered && delivered_time(d) + env.dispute.dispute_time_limit > u64::MAX {
                Some(ContractError::ArithmeticOverflow)
            } else if d.status == DeliveryStatus::Delivered && env.timestamp > delivered_time(d) + env.dispute.dispute_time_limit {
                Some(ContractError::Fani(FaniLabError::InvalidState))
            } else if d.status != DeliveryStatus::Delivered && d.status != DeliveryStatus::Active
                && d.status != DeliveryStatus::InTransit {
                Some(ContractError::Fani(FaniLabError::InvalidState))
            } else if delivery_dispute_error(env, caller, id) is Some {
                delivery_dispute_error(env, caller, id)
            } else if freeze_error(env, id) is Some {
                freeze_error(env, id)
            } else if env.dispute@.disputes.contains_key(id) {
                Some(ContractError::Fani(FaniLabError::DuplicateDelivery))
            } else {
                None
            },
        }
    }
}

/// The entries `a` submitted.
pub open spec fn party_count(s: Seq<EvidenceEntry>, a: Address) -> nat
    decreases s.len(),
{
    if s.len() == 0 {
        0
    } else {
        party_count(s.drop_last(), a) + if s.last().submitter == a { 1nat } else { 0nat }
    }
}

/// Whether `a` already submitted hash `h`.
pub open spec fn has_submitted(s: Seq<EvidenceEntry>, a: Address, h: EvidenceHash) -> bool {
    exists|i: int| 0 <= i < s.len() && s[i].submitter == a && (#[trigger] s[i]).hash.bytes@ == h.bytes@
}

/// Why `caller`'s evidence `hash` for dispute `id` is refused, if it is.
pub open spec fn evidence_error(env: Env, caller: Address, id: u64, hash: EvidenceHash) -> Option<ContractError> {
    if !env.authorizes(caller) {
        Some(ContractError::AuthRequired)
    } else if dispute_pause_error(env) is Some {
        dispute_pause_error(env)
    } else if !env.dispute@.disputes.contains_key(id) {
        Some(ContractError::Fani(FaniLabError::DeliveryNotFound))
    } else if env.dispute@.disputes[id].status != DisputeStatus::Open {
        Some(ContractError::Fani(FaniLabError::InvalidState))
    } else {
        match dispute_delivery_lookup(env, id) {
            Err(e) => Some(e),
            Ok(d) => {
                let s = env.dispute@.disputes[id].evidence_hashes@;
                if !is_party(d, caller) {
                    Some(ContractError::Fani(FaniLabError::Unauthorized))
                } else if has_submitted(s, caller, hash) {
                    Some(ContractError::Fani(FaniLabError::InvalidState))
                } else if party_count(s, caller) >= MAX_EVIDENCE_HASHES_PER_PARTY {
                    Some(ContractError::Fani(FaniLabError::LimitExceeded))
                } else {
                    None
                }
            },
        }
    }
}

/// Why an administrator's ruling on dispute `id` fails before its effects,
/// if it does: the dispute must be open and its escrow paused.
pub open spec fn ruling_error(env: Env, caller: Address, id: u64) -> Option<ContractError> {
    if !env.authorizes(caller) {
        Some(ContractError::AuthRequired)
    } else if dispute_pause_error(env) is Some {
        dispute_pause_error(env)
    } else if !env.dispute@.is_admin(caller) {
        Some(ContractError::Fani(FaniLabError::Unauthorized))
    } else if !env.dispute@.disputes.contains_key(id) {
        Some(ContractError::Fani(FaniLabError::DeliveryNotFound))
    } else if env.dispute@.disputes[id].status != DisputeStatus::Open {
        Some(ContractError::Fani(FaniLabError::InvalidState))
    } else if !env.escrow@.escrows.contains_key(id) {
        Some(ContractError::Escrow(EscrowError::DeliveryNotFound))
    } else if env.escrow@.escrows[id].status != EscrowStatus::Paused {
        Some(ContractError::Fani(FaniLabError::InvalidState))
    } else {
        None
    }
}

/// The identity storage after the dispute contract lowers `driver`'s
/// reputation by `points` (unchanged without an identity contract).
pub open spec fn ruling_penalty(env: Env, driver: Address, points: u32) -> Result<IdentityView, ContractError> {
    match env.dispute.identity_contract {
        None => Ok(env.identity@),
        Some(i) => if i != env.identity.address {
            Err(ContractError::MissingContract)
        } else {
            match decrease_reputation_outcome(env, env.dispute.address, true, driver, points) {
                Err(e) => Err(e),
                Ok(p) => Ok(env.identity@.with_driver(driver, p)),
            }
        },
    }
}

/// Outcome of refunding dispute `id` to the sender: the driver loses the
/// configured penalty and the escrow goes back to the sender.
pub open spec fn refund_ruling_outcome(env: Env, caller: Address, id: u64) -> Result<(EscrowView, IdentityView, Map<u128, i128>), ContractError> {
    if ruling_error(env, caller, id) is Some {
        Err(ruling_error(env, caller, id)->0)
    } else {
        match dispute_delivery_lookup(env, id) {
            Err(e) => Err(e),
            Ok(d) => match d.driver {
                None => Err(ContractError::Fani(FaniLabError::ProviderNotFound)),
                Some(drv) => match ruling_penalty(env, drv, env.dispute@.penalty()) {
                    Err(e) => Err(e),
                    Ok(iv) => match resolve_dispute_outcome(env, caller, id, false) {
                        Err(e) => Err(e),
                        Ok((v, m)) => Ok((v, iv, m)),
                    },
                },
            },
        }
    }
}

/// Outcome of paying dispute `id` to the driver: the escrow is released
/// and the driver earns the dispute reward.
pub open spec fn pay_ruling_outcome(env: Env, caller: Address, id: u64) -> Result<(EscrowView, IdentityView, Map<u128, i128>), ContractError> {
    if ruling_error(env, caller, id) is Some {
        Err(ruling_error(env, caller, id)->0)
    } else {
        match resolve_dispute_outcome(env, caller, id, true) {
            Err(e) => Err(e),
            Ok((v, m)) => match dispute_delivery_lookup(env, id) {
                Err(e) => Err(e),
                Ok(d) => match (d.driver, env.dispute.identity_contract) {
                    (Some(drv), Some(i)) => if i != env.identity.address {
                        Err(ContractError::MissingContract)
                    } else {
                        match award_reputation_outcome(env, env.dispute.address, true, drv, DISPUTE_REPUTATION_REWARD) {
                            Err(e) => Err(e),
                            Ok(p) => Ok((v, env.identity@.with_driver(drv, p), m)),
                        }
                    },
                    _ => Ok((v, env.identity@, m)),
                },
            },
        }
    }
}

/// Outcome of splitting dispute `id`: the driver loses the split penalty
/// and the escrow is split `sender_share_bps` to the sender.
pub open spec fn split_ruling_outcome(env: Env, caller: Address, id: u64, sender_share_bps: u32) -> Result<(EscrowView, IdentityView, Map<u128, i128>), ContractError> {
    if ruling_error(env, caller, id) is Some {
        Err(ruling_error(env, caller, id)->0)
    } else {
        match dispute_delivery_lookup(env, id) {
            Err(e) => Err(e),
            Ok(d) => {
                let iv: Result<IdentityView, ContractError> = match d.driver {
                    Some(drv) => ruling_penalty(env, drv, DISPUTE_REPUTATION_SPLIT_PENALTY),
                    None => Ok(env.identity@),
                };
                match iv {
                    Err(e) => Err(e),
                    Ok(iv) => match split_outcome(env, caller, false, id, sender_share_bps) {
                        Err(e) => Err(e),
                        Ok((v, m)) => Ok((v, iv, m)),
                    },
                }
            },
        }
    }
}

/// Why a party's forced resolution of dispute `id` fails before the split,
/// if it does: the dispute has been open longer than the resolution window
/// and its escrow is paused.
pub open spec fn force_error(env: Env, caller: Address, id: u64) -> Option<ContractError> {
    if !env.authorizes(caller) {
        Some(ContractError::AuthRequired)
    } else if dispute_pause_error(env) is Some {
        dispute_pause_error(env)
    } else if !env.dispute@.disputes.contains_key(id) {
        Some(ContractError::Fani(FaniLabError::DeliveryNotFound))
    } else if env.dispute@.disputes[id].status != DisputeStatus::Open {
        Some(ContractError::Fani(FaniLabError::InvalidState))
    } else {
        match dispute_delivery_lookup(env, id) {
            Err(e) => Some(e),
            Ok(d) => if !is_party(d, caller) {
                Some(ContractError::Fani(FaniLabError::Unauthorized))
            } else if env.timestamp <= sat_add_u64(env.dispute@.disputes[id].raised_at, env.dispute.resolution_limit) {
                Some(ContractError::Fani(FaniLabError::InvalidState))
            } else if !env.escrow@.escrows.contains_key(id) {
                Some(ContractError::Escrow(EscrowError::DeliveryNotFound))
            } else if env.escrow@.escrows[id].status != EscrowStatus::Paused {
                Some(ContractError::Fani(FaniLabError::InvalidState))
            } else {
                None
            },
        }
    }
}

/// Outcome of a party's forced resolution of dispute `id`: the escrow is
/// split evenly, as the dispute contract.
pub open spec fn force_outcome(env: Env, caller: Address, id: u64) -> Result<(EscrowView, Map<u128, i128>), ContractError> {
    match force_error(env, caller, id) {
        Some(e) => Err(e),
        None => split_outcome(env, env.dispute.address, true, id, DEFAULT_SENDER_SHARE_BPS),
    }
}

/// `b`'s dispute storage is `a`'s with case `id` resolved with `status` by
/// `caller` at `a`'s time.
pub open spec fn ruling_recorded(a: Env, b: Env, id: u64, status: DisputeStatus, caller: Address) -> bool {
    &&& b.dispute@ == (DisputeView { disputes: b.dispute@.disputes, ..a.dispute@ })
    &&& b.dispute@.disputes.remove(id) == a.dispute@.disputes.remove(id)
    &&& b.dispute@.disputes.contains_key(id)
    &&& b.dispute@.disputes[id].is_resolution_of(a.dispute@.disputes[id], status, caller, a.timestamp)
}

/// Whether two evidence hashes hold the same bytes.
pub fn hash_eq(a: &EvidenceHash, b: &EvidenceHash) -> (r: bool)
    ensures
        r == (a.bytes@ == b.bytes@),
{
    let mut i: usize = 0;
    while i < 32
        invariant
            i <= 32,
            a.bytes@.len() == 32,
            b.bytes@.len() == 32,
            forall|j: int| 0 <= j < i ==> a.bytes@[j] == b.bytes@[j],
        decreases 32 - i,
    {
        if a.bytes[i] != b.bytes[i] {
            assert(a.bytes@[i as int] != b.bytes@[i as int]);
            return false;
        }
        i = i + 1;
    }
    assert(a.bytes@ =~= b.bytes@);
    true
}

/// Whether `caller` already submitted `hash`, and how many entries
/// `caller` submitted.
fn scan_evidence(entries: &Vec<EvidenceEntry>, caller: Address, hash: &EvidenceHash) -> (r: (bool, usize))
    ensures
        r.0 == has_submitted(entries@, caller, *hash),
        r.1 == party_count(entries@, caller),
{
    let mut dup = false;
    let mut count: usize = 0;
    let mut i: usize = 0;
    let ghost s = entries@;
    assert(s.take(0) =~= Seq::<EvidenceEntry>::empty());
    while i < entries.len()
        invariant
            s == entries@,
            i <= s.len(),
            count == party_count(s.take(i as int), caller),
            count <= i,
            dup == has_submitted(s.take(i as int), caller, *hash),
        decreases s.len() - i,
    {
        let e = entries[i];
        proof {
            assert(s.take(i + 1).drop_last() =~= s.take(i as int));
            assert(s.take(i + 1).last() == s[i as int]);
        }
        let same = e.submitter == caller && hash_eq(&e.hash, hash);
        proof {
            let t = s.take(i + 1);
            if same {
                assert(t[i as int] == e);
            }
            if has_submitted(t, caller, *hash) && !same {
                let k = choose|k: int| 0 <= k < t.len() && t[k].submitter == caller && (#[trigger] t[k]).hash.bytes@ == hash.bytes@;
                assert(k != i);
                assert(s.take(i as int)[k] == t[k]);
            }
            if has_submitted(s.take(i as int), caller, *hash) {
                let k = choose|k: int| 0 <= k < i && s.take(i as int)[k].submitter == caller && (#[trigger] s.take(i as int)[k]).hash.bytes@ == hash.bytes@;
                assert(t[k] == s.take(i as int)[k]);
            }
        }
        if same {
            dup = true;
        }
        if e.submitter == caller {
            count = count + 1;
        }
        i = i + 1;
    }
    assert(s.take(s.len() as int) =~= s);
    (dup, count)
}

impl DisputeResolutionContract {
    /// A freshly deployed, uninitialized contract at `address`.
    pub open spec fn is_fresh(&self, address: Address) -> bool {
        &&& self.address == address
        &&& !self.initialized
        &&& self.admins@.len() == 0
        &&& self.delivery_contract is None
        &&& self.escrow_contract is None
        &&& self.identity_contract is None
        &&& self.dispute_time_limit == 0
        &&& self.resolution_limit == 0
        &&& self.reputation_penalty is None
        &&& self.disputes@ == Map::<u64, DisputeCase>::empty()
    }

    pub fn new(address: Address) -> (c: DisputeResolutionContract)
        ensures
            c.is_fresh(address),
    {
        DisputeResolutionContract {
            address,
            initialized: false,
            admins: Vec::new(),
            delivery_contract: None,
            escrow_contract: None,
            identity_contract: None,
            dispute_time_limit: 0,
            resolution_limit: 0,
            reputation_penalty: None,
            disputes: HashMap::new(),
        }
    }

    fn require_admin(env: &Env, caller: Address) -> (r: Result<(), ContractError>)
        ensures
            r == as_result(dispute_admin_error(*env, caller)),
    {
        env.require_auth(caller)?;
        if !Self::is_admin(env, caller) {
            return Err(ContractError::Fani(FaniLabError::Unauthorized));
        }
        Ok(())
    }

    fn require_escrow_not_paused(env: &Env) -> (r: Result<(), ContractError>)
        ensures
            r == as_result(dispute_pause_error(*env)),
    {
        match env.dispute.escrow_contract {
            None => Err(ContractError::Fani(FaniLabError::NotInitialized)),
            Some(e) => {
                let paused = env.is_paused_at(e)?;
                if paused {
                    Err(ContractError::Fani(FaniLabError::ProtocolPaused))
                } else {
                    Ok(())
                }
            },
        }
    }

    /// Initialize with the first administrator, the delivery and escrow
    /// contracts, the window for disputing a delivered delivery and the
    /// window before a dispute may be force-resolved (each at least a day).
    pub fn init(
        env: &mut Env,
        admin: Address,
        delivery_contract: Address,
        escrow_contract: Address,
        dispute_time_limit: u64,
        dispute_resolution_limit: u64,
    ) -> (r: Result<(), ContractError>)
        ensures
            r == (if old(env).dispute.initialized {
                Err(ContractError::Fani(FaniLabError::AlreadyInitialized))
            } else if dispute_time_limit < MIN_DISPUTE_TIME_LIMIT || dispute_resolution_limit < MIN_DISPUTE_RESOLUTION_LIMIT {
                Err(ContractError::Fani(FaniLabError::InvalidState))
            } else {
                Ok(())
            }),
            r is Err ==> *final(env) == *old(env),
            r is Ok ==> old(env).frame(final(env), false, false, true, false, false, false)
                && final(env).dispute@ == (DisputeView {
                    initialized: true,
                    admins: seq![admin],
                    delivery_contract: Some(delivery_contract),
                    escrow_contract: Some(escrow_contract),
                    dispute_time_limit,
                    resolution_limit: dispute_resolution_limit,
                    ..old(env).dispute@
                })
                && final(env).dispute@.wf(),
    {
        if env.dispute.initialized {
            return Err(ContractError::Fani(FaniLabError::AlreadyInitialized));
        }
        if dispute_time_limit < MIN_DISPUTE_TIME_LIMIT || dispute_resolution_limit < MIN_DISPUTE_RESOLUTION_LIMIT {
            return Err(ContractError::Fani(FaniLabError::InvalidState));
        }
        env.dispute.initialized = true;
        env.dispute.delivery_contract = Some(delivery_contract);
        env.dispute.escrow_contract = Some(escrow_contract);
        env.dispute.dispute_time_limit = dispute_time_limit;
        env.dispute.resolution_limit = dispute_resolution_limit;
        let mut admins: Vec<Address> = Vec::new();
        admins.push(admin);
        env.dispute.admins = admins;
        assert(env.dispute.admins@ =~= seq![admin]);
        Ok(())
    }

    /// An administrator adds `new_admin` (listed once however often added).
    pub fn add_admin(env: &mut Env, caller: Address, new_admin: Address) -> (r: Result<(), ContractError>)
        ensures
            r == as_result(dispute_admin_error(*old(env), caller)),
            r is Err ==> *final(env) == *old(env),
            r is Ok ==> old(env).frame(final(env), false, false, true, false, false, false)
                && final(env).dispute@ == (DisputeView {
                    admins: if old(env).dispute@.admins.contains(new_admin) {
                        old(env).dispute@.admins
                    } else {
                        old(env).dispute@.admins.push(new_admin)
                    },
                    ..old(env).dispute@
                }),
            old(env).dispute@.wf() ==> final(env).dispute@.wf(),
    {
        Self::require_admin(env, caller)?;
        if !Self::is_admin(env, new_admin) {
            let ghost s = env.dispute.admins@;
            env.dispute.admins.push(new_admin);
            proof {
                if no_dups(s) {
                    assert forall|i: int, j: int| 0 <= i < j < s.push(new_admin).len() implies
                        s.push(new_admin)[i] != s.push(new_admin)[j] by {
                        if j == s.len() {
                            assert(s.contains(s[i]));
                        }
                    };
                }
            }
        }
        Ok(())
    }

    /// An administrator removes `old_admin`. The last administrator cannot
    /// be removed, and only an administrator stepping down may leave a
    /// single one.
    pub fn remove_admin(env: &mut Env, caller: Address, old_admin: Address) -> (r: Result<(), ContractError>)
        ensures
            r == as_result(remove_admin_error(*old(env), caller, old_admin)),
            r is Err ==> *final(env) == *old(env),
            r is Ok ==> old(env).frame(final(env), false, false, true, false, false, false)
                && final(env).dispute@ == (DisputeView {
                    admins: without(old(env).dispute@.admins, old_admin),
                    ..old(env).dispute@
                })
                && final(env).dispute@.admins.len() >= 1,
            old(env).dispute@.wf() ==> final(env).dispute@.wf(),
    {
        Self::require_admin(env, caller)?;
        let ghost s = env.dispute.admins@;
        let mut rest: Vec<Address> = Vec::new();
        let mut i: usize = 0;
        let n = env.dispute.admins.len();
        assert(s.take(0) =~= Seq::<Address>::empty());
        while i < n
            invariant
                n == s.len(),
                s == env.dispute.admins@,
                i <= n,
                rest@ == without(s.take(i as int), old_admin),
            decreases n - i,
        {
            let a = env.dispute.admins[i];
            if a != old_admin {
                rest.push(a);
            }
            assert(s.take(i + 1).drop_last() =~= s.take(i as int));
            i = i + 1;
        }
        assert(s.take(n as int) =~= s);
        if rest.len() == 0 {
            return Err(ContractError::Fani(FaniLabError::InvalidState));
        }
        if rest.len() == 1 && old_admin != caller {
            return Err(ContractError::Fani(FaniLabError::InvalidState));
        }
        proof { lemma_without(s, old_admin); }
        env.dispute.admins = rest;
        Ok(())
    }

    pub fn is_admin(env: &Env, admin: Address) -> (b: bool)
        ensures
            b == env.dispute@.is_admin(admin),
    {
        let mut i: usize = 0;
        while i < env.dispute.admins.len()
            invariant
                i <= env.dispute.admins@.len(),
                forall|j: int| 0 <= j < i ==> env.dispute.admins@[j] != admin,
            decreases env.dispute.admins@.len() - i,
        {
            if env.dispute.admins[i] == admin {
                assert(env.dispute.admins@[i as int] == admin);
                return true;
            }
            i = i + 1;
        }
        false
    }

    /// The administrators, in the order they were added.
    pub fn list_admins(env: &Env) -> (v: Vec<Address>)
        ensures
            v@ == env.dispute@.admins,
    {
        env.dispute.admins.clone()
    }

    pub fn get_delivery_contract(env: &Env) -> (r: Result<Address, ContractError>)
        ensures
            r == match env.dispute.delivery_contract {
                Some(a) => Ok(a),
                None => Err(ContractError::Fani(FaniLabError::NotInitialized)),
            },
    {
        match env.dispute.delivery_contract {
            Some(a) => Ok(a),
            None => Err(ContractError::Fani(FaniLabError::NotInitialized)),
        }
    }

    pub fn get_escrow_contract(env: &Env) -> (r: Result<Address, ContractError>)
        ensures
            r == match env.dispute.escrow_contract {
                Some(a) => Ok(a),
                None => Err(ContractError::Fani(FaniLabError::NotInitialized)),
            },
    {
        match env.dispute.escrow_contract {
            Some(a) => Ok(a),
            None => Err(ContractError::Fani(FaniLabError::NotInitialized)),
        }
    }

    /// Configure the identity contract whose reputation rulings adjust.
    /// Administrators only.
    pub fn set_identity_reputation_contract(env: &mut Env, caller: Address, reputation_contract: Address) -> (r: Result<(), ContractError>)
        ensures
            r == as_result(dispute_admin_error(*old(env), caller)),
            r is Err ==> *final(env) == *old(env),
            r is Ok ==> old(env).frame(final(env), false, false, true, false, false, false)
                && final(env).dispute@ == (DisputeView { identity_contract: Some(reputation_contract), ..old(env).dispute@ }),
    {
        Self::require_admin(env, caller)?;
        env.dispute.identity_contract = Some(reputation_contract);
        Ok(())
    }

    pub fn get_identity_reputation_contract(env: &Env) -> (r: Result<Address, ContractError>)
        ensures
            r == match env.dispute.identity_contract {
                Some(a) => Ok(a),
                None => Err(ContractError::Fani(FaniLabError::NotInitialized)),
            },
    {
        match env.dispute.identity_contract {
            Some(a) => Ok(a),
            None => Err(ContractError::Fani(FaniLabError::NotInitialized)),
        }
    }

    /// Seconds after delivery during which a delivered delivery may be
    /// disputed (zero before initialization).
    pub fn get_dispute_time_limit(env: &Env) -> (t: u64)
        ensures
            t == env.dispute.dispute_time_limit,
    {
        env.dispute.dispute_time_limit
    }

    /// Set the reputation penalty of a refund ruling (at most
    /// `MAX_DISPUTE_REPUTATION_PENALTY`). Administrators only.
    pub fn set_dispute_reputation_penalty(env: &mut Env, caller: Address, penalty: u32) -> (r: Result<(), ContractError>)
        ensures
            r == (if dispute_admin_error(*old(env), caller) is Some {
                Err(dispute_admin_error(*old(env), caller)->0)
            } else if penalty > MAX_DISPUTE_REPUTATION_PENALTY {
                Err(ContractError::Fani(FaniLabError::InvalidState))
            } else {
                Ok(())
            }),
            r is Err ==> *final(env) == *old(env),
            r is Ok ==> old(env).frame(final(env), false, false, true, false, false, false)
                && final(env).dispute@ == (DisputeView { reputation_penalty: Some(penalty), ..old(env).dispute@ }),
    {
        Self::require_admin(env, caller)?;
        if penalty > MAX_DISPUTE_REPUTATION_PENALTY {
            return Err(ContractError::Fani(FaniLabError::InvalidState));
        }
        env.dispute.reputation_penalty = Some(penalty);
        Ok(())
    }

    /// The penalty of a refund ruling.
    pub fn get_dispute_reputation_penalty(env: &Env) -> (p: u32)
        ensures
            p == env.dispute@.penalty(),
    {
        match env.dispute.reputation_penalty {
            Some(p) => p,
            None => DEFAULT_DISPUTE_REPUTATION_PENALTY,
        }
    }

    /// Seconds a dispute stays open before a party may force-resolve it
    /// (zero before initialization).
    pub fn get_dispute_resolution_limit(env: &Env) -> (t: u64)
        ensures
            t == env.dispute.resolution_limit,
    {
        env.dispute.resolution_limit
    }

    /// Set the force-resolution window to any value. Administrators only.
    /// (Only initialization enforces the one-day minimum.)
    pub fn set_dispute_resolution_limit(env: &mut Env, caller: Address, new_limit: u64) -> (r: Result<(), ContractError>)
        ensures
            r == (if dispute_admin_error(*old(env), caller) is Some {
                Err(dispute_admin_error(*old(env), caller)->0)
            } else {
                Ok(())
            }),
            r is Err ==> *final(env) == *old(env),
            r is Ok ==> old(env).frame(final(env), false, false, true, false, false, false)
                && final(env).dispute@ == (DisputeView { resolution_limit: new_limit, ..old(env).dispute@ }),
    {
        Self::require_admin(env, caller)?;
        env.dispute.resolution_limit = new_limit;
        Ok(())
    }

    /// Set the window for disputing a delivered delivery to any value.
    /// Administrators only. (Only initialization enforces the one-day
    /// minimum.)
    pub fn update_dispute_time_limit(env: &mut Env, caller: Address, new_limit: u64) -> (r: Result<(), ContractError>)
        ensures
            r == (if dispute_admin_error(*old(env), caller) is Some {
                Err(dispute_admin_error(*old(env), caller)->0)
            } else {
                Ok(())
            }),
            r is Err ==> *final(env) == *old(env),
            r is Ok ==> old(env).frame(final(env), false, false, true, false, false, false)
                && final(env).dispute@ == (DisputeView { dispute_time_limit: new_limit, ..old(env).dispute@ }),
    {
        Self::require_admin(env, caller)?;
        env.dispute.dispute_time_limit = new_limit;
        Ok(())
    }

    /// Read delivery `id` from the delivery contract.
    fn lookup_delivery(env: &Env, id: u64) -> (r: Result<DeliveryRecord, ContractError>)
        ensures
            match dispute_delivery_lookup(*env, id) {
                Err(e) => r == Err::<DeliveryRecord, ContractError>(e),
                Ok(d) => r is Ok && r->Ok_0.same_as(d),
            },
    {
        match env.dispute.delivery_contract {
            None => Err(ContractError::Fani(FaniLabError::NotInitialized)),
            Some(d) => {
                if d != env.delivery.address {
                    return Err(ContractError::MissingContract);
                }
                DeliveryContract::get_delivery(env, id)
            },
        }
    }

    fn check_freeze(env: &Env, id: u64) -> (r: Result<(), ContractError>)
        ensures
            r == as_result(freeze_error(*env, id)),
    {
        match env.dispute.escrow_contract {
            None => Err(ContractError::Fani(FaniLabError::NotInitialized)),
            Some(e) => {
                if e != env.escrow.address {
                    return Err(ContractError::MissingContract);
                }
                match env.escrow.dispute_contract {
                    None => { return Err(ContractError::Fani(FaniLabError::NotInitialized)); },
                    Some(dc) => {
                        if dc != env.dispute.address {
                            return Err(ContractError::Fani(FaniLabError::Unauthorized));
                        }
                    },
                }
                if !env.escrow.escrows.contains_key(&id) {
                    return Err(ContractError::Escrow(EscrowError::DeliveryNotFound));
                }
                Ok(())
            },
        }
    }

    /// A party opens a dispute on delivery `id`: the delivery becomes
    /// disputed, its escrow is frozen, and an open case is recorded.
    pub fn raise_dispute(env: &mut Env, caller: Address, delivery_id: u64) -> (r: Result<(), ContractError>)
        ensures
            r == as_result(raise_dispute_error(*old(env), caller, delivery_id)),
            r is Err ==> *final(env) == *old(env),
            r is Ok ==> old(env).frame(final(env), true, true, true, false, false, false)
                && final(env).escrow@ == disputed_view(*old(env), caller, delivery_id)
                && final(env).delivery@ == with_status(*old(env), delivery_id, DeliveryStatus::Disputed)
                && final(env).dispute@ == (DisputeView { disputes: final(env).dispute@.disputes, ..old(env).dispute@ })
                && final(env).dispute@.disputes.remove(delivery_id) == old(env).dispute@.disputes
                && final(env).dispute@.disputes.contains_key(delivery_id)
                && final(env).dispute@.disputes[delivery_id].is_opened(delivery_id, caller, old(env).timestamp),
    {
        env.require_auth(caller)?;
        let d = Self::lookup_delivery(env, delivery_id)?;
        if caller != d.sender && caller != d.recipient && d.driver != Some(caller) {
            return Err(ContractError::Fani(FaniLabError::Unauthorized));
        }
        match d.status {
            DeliveryStatus::Delivered => {
                let t = match d.delivered_at {
                    Some(t) => t,
                    None => 0,
                };
                let limit = env.dispute.dispute_time_limit;
                if t > u64::MAX - limit {
                    return Err(ContractError::ArithmeticOverflow);
                }
                if env.timestamp > t + limit {
                    return Err(ContractError::Fani(FaniLabError::InvalidState));
                }
            },
            DeliveryStatus::Active | DeliveryStatus::InTransit => {},
            _ => {
                return Err(ContractError::Fani(FaniLabError::InvalidState));
            },
        }
        DeliveryContract::check_raise_dispute(env, caller, delivery_id)?;
        Self::check_freeze(env, delivery_id)?;
        if env.dispute.disputes.contains_key(&delivery_id) {
            return Err(ContractError::Fani(FaniLabError::DuplicateDelivery));
        }
        let ghost env0 = *env;
        DeliveryContract::raise_dispute(env, caller, delivery_id)?;
        assert(freeze_error(*env, delivery_id) == freeze_error(env0, delivery_id));
        let contract = env.dispute.address;
        EscrowContract::freeze_funds_as(env, contract, true, delivery_id)?;
        let now = env.timestamp;
        env.dispute.disputes.insert(delivery_id, DisputeCase {
            delivery_id,
            status: DisputeStatus::Open,
            raised_at: now,
            raised_by: caller,
            evidence_hashes: Vec::new(),
            resolved_at: None,
            resolved_by: None,
        });
        assert(env.dispute@.disputes.remove(delivery_id) =~= env0.dispute@.disputes);
        Ok(())
    }

    /// A party attaches an evidence hash to an open dispute: each party at
    /// most `MAX_EVIDENCE_HASHES_PER_PARTY` hashes, none twice.
    pub fn add_evidence_hash(env: &mut Env, caller: Address, delivery_id: u64, evidence_hash: EvidenceHash) -> (r: Result<(), ContractError>)
        ensures
            r == as_result(evidence_error(*old(env), caller, delivery_id, evidence_hash)),
            r is Err ==> *final(env) == *old(env),
            r is Ok ==> old(env).frame(final(env), false, false, true, false, false, false)
                && final(env).dispute@ == (DisputeView { disputes: final(env).dispute@.disputes, ..old(env).dispute@ })
                && final(env).dispute@.disputes.remove(delivery_id) == old(env).dispute@.disputes.remove(delivery_id)
                && final(env).dispute@.disputes.contains_key(delivery_id)
                && final(env).dispute@.disputes[delivery_id].is_extension_of(
                    old(env).dispute@.disputes[delivery_id],
                    EvidenceEntry { submitter: caller, hash: evidence_hash },
                ),
    {
        env.require_auth(caller)?;
        Self::require_escrow_not_paused(env)?;
        match env.dispute.disputes.get(&delivery_id) {
            None => { return Err(ContractError::Fani(FaniLabError::DeliveryNotFound)); },
            Some(c) => {
                if c.status != DisputeStatus::Open {
                    return Err(ContractError::Fani(FaniLabError::InvalidState));
                }
            },
        }
        let d = Self::lookup_delivery(env, delivery_id)?;
        if caller != d.sender && caller != d.recipient && d.driver != Some(caller) {
            return Err(ContractError::Fani(FaniLabError::Unauthorized));
        }
        let (dup, count) = scan_evidence(&env.dispute.disputes.get(&delivery_id).unwrap().evidence_hashes, caller, &evidence_hash);
        if dup {
            return Err(ContractError::Fani(FaniLabError::InvalidState));
        }
        if count >= MAX_EVIDENCE_HASHES_PER_PARTY as usize {
            return Err(ContractError::Fani(FaniLabError::LimitExceeded));
        }
        let ghost old_disputes = env.dispute@.disputes;
        let mut c = env.dispute.disputes.remove(&delivery_id).unwrap();
        c.evidence_hashes.push(EvidenceEntry { submitter: caller, hash: evidence_hash });
        env.dispute.disputes.insert(delivery_id, c);
        assert(env.dispute@.disputes.remove(delivery_id) =~= old_disputes.remove(delivery_id));
        Ok(())
    }

    fn check_ruling(env: &Env, caller: Address, delivery_id: u64) -> (r: Result<(), ContractError>)
        ensures
            r == as_result(ruling_error(*env, caller, delivery_id)),
    {
        env.require_auth(caller)?;
        Self::require_escrow_not_paused(env)?;
        if !Self::is_admin(env, caller) {
            return Err(ContractError::Fani(FaniLabError::Unauthorized));
        }
        match env.dispute.disputes.get(&delivery_id) {
            None => { return Err(ContractError::Fani(FaniLabError::DeliveryNotFound)); },
            Some(c) => {
                if c.status != DisputeStatus::Open {
                    return Err(ContractError::Fani(FaniLabError::InvalidState));
                }
            },
        }
        let e = EscrowContract::get_escrow(env, delivery_id)?;
        if e.status != EscrowStatus::Paused {
            return Err(ContractError::Fani(FaniLabError::InvalidState));
        }
        Ok(())
    }

    /// What lowering `driver`'s reputation by `points` would do, without
    /// doing it: whether an identity contract is configured, or the error.
    fn preview_penalty(env: &Env, driver: Address, points: u32) -> (r: Result<bool, ContractError>)
        ensures
            match ruling_penalty(*env, driver, points) {
                Err(e) => r == Err::<bool, ContractError>(e),
                Ok(_) => r == Ok::<bool, ContractError>(env.dispute.identity_contract is Some),
            },
    {
        match env.dispute.identity_contract {
            None => Ok(false),
            Some(i) => {
                if i != env.identity.address {
                    return Err(ContractError::MissingContract);
                }
                let contract = env.dispute.address;
                IdentityReputationContract::preview_decrease_reputation(env, contract, true, driver, points)?;
                Ok(true)
            },
        }
    }

    /// Record the ruling on case `id`.
    fn record_ruling(c: &mut DisputeResolutionContract, id: u64, status: DisputeStatus, caller: Address, now: u64)
        requires
            old(c)@.disputes.contains_key(id),
        ensures
            final(c).address == old(c).address,
            final(c)@ == (DisputeView { disputes: final(c)@.disputes, ..old(c)@ }),
            final(c)@.disputes.remove(id) == old(c)@.disputes.remove(id),
            final(c)@.disputes.contains_key(id),
            final(c)@.disputes[id].is_resolution_of(old(c)@.disputes[id], status, caller, now),
    {
        let ghost old_disputes = c@.disputes;
        let mut case = c.disputes.remove(&id).unwrap();
        case.status = status;
        case.resolved_at = Some(now);
        case.resolved_by = Some(caller);
        c.disputes.insert(id, case);
        assert(c@.disputes.remove(id) =~= old_disputes.remove(id));
    }

    /// An administrator rules for the sender: the driver loses the
    /// configured penalty and the escrow is refunded.
    pub fn resolve_dispute_refund_sender(env: &mut Env, caller: Address, delivery_id: u64) -> (r: Result<(), ContractError>)
        ensures
            match refund_ruling_outcome(*old(env), caller, delivery_id) {
                Err(e) => r == Err::<(), ContractError>(e) && *final(env) == *old(env),
                Ok((v, iv, m)) => r is Ok && old(env).frame(final(env), true, false, true, false, true, true)
                    && final(env).escrow@ == v && final(env).identity@ == iv && final(env).tokens.balances@ == m
                    && ruling_recorded(*old(env), *final(env), delivery_id, DisputeStatus::ResolvedRefund, caller),
            },
    {
        let ghost env0 = *env;
        Self::check_ruling(env, caller, delivery_id)?;
        let d = Self::lookup_delivery(env, delivery_id)?;
        let driver = match d.driver {
            Some(drv) => drv,
            None => { return Err(ContractError::Fani(FaniLabError::ProviderNotFound)); },
        };
        let penalty = Self::get_dispute_reputation_penalty(env);
        let apply = Self::preview_penalty(env, driver, penalty)?;
        EscrowContract::check_resolve_dispute(env, caller, delivery_id, false)?;
        EscrowContract::resolve_dispute(env, caller, delivery_id, false)?;
        let contract = env.dispute.address;
        if apply {
            assert(decrease_reputation_outcome(*env, contract, true, driver, penalty)
                == decrease_reputation_outcome(env0, contract, true, driver, penalty));
            IdentityReputationContract::decrease_reputation_as(env, contract, true, driver, penalty)?;
        }
        let now = env.timestamp;
        Self::record_ruling(&mut env.dispute, delivery_id, DisputeStatus::ResolvedRefund, caller, now);
        Ok(())
    }

    /// An administrator rules for the driver: the escrow is released to
    /// the driver, who earns the dispute reward.
    pub fn resolve_dispute_pay_driver(env: &mut Env, caller: Address, delivery_id: u64) -> (r: Result<(), ContractError>)
        ensures
            match pay_ruling_outcome(*old(env), caller, delivery_id) {
                Err(e) => r == Err::<(), ContractError>(e) && *final(env) == *old(env),
                Ok((v, iv, m)) => r is Ok && old(env).frame(final(env), true, false, true, false, true, true)
                    && final(env).escrow@ == v && final(env).identity@ == iv && final(env).tokens.balances@ == m
                    && ruling_recorded(*old(env), *final(env), delivery_id, DisputeStatus::ResolvedPayout, caller),
            },
    {
        let ghost env0 = *env;
        Self::check_ruling(env, caller, delivery_id)?;
        EscrowContract::check_resolve_dispute(env, caller, delivery_id, true)?;
        let d = Self::lookup_delivery(env, delivery_id)?;
        let contract = env.dispute.address;
        let award: Option<Address> = match (d.driver, env.dispute.identity_contract) {
            (Some(drv), Some(i)) => {
                if i != env.identity.address {
                    return Err(ContractError::MissingContract);
                }
                IdentityReputationContract::preview_award_reputation(env, contract, true, drv, DISPUTE_REPUTATION_REWARD)?;
                Some(drv)
            },
            _ => None,
        };
        EscrowContract::resolve_dispute(env, caller, delivery_id, true)?;
        match award {
            Some(drv) => {
                assert(award_reputation_outcome(*env, contract, true, drv, DISPUTE_REPUTATION_REWARD)
                    == award_reputation_outcome(env0, contract, true, drv, DISPUTE_REPUTATION_REWARD));
                IdentityReputationContract::award_reputation_as(env, contract, true, drv, DISPUTE_REPUTATION_REWARD)?;
            },
            None => {},
        }
        let now = env.timestamp;
        Self::record_ruling(&mut env.dispute, delivery_id, DisputeStatus::ResolvedPayout, caller, now);
        Ok(())
    }

    /// An administrator splits the escrow, `sender_share_bps` to the
    /// sender; the driver loses the split penalty.
    pub fn resolve_dispute_split_funds(env: &mut Env, caller: Address, delivery_id: u64, sender_share_bps: u32) -> (r: Result<(), ContractError>)
        ensures
            match split_ruling_outcome(*old(env), caller, delivery_id, sender_share_bps) {
                Err(e) => r == Err::<(), ContractError>(e) && *final(env) == *old(env),
                Ok((v, iv, m)) => r is Ok && old(env).frame(final(env), true, false, true, false, true, true)
                    && final(env).escrow@ == v && final(env).identity@ == iv && final(env).tokens.balances@ == m
                    && ruling_recorded(*old(env), *final(env), delivery_id, DisputeStatus::Split, caller),
            },
    {
        let ghost env0 = *env;
        Self::check_ruling(env, caller, delivery_id)?;
        let d = Self::lookup_delivery(env, delivery_id)?;
        let penalize: Option<Address> = match d.driver {
            Some(drv) => {
                if Self::preview_penalty(env, drv, DISPUTE_REPUTATION_SPLIT_PENALTY)? {
                    Some(drv)
                } else {
                    None
                }
            },
            None => None,
        };
        EscrowContract::check_split(env, caller, false, delivery_id, sender_share_bps)?;
        EscrowContract::resolve_dispute_split_as(env, caller, false, delivery_id, sender_share_bps)?;
        let contract = env.dispute.address;
        match penalize {
            Some(drv) => {
                assert(decrease_reputation_outcome(*env, contract, true, drv, DISPUTE_REPUTATION_SPLIT_PENALTY)
                    == decrease_reputation_outcome(env0, contract, true, drv, DISPUTE_REPUTATION_SPLIT_PENALTY));
                IdentityReputationContract::decrease_reputation_as(env, contract, true, drv, DISPUTE_REPUTATION_SPLIT_PENALTY)?;
            },
            None => {},
        }
        let now = env.timestamp;
        Self::record_ruling(&mut env.dispute, delivery_id, DisputeStatus::Split, caller, now);
        Ok(())
    }

    /// A party forces a dispute open past the resolution window to the
    /// fallback: an even split, ordered by this contract.
    pub fn force_resolve_dispute(env: &mut Env, caller: Address, delivery_id: u64) -> (r: Result<(), ContractError>)
        ensures
            match force_outcome(*old(env), caller, delivery_id) {
                Err(e) => r == Err::<(), ContractError>(e) && *final(env) == *old(env),
                Ok((v, m)) => r is Ok && old(env).frame(final(env), true, false, true, false, false, true)
                    && final(env).escrow@ == v && final(env).tokens.balances@ == m
                    && ruling_recorded(*old(env), *final(env), delivery_id, DisputeStatus::Split, caller),
            },
    {
        env.require_auth(caller)?;
        Self::require_escrow_not_paused(env)?;
        let raised_at = match env.dispute.disputes.get(&delivery_id) {
            None => { return Err(ContractError::Fani(FaniLabError::DeliveryNotFound)); },
            Some(c) => {
                if c.status != DisputeStatus::Open {
                    return Err(ContractError::Fani(FaniLabError::InvalidState));
                }
                c.raised_at
            },
        };
        let d = Self::lookup_delivery(env, delivery_id)?;
        if caller != d.sender && caller != d.recipient && d.driver != Some(caller) {
            return Err(ContractError::Fani(FaniLabError::Unauthorized));
        }
        let limit = env.dispute.resolution_limit;
        if env.timestamp <= raised_at.saturating_add(limit) {
            return Err(ContractError::Fani(FaniLabError::InvalidState));
        }
        let e = EscrowContract::get_escrow(env, delivery_id)?;
        if e.status != EscrowStatus::Paused {
            return Err(ContractError::Fani(FaniLabError::InvalidState));
        }
        let contract = env.dispute.address;
        EscrowContract::resolve_dispute_split_as(env, contract, true, delivery_id, DEFAULT_SENDER_SHARE_BPS)?;
        let now = env.timestamp;
        Self::record_ruling(&mut env.dispute, delivery_id, DisputeStatus::Split, caller, now);
        Ok(())
    }

    pub fn get_dispute(env: &Env, delivery_id: u64) -> (r: Result<DisputeCase, ContractError>)
        ensures
            env.dispute@.disputes.contains_key(delivery_id) ==> r is Ok && r->Ok_0.same_as(env.dispute@.disputes[delivery_id]),
            !env.dispute@.disputes.contains_key(delivery_id) ==> r == Err::<DisputeCase, ContractError>(ContractError::Fani(FaniLabError::DeliveryNotFound)),
    {
        match env.dispute.disputes.get(&delivery_id) {
            Some(c) => Ok(c.copied()),
            None => Err(ContractError::Fani(FaniLabError::DeliveryNotFound)),
        }
    }
}

} // verus!
