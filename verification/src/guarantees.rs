//! What individual operations promise in terms of their inputs: the time
//! locks on settling escrows, the reputation consequences of confirmations
//! and dispute rulings, and how id lists are paged.
use vstd::prelude::*;
use crate::types::{Address, ContractError, DriverProfile, EscrowError, EscrowStatus};
use crate::env::Env;
use crate::escrow::{
    release_expired_outcome, reclaim_outcome, release_escrow_outcome, release_holdback_outcome, resolve_dispute_outcome,
    refund_outcome, holdback_view, spec_effective_fee, split_outcome, holdback_mark_error, escrow_dispute_error, spec_calculate_fee, VolumeTier, DEFAULT_HOLDBACK_WINDOW_SECONDS,
};
use crate::fleet::DriverFleetStatus;
use crate::token::{balance_in, transferred};
use crate::types::{lemma_pair_key_injective, EscrowRecord};
use crate::identity::{
    HEAVY_CARGO_GRAMS, MAX_REPUTATION, ReputationConfig, DEFAULT_BASE_POINTS, DEFAULT_HEAVY_CARGO_POINTS,
    DEFAULT_FRAGILE_POINTS,
};
use crate::delivery::{confirm_error, confirmed_identity};
use crate::dispute::{
    split_ruling_outcome, refund_ruling_outcome, pay_ruling_outcome, force_outcome, DISPUTE_REPUTATION_SPLIT_PENALTY,
    DISPUTE_REPUTATION_REWARD, DEFAULT_DISPUTE_REPUTATION_PENALTY,
};
use crate::index::page_of;

verus! {

/// `a + b`, held at `u64::MAX`.
pub open spec fn capped_sum(a: u64, b: u64) -> int {
    if a + b > u64::MAX { u64::MAX as int } else { a + b }
}

/// A holdback escrow is released automatically only once its holdback
/// window has passed: success needs the escrow in holdback and the ledger
/// time at or past the time holdback started plus the window in force (the
/// configured one, three days by default). Earlier, on an unpaused contract,
/// the release is refused with `TimelockNotElapsed`.
pub proof fn law_expired_holdback_waits_for_window(env: Env, id: u64)
    ensures
        ({
            let r = env.escrow@.escrows[id];
            let window = match env.escrow.holdback_window {
                Some(w) => w,
                None => DEFAULT_HOLDBACK_WINDOW_SECONDS,
            };
            &&& release_expired_outcome(env, id) is Ok ==> {
                &&& env.escrow@.escrows.contains_key(id)
                &&& r.status == EscrowStatus::Holdback
                &&& r.holdback_started_at is Some
                &&& env.timestamp >= capped_sum(r.holdback_started_at->0, window)
            }
            &&& (!env.escrow.paused && env.escrow@.escrows.contains_key(id) && r.status == EscrowStatus::Holdback
                && r.holdback_started_at is Some && env.timestamp < capped_sum(r.holdback_started_at->0, window))
                ==> release_expired_outcome(env, id) == Err::<(crate::escrow::EscrowView, Map<u128, i128>), ContractError>(
                    ContractError::Escrow(EscrowError::TimelockNotElapsed))
            &&& release_expired_outcome(env, id) == Err::<(crate::escrow::EscrowView, Map<u128, i128>), ContractError>(
                    ContractError::Escrow(EscrowError::TimelockNotElapsed))
                ==> r.holdback_started_at is Some && env.timestamp < capped_sum(r.holdback_started_at->0, window)
        }),
{
}

/// An escrow can be reclaimed for its sender only after it expired: success
/// needs the escrow locked, with an expiry time, and the ledger time strictly
/// after it. At or before the expiry, on an unpaused contract, the reclaim
/// is refused with `InvalidState`.
pub proof fn law_reclaim_only_after_expiry(env: Env, id: u64)
    ensures
        ({
            let r = env.escrow@.escrows[id];
            &&& reclaim_outcome(env, id) is Ok ==> {
                &&& env.escrow@.escrows.contains_key(id)
                &&& r.status == EscrowStatus::Locked
                &&& r.expires_at is Some
                &&& env.timestamp > r.expires_at->0
            }
            &&& (!env.escrow.paused && env.escrow@.escrows.contains_key(id) && r.expires_at is Some
                && env.timestamp <= r.expires_at->0)
                ==> reclaim_outcome(env, id) == Err::<(crate::escrow::EscrowView, Map<u128, i128>), ContractError>(
                    ContractError::Escrow(EscrowError::InvalidState))
            &&& (env.escrow@.escrows.contains_key(id) && r.status == EscrowStatus::Locked && r.expires_at is Some
                && reclaim_outcome(env, id) == Err::<(crate::escrow::EscrowView, Map<u128, i128>), ContractError>(
                    ContractError::Escrow(EscrowError::InvalidState)))
                ==> env.timestamp <= r.expires_at->0
        }),
{
}

/// The points a delivery's cargo earns under the identity contract's
/// configuration: the base points, the heavy-cargo bonus above 5000 g and
/// the fragile bonus.
pub open spec fn earned_points(env: Env, weight_grams: u32, fragile: bool) -> int {
    let c = match env.identity.reputation_config {
        Some(c) => c,
        None => ReputationConfig {
            base_points: DEFAULT_BASE_POINTS,
            heavy_cargo_points: DEFAULT_HEAVY_CARGO_POINTS,
            fragile_points: DEFAULT_FRAGILE_POINTS,
        },
    };
    c.base_points + (if weight_grams > HEAVY_CARGO_GRAMS { c.heavy_cargo_points as int } else { 0 })
        + (if fragile { c.fragile_points as int } else { 0 })
}

/// Confirming a delivery credits its driver (when an identity contract is
/// configured) with the points of that delivery's own cargo, capped at
/// `MAX_REPUTATION`, and one more completed delivery; nothing else about the
/// driver or any other driver changes.
pub proof fn law_confirmation_credits_cargo_points(env: Env, recipient: Address, id: u64, driver: Address)
    ensures
        ({
            let d = env.delivery@.deliveries[id];
            let old_p = env.identity@.drivers[driver.id];
            let pts = earned_points(env, d.metadata.cargo_description.weight_grams, d.metadata.cargo_description.fragile);
            confirm_error(env, recipient, id) is None && d.driver == Some(driver)
                && env.delivery.identity_contract == Some(env.identity.address)
                ==> {
                    &&& env.identity@.drivers.contains_key(driver.id)
                    &&& confirmed_identity(env, id).drivers == env.identity@.drivers.insert(driver.id, DriverProfile {
                        reputation_score: if old_p.reputation_score + pts > MAX_REPUTATION {
                            MAX_REPUTATION
                        } else {
                            (old_p.reputation_score + pts) as u32
                        },
                        deliveries_completed: (old_p.deliveries_completed + 1) as u32,
                        ..old_p
                    })
                }
        }),
{
}

/// Confirming a delivery puts its escrow into holdback from the current
/// ledger time, with nothing else about the escrow changed.
pub proof fn law_confirmation_starts_holdback(env: Env, recipient: Address, id: u64)
    ensures
        confirm_error(env, recipient, id) is None ==> {
            &&& env.escrow@.escrows.contains_key(id)
            &&& env.escrow@.escrows[id].status == EscrowStatus::Locked
            &&& holdback_view(env, id).escrows == env.escrow@.escrows.insert(id, EscrowRecord {
                status: EscrowStatus::Holdback,
                holdback_started_at: Some(env.timestamp),
                ..env.escrow@.escrows[id]
            })
        },
{
}

/// `score` lowered by `points`, never below zero.
pub open spec fn lowered(score: u32, points: u32) -> u32 {
    if score >= points { (score - points) as u32 } else { 0 }
}

/// The reputation consequences of a dispute ruling, when the delivery has a
/// driver and the dispute contract reports to the identity contract: a
/// split costs the driver `DISPUTE_REPUTATION_SPLIT_PENALTY`, a refund the
/// configured penalty (10 by default), both floored at zero; paying the
/// driver earns `DISPUTE_REPUTATION_REWARD`, capped at `MAX_REPUTATION`.
/// Only that driver's score changes.
pub proof fn law_ruling_reputation(env: Env, caller: Address, id: u64, sender_share_bps: u32, driver: Address)
    ensures
        ({
            let d = env.delivery@.deliveries[id];
            let old_p = env.identity@.drivers[driver.id];
            let wired = env.delivery@.deliveries.contains_key(id) && d.driver == Some(driver)
                && env.dispute.identity_contract == Some(env.identity.address);
            let penalty = match env.dispute.reputation_penalty {
                Some(p) => p,
                None => DEFAULT_DISPUTE_REPUTATION_PENALTY,
            };
            &&& wired && split_ruling_outcome(env, caller, id, sender_share_bps) is Ok ==>
                split_ruling_outcome(env, caller, id, sender_share_bps)->Ok_0.1.drivers
                    == env.identity@.drivers.insert(driver.id, DriverProfile {
                        reputation_score: lowered(old_p.reputation_score, DISPUTE_REPUTATION_SPLIT_PENALTY),
                        ..old_p
                    })
            &&& wired && refund_ruling_outcome(env, caller, id) is Ok ==>
                refund_ruling_outcome(env, caller, id)->Ok_0.1.drivers
                    == env.identity@.drivers.insert(driver.id, DriverProfile {
                        reputation_score: lowered(old_p.reputation_score, penalty),
                        ..old_p
                    })
            &&& wired && pay_ruling_outcome(env, caller, id) is Ok ==>
                pay_ruling_outcome(env, caller, id)->Ok_0.1.drivers
                    == env.identity@.drivers.insert(driver.id, DriverProfile {
                        reputation_score: if old_p.reputation_score + DISPUTE_REPUTATION_REWARD > MAX_REPUTATION {
                            MAX_REPUTATION
                        } else {
                            (old_p.reputation_score + DISPUTE_REPUTATION_REWARD) as u32
                        },
                        ..old_p
                    })
        }),
{
}

/// The smaller of two integers.
pub open spec fn min_int(a: int, b: int) -> int {
    if a <= b { a } else { b }
}

/// A page starting inside an id list holds the ids from the offset on, in
/// order: as many as the limit asks, at most 100, and no more than remain.
/// A page starting at or past the end is empty.
pub proof fn law_page_contents(s: Seq<u64>, offset: u32, limit: u32)
    ensures
        offset < s.len() ==> {
            &&& page_of(s, offset, limit).len() == min_int(min_int(limit as int, 100), s.len() - offset)
            &&& forall|i: int| 0 <= i < page_of(s, offset, limit).len() ==>
                #[trigger] page_of(s, offset, limit)[i] == s[offset + i]
        },
        offset >= s.len() ==> page_of(s, offset, limit).len() == 0,
{
}

/// The first `n` pages of size `k`, at offsets 0, k, 2k, ..., put together.
pub open spec fn pages(s: Seq<u64>, k: u32, n: nat) -> Seq<u64>
    decreases n,
{
    if n == 0 {
        Seq::empty()
    } else {
        pages(s, k, (n - 1) as nat) + page_of(s, ((n - 1) * k) as u32, k)
    }
}

/// Paging through a list with a fixed page size of at most 100 visits every
/// id once, in order: the first `n` pages put together are the list's first
/// `n * k` ids (all of them once `n * k` reaches its length).
pub proof fn law_pages_cover_list(s: Seq<u64>, k: u32, n: nat)
    requires
        1 <= k <= 100,
        n * k <= u32::MAX,
    ensures
        pages(s, k, n) == s.take(min_int(n * k, s.len() as int)),
    decreases n,
{
    if n > 0 {
        let m = (n - 1) as nat;
        assert(m * k <= n * k) by (nonlinear_arith)
            requires m + 1 == n, k >= 1;
        assert(n * k == m * k + k) by (nonlinear_arith)
            requires m + 1 == n;
        law_pages_cover_list(s, k, m);
        law_page_contents(s, (m * k) as u32, k);
        let prev = s.take(min_int(m * k, s.len() as int));
        let p = page_of(s, (m * k) as u32, k);
        assert(pages(s, k, n) == prev + p);
        assert(prev + p =~= s.take(min_int(n * k, s.len() as int)));
    } else {
        assert(n * k == 0) by (nonlinear_arith)
            requires n == 0;
        assert(pages(s, k, n) =~= s.take(min_int(n * k, s.len() as int)));
    }
}

/// A transfer between two different holders moves exactly the amount from
/// one to the other and leaves every other balance alone.
pub proof fn lemma_transferred_balance(m: Map<u128, i128>, token: Address, from: Address, to: Address, x: i128, t: Address, h: Address)
    requires
        from != to,
        crate::token::transfer_error(m, token, from, to, x) is None,
    ensures
        balance_in(transferred(m, token, from, to, x), t, h) == balance_in(m, t, h)
            + (if t.id == token.id && h == to { x as int } else { 0 })
            - (if t.id == token.id && h == from { x as int } else { 0 }),
{
    lemma_pair_key_injective(t.id, h.id, token.id, from.id);
    lemma_pair_key_injective(t.id, h.id, token.id, to.id);
    lemma_pair_key_injective(token.id, from.id, token.id, to.id);
}

/// The fee rate a sender pays: the base rate less the discount of the last
/// tier whose threshold the sender's volume reaches (never below zero), or
/// the base rate when the volume reaches no threshold.
pub proof fn law_volume_tier_rate(tiers: Seq<VolumeTier>, base: u32, volume: u32)
    ensures
        forall|i: int| 0 <= i < tiers.len() && tiers[i].volume_threshold <= volume
            && (forall|j: int| i < j < tiers.len() ==> tiers[j].volume_threshold > volume)
            ==> spec_effective_fee(tiers, base, volume) == lowered(base, #[trigger] tiers[i].discount_bps),
        (forall|i: int| 0 <= i < tiers.len() ==> tiers[i].volume_threshold > volume)
            ==> spec_effective_fee(tiers, base, volume) == base,
    decreases tiers.len(),
{
    if tiers.len() > 0 {
        let n = tiers.len() - 1;
        let rest = tiers.drop_last();
        law_volume_tier_rate(rest, base, volume);
        assert forall|i: int| 0 <= i < tiers.len() && tiers[i].volume_threshold <= volume
            && (forall|j: int| i < j < tiers.len() ==> tiers[j].volume_threshold > volume)
            implies spec_effective_fee(tiers, base, volume) == lowered(base, #[trigger] tiers[i].discount_bps) by {
            if i < n {
                assert(tiers[n].volume_threshold > volume);
                assert(rest[i] == tiers[i]);
                assert forall|j: int| i < j < rest.len() implies rest[j].volume_threshold > volume by {
                    assert(rest[j] == tiers[j]);
                };
            }
        };
        if forall|i: int| 0 <= i < tiers.len() ==> tiers[i].volume_threshold > volume {
            assert(tiers[n].volume_threshold > volume);
            assert forall|i: int| 0 <= i < rest.len() implies rest[i].volume_threshold > volume by {
                assert(rest[i] == tiers[i]);
            };
        }
    }
}

/// Where an escrow's payout goes: the address fixed when it was created,
/// else the fleet treasury of an active driver of an active fleet when a
/// fleet contract is configured and the escrow names a fleet, else the
/// driver.
pub open spec fn payout_destination(env: Env, r: EscrowRecord, id: u64) -> Address {
    let v = env.escrow@;
    if v.payout_addresses.contains_key(id) {
        v.payout_addresses[id]
    } else if v.fleet_contract is Some && r.fleet_id is Some {
        let f = env.fleet@;
        let fid = r.fleet_id->0;
        if f.status(fid, r.driver) == Some(DriverFleetStatus::Active) && f.fleets.contains_key(fid) && f.fleets[fid].active {
            f.fleets[fid].treasury
        } else {
            r.driver
        }
    } else {
        r.driver
    }
}

/// What a release of escrow `id` to its driver pays, given the balances it
/// starts from and those it ends with: the payout destination gains the
/// amount less the fee, the administrator the fee, and the contract gives up
/// the whole amount; the fee is the amount times the sender's rate in basis
/// points, rounded down.
pub open spec fn release_paid(env: Env, id: u64, m2: Map<u128, i128>) -> bool {
    let v = env.escrow@;
    let r = v.escrows[id];
    let m = env.tokens.balances@;
    let to = payout_destination(env, r, id);
    let admin = v.admin->0;
    let c = env.escrow.address;
    let rate = spec_effective_fee(v.volume_tiers, v.base_fee(), v.volume(r.sender));
    let fee = spec_calculate_fee(r.amount, rate);
    &&& fee * 10000 <= r.amount * rate < fee * 10000 + 10000
    &&& balance_in(m2, r.token, to) == balance_in(m, r.token, to) + r.amount - fee
    &&& balance_in(m2, r.token, admin) == balance_in(m, r.token, admin) + fee
    &&& balance_in(m2, r.token, c) == balance_in(m, r.token, c) - r.amount
}

/// The sender of escrow `id` got its whole amount back from the contract.
pub open spec fn refund_paid(env: Env, id: u64, m2: Map<u128, i128>) -> bool {
    let r = env.escrow@.escrows[id];
    let m = env.tokens.balances@;
    &&& balance_in(m2, r.token, r.sender) == balance_in(m, r.token, r.sender) + r.amount
    &&& balance_in(m2, r.token, env.escrow.address) == balance_in(m, r.token, env.escrow.address) - r.amount
}

proof fn lemma_release_pays(env: Env, id: u64, m2: Map<u128, i128>)
    requires
        crate::escrow::release_result(env, env.tokens.balances@, env.escrow@.escrows[id], id) == Ok::<Map<u128, i128>, ContractError>(m2),
        env.escrow@.admin is Some,
        payout_destination(env, env.escrow@.escrows[id], id) != env.escrow.address,
        env.escrow@.admin->0 != env.escrow.address,
        payout_destination(env, env.escrow@.escrows[id], id) != env.escrow@.admin->0,
        env.escrow@.escrows[id].amount >= 0,
        env.escrow@.escrows[id].amount * 10000 <= i128::MAX,
        env.escrow@.base_fee() <= 10000,
    ensures
        release_paid(env, id, m2),
{
    let v = env.escrow@;
    let r = v.escrows[id];
    let m = env.tokens.balances@;
    let to = payout_destination(env, r, id);
    let admin = v.admin->0;
    let c = env.escrow.address;
    let rate = spec_effective_fee(v.volume_tiers, v.base_fee(), v.volume(r.sender));
    crate::laws::law_effective_fee_at_most_base(v.volume_tiers, v.base_fee(), v.volume(r.sender));
    crate::laws::law_fee_within_amount(r.amount, rate);
    let fee = spec_calculate_fee(r.amount, rate);
    assert(r.amount * rate <= r.amount * 10000) by (nonlinear_arith)
        requires r.amount >= 0, rate <= 10000;
    assert(0 <= r.amount * rate) by (nonlinear_arith)
        requires r.amount >= 0, rate >= 0;
    let p = r.amount * rate;
    assert(fee == p / 10000);
    assert(fee * 10000 <= p < fee * 10000 + 10000) by (nonlinear_arith)
        requires fee == p / 10000, p >= 0;
    let net = crate::escrow::sat_sub(r.amount, fee);
    assert(net == r.amount - fee);
    let m1 = crate::escrow::payout_result(env, m, r, id, net)->Ok_0;
    if net > 0 {
        assert(crate::escrow::payout_target(env, r, id)->Ok_0 == to);
        lemma_transferred_balance(m, r.token, c, to, net, r.token, to);
        lemma_transferred_balance(m, r.token, c, to, net, r.token, admin);
        lemma_transferred_balance(m, r.token, c, to, net, r.token, c);
    }
    if fee > 0 {
        lemma_transferred_balance(m1, r.token, c, admin, fee, r.token, to);
        lemma_transferred_balance(m1, r.token, c, admin, fee, r.token, admin);
        lemma_transferred_balance(m1, r.token, c, admin, fee, r.token, c);
    }
}

proof fn lemma_refund_pays(env: Env, id: u64, m2: Map<u128, i128>)
    requires
        crate::token::transfer_result(env.tokens.balances@, env.escrow@.escrows[id].token, env.escrow.address,
            env.escrow@.escrows[id].sender, env.escrow@.escrows[id].amount) == Ok::<Map<u128, i128>, ContractError>(m2),
        env.escrow@.escrows[id].sender != env.escrow.address,
    ensures
        refund_paid(env, id, m2),
{
    let r = env.escrow@.escrows[id];
    let m = env.tokens.balances@;
    lemma_transferred_balance(m, r.token, env.escrow.address, r.sender, r.amount, r.token, r.sender);
    lemma_transferred_balance(m, r.token, env.escrow.address, r.sender, r.amount, r.token, env.escrow.address);
}

/// Every release of an escrow to its driver (of a locked escrow, of a
/// holdback escrow, automatically after the holdback window, or by dispute
/// resolution) pays the destination the amount less the fee at the sender's
/// rate and the administrator the fee, out of the contract; every refund
/// (direct, by dispute resolution, or by reclaiming after expiry) pays the
/// sender the whole amount. The escrow is then closed with that status.
/// Stated where the payees are distinct from each other and from the
/// contract, for non-negative amounts whose product with a rate fits in
/// `i128`, and for the fee ceiling initialization enforces.
pub proof fn law_settlements_pay_the_right_parties(env: Env, caller: Address, id: u64)
    ensures
        ({
            let v = env.escrow@;
            let r = v.escrows[id];
            let to = payout_destination(env, r, id);
            let c = env.escrow.address;
            let distinct = v.admin is Some && to != c && v.admin->0 != c && to != v.admin->0
                && r.amount >= 0 && r.amount * 10000 <= i128::MAX && v.base_fee() <= 10000;
            &&& distinct && release_escrow_outcome(env, caller, id) is Ok ==>
                release_paid(env, id, release_escrow_outcome(env, caller, id)->Ok_0.1)
                && release_escrow_outcome(env, caller, id)->Ok_0.0.escrows[id] == (EscrowRecord { status: EscrowStatus::Released, ..r })
            &&& distinct && release_holdback_outcome(env, caller, id) is Ok ==>
                release_paid(env, id, release_holdback_outcome(env, caller, id)->Ok_0.1)
                && release_holdback_outcome(env, caller, id)->Ok_0.0.escrows[id] == (EscrowRecord { status: EscrowStatus::Released, ..r })
            &&& distinct && release_expired_outcome(env, id) is Ok ==>
                release_paid(env, id, release_expired_outcome(env, id)->Ok_0.1)
                && release_expired_outcome(env, id)->Ok_0.0.escrows[id] == (EscrowRecord { status: EscrowStatus::Released, ..r })
            &&& distinct && resolve_dispute_outcome(env, caller, id, true) is Ok ==>
                release_paid(env, id, resolve_dispute_outcome(env, caller, id, true)->Ok_0.1)
                && resolve_dispute_outcome(env, caller, id, true)->Ok_0.0.escrows[id] == (EscrowRecord { status: EscrowStatus::Released, ..r })
            &&& r.sender != c && resolve_dispute_outcome(env, caller, id, false) is Ok ==>
                refund_paid(env, id, resolve_dispute_outcome(env, caller, id, false)->Ok_0.1)
                && resolve_dispute_outcome(env, caller, id, false)->Ok_0.0.escrows[id] == (EscrowRecord { status: EscrowStatus::Refunded, ..r })
            &&& r.sender != c && refund_outcome(env, caller, id) is Ok ==>
                refund_paid(env, id, refund_outcome(env, caller, id)->Ok_0.2)
                && refund_outcome(env, caller, id)->Ok_0.0.escrows[id] == (EscrowRecord { status: EscrowStatus::Refunded, ..r })
            &&& r.sender != c && reclaim_outcome(env, id) is Ok ==>
                refund_paid(env, id, reclaim_outcome(env, id)->Ok_0.1)
                && reclaim_outcome(env, id)->Ok_0.0.escrows[id] == (EscrowRecord { status: EscrowStatus::Refunded, ..r })
        }),
{
    let v = env.escrow@;
    let r = v.escrows[id];
    let m = env.tokens.balances@;
    let to = payout_destination(env, r, id);
    let c = env.escrow.address;
    let distinct = v.admin is Some && to != c && v.admin->0 != c && to != v.admin->0
        && r.amount >= 0 && r.amount * 10000 <= i128::MAX && v.base_fee() <= 10000;
    if distinct && crate::escrow::release_result(env, m, r, id) is Ok {
        lemma_release_pays(env, id, crate::escrow::release_result(env, m, r, id)->Ok_0);
    }
    if r.sender != c && crate::token::transfer_result(m, r.token, c, r.sender, r.amount) is Ok {
        lemma_refund_pays(env, id, crate::token::transfer_result(m, r.token, c, r.sender, r.amount)->Ok_0);
    }
}

/// What a split of escrow `id` with `bps` basis points to the sender pays,
/// given the balances it starts from and ends with: the sender gets the
/// amount times `bps`, rounded down; the rest is the driver's share, of
/// which the destination gets all but the fee at the sender's rate (rounded
/// down) and the administrator the fee; the contract gives up the amount.
pub open spec fn split_paid(env: Env, id: u64, bps: u32, m2: Map<u128, i128>) -> bool {
    let v = env.escrow@;
    let r = v.escrows[id];
    let m = env.tokens.balances@;
    let to = payout_destination(env, r, id);
    let admin = v.admin->0;
    let c = env.escrow.address;
    let rate = spec_effective_fee(v.volume_tiers, v.base_fee(), v.volume(r.sender));
    let back = spec_calculate_fee(r.amount, bps);
    let share = r.amount - back;
    let fee = spec_calculate_fee(share as i128, rate);
    &&& back * 10000 <= r.amount * bps < back * 10000 + 10000
    &&& fee * 10000 <= share * rate < fee * 10000 + 10000
    &&& balance_in(m2, r.token, r.sender) == balance_in(m, r.token, r.sender) + back
    &&& balance_in(m2, r.token, to) == balance_in(m, r.token, to) + share - fee
    &&& balance_in(m2, r.token, admin) == balance_in(m, r.token, admin) + fee
    &&& balance_in(m2, r.token, c) == balance_in(m, r.token, c) - r.amount
}

proof fn lemma_floor_fee(amount: i128, bps: u32)
    requires
        amount >= 0,
        bps <= 10000,
        amount * 10000 <= i128::MAX,
    ensures
        ({
            let f = spec_calculate_fee(amount, bps);
            &&& f * 10000 <= amount * bps < f * 10000 + 10000
            &&& 0 <= f <= amount
        }),
{
    crate::laws::law_fee_within_amount(amount, bps);
    assert(amount * bps <= amount * 10000) by (nonlinear_arith)
        requires amount >= 0, bps <= 10000;
    assert(0 <= amount * bps) by (nonlinear_arith)
        requires amount >= 0, bps >= 0;
    let p = amount * bps;
    let f = spec_calculate_fee(amount, bps);
    assert(f == p / 10000);
    assert(f * 10000 <= p < f * 10000 + 10000) by (nonlinear_arith)
        requires f == p / 10000, p >= 0;
}

/// Every split (by the administrator, by a dispute ruling, or forced after
/// the resolution window) pays as `split_paid` says and closes the escrow
/// as split. Stated where the sender, the payout destination, the
/// administrator and the contract are four different holders, for
/// non-negative amounts whose product with a rate fits in `i128`, and for
/// the fee ceiling initialization enforces.
pub proof fn law_split_pays_the_right_parties(env: Env, caller: Address, caller_is_invoker: bool, id: u64, bps: u32)
    ensures
        ({
            let v = env.escrow@;
            let r = v.escrows[id];
            let to = payout_destination(env, r, id);
            let c = env.escrow.address;
            let distinct = v.admin is Some && to != c && v.admin->0 != c && to != v.admin->0
                && r.sender != c && r.sender != to && r.sender != v.admin->0
                && r.amount >= 0 && r.amount * 10000 <= i128::MAX && v.base_fee() <= 10000;
            distinct && split_outcome(env, caller, caller_is_invoker, id, bps) is Ok ==> {
                &&& split_paid(env, id, bps, split_outcome(env, caller, caller_is_invoker, id, bps)->Ok_0.1)
                &&& split_outcome(env, caller, caller_is_invoker, id, bps)->Ok_0.0.escrows[id]
                    == (EscrowRecord { status: EscrowStatus::Split, ..r })
            }
        }),
{
    let v = env.escrow@;
    let r = v.escrows[id];
    let m = env.tokens.balances@;
    let to = payout_destination(env, r, id);
    let admin = v.admin->0;
    let c = env.escrow.address;
    let distinct = v.admin is Some && to != c && admin != c && to != admin
        && r.sender != c && r.sender != to && r.sender != admin
        && r.amount >= 0 && r.amount * 10000 <= i128::MAX && v.base_fee() <= 10000;
    if distinct && split_outcome(env, caller, caller_is_invoker, id, bps) is Ok {
        assert(bps <= 10000);
        let rate = spec_effective_fee(v.volume_tiers, v.base_fee(), v.volume(r.sender));
        crate::laws::law_effective_fee_at_most_base(v.volume_tiers, v.base_fee(), v.volume(r.sender));
        lemma_floor_fee(r.amount, bps);
        let back = spec_calculate_fee(r.amount, bps);
        let share = crate::escrow::sat_sub(r.amount, back);
        assert(share == r.amount - back);
        lemma_floor_fee(share, rate);
        let fee = spec_calculate_fee(share, rate);
        let net = crate::escrow::sat_sub(share, fee);
        assert(net == share - fee);
        let m1 = if back > 0 { crate::token::transfer_result(m, r.token, c, r.sender, back)->Ok_0 } else { m };
        if back > 0 {
            lemma_transferred_balance(m, r.token, c, r.sender, back, r.token, r.sender);
            lemma_transferred_balance(m, r.token, c, r.sender, back, r.token, to);
            lemma_transferred_balance(m, r.token, c, r.sender, back, r.token, admin);
            lemma_transferred_balance(m, r.token, c, r.sender, back, r.token, c);
        }
        let m2 = crate::escrow::payout_result(env, m1, r, id, net)->Ok_0;
        if net > 0 {
            assert(crate::escrow::payout_target(env, r, id)->Ok_0 == to);
            lemma_transferred_balance(m1, r.token, c, to, net, r.token, r.sender);
            lemma_transferred_balance(m1, r.token, c, to, net, r.token, to);
            lemma_transferred_balance(m1, r.token, c, to, net, r.token, admin);
            lemma_transferred_balance(m1, r.token, c, to, net, r.token, c);
        }
        if fee > 0 {
            lemma_transferred_balance(m2, r.token, c, admin, fee, r.token, r.sender);
            lemma_transferred_balance(m2, r.token, c, admin, fee, r.token, to);
            lemma_transferred_balance(m2, r.token, c, admin, fee, r.token, admin);
            lemma_transferred_balance(m2, r.token, c, admin, fee, r.token, c);
        }
    }
}

/// A party may force a dispute's resolution only after the resolution
/// window has passed since it was raised (strictly after the time it was
/// raised plus the window), and only while its escrow is paused; the forced
/// resolution splits the escrow evenly between sender and driver, as a
/// split of 5000 basis points pays.
pub proof fn law_forced_resolution(env: Env, caller: Address, id: u64)
    ensures
        force_outcome(env, caller, id) is Ok ==> {
            let case = env.dispute@.disputes[id];
            let d = env.delivery@.deliveries[id];
            &&& env.dispute@.disputes.contains_key(id)
            &&& env.timestamp > capped_sum(case.raised_at, env.dispute.resolution_limit)
            &&& (caller == d.sender || caller == d.recipient || d.driver == Some(caller))
            &&& force_outcome(env, caller, id) == split_outcome(env, env.dispute.address, true, id, 5000)
        },
{
}

/// Who may move an escrow: a release (of a locked or holdback escrow) needs
/// the recipient or the administrator; a refund needs the administrator, or
/// the sender while the escrow is still locked; confirming delivery needs
/// the recipient; a dispute needs the sender, the recipient or the driver;
/// resolving a dispute needs the administrator, and splitting the
/// administrator or the configured dispute contract. Each also needs the
/// caller's authorization (or, for a split, the dispute contract calling).
pub proof fn law_who_may_move_an_escrow(env: Env, caller: Address, caller_is_invoker: bool, id: u64, to_driver: bool, bps: u32)
    ensures
        ({
            let v = env.escrow@;
            let r = v.escrows[id];
            let admin = v.admin == Some(caller);
            &&& release_escrow_outcome(env, caller, id) is Ok ==> env.authorizes(caller) && (admin || caller == r.recipient)
            &&& release_holdback_outcome(env, caller, id) is Ok ==> env.authorizes(caller) && (admin || caller == r.recipient)
            &&& refund_outcome(env, caller, id) is Ok ==> env.authorizes(caller)
                && (admin || (caller == r.sender && r.status == EscrowStatus::Locked))
            &&& holdback_mark_error(env, caller, id) is None ==> env.authorizes(caller) && caller == r.recipient
            &&& escrow_dispute_error(env, caller, id) is None ==> env.authorizes(caller)
                && (caller == r.sender || caller == r.recipient || caller == r.driver)
            &&& resolve_dispute_outcome(env, caller, id, to_driver) is Ok ==> env.authorizes(caller) && admin
            &&& split_outcome(env, caller, caller_is_invoker, id, bps) is Ok ==> (caller_is_invoker || env.authorizes(caller))
                && (admin || v.dispute_contract == Some(caller))
        }),
{
}

} // verus!
