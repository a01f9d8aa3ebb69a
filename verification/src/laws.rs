//! Properties of the protocol that span several operations or hold for
//! every input, proved over the contracts' specifications.
use vstd::prelude::*;
use crate::types::{Address, ContractError, DeliveryMetadata, DeliveryStatus, EscrowStatus, FaniLabError};
use crate::env::Env;
use crate::escrow::{
    spec_calculate_fee, sat_sub, spec_effective_fee, release_escrow_outcome, refund_outcome, holdback_mark_error,
    escrow_dispute_error, resolve_dispute_outcome, split_outcome, release_holdback_outcome, release_expired_outcome,
    reclaim_outcome, create_escrow_outcome, batch_outcome, EscrowView, fani_err,
};
use crate::identity::{
    spec_reputation_up, spec_reputation_down, spec_tier, DriverTier, MAX_REPUTATION, increase_reputation_outcome,
    award_reputation_outcome, decrease_reputation_outcome,
};
use crate::delivery::{
    transition_allowed, create_delivery_error, created_view, batch_error, batch_view, batch_ids, new_delivery,
    lemma_batch_records,
};
use crate::dispute::{party_count, EvidenceEntry, MAX_EVIDENCE_HASHES_PER_PARTY};
use crate::token::{transfer_error, transferred, balance_in};

verus! {

/// The platform fee on a non-negative amount at a rate of at most 100%
/// is between zero and the amount, so the driver's share (the amount less
/// the fee) is non-negative and the two add up to the amount.
pub proof fn law_fee_within_amount(amount: i128, bps: u32)
    requires
        0 <= amount,
        bps <= 10000,
    ensures
        0 <= spec_calculate_fee(amount, bps) <= amount,
        0 <= sat_sub(amount, spec_calculate_fee(amount, bps)),
        sat_sub(amount, spec_calculate_fee(amount, bps)) + spec_calculate_fee(amount, bps) == amount,
{
    assert(0 <= amount * bps <= amount * 10000) by (nonlinear_arith)
        requires 0 <= amount, 0 <= bps <= 10000;
    if amount * bps <= i128::MAX {
        let p = amount * bps;
        assert(p / 10000 <= amount) by (nonlinear_arith)
            requires 0 <= p <= amount * 10000;
    } else {
        assert(i128::MAX / 10000 <= amount) by (nonlinear_arith)
            requires amount * bps > i128::MAX, 0 <= bps <= 10000, 0 <= amount;
    }
}

/// A split of a non-negative escrow amount pays out exactly the amount:
/// the sender's share, the driver's net share and the platform fee are
/// each non-negative and sum to the escrow amount.
pub proof fn law_split_conserves_amount(amount: i128, sender_share_bps: u32, fee_bps: u32)
    requires
        0 <= amount,
        sender_share_bps <= 10000,
        fee_bps <= 10000,
    ensures
        ({
            let sender_amount = spec_calculate_fee(amount, sender_share_bps);
            let driver_share = sat_sub(amount, sender_amount);
            let fee = spec_calculate_fee(driver_share, fee_bps);
            let net = sat_sub(driver_share, fee);
            &&& 0 <= sender_amount
            &&& 0 <= fee
            &&& 0 <= net
            &&& sender_amount + fee + net == amount
        }),
{
    law_fee_within_amount(amount, sender_share_bps);
    let sender_amount = spec_calculate_fee(amount, sender_share_bps);
    let driver_share = sat_sub(amount, sender_amount);
    law_fee_within_amount(driver_share, fee_bps);
}

/// Volume discounts only ever lower the fee: the effective rate never
/// exceeds the base rate.
pub proof fn law_effective_fee_at_most_base(tiers: Seq<crate::escrow::VolumeTier>, base: u32, volume: u32)
    ensures
        spec_effective_fee(tiers, base, volume) <= base,
    decreases tiers.len(),
{
    if tiers.len() > 0 {
        law_effective_fee_at_most_base(tiers.drop_last(), base, volume);
    }
}

/// Raising a score never exceeds `MAX_REPUTATION` and never lowers a
/// score within range; lowering never goes below zero nor above the old
/// score.
pub proof fn law_reputation_bounds(score: u32, points: u32)
    ensures
        spec_reputation_up(score, points) <= MAX_REPUTATION,
        score <= MAX_REPUTATION ==> score <= spec_reputation_up(score, points),
        spec_reputation_down(score, points) <= score,
        score >= points ==> spec_reputation_down(score, points) == score - points,
{
}

/// Every reputation change keeps a driver's score within
/// `0..=MAX_REPUTATION` when it was within it: delivery credits and dispute
/// awards are capped, penalties floor at zero.
pub proof fn law_reputation_stays_capped(env: Env, caller: Address, caller_is_invoker: bool, driver: Address, weight_grams: u32, fragile: bool, points: u32)
    requires
        env.identity@.drivers.contains_key(driver.id) ==> env.identity@.drivers[driver.id].reputation_score <= MAX_REPUTATION,
    ensures
        increase_reputation_outcome(env, caller, caller_is_invoker, driver, weight_grams, fragile) is Ok ==>
            increase_reputation_outcome(env, caller, caller_is_invoker, driver, weight_grams, fragile)->Ok_0.reputation_score <= MAX_REPUTATION,
        award_reputation_outcome(env, caller, caller_is_invoker, driver, points) is Ok ==>
            award_reputation_outcome(env, caller, caller_is_invoker, driver, points)->Ok_0.reputation_score <= MAX_REPUTATION,
        decrease_reputation_outcome(env, caller, caller_is_invoker, driver, points) is Ok ==>
            decrease_reputation_outcome(env, caller, caller_is_invoker, driver, points)->Ok_0.reputation_score <= MAX_REPUTATION,
{
}

/// Tier order of a tier: Bronze below Silver below Gold.
pub open spec fn tier_rank(t: DriverTier) -> int {
    match t {
        DriverTier::Bronze => 0,
        DriverTier::Silver => 1,
        DriverTier::Gold => 2,
    }
}

/// A higher score never gives a lower tier.
pub proof fn law_tier_monotone(a: u32, b: u32)
    requires
        a <= b,
    ensures
        tier_rank(spec_tier(a)) <= tier_rank(spec_tier(b)),
{
}

/// The delivery state machine: a cancelled delivery never changes again,
/// no status leads back to pending, and no transition stays in place.
pub proof fn law_delivery_state_machine(from: DeliveryStatus, to: DeliveryStatus)
    ensures
        !transition_allowed(DeliveryStatus::Cancelled, to),
        !transition_allowed(from, DeliveryStatus::Pending),
        !transition_allowed(from, from),
        transition_allowed(from, DeliveryStatus::Delivered) ==>
            from == DeliveryStatus::InTransit || from == DeliveryStatus::Disputed,
{
}

/// Creating a delivery uses a fresh id, one past every id before it, and
/// the stored metadata carries that id whatever the caller supplied; the
/// new delivery is pending and has no driver.
pub proof fn law_delivery_ids_fresh(env: Env, sender: Address, recipient: Address, metadata: DeliveryMetadata)
    requires
        env.delivery@.wf(),
        create_delivery_error(env, sender, recipient, metadata) is None,
    ensures
        ({
            let id = (env.delivery.counter + 1) as u64;
            let v = created_view(env, sender, recipient, metadata);
            &&& !env.delivery@.deliveries.contains_key(id)
            &&& forall|k: u64| env.delivery@.deliveries.contains_key(k) ==> k < id
            &&& v.wf()
            &&& v.deliveries[id].metadata.delivery_id == id
            &&& v.deliveries[id].status == DeliveryStatus::Pending
            &&& v.deliveries[id].driver is None
        }),
{
}

/// A batch hands out consecutive fresh ids, one per metadata in order,
/// each stored with its own metadata and id.
pub proof fn law_batch_ids_fresh(env: Env, sender: Address, recipient: Address, list: Seq<DeliveryMetadata>)
    requires
        env.delivery@.wf(),
        batch_error(env, sender, recipient, list) is None,
    ensures
        ({
            let c = env.delivery.counter;
            let ids = batch_ids(c, list.len());
            let v = batch_view(env, sender, recipient, list);
            &&& v.wf()
            &&& forall|i: int| 0 <= i < list.len() ==> !env.delivery@.deliveries.contains_key(#[trigger] ids[i])
            &&& forall|i: int, j: int| 0 <= i < j < list.len() ==> #[trigger] ids[i] < #[trigger] ids[j]
            &&& forall|i: int| 0 <= i < list.len() ==>
                v.deliveries[#[trigger] ids[i]] == new_delivery(ids[i], sender, recipient, list[i], env.timestamp)
        }),
{
    let c = env.delivery.counter;
    lemma_batch_records(env.delivery@.deliveries, c, sender, recipient, list, env.timestamp);
    let v = batch_view(env, sender, recipient, list);
    assert forall|k: u64| v.deliveries.contains_key(k) implies 1 <= k <= v.counter by {
        if env.delivery@.deliveries.contains_key(k) {
            assert(k <= c);
        }
    };
    assert forall|i: int| 0 <= i < list.len() implies
        v.deliveries[#[trigger] batch_ids(c, list.len())[i]] == new_delivery(batch_ids(c, list.len())[i], sender, recipient, list[i], env.timestamp) by {
        let k = batch_ids(c, list.len())[i];
        assert(k == c + 1 + i);
        assert(k - c - 1 == i);
    };
}

/// A settled escrow (released, refunded or split) is final: every
/// operation that would move its funds or change its status is refused.
pub proof fn law_closed_escrow_is_final(env: Env, caller: Address, caller_is_invoker: bool, id: u64, release_to_driver: bool, sender_share_bps: u32)
    requires
        env.escrow@.escrows.contains_key(id),
        env.escrow@.escrows[id].status == EscrowStatus::Released
            || env.escrow@.escrows[id].status == EscrowStatus::Refunded
            || env.escrow@.escrows[id].status == EscrowStatus::Split,
    ensures
        release_escrow_outcome(env, caller, id) is Err,
        release_holdback_outcome(env, caller, id) is Err,
        release_expired_outcome(env, id) is Err,
        refund_outcome(env, caller, id) is Err,
        reclaim_outcome(env, id) is Err,
        holdback_mark_error(env, caller, id) is Some,
        escrow_dispute_error(env, caller, id) is Some,
        resolve_dispute_outcome(env, caller, id, release_to_driver) is Err,
        split_outcome(env, caller, caller_is_invoker, id, sender_share_bps) is Err,
{
}

/// No party ever holds more than `MAX_EVIDENCE_HASHES_PER_PARTY` evidence
/// entries on a dispute: an accepted entry (its submitter had fewer) keeps
/// every party within the cap.
pub proof fn law_evidence_cap(s: Seq<EvidenceEntry>, e: EvidenceEntry, a: Address)
    requires
        party_count(s, a) <= MAX_EVIDENCE_HASHES_PER_PARTY,
        party_count(s, e.submitter) < MAX_EVIDENCE_HASHES_PER_PARTY,
    ensures
        party_count(s.push(e), a) <= MAX_EVIDENCE_HASHES_PER_PARTY,
        party_count(s.push(e), a) == party_count(s, a) + if e.submitter == a { 1nat } else { 0nat },
{
    assert(s.push(e).drop_last() =~= s);
}

/// A token transfer moves exactly the amount: the payer's balance falls
/// and the payee's rises by it, so their total is unchanged.
pub proof fn law_transfer_conserves(m: Map<u128, i128>, token: Address, from: Address, to: Address, amount: i128)
    requires
        transfer_error(m, token, from, to, amount) is None,
    ensures
        from != to ==> balance_in(transferred(m, token, from, to, amount), token, from) == balance_in(m, token, from) - amount,
        from != to ==> balance_in(transferred(m, token, from, to, amount), token, to) == balance_in(m, token, to) + amount,
        balance_in(transferred(m, token, from, to, amount), token, from) + balance_in(transferred(m, token, from, to, amount), token, to)
            == balance_in(m, token, from) + balance_in(m, token, to) || from == to,
{
    if from != to {
        crate::types::lemma_pair_key_injective(token.id, from.id, token.id, to.id);
    }
}

/// Once the recipient has confirmed delivery (the escrow is in holdback),
/// the sender can no longer take the funds back: only the administrator may
/// refund it, it cannot be reclaimed as expired, and the plain release of a
/// locked escrow no longer applies to it.
pub proof fn law_holdback_refund_needs_admin(env: Env, caller: Address, id: u64)
    requires
        env.escrow@.escrows.contains_key(id),
        env.escrow@.escrows[id].status == EscrowStatus::Holdback,
    ensures
        refund_outcome(env, caller, id) is Ok ==> env.escrow@.admin == Some(caller),
        reclaim_outcome(env, id) is Err,
        release_escrow_outcome(env, caller, id) is Err,
{
}

/// While the protocol is paused no escrow is created and no escrow's funds
/// move: every such operation is refused (after the caller's own
/// authorization) with `ProtocolPaused`.
pub proof fn law_paused_moves_no_funds(env: Env, caller: Address, caller_is_invoker: bool, id: u64, release_to_driver: bool, sender_share_bps: u32, recipient: Address, driver: Address, token: Address, amount: i128, fleet_id: Option<u64>, list: Seq<(u64, Address, i128, Option<u64>)>)
    requires
        env.escrow@.paused,
        env.authorizes(caller),
    ensures
        release_escrow_outcome(env, caller, id) == Err::<(EscrowView, Map<u128, i128>), ContractError>(fani_err(FaniLabError::ProtocolPaused)),
        release_holdback_outcome(env, caller, id) == Err::<(EscrowView, Map<u128, i128>), ContractError>(fani_err(FaniLabError::ProtocolPaused)),
        release_expired_outcome(env, id) == Err::<(EscrowView, Map<u128, i128>), ContractError>(fani_err(FaniLabError::ProtocolPaused)),
        refund_outcome(env, caller, id) is Err,
        refund_outcome(env, caller, id)->Err_0 == fani_err(FaniLabError::ProtocolPaused),
        resolve_dispute_outcome(env, caller, id, release_to_driver)
            == Err::<(EscrowView, Map<u128, i128>), ContractError>(fani_err(FaniLabError::ProtocolPaused)),
        split_outcome(env, caller, caller_is_invoker, id, sender_share_bps)
            == Err::<(EscrowView, Map<u128, i128>), ContractError>(fani_err(FaniLabError::ProtocolPaused)),
        reclaim_outcome(env, id) == Err::<(EscrowView, Map<u128, i128>), ContractError>(fani_err(FaniLabError::ProtocolPaused)),
        holdback_mark_error(env, caller, id) == Some(fani_err(FaniLabError::ProtocolPaused)),
        escrow_dispute_error(env, caller, id) == Some(fani_err(FaniLabError::ProtocolPaused)),
        create_escrow_outcome(env, caller, recipient, driver, id, token, amount, fleet_id)
            == Err::<(EscrowView, Map<u128, i128>), ContractError>(fani_err(FaniLabError::ProtocolPaused)),
        batch_outcome(env, caller, recipient, token, list)
            == Err::<(EscrowView, Map<u128, i128>), ContractError>(fani_err(FaniLabError::ProtocolPaused)),
{
}

} // verus!
