//! The escrow contract's locked totals against the escrows it holds: for
//! every token, the recorded total equals the sum of the amounts of the
//! escrows in that token that are still open, and every escrow operation
//! keeps it so; and the contract always holds at least those totals.
use vstd::prelude::*;
use crate::types::{Address, EscrowRecord, EscrowStatus};
use crate::env::Env;
use crate::escrow::{
    EscrowView, closed_view, sat_add, sat_sub, holdback_mark_error, holdback_view, escrow_dispute_error, disputed_view,
    frozen_view, release_escrow_outcome, release_holdback_outcome, release_expired_outcome, refund_outcome,
    resolve_dispute_outcome, split_outcome, reclaim_outcome, open_escrow, create_escrow_outcome, batch_run,
    batch_outcome, payout_snapshot, payout_result, fee_result, release_result, split_result, spec_calculate_fee,
    spec_effective_fee, payout_target, MAX_PLATFORM_FEE_BPS,
};
use crate::laws::{law_fee_within_amount, law_split_conserves_amount, law_effective_fee_at_most_base};
use crate::token::{transfer_error, transfer_result, transferred, balance_in};
use crate::types::lemma_pair_key_injective;

verus! {

/// Whether an escrow in `s` still holds its funds.
pub open spec fn is_open(s: EscrowStatus) -> bool {
    s == EscrowStatus::Locked || s == EscrowStatus::Holdback || s == EscrowStatus::Paused
}

/// What escrow `k` contributes to the locked total of token `t`.
pub open spec fn open_amount(e: Map<u64, EscrowRecord>, k: u64, t: u64) -> int {
    if e.contains_key(k) && e[k].token.id == t && is_open(e[k].status) {
        e[k].amount as int
    } else {
        0
    }
}

/// The open amounts in token `t` of the escrows with ids in `keys`.
pub open spec fn open_sum(e: Map<u64, EscrowRecord>, keys: Set<u64>, t: u64) -> int
    decreases keys.len(),
    when keys.finite()
{
    if keys.len() == 0 {
        0
    } else {
        let k = keys.choose();
        open_amount(e, k, t) + open_sum(e, keys.remove(k), t)
    }
}

/// Any member can be taken out of the sum first.
pub proof fn lemma_open_sum_remove(e: Map<u64, EscrowRecord>, keys: Set<u64>, k: u64, t: u64)
    requires
        keys.finite(),
        keys.contains(k),
    ensures
        open_sum(e, keys, t) == open_amount(e, k, t) + open_sum(e, keys.remove(k), t),
    decreases keys.len(),
{
    let c = keys.choose();
    if c != k {
        lemma_open_sum_remove(e, keys.remove(c), k, t);
        lemma_open_sum_remove(e, keys.remove(k), c, t);
        assert(keys.remove(c).remove(k) =~= keys.remove(k).remove(c));
    }
}

/// Sums over the same keys agree when each key contributes the same.
pub proof fn lemma_open_sum_frame(e1: Map<u64, EscrowRecord>, e2: Map<u64, EscrowRecord>, keys: Set<u64>, t: u64)
    requires
        keys.finite(),
        forall|k: u64| keys.contains(k) ==> open_amount(e1, k, t) == open_amount(e2, k, t),
    ensures
        open_sum(e1, keys, t) == open_sum(e2, keys, t),
    decreases keys.len(),
{
    if keys.len() > 0 {
        let c = keys.choose();
        lemma_open_sum_frame(e1, e2, keys.remove(c), t);
    }
}

/// With non-negative amounts the sum is non-negative.
pub proof fn lemma_open_sum_nonneg(e: Map<u64, EscrowRecord>, keys: Set<u64>, t: u64)
    requires
        keys.finite(),
        forall|k: u64| e.contains_key(k) ==> e[k].amount >= 0,
    ensures
        open_sum(e, keys, t) >= 0,
    decreases keys.len(),
{
    if keys.len() > 0 {
        let c = keys.choose();
        lemma_open_sum_nonneg(e, keys.remove(c), t);
    }
}

/// Replacing (or adding) the escrow `id` changes the sum over all escrows
/// by the difference of what `id` contributes.
pub proof fn lemma_open_sum_update(e: Map<u64, EscrowRecord>, id: u64, rec: EscrowRecord, t: u64)
    requires
        e.dom().finite(),
    ensures
        open_sum(e.insert(id, rec), e.insert(id, rec).dom(), t)
            == open_sum(e, e.dom(), t) - open_amount(e, id, t) + open_amount(e.insert(id, rec), id, t),
{
    let e2 = e.insert(id, rec);
    let d = e.dom();
    let d2 = e2.dom();
    assert(d2.finite());
    lemma_open_sum_remove(e2, d2, id, t);
    assert(d2.remove(id) =~= d.remove(id));
    lemma_open_sum_frame(e2, e, d.remove(id), t);
    if d.contains(id) {
        lemma_open_sum_remove(e, d, id, t);
    } else {
        assert(d.remove(id) =~= d);
    }
}

/// The escrow contract's accounting invariant: finitely many escrows, none
/// with a negative amount, and for every token the recorded locked total is
/// the sum of the amounts of the open escrows in that token.
pub open spec fn locked_matches_open(v: EscrowView) -> bool {
    &&& v.escrows.dom().finite()
    &&& forall|k: u64| v.escrows.contains_key(k) ==> v.escrows[k].amount >= 0
    &&& forall|a: Address| #[trigger] v.locked(a) == open_sum(v.escrows, v.escrows.dom(), a.id)
}

/// A contract with no escrows and no locked totals, as deployed, satisfies
/// the accounting invariant.
pub proof fn law_locked_total_starts_balanced(v: EscrowView)
    requires
        v.escrows == Map::<u64, EscrowRecord>::empty(),
        v.total_locked == Map::<u64, i128>::empty(),
    ensures
        locked_matches_open(v),
{
    assert(v.escrows.dom() =~= Set::<u64>::empty());
}

/// Closing an open escrow takes exactly its amount out of its token's
/// locked total.
pub proof fn lemma_close_keeps(v: EscrowView, id: u64, status: EscrowStatus, counts: bool)
    requires
        locked_matches_open(v),
        v.escrows.contains_key(id),
        is_open(v.escrows[id].status),
        !is_open(status),
    ensures
        locked_matches_open(closed_view(v, id, v.escrows[id], status, counts)),
{
    let r = v.escrows[id];
    let w = closed_view(v, id, r, status, counts);
    let rec2 = EscrowRecord { status, ..r };
    assert(w.escrows == v.escrows.insert(id, rec2));
    assert(w.escrows.dom() =~= v.escrows.dom());
    assert forall|a: Address| #[trigger] w.locked(a) == open_sum(w.escrows, w.escrows.dom(), a.id) by {
        lemma_open_sum_update(v.escrows, id, rec2, a.id);
        assert(open_amount(v.escrows.insert(id, rec2), id, a.id) == 0);
        if a.id == r.token.id {
            lemma_open_sum_remove(v.escrows, v.escrows.dom(), id, a.id);
            lemma_open_sum_nonneg(v.escrows, v.escrows.dom().remove(id), a.id);
            assert(a == r.token);
            let total = v.locked(r.token);
            let rest = open_sum(v.escrows, v.escrows.dom().remove(id), a.id);
            assert(open_amount(v.escrows, id, a.id) == r.amount);
            assert(total == r.amount + rest);
            assert(w.locked(a) == sat_sub(total, r.amount));
            assert(sat_sub(total, r.amount) == rest);
        } else {
            assert(open_amount(v.escrows, id, a.id) == 0);
            assert(w.locked(a) == v.locked(a));
        }
    };
}

/// Moving an open escrow to another open status, with its token and amount
/// unchanged, leaves every locked total right.
pub proof fn lemma_reopen_keeps(v: EscrowView, w: EscrowView, id: u64, rec: EscrowRecord)
    requires
        locked_matches_open(v),
        v.escrows.contains_key(id),
        is_open(v.escrows[id].status),
        is_open(rec.status),
        rec.token == v.escrows[id].token,
        rec.amount == v.escrows[id].amount,
        w.escrows == v.escrows.insert(id, rec),
        w.total_locked == v.total_locked,
    ensures
        locked_matches_open(w),
{
    assert(w.escrows.dom() =~= v.escrows.dom());
    assert forall|a: Address| #[trigger] w.locked(a) == open_sum(w.escrows, w.escrows.dom(), a.id) by {
        lemma_open_sum_update(v.escrows, id, rec, a.id);
        assert(w.locked(a) == v.locked(a));
    };
}

/// Every operation that settles or changes an escrow keeps the locked
/// totals equal to the open escrows' amounts: releasing, refunding,
/// splitting, resolving or reclaiming an escrow takes exactly its amount out
/// of its token's total; confirming delivery, disputing or freezing it
/// changes no total.
pub proof fn law_locked_total_tracks_open_escrows(env: Env, caller: Address, caller_is_invoker: bool, id: u64, release_to_driver: bool, sender_share_bps: u32)
    requires
        locked_matches_open(env.escrow@),
    ensures
        release_escrow_outcome(env, caller, id) is Ok ==> locked_matches_open(release_escrow_outcome(env, caller, id)->Ok_0.0),
        release_holdback_outcome(env, caller, id) is Ok ==> locked_matches_open(release_holdback_outcome(env, caller, id)->Ok_0.0),
        release_expired_outcome(env, id) is Ok ==> locked_matches_open(release_expired_outcome(env, id)->Ok_0.0),
        refund_outcome(env, caller, id) is Ok ==> locked_matches_open(refund_outcome(env, caller, id)->Ok_0.0),
        resolve_dispute_outcome(env, caller, id, release_to_driver) is Ok
            ==> locked_matches_open(resolve_dispute_outcome(env, caller, id, release_to_driver)->Ok_0.0),
        split_outcome(env, caller, caller_is_invoker, id, sender_share_bps) is Ok
            ==> locked_matches_open(split_outcome(env, caller, caller_is_invoker, id, sender_share_bps)->Ok_0.0),
        reclaim_outcome(env, id) is Ok ==> locked_matches_open(reclaim_outcome(env, id)->Ok_0.0),
        holdback_mark_error(env, caller, id) is None ==> locked_matches_open(holdback_view(env, id)),
        escrow_dispute_error(env, caller, id) is None ==> locked_matches_open(disputed_view(env, caller, id)),
        env.escrow@.escrows.contains_key(id) ==> locked_matches_open(frozen_view(env, id)),
{
    let v = env.escrow@;
    if v.escrows.contains_key(id) {
        let r = v.escrows[id];
        if is_open(r.status) {
            lemma_close_keeps(v, id, EscrowStatus::Released, true);
            lemma_close_keeps(v, id, EscrowStatus::Refunded, false);
            lemma_close_keeps(v, id, EscrowStatus::Split, true);
            lemma_reopen_keeps(v, holdback_view(env, id), id, holdback_view(env, id).escrows[id]);
            lemma_reopen_keeps(v, disputed_view(env, caller, id), id, disputed_view(env, caller, id).escrows[id]);
            if r.status == EscrowStatus::Locked || r.status == EscrowStatus::Holdback {
                lemma_reopen_keeps(v, frozen_view(env, id), id, frozen_view(env, id).escrows[id]);
            }
        }
    }
}

/// The amounts of a batch's entries, added up.
pub open spec fn batch_amount(list: Seq<(u64, Address, i128, Option<u64>)>) -> int
    decreases list.len(),
{
    if list.len() == 0 {
        0
    } else {
        batch_amount(list.drop_last()) + list.last().2
    }
}

/// Funding a new escrow of a non-negative amount adds exactly that amount
/// to its token's locked total, when the total does not overflow.
pub proof fn lemma_fund_sums(v: EscrowView, w: EscrowView, id: u64, rec: EscrowRecord)
    requires
        v.escrows.dom().finite(),
        forall|k: u64| v.escrows.contains_key(k) ==> v.escrows[k].amount >= 0,
        !v.escrows.contains_key(id),
        is_open(rec.status),
        rec.amount >= 0,
        w.escrows == v.escrows.insert(id, rec),
    ensures
        w.escrows.dom().finite(),
        forall|k: u64| w.escrows.contains_key(k) ==> w.escrows[k].amount >= 0,
        forall|a: Address| #[trigger] open_sum(w.escrows, w.escrows.dom(), a.id)
            == open_sum(v.escrows, v.escrows.dom(), a.id) + if a.id == rec.token.id { rec.amount as int } else { 0 },
{
    assert forall|a: Address| #[trigger] open_sum(w.escrows, w.escrows.dom(), a.id)
        == open_sum(v.escrows, v.escrows.dom(), a.id) + if a.id == rec.token.id { rec.amount as int } else { 0 } by {
        lemma_open_sum_update(v.escrows, id, rec, a.id);
    };
}

/// A successful batch adds, for the batch's token, exactly the sum of its
/// amounts to the open escrows, and reports that sum as its running total;
/// it leaves the locked totals themselves alone.
pub proof fn lemma_batch_sums(v: EscrowView, m: Map<u128, i128>, contract: Address, sender: Address, recipient: Address, token: Address, list: Seq<(u64, Address, i128, Option<u64>)>, now: u64)
    requires
        v.escrows.dom().finite(),
        forall|k: u64| v.escrows.contains_key(k) ==> v.escrows[k].amount >= 0,
        batch_run(v, m, contract, sender, recipient, token, list, now) is Ok,
        batch_amount(list) <= i128::MAX,
    ensures
        ({
            let (w, _m, t) = batch_run(v, m, contract, sender, recipient, token, list, now)->Ok_0;
            &&& w.escrows.dom().finite()
            &&& forall|k: u64| w.escrows.contains_key(k) ==> w.escrows[k].amount >= 0
            &&& w.total_locked == v.total_locked
            &&& t == batch_amount(list)
            &&& 0 <= t
            &&& forall|a: Address| #[trigger] open_sum(w.escrows, w.escrows.dom(), a.id)
                == open_sum(v.escrows, v.escrows.dom(), a.id) + if a.id == token.id { t as int } else { 0 }
        }),
    decreases list.len(),
{
    if list.len() > 0 {
        let prefix = list.drop_last();
        let (v1, m1, t1) = batch_run(v, m, contract, sender, recipient, token, prefix, now)->Ok_0;
        let (id, driver, amount, fleet_id) = list.last();
        assert(amount > 0);
        assert(batch_amount(prefix) <= i128::MAX);
        lemma_batch_sums(v, m, contract, sender, recipient, token, prefix, now);
        let w = batch_run(v, m, contract, sender, recipient, token, list, now)->Ok_0.0;
        let rec = w.escrows[id];
        assert(w.escrows == v1.escrows.insert(id, rec));
        lemma_fund_sums(v1, w, id, rec);
        assert forall|a: Address| #[trigger] open_sum(w.escrows, w.escrows.dom(), a.id)
            == open_sum(v.escrows, v.escrows.dom(), a.id) + if a.id == token.id { (t1 + amount) as int } else { 0 } by {
            assert(open_sum(w.escrows, w.escrows.dom(), a.id)
                == open_sum(v1.escrows, v1.escrows.dom(), a.id) + if a.id == rec.token.id { rec.amount as int } else { 0 });
            assert(open_sum(v1.escrows, v1.escrows.dom(), a.id)
                == open_sum(v.escrows, v.escrows.dom(), a.id) + if a.id == token.id { t1 as int } else { 0 });
        };
    }
}

/// Creating escrows keeps the locked totals equal to the open escrows'
/// amounts: a single escrow adds its amount to its token's total, a batch
/// the sum of its amounts. (A total that would pass `i128::MAX` is held
/// there instead, so the law is stated for totals that fit.)
pub proof fn law_locked_total_tracks_new_escrows(env: Env, sender: Address, recipient: Address, driver: Address, id: u64, token: Address, amount: i128, fleet_id: Option<u64>, list: Seq<(u64, Address, i128, Option<u64>)>)
    requires
        locked_matches_open(env.escrow@),
    ensures
        create_escrow_outcome(env, sender, recipient, driver, id, token, amount, fleet_id) is Ok
            && env.escrow@.locked(token) + amount <= i128::MAX
            ==> locked_matches_open(create_escrow_outcome(env, sender, recipient, driver, id, token, amount, fleet_id)->Ok_0.0),
        batch_outcome(env, sender, recipient, token, list) is Ok
            && env.escrow@.locked(token) + batch_amount(list) <= i128::MAX
            ==> locked_matches_open(batch_outcome(env, sender, recipient, token, list)->Ok_0.0),
{
    let v = env.escrow@;
    if create_escrow_outcome(env, sender, recipient, driver, id, token, amount, fleet_id) is Ok
        && v.locked(token) + amount <= i128::MAX {
        let w = create_escrow_outcome(env, sender, recipient, driver, id, token, amount, fleet_id)->Ok_0.0;
        let v1 = open_escrow(v, env.tokens.balances@, env.escrow.address, id, sender, recipient, driver, token, amount,
            fleet_id, payout_snapshot(env, driver, fleet_id), env.timestamp)->Ok_0.0;
        assert(w == v1.with_locked(token, sat_add(v1.locked(token), amount)));
        let rec = w.escrows[id];
        assert(rec.token == token && rec.amount == amount);
        assert(v1.locked(token) == v.locked(token));
        assert(w.escrows == v.escrows.insert(id, rec));
        lemma_fund_sums(v, w, id, rec);
        lemma_open_sum_nonneg(v.escrows, v.escrows.dom(), token.id);
        assert(sat_add(v1.locked(token), amount) == v.locked(token) + amount);
        assert(v1.total_locked == v.total_locked);
        assert forall|a: Address| #[trigger] w.locked(a) == open_sum(w.escrows, w.escrows.dom(), a.id) by {
            assert(open_sum(w.escrows, w.escrows.dom(), a.id)
                == open_sum(v.escrows, v.escrows.dom(), a.id) + if a.id == rec.token.id { rec.amount as int } else { 0 });
            assert(v.locked(a) == open_sum(v.escrows, v.escrows.dom(), a.id));
            if a.id == token.id {
                assert(a == token);
                assert(w.locked(a) == v.locked(token) + amount);
            } else {
                assert(w.locked(a) == v1.locked(a));
            }
        };
    }
    if batch_outcome(env, sender, recipient, token, list) is Ok && v.locked(token) + batch_amount(list) <= i128::MAX {
        lemma_open_sum_nonneg(v.escrows, v.escrows.dom(), token.id);
        lemma_batch_sums(v, env.tokens.balances@, env.escrow.address, sender, recipient, token, list, env.timestamp);
        let (w1, _m, t) = batch_run(v, env.tokens.balances@, env.escrow.address, sender, recipient, token, list, env.timestamp)->Ok_0;
        let w = batch_outcome(env, sender, recipient, token, list)->Ok_0.0;
        assert(w == w1.with_locked(token, sat_add(w1.locked(token), t)));
        assert(w1.locked(token) == v.locked(token));
        assert(sat_add(w1.locked(token), t) == v.locked(token) + t);
        assert forall|a: Address| #[trigger] w.locked(a) == open_sum(w.escrows, w.escrows.dom(), a.id) by {
            assert(open_sum(w1.escrows, w1.escrows.dom(), a.id)
                == open_sum(v.escrows, v.escrows.dom(), a.id) + if a.id == token.id { t as int } else { 0 });
            assert(w1.locked(a) == v.locked(a));
            if a.id == token.id {
                assert(a == token);
            }
        };
    }
}

/// The escrow contract `contract` holds, in every token, at least the
/// recorded locked total.
pub open spec fn covers(v: EscrowView, m: Map<u128, i128>, contract: Address) -> bool {
    forall|a: Address| #[trigger] v.locked(a) <= balance_in(m, a, contract)
}

/// From `m1` to `m2` the holder `contract` lost at most `x` of `token` and
/// nothing of any other token.
pub open spec fn drained_at_most(m1: Map<u128, i128>, m2: Map<u128, i128>, contract: Address, token: Address, x: int) -> bool {
    forall|a: Address| #[trigger] balance_in(m2, a, contract)
        >= balance_in(m1, a, contract) - if a.id == token.id { x } else { 0 }
}

/// A transfer out of `contract` drains it by at most the amount.
pub proof fn lemma_transfer_out(m: Map<u128, i128>, token: Address, contract: Address, to: Address, x: i128)
    requires
        transfer_error(m, token, contract, to, x) is None,
    ensures
        drained_at_most(m, transferred(m, token, contract, to, x), contract, token, x as int),
{
    assert forall|a: Address| #[trigger] balance_in(transferred(m, token, contract, to, x), a, contract)
        >= balance_in(m, a, contract) - if a.id == token.id { x as int } else { 0 } by {
        if contract != to {
            lemma_pair_key_injective(a.id, contract.id, token.id, contract.id);
            lemma_pair_key_injective(a.id, contract.id, token.id, to.id);
        }
    };
}

/// Two drains add up.
pub proof fn lemma_drain_chain(m1: Map<u128, i128>, m2: Map<u128, i128>, m3: Map<u128, i128>, contract: Address, token: Address, x: int, y: int)
    requires
        drained_at_most(m1, m2, contract, token, x),
        drained_at_most(m2, m3, contract, token, y),
    ensures
        drained_at_most(m1, m3, contract, token, x + y),
{
    assert forall|a: Address| #[trigger] balance_in(m3, a, contract)
        >= balance_in(m1, a, contract) - if a.id == token.id { x + y } else { 0 } by {
        assert(balance_in(m2, a, contract) >= balance_in(m1, a, contract) - if a.id == token.id { x } else { 0 });
        assert(balance_in(m3, a, contract) >= balance_in(m2, a, contract) - if a.id == token.id { y } else { 0 });
    };
}

/// Paying `amount` of an escrow out drains the contract by at most that
/// amount (nothing when it is not positive).
pub proof fn lemma_payout_drains(env: Env, m: Map<u128, i128>, r: EscrowRecord, id: u64, amount: i128)
    requires
        payout_result(env, m, r, id, amount) is Ok,
    ensures
        drained_at_most(m, payout_result(env, m, r, id, amount)->Ok_0, env.escrow.address, r.token,
            if amount > 0 { amount as int } else { 0 }),
{
    if amount > 0 {
        let to = payout_target(env, r, id)->Ok_0;
        lemma_transfer_out(m, r.token, env.escrow.address, to, amount);
    }
}

/// Paying a platform fee drains the contract by at most the fee.
pub proof fn lemma_fee_drains(env: Env, m: Map<u128, i128>, token: Address, fee: i128)
    requires
        fee_result(env, m, token, fee) is Ok,
    ensures
        drained_at_most(m, fee_result(env, m, token, fee)->Ok_0, env.escrow.address, token,
            if fee > 0 { fee as int } else { 0 }),
{
    if fee > 0 {
        lemma_transfer_out(m, token, env.escrow.address, env.escrow.admin->0, fee);
    }
}

/// Releasing an escrow to its driver pays out at most its amount, fee
/// included, when the fee rate is at most 100%.
pub proof fn lemma_release_drains(env: Env, m: Map<u128, i128>, r: EscrowRecord, id: u64)
    requires
        release_result(env, m, r, id) is Ok,
        r.amount >= 0,
        env.escrow@.base_fee() <= 10000,
    ensures
        drained_at_most(m, release_result(env, m, r, id)->Ok_0, env.escrow.address, r.token, r.amount as int),
{
    let v = env.escrow@;
    let rate = spec_effective_fee(v.volume_tiers, v.base_fee(), v.volume(r.sender));
    law_effective_fee_at_most_base(v.volume_tiers, v.base_fee(), v.volume(r.sender));
    law_fee_within_amount(r.amount, rate);
    let fee = spec_calculate_fee(r.amount, rate);
    let net = sat_sub(r.amount, fee);
    lemma_payout_drains(env, m, r, id, net);
    let m1 = payout_result(env, m, r, id, net)->Ok_0;
    lemma_fee_drains(env, m1, r.token, fee);
    lemma_drain_chain(m, m1, release_result(env, m, r, id)->Ok_0, env.escrow.address, r.token,
        if net > 0 { net as int } else { 0 }, if fee > 0 { fee as int } else { 0 });
}

/// Splitting an escrow pays out at most its amount: the sender's share, the
/// driver's net share and the fee.
pub proof fn lemma_split_drains(env: Env, m: Map<u128, i128>, r: EscrowRecord, id: u64, sender_share_bps: u32)
    requires
        split_result(env, m, r, id, sender_share_bps) is Ok,
        r.amount >= 0,
        sender_share_bps <= 10000,
        env.escrow@.base_fee() <= 10000,
    ensures
        drained_at_most(m, split_result(env, m, r, id, sender_share_bps)->Ok_0, env.escrow.address, r.token, r.amount as int),
{
    let v = env.escrow@;
    let rate = spec_effective_fee(v.volume_tiers, v.base_fee(), v.volume(r.sender));
    law_effective_fee_at_most_base(v.volume_tiers, v.base_fee(), v.volume(r.sender));
    law_split_conserves_amount(r.amount, sender_share_bps, rate);
    let sender_amount = spec_calculate_fee(r.amount, sender_share_bps);
    let driver_share = sat_sub(r.amount, sender_amount);
    let fee = spec_calculate_fee(driver_share, rate);
    let net = sat_sub(driver_share, fee);
    let c = env.escrow.address;
    let m1 = if sender_amount > 0 { transfer_result(m, r.token, c, r.sender, sender_amount)->Ok_0 } else { m };
    if sender_amount > 0 {
        lemma_transfer_out(m, r.token, c, r.sender, sender_amount);
    } else {
        assert(drained_at_most(m, m1, c, r.token, 0));
    }
    lemma_payout_drains(env, m1, r, id, net);
    let m2 = payout_result(env, m1, r, id, net)->Ok_0;
    lemma_fee_drains(env, m2, r.token, fee);
    lemma_drain_chain(m, m1, m2, c, r.token, sender_amount as int, if net > 0 { net as int } else { 0 });
    lemma_drain_chain(m, m2, split_result(env, m, r, id, sender_share_bps)->Ok_0, c, r.token,
        sender_amount + if net > 0 { net as int } else { 0 }, if fee > 0 { fee as int } else { 0 });
}

/// Closing an open escrow while paying out at most its amount keeps the
/// contract holding at least every locked total.
pub proof fn lemma_close_covers(v: EscrowView, m1: Map<u128, i128>, m2: Map<u128, i128>, contract: Address, id: u64, status: EscrowStatus, counts: bool)
    requires
        locked_matches_open(v),
        covers(v, m1, contract),
        v.escrows.contains_key(id),
        is_open(v.escrows[id].status),
        drained_at_most(m1, m2, contract, v.escrows[id].token, v.escrows[id].amount as int),
    ensures
        covers(closed_view(v, id, v.escrows[id], status, counts), m2, contract),
{
    let r = v.escrows[id];
    let w = closed_view(v, id, r, status, counts);
    assert forall|a: Address| #[trigger] w.locked(a) <= balance_in(m2, a, contract) by {
        assert(v.locked(a) <= balance_in(m1, a, contract));
        if a.id == r.token.id {
            assert(a == r.token);
            lemma_open_sum_remove(v.escrows, v.escrows.dom(), id, a.id);
            lemma_open_sum_nonneg(v.escrows, v.escrows.dom().remove(id), a.id);
            assert(v.locked(a) == open_sum(v.escrows, v.escrows.dom(), a.id));
            assert(w.locked(a) == sat_sub(v.locked(r.token), r.amount));
            assert(sat_sub(v.locked(r.token), r.amount) == v.locked(r.token) - r.amount);
        } else {
            assert(w.locked(a) == v.locked(a));
        }
    };
}

/// Solvency: the escrow contract always holds, in every token, at least the
/// total locked in its open escrows. Settling an escrow pays out no more
/// than that escrow's amount and takes it off the total; confirming,
/// disputing and freezing move no funds; sweeping sends away only what
/// exceeds the total. (Stated for fee rates of at most 100%, which
/// initialization and fee updates enforce with a far lower ceiling.)
pub proof fn law_escrow_stays_solvent(env: Env, caller: Address, caller_is_invoker: bool, id: u64, release_to_driver: bool, sender_share_bps: u32, token: Address, recipient: Address)
    requires
        locked_matches_open(env.escrow@),
        covers(env.escrow@, env.tokens.balances@, env.escrow.address),
        env.escrow@.base_fee() <= MAX_PLATFORM_FEE_BPS,
    ensures
        release_escrow_outcome(env, caller, id) is Ok ==>
            covers(release_escrow_outcome(env, caller, id)->Ok_0.0, release_escrow_outcome(env, caller, id)->Ok_0.1, env.escrow.address),
        release_holdback_outcome(env, caller, id) is Ok ==>
            covers(release_holdback_outcome(env, caller, id)->Ok_0.0, release_holdback_outcome(env, caller, id)->Ok_0.1, env.escrow.address),
        release_expired_outcome(env, id) is Ok ==>
            covers(release_expired_outcome(env, id)->Ok_0.0, release_expired_outcome(env, id)->Ok_0.1, env.escrow.address),
        refund_outcome(env, caller, id) is Ok ==>
            covers(refund_outcome(env, caller, id)->Ok_0.0, refund_outcome(env, caller, id)->Ok_0.2, env.escrow.address),
        resolve_dispute_outcome(env, caller, id, release_to_driver) is Ok ==>
            covers(resolve_dispute_outcome(env, caller, id, release_to_driver)->Ok_0.0,
                resolve_dispute_outcome(env, caller, id, release_to_driver)->Ok_0.1, env.escrow.address),
        split_outcome(env, caller, caller_is_invoker, id, sender_share_bps) is Ok ==>
            covers(split_outcome(env, caller, caller_is_invoker, id, sender_share_bps)->Ok_0.0,
                split_outcome(env, caller, caller_is_invoker, id, sender_share_bps)->Ok_0.1, env.escrow.address),
        reclaim_outcome(env, id) is Ok ==>
            covers(reclaim_outcome(env, id)->Ok_0.0, reclaim_outcome(env, id)->Ok_0.1, env.escrow.address),
        holdback_mark_error(env, caller, id) is None ==>
            covers(holdback_view(env, id), env.tokens.balances@, env.escrow.address),
        escrow_dispute_error(env, caller, id) is None ==>
            covers(disputed_view(env, caller, id), env.tokens.balances@, env.escrow.address),
        env.escrow@.escrows.contains_key(id) ==>
            covers(frozen_view(env, id), env.tokens.balances@, env.escrow.address),
        ({
            let bal = env.tokens.balance_of(token, env.escrow.address);
            let locked = env.escrow@.locked(token);
            bal > locked && transfer_result(env.tokens.balances@, token, env.escrow.address, recipient, sat_sub(bal, locked)) is Ok
                ==> covers(env.escrow@, transfer_result(env.tokens.balances@, token, env.escrow.address, recipient, sat_sub(bal, locked))->Ok_0,
                    env.escrow.address)
        }),
{
    let v = env.escrow@;
    let m = env.tokens.balances@;
    let c = env.escrow.address;
    if v.escrows.contains_key(id) {
        let r = v.escrows[id];
        if is_open(r.status) {
            if release_result(env, m, r, id) is Ok {
                lemma_release_drains(env, m, r, id);
                lemma_close_covers(v, m, release_result(env, m, r, id)->Ok_0, c, id, EscrowStatus::Released, true);
            }
            if transfer_result(m, r.token, c, r.sender, r.amount) is Ok {
                lemma_transfer_out(m, r.token, c, r.sender, r.amount);
                lemma_close_covers(v, m, transfer_result(m, r.token, c, r.sender, r.amount)->Ok_0, c, id, EscrowStatus::Refunded, false);
            }
            if sender_share_bps <= 10000 && split_result(env, m, r, id, sender_share_bps) is Ok {
                lemma_split_drains(env, m, r, id, sender_share_bps);
                lemma_close_covers(v, m, split_result(env, m, r, id, sender_share_bps)->Ok_0, c, id, EscrowStatus::Split, true);
            }
        }
        assert forall|a: Address| #[trigger] holdback_view(env, id).locked(a) <= balance_in(m, a, c) by {
            assert(v.locked(a) <= balance_in(m, a, c));
        };
        assert forall|a: Address| #[trigger] disputed_view(env, caller, id).locked(a) <= balance_in(m, a, c) by {
            assert(v.locked(a) <= balance_in(m, a, c));
        };
        assert forall|a: Address| #[trigger] frozen_view(env, id).locked(a) <= balance_in(m, a, c) by {
            assert(v.locked(a) <= balance_in(m, a, c));
        };
    }
    let bal = env.tokens.balance_of(token, c);
    let locked = v.locked(token);
    if bal > locked && transfer_result(m, token, c, recipient, sat_sub(bal, locked)) is Ok {
        let x = sat_sub(bal, locked);
        lemma_open_sum_nonneg(v.escrows, v.escrows.dom(), token.id);
        assert(locked == open_sum(v.escrows, v.escrows.dom(), token.id));
        lemma_transfer_out(m, token, c, recipient, x);
        let m2 = transfer_result(m, token, c, recipient, x)->Ok_0;
        assert forall|a: Address| #[trigger] v.locked(a) <= balance_in(m2, a, c) by {
            assert(v.locked(a) <= balance_in(m, a, c));
            if a.id == token.id {
                assert(a == token);
                assert(x == bal - locked);
            }
        };
    }
}

/// A transfer into `contract` from another holder adds exactly the amount
/// to its balance of that token.
pub proof fn lemma_transfer_in(m: Map<u128, i128>, token: Address, from: Address, contract: Address, x: i128)
    requires
        transfer_error(m, token, from, contract, x) is None,
        from != contract,
    ensures
        forall|a: Address| #[trigger] balance_in(transferred(m, token, from, contract, x), a, contract)
            == balance_in(m, a, contract) + if a.id == token.id { x as int } else { 0 },
{
    assert forall|a: Address| #[trigger] balance_in(transferred(m, token, from, contract, x), a, contract)
        == balance_in(m, a, contract) + if a.id == token.id { x as int } else { 0 } by {
        lemma_pair_key_injective(a.id, contract.id, token.id, contract.id);
        lemma_pair_key_injective(a.id, contract.id, token.id, from.id);
    };
}

/// A successful batch from a sender other than the contract adds the sum of
/// its amounts to the contract's balance of the batch's token.
pub proof fn lemma_batch_gains(v: EscrowView, m: Map<u128, i128>, contract: Address, sender: Address, recipient: Address, token: Address, list: Seq<(u64, Address, i128, Option<u64>)>, now: u64)
    requires
        batch_run(v, m, contract, sender, recipient, token, list, now) is Ok,
        sender != contract,
    ensures
        forall|a: Address| #[trigger] balance_in(batch_run(v, m, contract, sender, recipient, token, list, now)->Ok_0.1, a, contract)
            == balance_in(m, a, contract) + if a.id == token.id { batch_amount(list) } else { 0 },
    decreases list.len(),
{
    if list.len() > 0 {
        let prefix = list.drop_last();
        lemma_batch_gains(v, m, contract, sender, recipient, token, prefix, now);
        let m1 = batch_run(v, m, contract, sender, recipient, token, prefix, now)->Ok_0.1;
        let amount = list.last().2;
        lemma_transfer_in(m1, token, sender, contract, amount);
        let m2 = batch_run(v, m, contract, sender, recipient, token, list, now)->Ok_0.1;
        assert(m2 == transferred(m1, token, sender, contract, amount));
        assert forall|a: Address| #[trigger] balance_in(m2, a, contract)
            == balance_in(m, a, contract) + if a.id == token.id { batch_amount(list) } else { 0 } by {
            assert(balance_in(m1, a, contract) == balance_in(m, a, contract) + if a.id == token.id { batch_amount(prefix) } else { 0 });
        };
    }
}

/// Funding escrows keeps the contract solvent: the sender's deposit comes
/// in with each new escrow, so the contract's balance grows at least as much
/// as the locked total. (For a sender other than the contract itself, whose
/// deposit to itself would add nothing; a batch is stated for totals that
/// fit in `i128`.)
pub proof fn law_funding_stays_solvent(env: Env, sender: Address, recipient: Address, driver: Address, id: u64, token: Address, amount: i128, fleet_id: Option<u64>, list: Seq<(u64, Address, i128, Option<u64>)>)
    requires
        locked_matches_open(env.escrow@),
        covers(env.escrow@, env.tokens.balances@, env.escrow.address),
    ensures
        create_escrow_outcome(env, sender, recipient, driver, id, token, amount, fleet_id) is Ok && sender != env.escrow.address
            ==> covers(create_escrow_outcome(env, sender, recipient, driver, id, token, amount, fleet_id)->Ok_0.0,
                create_escrow_outcome(env, sender, recipient, driver, id, token, amount, fleet_id)->Ok_0.1, env.escrow.address),
        batch_outcome(env, sender, recipient, token, list) is Ok && sender != env.escrow.address
            && env.escrow@.locked(token) + batch_amount(list) <= i128::MAX
            ==> covers(batch_outcome(env, sender, recipient, token, list)->Ok_0.0,
                batch_outcome(env, sender, recipient, token, list)->Ok_0.1, env.escrow.address),
{
    let v = env.escrow@;
    let m = env.tokens.balances@;
    let c = env.escrow.address;
    lemma_open_sum_nonneg(v.escrows, v.escrows.dom(), token.id);
    assert(v.locked(token) == open_sum(v.escrows, v.escrows.dom(), token.id));
    if create_escrow_outcome(env, sender, recipient, driver, id, token, amount, fleet_id) is Ok && sender != c {
        let (w, m2) = create_escrow_outcome(env, sender, recipient, driver, id, token, amount, fleet_id)->Ok_0;
        let v1 = open_escrow(v, m, c, id, sender, recipient, driver, token, amount,
            fleet_id, payout_snapshot(env, driver, fleet_id), env.timestamp)->Ok_0.0;
        assert(w == v1.with_locked(token, sat_add(v1.locked(token), amount)));
        assert(v1.total_locked == v.total_locked);
        lemma_transfer_in(m, token, sender, c, amount);
        assert(m2 == transferred(m, token, sender, c, amount));
        assert forall|a: Address| #[trigger] w.locked(a) <= balance_in(m2, a, c) by {
            assert(v.locked(a) <= balance_in(m, a, c));
            if a.id == token.id {
                assert(a == token);
                assert(w.locked(a) == sat_add(v.locked(token), amount));
            } else {
                assert(w.locked(a) == v.locked(a));
            }
        };
    }
    if batch_outcome(env, sender, recipient, token, list) is Ok && sender != c && v.locked(token) + batch_amount(list) <= i128::MAX {
        lemma_batch_sums(v, m, c, sender, recipient, token, list, env.timestamp);
        lemma_batch_gains(v, m, c, sender, recipient, token, list, env.timestamp);
        let (w1, m2, t) = batch_run(v, m, c, sender, recipient, token, list, env.timestamp)->Ok_0;
        let w = batch_outcome(env, sender, recipient, token, list)->Ok_0.0;
        assert(w == w1.with_locked(token, sat_add(w1.locked(token), t)));
        assert(w1.locked(token) == v.locked(token));
        assert forall|a: Address| #[trigger] w.locked(a) <= balance_in(m2, a, c) by {
            assert(v.locked(a) <= balance_in(m, a, c));
            assert(w1.locked(a) == v.locked(a));
            if a.id == token.id {
                assert(a == token);
            }
        };
    }
}

} // verus!
