//! The escrow contract: holds a sender's payment for a delivery and pays it
//! out to the driver (less the platform fee), back to the sender, or split
//! between them, according to the delivery's outcome.
use vstd::prelude::*;
use std::collections::HashMap;
use crate::types::{
    Address, ContractError, EscrowError, EscrowRecord, EscrowStatus, FaniLabError, ProtocolConfig,
    pair_key, make_pair_key,
};
use crate::env::Env;
use crate::index::{IdIndex, ids_in, lists_bounded, page_of};
use crate::token::{TokenLedger, transfer_error, transferred, transfer_result};
use crate::fleet::FleetManagementContract;
use crate::identity::{IdentityReputationContract, IdentityView, decrease_reputation_outcome};

verus! {

broadcast use vstd::std_specs::hash::group_hash_axioms;

/// A fee discount for senders that reached a number of completed escrows.
#[derive(Clone, Copy, Debug, PartialEq, Eq, Structural)]
pub struct VolumeTier {
    pub volume_threshold: u32,
    pub discount_bps: u32,
}

/// A settlement-contract change waiting for its timelock.
#[derive(Clone, Copy, Debug, PartialEq, Eq, Structural)]
pub struct PendingSettlementContract {
    pub settlement_contract: Address,
    pub activates_at: u64,
}


/// `x` clamped into the `i128` range.
pub open spec fn sat_i128(x: int) -> i128 {
    if x > i128::MAX {
        i128::MAX
    } else if x < i128::MIN {
        i128::MIN
    } else {
        x as i128
    }
}

/// Integer division rounding toward zero.
pub open spec fn trunc_div(a: int, b: int) -> int {
    if a >= 0 { a / b } else { -((-a) / b) }
}

/// The platform fee on `amount` at `platform_fee_bps` basis points: the
/// saturated product divided by 10 000, rounded toward zero.
pub open spec fn spec_calculate_fee(amount: i128, platform_fee_bps: u32) -> i128 {
    trunc_div(sat_i128(amount * platform_fee_bps) as int, 10000) as i128
}

/// The platform fee on `amount` at `platform_fee_bps` basis points.
pub fn calculate_fee(amount: i128, platform_fee_bps: u32) -> (fee: i128)
    ensures
        fee == spec_calculate_fee(amount, platform_fee_bps),
{
    let p: i128 = match amount.checked_mul(platform_fee_bps as i128) {
        Some(p) => p,
        None => {
            if amount > 0 { i128::MAX } else { i128::MIN }
        },
    };
    proof {
        if amount * platform_fee_bps > i128::MAX {
            assert(amount > 0) by (nonlinear_arith)
                requires amount * platform_fee_bps > i128::MAX, platform_fee_bps >= 0;
        }
        if amount * platform_fee_bps < i128::MIN {
            assert(amount < 0) by (nonlinear_arith)
                requires amount * platform_fee_bps < i128::MIN, platform_fee_bps >= 0;
        }
    }
    assert(p == sat_i128(amount * platform_fee_bps));
    p / 10000
}


/// Version of the stored protocol configuration.
pub const PROTOCOL_VERSION: u32 = 1;
/// Most escrows one batch may create.
pub const MAX_BATCH_SIZE: u32 = 100;
/// Time after creation from which a sender may reclaim an untouched escrow
/// (30 days).
pub const DEFAULT_ESCROW_EXPIRY_SECONDS: u64 = 2592000;
/// Highest platform fee (10%).
pub const MAX_PLATFORM_FEE_BPS: u32 = 1000;
/// Delay between proposing and confirming a settlement contract (3 days).
pub const SETTLEMENT_CONTRACT_TIMELOCK_SECONDS: u64 = 259200;
/// Default time an escrow stays in holdback before the driver may claim it
/// (3 days).
pub const DEFAULT_HOLDBACK_WINDOW_SECONDS: u64 = 259200;
/// Shortest holdback window an administrator may configure (1 day).
pub const MIN_HOLDBACK_WINDOW_SECONDS: u64 = 86400;
/// Slippage tolerance set at initialization (5%).
pub const DEFAULT_SLIPPAGE_TOLERANCE_BPS: u32 = 500;
/// Reputation penalty for a driver whose holdback escrow is refunded when no
/// dispute contract is configured.
pub const DEFAULT_DISPUTE_REPUTATION_PENALTY: u32 = 10;

/// `a + b` clamped into the `i128` range.
pub open spec fn sat_add(a: i128, b: i128) -> i128 {
    sat_i128(a + b)
}

/// `a - b` clamped into the `i128` range.
pub open spec fn sat_sub(a: i128, b: i128) -> i128 {
    sat_i128(a - b)
}

pub fn saturating_add_i128(a: i128, b: i128) -> (r: i128)
    ensures
        r == sat_add(a, b),
{
    match a.checked_add(b) {
        Some(r) => r,
        None => if b > 0 { i128::MAX } else { i128::MIN },
    }
}

pub fn saturating_sub_i128(a: i128, b: i128) -> (r: i128)
    ensures
        r == sat_sub(a, b),
{
    match a.checked_sub(b) {
        Some(r) => r,
        None => if b > 0 { i128::MIN } else { i128::MAX },
    }
}

/// `t` plus `d` seconds, saturating at the end of time.
pub open spec fn sat_add_u64(t: u64, d: u64) -> u64 {
    if t + d > u64::MAX { u64::MAX } else { (t + d) as u64 }
}

/// Abstract storage of the escrow contract.
#[verifier::ext_equal]
pub struct EscrowView {
    pub admin: Option<Address>,
    pub pending_admin: Option<Address>,
    pub config: Option<ProtocolConfig>,
    pub paused: bool,
    pub settlement_contract: Option<Address>,
    pub pending_settlement: Option<PendingSettlementContract>,
    pub fleet_contract: Option<Address>,
    pub dispute_contract: Option<Address>,
    pub identity_contract: Option<Address>,
    pub holdback_window: Option<u64>,
    pub volume_tiers: Seq<VolumeTier>,
    pub escrows: Map<u64, EscrowRecord>,
    pub payout_addresses: Map<u64, Address>,
    pub total_locked: Map<u64, i128>,
    pub sender_volume: Map<u64, u32>,
    pub index: Map<u128, Seq<u64>>,
}

impl View for EscrowContract {
    type V = EscrowView;

    open spec fn view(&self) -> EscrowView {
        EscrowView {
            admin: self.admin,
            pending_admin: self.pending_admin,
            config: self.config,
            paused: self.paused,
            settlement_contract: self.settlement_contract,
            pending_settlement: self.pending_settlement,
            fleet_contract: self.fleet_contract,
            dispute_contract: self.dispute_contract,
            identity_contract: self.identity_contract,
            holdback_window: self.holdback_window,
            volume_tiers: self.volume_tiers@,
            escrows: self.escrows@,
            payout_addresses: self.payout_addresses@,
            total_locked: self.total_locked@,
            sender_volume: self.sender_volume@,
            index: self.index@,
        }
    }
}

impl EscrowView {
    /// Amount held in open escrows of `token`.
    pub open spec fn locked(self, token: Address) -> i128 {
        if self.total_locked.contains_key(token.id) { self.total_locked[token.id] } else { 0 }
    }

    /// Completed escrows of `sender`.
    pub open spec fn volume(self, sender: Address) -> u32 {
        if self.sender_volume.contains_key(sender.id) { self.sender_volume[sender.id] } else { 0 }
    }

    /// The holdback window in force.
    pub open spec fn window(self) -> u64 {
        match self.holdback_window {
            Some(w) => w,
            None => DEFAULT_HOLDBACK_WINDOW_SECONDS,
        }
    }

    /// The configured platform fee, zero before initialization.
    pub open spec fn base_fee(self) -> u32 {
        match self.config {
            Some(c) => c.platform_fee_bps,
            None => 0,
        }
    }

    pub open spec fn wf(self) -> bool {
        lists_bounded(self.index)
    }

    /// The view with `total_locked` of `token` set to `v`.
    pub open spec fn with_locked(self, token: Address, v: i128) -> EscrowView {
        EscrowView { total_locked: self.total_locked.insert(token.id, v), ..self }
    }
}

pub open spec fn esc_err(e: EscrowError) -> ContractError {
    ContractError::Escrow(e)
}

pub open spec fn fani_err(e: FaniLabError) -> ContractError {
    ContractError::Fani(e)
}

/// Why the administrator check fails for `caller`, if it does.
pub open spec fn escrow_admin_error(v: EscrowView, caller: Address) -> Option<ContractError> {
    match v.admin {
        None => Some(fani_err(FaniLabError::NotInitialized)),
        Some(a) => if a != caller { Some(fani_err(FaniLabError::Unauthorized)) } else { None },
    }
}

/// Why an administrator action that first requires `caller`'s
/// authorization fails, if it does.
pub open spec fn auth_admin_error(env: Env, caller: Address) -> Option<ContractError> {
    if !env.authorizes(caller) {
        Some(ContractError::AuthRequired)
    } else {
        escrow_admin_error(env.escrow@, caller)
    }
}

/// Why an administrator action that checks the administrator before the
/// authorization fails, if it does.
pub open spec fn admin_then_auth_error(env: Env, caller: Address) -> Option<ContractError> {
    if escrow_admin_error(env.escrow@, caller) is Some {
        escrow_admin_error(env.escrow@, caller)
    } else if !env.authorizes(caller) {
        Some(ContractError::AuthRequired)
    } else {
        None
    }
}

pub open spec fn as_result(e: Option<ContractError>) -> Result<(), ContractError> {
    match e {
        Some(e) => Err(e),
        None => Ok(()),
    }
}


/// `ids_in(m, owner, kind)` with `id` appended.
pub open spec fn push_id(m: Map<u128, Seq<u64>>, owner: Address, kind: u32, id: u64) -> Map<u128, Seq<u64>> {
    m.insert(pair_key(owner.id, kind as u64), ids_in(m, owner, kind).push(id))
}

/// The address the driver's share of escrow `id` goes to, or why looking
/// it up fails: the payout address fixed at creation, else the fleet
/// contract's routing for fleet-linked escrows, else the driver.
pub open spec fn payout_target(env: Env, r: EscrowRecord, id: u64) -> Result<Address, ContractError> {
    if env.escrow@.payout_addresses.contains_key(id) {
        Ok(env.escrow@.payout_addresses[id])
    } else {
        match (env.escrow@.fleet_contract, r.fleet_id) {
            (Some(f), Some(fid)) => if f != env.fleet.address {
                Err(ContractError::MissingContract)
            } else {
                Ok(env.fleet@.payout_address(r.driver, fid))
            },
            _ => Ok(r.driver),
        }
    }
}

/// Why asking the settlement contract for the driver's preferred asset
/// fails, if it does. No driver has a preference, so a successful answer
/// never diverts the payout.
pub open spec fn settlement_lookup_error(env: Env) -> Option<ContractError> {
    match env.escrow@.settlement_contract {
        None => None,
        Some(sc) => if sc != env.settlement.address { Some(ContractError::MissingContract) } else { None },
    }
}

/// The balances after paying `amount` of escrow `id` to its driver (or the
/// driver's payout address); nothing happens for a non-positive amount.
pub open spec fn payout_result(env: Env, m: Map<u128, i128>, r: EscrowRecord, id: u64, amount: i128) -> Result<Map<u128, i128>, ContractError> {
    if amount <= 0 {
        Ok(m)
    } else {
        match payout_target(env, r, id) {
            Err(e) => Err(e),
            Ok(to) => match settlement_lookup_error(env) {
                Some(e) => Err(e),
                None => transfer_result(m, r.token, env.escrow.address, to, amount),
            },
        }
    }
}

/// The balances after paying a positive platform `fee` in `token` to the
/// administrator.
pub open spec fn fee_result(env: Env, m: Map<u128, i128>, token: Address, fee: i128) -> Result<Map<u128, i128>, ContractError> {
    if fee <= 0 {
        Ok(m)
    } else {
        match env.escrow.admin {
            None => Err(fani_err(FaniLabError::NotInitialized)),
            Some(a) => transfer_result(m, token, env.escrow.address, a, fee),
        }
    }
}

/// The balances after releasing escrow `id` to the driver: the amount less
/// the platform fee, at the sender's effective rate, to the driver, the fee
/// to the administrator.
pub open spec fn release_result(env: Env, m: Map<u128, i128>, r: EscrowRecord, id: u64) -> Result<Map<u128, i128>, ContractError> {
    let v = env.escrow@;
    let fee = spec_calculate_fee(r.amount, spec_effective_fee(v.volume_tiers, v.base_fee(), v.volume(r.sender)));
    match payout_result(env, m, r, id, sat_sub(r.amount, fee)) {
        Err(e) => Err(e),
        Ok(m1) => fee_result(env, m1, r.token, fee),
    }
}

/// The record of a freshly funded escrow.
pub open spec fn new_record(id: u64, sender: Address, recipient: Address, driver: Address, token: Address, amount: i128, fleet_id: Option<u64>, now: u64) -> EscrowRecord {
    EscrowRecord {
        delivery_id: id,
        sender,
        recipient,
        driver,
        token,
        amount,
        status: EscrowStatus::Locked,
        created_at: now,
        expires_at: Some(sat_add_u64(now, DEFAULT_ESCROW_EXPIRY_SECONDS)),
        disputed_by: None,
        disputed_at: None,
        holdback_started_at: None,
        fleet_id,
    }
}

/// Funding escrow `id`: the sender's transfer to the contract, the record,
/// the payout snapshot and the three index entries (not the locked total).
/// Fails on the transfer or when an index list is full.
pub open spec fn open_escrow(v: EscrowView, m: Map<u128, i128>, contract: Address, id: u64, sender: Address, recipient: Address, driver: Address, token: Address, amount: i128, fleet_id: Option<u64>, payout: Option<Address>, now: u64) -> Result<(EscrowView, Map<u128, i128>), ContractError> {
    if transfer_error(m, token, sender, contract, amount) is Some {
        Err(transfer_error(m, token, sender, contract, amount)->0)
    } else if ids_in(v.index, sender, 0).len() >= u32::MAX || ids_in(v.index, recipient, 1).len() >= u32::MAX
        || ids_in(v.index, driver, 2).len() >= u32::MAX {
        Err(ContractError::ArithmeticOverflow)
    } else {
        Ok((
            EscrowView {
                escrows: v.escrows.insert(id, new_record(id, sender, recipient, driver, token, amount, fleet_id, now)),
                payout_addresses: match payout {
                    Some(a) => v.payout_addresses.insert(id, a),
                    None => v.payout_addresses,
                },
                index: push_id(push_id(push_id(v.index, sender, 0, id), recipient, 1, id), driver, 2, id),
                ..v
            },
            transferred(m, token, sender, contract, amount),
        ))
    }
}

/// The payout address `create_escrow` fixes for a fleet-linked escrow.
pub open spec fn payout_snapshot(env: Env, driver: Address, fleet_id: Option<u64>) -> Option<Address> {
    match (env.escrow@.fleet_contract, fleet_id) {
        (Some(f), Some(fid)) => Some(env.fleet@.payout_address(driver, fid)),
        _ => None,
    }
}

/// Why `create_escrow` fails before funding, if it does.
pub open spec fn create_escrow_check(env: Env, sender: Address, recipient: Address, driver: Address, id: u64, token: Address, amount: i128, fleet_id: Option<u64>) -> Option<ContractError> {
    if !env.authorizes(sender) {
        Some(ContractError::AuthRequired)
    } else if env.escrow@.paused {
        Some(fani_err(FaniLabError::ProtocolPaused))
    } else if sender == recipient {
        Some(esc_err(EscrowError::InvalidParties))
    } else if driver == sender || driver == recipient {
        Some(esc_err(EscrowError::InvalidDriver))
    } else if amount <= 0 {
        Some(esc_err(EscrowError::InvalidAmount))
    } else if env.escrow@.escrows.contains_key(id) {
        Some(esc_err(EscrowError::DuplicateDelivery))
    } else if env.escrow@.config is None {
        Some(fani_err(FaniLabError::NotInitialized))
    } else if token != env.escrow@.config->0.token {
        Some(esc_err(EscrowError::InvalidToken))
    } else {
        match (env.escrow@.fleet_contract, fleet_id) {
            (Some(f), Some(_)) => if f != env.fleet.address { Some(ContractError::MissingContract) } else { None },
            _ => None,
        }
    }
}

/// Outcome of `create_escrow`: the escrow storage and balances after it.
pub open spec fn create_escrow_outcome(env: Env, sender: Address, recipient: Address, driver: Address, id: u64, token: Address, amount: i128, fleet_id: Option<u64>) -> Result<(EscrowView, Map<u128, i128>), ContractError> {
    match create_escrow_check(env, sender, recipient, driver, id, token, amount, fleet_id) {
        Some(e) => Err(e),
        None => match open_escrow(env.escrow@, env.tokens.balances@, env.escrow.address, id, sender, recipient, driver, token, amount, fleet_id, payout_snapshot(env, driver, fleet_id), env.timestamp) {
            Err(e) => Err(e),
            Ok((v, m)) => Ok((v.with_locked(token, sat_add(v.locked(token), amount)), m)),
        },
    }
}

/// One element of a batch: the driver, amount and duplicate checks, then
/// funding.
pub open spec fn batch_element(v: EscrowView, m: Map<u128, i128>, contract: Address, sender: Address, recipient: Address, token: Address, e: (u64, Address, i128, Option<u64>), now: u64) -> Result<(EscrowView, Map<u128, i128>), ContractError> {
    let (id, driver, amount, fleet_id) = e;
    if driver == sender || driver == recipient {
        Err(esc_err(EscrowError::InvalidDriver))
    } else if amount <= 0 {
        Err(esc_err(EscrowError::InvalidAmount))
    } else if v.escrows.contains_key(id) {
        Err(esc_err(EscrowError::DuplicateDelivery))
    } else {
        open_escrow(v, m, contract, id, sender, recipient, driver, token, amount, fleet_id, None, now)
    }
}

/// The elements of a batch applied in order, with the running total of the
/// amounts (saturating).
pub open spec fn batch_run(v: EscrowView, m: Map<u128, i128>, contract: Address, sender: Address, recipient: Address, token: Address, list: Seq<(u64, Address, i128, Option<u64>)>, now: u64) -> Result<(EscrowView, Map<u128, i128>, i128), ContractError>
    decreases list.len(),
{
    if list.len() == 0 {
        Ok((v, m, 0))
    } else {
        match batch_run(v, m, contract, sender, recipient, token, list.drop_last(), now) {
            Err(e) => Err(e),
            Ok((v1, m1, t1)) => match batch_element(v1, m1, contract, sender, recipient, token, list.last(), now) {
                Err(e) => Err(e),
                Ok((v2, m2)) => Ok((v2, m2, sat_add(t1, list.last().2))),
            },
        }
    }
}

/// Why `create_escrows_batch` fails before its elements, if it does.
pub open spec fn batch_check(env: Env, sender: Address, recipient: Address, token: Address, n: int) -> Option<ContractError> {
    if !env.authorizes(sender) {
        Some(ContractError::AuthRequired)
    } else if env.escrow@.paused {
        Some(fani_err(FaniLabError::ProtocolPaused))
    } else if sender == recipient {
        Some(esc_err(EscrowError::InvalidParties))
    } else if n > MAX_BATCH_SIZE {
        Some(esc_err(EscrowError::BatchTooLarge))
    } else if env.escrow@.config is None {
        Some(fani_err(FaniLabError::NotInitialized))
    } else if token != env.escrow@.config->0.token {
        Some(esc_err(EscrowError::InvalidToken))
    } else {
        None
    }
}

/// Outcome of `create_escrows_batch`.
pub open spec fn batch_outcome(env: Env, sender: Address, recipient: Address, token: Address, list: Seq<(u64, Address, i128, Option<u64>)>) -> Result<(EscrowView, Map<u128, i128>), ContractError> {
    match batch_check(env, sender, recipient, token, list.len() as int) {
        Some(e) => Err(e),
        None => match batch_run(env.escrow@, env.tokens.balances@, env.escrow.address, sender, recipient, token, list, env.timestamp) {
            Err(e) => Err(e),
            Ok((v, m, t)) => Ok((v.with_locked(token, sat_add(v.locked(token), t)), m)),
        },
    }
}


/// A batch whose element `i` fails after a successful prefix fails with
/// that element's error.
proof fn lemma_batch_run_fails(v: EscrowView, m: Map<u128, i128>, contract: Address, sender: Address, recipient: Address, token: Address, list: Seq<(u64, Address, i128, Option<u64>)>, now: u64, i: int)
    requires
        0 <= i < list.len(),
        batch_run(v, m, contract, sender, recipient, token, list.take(i), now) is Ok,
        batch_element(batch_run(v, m, contract, sender, recipient, token, list.take(i), now)->Ok_0.0,
            batch_run(v, m, contract, sender, recipient, token, list.take(i), now)->Ok_0.1,
            contract, sender, recipient, token, list[i], now) is Err,
    ensures
        batch_run(v, m, contract, sender, recipient, token, list, now) == Err::<(EscrowView, Map<u128, i128>, i128), ContractError>(
            batch_element(batch_run(v, m, contract, sender, recipient, token, list.take(i), now)->Ok_0.0,
                batch_run(v, m, contract, sender, recipient, token, list.take(i), now)->Ok_0.1,
                contract, sender, recipient, token, list[i], now)->Err_0),
    decreases list.len() - i,
{
    if i == list.len() - 1 {
        assert(list.drop_last() =~= list.take(i));
    } else {
        let l2 = list.drop_last();
        assert(l2.take(i) =~= list.take(i));
        assert(l2[i] == list[i]);
        lemma_batch_run_fails(v, m, contract, sender, recipient, token, l2, now, i);
    }
}


/// `v + 1`, saturating.
pub open spec fn sat_inc(v: u32) -> u32 {
    if v == u32::MAX { u32::MAX } else { (v + 1) as u32 }
}

/// The escrow storage after escrow `id` (record `r`) closes with `status`:
/// its amount leaves the locked total, and a payout to the driver counts
/// one more completed escrow for the sender.
pub open spec fn closed_view(v: EscrowView, id: u64, r: EscrowRecord, status: EscrowStatus, counts: bool) -> EscrowView {
    EscrowView {
        escrows: v.escrows.insert(id, EscrowRecord { status, ..r }),
        sender_volume: if counts { v.sender_volume.insert(r.sender.id, sat_inc(v.volume(r.sender))) } else { v.sender_volume },
        total_locked: v.total_locked.insert(r.token.id, sat_sub(v.locked(r.token), r.amount)),
        ..v
    }
}

/// Whether `a` is the escrow contract's administrator.
pub open spec fn escrow_is_admin(v: EscrowView, a: Address) -> bool {
    v.admin == Some(a)
}

/// Why loading escrow `id` fails after the caller's authorization and the
/// pause check, if it does.
pub open spec fn escrow_load_error(env: Env, caller: Address, id: u64) -> Option<ContractError> {
    if !env.authorizes(caller) {
        Some(ContractError::AuthRequired)
    } else if env.escrow@.paused {
        Some(fani_err(FaniLabError::ProtocolPaused))
    } else if !env.escrow@.escrows.contains_key(id) {
        Some(esc_err(EscrowError::DeliveryNotFound))
    } else {
        None
    }
}

/// Whether the contract holds less of the escrow's token than its amount.
pub open spec fn underfunded(env: Env, r: EscrowRecord) -> bool {
    env.tokens.balance_of(r.token, env.escrow.address) < r.amount
}

/// Outcome of `release_escrow`.
pub open spec fn release_escrow_outcome(env: Env, caller: Address, id: u64) -> Result<(EscrowView, Map<u128, i128>), ContractError> {
    if escrow_load_error(env, caller, id) is Some {
        Err(escrow_load_error(env, caller, id)->0)
    } else {
        let r = env.escrow@.escrows[id];
        if !escrow_is_admin(env.escrow@, caller) && caller != r.recipient {
            Err(fani_err(FaniLabError::Unauthorized))
        } else if r.status != EscrowStatus::Locked {
            Err(esc_err(EscrowError::InvalidState))
        } else if underfunded(env, r) {
            Err(esc_err(EscrowError::InsufficientFunds))
        } else {
            match release_result(env, env.tokens.balances@, r, id) {
                Err(e) => Err(e),
                Ok(m) => Ok((closed_view(env.escrow@, id, r, EscrowStatus::Released, true), m)),
            }
        }
    }
}

/// Outcome of settling a holdback escrow to the driver.
pub open spec fn holdback_settle_outcome(env: Env, id: u64) -> Result<(EscrowView, Map<u128, i128>), ContractError> {
    let r = env.escrow@.escrows[id];
    if underfunded(env, r) {
        Err(esc_err(EscrowError::InsufficientFunds))
    } else {
        match release_result(env, env.tokens.balances@, r, id) {
            Err(e) => Err(e),
            Ok(m) => Ok((closed_view(env.escrow@, id, r, EscrowStatus::Released, true), m)),
        }
    }
}

/// Outcome of `release_holdback_escrow`.
pub open spec fn release_holdback_outcome(env: Env, caller: Address, id: u64) -> Result<(EscrowView, Map<u128, i128>), ContractError> {
    if escrow_load_error(env, caller, id) is Some {
        Err(escrow_load_error(env, caller, id)->0)
    } else {
        let r = env.escrow@.escrows[id];
        if !escrow_is_admin(env.escrow@, caller) && caller != r.recipient {
            Err(fani_err(FaniLabError::Unauthorized))
        } else if r.status != EscrowStatus::Holdback {
            Err(esc_err(EscrowError::InvalidState))
        } else {
            holdback_settle_outcome(env, id)
        }
    }
}

/// Outcome of `release_expired_holdback`.
pub open spec fn release_expired_outcome(env: Env, id: u64) -> Result<(EscrowView, Map<u128, i128>), ContractError> {
    if env.escrow@.paused {
        Err(fani_err(FaniLabError::ProtocolPaused))
    } else if !env.escrow@.escrows.contains_key(id) {
        Err(esc_err(EscrowError::DeliveryNotFound))
    } else {
        let r = env.escrow@.escrows[id];
        if r.status != EscrowStatus::Holdback || r.holdback_started_at is None {
            Err(esc_err(EscrowError::InvalidState))
        } else if env.timestamp < sat_add_u64(r.holdback_started_at->0, env.escrow@.window()) {
            Err(esc_err(EscrowError::TimelockNotElapsed))
        } else {
            holdback_settle_outcome(env, id)
        }
    }
}


/// The reputation penalty the dispute contract reports.
pub open spec fn dispute_penalty(env: Env) -> u32 {
    match env.dispute.reputation_penalty {
        Some(p) => p,
        None => DEFAULT_DISPUTE_REPUTATION_PENALTY,
    }
}

/// The identity storage after a refund of escrow `r` out of holdback: the
/// driver, already credited for the delivery, loses the dispute penalty.
/// Refunds from other states, or without an identity contract, leave it.
pub open spec fn refund_identity(env: Env, r: EscrowRecord) -> Result<IdentityView, ContractError> {
    if r.status != EscrowStatus::Holdback || env.escrow@.identity_contract is None {
        Ok(env.identity@)
    } else {
        let penalty: Result<u32, ContractError> = match env.escrow@.dispute_contract {
            Some(d) => if d != env.dispute.address { Err(ContractError::MissingContract) } else { Ok(dispute_penalty(env)) },
            None => Ok(DEFAULT_DISPUTE_REPUTATION_PENALTY),
        };
        match penalty {
            Err(e) => Err(e),
            Ok(pts) => if env.escrow@.identity_contract->0 != env.identity.address {
                Err(ContractError::MissingContract)
            } else {
                match decrease_reputation_outcome(env, env.escrow.address, true, r.driver, pts) {
                    Err(e) => Err(e),
                    Ok(p) => Ok(env.identity@.with_driver(r.driver, p)),
                }
            },
        }
    }
}

/// Outcome of `refund_escrow`: escrow storage, identity storage, balances.
pub open spec fn refund_outcome(env: Env, caller: Address, id: u64) -> Result<(EscrowView, IdentityView, Map<u128, i128>), ContractError> {
    if escrow_load_error(env, caller, id) is Some {
        Err(escrow_load_error(env, caller, id)->0)
    } else {
        let r = env.escrow@.escrows[id];
        let admin = escrow_is_admin(env.escrow@, caller);
        if (r.status == EscrowStatus::Paused || r.status == EscrowStatus::Holdback) && !admin {
            Err(fani_err(FaniLabError::Unauthorized))
        } else if !admin && caller != r.sender {
            Err(fani_err(FaniLabError::Unauthorized))
        } else if r.status != EscrowStatus::Locked && r.status != EscrowStatus::Paused && r.status != EscrowStatus::Holdback {
            Err(esc_err(EscrowError::InvalidState))
        } else if underfunded(env, r) {
            Err(esc_err(EscrowError::InsufficientFunds))
        } else {
            match refund_identity(env, r) {
                Err(e) => Err(e),
                Ok(iv) => match transfer_result(env.tokens.balances@, r.token, env.escrow.address, r.sender, r.amount) {
                    Err(e) => Err(e),
                    Ok(m) => Ok((closed_view(env.escrow@, id, r, EscrowStatus::Refunded, false), iv, m)),
                },
            }
        }
    }
}

/// Why the recipient's confirmation (`mark_holdback_escrow`) fails, if it
/// does.
pub open spec fn holdback_mark_error(env: Env, caller: Address, id: u64) -> Option<ContractError> {
    if escrow_load_error(env, caller, id) is Some {
        escrow_load_error(env, caller, id)
    } else if caller != env.escrow@.escrows[id].recipient {
        Some(fani_err(FaniLabError::Unauthorized))
    } else if env.escrow@.escrows[id].status != EscrowStatus::Locked {
        Some(esc_err(EscrowError::InvalidState))
    } else {
        None
    }
}

/// The escrow storage once escrow `id` enters holdback now.
pub open spec fn holdback_view(env: Env, id: u64) -> EscrowView {
    EscrowView {
        escrows: env.escrow@.escrows.insert(id, EscrowRecord {
            status: EscrowStatus::Holdback,
            holdback_started_at: Some(env.timestamp),
            ..env.escrow@.escrows[id]
        }),
        ..env.escrow@
    }
}

/// Why `caller`'s dispute of escrow `id` fails, if it does.
pub open spec fn escrow_dispute_error(env: Env, caller: Address, id: u64) -> Option<ContractError> {
    if escrow_load_error(env, caller, id) is Some {
        escrow_load_error(env, caller, id)
    } else {
        let rec = env.escrow@.escrows[id];
        if caller != rec.sender && caller != rec.recipient && caller != rec.driver {
            Some(fani_err(FaniLabError::Unauthorized))
        } else if rec.status != EscrowStatus::Locked && rec.status != EscrowStatus::Holdback {
            Some(esc_err(EscrowError::InvalidState))
        } else {
            None
        }
    }
}

/// The escrow storage once `caller` has disputed escrow `id` now.
pub open spec fn disputed_view(env: Env, caller: Address, id: u64) -> EscrowView {
    EscrowView {
        escrows: env.escrow@.escrows.insert(id, EscrowRecord {
            status: EscrowStatus::Paused,
            disputed_by: Some(caller),
            disputed_at: Some(env.timestamp),
            ..env.escrow@.escrows[id]
        }),
        ..env.escrow@
    }
}

/// The escrow storage once the dispute contract freezes escrow `id` now:
/// a locked or holdback escrow is paused, any other is left as it is.
pub open spec fn frozen_view(env: Env, id: u64) -> EscrowView {
    let rec = env.escrow@.escrows[id];
    if rec.status == EscrowStatus::Locked || rec.status == EscrowStatus::Holdback {
        EscrowView {
            escrows: env.escrow@.escrows.insert(id, EscrowRecord {
                status: EscrowStatus::Paused,
                disputed_at: Some(env.timestamp),
                ..rec
            }),
            ..env.escrow@
        }
    } else {
        env.escrow@
    }
}

/// Outcome of `resolve_dispute`.
pub open spec fn resolve_dispute_outcome(env: Env, caller: Address, id: u64, release_to_driver: bool) -> Result<(EscrowView, Map<u128, i128>), ContractError> {
    if !env.authorizes(caller) {
        Err(ContractError::AuthRequired)
    } else if env.escrow@.paused {
        Err(fani_err(FaniLabError::ProtocolPaused))
    } else if escrow_admin_error(env.escrow@, caller) is Some {
        Err(escrow_admin_error(env.escrow@, caller)->0)
    } else if !env.escrow@.escrows.contains_key(id) {
        Err(esc_err(EscrowError::DeliveryNotFound))
    } else {
        let r = env.escrow@.escrows[id];
        if r.status != EscrowStatus::Paused {
            Err(esc_err(EscrowError::InvalidState))
        } else if underfunded(env, r) {
            Err(esc_err(EscrowError::InsufficientFunds))
        } else if release_to_driver {
            match release_result(env, env.tokens.balances@, r, id) {
                Err(e) => Err(e),
                Ok(m) => Ok((closed_view(env.escrow@, id, r, EscrowStatus::Released, true), m)),
            }
        } else {
            match transfer_result(env.tokens.balances@, r.token, env.escrow.address, r.sender, r.amount) {
                Err(e) => Err(e),
                Ok(m) => Ok((closed_view(env.escrow@, id, r, EscrowStatus::Refunded, false), m)),
            }
        }
    }
}

/// `a - b` for fees, floored at zero.
pub open spec fn sat_sub_u32(a: u32, b: u32) -> u32 {
    if a >= b { (a - b) as u32 } else { 0 }
}

/// The fee rate for a sender with `volume` completed escrows: the base fee
/// less the discount of the last tier whose threshold the volume reaches.
pub open spec fn spec_effective_fee(tiers: Seq<VolumeTier>, base: u32, volume: u32) -> u32
    decreases tiers.len(),
{
    if tiers.len() == 0 {
        base
    } else if volume >= tiers.last().volume_threshold {
        sat_sub_u32(base, tiers.last().discount_bps)
    } else {
        spec_effective_fee(tiers.drop_last(), base, volume)
    }
}

/// The balances after splitting escrow `r`: `sender_share_bps` of it back
/// to the sender, the rest less the fee (at the sender's effective rate)
/// to the driver, the fee to the administrator.
pub open spec fn split_result(env: Env, m: Map<u128, i128>, r: EscrowRecord, id: u64, sender_share_bps: u32) -> Result<Map<u128, i128>, ContractError> {
    let v = env.escrow@;
    let sender_amount = spec_calculate_fee(r.amount, sender_share_bps);
    let driver_share = sat_sub(r.amount, sender_amount);
    let fee = spec_calculate_fee(driver_share, spec_effective_fee(v.volume_tiers, v.base_fee(), v.volume(r.sender)));
    let net = sat_sub(driver_share, fee);
    let m1 = if sender_amount > 0 {
        transfer_result(m, r.token, env.escrow.address, r.sender, sender_amount)
    } else {
        Ok(m)
    };
    match m1 {
        Err(e) => Err(e),
        Ok(m1) => match payout_result(env, m1, r, id, net) {
            Err(e) => Err(e),
            Ok(m2) => fee_result(env, m2, r.token, fee),
        },
    }
}

/// Outcome of `resolve_dispute_split`. The administrator or the configured
/// dispute contract may split; `caller_is_invoker` says that `caller` is
/// the contract making the call.
pub open spec fn split_outcome(env: Env, caller: Address, caller_is_invoker: bool, id: u64, sender_share_bps: u32) -> Result<(EscrowView, Map<u128, i128>), ContractError> {
    if !caller_is_invoker && !env.authorizes(caller) {
        Err(ContractError::AuthRequired)
    } else if env.escrow@.paused {
        Err(fani_err(FaniLabError::ProtocolPaused))
    } else if !escrow_is_admin(env.escrow@, caller) && env.escrow@.dispute_contract != Some(caller) {
        Err(fani_err(FaniLabError::Unauthorized))
    } else if sender_share_bps > 10000 {
        Err(esc_err(EscrowError::InvalidFee))
    } else if !env.escrow@.escrows.contains_key(id) {
        Err(esc_err(EscrowError::DeliveryNotFound))
    } else {
        let r = env.escrow@.escrows[id];
        if r.status != EscrowStatus::Paused {
            Err(esc_err(EscrowError::InvalidState))
        } else if underfunded(env, r) {
            Err(esc_err(EscrowError::InsufficientFunds))
        } else {
            match split_result(env, env.tokens.balances@, r, id, sender_share_bps) {
                Err(e) => Err(e),
                Ok(m) => Ok((closed_view(env.escrow@, id, r, EscrowStatus::Split, true), m)),
            }
        }
    }
}

/// Outcome of `reclaim_expired_escrow`.
pub open spec fn reclaim_outcome(env: Env, id: u64) -> Result<(EscrowView, Map<u128, i128>), ContractError> {
    if env.escrow@.paused {
        Err(fani_err(FaniLabError::ProtocolPaused))
    } else if !env.escrow@.escrows.contains_key(id) {
        Err(esc_err(EscrowError::DeliveryNotFound))
    } else {
        let r = env.escrow@.escrows[id];
        if r.status != EscrowStatus::Locked || r.expires_at is None || env.timestamp <= r.expires_at->0 {
            Err(esc_err(EscrowError::InvalidState))
        } else if underfunded(env, r) {
            Err(esc_err(EscrowError::InsufficientFunds))
        } else {
            match transfer_result(env.tokens.balances@, r.token, env.escrow.address, r.sender, r.amount) {
                Err(e) => Err(e),
                Ok(m) => Ok((closed_view(env.escrow@, id, r, EscrowStatus::Refunded, false), m)),
            }
        }
    }
}


/// The fee rate for a sender with `sender_volume` completed escrows under
/// the given tiers.
pub fn effective_fee_bps(tiers: &Vec<VolumeTier>, base_fee_bps: u32, sender_volume: u32) -> (f: u32)
    ensures
        f == spec_effective_fee(tiers@, base_fee_bps, sender_volume),
{
    let mut i: usize = tiers.len();
    assert(tiers@.take(i as int) =~= tiers@);
    while i > 0
        invariant
            0 <= i <= tiers@.len(),
            spec_effective_fee(tiers@, base_fee_bps, sender_volume) == spec_effective_fee(tiers@.take(i as int), base_fee_bps, sender_volume),
        decreases i,
    {
        let t = tiers[i - 1];
        proof {
            assert(tiers@.take(i as int).drop_last() =~= tiers@.take(i - 1));
            assert(tiers@.take(i as int).last() == t);
        }
        if sender_volume >= t.volume_threshold {
            return base_fee_bps.saturating_sub(t.discount_bps);
        }
        i = i - 1;
    }
    proof { assert(tiers@.take(0) =~= Seq::<VolumeTier>::empty()); }
    base_fee_bps
}


/// A valid tier list: every discount at most `MAX_PLATFORM_FEE_BPS` and
/// thresholds strictly ascending.
pub open spec fn tiers_valid(tiers: Seq<VolumeTier>) -> bool {
    &&& forall|i: int| 0 <= i < tiers.len() ==> #[trigger] tiers[i].discount_bps <= MAX_PLATFORM_FEE_BPS
    &&& forall|i: int, j: int| 0 <= i < j < tiers.len() ==> #[trigger] tiers[i].volume_threshold < #[trigger] tiers[j].volume_threshold
}

/// Check a tier list before it is stored: discounts at most
/// `MAX_PLATFORM_FEE_BPS`, thresholds strictly ascending.
pub fn validate_volume_tiers(tiers: &Vec<VolumeTier>) -> (r: Result<(), ContractError>)
    ensures
        r == (if tiers_valid(tiers@) { Ok::<(), ContractError>(()) } else { Err(esc_err(EscrowError::InvalidFee)) }),
{
    let mut i: usize = 0;
    while i < tiers.len()
        invariant
            0 <= i <= tiers@.len(),
            tiers_valid(tiers@.take(i as int)),
        decreases tiers@.len() - i,
    {
        let t = tiers[i];
        if t.discount_bps > MAX_PLATFORM_FEE_BPS {
            proof { assert(tiers@[i as int] == t); }
            return Err(ContractError::Escrow(EscrowError::InvalidFee));
        }
        if i > 0 && t.volume_threshold <= tiers[i - 1].volume_threshold {
            proof {
                let a = tiers@[i - 1];
                let b = tiers@[i as int];
                assert(!(a.volume_threshold < b.volume_threshold));
            }
            return Err(ContractError::Escrow(EscrowError::InvalidFee));
        }
        proof {
            let s = tiers@.take(i + 1);
            assert forall|a: int| 0 <= a < s.len() implies #[trigger] s[a].discount_bps <= MAX_PLATFORM_FEE_BPS by {
                if a < i { assert(s[a] == tiers@.take(i as int)[a]); }
            }
            assert forall|a: int, b: int| 0 <= a < b < s.len() implies #[trigger] s[a].volume_threshold < #[trigger] s[b].volume_threshold by {
                if b < i {
                    assert(s[a] == tiers@.take(i as int)[a]);
                    assert(s[b] == tiers@.take(i as int)[b]);
                } else if a < i - 1 {
                    assert(s[a] == tiers@.take(i as int)[a]);
                    assert(tiers@.take(i as int)[i - 1] == tiers@[i - 1]);
                    assert(tiers@.take(i as int)[a].volume_threshold < tiers@.take(i as int)[i - 1].volume_threshold);
                }
            }
        }
        i = i + 1;
    }
    proof { assert(tiers@.take(i as int) =~= tiers@); }
    Ok(())
}

/// Storage of the escrow contract.
pub struct EscrowContract {
    pub address: Address,
    pub admin: Option<Address>,
    pub pending_admin: Option<Address>,
    pub config: Option<ProtocolConfig>,
    pub paused: bool,
    pub settlement_contract: Option<Address>,
    pub pending_settlement: Option<PendingSettlementContract>,
    pub fleet_contract: Option<Address>,
    pub dispute_contract: Option<Address>,
    pub identity_contract: Option<Address>,
    pub holdback_window: Option<u64>,
    pub volume_tiers: Vec<VolumeTier>,
    /// Escrows keyed by delivery id.
    pub escrows: HashMap<u64, EscrowRecord>,
    /// Payout address fixed at creation for fleet-linked escrows.
    pub payout_addresses: HashMap<u64, Address>,
    /// Total amount held in open escrows, keyed by token address.
    pub total_locked: HashMap<u64, i128>,
    /// Completed escrows per sender address.
    pub sender_volume: HashMap<u64, u32>,
    /// Delivery ids per owner and kind: 0 sender, 1 recipient, 2 driver.
    pub index: IdIndex,
}

impl EscrowContract {
    /// A freshly deployed, uninitialized contract at `address`.
    pub open spec fn is_fresh(&self, address: Address) -> bool {
        &&& self.address == address
        &&& self.admin is None
        &&& self.pending_admin is None
        &&& self.config is None
        &&& !self.paused
        &&& self.settlement_contract is None
        &&& self.pending_settlement is None
        &&& self.fleet_contract is None
        &&& self.dispute_contract is None
        &&& self.identity_contract is None
        &&& self.holdback_window is None
        &&& self.volume_tiers@.len() == 0
        &&& self.escrows@ == Map::<u64, EscrowRecord>::empty()
        &&& self.payout_addresses@ == Map::<u64, Address>::empty()
        &&& self.total_locked@ == Map::<u64, i128>::empty()
        &&& self.sender_volume@ == Map::<u64, u32>::empty()
        &&& self.index@ == Map::<u128, Seq<u64>>::empty()
    }

    pub fn new(address: Address) -> (c: EscrowContract)
        ensures
            c.is_fresh(address),
    {
        EscrowContract {
            address,
            admin: None,
            pending_admin: None,
            config: None,
            paused: false,
            settlement_contract: None,
            pending_settlement: None,
            fleet_contract: None,
            dispute_contract: None,
            identity_contract: None,
            holdback_window: None,
            volume_tiers: Vec::new(),
            escrows: HashMap::new(),
            payout_addresses: HashMap::new(),
            total_locked: HashMap::new(),
            sender_volume: HashMap::new(),
            index: IdIndex::new(),
        }
    }

    fn require_auth_admin(env: &Env, caller: Address) -> (r: Result<(), ContractError>)
        ensures
            r == as_result(auth_admin_error(*env, caller)),
    {
        env.require_auth(caller)?;
        Self::require_admin(env, caller)
    }

    fn require_admin(env: &Env, caller: Address) -> (r: Result<(), ContractError>)
        ensures
            r == as_result(escrow_admin_error(env.escrow@, caller)),
    {
        match env.escrow.admin {
            None => Err(ContractError::Fani(FaniLabError::NotInitialized)),
            Some(a) => if a != caller { Err(ContractError::Fani(FaniLabError::Unauthorized)) } else { Ok(()) },
        }
    }

    fn require_not_paused(env: &Env) -> (r: Result<(), ContractError>)
        ensures
            r == (if env.escrow.paused { Err(fani_err(FaniLabError::ProtocolPaused)) } else { Ok(()) }),
    {
        if env.escrow.paused {
            Err(ContractError::Fani(FaniLabError::ProtocolPaused))
        } else {
            Ok(())
        }
    }

    fn load_protocol_config(env: &Env) -> (r: Result<ProtocolConfig, ContractError>)
        ensures
            r == (match env.escrow.config {
                Some(c) => Ok(c),
                None => Err(fani_err(FaniLabError::NotInitialized)),
            }),
    {
        match env.escrow.config {
            Some(c) => Ok(c),
            None => Err(ContractError::Fani(FaniLabError::NotInitialized)),
        }
    }

    /// Initialize with the administrator, the payment token and the platform
    /// fee (at most `MAX_PLATFORM_FEE_BPS`); the slippage tolerance starts at
    /// 5%.
    pub fn init(env: &mut Env, admin: Address, token: Address, platform_fee_bps: u32) -> (r: Result<(), ContractError>)
        ensures
            r == (if old(env).escrow.admin is Some {
                Err(fani_err(FaniLabError::AlreadyInitialized))
            } else if !old(env).authorizes(admin) {
                Err(ContractError::AuthRequired)
            } else if platform_fee_bps > MAX_PLATFORM_FEE_BPS {
                Err(esc_err(EscrowError::InvalidFee))
            } else {
                Ok(())
            }),
            r is Err ==> *final(env) == *old(env),
            r is Ok ==> old(env).frame(final(env), true, false, false, false, false, false)
                && final(env).escrow@ == (EscrowView {
                    admin: Some(admin),
                    config: Some(ProtocolConfig {
                        token,
                        platform_fee_bps,
                        protocol_version: PROTOCOL_VERSION,
                        slippage_tolerance_bps: DEFAULT_SLIPPAGE_TOLERANCE_BPS,
                    }),
                    ..old(env).escrow@
                }),
    {
        if env.escrow.admin.is_some() {
            return Err(ContractError::Fani(FaniLabError::AlreadyInitialized));
        }
        env.require_auth(admin)?;
        if platform_fee_bps > MAX_PLATFORM_FEE_BPS {
            return Err(ContractError::Escrow(EscrowError::InvalidFee));
        }
        env.escrow.admin = Some(admin);
        env.escrow.config = Some(ProtocolConfig {
            token,
            platform_fee_bps,
            protocol_version: PROTOCOL_VERSION,
            slippage_tolerance_bps: DEFAULT_SLIPPAGE_TOLERANCE_BPS,
        });
        Ok(())
    }

    /// Set the platform fee (at most `MAX_PLATFORM_FEE_BPS`). Administrator
    /// only.
    pub fn update_platform_fee(env: &mut Env, admin: Address, new_fee_bps: u32) -> (r: Result<(), ContractError>)
        ensures
            r == (if admin_then_auth_error(*old(env), admin) is Some {
                Err(admin_then_auth_error(*old(env), admin)->0)
            } else if new_fee_bps > MAX_PLATFORM_FEE_BPS {
                Err(esc_err(EscrowError::InvalidFee))
            } else if old(env).escrow.config is None {
                Err(fani_err(FaniLabError::NotInitialized))
            } else {
                Ok(())
            }),
            r is Err ==> *final(env) == *old(env),
            r is Ok ==> old(env).frame(final(env), true, false, false, false, false, false)
                && final(env).escrow@ == (EscrowView {
                    config: Some(ProtocolConfig { platform_fee_bps: new_fee_bps, ..old(env).escrow.config->0 }),
                    ..old(env).escrow@
                }),
    {
        Self::require_admin(env, admin)?;
        env.require_auth(admin)?;
        if new_fee_bps > MAX_PLATFORM_FEE_BPS {
            return Err(ContractError::Escrow(EscrowError::InvalidFee));
        }
        let c = Self::load_protocol_config(env)?;
        env.escrow.config = Some(ProtocolConfig { platform_fee_bps: new_fee_bps, ..c });
        Ok(())
    }

    pub fn get_platform_fee(env: &Env) -> (r: Result<u32, ContractError>)
        ensures
            r == (match env.escrow.config {
                Some(c) => Ok(c.platform_fee_bps),
                None => Err(fani_err(FaniLabError::NotInitialized)),
            }),
    {
        let c = Self::load_protocol_config(env)?;
        Ok(c.platform_fee_bps)
    }

    pub fn get_admin(env: &Env) -> (r: Result<Address, ContractError>)
        ensures
            r == (match env.escrow.admin {
                Some(a) => Ok(a),
                None => Err(fani_err(FaniLabError::NotInitialized)),
            }),
    {
        match env.escrow.admin {
            Some(a) => Ok(a),
            None => Err(ContractError::Fani(FaniLabError::NotInitialized)),
        }
    }

    pub fn get_token(env: &Env) -> (r: Result<Address, ContractError>)
        ensures
            r == (match env.escrow.config {
                Some(c) => Ok(c.token),
                None => Err(fani_err(FaniLabError::NotInitialized)),
            }),
    {
        let c = Self::load_protocol_config(env)?;
        Ok(c.token)
    }

    pub fn get_protocol_version(env: &Env) -> (r: Result<u32, ContractError>)
        ensures
            r == (match env.escrow.config {
                Some(c) => Ok(c.protocol_version),
                None => Err(fani_err(FaniLabError::NotInitialized)),
            }),
    {
        let c = Self::load_protocol_config(env)?;
        Ok(c.protocol_version)
    }

    /// Set the slippage tolerance for currency swaps (at most 100%).
    /// Administrator only.
    pub fn update_slippage_tolerance(env: &mut Env, admin: Address, new_slippage_bps: u32) -> (r: Result<(), ContractError>)
        ensures
            r == (if admin_then_auth_error(*old(env), admin) is Some {
                Err(admin_then_auth_error(*old(env), admin)->0)
            } else if new_slippage_bps > 10000 {
                Err(esc_err(EscrowError::InvalidFee))
            } else if old(env).escrow.config is None {
                Err(fani_err(FaniLabError::NotInitialized))
            } else {
                Ok(())
            }),
            r is Err ==> *final(env) == *old(env),
            r is Ok ==> old(env).frame(final(env), true, false, false, false, false, false)
                && final(env).escrow@ == (EscrowView {
                    config: Some(ProtocolConfig { slippage_tolerance_bps: new_slippage_bps, ..old(env).escrow.config->0 }),
                    ..old(env).escrow@
                }),
    {
        Self::require_admin(env, admin)?;
        env.require_auth(admin)?;
        if new_slippage_bps > 10000 {
            return Err(ContractError::Escrow(EscrowError::InvalidFee));
        }
        let c = Self::load_protocol_config(env)?;
        env.escrow.config = Some(ProtocolConfig { slippage_tolerance_bps: new_slippage_bps, ..c });
        Ok(())
    }

    pub fn get_slippage_tolerance(env: &Env) -> (r: Result<u32, ContractError>)
        ensures
            r == (match env.escrow.config {
                Some(c) => Ok(c.slippage_tolerance_bps),
                None => Err(fani_err(FaniLabError::NotInitialized)),
            }),
    {
        let c = Self::load_protocol_config(env)?;
        Ok(c.slippage_tolerance_bps)
    }

    /// Propose a new settlement contract. It takes effect only through
    /// `confirm_settlement_contract` after a three-day timelock; a new
    /// proposal replaces a pending one. Administrator only.
    pub fn set_settlement_contract(env: &mut Env, admin: Address, settlement_contract: Address) -> (r: Result<(), ContractError>)
        ensures
            r == as_result(auth_admin_error(*old(env), admin)),
            r is Err ==> *final(env) == *old(env),
            r is Ok ==> old(env).frame(final(env), true, false, false, false, false, false)
                && final(env).escrow@ == (EscrowView {
                    pending_settlement: Some(PendingSettlementContract {
                        settlement_contract,
                        activates_at: sat_add_u64(old(env).timestamp, SETTLEMENT_CONTRACT_TIMELOCK_SECONDS),
                    }),
                    ..old(env).escrow@
                }),
    {
        Self::require_auth_admin(env, admin)?;
        let activates_at = env.timestamp.saturating_add(SETTLEMENT_CONTRACT_TIMELOCK_SECONDS);
        env.escrow.pending_settlement = Some(PendingSettlementContract { settlement_contract, activates_at });
        Ok(())
    }

    /// Apply the proposed settlement contract once its timelock passed.
    /// Administrator only.
    pub fn confirm_settlement_contract(env: &mut Env, admin: Address) -> (r: Result<(), ContractError>)
        ensures
            r == (if auth_admin_error(*old(env), admin) is Some {
                Err(auth_admin_error(*old(env), admin)->0)
            } else if old(env).escrow.pending_settlement is None {
                Err(esc_err(EscrowError::NoPendingSettlementChange))
            } else if old(env).timestamp < old(env).escrow.pending_settlement->0.activates_at {
                Err(esc_err(EscrowError::TimelockNotElapsed))
            } else {
                Ok(())
            }),
            r is Err ==> *final(env) == *old(env),
            r is Ok ==> old(env).frame(final(env), true, false, false, false, false, false)
                && final(env).escrow@ == (EscrowView {
                    settlement_contract: Some(old(env).escrow.pending_settlement->0.settlement_contract),
                    pending_settlement: None,
                    ..old(env).escrow@
                }),
    {
        Self::require_auth_admin(env, admin)?;
        let pending = match env.escrow.pending_settlement {
            Some(p) => p,
            None => { return Err(ContractError::Escrow(EscrowError::NoPendingSettlementChange)); },
        };
        if env.timestamp < pending.activates_at {
            return Err(ContractError::Escrow(EscrowError::TimelockNotElapsed));
        }
        env.escrow.settlement_contract = Some(pending.settlement_contract);
        env.escrow.pending_settlement = None;
        Ok(())
    }

    pub fn get_pending_settlement_contract(env: &Env) -> (r: Option<PendingSettlementContract>)
        ensures
            r == env.escrow.pending_settlement,
    {
        env.escrow.pending_settlement
    }

    pub fn get_settlement_contract(env: &Env) -> (r: Option<Address>)
        ensures
            r == env.escrow.settlement_contract,
    {
        env.escrow.settlement_contract
    }

    /// Unset the settlement contract and any pending change. Administrator
    /// only.
    pub fn clear_settlement_contract(env: &mut Env, admin: Address) -> (r: Result<(), ContractError>)
        ensures
            r == as_result(auth_admin_error(*old(env), admin)),
            r is Err ==> *final(env) == *old(env),
            r is Ok ==> old(env).frame(final(env), true, false, false, false, false, false)
                && final(env).escrow@ == (EscrowView { settlement_contract: None, pending_settlement: None, ..old(env).escrow@ }),
    {
        Self::require_auth_admin(env, admin)?;
        env.escrow.settlement_contract = None;
        env.escrow.pending_settlement = None;
        Ok(())
    }

    /// Configure the fleet contract consulted for payout routing. Administrator only.
    pub fn set_fleet_management_contract(env: &mut Env, admin: Address, fleet_contract: Address) -> (r: Result<(), ContractError>)
        ensures
            r == as_result(auth_admin_error(*old(env), admin)),
            r is Err ==> *final(env) == *old(env),
            r is Ok ==> old(env).frame(final(env), true, false, false, false, false, false)
                && final(env).escrow@ == (EscrowView { fleet_contract: Some(fleet_contract), ..old(env).escrow@ }),
    {
        Self::require_auth_admin(env, admin)?;
        env.escrow.fleet_contract = Some(fleet_contract);
        Ok(())
    }

    pub fn get_fleet_management_contract(env: &Env) -> (r: Option<Address>)
        ensures
            r == env.escrow.fleet_contract,
    {
        env.escrow.fleet_contract
    }

    /// Unset the fleet contract: payouts then go to the drivers themselves.
    /// Administrator only.
    pub fn clear_fleet_management_contract(env: &mut Env, admin: Address) -> (r: Result<(), ContractError>)
        ensures
            r == as_result(auth_admin_error(*old(env), admin)),
            r is Err ==> *final(env) == *old(env),
            r is Ok ==> old(env).frame(final(env), true, false, false, false, false, false)
                && final(env).escrow@ == (EscrowView { fleet_contract: None, ..old(env).escrow@ }),
    {
        Self::require_auth_admin(env, admin)?;
        env.escrow.fleet_contract = None;
        Ok(())
    }

    /// Configure the dispute contract allowed to freeze escrows. Administrator only.
    pub fn set_dispute_resolution_contract(env: &mut Env, admin: Address, dispute_contract: Address) -> (r: Result<(), ContractError>)
        ensures
            r == as_result(auth_admin_error(*old(env), admin)),
            r is Err ==> *final(env) == *old(env),
            r is Ok ==> old(env).frame(final(env), true, false, false, false, false, false)
                && final(env).escrow@ == (EscrowView { dispute_contract: Some(dispute_contract), ..old(env).escrow@ }),
    {
        Self::require_auth_admin(env, admin)?;
        env.escrow.dispute_contract = Some(dispute_contract);
        Ok(())
    }

    pub fn get_dispute_resolution_contract(env: &Env) -> (r: Option<Address>)
        ensures
            r == env.escrow.dispute_contract,
    {
        env.escrow.dispute_contract
    }

    /// Configure the identity contract whose reputation a holdback refund lowers. Administrator only.
    pub fn set_identity_reputation_contract(env: &mut Env, admin: Address, identity_contract: Address) -> (r: Result<(), ContractError>)
        ensures
            r == as_result(auth_admin_error(*old(env), admin)),
            r is Err ==> *final(env) == *old(env),
            r is Ok ==> old(env).frame(final(env), true, false, false, false, false, false)
                && final(env).escrow@ == (EscrowView { identity_contract: Some(identity_contract), ..old(env).escrow@ }),
    {
        Self::require_auth_admin(env, admin)?;
        env.escrow.identity_contract = Some(identity_contract);
        Ok(())
    }

    pub fn get_identity_contract(env: &Env) -> (r: Option<Address>)
        ensures
            r == env.escrow.identity_contract,
    {
        env.escrow.identity_contract
    }

    /// Nominate `new_admin`; the nominee takes over by `accept_admin`.
    /// Administrator only.
    pub fn propose_admin(env: &mut Env, current_admin: Address, new_admin: Address) -> (r: Result<(), ContractError>)
        ensures
            r == as_result(auth_admin_error(*old(env), current_admin)),
            r is Err ==> *final(env) == *old(env),
            r is Ok ==> old(env).frame(final(env), true, false, false, false, false, false)
                && final(env).escrow@ == (EscrowView { pending_admin: Some(new_admin), ..old(env).escrow@ }),
    {
        Self::require_auth_admin(env, current_admin)?;
        env.escrow.pending_admin = Some(new_admin);
        Ok(())
    }

    /// The nominee takes over as administrator.
    pub fn accept_admin(env: &mut Env, new_admin: Address) -> (r: Result<(), ContractError>)
        ensures
            r == (if !old(env).authorizes(new_admin) {
                Err(ContractError::AuthRequired)
            } else if old(env).escrow.pending_admin is None {
                Err(fani_err(FaniLabError::InvalidState))
            } else if old(env).escrow.pending_admin != Some(new_admin) {
                Err(fani_err(FaniLabError::Unauthorized))
            } else if old(env).escrow.admin is None {
                Err(fani_err(FaniLabError::NotInitialized))
            } else {
                Ok(())
            }),
            r is Err ==> *final(env) == *old(env),
            r is Ok ==> old(env).frame(final(env), true, false, false, false, false, false)
                && final(env).escrow@ == (EscrowView { admin: Some(new_admin), pending_admin: None, ..old(env).escrow@ }),
    {
        env.require_auth(new_admin)?;
        match env.escrow.pending_admin {
            None => { return Err(ContractError::Fani(FaniLabError::InvalidState)); },
            Some(p) => {
                if p != new_admin {
                    return Err(ContractError::Fani(FaniLabError::Unauthorized));
                }
            },
        }
        if env.escrow.admin.is_none() {
            return Err(ContractError::Fani(FaniLabError::NotInitialized));
        }
        env.escrow.admin = Some(new_admin);
        env.escrow.pending_admin = None;
        Ok(())
    }

    /// Pause or unpause the protocol. Administrator only.
    pub fn set_paused(env: &mut Env, admin: Address, paused: bool) -> (r: Result<(), ContractError>)
        ensures
            r == as_result(auth_admin_error(*old(env), admin)),
            r is Err ==> *final(env) == *old(env),
            r is Ok ==> old(env).frame(final(env), true, false, false, false, false, false)
                && final(env).escrow@ == (EscrowView { paused: paused, ..old(env).escrow@ }),
    {
        Self::require_auth_admin(env, admin)?;
        env.escrow.paused = paused;
        Ok(())
    }

    pub fn is_paused(env: &Env) -> (b: bool)
        ensures
            b == env.escrow.paused,
    {
        env.escrow.paused
    }

    /// A copy of the contract's storage.
    pub fn scratch_copy(&self) -> (c: EscrowContract)
        ensures
            c@ == self@,
            c.address == self.address,
    {
        let index = IdIndex { lists: self.index.lists.clone() };
        assert(index@ =~= self.index@);
        EscrowContract {
            address: self.address,
            admin: self.admin,
            pending_admin: self.pending_admin,
            config: self.config,
            paused: self.paused,
            settlement_contract: self.settlement_contract,
            pending_settlement: self.pending_settlement,
            fleet_contract: self.fleet_contract,
            dispute_contract: self.dispute_contract,
            identity_contract: self.identity_contract,
            holdback_window: self.holdback_window,
            volume_tiers: self.volume_tiers.clone(),
            escrows: self.escrows.clone(),
            payout_addresses: self.payout_addresses.clone(),
            total_locked: self.total_locked.clone(),
            sender_volume: self.sender_volume.clone(),
            index,
        }
    }

    /// Fund and record escrow `id` in `c` with balances `tok`.
    fn open_escrow_in(
        c: &mut EscrowContract,
        tok: &mut TokenLedger,
        contract: Address,
        id: u64,
        sender: Address,
        recipient: Address,
        driver: Address,
        token: Address,
        amount: i128,
        fleet_id: Option<u64>,
        payout: Option<Address>,
        now: u64,
    ) -> (r: Result<(), ContractError>)
        ensures
            match open_escrow(old(c)@, old(tok).balances@, contract, id, sender, recipient, driver, token, amount, fleet_id, payout, now) {
                Err(e) => r == Err::<(), ContractError>(e) && *final(c) == *old(c) && *final(tok) == *old(tok),
                Ok((v, m)) => r is Ok && final(c)@ == v && final(tok).balances@ == m && final(c).address == old(c).address,
            },
    {
        match tok.check_transfer(token, sender, contract, amount) {
            Some(e) => { return Err(e); },
            None => {},
        }
        if c.index.count(sender, 0) >= u32::MAX as usize || c.index.count(recipient, 1) >= u32::MAX as usize
            || c.index.count(driver, 2) >= u32::MAX as usize {
            return Err(ContractError::ArithmeticOverflow);
        }
        let _ = tok.transfer(token, sender, contract, amount);
        let expires_at = now.saturating_add(DEFAULT_ESCROW_EXPIRY_SECONDS);
        c.escrows.insert(id, EscrowRecord {
            delivery_id: id,
            sender,
            recipient,
            driver,
            token,
            amount,
            status: EscrowStatus::Locked,
            created_at: now,
            expires_at: Some(expires_at),
            disputed_by: None,
            disputed_at: None,
            holdback_started_at: None,
            fleet_id,
        });
        match payout {
            Some(a) => { c.payout_addresses.insert(id, a); },
            None => {},
        }
        c.index.push(sender, 0, id);
        c.index.push(recipient, 1, id);
        c.index.push(driver, 2, id);
        Ok(())
    }

    fn add_locked(c: &mut EscrowContract, token: Address, amount: i128)
        ensures
            final(c)@ == old(c)@.with_locked(token, sat_add(old(c)@.locked(token), amount)),
            final(c).address == old(c).address,
    {
        let cur = match c.total_locked.get(&token.id) {
            Some(t) => *t,
            None => 0,
        };
        c.total_locked.insert(token.id, saturating_add_i128(cur, amount));
    }

    fn sub_locked(c: &mut EscrowContract, token: Address, amount: i128)
        ensures
            final(c)@ == old(c)@.with_locked(token, sat_sub(old(c)@.locked(token), amount)),
            final(c).address == old(c).address,
    {
        let cur = match c.total_locked.get(&token.id) {
            Some(t) => *t,
            None => 0,
        };
        c.total_locked.insert(token.id, saturating_sub_i128(cur, amount));
    }

    /// Lock `amount` of `token` from `sender` for delivery `delivery_id`,
    /// to be paid to `driver` (through the driver's fleet when `fleet_id`
    /// is given and a fleet contract is configured; the payout address is
    /// then fixed now). The escrow expires after 30 days.
    pub fn create_escrow(
        env: &mut Env,
        sender: Address,
        recipient: Address,
        driver: Address,
        delivery_id: u64,
        token: Address,
        amount: i128,
        fleet_id: Option<u64>,
    ) -> (r: Result<(), ContractError>)
        ensures
            match create_escrow_outcome(*old(env), sender, recipient, driver, delivery_id, token, amount, fleet_id) {
                Err(e) => r == Err::<(), ContractError>(e) && *final(env) == *old(env),
                Ok((v, m)) => r is Ok && old(env).frame(final(env), true, false, false, false, false, true)
                    && final(env).escrow@ == v && final(env).tokens.balances@ == m,
            },
    {
        env.require_auth(sender)?;
        Self::require_not_paused(env)?;
        if sender == recipient {
            return Err(ContractError::Escrow(EscrowError::InvalidParties));
        }
        if driver == sender || driver == recipient {
            return Err(ContractError::Escrow(EscrowError::InvalidDriver));
        }
        if amount <= 0 {
            return Err(ContractError::Escrow(EscrowError::InvalidAmount));
        }
        if env.escrow.escrows.contains_key(&delivery_id) {
            return Err(ContractError::Escrow(EscrowError::DuplicateDelivery));
        }
        let config = Self::load_protocol_config(env)?;
        if token != config.token {
            return Err(ContractError::Escrow(EscrowError::InvalidToken));
        }
        let payout = match (env.escrow.fleet_contract, fleet_id) {
            (Some(f), Some(fid)) => {
                if f != env.fleet.address {
                    return Err(ContractError::MissingContract);
                }
                Some(FleetManagementContract::get_payout_address(env, driver, fid))
            },
            _ => None,
        };
        let contract = env.escrow.address;
        let now = env.timestamp;
        Self::open_escrow_in(&mut env.escrow, &mut env.tokens, contract, delivery_id, sender, recipient, driver, token, amount, fleet_id, payout, now)?;
        Self::add_locked(&mut env.escrow, token, amount);
        Ok(())
    }

    /// Create one escrow per `(delivery_id, driver, amount, fleet_id)` entry,
    /// all from `sender` to `recipient` in the protocol token; at most
    /// `MAX_BATCH_SIZE` entries. Either every entry is created or none is.
    /// Returns the number created.
    pub fn create_escrows_batch(
        env: &mut Env,
        sender: Address,
        recipient: Address,
        token: Address,
        escrow_list: Vec<(u64, Address, i128, Option<u64>)>,
    ) -> (r: Result<u32, ContractError>)
        ensures
            match batch_outcome(*old(env), sender, recipient, token, escrow_list@) {
                Err(e) => r == Err::<u32, ContractError>(e) && *final(env) == *old(env),
                Ok((v, m)) => r == Ok::<u32, ContractError>(escrow_list@.len() as u32)
                    && old(env).frame(final(env), true, false, false, false, false, true)
                    && final(env).escrow@ == v && final(env).tokens.balances@ == m,
            },
    {
        env.require_auth(sender)?;
        Self::require_not_paused(env)?;
        if sender == recipient {
            return Err(ContractError::Escrow(EscrowError::InvalidParties));
        }
        if escrow_list.len() > MAX_BATCH_SIZE as usize {
            return Err(ContractError::Escrow(EscrowError::BatchTooLarge));
        }
        let config = Self::load_protocol_config(env)?;
        if token != config.token {
            return Err(ContractError::Escrow(EscrowError::InvalidToken));
        }
        let contract = env.escrow.address;
        let now = env.timestamp;
        let mut c = env.escrow.scratch_copy();
        let mut tok = env.tokens.snapshot();
        let mut total: i128 = 0;
        let mut i: usize = 0;
        while i < escrow_list.len()
            invariant
                0 <= i <= escrow_list@.len() <= MAX_BATCH_SIZE,
                contract == old(env).escrow.address,
                now == old(env).timestamp,
                c.address == old(env).escrow.address,
                *env == *old(env),
                batch_check(*old(env), sender, recipient, token, escrow_list@.len() as int) is None,
                batch_run(old(env).escrow@, old(env).tokens.balances@, contract, sender, recipient, token, escrow_list@.take(i as int), now)
                    == Ok::<(EscrowView, Map<u128, i128>, i128), ContractError>((c@, tok.balances@, total)),
            decreases escrow_list@.len() - i,
        {
            let (id, driver, amount, fleet_id) = escrow_list[i];
            proof {
                assert(escrow_list@[i as int] == (id, driver, amount, fleet_id));
                assert(escrow_list@.take(i + 1).drop_last() =~= escrow_list@.take(i as int));
                assert(escrow_list@.take(i + 1).last() == escrow_list@[i as int]);
            }
            if driver == sender || driver == recipient {
                proof { lemma_batch_run_fails(old(env).escrow@, old(env).tokens.balances@, contract, sender, recipient, token, escrow_list@, now, i as int); }
                return Err(ContractError::Escrow(EscrowError::InvalidDriver));
            }
            if amount <= 0 {
                proof { lemma_batch_run_fails(old(env).escrow@, old(env).tokens.balances@, contract, sender, recipient, token, escrow_list@, now, i as int); }
                return Err(ContractError::Escrow(EscrowError::InvalidAmount));
            }
            if c.escrows.contains_key(&id) {
                proof { lemma_batch_run_fails(old(env).escrow@, old(env).tokens.balances@, contract, sender, recipient, token, escrow_list@, now, i as int); }
                return Err(ContractError::Escrow(EscrowError::DuplicateDelivery));
            }
            let res = Self::open_escrow_in(&mut c, &mut tok, contract, id, sender, recipient, driver, token, amount, fleet_id, None, now);
            match res {
                Err(e) => {
                    proof { lemma_batch_run_fails(old(env).escrow@, old(env).tokens.balances@, contract, sender, recipient, token, escrow_list@, now, i as int); }
                    return Err(e);
                },
                Ok(()) => {},
            }
            total = saturating_add_i128(total, amount);
            i = i + 1;
        }
        proof { assert(escrow_list@.take(i as int) =~= escrow_list@); }
        Self::add_locked(&mut c, token, total);
        env.escrow = c;
        env.tokens = tok;
        Ok(escrow_list.len() as u32)
    }

    fn pay_driver(env: &Env, tok: &mut TokenLedger, r: EscrowRecord, id: u64, amount: i128) -> (res: Result<(), ContractError>)
        ensures
            match payout_result(*env, old(tok).balances@, r, id, amount) {
                Err(e) => res == Err::<(), ContractError>(e),
                Ok(m) => res is Ok && final(tok).balances@ == m,
            },
    {
        if amount <= 0 {
            return Ok(());
        }
        let to = match env.escrow.payout_addresses.get(&id) {
            Some(a) => *a,
            None => {
                match (env.escrow.fleet_contract, r.fleet_id) {
                    (Some(f), Some(fid)) => {
                        if f != env.fleet.address {
                            return Err(ContractError::MissingContract);
                        }
                        FleetManagementContract::get_payout_address(env, r.driver, fid)
                    },
                    _ => r.driver,
                }
            },
        };
        match env.escrow.settlement_contract {
            None => {},
            Some(sc) => {
                if sc != env.settlement.address {
                    return Err(ContractError::MissingContract);
                }
            },
        }
        tok.transfer(r.token, env.escrow.address, to, amount)
    }

    fn pay_fee(env: &Env, tok: &mut TokenLedger, token: Address, fee: i128) -> (res: Result<(), ContractError>)
        ensures
            match fee_result(*env, old(tok).balances@, token, fee) {
                Err(e) => res == Err::<(), ContractError>(e),
                Ok(m) => res is Ok && final(tok).balances@ == m,
            },
    {
        if fee <= 0 {
            return Ok(());
        }
        match env.escrow.admin {
            None => Err(ContractError::Fani(FaniLabError::NotInitialized)),
            Some(a) => tok.transfer(token, env.escrow.address, a, fee),
        }
    }

    fn base_fee_bps(env: &Env) -> (b: u32)
        ensures
            b == env.escrow@.base_fee(),
    {
        match env.escrow.config {
            Some(c) => c.platform_fee_bps,
            None => 0,
        }
    }

    fn settle_release(env: &Env, tok: &mut TokenLedger, r: EscrowRecord, id: u64) -> (res: Result<(), ContractError>)
        ensures
            match release_result(*env, old(tok).balances@, r, id) {
                Err(e) => res == Err::<(), ContractError>(e),
                Ok(m) => res is Ok && final(tok).balances@ == m,
            },
    {
        let volume = Self::get_sender_volume(env, r.sender);
        let rate = Self::get_effective_fee_bps(env, Self::base_fee_bps(env), volume);
        let fee = calculate_fee(r.amount, rate);
        Self::pay_driver(env, tok, r, id, saturating_sub_i128(r.amount, fee))?;
        Self::pay_fee(env, tok, r.token, fee)
    }

    /// Close escrow `id` with `status`, taking its amount out of the locked
    /// total and, for a payout, counting one more completed escrow for the
    /// sender.
    fn close_escrow(c: &mut EscrowContract, id: u64, r: EscrowRecord, status: EscrowStatus, counts: bool)
        ensures
            final(c)@ == closed_view(old(c)@, id, r, status, counts),
            final(c).address == old(c).address,
    {
        if counts {
            let v = match c.sender_volume.get(&r.sender.id) {
                Some(v) => *v,
                None => 0,
            };
            c.sender_volume.insert(r.sender.id, v.saturating_add(1));
        }
        c.escrows.insert(id, EscrowRecord { status, ..r });
        Self::sub_locked(c, r.token, r.amount);
    }

    fn load_escrow_for(env: &Env, caller: Address, id: u64) -> (res: Result<EscrowRecord, ContractError>)
        ensures
            res == (match escrow_load_error(*env, caller, id) {
                Some(e) => Err(e),
                None => Ok(env.escrow@.escrows[id]),
            }),
    {
        env.require_auth(caller)?;
        Self::require_not_paused(env)?;
        match env.escrow.escrows.get(&id) {
            Some(r) => Ok(*r),
            None => Err(ContractError::Escrow(EscrowError::DeliveryNotFound)),
        }
    }

    fn contract_balance(env: &Env, token: Address) -> (b: i128)
        ensures
            b == env.tokens.balance_of(token, env.escrow.address),
    {
        env.tokens.balance(token, env.escrow.address)
    }

    /// Pay a locked escrow out: the amount less the platform fee, at the
    /// sender's volume-discounted rate, to the driver (or the driver's payout
    /// address), the fee to the administrator. The recipient or the
    /// administrator may call this.
    pub fn release_escrow(env: &mut Env, caller: Address, delivery_id: u64) -> (r: Result<(), ContractError>)
        ensures
            match release_escrow_outcome(*old(env), caller, delivery_id) {
                Err(e) => r == Err::<(), ContractError>(e) && *final(env) == *old(env),
                Ok((v, m)) => r is Ok && old(env).frame(final(env), true, false, false, false, false, true)
                    && final(env).escrow@ == v && final(env).tokens.balances@ == m,
            },
    {
        let rec = Self::load_escrow_for(env, caller, delivery_id)?;
        if env.escrow.admin != Some(caller) && caller != rec.recipient {
            return Err(ContractError::Fani(FaniLabError::Unauthorized));
        }
        if rec.status != EscrowStatus::Locked {
            return Err(ContractError::Escrow(EscrowError::InvalidState));
        }
        if Self::contract_balance(env, rec.token) < rec.amount {
            return Err(ContractError::Escrow(EscrowError::InsufficientFunds));
        }
        let mut tok = env.tokens.snapshot();
        Self::settle_release(env, &mut tok, rec, delivery_id)?;
        Self::close_escrow(&mut env.escrow, delivery_id, rec, EscrowStatus::Released, true);
        env.tokens = tok;
        Ok(())
    }

    /// The recipient confirms delivery: a locked escrow enters holdback,
    /// from which it is released to the driver or disputed.
    pub fn mark_holdback_escrow(env: &mut Env, caller: Address, delivery_id: u64) -> (r: Result<(), ContractError>)
        ensures
            r == as_result(holdback_mark_error(*old(env), caller, delivery_id)),
            r is Err ==> *final(env) == *old(env),
            r is Ok ==> old(env).frame(final(env), true, false, false, false, false, false)
                && final(env).escrow@ == holdback_view(*old(env), delivery_id),
    {
        let rec = Self::load_escrow_for(env, caller, delivery_id)?;
        if caller != rec.recipient {
            return Err(ContractError::Fani(FaniLabError::Unauthorized));
        }
        if rec.status != EscrowStatus::Locked {
            return Err(ContractError::Escrow(EscrowError::InvalidState));
        }
        let ts = env.timestamp;
        env.escrow.escrows.insert(delivery_id, EscrowRecord {
            status: EscrowStatus::Holdback,
            holdback_started_at: Some(ts),
            ..rec
        });
        Ok(())
    }

    /// Whether `mark_holdback_escrow` would succeed, without changing anything.
    pub fn check_mark_holdback(env: &Env, caller: Address, delivery_id: u64) -> (r: Result<(), ContractError>)
        ensures
            r == as_result(holdback_mark_error(*env, caller, delivery_id)),
    {
        let rec = Self::load_escrow_for(env, caller, delivery_id)?;
        if caller != rec.recipient {
            return Err(ContractError::Fani(FaniLabError::Unauthorized));
        }
        if rec.status != EscrowStatus::Locked {
            return Err(ContractError::Escrow(EscrowError::InvalidState));
        }
        Ok(())
    }

    /// Whether `raise_dispute` would succeed, without changing anything.
    pub fn check_raise_dispute(env: &Env, caller: Address, delivery_id: u64) -> (r: Result<(), ContractError>)
        ensures
            r == as_result(escrow_dispute_error(*env, caller, delivery_id)),
    {
        let rec = Self::load_escrow_for(env, caller, delivery_id)?;
        if caller != rec.sender && caller != rec.recipient && caller != rec.driver {
            return Err(ContractError::Fani(FaniLabError::Unauthorized));
        }
        if rec.status != EscrowStatus::Locked && rec.status != EscrowStatus::Holdback {
            return Err(ContractError::Escrow(EscrowError::InvalidState));
        }
        Ok(())
    }

    fn settle_holdback(env: &mut Env, delivery_id: u64) -> (r: Result<(), ContractError>)
        requires
            old(env).escrow@.escrows.contains_key(delivery_id),
        ensures
            match holdback_settle_outcome(*old(env), delivery_id) {
                Err(e) => r == Err::<(), ContractError>(e) && *final(env) == *old(env),
                Ok((v, m)) => r is Ok && old(env).frame(final(env), true, false, false, false, false, true)
                    && final(env).escrow@ == v && final(env).tokens.balances@ == m,
            },
    {
        let rec = *env.escrow.escrows.get(&delivery_id).unwrap();
        if Self::contract_balance(env, rec.token) < rec.amount {
            return Err(ContractError::Escrow(EscrowError::InsufficientFunds));
        }
        let mut tok = env.tokens.snapshot();
        Self::settle_release(env, &mut tok, rec, delivery_id)?;
        Self::close_escrow(&mut env.escrow, delivery_id, rec, EscrowStatus::Released, true);
        env.tokens = tok;
        Ok(())
    }

    /// Pay out an escrow in holdback. The recipient or the administrator may
    /// call this.
    pub fn release_holdback_escrow(env: &mut Env, caller: Address, delivery_id: u64) -> (r: Result<(), ContractError>)
        ensures
            match release_holdback_outcome(*old(env), caller, delivery_id) {
                Err(e) => r == Err::<(), ContractError>(e) && *final(env) == *old(env),
                Ok((v, m)) => r is Ok && old(env).frame(final(env), true, false, false, false, false, true)
                    && final(env).escrow@ == v && final(env).tokens.balances@ == m,
            },
    {
        let rec = Self::load_escrow_for(env, caller, delivery_id)?;
        if env.escrow.admin != Some(caller) && caller != rec.recipient {
            return Err(ContractError::Fani(FaniLabError::Unauthorized));
        }
        if rec.status != EscrowStatus::Holdback {
            return Err(ContractError::Escrow(EscrowError::InvalidState));
        }
        Self::settle_holdback(env, delivery_id)
    }

    /// Pay out an escrow whose holdback window has passed. Anyone may call
    /// this.
    pub fn release_expired_holdback(env: &mut Env, delivery_id: u64) -> (r: Result<(), ContractError>)
        ensures
            match release_expired_outcome(*old(env), delivery_id) {
                Err(e) => r == Err::<(), ContractError>(e) && *final(env) == *old(env),
                Ok((v, m)) => r is Ok && old(env).frame(final(env), true, false, false, false, false, true)
                    && final(env).escrow@ == v && final(env).tokens.balances@ == m,
            },
    {
        Self::require_not_paused(env)?;
        let rec = match env.escrow.escrows.get(&delivery_id) {
            Some(r) => *r,
            None => { return Err(ContractError::Escrow(EscrowError::DeliveryNotFound)); },
        };
        if rec.status != EscrowStatus::Holdback {
            return Err(ContractError::Escrow(EscrowError::InvalidState));
        }
        let started = match rec.holdback_started_at {
            Some(t) => t,
            None => { return Err(ContractError::Escrow(EscrowError::InvalidState)); },
        };
        let window = Self::get_holdback_window(env);
        if env.timestamp < started.saturating_add(window) {
            return Err(ContractError::Escrow(EscrowError::TimelockNotElapsed));
        }
        Self::settle_holdback(env, delivery_id)
    }

    /// Set the holdback window (at least one day). Administrator only.
    pub fn set_holdback_window(env: &mut Env, admin: Address, new_window_seconds: u64) -> (r: Result<(), ContractError>)
        ensures
            r == (if auth_admin_error(*old(env), admin) is Some {
                Err(auth_admin_error(*old(env), admin)->0)
            } else if new_window_seconds < MIN_HOLDBACK_WINDOW_SECONDS {
                Err(esc_err(EscrowError::InvalidState))
            } else {
                Ok(())
            }),
            r is Err ==> *final(env) == *old(env),
            r is Ok ==> old(env).frame(final(env), true, false, false, false, false, false)
                && final(env).escrow@ == (EscrowView { holdback_window: Some(new_window_seconds), ..old(env).escrow@ }),
    {
        Self::require_auth_admin(env, admin)?;
        if new_window_seconds < MIN_HOLDBACK_WINDOW_SECONDS {
            return Err(ContractError::Escrow(EscrowError::InvalidState));
        }
        env.escrow.holdback_window = Some(new_window_seconds);
        Ok(())
    }

    /// The holdback window in force (three days unless set).
    pub fn get_holdback_window(env: &Env) -> (w: u64)
        ensures
            w == env.escrow@.window(),
    {
        match env.escrow.holdback_window {
            Some(w) => w,
            None => DEFAULT_HOLDBACK_WINDOW_SECONDS,
        }
    }

    pub fn get_escrow(env: &Env, delivery_id: u64) -> (r: Result<EscrowRecord, ContractError>)
        ensures
            r == (if env.escrow@.escrows.contains_key(delivery_id) {
                Ok(env.escrow@.escrows[delivery_id])
            } else {
                Err(esc_err(EscrowError::DeliveryNotFound))
            }),
    {
        match env.escrow.escrows.get(&delivery_id) {
            Some(r) => Ok(*r),
            None => Err(ContractError::Escrow(EscrowError::DeliveryNotFound)),
        }
    }

    /// Refund an escrow to its sender. The sender or the administrator may
    /// refund a locked escrow; an escrow under dispute (paused) or in
    /// holdback only the administrator. Refunding out of holdback also
    /// takes the dispute penalty off the driver's reputation when an
    /// identity contract is configured.
    pub fn refund_escrow(env: &mut Env, caller: Address, delivery_id: u64) -> (r: Result<(), ContractError>)
        ensures
            match refund_outcome(*old(env), caller, delivery_id) {
                Err(e) => r == Err::<(), ContractError>(e) && *final(env) == *old(env),
                Ok((v, iv, m)) => r is Ok && old(env).frame(final(env), true, false, false, false, true, true)
                    && final(env).escrow@ == v && final(env).identity@ == iv && final(env).tokens.balances@ == m,
            },
    {
        let rec = Self::load_escrow_for(env, caller, delivery_id)?;
        let admin = env.escrow.admin == Some(caller);
        if (rec.status == EscrowStatus::Paused || rec.status == EscrowStatus::Holdback) && !admin {
            return Err(ContractError::Fani(FaniLabError::Unauthorized));
        }
        if !admin && caller != rec.sender {
            return Err(ContractError::Fani(FaniLabError::Unauthorized));
        }
        if rec.status != EscrowStatus::Locked && rec.status != EscrowStatus::Paused && rec.status != EscrowStatus::Holdback {
            return Err(ContractError::Escrow(EscrowError::InvalidState));
        }
        if Self::contract_balance(env, rec.token) < rec.amount {
            return Err(ContractError::Escrow(EscrowError::InsufficientFunds));
        }
        let contract = env.escrow.address;
        let mut penalty: Option<u32> = None;
        if rec.status == EscrowStatus::Holdback {
            match env.escrow.identity_contract {
                None => {},
                Some(i) => {
                    let pts: u32 = match env.escrow.dispute_contract {
                        Some(d) => {
                            if d != env.dispute.address {
                                return Err(ContractError::MissingContract);
                            }
                            match env.dispute.reputation_penalty {
                                Some(p) => p,
                                None => DEFAULT_DISPUTE_REPUTATION_PENALTY,
                            }
                        },
                        None => DEFAULT_DISPUTE_REPUTATION_PENALTY,
                    };
                    if i != env.identity.address {
                        return Err(ContractError::MissingContract);
                    }
                    IdentityReputationContract::preview_decrease_reputation(env, contract, true, rec.driver, pts)?;
                    penalty = Some(pts);
                },
            }
        }
        match env.tokens.check_transfer(rec.token, contract, rec.sender, rec.amount) {
            Some(e) => { return Err(e); },
            None => {},
        }
        match penalty {
            Some(pts) => {
                let _ = IdentityReputationContract::decrease_reputation_as(env, contract, true, rec.driver, pts);
            },
            None => {},
        }
        Self::close_escrow(&mut env.escrow, delivery_id, rec, EscrowStatus::Refunded, false);
        let _ = env.tokens.transfer(rec.token, contract, rec.sender, rec.amount);
        Ok(())
    }

    /// A party (sender, recipient or driver) disputes a locked or holdback
    /// escrow: it is paused until resolved.
    pub fn raise_dispute(env: &mut Env, caller: Address, delivery_id: u64) -> (r: Result<(), ContractError>)
        ensures
            r == as_result(escrow_dispute_error(*old(env), caller, delivery_id)),
            r is Err ==> *final(env) == *old(env),
            r is Ok ==> old(env).frame(final(env), true, false, false, false, false, false)
                && final(env).escrow@ == disputed_view(*old(env), caller, delivery_id),
    {
        let rec = Self::load_escrow_for(env, caller, delivery_id)?;
        if caller != rec.sender && caller != rec.recipient && caller != rec.driver {
            return Err(ContractError::Fani(FaniLabError::Unauthorized));
        }
        if rec.status != EscrowStatus::Locked && rec.status != EscrowStatus::Holdback {
            return Err(ContractError::Escrow(EscrowError::InvalidState));
        }
        let ts = env.timestamp;
        env.escrow.escrows.insert(delivery_id, EscrowRecord {
            status: EscrowStatus::Paused,
            disputed_by: Some(caller),
            disputed_at: Some(ts),
            ..rec
        });
        Ok(())
    }

    /// The checks and token movements of `resolve_dispute`, on a copy of
    /// the balances: the escrow record and the balances after.
    fn plan_resolve_dispute(env: &Env, caller: Address, delivery_id: u64, release_to_driver: bool) -> (r: Result<(EscrowRecord, TokenLedger), ContractError>)
        ensures
            match resolve_dispute_outcome(*env, caller, delivery_id, release_to_driver) {
                Err(e) => r == Err::<(EscrowRecord, TokenLedger), ContractError>(e),
                Ok((v, m)) => r is Ok && r->Ok_0.0 == env.escrow@.escrows[delivery_id] && r->Ok_0.1.balances@ == m
                    && v == closed_view(env.escrow@, delivery_id, r->Ok_0.0,
                        if release_to_driver { EscrowStatus::Released } else { EscrowStatus::Refunded }, release_to_driver),
            },
    {
        env.require_auth(caller)?;
        Self::require_not_paused(env)?;
        Self::require_admin(env, caller)?;
        let rec = match env.escrow.escrows.get(&delivery_id) {
            Some(r) => *r,
            None => { return Err(ContractError::Escrow(EscrowError::DeliveryNotFound)); },
        };
        if rec.status != EscrowStatus::Paused {
            return Err(ContractError::Escrow(EscrowError::InvalidState));
        }
        if Self::contract_balance(env, rec.token) < rec.amount {
            return Err(ContractError::Escrow(EscrowError::InsufficientFunds));
        }
        let mut tok = env.tokens.snapshot();
        if release_to_driver {
            Self::settle_release(env, &mut tok, rec, delivery_id)?;
        } else {
            let contract = env.escrow.address;
            tok.transfer(rec.token, contract, rec.sender, rec.amount)?;
        }
        Ok((rec, tok))
    }

    /// Whether `resolve_dispute` would succeed, without changing anything.
    pub fn check_resolve_dispute(env: &Env, caller: Address, delivery_id: u64, release_to_driver: bool) -> (r: Result<(), ContractError>)
        ensures
            r == match resolve_dispute_outcome(*env, caller, delivery_id, release_to_driver) {
                Err(e) => Err::<(), ContractError>(e),
                Ok(_) => Ok(()),
            },
    {
        Self::plan_resolve_dispute(env, caller, delivery_id, release_to_driver)?;
        Ok(())
    }

    /// Settle a paused (disputed) escrow: to the driver (less the platform
    /// fee at the sender's volume-discounted rate) or back to the sender.
    /// Administrator only.
    pub fn resolve_dispute(env: &mut Env, caller: Address, delivery_id: u64, release_to_driver: bool) -> (r: Result<(), ContractError>)
        ensures
            match resolve_dispute_outcome(*old(env), caller, delivery_id, release_to_driver) {
                Err(e) => r == Err::<(), ContractError>(e) && *final(env) == *old(env),
                Ok((v, m)) => r is Ok && old(env).frame(final(env), true, false, false, false, false, true)
                    && final(env).escrow@ == v && final(env).tokens.balances@ == m,
            },
    {
        let (rec, tok) = Self::plan_resolve_dispute(env, caller, delivery_id, release_to_driver)?;
        if release_to_driver {
            Self::close_escrow(&mut env.escrow, delivery_id, rec, EscrowStatus::Released, true);
        } else {
            Self::close_escrow(&mut env.escrow, delivery_id, rec, EscrowStatus::Refunded, false);
        }
        env.tokens = tok;
        Ok(())
    }

    /// The sender's effective fee rate given the volume tiers.
    pub fn get_effective_fee_bps(env: &Env, base_fee_bps: u32, sender_volume: u32) -> (f: u32)
        ensures
            f == spec_effective_fee(env.escrow@.volume_tiers, base_fee_bps, sender_volume),
    {
        effective_fee_bps(&env.escrow.volume_tiers, base_fee_bps, sender_volume)
    }

    /// The checks and token movements of a split, on a copy of the
    /// balances: the escrow record and the balances after.
    fn plan_split(env: &Env, caller: Address, caller_is_invoker: bool, delivery_id: u64, sender_share_bps: u32) -> (r: Result<(EscrowRecord, TokenLedger), ContractError>)
        ensures
            match split_outcome(*env, caller, caller_is_invoker, delivery_id, sender_share_bps) {
                Err(e) => r == Err::<(EscrowRecord, TokenLedger), ContractError>(e),
                Ok((v, m)) => r is Ok && r->Ok_0.0 == env.escrow@.escrows[delivery_id] && r->Ok_0.1.balances@ == m
                    && v == closed_view(env.escrow@, delivery_id, r->Ok_0.0, EscrowStatus::Split, true),
            },
    {
        if !caller_is_invoker {
            env.require_auth(caller)?;
        }
        Self::require_not_paused(env)?;
        if env.escrow.admin != Some(caller) && env.escrow.dispute_contract != Some(caller) {
            return Err(ContractError::Fani(FaniLabError::Unauthorized));
        }
        if sender_share_bps > 10000 {
            return Err(ContractError::Escrow(EscrowError::InvalidFee));
        }
        let rec = match env.escrow.escrows.get(&delivery_id) {
            Some(r) => *r,
            None => { return Err(ContractError::Escrow(EscrowError::DeliveryNotFound)); },
        };
        if rec.status != EscrowStatus::Paused {
            return Err(ContractError::Escrow(EscrowError::InvalidState));
        }
        if Self::contract_balance(env, rec.token) < rec.amount {
            return Err(ContractError::Escrow(EscrowError::InsufficientFunds));
        }
        let sender_amount = calculate_fee(rec.amount, sender_share_bps);
        let driver_share = saturating_sub_i128(rec.amount, sender_amount);
        let volume = Self::get_sender_volume(env, rec.sender);
        let rate = Self::get_effective_fee_bps(env, Self::base_fee_bps(env), volume);
        let fee = calculate_fee(driver_share, rate);
        let net = saturating_sub_i128(driver_share, fee);
        let contract = env.escrow.address;
        let mut tok = env.tokens.snapshot();
        if sender_amount > 0 {
            tok.transfer(rec.token, contract, rec.sender, sender_amount)?;
        }
        Self::pay_driver(env, &mut tok, rec, delivery_id, net)?;
        Self::pay_fee(env, &mut tok, rec.token, fee)?;
        Ok((rec, tok))
    }

    /// Whether a split would succeed, without changing anything.
    pub fn check_split(env: &Env, caller: Address, caller_is_invoker: bool, delivery_id: u64, sender_share_bps: u32) -> (r: Result<(), ContractError>)
        ensures
            r == match split_outcome(*env, caller, caller_is_invoker, delivery_id, sender_share_bps) {
                Err(e) => Err::<(), ContractError>(e),
                Ok(_) => Ok(()),
            },
    {
        Self::plan_split(env, caller, caller_is_invoker, delivery_id, sender_share_bps)?;
        Ok(())
    }

    /// Split a paused escrow: `sender_share_bps` of it back to the sender,
    /// the rest less the platform fee (at the sender's effective rate) to
    /// the driver. The administrator or the configured dispute contract may
    /// split; `caller_is_invoker` says that `caller` is the contract making
    /// this call.
    pub(crate) fn resolve_dispute_split_as(env: &mut Env, caller: Address, caller_is_invoker: bool, delivery_id: u64, sender_share_bps: u32) -> (r: Result<(), ContractError>)
        ensures
            match split_outcome(*old(env), caller, caller_is_invoker, delivery_id, sender_share_bps) {
                Err(e) => r == Err::<(), ContractError>(e) && *final(env) == *old(env),
                Ok((v, m)) => r is Ok && old(env).frame(final(env), true, false, false, false, false, true)
                    && final(env).escrow@ == v && final(env).tokens.balances@ == m,
            },
    {
        let (rec, tok) = Self::plan_split(env, caller, caller_is_invoker, delivery_id, sender_share_bps)?;
        Self::close_escrow(&mut env.escrow, delivery_id, rec, EscrowStatus::Split, true);
        env.tokens = tok;
        Ok(())
    }

    /// `resolve_dispute_split_as` for a caller that signs the call itself.
    pub fn resolve_dispute_split(env: &mut Env, caller: Address, delivery_id: u64, sender_share_bps: u32) -> (r: Result<(), ContractError>)
        ensures
            match split_outcome(*old(env), caller, false, delivery_id, sender_share_bps) {
                Err(e) => r == Err::<(), ContractError>(e) && *final(env) == *old(env),
                Ok((v, m)) => r is Ok && old(env).frame(final(env), true, false, false, false, false, true)
                    && final(env).escrow@ == v && final(env).tokens.balances@ == m,
            },
    {
        Self::resolve_dispute_split_as(env, caller, false, delivery_id, sender_share_bps)
    }

    /// The dispute contract freezes a locked or holdback escrow (pausing
    /// it); other escrows are left as they are. Works while the protocol is
    /// paused. `caller_is_invoker` says that `caller` is the contract making
    /// this call.
    pub(crate) fn freeze_funds_as(env: &mut Env, caller: Address, caller_is_invoker: bool, delivery_id: u64) -> (r: Result<(), ContractError>)
        ensures
            r == (if !caller_is_invoker && !old(env).authorizes(caller) {
                Err(ContractError::AuthRequired)
            } else if old(env).escrow@.dispute_contract is None {
                Err(fani_err(FaniLabError::NotInitialized))
            } else if old(env).escrow@.dispute_contract != Some(caller) {
                Err(fani_err(FaniLabError::Unauthorized))
            } else if !old(env).escrow@.escrows.contains_key(delivery_id) {
                Err(esc_err(EscrowError::DeliveryNotFound))
            } else {
                Ok(())
            }),
            r is Err ==> *final(env) == *old(env),
            r is Ok ==> old(env).frame(final(env), true, false, false, false, false, false) && {
                final(env).escrow@ == frozen_view(*old(env), delivery_id)
            },
    {
        if !caller_is_invoker {
            env.require_auth(caller)?;
        }
        match env.escrow.dispute_contract {
            None => { return Err(ContractError::Fani(FaniLabError::NotInitialized)); },
            Some(d) => {
                if d != caller {
                    return Err(ContractError::Fani(FaniLabError::Unauthorized));
                }
            },
        }
        let rec = match env.escrow.escrows.get(&delivery_id) {
            Some(r) => *r,
            None => { return Err(ContractError::Escrow(EscrowError::DeliveryNotFound)); },
        };
        if rec.status == EscrowStatus::Locked || rec.status == EscrowStatus::Holdback {
            let ts = env.timestamp;
            env.escrow.escrows.insert(delivery_id, EscrowRecord {
                status: EscrowStatus::Paused,
                disputed_at: Some(ts),
                ..rec
            });
        }
        Ok(())
    }

    /// `freeze_funds_as` for a caller that signs the call itself.
    pub fn freeze_funds(env: &mut Env, caller: Address, delivery_id: u64) -> (r: Result<(), ContractError>)
        ensures
            r == (if !old(env).authorizes(caller) {
                Err(ContractError::AuthRequired)
            } else if old(env).escrow@.dispute_contract is None {
                Err(fani_err(FaniLabError::NotInitialized))
            } else if old(env).escrow@.dispute_contract != Some(caller) {
                Err(fani_err(FaniLabError::Unauthorized))
            } else if !old(env).escrow@.escrows.contains_key(delivery_id) {
                Err(esc_err(EscrowError::DeliveryNotFound))
            } else {
                Ok(())
            }),
            r is Err ==> *final(env) == *old(env),
            r is Ok ==> old(env).frame(final(env), true, false, false, false, false, false) && {
                final(env).escrow@ == frozen_view(*old(env), delivery_id)
            },
    {
        Self::freeze_funds_as(env, caller, false, delivery_id)
    }

    /// Return an expired, still locked escrow to its sender. Anyone may call
    /// this once the expiry time has passed.
    pub fn reclaim_expired_escrow(env: &mut Env, delivery_id: u64) -> (r: Result<(), ContractError>)
        ensures
            match reclaim_outcome(*old(env), delivery_id) {
                Err(e) => r == Err::<(), ContractError>(e) && *final(env) == *old(env),
                Ok((v, m)) => r is Ok && old(env).frame(final(env), true, false, false, false, false, true)
                    && final(env).escrow@ == v && final(env).tokens.balances@ == m,
            },
    {
        Self::require_not_paused(env)?;
        let rec = match env.escrow.escrows.get(&delivery_id) {
            Some(r) => *r,
            None => { return Err(ContractError::Escrow(EscrowError::DeliveryNotFound)); },
        };
        if rec.status != EscrowStatus::Locked {
            return Err(ContractError::Escrow(EscrowError::InvalidState));
        }
        match rec.expires_at {
            None => { return Err(ContractError::Escrow(EscrowError::InvalidState)); },
            Some(t) => {
                if env.timestamp <= t {
                    return Err(ContractError::Escrow(EscrowError::InvalidState));
                }
            },
        }
        if Self::contract_balance(env, rec.token) < rec.amount {
            return Err(ContractError::Escrow(EscrowError::InsufficientFunds));
        }
        let contract = env.escrow.address;
        match env.tokens.check_transfer(rec.token, contract, rec.sender, rec.amount) {
            Some(e) => { return Err(e); },
            None => {},
        }
        Self::close_escrow(&mut env.escrow, delivery_id, rec, EscrowStatus::Refunded, false);
        let _ = env.tokens.transfer(rec.token, contract, rec.sender, rec.amount);
        Ok(())
    }

    /// Completed escrows of `sender`.
    pub fn get_sender_volume(env: &Env, sender: Address) -> (v: u32)
        ensures
            v == env.escrow@.volume(sender),
    {
        match env.escrow.sender_volume.get(&sender.id) {
            Some(v) => *v,
            None => 0,
        }
    }

    /// Escrow ids of `sender`, oldest first (at most 100).
    pub fn get_escrows_by_sender(env: &Env, sender: Address) -> (ids: Vec<u64>)
        ensures
            ids@ == page_of(ids_in(env.escrow@.index, sender, 0), 0, 100),
    {
        env.escrow.index.page(sender, 0, 0, 100)
    }

    /// Escrow ids of `recipient`, oldest first (at most 100).
    pub fn get_escrows_by_recipient(env: &Env, recipient: Address) -> (ids: Vec<u64>)
        ensures
            ids@ == page_of(ids_in(env.escrow@.index, recipient, 1), 0, 100),
    {
        env.escrow.index.page(recipient, 1, 0, 100)
    }

    /// Escrow ids of `driver`, oldest first (at most 100).
    pub fn get_escrows_by_driver(env: &Env, driver: Address) -> (ids: Vec<u64>)
        ensures
            ids@ == page_of(ids_in(env.escrow@.index, driver, 2), 0, 100),
    {
        env.escrow.index.page(driver, 2, 0, 100)
    }

    /// A page of the escrow ids of `owner` under `kind` (0 sender, 1
    /// recipient, 2 driver) from `offset`, at most `min(limit, 100)` long.
    pub fn get_escrows_page(env: &Env, owner: Address, kind: u32, offset: u32, limit: u32) -> (ids: Vec<u64>)
        ensures
            ids@ == page_of(ids_in(env.escrow@.index, owner, kind), offset, limit),
    {
        env.escrow.index.page(owner, kind, offset, limit)
    }

    /// Amount held in open escrows of `token`.
    pub fn get_total_locked(env: &Env, token: Address) -> (t: i128)
        ensures
            t == env.escrow@.locked(token),
    {
        match env.escrow.total_locked.get(&token.id) {
            Some(t) => *t,
            None => 0,
        }
    }

    /// The contract's balance of `token` beyond what open escrows hold, or
    /// zero when the balance does not exceed the locked total.
    pub fn get_untracked_balance(env: &Env, token: Address) -> (u: i128)
        ensures
            ({
                let b = env.tokens.balance_of(token, env.escrow.address);
                let l = env.escrow@.locked(token);
                u == if b > l { sat_sub(b, l) } else { 0 }
            }),
    {
        let b = Self::contract_balance(env, token);
        let l = Self::get_total_locked(env, token);
        if b > l {
            saturating_sub_i128(b, l)
        } else {
            0
        }
    }

    /// Send the contract's balance of `token` beyond what open escrows hold
    /// to `recipient`, returning the amount (zero when there is none).
    /// Administrator only.
    pub fn sweep_untracked_balance(env: &mut Env, admin: Address, token: Address, recipient: Address) -> (r: Result<i128, ContractError>)
        ensures
            ({
                let bal = old(env).tokens.balance_of(token, old(env).escrow.address);
                let locked = old(env).escrow@.locked(token);
                if auth_admin_error(*old(env), admin) is Some {
                    r == Err::<i128, ContractError>(auth_admin_error(*old(env), admin)->0) && *final(env) == *old(env)
                } else if old(env).escrow@.paused {
                    r == Err::<i128, ContractError>(fani_err(FaniLabError::ProtocolPaused)) && *final(env) == *old(env)
                } else if bal <= locked {
                    r == Ok::<i128, ContractError>(0) && *final(env) == *old(env)
                } else {
                    match transfer_result(old(env).tokens.balances@, token, old(env).escrow.address, recipient, sat_sub(bal, locked)) {
                        Err(e) => r == Err::<i128, ContractError>(e) && *final(env) == *old(env),
                        Ok(m) => r == Ok::<i128, ContractError>(sat_sub(bal, locked))
                            && old(env).frame(final(env), false, false, false, false, false, true)
                            && final(env).tokens.balances@ == m,
                    }
                }
            }),
    {
        Self::require_auth_admin(env, admin)?;
        Self::require_not_paused(env)?;
        let bal = Self::contract_balance(env, token);
        let locked = Self::get_total_locked(env, token);
        if bal <= locked {
            return Ok(0);
        }
        let untracked = saturating_sub_i128(bal, locked);
        let contract = env.escrow.address;
        env.tokens.transfer(token, contract, recipient, untracked)?;
        Ok(untracked)
    }

    /// Replace the volume tiers after validating them. Administrator only.
    pub fn set_volume_tiers(env: &mut Env, admin: Address, tiers: Vec<VolumeTier>) -> (r: Result<(), ContractError>)
        ensures
            r == (if auth_admin_error(*old(env), admin) is Some {
                Err(auth_admin_error(*old(env), admin)->0)
            } else if !tiers_valid(tiers@) {
                Err(esc_err(EscrowError::InvalidFee))
            } else {
                Ok(())
            }),
            r is Err ==> *final(env) == *old(env),
            r is Ok ==> old(env).frame(final(env), true, false, false, false, false, false)
                && final(env).escrow@ == (EscrowView { volume_tiers: tiers@, ..old(env).escrow@ }),
    {
        Self::require_auth_admin(env, admin)?;
        validate_volume_tiers(&tiers)?;
        env.escrow.volume_tiers = tiers;
        Ok(())
    }

    /// The volume tiers (empty unless set).
    pub fn get_volume_tiers(env: &Env) -> (t: Vec<VolumeTier>)
        ensures
            t@ == env.escrow@.volume_tiers,
    {
        env.escrow.volume_tiers.clone()
    }
}

} // verus!
