//! The delivery contract: records deliveries and drives each through its
//! lifecycle, keeping the funding escrow in step.
use vstd::prelude::*;
use std::collections::HashMap;
use crate::types::{
    pair_key, lemma_pair_key_injective, Address, ContractError, DeliveryError, DeliveryMetadata, DeliveryRecord, DeliveryStatus, DriverProfile,
    EscrowRecord, EscrowStatus, FaniLabError, UserProfile,
};
use crate::env::Env;
use crate::index::{IdIndex, ids_in, page_of};
use crate::escrow::{
    EscrowContract, EscrowView, as_result, push_id, refund_outcome, holdback_mark_error, holdback_view,
    escrow_dispute_error, disputed_view,
};
use crate::identity::{
    IdentityReputationContract, IdentityView, identity_pause_error, identity_require_escrow_not_paused,
    increase_reputation_outcome,
};

verus! {

broadcast use vstd::std_specs::hash::group_hash_axioms;


/// Most deliveries one batch may create.
pub const MAX_BATCH_SIZE: u32 = 100;
/// Longest origin or destination, in bytes.
pub const MAX_LOCATION_LEN: u32 = 256;
/// Heaviest cargo, in grams.
pub const MAX_WEIGHT_GRAMS: u32 = 1000000;

/// The delivery state machine: Pending to Active or Cancelled; Active to
/// InTransit, Disputed or Cancelled; InTransit to Delivered or Disputed;
/// Delivered to Disputed; Disputed back to Delivered. Nothing else.
pub open spec fn transition_allowed(from: DeliveryStatus, to: DeliveryStatus) -> bool {
    match (from, to) {
        (DeliveryStatus::Pending, DeliveryStatus::Active) => true,
        (DeliveryStatus::Pending, DeliveryStatus::Cancelled) => true,
        (DeliveryStatus::Active, DeliveryStatus::InTransit) => true,
        (DeliveryStatus::Active, DeliveryStatus::Disputed) => true,
        (DeliveryStatus::Active, DeliveryStatus::Cancelled) => true,
        (DeliveryStatus::InTransit, DeliveryStatus::Delivered) => true,
        (DeliveryStatus::InTransit, DeliveryStatus::Disputed) => true,
        (DeliveryStatus::Delivered, DeliveryStatus::Disputed) => true,
        (DeliveryStatus::Disputed, DeliveryStatus::Delivered) => true,
        _ => false,
    }
}

/// Whether a status transition is permitted by the delivery state machine.
pub fn validate_transition(from: DeliveryStatus, to: DeliveryStatus) -> (r: Result<(), FaniLabError>)
    ensures
        r == (if transition_allowed(from, to) { Ok::<(), FaniLabError>(()) } else { Err(FaniLabError::InvalidState) }),
{
    let valid = match (from, to) {
        (DeliveryStatus::Pending, DeliveryStatus::Active) => true,
        (DeliveryStatus::Pending, DeliveryStatus::Cancelled) => true,
        (DeliveryStatus::Active, DeliveryStatus::InTransit) => true,
        (DeliveryStatus::Active, DeliveryStatus::Disputed) => true,
        (DeliveryStatus::Active, DeliveryStatus::Cancelled) => true,
        (DeliveryStatus::InTransit, DeliveryStatus::Delivered) => true,
        (DeliveryStatus::InTransit, DeliveryStatus::Disputed) => true,
        (DeliveryStatus::Delivered, DeliveryStatus::Disputed) => true,
        (DeliveryStatus::Disputed, DeliveryStatus::Delivered) => true,
        _ => false,
    };
    if valid { Ok(()) } else { Err(FaniLabError::InvalidState) }
}

/// Valid metadata: origin and destination of 1 to 256 bytes, weight from 1
/// gram to 1 000 kg.
pub open spec fn metadata_valid(m: DeliveryMetadata) -> bool {
    &&& 0 < m.origin@.len() <= MAX_LOCATION_LEN
    &&& 0 < m.destination@.len() <= MAX_LOCATION_LEN
    &&& 0 < m.cargo_description.weight_grams <= MAX_WEIGHT_GRAMS
}

/// Check caller-supplied metadata.
pub fn validate_delivery_metadata(metadata: &DeliveryMetadata) -> (r: Result<(), DeliveryError>)
    ensures
        r == (if metadata_valid(*metadata) { Ok::<(), DeliveryError>(()) } else { Err(DeliveryError::InvalidMetadata) }),
{
    if metadata.origin.len() == 0 || metadata.origin.len() > MAX_LOCATION_LEN as usize {
        return Err(DeliveryError::InvalidMetadata);
    }
    if metadata.destination.len() == 0 || metadata.destination.len() > MAX_LOCATION_LEN as usize {
        return Err(DeliveryError::InvalidMetadata);
    }
    let w = metadata.cargo_description.weight_grams;
    if w == 0 || w > MAX_WEIGHT_GRAMS {
        return Err(DeliveryError::InvalidMetadata);
    }
    Ok(())
}

/// Whether a delivery status and its escrow's status agree: Pending, Active
/// and InTransit with Locked; Delivered with Holdback or Released; Disputed
/// with Paused; Cancelled with Refunded.
pub open spec fn states_synchronized(d: DeliveryStatus, e: EscrowStatus) -> bool {
    match (d, e) {
        (DeliveryStatus::Pending, EscrowStatus::Locked) => true,
        (DeliveryStatus::Active, EscrowStatus::Locked) => true,
        (DeliveryStatus::InTransit, EscrowStatus::Locked) => true,
        (DeliveryStatus::Delivered, EscrowStatus::Holdback) => true,
        (DeliveryStatus::Delivered, EscrowStatus::Released) => true,
        (DeliveryStatus::Disputed, EscrowStatus::Paused) => true,
        (DeliveryStatus::Cancelled, EscrowStatus::Refunded) => true,
        _ => false,
    }
}

impl DeliveryMetadata {
    /// Equal field by field, locations by their bytes.
    pub open spec fn same_as(self, o: DeliveryMetadata) -> bool {
        &&& self.delivery_id == o.delivery_id
        &&& self.origin@ == o.origin@
        &&& self.destination@ == o.destination@
        &&& self.cargo_description == o.cargo_description
        &&& self.created_at == o.created_at
        &&& self.estimated_delivery == o.estimated_delivery
    }

    pub fn copied(&self) -> (r: DeliveryMetadata)
        ensures
            r.same_as(*self),
    {
        DeliveryMetadata {
            delivery_id: self.delivery_id,
            origin: self.origin.clone(),
            destination: self.destination.clone(),
            cargo_description: self.cargo_description,
            created_at: self.created_at,
            estimated_delivery: self.estimated_delivery,
        }
    }
}

impl DeliveryRecord {
    /// Equal field by field, metadata by `same_as`.
    pub open spec fn same_as(self, o: DeliveryRecord) -> bool {
        &&& self.delivery_id == o.delivery_id
        &&& self.sender == o.sender
        &&& self.recipient == o.recipient
        &&& self.driver == o.driver
        &&& self.status == o.status
        &&& self.metadata.same_as(o.metadata)
        &&& self.created_at == o.created_at
        &&& self.delivered_at == o.delivered_at
        &&& self.transit_started_at == o.transit_started_at
    }

    pub fn copied(&self) -> (r: DeliveryRecord)
        ensures
            r.same_as(*self),
    {
        DeliveryRecord {
            delivery_id: self.delivery_id,
            sender: self.sender,
            recipient: self.recipient,
            driver: self.driver,
            status: self.status,
            metadata: self.metadata.copied(),
            created_at: self.created_at,
            delivered_at: self.delivered_at,
            transit_started_at: self.transit_started_at,
        }
    }
}

/// Abstract storage of the delivery contract.
#[verifier::ext_equal]
pub struct DeliveryView {
    pub admin: Option<Address>,
    pub escrow_contract: Option<Address>,
    pub identity_contract: Option<Address>,
    pub counter: u64,
    pub deliveries: Map<u64, DeliveryRecord>,
    pub index: Map<u128, Seq<u64>>,
}

impl View for DeliveryContract {
    type V = DeliveryView;

    open spec fn view(&self) -> DeliveryView {
        DeliveryView {
            admin: self.admin,
            escrow_contract: self.escrow_contract,
            identity_contract: self.identity_contract,
            counter: self.counter,
            deliveries: self.deliveries@,
            index: self.index@,
        }
    }
}

impl DeliveryView {
    /// Every stored delivery has an id from 1 to the counter.
    pub open spec fn wf(self) -> bool {
        forall|k: u64| self.deliveries.contains_key(k) ==> 1 <= k <= self.counter
    }

    /// The view with delivery `id` replaced by `r`.
    pub open spec fn with_delivery(self, id: u64, r: DeliveryRecord) -> DeliveryView {
        DeliveryView { deliveries: self.deliveries.insert(id, r), ..self }
    }
}

/// Why the delivery contract's escrow-pause precondition fails, if it does.
pub open spec fn delivery_pause_error(env: Env) -> Option<ContractError> {
    match env.delivery.escrow_contract {
        None => Some(ContractError::Fani(FaniLabError::NotInitialized)),
        Some(e) => match env.spec_is_paused_at(e) {
            Err(x) => Some(x),
            Ok(true) => Some(ContractError::Fani(FaniLabError::ProtocolPaused)),
            Ok(false) => None,
        },
    }
}

fn delivery_require_escrow_not_paused(env: &Env) -> (r: Result<(), ContractError>)
    ensures
        r == (match delivery_pause_error(*env) {
            Some(e) => Err(e),
            None => Ok(()),
        }),
{
    match env.delivery.escrow_contract {
        None => Err(ContractError::Fani(FaniLabError::NotInitialized)),
        Some(e) => {
            let paused = env.is_paused_at(e)?;
            if paused {
                Err(ContractError::Fani(FaniLabError::ProtocolPaused))
            } else {
                Ok(())
            }
        },
    }
}

/// Why loading delivery `id` fails after the caller's authorization and
/// the pause check, if it does.
pub open spec fn delivery_load_error(env: Env, caller: Address, id: u64) -> Option<ContractError> {
    if !env.authorizes(caller) {
        Some(ContractError::AuthRequired)
    } else if delivery_pause_error(env) is Some {
        delivery_pause_error(env)
    } else if !env.delivery@.deliveries.contains_key(id) {
        Some(ContractError::Fani(FaniLabError::DeliveryNotFound))
    } else {
        None
    }
}

pub open spec fn del_err(e: DeliveryError) -> ContractError {
    ContractError::Delivery(e)
}

pub open spec fn fani(e: FaniLabError) -> ContractError {
    ContractError::Fani(e)
}

/// Why making sure `user` has an identity profile fails, if it does: an
/// unregistered user registers, which takes the user's authorization and
/// an unpaused protocol.
pub open spec fn profile_error(env: Env, user: Address) -> Option<ContractError> {
    if env.identity@.users.contains_key(user.id) {
        None
    } else if !env.authorizes(user) {
        Some(ContractError::AuthRequired)
    } else {
        identity_pause_error(env)
    }
}

/// `users` with a profile for `user` registered at `now` unless it has one.
pub open spec fn with_profile(users: Map<u64, UserProfile>, user: Address, now: u64) -> Map<u64, UserProfile> {
    if users.contains_key(user.id) {
        users
    } else {
        users.insert(user.id, UserProfile { address: user, registered_at: now })
    }
}

/// Why registering the sender and the recipient in the configured identity
/// contract fails, if it does.
pub open spec fn parties_error(env: Env, sender: Address, recipient: Address) -> Option<ContractError> {
    match env.delivery.identity_contract {
        None => None,
        Some(i) => if i != env.identity.address {
            Some(ContractError::MissingContract)
        } else if profile_error(env, sender) is Some {
            profile_error(env, sender)
        } else {
            profile_error(env, recipient)
        },
    }
}

/// The identity storage once the sender and the recipient are registered
/// (unchanged without a configured identity contract).
pub open spec fn parties_registered(env: Env, sender: Address, recipient: Address) -> IdentityView {
    match env.delivery.identity_contract {
        None => env.identity@,
        Some(_) => IdentityView {
            users: with_profile(with_profile(env.identity@.users, sender, env.timestamp), recipient, env.timestamp),
            ..env.identity@
        },
    }
}

/// The record of a new delivery `id`: pending, no driver, and the caller's
/// metadata with its id field set to `id`.
pub open spec fn new_delivery(id: u64, sender: Address, recipient: Address, metadata: DeliveryMetadata, now: u64) -> DeliveryRecord {
    DeliveryRecord {
        delivery_id: id,
        sender,
        recipient,
        driver: None,
        status: DeliveryStatus::Pending,
        metadata: DeliveryMetadata { delivery_id: id, ..metadata },
        created_at: now,
        delivered_at: None,
        transit_started_at: None,
    }
}

/// Why `create_delivery` fails, if it does.
pub open spec fn create_delivery_error(env: Env, sender: Address, recipient: Address, metadata: DeliveryMetadata) -> Option<ContractError> {
    if !env.authorizes(sender) {
        Some(ContractError::AuthRequired)
    } else if delivery_pause_error(env) is Some {
        delivery_pause_error(env)
    } else if sender == recipient {
        Some(del_err(DeliveryError::InvalidParties))
    } else if !metadata_valid(metadata) {
        Some(del_err(DeliveryError::InvalidMetadata))
    } else if parties_error(env, sender, recipient) is Some {
        parties_error(env, sender, recipient)
    } else if env.delivery.counter == u64::MAX
        || ids_in(env.delivery@.index, sender, 0).len() >= u32::MAX
        || ids_in(env.delivery@.index, recipient, 1).len() >= u32::MAX {
        Some(ContractError::ArithmeticOverflow)
    } else {
        None
    }
}

/// The delivery storage after `create_delivery`: the next id, its record,
/// and the id appended to the sender's and the recipient's lists.
pub open spec fn created_view(env: Env, sender: Address, recipient: Address, metadata: DeliveryMetadata) -> DeliveryView {
    let id = (env.delivery.counter + 1) as u64;
    DeliveryView {
        counter: id,
        deliveries: env.delivery@.deliveries.insert(id, new_delivery(id, sender, recipient, metadata, env.timestamp)),
        index: push_id(push_id(env.delivery@.index, sender, 0, id), recipient, 1, id),
        ..env.delivery@
    }
}

/// Every element of `list` is valid metadata.
pub open spec fn all_metadata_valid(list: Seq<DeliveryMetadata>) -> bool {
    forall|i: int| 0 <= i < list.len() ==> metadata_valid(#[trigger] list[i])
}

/// The `n` ids handed out after `counter`, in order.
pub open spec fn batch_ids(counter: u64, n: nat) -> Seq<u64> {
    Seq::new(n, |i: int| (counter + 1 + i) as u64)
}

/// `ids` appended to the list of `owner` under `kind` (no change for no
/// ids).
pub open spec fn append_ids(m: Map<u128, Seq<u64>>, owner: Address, kind: u32, ids: Seq<u64>) -> Map<u128, Seq<u64>> {
    if ids.len() == 0 {
        m
    } else {
        m.insert(pair_key(owner.id, kind as u64), ids_in(m, owner, kind) + ids)
    }
}

/// `ids` appended to the sender's and to the recipient's lists.
pub open spec fn append_both(m: Map<u128, Seq<u64>>, sender: Address, recipient: Address, ids: Seq<u64>) -> Map<u128, Seq<u64>> {
    append_ids(append_ids(m, sender, 0, ids), recipient, 1, ids)
}

/// The records of a batch added to `m`: the i-th metadata becomes
/// delivery `counter + 1 + i`.
pub open spec fn batch_records(m: Map<u64, DeliveryRecord>, counter: u64, sender: Address, recipient: Address, list: Seq<DeliveryMetadata>, now: u64) -> Map<u64, DeliveryRecord>
    decreases list.len(),
{
    if list.len() == 0 {
        m
    } else {
        let id = (counter + list.len()) as u64;
        batch_records(m, counter, sender, recipient, list.drop_last(), now)
            .insert(id, new_delivery(id, sender, recipient, list.last(), now))
    }
}

/// Why `create_deliveries_batch` fails, if it does.
pub open spec fn batch_error(env: Env, sender: Address, recipient: Address, list: Seq<DeliveryMetadata>) -> Option<ContractError> {
    if !env.authorizes(sender) {
        Some(ContractError::AuthRequired)
    } else if delivery_pause_error(env) is Some {
        delivery_pause_error(env)
    } else if list.len() > MAX_BATCH_SIZE {
        Some(del_err(DeliveryError::BatchTooLarge))
    } else if !all_metadata_valid(list) {
        Some(del_err(DeliveryError::InvalidMetadata))
    } else if parties_error(env, sender, recipient) is Some {
        parties_error(env, sender, recipient)
    } else if env.delivery.counter + list.len() > u64::MAX
        || (list.len() > 0 && (ids_in(env.delivery@.index, sender, 0).len() + list.len() > u32::MAX
            || ids_in(env.delivery@.index, recipient, 1).len() + list.len() > u32::MAX)) {
        Some(ContractError::ArithmeticOverflow)
    } else {
        None
    }
}

/// The delivery storage after a batch.
pub open spec fn batch_view(env: Env, sender: Address, recipient: Address, list: Seq<DeliveryMetadata>) -> DeliveryView {
    DeliveryView {
        counter: (env.delivery.counter + list.len()) as u64,
        deliveries: batch_records(env.delivery@.deliveries, env.delivery.counter, sender, recipient, list, env.timestamp),
        index: append_both(env.delivery@.index, sender, recipient, batch_ids(env.delivery.counter, list.len())),
        ..env.delivery@
    }
}

/// The records a batch adds: ids `counter + 1` to `counter + n`, the i-th
/// built from the i-th metadata; other records stay.
pub proof fn lemma_batch_records(m: Map<u64, DeliveryRecord>, counter: u64, sender: Address, recipient: Address, list: Seq<DeliveryMetadata>, now: u64)
    requires
        counter + list.len() <= u64::MAX,
    ensures
        forall|k: u64| #[trigger] batch_records(m, counter, sender, recipient, list, now).contains_key(k)
            <==> (m.contains_key(k) || (counter < k <= counter + list.len())),
        forall|k: u64| counter < k <= counter + list.len() ==>
            #[trigger] batch_records(m, counter, sender, recipient, list, now)[k]
                == new_delivery(k, sender, recipient, list[k - counter - 1], now),
        forall|k: u64| !(counter < k <= counter + list.len()) ==>
            #[trigger] batch_records(m, counter, sender, recipient, list, now)[k] == m[k],
    decreases list.len(),
{
    if list.len() > 0 {
        lemma_batch_records(m, counter, sender, recipient, list.drop_last(), now);
    }
}

/// Appending one more id to both lists extends the batch by one.
proof fn lemma_append_both_step(m: Map<u128, Seq<u64>>, sender: Address, recipient: Address, ids: Seq<u64>, id: u64)
    ensures
        push_id(push_id(append_both(m, sender, recipient, ids), sender, 0, id), recipient, 1, id)
            == append_both(m, sender, recipient, ids.push(id)),
{
    let ks = pair_key(sender.id, 0u32 as u64);
    let kr = pair_key(recipient.id, 1u32 as u64);
    lemma_pair_key_injective(sender.id, 0, recipient.id, 1);
    assert(ks != kr);
    let a = append_both(m, sender, recipient, ids);
    let b = append_both(m, sender, recipient, ids.push(id));
    let lhs = push_id(push_id(a, sender, 0, id), recipient, 1, id);
    assert(ids_in(a, sender, 0) == ids_in(m, sender, 0) + ids) by {
        if ids.len() == 0 {
            assert(ids_in(m, sender, 0) + ids =~= ids_in(m, sender, 0));
        }
    };
    assert(ids_in(push_id(a, sender, 0, id), recipient, 1) == ids_in(m, recipient, 1) + ids) by {
        if ids.len() == 0 {
            assert(ids_in(m, recipient, 1) + ids =~= ids_in(m, recipient, 1));
        }
    };
    assert((ids_in(m, sender, 0) + ids).push(id) =~= ids_in(m, sender, 0) + ids.push(id));
    assert((ids_in(m, recipient, 1) + ids).push(id) =~= ids_in(m, recipient, 1) + ids.push(id));
    assert(lhs =~= b);
}

/// Why the sender's cancellation of delivery `id` fails before the escrow
/// refund, if it does.
pub open spec fn cancel_error(env: Env, sender: Address, id: u64) -> Option<ContractError> {
    if delivery_load_error(env, sender, id) is Some {
        delivery_load_error(env, sender, id)
    } else if env.delivery@.deliveries[id].sender != sender {
        Some(fani(FaniLabError::Unauthorized))
    } else if !transition_allowed(env.delivery@.deliveries[id].status, DeliveryStatus::Cancelled) {
        Some(fani(FaniLabError::InvalidState))
    } else {
        None
    }
}

/// The reputation credit a confirmation of delivery `id` earns its driver:
/// the driver's new profile, `None` without a driver or an identity
/// contract, or why crediting fails.
pub open spec fn confirm_credit(env: Env, id: u64) -> Result<Option<DriverProfile>, ContractError> {
    let d = env.delivery@.deliveries[id];
    match (d.driver, env.delivery.identity_contract) {
        (Some(drv), Some(i)) => if i != env.identity.address {
            Err(ContractError::MissingContract)
        } else {
            match increase_reputation_outcome(env, env.delivery.address, true, drv,
                d.metadata.cargo_description.weight_grams, d.metadata.cargo_description.fragile) {
                Err(e) => Err(e),
                Ok(p) => Ok(Some(p)),
            }
        },
        _ => Ok(None),
    }
}

/// Why the recipient's confirmation of delivery `id` fails, if it does.
pub open spec fn confirm_error(env: Env, recipient: Address, id: u64) -> Option<ContractError> {
    if delivery_load_error(env, recipient, id) is Some {
        delivery_load_error(env, recipient, id)
    } else {
        let d = env.delivery@.deliveries[id];
        if recipient != d.recipient {
            Some(fani(FaniLabError::Unauthorized))
        } else if d.driver is Some && (d.driver->0 == recipient || d.driver->0 == d.sender) {
            Some(del_err(DeliveryError::InvalidDriver))
        } else if !transition_allowed(d.status, DeliveryStatus::Delivered) {
            Some(fani(FaniLabError::InvalidState))
        } else if holdback_mark_error(env, recipient, id) is Some {
            holdback_mark_error(env, recipient, id)
        } else if confirm_credit(env, id) is Err {
            Some(confirm_credit(env, id)->Err_0)
        } else {
            None
        }
    }
}

/// The identity storage after a confirmation of delivery `id`.
pub open spec fn confirmed_identity(env: Env, id: u64) -> IdentityView {
    match confirm_credit(env, id) {
        Ok(Some(p)) => env.identity@.with_driver(env.delivery@.deliveries[id].driver->0, p),
        _ => env.identity@,
    }
}

/// Why `caller`'s dispute of delivery `id` fails, if it does: the caller
/// is a party, the delivery may become disputed, and the escrow accepts
/// the dispute.
pub open spec fn delivery_dispute_error(env: Env, caller: Address, id: u64) -> Option<ContractError> {
    if !env.authorizes(caller) {
        Some(ContractError::AuthRequired)
    } else if !env.delivery@.deliveries.contains_key(id) {
        Some(fani(FaniLabError::DeliveryNotFound))
    } else {
        let d = env.delivery@.deliveries[id];
        if caller != d.sender && caller != d.recipient && d.driver != Some(caller) {
            Some(fani(FaniLabError::Unauthorized))
        } else if !transition_allowed(d.status, DeliveryStatus::Disputed) {
            Some(fani(FaniLabError::InvalidState))
        } else if env.delivery.escrow_contract is None {
            Some(fani(FaniLabError::NotInitialized))
        } else if env.delivery.escrow_contract->0 != env.escrow.address {
            Some(ContractError::MissingContract)
        } else {
            escrow_dispute_error(env, caller, id)
        }
    }
}

/// The delivery storage with delivery `id` in `status`.
pub open spec fn with_status(env: Env, id: u64, status: DeliveryStatus) -> DeliveryView {
    env.delivery@.with_delivery(id, DeliveryRecord { status, ..env.delivery@.deliveries[id] })
}

/// Storage of the delivery contract.
pub struct DeliveryContract {
    pub address: Address,
    pub admin: Option<Address>,
    pub escrow_contract: Option<Address>,
    pub identity_contract: Option<Address>,
    /// The last delivery id handed out.
    pub counter: u64,
    pub deliveries: HashMap<u64, DeliveryRecord>,
    /// Delivery ids per owner and kind: 0 sender, 1 recipient.
    pub index: IdIndex,
}

impl DeliveryContract {
    /// A freshly deployed, uninitialized contract at `address`.
    pub open spec fn is_fresh(&self, address: Address) -> bool {
        &&& self.address == address
        &&& self.admin is None
        &&& self.escrow_contract is None
        &&& self.identity_contract is None
        &&& self.counter == 0
        &&& self.deliveries@ == Map::<u64, DeliveryRecord>::empty()
        &&& self.index@ == Map::<u128, Seq<u64>>::empty()
    }

    pub fn new(address: Address) -> (c: DeliveryContract)
        ensures
            c.is_fresh(address),
    {
        DeliveryContract {
            address,
            admin: None,
            escrow_contract: None,
            identity_contract: None,
            counter: 0,
            deliveries: HashMap::new(),
            index: IdIndex::new(),
        }
    }

    /// Initialize with the administrator and the escrow contract. Delivery
    /// ids start after zero.
    pub fn init(env: &mut Env, admin: Address, escrow_contract: Address) -> (r: Result<(), ContractError>)
        ensures
            r == (if old(env).delivery.admin is Some {
                Err(fani(FaniLabError::AlreadyInitialized))
            } else {
                Ok(())
            }),
            r is Err ==> *final(env) == *old(env),
            r is Ok ==> old(env).frame(final(env), false, true, false, false, false, false)
                && final(env).delivery@ == (DeliveryView {
                    admin: Some(admin),
                    escrow_contract: Some(escrow_contract),
                    counter: 0,
                    ..old(env).delivery@
                }),
    {
        if env.delivery.admin.is_some() {
            return Err(ContractError::Fani(FaniLabError::AlreadyInitialized));
        }
        env.delivery.admin = Some(admin);
        env.delivery.escrow_contract = Some(escrow_contract);
        env.delivery.counter = 0;
        Ok(())
    }

    /// Configure the identity contract in which senders and recipients get
    /// registered and drivers earn reputation. Administrator only.
    pub fn set_identity_reputation_contract(env: &mut Env, admin: Address, identity_contract: Address) -> (r: Result<(), ContractError>)
        ensures
            r == (if !old(env).authorizes(admin) {
                Err(ContractError::AuthRequired)
            } else if old(env).delivery.admin is None {
                Err(fani(FaniLabError::NotInitialized))
            } else if old(env).delivery.admin != Some(admin) {
                Err(fani(FaniLabError::Unauthorized))
            } else {
                Ok(())
            }),
            r is Err ==> *final(env) == *old(env),
            r is Ok ==> old(env).frame(final(env), false, true, false, false, false, false)
                && final(env).delivery@ == (DeliveryView { identity_contract: Some(identity_contract), ..old(env).delivery@ }),
    {
        env.require_auth(admin)?;
        match env.delivery.admin {
            None => { return Err(ContractError::Fani(FaniLabError::NotInitialized)); },
            Some(a) => {
                if a != admin {
                    return Err(ContractError::Fani(FaniLabError::Unauthorized));
                }
            },
        }
        env.delivery.identity_contract = Some(identity_contract);
        Ok(())
    }

    pub fn get_identity_reputation_contract(env: &Env) -> (r: Option<Address>)
        ensures
            r == env.delivery.identity_contract,
    {
        env.delivery.identity_contract
    }

    /// The escrow contract this contract was initialized with.
    pub fn get_escrow_contract(env: &Env) -> (r: Result<Address, ContractError>)
        ensures
            r == (match env.delivery.escrow_contract {
                Some(a) => Ok(a),
                None => Err(fani(FaniLabError::NotInitialized)),
            }),
    {
        match env.delivery.escrow_contract {
            Some(a) => Ok(a),
            None => Err(ContractError::Fani(FaniLabError::NotInitialized)),
        }
    }

    pub fn get_delivery(env: &Env, delivery_id: u64) -> (r: Result<DeliveryRecord, ContractError>)
        ensures
            env.delivery@.deliveries.contains_key(delivery_id) ==> r is Ok && r->Ok_0.same_as(env.delivery@.deliveries[delivery_id]),
            !env.delivery@.deliveries.contains_key(delivery_id) ==> r == Err::<DeliveryRecord, ContractError>(fani(FaniLabError::DeliveryNotFound)),
    {
        match env.delivery.deliveries.get(&delivery_id) {
            Some(d) => Ok(d.copied()),
            None => Err(ContractError::Fani(FaniLabError::DeliveryNotFound)),
        }
    }

    fn load_delivery_for(env: &Env, caller: Address, delivery_id: u64) -> (r: Result<(), ContractError>)
        ensures
            r == (match delivery_load_error(*env, caller, delivery_id) {
                Some(e) => Err(e),
                None => Ok(()),
            }),
    {
        env.require_auth(caller)?;
        delivery_require_escrow_not_paused(env)?;
        if !env.delivery.deliveries.contains_key(&delivery_id) {
            return Err(ContractError::Fani(FaniLabError::DeliveryNotFound));
        }
        Ok(())
    }

    /// The sender replaces the metadata of a pending delivery (its id field
    /// is set to the delivery's id).
    pub fn update_delivery_metadata(env: &mut Env, sender: Address, delivery_id: u64, metadata: DeliveryMetadata) -> (r: Result<(), ContractError>)
        ensures
            r == (if delivery_load_error(*old(env), sender, delivery_id) is Some {
                Err(delivery_load_error(*old(env), sender, delivery_id)->0)
            } else if old(env).delivery@.deliveries[delivery_id].sender != sender {
                Err(fani(FaniLabError::Unauthorized))
            } else if old(env).delivery@.deliveries[delivery_id].status != DeliveryStatus::Pending {
                Err(fani(FaniLabError::InvalidState))
            } else if !metadata_valid(metadata) {
                Err(del_err(DeliveryError::InvalidMetadata))
            } else {
                Ok(())
            }),
            r is Err ==> *final(env) == *old(env),
            r is Ok ==> old(env).frame(final(env), false, true, false, false, false, false)
                && final(env).delivery@ == old(env).delivery@.with_delivery(delivery_id, DeliveryRecord {
                    metadata: DeliveryMetadata { delivery_id, ..metadata },
                    ..old(env).delivery@.deliveries[delivery_id]
                }),
    {
        Self::load_delivery_for(env, sender, delivery_id)?;
        {
            let d = env.delivery.deliveries.get(&delivery_id).unwrap();
            if d.sender != sender {
                return Err(ContractError::Fani(FaniLabError::Unauthorized));
            }
            if d.status != DeliveryStatus::Pending {
                return Err(ContractError::Fani(FaniLabError::InvalidState));
            }
        }
        match validate_delivery_metadata(&metadata) {
            Err(e) => { return Err(ContractError::Delivery(e)); },
            Ok(()) => {},
        }
        let mut d = env.delivery.deliveries.remove(&delivery_id).unwrap();
        d.metadata = DeliveryMetadata { delivery_id, ..metadata };
        env.delivery.deliveries.insert(delivery_id, d);
        Ok(())
    }

    /// Assign `driver` to a pending delivery, making it active. The
    /// administrator may assign anyone; otherwise a driver assigns
    /// themselves. The driver is neither sender nor recipient.
    pub fn assign_driver(env: &mut Env, caller: Address, delivery_id: u64, driver: Address) -> (r: Result<(), ContractError>)
        ensures
            r == (if !old(env).authorizes(caller) {
                Err(ContractError::AuthRequired)
            } else if delivery_pause_error(*old(env)) is Some {
                Err(delivery_pause_error(*old(env))->0)
            } else if old(env).delivery.admin != Some(caller) && caller != driver {
                Err(fani(FaniLabError::Unauthorized))
            } else if !old(env).delivery@.deliveries.contains_key(delivery_id) {
                Err(fani(FaniLabError::DeliveryNotFound))
            } else if driver == old(env).delivery@.deliveries[delivery_id].sender || driver == old(env).delivery@.deliveries[delivery_id].recipient {
                Err(del_err(DeliveryError::InvalidDriver))
            } else if !transition_allowed(old(env).delivery@.deliveries[delivery_id].status, DeliveryStatus::Active) {
                Err(fani(FaniLabError::InvalidState))
            } else {
                Ok(())
            }),
            r is Err ==> *final(env) == *old(env),
            r is Ok ==> old(env).frame(final(env), false, true, false, false, false, false)
                && final(env).delivery@ == old(env).delivery@.with_delivery(delivery_id, DeliveryRecord {
                    driver: Some(driver),
                    status: DeliveryStatus::Active,
                    ..old(env).delivery@.deliveries[delivery_id]
                }),
    {
        env.require_auth(caller)?;
        delivery_require_escrow_not_paused(env)?;
        if env.delivery.admin != Some(caller) && caller != driver {
            return Err(ContractError::Fani(FaniLabError::Unauthorized));
        }
        let status = match env.delivery.deliveries.get(&delivery_id) {
            None => { return Err(ContractError::Fani(FaniLabError::DeliveryNotFound)); },
            Some(d) => {
                if driver == d.sender || driver == d.recipient {
                    return Err(ContractError::Delivery(DeliveryError::InvalidDriver));
                }
                d.status
            },
        };
        if validate_transition(status, DeliveryStatus::Active).is_err() {
            return Err(ContractError::Fani(FaniLabError::InvalidState));
        }
        let mut d = env.delivery.deliveries.remove(&delivery_id).unwrap();
        d.driver = Some(driver);
        d.status = DeliveryStatus::Active;
        env.delivery.deliveries.insert(delivery_id, d);
        Ok(())
    }

    /// The assigned driver starts the trip: Active becomes InTransit and the
    /// start time is recorded.
    pub fn mark_in_transit(env: &mut Env, driver: Address, delivery_id: u64) -> (r: Result<(), ContractError>)
        ensures
            r == (if delivery_load_error(*old(env), driver, delivery_id) is Some {
                Err(delivery_load_error(*old(env), driver, delivery_id)->0)
            } else if old(env).delivery@.deliveries[delivery_id].driver != Some(driver) {
                Err(fani(FaniLabError::Unauthorized))
            } else if !transition_allowed(old(env).delivery@.deliveries[delivery_id].status, DeliveryStatus::InTransit) {
                Err(fani(FaniLabError::InvalidState))
            } else {
                Ok(())
            }),
            r is Err ==> *final(env) == *old(env),
            r is Ok ==> old(env).frame(final(env), false, true, false, false, false, false)
                && final(env).delivery@ == old(env).delivery@.with_delivery(delivery_id, DeliveryRecord {
                    status: DeliveryStatus::InTransit,
                    transit_started_at: Some(old(env).timestamp),
                    ..old(env).delivery@.deliveries[delivery_id]
                }),
    {
        Self::load_delivery_for(env, driver, delivery_id)?;
        let status = {
            let d = env.delivery.deliveries.get(&delivery_id).unwrap();
            if d.driver != Some(driver) {
                return Err(ContractError::Fani(FaniLabError::Unauthorized));
            }
            d.status
        };
        if validate_transition(status, DeliveryStatus::InTransit).is_err() {
            return Err(ContractError::Fani(FaniLabError::InvalidState));
        }
        let ts = env.timestamp;
        let mut d = env.delivery.deliveries.remove(&delivery_id).unwrap();
        d.status = DeliveryStatus::InTransit;
        d.transit_started_at = Some(ts);
        env.delivery.deliveries.insert(delivery_id, d);
        Ok(())
    }

    fn profile_check(env: &Env, user: Address) -> (r: Result<(), ContractError>)
        ensures
            r == as_result(profile_error(*env, user)),
    {
        if IdentityReputationContract::has_user_profile(env, user) {
            return Ok(());
        }
        env.require_auth(user)?;
        identity_require_escrow_not_paused(env)
    }

    fn parties_check(env: &Env, sender: Address, recipient: Address) -> (r: Result<(), ContractError>)
        ensures
            r == as_result(parties_error(*env, sender, recipient)),
    {
        match env.delivery.identity_contract {
            None => Ok(()),
            Some(i) => {
                if i != env.identity.address {
                    return Err(ContractError::MissingContract);
                }
                Self::profile_check(env, sender)?;
                Self::profile_check(env, recipient)
            },
        }
    }

    /// Register `user` in the identity contract unless already registered.
    fn ensure_user_profile(env: &mut Env, user: Address) -> (r: Result<(), ContractError>)
        ensures
            r == as_result(profile_error(*old(env), user)),
            r is Err ==> *final(env) == *old(env),
            r is Ok ==> old(env).same_except_identity(final(env)) && final(env).identity@ == (IdentityView {
                users: with_profile(old(env).identity@.users, user, old(env).timestamp),
                ..old(env).identity@
            }),
    {
        if IdentityReputationContract::has_user_profile(env, user) {
            assert(env.identity@ =~= IdentityView {
                users: with_profile(old(env).identity@.users, user, old(env).timestamp),
                ..old(env).identity@
            });
            return Ok(());
        }
        IdentityReputationContract::register_user(env, user)?;
        Ok(())
    }

    /// Register both parties; `parties_check` has passed.
    fn register_parties(env: &mut Env, sender: Address, recipient: Address)
        requires
            parties_error(*old(env), sender, recipient) is None,
        ensures
            old(env).same_except_identity(final(env)),
            final(env).identity@ == parties_registered(*old(env), sender, recipient),
    {
        let ghost env0 = *env;
        match env.delivery.identity_contract {
            None => {},
            Some(_) => {
                let _ = Self::ensure_user_profile(env, sender);
                assert(profile_error(*env, recipient) is None) by {
                    assert(identity_pause_error(*env) == identity_pause_error(env0));
                };
                let _ = Self::ensure_user_profile(env, recipient);
            },
        }
    }

    /// The sender records a new delivery to `recipient`, described by
    /// `metadata`, and gets its id. Both parties are registered in the
    /// identity contract when one is configured.
    pub fn create_delivery(env: &mut Env, sender: Address, recipient: Address, metadata: DeliveryMetadata) -> (r: Result<u64, ContractError>)
        ensures
            r == match create_delivery_error(*old(env), sender, recipient, metadata) {
                Some(e) => Err::<u64, ContractError>(e),
                None => Ok((old(env).delivery.counter + 1) as u64),
            },
            r is Err ==> *final(env) == *old(env),
            r is Ok ==> old(env).frame(final(env), false, true, false, false, true, false)
                && final(env).identity@ == parties_registered(*old(env), sender, recipient)
                && final(env).delivery@ == created_view(*old(env), sender, recipient, metadata),
    {
        env.require_auth(sender)?;
        delivery_require_escrow_not_paused(env)?;
        if sender == recipient {
            return Err(ContractError::Delivery(DeliveryError::InvalidParties));
        }
        match validate_delivery_metadata(&metadata) {
            Err(e) => { return Err(ContractError::Delivery(e)); },
            Ok(()) => {},
        }
        Self::parties_check(env, sender, recipient)?;
        if env.delivery.counter == u64::MAX
            || env.delivery.index.count(sender, 0) >= u32::MAX as usize
            || env.delivery.index.count(recipient, 1) >= u32::MAX as usize {
            return Err(ContractError::ArithmeticOverflow);
        }
        Self::register_parties(env, sender, recipient);
        let id = env.delivery.counter + 1;
        let now = env.timestamp;
        env.delivery.counter = id;
        env.delivery.deliveries.insert(id, DeliveryRecord {
            delivery_id: id,
            sender,
            recipient,
            driver: None,
            status: DeliveryStatus::Pending,
            metadata: DeliveryMetadata { delivery_id: id, ..metadata },
            created_at: now,
            delivered_at: None,
            transit_started_at: None,
        });
        env.delivery.index.push(sender, 0, id);
        env.delivery.index.push(recipient, 1, id);
        Ok(id)
    }

    /// The sender records several deliveries to one recipient at once (at
    /// most `MAX_BATCH_SIZE`) and gets their ids, in order. No escrow is
    /// created; each delivery still needs one.
    pub fn create_deliveries_batch(env: &mut Env, sender: Address, recipient: Address, metadata_list: Vec<DeliveryMetadata>) -> (r: Result<Vec<u64>, ContractError>)
        ensures
            r is Err <==> batch_error(*old(env), sender, recipient, metadata_list@) is Some,
            r is Err ==> r->Err_0 == batch_error(*old(env), sender, recipient, metadata_list@)->0 && *final(env) == *old(env),
            r is Ok ==> r->Ok_0@ == batch_ids(old(env).delivery.counter, metadata_list@.len())
                && old(env).frame(final(env), false, true, false, false, true, false)
                && final(env).identity@ == parties_registered(*old(env), sender, recipient)
                && final(env).delivery@ == batch_view(*old(env), sender, recipient, metadata_list@),
    {
        env.require_auth(sender)?;
        delivery_require_escrow_not_paused(env)?;
        let n = metadata_list.len();
        if n > MAX_BATCH_SIZE as usize {
            return Err(ContractError::Delivery(DeliveryError::BatchTooLarge));
        }
        let mut j: usize = 0;
        while j < n
            invariant
                n == metadata_list@.len(),
                n <= MAX_BATCH_SIZE,
                j <= n,
                env.authorizes(sender),
                delivery_pause_error(*env) is None,
                forall|k: int| 0 <= k < j ==> metadata_valid(#[trigger] metadata_list@[k]),
            decreases n - j,
        {
            match validate_delivery_metadata(&metadata_list[j]) {
                Err(e) => {
                    assert(!metadata_valid(metadata_list@[j as int]));
                    return Err(ContractError::Delivery(e));
                },
                Ok(()) => {},
            }
            j = j + 1;
        }
        Self::parties_check(env, sender, recipient)?;
        if env.delivery.counter > u64::MAX - (n as u64)
            || (n > 0 && (env.delivery.index.count(sender, 0) > (u32::MAX as usize) - n
                || env.delivery.index.count(recipient, 1) > (u32::MAX as usize) - n)) {
            return Err(ContractError::ArithmeticOverflow);
        }
        let ghost env0 = *env;
        let ghost list0 = metadata_list@;
        Self::register_parties(env, sender, recipient);
        let ghost env1 = *env;
        let c0 = env.delivery.counter;
        let now = env.timestamp;
        let mut remaining = metadata_list;
        let mut ids: Vec<u64> = Vec::new();
        let mut i: usize = 0;
        assert(list0.take(0) =~= Seq::<DeliveryMetadata>::empty());
        assert(batch_ids(c0, 0) =~= Seq::<u64>::empty());
        assert(remaining@ =~= list0.skip(0));
        while i < n
            invariant
                n == list0.len(),
                i <= n,
                c0 == env0.delivery.counter,
                c0 + n <= u64::MAX,
                now == env0.timestamp,
                remaining@ == list0.skip(i as int),
                ids@ == batch_ids(c0, i as nat),
                env.delivery.counter == c0 + i,
                env.delivery@.deliveries == batch_records(env0.delivery@.deliveries, c0, sender, recipient, list0.take(i as int), now),
                env.delivery@.index == append_both(env0.delivery@.index, sender, recipient, batch_ids(c0, i as nat)),
                env.delivery.address == env1.delivery.address,
                env.delivery.admin == env1.delivery.admin,
                env.delivery.escrow_contract == env1.delivery.escrow_contract,
                env.delivery.identity_contract == env1.delivery.identity_contract,
                env1.delivery@ == env0.delivery@,
                env.timestamp == env1.timestamp,
                env.mock_all_auths == env1.mock_all_auths,
                env.signers == env1.signers,
                env.next_address == env1.next_address,
                env.tokens == env1.tokens,
                env.escrow == env1.escrow,
                env.dispute == env1.dispute,
                env.fleet == env1.fleet,
                env.identity == env1.identity,
                env.settlement == env1.settlement,
            decreases n - i,
        {
            let m = remaining.remove(0);
            assert(m == list0[i as int]);
            let id = env.delivery.counter + 1;
            env.delivery.counter = id;
            env.delivery.deliveries.insert(id, DeliveryRecord {
                delivery_id: id,
                sender,
                recipient,
                driver: None,
                status: DeliveryStatus::Pending,
                metadata: DeliveryMetadata { delivery_id: id, ..m },
                created_at: now,
                delivered_at: None,
                transit_started_at: None,
            });
            proof {
                lemma_append_both_step(env0.delivery@.index, sender, recipient, batch_ids(c0, i as nat), id);
                assert(batch_ids(c0, i as nat).push(id) =~= batch_ids(c0, (i + 1) as nat));
                assert(list0.take(i + 1).drop_last() =~= list0.take(i as int));
                assert(remaining@ =~= list0.skip(i + 1));
            }
            env.delivery.index.push(sender, 0, id);
            env.delivery.index.push(recipient, 1, id);
            ids.push(id);
            i = i + 1;
        }
        assert(list0.take(n as int) =~= list0);
        Ok(ids)
    }

    /// Replace the status of delivery `id`.
    fn set_status(c: &mut DeliveryContract, id: u64, status: DeliveryStatus)
        requires
            old(c)@.deliveries.contains_key(id),
        ensures
            final(c)@ == old(c)@.with_delivery(id, DeliveryRecord { status, ..old(c)@.deliveries[id] }),
            final(c).address == old(c).address,
    {
        let mut d = c.deliveries.remove(&id).unwrap();
        d.status = status;
        c.deliveries.insert(id, d);
    }

    /// The sender cancels a pending or active delivery; its escrow is
    /// refunded to the sender.
    pub fn cancel_delivery(env: &mut Env, sender: Address, delivery_id: u64) -> (r: Result<(), ContractError>)
        ensures
            cancel_error(*old(env), sender, delivery_id) is Some ==>
                r == Err::<(), ContractError>(cancel_error(*old(env), sender, delivery_id)->0) && *final(env) == *old(env),
            cancel_error(*old(env), sender, delivery_id) is None ==> match refund_outcome(*old(env), sender, delivery_id) {
                Err(e) => r == Err::<(), ContractError>(e) && *final(env) == *old(env),
                Ok((v, iv, m)) => r is Ok && old(env).frame(final(env), true, true, false, false, true, true)
                    && final(env).escrow@ == v && final(env).identity@ == iv && final(env).tokens.balances@ == m
                    && final(env).delivery@ == with_status(*old(env), delivery_id, DeliveryStatus::Cancelled),
            },
    {
        Self::load_delivery_for(env, sender, delivery_id)?;
        let status = {
            let d = env.delivery.deliveries.get(&delivery_id).unwrap();
            if d.sender != sender {
                return Err(ContractError::Fani(FaniLabError::Unauthorized));
            }
            d.status
        };
        if validate_transition(status, DeliveryStatus::Cancelled).is_err() {
            return Err(ContractError::Fani(FaniLabError::InvalidState));
        }
        EscrowContract::refund_escrow(env, sender, delivery_id)?;
        Self::set_status(&mut env.delivery, delivery_id, DeliveryStatus::Cancelled);
        Ok(())
    }

    /// The recipient confirms a delivery in transit: the escrow enters
    /// holdback, the delivery is marked delivered now, and the driver earns
    /// reputation for the cargo when an identity contract is configured.
    pub fn confirm_delivery(env: &mut Env, recipient: Address, delivery_id: u64) -> (r: Result<(), ContractError>)
        ensures
            r == as_result(confirm_error(*old(env), recipient, delivery_id)),
            r is Err ==> *final(env) == *old(env),
            r is Ok ==> old(env).frame(final(env), true, true, false, false, true, false)
                && final(env).escrow@ == holdback_view(*old(env), delivery_id)
                && final(env).identity@ == confirmed_identity(*old(env), delivery_id)
                && final(env).delivery@ == old(env).delivery@.with_delivery(delivery_id, DeliveryRecord {
                    status: DeliveryStatus::Delivered,
                    delivered_at: Some(old(env).timestamp),
                    ..old(env).delivery@.deliveries[delivery_id]
                }),
    {
        let ghost env0 = *env;
        Self::load_delivery_for(env, recipient, delivery_id)?;
        let (driver, status, weight, fragile) = {
            let d = env.delivery.deliveries.get(&delivery_id).unwrap();
            if recipient != d.recipient {
                return Err(ContractError::Fani(FaniLabError::Unauthorized));
            }
            match d.driver {
                Some(drv) => {
                    if drv == recipient || drv == d.sender {
                        return Err(ContractError::Delivery(DeliveryError::InvalidDriver));
                    }
                },
                None => {},
            }
            (d.driver, d.status, d.metadata.cargo_description.weight_grams, d.metadata.cargo_description.fragile)
        };
        if validate_transition(status, DeliveryStatus::Delivered).is_err() {
            return Err(ContractError::Fani(FaniLabError::InvalidState));
        }
        EscrowContract::check_mark_holdback(env, recipient, delivery_id)?;
        let contract = env.delivery.address;
        let credit: Option<Address> = match (driver, env.delivery.identity_contract) {
            (Some(drv), Some(i)) => {
                if i != env.identity.address {
                    return Err(ContractError::MissingContract);
                }
                IdentityReputationContract::preview_increase_reputation(env, contract, true, drv, weight, fragile)?;
                Some(drv)
            },
            _ => None,
        };
        EscrowContract::mark_holdback_escrow(env, recipient, delivery_id)?;
        let ts = env.timestamp;
        let mut d = env.delivery.deliveries.remove(&delivery_id).unwrap();
        d.status = DeliveryStatus::Delivered;
        d.delivered_at = Some(ts);
        env.delivery.deliveries.insert(delivery_id, d);
        match credit {
            Some(drv) => {
                assert(increase_reputation_outcome(*env, contract, true, drv, weight, fragile)
                    == increase_reputation_outcome(env0, contract, true, drv, weight, fragile));
                IdentityReputationContract::increase_reputation_as(env, contract, true, drv, delivery_id, weight, fragile)?;
            },
            None => {},
        }
        Ok(())
    }

    /// Whether `raise_dispute` would succeed, without changing anything.
    pub fn check_raise_dispute(env: &Env, caller: Address, delivery_id: u64) -> (r: Result<(), ContractError>)
        ensures
            r == as_result(delivery_dispute_error(*env, caller, delivery_id)),
    {
        env.require_auth(caller)?;
        let status = match env.delivery.deliveries.get(&delivery_id) {
            None => { return Err(ContractError::Fani(FaniLabError::DeliveryNotFound)); },
            Some(d) => {
                if caller != d.sender && caller != d.recipient && d.driver != Some(caller) {
                    return Err(ContractError::Fani(FaniLabError::Unauthorized));
                }
                d.status
            },
        };
        if validate_transition(status, DeliveryStatus::Disputed).is_err() {
            return Err(ContractError::Fani(FaniLabError::InvalidState));
        }
        match env.delivery.escrow_contract {
            None => { return Err(ContractError::Fani(FaniLabError::NotInitialized)); },
            Some(e) => {
                if e != env.escrow.address {
                    return Err(ContractError::MissingContract);
                }
            },
        }
        EscrowContract::check_raise_dispute(env, caller, delivery_id)
    }

    /// A party (sender, recipient or assigned driver) disputes the
    /// delivery: the escrow is paused first, then the delivery becomes
    /// disputed. Works while the protocol is paused.
    pub fn raise_dispute(env: &mut Env, caller: Address, delivery_id: u64) -> (r: Result<(), ContractError>)
        ensures
            r == as_result(delivery_dispute_error(*old(env), caller, delivery_id)),
            r is Err ==> *final(env) == *old(env),
            r is Ok ==> old(env).frame(final(env), true, true, false, false, false, false)
                && final(env).escrow@ == disputed_view(*old(env), caller, delivery_id)
                && final(env).delivery@ == with_status(*old(env), delivery_id, DeliveryStatus::Disputed),
    {
        Self::check_raise_dispute(env, caller, delivery_id)?;
        EscrowContract::raise_dispute(env, caller, delivery_id)?;
        Self::set_status(&mut env.delivery, delivery_id, DeliveryStatus::Disputed);
        Ok(())
    }

    /// The profile of `driver` in the configured identity contract.
    pub fn get_driver_profile(env: &Env, driver: Address) -> (r: Result<DriverProfile, ContractError>)
        ensures
            r == match env.delivery.identity_contract {
                None => Err(fani(FaniLabError::NotInitialized)),
                Some(i) => if i != env.identity.address {
                    Err(ContractError::MissingContract)
                } else if env.identity@.drivers.contains_key(driver.id) {
                    Ok(env.identity@.drivers[driver.id])
                } else {
                    Err(fani(FaniLabError::ProviderNotFound))
                },
            },
    {
        match env.delivery.identity_contract {
            None => Err(ContractError::Fani(FaniLabError::NotInitialized)),
            Some(i) => {
                if i != env.identity.address {
                    return Err(ContractError::MissingContract);
                }
                IdentityReputationContract::get_driver_profile(env, driver)
            },
        }
    }

    /// A delivery, its escrow, and whether their states agree.
    pub fn get_combined_state(env: &Env, delivery_id: u64) -> (r: Result<(DeliveryRecord, EscrowRecord, bool), ContractError>)
        ensures
            !env.delivery@.deliveries.contains_key(delivery_id) ==> r == Err::<(DeliveryRecord, EscrowRecord, bool), ContractError>(fani(FaniLabError::DeliveryNotFound)),
            env.delivery@.deliveries.contains_key(delivery_id) && env.delivery.escrow_contract is None ==>
                r == Err::<(DeliveryRecord, EscrowRecord, bool), ContractError>(fani(FaniLabError::NotInitialized)),
            env.delivery@.deliveries.contains_key(delivery_id) && env.delivery.escrow_contract is Some
                && env.delivery.escrow_contract->0 != env.escrow.address ==>
                r == Err::<(DeliveryRecord, EscrowRecord, bool), ContractError>(ContractError::MissingContract),
            env.delivery@.deliveries.contains_key(delivery_id) && env.delivery.escrow_contract == Some(env.escrow.address)
                && !env.escrow@.escrows.contains_key(delivery_id) ==>
                r == Err::<(DeliveryRecord, EscrowRecord, bool), ContractError>(ContractError::Escrow(crate::types::EscrowError::DeliveryNotFound)),
            env.delivery@.deliveries.contains_key(delivery_id) && env.delivery.escrow_contract == Some(env.escrow.address)
                && env.escrow@.escrows.contains_key(delivery_id) ==> r is Ok
                && r->Ok_0.0.same_as(env.delivery@.deliveries[delivery_id])
                && r->Ok_0.1 == env.escrow@.escrows[delivery_id]
                && r->Ok_0.2 == states_synchronized(env.delivery@.deliveries[delivery_id].status, env.escrow@.escrows[delivery_id].status),
    {
        let d = Self::get_delivery(env, delivery_id)?;
        match env.delivery.escrow_contract {
            None => Err(ContractError::Fani(FaniLabError::NotInitialized)),
            Some(a) => {
                if a != env.escrow.address {
                    return Err(ContractError::MissingContract);
                }
                let e = EscrowContract::get_escrow(env, delivery_id)?;
                let sync = Self::validate_state_sync(&d, &e);
                Ok((d, e, sync))
            },
        }
    }

    /// Whether a delivery's status and its escrow's status agree.
    pub fn validate_state_sync(delivery: &DeliveryRecord, escrow: &EscrowRecord) -> (b: bool)
        ensures
            b == states_synchronized(delivery.status, escrow.status),
    {
        match (delivery.status, escrow.status) {
            (DeliveryStatus::Pending, EscrowStatus::Locked) => true,
            (DeliveryStatus::Active, EscrowStatus::Locked) => true,
            (DeliveryStatus::InTransit, EscrowStatus::Locked) => true,
            (DeliveryStatus::Delivered, EscrowStatus::Holdback) => true,
            (DeliveryStatus::Delivered, EscrowStatus::Released) => true,
            (DeliveryStatus::Disputed, EscrowStatus::Paused) => true,
            (DeliveryStatus::Cancelled, EscrowStatus::Refunded) => true,
            _ => false,
        }
    }

    /// Delivery ids of `sender`, oldest first (at most 100).
    pub fn get_deliveries_by_sender(env: &Env, sender: Address) -> (ids: Vec<u64>)
        ensures
            ids@ == page_of(ids_in(env.delivery@.index, sender, 0), 0, 100),
    {
        env.delivery.index.page(sender, 0, 0, 100)
    }

    /// Delivery ids of `recipient`, oldest first (at most 100).
    pub fn get_deliveries_by_recipient(env: &Env, recipient: Address) -> (ids: Vec<u64>)
        ensures
            ids@ == page_of(ids_in(env.delivery@.index, recipient, 1), 0, 100),
    {
        env.delivery.index.page(recipient, 1, 0, 100)
    }

    /// A page of the delivery ids of `owner` under `kind` (0 sender, 1
    /// recipient) from `offset`, at most `min(limit, 100)` long.
    pub fn get_deliveries_page(env: &Env, owner: Address, kind: u32, offset: u32, limit: u32) -> (ids: Vec<u64>)
        ensures
            ids@ == page_of(ids_in(env.delivery@.index, owner, kind), offset, limit),
    {
        env.delivery.index.page(owner, kind, offset, limit)
    }
}

} // verus!
