use lib::env::Env;
use lib::escrow::EscrowContract;
use lib::delivery::{DeliveryContract, validate_transition, validate_delivery_metadata, MAX_BATCH_SIZE};
use lib::identity::IdentityReputationContract;
use lib::types::{
    Address, CargoCategory, CargoDescriptor, ContractError, DeliveryError, DeliveryMetadata, DeliveryStatus,
    EscrowStatus, FaniLabError,
};

struct Setup {
    env: Env,
    shipper: Address,
    driver: Address,
    recipient: Address,
    token: Address,
}

/// Escrow, delivery and identity contracts wired together; the driver is
/// registered in the identity contract.
fn setup_full() -> Setup {
    let mut env = Env::new();
    env.mock_all_auths = true;
    let shipper = env.generate_address();
    let driver = env.generate_address();
    let recipient = env.generate_address();
    let escrow_admin = env.generate_address();
    let token = env.generate_address();
    let escrow = env.escrow.address;
    let delivery = env.delivery.address;
    let dispute = env.dispute.address;
    let identity = env.identity.address;
    EscrowContract::init(&mut env, escrow_admin, token, 0).unwrap();
    DeliveryContract::init(&mut env, shipper, escrow).unwrap();
    IdentityReputationContract::init(&mut env, shipper, delivery, dispute).unwrap();
    DeliveryContract::set_identity_reputation_contract(&mut env, shipper, identity).unwrap();
    IdentityReputationContract::register_driver(&mut env, driver).unwrap();
    Setup { env, shipper, driver, recipient, token }
}

/// Escrow and delivery contracts only.
fn setup_without_identity() -> Setup {
    let mut env = Env::new();
    env.mock_all_auths = true;
    let shipper = env.generate_address();
    let driver = env.generate_address();
    let recipient = env.generate_address();
    let escrow_admin = env.generate_address();
    let token = env.generate_address();
    let escrow = env.escrow.address;
    EscrowContract::init(&mut env, escrow_admin, token, 0).unwrap();
    DeliveryContract::init(&mut env, shipper, escrow).unwrap();
    Setup { env, shipper, driver, recipient, token }
}

fn metadata(env: &Env, delivery_id: u64) -> DeliveryMetadata {
    DeliveryMetadata {
        delivery_id,
        origin: b"Origin".to_vec(),
        destination: b"Destination".to_vec(),
        cargo_description: CargoDescriptor { weight_grams: 100, category: CargoCategory::General, fragile: false },
        created_at: env.timestamp,
        estimated_delivery: env.timestamp + 86400,
    }
}

fn metadata_with(env: &Env, origin: &[u8], destination: &[u8], weight: u32) -> DeliveryMetadata {
    DeliveryMetadata {
        delivery_id: 1,
        origin: origin.to_vec(),
        destination: destination.to_vec(),
        cargo_description: CargoDescriptor { weight_grams: weight, category: CargoCategory::General, fragile: false },
        created_at: env.timestamp,
        estimated_delivery: env.timestamp + 86400,
    }
}

fn updated_metadata(env: &Env, id: u64, origin: &[u8]) -> DeliveryMetadata {
    DeliveryMetadata {
        delivery_id: id,
        origin: origin.to_vec(),
        destination: b"New Destination".to_vec(),
        cargo_description: CargoDescriptor { weight_grams: 500, category: CargoCategory::Electronics, fragile: true },
        created_at: env.timestamp,
        estimated_delivery: env.timestamp + 172800,
    }
}

/// Fund the escrow of delivery `id`.
fn fund(s: &mut Setup, id: u64) {
    let (shipper, recipient, driver, token) = (s.shipper, s.recipient, s.driver, s.token);
    s.env.tokens.mint(token, shipper, 1000).unwrap();
    EscrowContract::create_escrow(&mut s.env, shipper, recipient, driver, id, token, 1000, None).unwrap();
}

fn create(s: &mut Setup, id_hint: u64) -> u64 {
    let m = metadata(&s.env, id_hint);
    let (shipper, recipient) = (s.shipper, s.recipient);
    DeliveryContract::create_delivery(&mut s.env, shipper, recipient, m).unwrap()
}

fn create_funded(s: &mut Setup) -> u64 {
    let id = create(s, 1);
    fund(s, id);
    id
}

fn status(s: &Setup, id: u64) -> DeliveryStatus {
    DeliveryContract::get_delivery(&s.env, id).unwrap().status
}

fn escrow_status(s: &Setup, id: u64) -> EscrowStatus {
    EscrowContract::get_escrow(&s.env, id).unwrap().status
}

fn fani(e: FaniLabError) -> Result<(), ContractError> {
    Err(ContractError::Fani(e))
}

fn del(e: DeliveryError) -> Result<(), ContractError> {
    Err(ContractError::Delivery(e))
}

#[test]
#[should_panic]
fn create_delivery_rejects_same_sender_and_recipient() {
    let mut s = setup_without_identity();
    let who = s.shipper;
    let m = metadata(&s.env, 1);
    let r = DeliveryContract::create_delivery(&mut s.env, who, who, m);
    assert_eq!(r, Err(ContractError::Delivery(DeliveryError::InvalidParties)));
    r.unwrap();
}

#[test]
fn create_delivery_and_batch_are_idempotent_for_identity_registration() {
    let mut s = setup_full();
    create(&mut s, 1);
    let second_id = create(&mut s, 2);
    let m3 = metadata(&s.env, 3);
    let (shipper, recipient) = (s.shipper, s.recipient);
    let batch_ids = DeliveryContract::create_deliveries_batch(&mut s.env, shipper, recipient, vec![m3]).unwrap();
    assert_eq!(second_id, 2);
    assert_eq!(batch_ids.len(), 1);
}

#[test]
fn get_driver_profile_reads_identity_reputation_contract() {
    let mut s = setup_without_identity();
    let admin = s.shipper;
    let delivery = s.env.delivery.address;
    let dispute = s.env.dispute.address;
    let identity = s.env.identity.address;
    IdentityReputationContract::init(&mut s.env, admin, delivery, dispute).unwrap();
    let driver = s.driver;
    s.env.timestamp = 100;
    IdentityReputationContract::register_driver(&mut s.env, driver).unwrap();
    s.env.timestamp = 200;
    DeliveryContract::set_identity_reputation_contract(&mut s.env, admin, identity).unwrap();
    let profile = DeliveryContract::get_driver_profile(&s.env, driver).unwrap();
    assert_eq!(profile.address, driver);
    assert_eq!(profile.reputation_score, 50);
    assert_eq!(profile.registered_at, 100);
}

#[test]
fn test_get_escrow_contract_returns_configured_address() {
    let s = setup_full();
    assert_eq!(DeliveryContract::get_escrow_contract(&s.env), Ok(s.env.escrow.address));
}

#[test]
fn test_happy_path_full_lifecycle() {
    let mut s = setup_full();
    let id = create_funded(&mut s);
    let (driver, recipient) = (s.driver, s.recipient);
    DeliveryContract::assign_driver(&mut s.env, driver, id, driver).unwrap();
    DeliveryContract::mark_in_transit(&mut s.env, driver, id).unwrap();
    DeliveryContract::confirm_delivery(&mut s.env, recipient, id).unwrap();
    assert_eq!(status(&s, id), DeliveryStatus::Delivered);
    assert_eq!(escrow_status(&s, id), EscrowStatus::Holdback);
}

#[test]
fn test_delivery_secondary_indexes_track_sender_and_recipient() {
    let mut s = setup_full();
    let other_shipper = s.env.generate_address();
    let other_recipient = s.env.generate_address();
    let (shipper, recipient) = (s.shipper, s.recipient);
    let m1 = metadata(&s.env, 1);
    let m2 = metadata(&s.env, 2);
    let m3 = metadata(&s.env, 3);
    let first = DeliveryContract::create_delivery(&mut s.env, shipper, recipient, m1).unwrap();
    let second = DeliveryContract::create_delivery(&mut s.env, shipper, other_recipient, m2).unwrap();
    let third = DeliveryContract::create_delivery(&mut s.env, other_shipper, recipient, m3).unwrap();
    assert_eq!(DeliveryContract::get_deliveries_by_sender(&s.env, shipper), vec![first, second]);
    assert_eq!(DeliveryContract::get_deliveries_by_recipient(&s.env, recipient), vec![first, third]);
    let nobody = s.env.generate_address();
    assert_eq!(DeliveryContract::get_deliveries_by_sender(&s.env, nobody).len(), 0);
}

#[test]
fn test_delivery_batch_secondary_indexes_append_ids() {
    let mut s = setup_full();
    let first = create(&mut s, 1);
    let list = vec![metadata(&s.env, 2), metadata(&s.env, 3)];
    let (shipper, recipient) = (s.shipper, s.recipient);
    let batch = DeliveryContract::create_deliveries_batch(&mut s.env, shipper, recipient, list).unwrap();
    assert_eq!(batch.len(), 2);
    assert_eq!(DeliveryContract::get_deliveries_by_sender(&s.env, shipper), vec![first, batch[0], batch[1]]);
    assert_eq!(DeliveryContract::get_deliveries_by_recipient(&s.env, recipient), vec![first, batch[0], batch[1]]);
}

#[test]
fn test_cancellation_after_assign() {
    let mut s = setup_full();
    let id = create_funded(&mut s);
    let (shipper, driver, token) = (s.shipper, s.driver, s.token);
    DeliveryContract::assign_driver(&mut s.env, driver, id, driver).unwrap();
    DeliveryContract::cancel_delivery(&mut s.env, shipper, id).unwrap();
    assert_eq!(status(&s, id), DeliveryStatus::Cancelled);
    assert_eq!(escrow_status(&s, id), EscrowStatus::Refunded);
    assert_eq!(s.env.tokens.balance(token, shipper), 1000);
}

#[test]
fn test_dispute_path() {
    let mut s = setup_full();
    let id = create_funded(&mut s);
    let (shipper, driver) = (s.shipper, s.driver);
    DeliveryContract::assign_driver(&mut s.env, driver, id, driver).unwrap();
    DeliveryContract::mark_in_transit(&mut s.env, driver, id).unwrap();
    DeliveryContract::raise_dispute(&mut s.env, shipper, id).unwrap();
    assert_eq!(status(&s, id), DeliveryStatus::Disputed);
    assert_eq!(escrow_status(&s, id), EscrowStatus::Paused);
}

#[test]
#[should_panic]
fn test_invalid_assign_when_delivered() {
    let mut s = setup_full();
    let id = create_funded(&mut s);
    let (driver, recipient) = (s.driver, s.recipient);
    DeliveryContract::assign_driver(&mut s.env, driver, id, driver).unwrap();
    DeliveryContract::mark_in_transit(&mut s.env, driver, id).unwrap();
    DeliveryContract::confirm_delivery(&mut s.env, recipient, id).unwrap();
    let r = DeliveryContract::assign_driver(&mut s.env, driver, id, driver);
    assert_eq!(r, fani(FaniLabError::InvalidState));
    r.unwrap();
}

#[test]
#[should_panic]
fn test_invalid_mark_in_transit_without_assign() {
    let mut s = setup_full();
    let id = create(&mut s, 1);
    let driver = s.env.generate_address();
    let r = DeliveryContract::mark_in_transit(&mut s.env, driver, id);
    assert_eq!(r, fani(FaniLabError::Unauthorized));
    r.unwrap();
}

#[test]
#[should_panic]
fn test_invalid_confirm_without_transit() {
    let mut s = setup_full();
    let id = create_funded(&mut s);
    let (driver, recipient) = (s.driver, s.recipient);
    DeliveryContract::assign_driver(&mut s.env, driver, id, driver).unwrap();
    let r = DeliveryContract::confirm_delivery(&mut s.env, recipient, id);
    assert_eq!(r, fani(FaniLabError::InvalidState));
    r.unwrap();
}

#[test]
#[should_panic]
fn test_invalid_dispute_when_cancelled() {
    let mut s = setup_full();
    let id = create_funded(&mut s);
    let (shipper, driver) = (s.shipper, s.driver);
    DeliveryContract::assign_driver(&mut s.env, driver, id, driver).unwrap();
    DeliveryContract::cancel_delivery(&mut s.env, shipper, id).unwrap();
    let r = DeliveryContract::raise_dispute(&mut s.env, shipper, id);
    assert_eq!(r, fani(FaniLabError::InvalidState));
    r.unwrap();
}

#[test]
#[should_panic]
fn test_cancel_delivery_rejected_once_disputed() {
    let mut s = setup_full();
    let id = create_funded(&mut s);
    let (shipper, driver) = (s.shipper, s.driver);
    DeliveryContract::assign_driver(&mut s.env, driver, id, driver).unwrap();
    DeliveryContract::mark_in_transit(&mut s.env, driver, id).unwrap();
    DeliveryContract::raise_dispute(&mut s.env, shipper, id).unwrap();
    assert_eq!(status(&s, id), DeliveryStatus::Disputed);
    let r = DeliveryContract::cancel_delivery(&mut s.env, shipper, id);
    assert_eq!(r, fani(FaniLabError::InvalidState));
    r.unwrap();
}

#[test]
#[should_panic]
fn test_invalid_cancel_when_delivered() {
    let mut s = setup_full();
    let id = create_funded(&mut s);
    let (shipper, driver, recipient) = (s.shipper, s.driver, s.recipient);
    DeliveryContract::assign_driver(&mut s.env, driver, id, driver).unwrap();
    DeliveryContract::mark_in_transit(&mut s.env, driver, id).unwrap();
    DeliveryContract::confirm_delivery(&mut s.env, recipient, id).unwrap();
    let r = DeliveryContract::cancel_delivery(&mut s.env, shipper, id);
    assert_eq!(r, fani(FaniLabError::InvalidState));
    r.unwrap();
}

#[test]
#[should_panic]
fn test_unauthorized_assign_driver() {
    let mut s = setup_full();
    let id = create(&mut s, 1);
    let unauthorized = s.env.generate_address();
    let driver = s.driver;
    let r = DeliveryContract::assign_driver(&mut s.env, unauthorized, id, driver);
    assert_eq!(r, fani(FaniLabError::Unauthorized));
    r.unwrap();
}

#[test]
#[should_panic]
fn test_unauthorized_mark_in_transit() {
    let mut s = setup_full();
    let id = create(&mut s, 1);
    let driver = s.driver;
    DeliveryContract::assign_driver(&mut s.env, driver, id, driver).unwrap();
    let unauthorized = s.env.generate_address();
    let r = DeliveryContract::mark_in_transit(&mut s.env, unauthorized, id);
    assert_eq!(r, fani(FaniLabError::Unauthorized));
    r.unwrap();
}

#[test]
#[should_panic]
fn test_unauthorized_confirm_delivery() {
    let mut s = setup_full();
    let id = create_funded(&mut s);
    let driver = s.driver;
    DeliveryContract::assign_driver(&mut s.env, driver, id, driver).unwrap();
    DeliveryContract::mark_in_transit(&mut s.env, driver, id).unwrap();
    let unauthorized = s.env.generate_address();
    let r = DeliveryContract::confirm_delivery(&mut s.env, unauthorized, id);
    assert_eq!(r, fani(FaniLabError::Unauthorized));
    r.unwrap();
}

#[test]
#[should_panic]
fn test_unauthorized_raise_dispute() {
    let mut s = setup_full();
    let id = create_funded(&mut s);
    let driver = s.driver;
    DeliveryContract::assign_driver(&mut s.env, driver, id, driver).unwrap();
    let unauthorized = s.env.generate_address();
    let r = DeliveryContract::raise_dispute(&mut s.env, unauthorized, id);
    assert_eq!(r, fani(FaniLabError::Unauthorized));
    r.unwrap();
}

#[test]
#[should_panic]
fn test_unauthorized_cancel_delivery() {
    let mut s = setup_full();
    let id = create_funded(&mut s);
    let driver = s.driver;
    DeliveryContract::assign_driver(&mut s.env, driver, id, driver).unwrap();
    let unauthorized = s.env.generate_address();
    let r = DeliveryContract::cancel_delivery(&mut s.env, unauthorized, id);
    assert_eq!(r, fani(FaniLabError::Unauthorized));
    r.unwrap();
}

#[test]
fn test_dispute_then_resolve_increments_reputation() {
    let mut s = setup_full();
    let id = create_funded(&mut s);
    let (shipper, driver) = (s.shipper, s.driver);
    DeliveryContract::assign_driver(&mut s.env, driver, id, driver).unwrap();
    DeliveryContract::mark_in_transit(&mut s.env, driver, id).unwrap();
    DeliveryContract::raise_dispute(&mut s.env, shipper, id).unwrap();
    assert_eq!(status(&s, id), DeliveryStatus::Disputed);
}

#[test]
fn test_dispute_then_resolve_penalizes_driver() {
    let mut s = setup_full();
    let id = create_funded(&mut s);
    let (driver, recipient) = (s.driver, s.recipient);
    DeliveryContract::assign_driver(&mut s.env, driver, id, driver).unwrap();
    DeliveryContract::mark_in_transit(&mut s.env, driver, id).unwrap();
    DeliveryContract::raise_dispute(&mut s.env, recipient, id).unwrap();
    assert_eq!(status(&s, id), DeliveryStatus::Disputed);
}

#[test]
#[should_panic]
fn test_reject_assign_driver_as_sender() {
    let mut s = setup_full();
    let id = create(&mut s, 1);
    let shipper = s.shipper;
    let r = DeliveryContract::assign_driver(&mut s.env, shipper, id, shipper);
    assert_eq!(r, del(DeliveryError::InvalidDriver));
    r.unwrap();
}

#[test]
#[should_panic]
fn test_reject_assign_driver_as_recipient() {
    let mut s = setup_full();
    let id = create(&mut s, 1);
    let (shipper, recipient) = (s.shipper, s.recipient);
    let r = DeliveryContract::assign_driver(&mut s.env, shipper, id, recipient);
    assert_eq!(r, del(DeliveryError::InvalidDriver));
    r.unwrap();
}

#[test]
#[should_panic]
fn test_reject_confirm_delivery_from_driver() {
    let mut s = setup_full();
    let id = create_funded(&mut s);
    let driver = s.driver;
    DeliveryContract::assign_driver(&mut s.env, driver, id, driver).unwrap();
    DeliveryContract::mark_in_transit(&mut s.env, driver, id).unwrap();
    let r = DeliveryContract::confirm_delivery(&mut s.env, driver, id);
    assert_eq!(r, fani(FaniLabError::Unauthorized));
    r.unwrap();
}

#[test]
#[should_panic]
fn test_confirm_delivery_rejects_driver_matching_recipient() {
    let mut s = setup_full();
    let id = create_funded(&mut s);
    let (driver, recipient) = (s.driver, s.recipient);
    DeliveryContract::assign_driver(&mut s.env, driver, id, driver).unwrap();
    DeliveryContract::mark_in_transit(&mut s.env, driver, id).unwrap();
    let mut record = s.env.delivery.deliveries.remove(&id).unwrap();
    record.driver = Some(recipient);
    s.env.delivery.deliveries.insert(id, record);
    let r = DeliveryContract::confirm_delivery(&mut s.env, recipient, id);
    assert_eq!(r, del(DeliveryError::InvalidDriver));
    r.unwrap();
}

#[test]
fn test_get_combined_state_pending_delivery() {
    let mut s = setup_full();
    let id = create_funded(&mut s);
    let (d, e, sync) = DeliveryContract::get_combined_state(&s.env, id).unwrap();
    assert_eq!(d.status, DeliveryStatus::Pending);
    assert_eq!(e.status, EscrowStatus::Locked);
    assert!(sync);
}

#[test]
fn test_get_combined_state_active_delivery() {
    let mut s = setup_full();
    let id = create_funded(&mut s);
    let driver = s.driver;
    DeliveryContract::assign_driver(&mut s.env, driver, id, driver).unwrap();
    let (d, _, sync) = DeliveryContract::get_combined_state(&s.env, id).unwrap();
    assert_eq!(d.status, DeliveryStatus::Active);
    assert!(sync);
}

#[test]
fn test_get_combined_state_in_transit_delivery() {
    let mut s = setup_full();
    let id = create_funded(&mut s);
    let driver = s.driver;
    DeliveryContract::assign_driver(&mut s.env, driver, id, driver).unwrap();
    DeliveryContract::mark_in_transit(&mut s.env, driver, id).unwrap();
    let (d, _, sync) = DeliveryContract::get_combined_state(&s.env, id).unwrap();
    assert_eq!(d.status, DeliveryStatus::InTransit);
    assert!(sync);
}

fn reject_metadata(m_origin: &[u8], m_dest: &[u8], weight: u32) {
    let mut s = setup_full();
    let m = metadata_with(&s.env, m_origin, m_dest, weight);
    let (shipper, recipient) = (s.shipper, s.recipient);
    let r = DeliveryContract::create_delivery(&mut s.env, shipper, recipient, m);
    assert_eq!(r, Err(ContractError::Delivery(DeliveryError::InvalidMetadata)));
    assert_eq!(DeliveryError::InvalidMetadata.code(), 2);
    r.unwrap();
}

#[test]
#[should_panic]
fn test_reject_empty_origin() {
    reject_metadata(b"", b"Destination", 100);
}

#[test]
#[should_panic]
fn test_reject_empty_destination() {
    reject_metadata(b"Origin", b"", 100);
}

#[test]
#[should_panic]
fn test_reject_zero_weight() {
    reject_metadata(b"Origin", b"Destination", 0);
}

#[test]
#[should_panic]
fn test_reject_empty_origin_and_destination_and_zero_weight() {
    reject_metadata(b"", b"", 0);
}

#[test]
#[should_panic]
fn test_reject_origin_exceeds_max_length() {
    reject_metadata(&[b'x'; 257], b"Destination", 100);
}

#[test]
#[should_panic]
fn test_reject_destination_exceeds_max_length() {
    reject_metadata(b"Origin", &[b'x'; 257], 100);
}

#[test]
#[should_panic]
fn test_reject_weight_exceeds_max() {
    reject_metadata(b"Origin", b"Destination", 1_000_001);
}

#[test]
fn test_accept_location_at_max_length() {
    let mut s = setup_full();
    let m = metadata_with(&s.env, &[b'x'; 256], &[b'x'; 256], 100);
    let (shipper, recipient) = (s.shipper, s.recipient);
    assert_eq!(DeliveryContract::create_delivery(&mut s.env, shipper, recipient, m), Ok(1));
}

#[test]
fn test_accept_weight_at_max() {
    let mut s = setup_full();
    let m = metadata_with(&s.env, b"Origin", b"Destination", 1_000_000);
    let (shipper, recipient) = (s.shipper, s.recipient);
    assert_eq!(DeliveryContract::create_delivery(&mut s.env, shipper, recipient, m), Ok(1));
}

#[test]
fn test_accept_minimum_valid_weight() {
    let mut s = setup_full();
    let m = metadata_with(&s.env, b"Origin", b"Destination", 1);
    let (shipper, recipient) = (s.shipper, s.recipient);
    assert_eq!(DeliveryContract::create_delivery(&mut s.env, shipper, recipient, m), Ok(1));
}

#[test]
#[should_panic]
fn test_batch_rejects_invalid_metadata() {
    let mut s = setup_full();
    let mut invalid = metadata(&s.env, 2);
    invalid.origin = Vec::new();
    let list = vec![metadata(&s.env, 1), invalid];
    let (shipper, recipient) = (s.shipper, s.recipient);
    let r = DeliveryContract::create_deliveries_batch(&mut s.env, shipper, recipient, list);
    assert_eq!(r, Err(ContractError::Delivery(DeliveryError::InvalidMetadata)));
    assert_eq!(s.env.delivery.counter, 0);
    r.unwrap();
}

#[test]
fn test_confirm_delivery_calls_increase_reputation() {
    let mut s = setup_full();
    let id = create_funded(&mut s);
    let (driver, recipient) = (s.driver, s.recipient);
    DeliveryContract::assign_driver(&mut s.env, driver, id, driver).unwrap();
    DeliveryContract::mark_in_transit(&mut s.env, driver, id).unwrap();
    DeliveryContract::confirm_delivery(&mut s.env, recipient, id).unwrap();
    assert_eq!(status(&s, id), DeliveryStatus::Delivered);
    let p = IdentityReputationContract::get_driver_profile(&s.env, driver).unwrap();
    assert_eq!(p.reputation_score, 55);
    assert_eq!(p.deliveries_completed, 1);
}

#[test]
fn test_create_delivery_registers_sender_and_recipient() {
    let mut s = setup_full();
    create(&mut s, 1);
    assert_eq!(IdentityReputationContract::get_user_profile(&s.env, s.recipient).unwrap().address, s.recipient);
    assert_eq!(IdentityReputationContract::get_user_profile(&s.env, s.shipper).unwrap().address, s.shipper);
}

#[test]
fn test_raise_dispute_on_delivered_delivery_updates_status() {
    let mut s = setup_full();
    let id = create_funded(&mut s);
    let (shipper, driver) = (s.shipper, s.driver);
    DeliveryContract::assign_driver(&mut s.env, driver, id, driver).unwrap();
    DeliveryContract::mark_in_transit(&mut s.env, driver, id).unwrap();
    DeliveryContract::raise_dispute(&mut s.env, shipper, id).unwrap();
    assert_eq!(status(&s, id), DeliveryStatus::Disputed);
}

#[test]
fn test_update_delivery_metadata_while_pending() {
    let mut s = setup_full();
    let id = create(&mut s, 1);
    let m = updated_metadata(&s.env, 1, b"New Origin");
    let shipper = s.shipper;
    DeliveryContract::update_delivery_metadata(&mut s.env, shipper, id, m).unwrap();
    let d = DeliveryContract::get_delivery(&s.env, id).unwrap();
    assert_eq!(d.metadata.origin, b"New Origin".to_vec());
    assert_eq!(d.metadata.destination, b"New Destination".to_vec());
    assert_eq!(d.metadata.cargo_description.weight_grams, 500);
    assert!(d.metadata.cargo_description.fragile);
}

#[test]
fn test_create_delivery_overwrites_caller_supplied_delivery_id() {
    let mut s = setup_full();
    let id = create(&mut s, 999);
    let stored = DeliveryContract::get_delivery(&s.env, id).unwrap();
    assert_eq!(stored.metadata.delivery_id, id);
    assert_ne!(stored.metadata.delivery_id, 999);
}

#[test]
fn test_create_deliveries_batch_overwrites_caller_supplied_delivery_ids() {
    let mut s = setup_full();
    let list = vec![metadata(&s.env, 4242), metadata(&s.env, 4242)];
    let (shipper, recipient) = (s.shipper, s.recipient);
    let ids = DeliveryContract::create_deliveries_batch(&mut s.env, shipper, recipient, list).unwrap();
    for &id in ids.iter() {
        let stored = DeliveryContract::get_delivery(&s.env, id).unwrap();
        assert_eq!(stored.metadata.delivery_id, id);
        assert_ne!(stored.metadata.delivery_id, 4242);
    }
}

#[test]
fn test_update_delivery_metadata_overwrites_caller_supplied_delivery_id() {
    let mut s = setup_full();
    let id = create(&mut s, 1);
    let m = updated_metadata(&s.env, 777, b"New Origin");
    let shipper = s.shipper;
    DeliveryContract::update_delivery_metadata(&mut s.env, shipper, id, m).unwrap();
    let stored = DeliveryContract::get_delivery(&s.env, id).unwrap();
    assert_eq!(stored.metadata.delivery_id, id);
    assert_ne!(stored.metadata.delivery_id, 777);
}

#[test]
#[should_panic]
fn test_reject_update_metadata_after_driver_assigned() {
    let mut s = setup_full();
    let id = create(&mut s, 1);
    let (shipper, driver) = (s.shipper, s.driver);
    DeliveryContract::assign_driver(&mut s.env, driver, id, driver).unwrap();
    let m = updated_metadata(&s.env, 1, b"New Origin");
    let r = DeliveryContract::update_delivery_metadata(&mut s.env, shipper, id, m);
    assert_eq!(r, fani(FaniLabError::InvalidState));
    r.unwrap();
}

#[test]
#[should_panic]
fn test_unauthorized_update_metadata_wrong_sender() {
    let mut s = setup_full();
    let id = create(&mut s, 1);
    let unauthorized = s.env.generate_address();
    let m = updated_metadata(&s.env, 1, b"New Origin");
    let r = DeliveryContract::update_delivery_metadata(&mut s.env, unauthorized, id, m);
    assert_eq!(r, fani(FaniLabError::Unauthorized));
    r.unwrap();
}

#[test]
#[should_panic]
fn test_reject_update_metadata_with_empty_origin() {
    let mut s = setup_full();
    let id = create(&mut s, 1);
    let m = updated_metadata(&s.env, 1, b"");
    let shipper = s.shipper;
    let r = DeliveryContract::update_delivery_metadata(&mut s.env, shipper, id, m);
    assert_eq!(r, del(DeliveryError::InvalidMetadata));
    r.unwrap();
}

#[test]
fn test_on_time_delivery_confirmation() {
    let mut s = setup_full();
    let estimated = s.env.timestamp + 86400;
    let id = create_funded(&mut s);
    let (driver, recipient) = (s.driver, s.recipient);
    DeliveryContract::assign_driver(&mut s.env, driver, id, driver).unwrap();
    DeliveryContract::mark_in_transit(&mut s.env, driver, id).unwrap();
    s.env.timestamp = estimated - 3600;
    DeliveryContract::confirm_delivery(&mut s.env, recipient, id).unwrap();
    assert_eq!(status(&s, id), DeliveryStatus::Delivered);
    DeliveryContract::raise_dispute(&mut s.env, recipient, id).unwrap();
    assert_eq!(status(&s, id), DeliveryStatus::Disputed);
}

#[test]
fn test_create_deliveries_batch_registers_users() {
    let mut s = setup_full();
    let mut m1 = metadata(&s.env, 1);
    m1.origin = b"Origin1".to_vec();
    let mut m2 = metadata(&s.env, 2);
    m2.origin = b"Origin2".to_vec();
    m2.cargo_description.weight_grams = 200;
    let (shipper, recipient) = (s.shipper, s.recipient);
    DeliveryContract::create_deliveries_batch(&mut s.env, shipper, recipient, vec![m1, m2]).unwrap();
    assert_eq!(IdentityReputationContract::get_user_profile(&s.env, recipient).unwrap().address, recipient);
    assert_eq!(IdentityReputationContract::get_user_profile(&s.env, shipper).unwrap().address, shipper);
}

#[test]
fn test_create_delivery_allows_existing_identity_profiles() {
    let mut s = setup_full();
    create(&mut s, 1);
    create(&mut s, 1);
    assert_eq!(IdentityReputationContract::get_user_profile(&s.env, s.shipper).unwrap().address, s.shipper);
    assert_eq!(IdentityReputationContract::get_user_profile(&s.env, s.recipient).unwrap().address, s.recipient);
}

#[test]
fn test_create_deliveries_batch_allows_existing_identity_profiles() {
    let mut s = setup_full();
    let (shipper, recipient) = (s.shipper, s.recipient);
    let l1 = vec![metadata(&s.env, 1)];
    let l2 = vec![metadata(&s.env, 1)];
    DeliveryContract::create_deliveries_batch(&mut s.env, shipper, recipient, l1).unwrap();
    DeliveryContract::create_deliveries_batch(&mut s.env, shipper, recipient, l2).unwrap();
    assert_eq!(IdentityReputationContract::get_user_profile(&s.env, shipper).unwrap().address, shipper);
    assert_eq!(IdentityReputationContract::get_user_profile(&s.env, recipient).unwrap().address, recipient);
}

#[test]
#[should_panic]
fn test_create_deliveries_batch_over_limit_rejected() {
    let mut s = setup_full();
    let list: Vec<DeliveryMetadata> = (0..(MAX_BATCH_SIZE as u64 + 1)).map(|i| metadata(&s.env, i)).collect();
    let (shipper, recipient) = (s.shipper, s.recipient);
    let r = DeliveryContract::create_deliveries_batch(&mut s.env, shipper, recipient, list);
    assert_eq!(r, Err(ContractError::Delivery(DeliveryError::BatchTooLarge)));
    r.unwrap();
}

#[test]
fn test_late_delivery_confirmation() {
    let mut s = setup_full();
    let estimated = s.env.timestamp + 86400;
    let id = create_funded(&mut s);
    let (driver, recipient) = (s.driver, s.recipient);
    DeliveryContract::assign_driver(&mut s.env, driver, id, driver).unwrap();
    DeliveryContract::mark_in_transit(&mut s.env, driver, id).unwrap();
    s.env.timestamp = estimated + 43200;
    DeliveryContract::confirm_delivery(&mut s.env, recipient, id).unwrap();
    let d = DeliveryContract::get_delivery(&s.env, id).unwrap();
    assert_eq!(d.status, DeliveryStatus::Delivered);
    assert!(d.delivered_at.unwrap_or(0) > estimated);
}

#[test]
fn test_early_delivery_confirmation() {
    let mut s = setup_full();
    let now = s.env.timestamp;
    let estimated = now + 86400;
    let id = create_funded(&mut s);
    let (shipper, driver, recipient) = (s.shipper, s.driver, s.recipient);
    DeliveryContract::assign_driver(&mut s.env, driver, id, driver).unwrap();
    DeliveryContract::mark_in_transit(&mut s.env, driver, id).unwrap();
    DeliveryContract::raise_dispute(&mut s.env, recipient, id).unwrap();
    assert_eq!(DeliveryContract::cancel_delivery(&mut s.env, shipper, id), fani(FaniLabError::InvalidState));
    // Put the escrow back to locked, so that only the delivery's own
    // Disputed -> Delivered transition is exercised here.
    let mut record = EscrowContract::get_escrow(&s.env, id).unwrap();
    record.status = EscrowStatus::Locked;
    s.env.escrow.escrows.insert(id, record);
    s.env.timestamp = estimated - 86400;
    DeliveryContract::confirm_delivery(&mut s.env, recipient, id).unwrap();
    let d = DeliveryContract::get_delivery(&s.env, id).unwrap();
    assert_eq!(d.status, DeliveryStatus::Delivered);
    assert!(d.delivered_at.unwrap_or(0) < estimated);
}

#[test]
fn test_create_delivery_and_batch_emit_consistent_events() {
    let mut s = setup_without_identity();
    let (shipper, recipient) = (s.shipper, s.recipient);
    let m = DeliveryMetadata {
        delivery_id: 999,
        origin: b"Origin".to_vec(),
        destination: b"Destination".to_vec(),
        cargo_description: CargoDescriptor { weight_grams: 500, category: CargoCategory::Electronics, fragile: true },
        created_at: s.env.timestamp,
        estimated_delivery: s.env.timestamp + 3600,
    };
    let mut meta = m.clone();
    meta.delivery_id = 888;
    let single = DeliveryContract::create_delivery(&mut s.env, shipper, recipient, m).unwrap();
    let batch = DeliveryContract::create_deliveries_batch(&mut s.env, shipper, recipient, vec![meta]).unwrap();
    assert_eq!(batch.len(), 1);
    let a = DeliveryContract::get_delivery(&s.env, single).unwrap();
    let b = DeliveryContract::get_delivery(&s.env, batch[0]).unwrap();
    assert_eq!(a.status, DeliveryStatus::Pending);
    assert_eq!(b.status, DeliveryStatus::Pending);
    assert_eq!(a.sender, shipper);
    assert_eq!(b.sender, shipper);
    assert_eq!(a.recipient, recipient);
    assert_eq!(b.recipient, recipient);
    assert_eq!(a.metadata.origin, b.metadata.origin);
    assert_eq!(a.metadata.destination, b.metadata.destination);
    assert_eq!(a.metadata.cargo_description.weight_grams, b.metadata.cargo_description.weight_grams);
}

#[test]
fn test_get_identity_reputation_contract_returns_none_before_configuration() {
    let s = setup_without_identity();
    assert_eq!(DeliveryContract::get_identity_reputation_contract(&s.env), None);
}

#[test]
fn test_set_and_get_identity_reputation_contract_round_trip() {
    let mut s = setup_without_identity();
    let admin = s.shipper;
    let identity_contract = s.env.generate_address();
    assert_eq!(DeliveryContract::get_identity_reputation_contract(&s.env), None);
    DeliveryContract::set_identity_reputation_contract(&mut s.env, admin, identity_contract).unwrap();
    assert_eq!(DeliveryContract::get_identity_reputation_contract(&s.env), Some(identity_contract));
}

#[test]
fn test_index_contents_unchanged_after_delivery_completion() {
    let mut s = setup_full();
    let first = create_funded(&mut s);
    create(&mut s, 2);
    let (shipper, driver, recipient) = (s.shipper, s.driver, s.recipient);
    let sender_before = DeliveryContract::get_deliveries_by_sender(&s.env, shipper);
    let recipient_before = DeliveryContract::get_deliveries_by_recipient(&s.env, recipient);
    assert_eq!(sender_before.len(), 2);
    assert_eq!(recipient_before.len(), 2);
    DeliveryContract::assign_driver(&mut s.env, driver, first, driver).unwrap();
    DeliveryContract::mark_in_transit(&mut s.env, driver, first).unwrap();
    DeliveryContract::confirm_delivery(&mut s.env, recipient, first).unwrap();
    assert_eq!(DeliveryContract::get_deliveries_by_sender(&s.env, shipper), sender_before);
    assert_eq!(DeliveryContract::get_deliveries_by_recipient(&s.env, recipient), recipient_before);
}

#[test]
fn test_index_contents_unchanged_after_delivery_cancellation() {
    let mut s = setup_full();
    let first = create_funded(&mut s);
    create(&mut s, 2);
    let (shipper, recipient) = (s.shipper, s.recipient);
    let sender_before = DeliveryContract::get_deliveries_by_sender(&s.env, shipper);
    let recipient_before = DeliveryContract::get_deliveries_by_recipient(&s.env, recipient);
    assert_eq!(sender_before.len(), 2);
    DeliveryContract::cancel_delivery(&mut s.env, shipper, first).unwrap();
    assert_eq!(DeliveryContract::get_deliveries_by_sender(&s.env, shipper), sender_before);
    assert_eq!(DeliveryContract::get_deliveries_by_recipient(&s.env, recipient), recipient_before);
}

// Further checks of the delivery rules.

#[test]
fn transition_matrix_is_exact() {
    let states = [
        DeliveryStatus::Pending, DeliveryStatus::Active, DeliveryStatus::InTransit,
        DeliveryStatus::Delivered, DeliveryStatus::Disputed, DeliveryStatus::Cancelled,
    ];
    let allowed = [(0, 1), (0, 5), (1, 2), (1, 4), (1, 5), (2, 3), (2, 4), (3, 4), (4, 3)];
    for from in 0..6 {
        for to in 0..6 {
            let expected = allowed.contains(&(from, to));
            assert_eq!(validate_transition(states[from], states[to]).is_ok(), expected);
            if !expected {
                assert_eq!(validate_transition(states[from], states[to]), Err(FaniLabError::InvalidState));
            }
        }
    }
}

#[test]
fn metadata_bounds() {
    let env = Env::new();
    assert_eq!(validate_delivery_metadata(&metadata_with(&env, b"a", b"b", 1)), Ok(()));
    assert_eq!(
        validate_delivery_metadata(&metadata_with(&env, b"a", b"b", 0)),
        Err(DeliveryError::InvalidMetadata)
    );
}

#[test]
fn confirm_rolls_back_when_reputation_credit_fails() {
    let mut s = setup_full();
    let id = create_funded(&mut s);
    let (driver, recipient) = (s.driver, s.recipient);
    DeliveryContract::assign_driver(&mut s.env, driver, id, driver).unwrap();
    DeliveryContract::mark_in_transit(&mut s.env, driver, id).unwrap();
    let admin = s.shipper;
    let delivery_addr = s.env.delivery.address;
    IdentityReputationContract::set_authorized_contract(&mut s.env, admin, delivery_addr, false).unwrap();
    assert_eq!(DeliveryContract::confirm_delivery(&mut s.env, recipient, id), fani(FaniLabError::Unauthorized));
    assert_eq!(status(&s, id), DeliveryStatus::InTransit);
    assert_eq!(escrow_status(&s, id), EscrowStatus::Locked);
}

#[test]
fn cancel_without_escrow_leaves_delivery_unchanged() {
    let mut s = setup_full();
    let id = create(&mut s, 1);
    let shipper = s.shipper;
    assert_eq!(
        DeliveryContract::cancel_delivery(&mut s.env, shipper, id),
        Err(ContractError::Escrow(lib::types::EscrowError::DeliveryNotFound))
    );
    assert_eq!(status(&s, id), DeliveryStatus::Pending);
}

#[test]
fn batch_counter_overflow_is_refused_whole() {
    let mut s = setup_full();
    s.env.delivery.counter = u64::MAX - 1;
    let list = vec![metadata(&s.env, 1), metadata(&s.env, 2)];
    let (shipper, recipient) = (s.shipper, s.recipient);
    assert_eq!(
        DeliveryContract::create_deliveries_batch(&mut s.env, shipper, recipient, list),
        Err(ContractError::ArithmeticOverflow)
    );
    assert_eq!(s.env.delivery.counter, u64::MAX - 1);
    assert!(!IdentityReputationContract::has_user_profile(&s.env, shipper));
}

#[test]
fn operations_refused_while_paused() {
    let mut s = setup_full();
    let id = create(&mut s, 1);
    let escrow_admin = s.env.escrow.admin.unwrap();
    EscrowContract::set_paused(&mut s.env, escrow_admin, true).unwrap();
    let (shipper, driver) = (s.shipper, s.driver);
    assert_eq!(DeliveryContract::assign_driver(&mut s.env, driver, id, driver), fani(FaniLabError::ProtocolPaused));
    let m = metadata(&s.env, 1);
    let recipient = s.recipient;
    assert_eq!(
        DeliveryContract::create_delivery(&mut s.env, shipper, recipient, m),
        Err(ContractError::Fani(FaniLabError::ProtocolPaused))
    );
}
