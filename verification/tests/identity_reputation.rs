use lib::env::Env;
use lib::escrow::EscrowContract;
use lib::delivery::DeliveryContract;
use lib::identity::{
    IdentityReputationContract, ReputationConfig, DriverTier, reputation_up, reputation_down, tier_for_score,
    compute_cargo_points,
};
use lib::types::{Address, ContractError, FaniLabError};

/// A ledger with the escrow, delivery and identity contracts initialized,
/// the identity contract pointing at the deployed delivery and dispute
/// contracts. Returns the environment, the administrator, and the delivery
/// and dispute contract addresses.
fn setup() -> (Env, Address, Address, Address) {
    let mut env = Env::new();
    env.mock_all_auths = true;
    let admin = env.generate_address();
    let token = env.generate_address();
    let escrow = env.escrow.address;
    let delivery = env.delivery.address;
    let dispute = env.dispute.address;
    EscrowContract::init(&mut env, admin, token, 0).unwrap();
    DeliveryContract::init(&mut env, admin, escrow).unwrap();
    IdentityReputationContract::init(&mut env, admin, delivery, dispute).unwrap();
    (env, admin, delivery, dispute)
}

fn unauthorized() -> Result<(), ContractError> {
    Err(ContractError::Fani(FaniLabError::Unauthorized))
}

fn score(env: &Env, driver: Address) -> u32 {
    IdentityReputationContract::get_driver_profile(env, driver).unwrap().reputation_score
}

/// Register `driver` and move its score to exactly `target` through the
/// public increase/decrease entry points.
fn drive_score_to(env: &mut Env, authorized: Address, driver: Address, target: u32) {
    IdentityReputationContract::register_driver(env, driver).unwrap();
    let start = score(env, driver);
    if target >= start {
        let mut s = start;
        while s < target {
            IdentityReputationContract::increase_reputation(env, authorized, driver, 0, 1000, false).unwrap();
            s += 5;
        }
        if s > target {
            IdentityReputationContract::decrease_reputation(env, authorized, driver, s - target).unwrap();
        }
    } else {
        IdentityReputationContract::decrease_reputation(env, authorized, driver, start - target).unwrap();
    }
    assert_eq!(score(env, driver), target, "helper failed to reach exact target score");
}

#[test]
fn test_register_driver() {
    let (mut env, _, _, _) = setup();
    let driver = env.generate_address();
    IdentityReputationContract::register_driver(&mut env, driver).unwrap();
    let profile = IdentityReputationContract::get_driver_profile(&env, driver).unwrap();
    assert_eq!(profile.address, driver);
    assert_eq!(profile.reputation_score, 50);
    assert_eq!(profile.deliveries_completed, 0);
    assert!(!profile.kyc_verified);
}

#[test]
fn test_register_user_and_get_profile() {
    let (mut env, _, _, _) = setup();
    let user = env.generate_address();
    let registered = IdentityReputationContract::register_user(&mut env, user).unwrap();
    let profile = IdentityReputationContract::get_user_profile(&env, user).unwrap();
    assert_eq!(registered, profile);
    assert_eq!(profile.address, user);
}

#[test]
fn test_register_user_is_idempotent() {
    let (mut env, _, _, _) = setup();
    let user = env.generate_address();
    let first = IdentityReputationContract::register_user(&mut env, user).unwrap();
    env.timestamp = 500;
    let second = IdentityReputationContract::register_user(&mut env, user).unwrap();
    assert_eq!(first, second);
}

#[test]
fn test_has_driver_profile() {
    let (mut env, _, _, _) = setup();
    let driver = env.generate_address();
    assert!(!IdentityReputationContract::has_driver_profile(&env, driver));
    IdentityReputationContract::register_driver(&mut env, driver).unwrap();
    assert!(IdentityReputationContract::has_driver_profile(&env, driver));
}

#[test]
fn test_register_driver_duplicate() {
    let (mut env, _, _, _) = setup();
    let driver = env.generate_address();
    IdentityReputationContract::register_driver(&mut env, driver).unwrap();
    assert_eq!(
        IdentityReputationContract::register_driver(&mut env, driver),
        Err(ContractError::Fani(FaniLabError::AlreadyInitialized))
    );
}

#[test]
fn test_kyc_status_update_by_admin() {
    let (mut env, admin, _, _) = setup();
    let driver = env.generate_address();
    IdentityReputationContract::register_driver(&mut env, driver).unwrap();
    assert!(!IdentityReputationContract::get_driver_profile(&env, driver).unwrap().kyc_verified);
    IdentityReputationContract::update_driver_kyc_status(&mut env, admin, driver, true).unwrap();
    let updated = IdentityReputationContract::get_driver_profile(&env, driver).unwrap();
    assert!(updated.kyc_verified);
    assert_eq!(updated.address, driver);
}

#[test]
fn test_kyc_status_update_unauthorized() {
    let (mut env, _, _, _) = setup();
    let driver = env.generate_address();
    IdentityReputationContract::register_driver(&mut env, driver).unwrap();
    let attacker = env.generate_address();
    assert_eq!(IdentityReputationContract::update_driver_kyc_status(&mut env, attacker, driver, true), unauthorized());
}

#[test]
fn test_profile_fields_persisted() {
    let (mut env, _, _, _) = setup();
    let driver = env.generate_address();
    IdentityReputationContract::register_driver(&mut env, driver).unwrap();
    let profile = IdentityReputationContract::get_driver_profile(&env, driver).unwrap();
    assert_eq!(profile.address, driver);
    assert_eq!(profile.reputation_score, 50);
    assert_eq!(profile.deliveries_completed, 0);
    assert!(!profile.kyc_verified);
}

#[test]
fn test_increase_reputation_basic() {
    let (mut env, _, delivery, _) = setup();
    let driver = env.generate_address();
    IdentityReputationContract::register_driver(&mut env, driver).unwrap();
    IdentityReputationContract::increase_reputation(&mut env, delivery, driver, 1, 1000, false).unwrap();
    assert_eq!(score(&env, driver), 55);
}

#[test]
fn test_decrease_reputation_basic() {
    let (mut env, _, delivery, _) = setup();
    let driver = env.generate_address();
    IdentityReputationContract::register_driver(&mut env, driver).unwrap();
    IdentityReputationContract::decrease_reputation(&mut env, delivery, driver, 10).unwrap();
    assert_eq!(score(&env, driver), 40);
}

#[test]
fn test_reputation_cannot_go_below_zero() {
    let (mut env, _, delivery, _) = setup();
    let driver = env.generate_address();
    IdentityReputationContract::register_driver(&mut env, driver).unwrap();
    IdentityReputationContract::decrease_reputation(&mut env, delivery, driver, 200).unwrap();
    assert_eq!(score(&env, driver), 0);
}

#[test]
fn test_reputation_upper_bound() {
    let (mut env, _, delivery, _) = setup();
    let driver = env.generate_address();
    IdentityReputationContract::register_driver(&mut env, driver).unwrap();
    for i in 0..20u64 {
        IdentityReputationContract::increase_reputation(&mut env, delivery, driver, 100 + i, 6000, true).unwrap();
    }
    assert_eq!(score(&env, driver), 100);
}

#[test]
fn test_tier_bronze() {
    let (mut env, _, delivery, _) = setup();
    let driver = env.generate_address();
    IdentityReputationContract::register_driver(&mut env, driver).unwrap();
    IdentityReputationContract::increase_reputation(&mut env, delivery, driver, 1, 1000, false).unwrap();
    IdentityReputationContract::decrease_reputation(&mut env, delivery, driver, 15).unwrap();
    assert_eq!(IdentityReputationContract::get_driver_tier(&env, driver), Ok(DriverTier::Bronze));
}

#[test]
fn test_tier_silver() {
    let (mut env, _, _, _) = setup();
    let driver = env.generate_address();
    IdentityReputationContract::register_driver(&mut env, driver).unwrap();
    assert_eq!(IdentityReputationContract::get_driver_tier(&env, driver), Ok(DriverTier::Silver));
}

#[test]
fn test_tier_gold() {
    let (mut env, _, delivery, _) = setup();
    let driver = env.generate_address();
    IdentityReputationContract::register_driver(&mut env, driver).unwrap();
    for _ in 0..5 {
        IdentityReputationContract::increase_reputation(&mut env, delivery, driver, 1, 1000, false).unwrap();
    }
    assert_eq!(IdentityReputationContract::get_driver_tier(&env, driver), Ok(DriverTier::Gold));
}

#[test]
fn test_tier_boundary_exact() {
    let (mut env, _, delivery, _) = setup();
    let driver = env.generate_address();
    IdentityReputationContract::register_driver(&mut env, driver).unwrap();
    for _ in 0..5 {
        IdentityReputationContract::increase_reputation(&mut env, delivery, driver, 1, 1000, false).unwrap();
    }
    assert_eq!(score(&env, driver), 75);
    assert_eq!(IdentityReputationContract::get_driver_tier(&env, driver), Ok(DriverTier::Gold));
}

#[test]
fn test_tier_boundary_49_is_bronze() {
    let (mut env, _, delivery, _) = setup();
    let driver = env.generate_address();
    drive_score_to(&mut env, delivery, driver, 49);
    assert_eq!(IdentityReputationContract::get_driver_tier(&env, driver), Ok(DriverTier::Bronze));
}

#[test]
fn test_tier_boundary_50_is_silver() {
    let (mut env, _, _, _) = setup();
    let driver = env.generate_address();
    IdentityReputationContract::register_driver(&mut env, driver).unwrap();
    assert_eq!(score(&env, driver), 50);
    assert_eq!(IdentityReputationContract::get_driver_tier(&env, driver), Ok(DriverTier::Silver));
}

#[test]
fn test_tier_boundary_74_is_silver() {
    let (mut env, _, delivery, _) = setup();
    let driver = env.generate_address();
    drive_score_to(&mut env, delivery, driver, 74);
    assert_eq!(IdentityReputationContract::get_driver_tier(&env, driver), Ok(DriverTier::Silver));
}

#[test]
fn test_tier_boundary_75_is_gold() {
    let (mut env, _, delivery, _) = setup();
    let driver = env.generate_address();
    drive_score_to(&mut env, delivery, driver, 75);
    assert_eq!(IdentityReputationContract::get_driver_tier(&env, driver), Ok(DriverTier::Gold));
}

#[test]
fn test_newly_registered_driver_starts_silver() {
    let (mut env, _, _, _) = setup();
    let driver = env.generate_address();
    IdentityReputationContract::register_driver(&mut env, driver).unwrap();
    assert_eq!(IdentityReputationContract::get_driver_tier(&env, driver), Ok(DriverTier::Silver));
}

#[test]
fn test_tier_edge_score_zero_is_bronze() {
    let (mut env, _, delivery, _) = setup();
    let driver = env.generate_address();
    drive_score_to(&mut env, delivery, driver, 0);
    assert_eq!(IdentityReputationContract::get_driver_tier(&env, driver), Ok(DriverTier::Bronze));
}

#[test]
fn test_tier_edge_score_max_is_gold() {
    let (mut env, _, delivery, _) = setup();
    let driver = env.generate_address();
    drive_score_to(&mut env, delivery, driver, 100);
    assert_eq!(IdentityReputationContract::get_driver_tier(&env, driver), Ok(DriverTier::Gold));
}

#[test]
fn test_enterprise_eligibility_agrees_with_tier_at_gold_boundary() {
    let (mut env, _, delivery, _) = setup();
    let below = env.generate_address();
    drive_score_to(&mut env, delivery, below, 74);
    assert_eq!(IdentityReputationContract::get_driver_tier(&env, below), Ok(DriverTier::Silver));
    assert_eq!(IdentityReputationContract::is_eligible_for_enterprise(&env, below), Ok(false));
    let at = env.generate_address();
    drive_score_to(&mut env, delivery, at, 75);
    assert_eq!(IdentityReputationContract::get_driver_tier(&env, at), Ok(DriverTier::Gold));
    assert_eq!(IdentityReputationContract::is_eligible_for_enterprise(&env, at), Ok(true));
}

#[test]
fn test_get_driver_tier_rejects_unregistered_driver() {
    let (mut env, _, _, _) = setup();
    let unregistered = env.generate_address();
    assert_eq!(
        IdentityReputationContract::get_driver_tier(&env, unregistered),
        Err(ContractError::Fani(FaniLabError::ProviderNotFound))
    );
}

#[test]
fn test_reputation_accumulation() {
    let (mut env, _, delivery, _) = setup();
    let driver = env.generate_address();
    IdentityReputationContract::register_driver(&mut env, driver).unwrap();
    for _ in 0..10 {
        IdentityReputationContract::increase_reputation(&mut env, delivery, driver, 1, 1000, false).unwrap();
    }
    assert_eq!(score(&env, driver), 100);
}

#[test]
fn test_reputation_deduction_sequence() {
    let (mut env, _, delivery, dispute) = setup();
    let driver = env.generate_address();
    IdentityReputationContract::register_driver(&mut env, driver).unwrap();
    IdentityReputationContract::increase_reputation(&mut env, delivery, driver, 1, 6000, true).unwrap();
    IdentityReputationContract::decrease_reputation(&mut env, dispute, driver, 3).unwrap();
    IdentityReputationContract::increase_reputation(&mut env, delivery, driver, 2, 1000, false).unwrap();
    IdentityReputationContract::decrease_reputation(&mut env, dispute, driver, 7).unwrap();
    assert_eq!(score(&env, driver), 55);
}

#[test]
fn test_reputation_config_defaults() {
    let (env, _, _, _) = setup();
    let config = IdentityReputationContract::get_reputation_config(&env);
    assert_eq!(config.base_points, 5);
    assert_eq!(config.heavy_cargo_points, 3);
    assert_eq!(config.fragile_points, 2);
}

#[test]
fn test_admin_configured_points_take_effect() {
    let (mut env, admin, delivery, _) = setup();
    let driver = env.generate_address();
    IdentityReputationContract::register_driver(&mut env, driver).unwrap();
    IdentityReputationContract::set_reputation_config(
        &mut env,
        admin,
        ReputationConfig { base_points: 1, heavy_cargo_points: 6, fragile_points: 4 },
    ).unwrap();
    IdentityReputationContract::increase_reputation(&mut env, delivery, driver, 1, 6000, true).unwrap();
    assert_eq!(score(&env, driver), 61);
}

#[test]
fn test_set_reputation_config_unauthorized() {
    let (mut env, _, _, _) = setup();
    let attacker = env.generate_address();
    assert_eq!(
        IdentityReputationContract::set_reputation_config(
            &mut env,
            attacker,
            ReputationConfig { base_points: 50, heavy_cargo_points: 0, fragile_points: 0 },
        ),
        unauthorized()
    );
}

#[test]
fn test_init_stores_cross_contract_addresses() {
    let (env, _, delivery, dispute) = setup();
    assert_eq!(IdentityReputationContract::get_delivery_contract(&env), Ok(delivery));
    assert_eq!(IdentityReputationContract::get_dispute_contract(&env), Ok(dispute));
}

#[test]
fn test_is_authorized_contract_after_initialize() {
    let (mut env, _, delivery, dispute) = setup();
    let stranger = env.generate_address();
    assert!(IdentityReputationContract::is_authorized_contract(&env, delivery));
    assert!(IdentityReputationContract::is_authorized_contract(&env, dispute));
    assert!(!IdentityReputationContract::is_authorized_contract(&env, stranger));
}

#[test]
fn test_authorized_third_contract_can_update_reputation() {
    let (mut env, admin, _, _) = setup();
    let third = env.generate_address();
    let driver = env.generate_address();
    IdentityReputationContract::register_driver(&mut env, driver).unwrap();
    assert!(IdentityReputationContract::increase_reputation(&mut env, third, driver, 1, 1000, false).is_err());
    IdentityReputationContract::set_authorized_contract(&mut env, admin, third, true).unwrap();
    assert!(IdentityReputationContract::is_authorized_contract(&env, third));
    IdentityReputationContract::increase_reputation(&mut env, third, driver, 1, 1000, false).unwrap();
    assert_eq!(score(&env, driver), 55);
    IdentityReputationContract::decrease_reputation(&mut env, third, driver, 5).unwrap();
    assert_eq!(score(&env, driver), 50);
}

#[test]
fn test_deauthorized_caller_is_rejected() {
    let (mut env, admin, delivery, _) = setup();
    let driver = env.generate_address();
    IdentityReputationContract::register_driver(&mut env, driver).unwrap();
    IdentityReputationContract::set_authorized_contract(&mut env, admin, delivery, false).unwrap();
    assert_eq!(
        IdentityReputationContract::increase_reputation(&mut env, delivery, driver, 1, 1000, false),
        unauthorized()
    );
}

#[test]
fn test_set_cross_contracts_unauthorized() {
    let (mut env, _, _, _) = setup();
    let attacker = env.generate_address();
    let new_contract = env.generate_address();
    assert_eq!(IdentityReputationContract::set_delivery_contract(&mut env, attacker, new_contract), unauthorized());
    assert_eq!(IdentityReputationContract::set_dispute_contract(&mut env, attacker, new_contract), unauthorized());
}

#[test]
fn test_deauthorized_delivery_contract_rejected_for_reputation_calls() {
    let (mut env, admin, delivery, _) = setup();
    let driver = env.generate_address();
    IdentityReputationContract::register_driver(&mut env, driver).unwrap();
    IdentityReputationContract::increase_reputation(&mut env, delivery, driver, 1, 1000, false).unwrap();
    IdentityReputationContract::set_authorized_contract(&mut env, admin, delivery, false).unwrap();
    assert!(!IdentityReputationContract::is_authorized_contract(&env, delivery));
    assert_eq!(
        IdentityReputationContract::increase_reputation(&mut env, delivery, driver, 2, 1000, false),
        unauthorized()
    );
    assert_eq!(IdentityReputationContract::decrease_reputation(&mut env, delivery, driver, 5), unauthorized());
}

#[test]
fn test_set_authorized_contract_requires_admin() {
    let (mut env, _, _, _) = setup();
    let attacker = env.generate_address();
    let target = env.generate_address();
    assert_eq!(IdentityReputationContract::set_authorized_contract(&mut env, attacker, target, true), unauthorized());
}

#[test]
fn test_unauthorized_caller_cannot_increase_reputation() {
    let (mut env, _, _, _) = setup();
    let random = env.generate_address();
    let driver = env.generate_address();
    IdentityReputationContract::register_driver(&mut env, driver).unwrap();
    assert_eq!(
        IdentityReputationContract::increase_reputation(&mut env, random, driver, 1, 1000, false),
        unauthorized()
    );
}

#[test]
fn test_unauthorized_caller_cannot_decrease_reputation() {
    let (mut env, _, _, _) = setup();
    let random = env.generate_address();
    let driver = env.generate_address();
    IdentityReputationContract::register_driver(&mut env, driver).unwrap();
    assert_eq!(IdentityReputationContract::decrease_reputation(&mut env, random, driver, 5), unauthorized());
}

#[test]
fn test_award_reputation_is_flat_and_not_a_completion() {
    let (mut env, _, _, dispute) = setup();
    let driver = env.generate_address();
    IdentityReputationContract::register_driver(&mut env, driver).unwrap();
    IdentityReputationContract::award_reputation(&mut env, dispute, driver, 5).unwrap();
    let profile = IdentityReputationContract::get_driver_profile(&env, driver).unwrap();
    assert_eq!(profile.reputation_score, 55);
    assert_eq!(profile.deliveries_completed, 0);
}

#[test]
fn test_award_reputation_respects_upper_bound() {
    let (mut env, _, _, dispute) = setup();
    let driver = env.generate_address();
    IdentityReputationContract::register_driver(&mut env, driver).unwrap();
    for _ in 0..20 {
        IdentityReputationContract::award_reputation(&mut env, dispute, driver, 10).unwrap();
    }
    assert_eq!(score(&env, driver), 100);
}

#[test]
fn test_unauthorized_caller_cannot_award_reputation() {
    let (mut env, _, _, _) = setup();
    let random = env.generate_address();
    let driver = env.generate_address();
    IdentityReputationContract::register_driver(&mut env, driver).unwrap();
    assert_eq!(IdentityReputationContract::award_reputation(&mut env, random, driver, 5), unauthorized());
}

#[test]
fn test_init_already_initialized_rejected() {
    let (mut env, _, delivery, dispute) = setup();
    let admin2 = env.generate_address();
    assert_eq!(
        IdentityReputationContract::init(&mut env, admin2, delivery, dispute),
        Err(ContractError::Fani(FaniLabError::AlreadyInitialized))
    );
}

#[test]
fn test_get_admin_returns_configured_admin() {
    let (env, admin, _, _) = setup();
    assert_eq!(IdentityReputationContract::get_admin(&env), Ok(admin));
}

#[test]
fn test_set_and_is_authorized_contract_roundtrip() {
    let (mut env, admin, _, _) = setup();
    let contract_addr = env.generate_address();
    assert!(!IdentityReputationContract::is_authorized_contract(&env, contract_addr));
    IdentityReputationContract::set_authorized_contract(&mut env, admin, contract_addr, true).unwrap();
    assert!(IdentityReputationContract::is_authorized_contract(&env, contract_addr));
    IdentityReputationContract::set_authorized_contract(&mut env, admin, contract_addr, false).unwrap();
    assert!(!IdentityReputationContract::is_authorized_contract(&env, contract_addr));
}

#[test]
fn test_is_eligible_for_enterprise_below_threshold() {
    let (mut env, _, _, _) = setup();
    let driver = env.generate_address();
    IdentityReputationContract::register_driver(&mut env, driver).unwrap();
    assert_eq!(IdentityReputationContract::is_eligible_for_enterprise(&env, driver), Ok(false));
}

#[test]
fn test_is_eligible_for_enterprise_at_threshold() {
    let (mut env, _, delivery, _) = setup();
    let driver = env.generate_address();
    IdentityReputationContract::register_driver(&mut env, driver).unwrap();
    for _ in 0..5 {
        IdentityReputationContract::increase_reputation(&mut env, delivery, driver, 1, 1000, false).unwrap();
    }
    assert_eq!(score(&env, driver), 75);
    assert_eq!(IdentityReputationContract::is_eligible_for_enterprise(&env, driver), Ok(true));
}

#[test]
fn test_is_eligible_for_enterprise_above_threshold() {
    let (mut env, _, delivery, _) = setup();
    let driver = env.generate_address();
    IdentityReputationContract::register_driver(&mut env, driver).unwrap();
    for _ in 0..6 {
        IdentityReputationContract::increase_reputation(&mut env, delivery, driver, 1, 1000, false).unwrap();
    }
    assert!(score(&env, driver) > 75);
    assert_eq!(IdentityReputationContract::is_eligible_for_enterprise(&env, driver), Ok(true));
}

// Further checks of the scoring rules.

#[test]
fn reputation_is_bounded_on_sampled_inputs() {
    let samples = [0u32, 1, 5, 49, 50, 99, 100, 101, 1000, u32::MAX - 1, u32::MAX];
    for &s in samples.iter() {
        for &p in samples.iter() {
            let s_in = if s > 100 { 100 } else { s };
            assert!(reputation_up(s_in, p) <= 100);
            assert!(reputation_down(s_in, p) <= 100);
            assert!(reputation_down(s, p) <= s);
        }
    }
    assert_eq!(reputation_up(95, 10), 100);
    assert_eq!(reputation_up(50, 5), 55);
    assert_eq!(reputation_up(u32::MAX, 1), 100);
    assert_eq!(reputation_down(3, 10), 0);
    assert_eq!(reputation_down(30, 10), 20);
}

#[test]
fn tier_thresholds() {
    assert_eq!(tier_for_score(0), DriverTier::Bronze);
    assert_eq!(tier_for_score(49), DriverTier::Bronze);
    assert_eq!(tier_for_score(50), DriverTier::Silver);
    assert_eq!(tier_for_score(74), DriverTier::Silver);
    assert_eq!(tier_for_score(75), DriverTier::Gold);
    assert_eq!(tier_for_score(100), DriverTier::Gold);
}

#[test]
fn cargo_points_add_bonuses() {
    let c = ReputationConfig { base_points: 5, heavy_cargo_points: 3, fragile_points: 2 };
    assert_eq!(compute_cargo_points(c, 1000, false), Some(5));
    assert_eq!(compute_cargo_points(c, 5000, false), Some(5));
    assert_eq!(compute_cargo_points(c, 5001, false), Some(8));
    assert_eq!(compute_cargo_points(c, 6000, true), Some(10));
    let big = ReputationConfig { base_points: u32::MAX, heavy_cargo_points: 1, fragile_points: 0 };
    assert_eq!(compute_cargo_points(big, 6000, false), None);
}

#[test]
fn delivery_count_overflow_is_refused() {
    let (mut env, _, delivery, _) = setup();
    let driver = env.generate_address();
    IdentityReputationContract::register_driver(&mut env, driver).unwrap();
    let mut p = *env.identity.drivers.get(&driver.id).unwrap();
    p.deliveries_completed = u32::MAX;
    env.identity.drivers.insert(driver.id, p);
    assert_eq!(
        IdentityReputationContract::increase_reputation(&mut env, delivery, driver, 1, 1000, false),
        Err(ContractError::ArithmeticOverflow)
    );
    assert_eq!(score(&env, driver), 50);
}

#[test]
fn registration_is_refused_while_protocol_paused() {
    let (mut env, admin, _, _) = setup();
    EscrowContract::set_paused(&mut env, admin, true).unwrap();
    let driver = env.generate_address();
    assert_eq!(
        IdentityReputationContract::register_driver(&mut env, driver),
        Err(ContractError::Fani(FaniLabError::ProtocolPaused))
    );
    assert!(!IdentityReputationContract::has_driver_profile(&env, driver));
}

#[test]
fn suspension_round_trip() {
    let (mut env, admin, _, _) = setup();
    let driver = env.generate_address();
    IdentityReputationContract::register_driver(&mut env, driver).unwrap();
    assert!(!IdentityReputationContract::is_driver_suspended(&env, driver));
    IdentityReputationContract::suspend_driver(&mut env, admin, driver).unwrap();
    assert!(IdentityReputationContract::is_driver_suspended(&env, driver));
    assert_eq!(
        IdentityReputationContract::suspend_driver(&mut env, admin, driver),
        Err(ContractError::Fani(FaniLabError::InvalidState))
    );
    IdentityReputationContract::reinstate_driver(&mut env, admin, driver).unwrap();
    assert!(!IdentityReputationContract::is_driver_suspended(&env, driver));
}
