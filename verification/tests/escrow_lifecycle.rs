use lib::env::Env;
use lib::escrow::{EscrowContract, VolumeTier, MAX_BATCH_SIZE, MAX_PLATFORM_FEE_BPS};
use lib::types::{Address, ContractError, EscrowError, EscrowStatus, FaniLabError};

struct S {
    env: Env,
    admin: Address,
    sender: Address,
    recipient: Address,
    driver: Address,
    token: Address,
    contract: Address,
}

fn setup() -> S {
    let mut env = Env::new();
    env.mock_all_auths = true;
    let admin = env.generate_address();
    let sender = env.generate_address();
    let recipient = env.generate_address();
    let driver = env.generate_address();
    let token = env.generate_address();
    let contract = env.escrow.address;
    S { env, admin, sender, recipient, driver, token, contract }
}

fn init(s: &mut S, fee: u32) {
    let (admin, token) = (s.admin, s.token);
    EscrowContract::init(&mut s.env, admin, token, fee).unwrap();
}

fn mint(s: &mut S, to: Address, amount: i128) {
    let token = s.token;
    s.env.tokens.mint(token, to, amount).unwrap();
}

fn bal(s: &S, of: Address) -> i128 {
    s.env.tokens.balance(s.token, of)
}

fn create(s: &mut S, id: u64, amount: i128) {
    let (sender, recipient, driver, token) = (s.sender, s.recipient, s.driver, s.token);
    EscrowContract::create_escrow(&mut s.env, sender, recipient, driver, id, token, amount, None).unwrap();
}

fn release(s: &mut S, id: u64) {
    let recipient = s.recipient;
    EscrowContract::release_escrow(&mut s.env, recipient, id).unwrap();
}

fn tiers(s: &mut S, list: &[(u32, u32)]) -> Result<(), ContractError> {
    let admin = s.admin;
    let v: Vec<VolumeTier> =
        list.iter().map(|&(t, d)| VolumeTier { volume_threshold: t, discount_bps: d }).collect();
    EscrowContract::set_volume_tiers(&mut s.env, admin, v)
}

fn locked(s: &S) -> i128 {
    EscrowContract::get_total_locked(&s.env, s.token)
}

fn status(s: &S, id: u64) -> EscrowStatus {
    EscrowContract::get_escrow(&s.env, id).unwrap().status
}

fn volume(s: &S) -> u32 {
    EscrowContract::get_sender_volume(&s.env, s.sender)
}

fn esc(e: EscrowError) -> Result<(), ContractError> {
    Err(ContractError::Escrow(e))
}

fn fani(e: FaniLabError) -> Result<(), ContractError> {
    Err(ContractError::Fani(e))
}

fn batch(s: &mut S, entries: &[(u64, Address, i128)]) -> Result<u32, ContractError> {
    let (sender, recipient, token) = (s.sender, s.recipient, s.token);
    let list: Vec<(u64, Address, i128, Option<u64>)> = entries.iter().map(|&(i, d, a)| (i, d, a, None)).collect();
    EscrowContract::create_escrows_batch(&mut s.env, sender, recipient, token, list)
}

/// An initialized, paused protocol with one funded, locked escrow.
fn setup_paused_with_escrow(id: u64) -> S {
    let mut s = setup();
    init(&mut s, 0);
    let (sender, admin) = (s.sender, s.admin);
    mint(&mut s, sender, 10_000);
    create(&mut s, id, 1000);
    EscrowContract::set_paused(&mut s.env, admin, true).unwrap();
    s
}

#[test]
fn test_volume_tier_fee_discount_applied() {
    let mut s = setup();
    init(&mut s, 100);
    let (sender, driver, admin) = (s.sender, s.driver, s.admin);
    mint(&mut s, sender, 5000);
    tiers(&mut s, &[(2, 50)]).unwrap();
    create(&mut s, 500, 1000);
    release(&mut s, 500);
    assert_eq!(bal(&s, driver), 990);
    assert_eq!(volume(&s), 1);
    create(&mut s, 501, 1000);
    release(&mut s, 501);
    assert_eq!(bal(&s, driver), 1980);
    assert_eq!(volume(&s), 2);
    create(&mut s, 502, 1000);
    release(&mut s, 502);
    assert_eq!(bal(&s, driver), 2975);
    assert_eq!(bal(&s, admin), 10 + 10 + 5);
    assert_eq!(volume(&s), 3);
}

#[test]
fn test_release_escrow_applies_volume_discount_past_threshold() {
    let mut s = setup();
    init(&mut s, 100);
    let (sender, driver, admin, contract) = (s.sender, s.driver, s.admin, s.contract);
    mint(&mut s, sender, 3000);
    tiers(&mut s, &[(1, 40)]).unwrap();
    create(&mut s, 510, 1000);
    release(&mut s, 510);
    assert_eq!(bal(&s, driver), 990);
    assert_eq!(bal(&s, admin), 10);
    create(&mut s, 511, 1000);
    release(&mut s, 511);
    assert_eq!(bal(&s, driver), 990 + 994);
    assert_eq!(bal(&s, admin), 10 + 6);
    assert_eq!(bal(&s, contract), 0);
}

#[test]
fn test_release_escrow_no_discount_below_threshold() {
    let mut s = setup();
    init(&mut s, 100);
    let (sender, driver, admin) = (s.sender, s.driver, s.admin);
    mint(&mut s, sender, 1000);
    tiers(&mut s, &[(5, 50)]).unwrap();
    create(&mut s, 512, 1000);
    release(&mut s, 512);
    assert_eq!(bal(&s, driver), 990);
    assert_eq!(bal(&s, admin), 10);
}

#[test]
fn test_release_holdback_escrow_applies_volume_discount() {
    let mut s = setup();
    init(&mut s, 100);
    let (sender, recipient, driver, admin, contract) = (s.sender, s.recipient, s.driver, s.admin, s.contract);
    mint(&mut s, sender, 3000);
    tiers(&mut s, &[(1, 40)]).unwrap();
    create(&mut s, 513, 1000);
    release(&mut s, 513);
    assert_eq!(bal(&s, driver), 990);
    assert_eq!(bal(&s, admin), 10);
    create(&mut s, 514, 1000);
    EscrowContract::mark_holdback_escrow(&mut s.env, recipient, 514).unwrap();
    EscrowContract::release_holdback_escrow(&mut s.env, recipient, 514).unwrap();
    assert_eq!(bal(&s, driver), 990 + 994);
    assert_eq!(bal(&s, admin), 10 + 6);
    assert_eq!(bal(&s, contract), 0);
}

#[test]
fn test_resolve_dispute_release_to_driver_applies_volume_discount() {
    let mut s = setup();
    init(&mut s, 100);
    let (sender, driver, admin, contract) = (s.sender, s.driver, s.admin, s.contract);
    mint(&mut s, sender, 3000);
    tiers(&mut s, &[(1, 40)]).unwrap();
    create(&mut s, 515, 1000);
    release(&mut s, 515);
    assert_eq!(bal(&s, driver), 990);
    assert_eq!(bal(&s, admin), 10);
    create(&mut s, 516, 1000);
    EscrowContract::raise_dispute(&mut s.env, sender, 516).unwrap();
    EscrowContract::resolve_dispute(&mut s.env, admin, 516, true).unwrap();
    assert_eq!(bal(&s, driver), 990 + 994);
    assert_eq!(bal(&s, admin), 10 + 6);
    assert_eq!(bal(&s, contract), 0);
    assert_eq!(status(&s, 516), EscrowStatus::Released);
}

#[test]
fn test_release_escrow_event_amounts_match_balance_deltas() {
    let mut s = setup();
    init(&mut s, 100);
    let (sender, driver, admin) = (s.sender, s.driver, s.admin);
    mint(&mut s, sender, 3000);
    tiers(&mut s, &[(1, 40)]).unwrap();
    create(&mut s, 517, 1000);
    release(&mut s, 517);
    create(&mut s, 518, 1000);
    let driver_before = bal(&s, driver);
    let admin_before = bal(&s, admin);
    release(&mut s, 518);
    assert_eq!(bal(&s, driver) - driver_before, 994);
    assert_eq!(bal(&s, admin) - admin_before, 6);
}

#[test]
fn test_volume_discount_larger_than_base_fee_floors_at_zero() {
    let mut s = setup();
    init(&mut s, 50);
    let (sender, driver, admin, contract) = (s.sender, s.driver, s.admin, s.contract);
    mint(&mut s, sender, 2000);
    tiers(&mut s, &[(1, 100)]).unwrap();
    create(&mut s, 519, 1000);
    release(&mut s, 519);
    assert_eq!(bal(&s, driver), 995);
    assert_eq!(bal(&s, admin), 5);
    create(&mut s, 520, 1000);
    release(&mut s, 520);
    assert_eq!(bal(&s, driver), 995 + 1000);
    assert_eq!(bal(&s, admin), 5);
    assert_eq!(bal(&s, contract), 0);
}

#[test]
fn test_set_volume_tiers_rejects_descending_thresholds() {
    let mut s = setup();
    init(&mut s, 100);
    assert_eq!(tiers(&mut s, &[(50, 100), (10, 50)]), esc(EscrowError::InvalidFee));
}

#[test]
fn test_set_volume_tiers_rejects_duplicate_thresholds() {
    let mut s = setup();
    init(&mut s, 100);
    assert_eq!(tiers(&mut s, &[(10, 50), (10, 100)]), esc(EscrowError::InvalidFee));
}

#[test]
fn test_set_volume_tiers_rejects_discount_over_ceiling() {
    let mut s = setup();
    init(&mut s, 100);
    assert_eq!(tiers(&mut s, &[(10, MAX_PLATFORM_FEE_BPS + 1)]), esc(EscrowError::InvalidFee));
}

#[test]
fn test_valid_ascending_tiers_select_correct_tier_at_each_boundary() {
    let mut s = setup();
    init(&mut s, 500);
    tiers(&mut s, &[(10, 100), (50, 200), (100, 300)]).unwrap();
    assert_eq!(EscrowContract::get_volume_tiers(&s.env).len(), 3);
    let fee = |v: u32| EscrowContract::get_effective_fee_bps(&s.env, 500, v);
    assert_eq!(fee(0), 500);
    assert_eq!(fee(9), 500);
    assert_eq!(fee(10), 400);
    assert_eq!(fee(49), 400);
    assert_eq!(fee(50), 300);
    assert_eq!(fee(99), 300);
    assert_eq!(fee(100), 200);
    assert_eq!(fee(1_000_000), 200);
}

#[test]
fn test_empty_volume_tiers_disables_tiering() {
    let mut s = setup();
    init(&mut s, 500);
    tiers(&mut s, &[(10, 100)]).unwrap();
    assert_eq!(EscrowContract::get_volume_tiers(&s.env).len(), 1);
    tiers(&mut s, &[]).unwrap();
    assert_eq!(EscrowContract::get_volume_tiers(&s.env).len(), 0);
    assert_eq!(EscrowContract::get_effective_fee_bps(&s.env, 500, 0), 500);
    assert_eq!(EscrowContract::get_effective_fee_bps(&s.env, 500, 1_000_000), 500);
}

#[test]
fn test_resolve_dispute_split_full_sender_share() {
    let mut s = setup();
    init(&mut s, 0);
    let (admin, sender, driver, contract) = (s.admin, s.sender, s.driver, s.contract);
    let dispute_contract = s.env.generate_address();
    EscrowContract::set_dispute_resolution_contract(&mut s.env, admin, dispute_contract).unwrap();
    mint(&mut s, sender, 1000);
    create(&mut s, 304, 1000);
    EscrowContract::freeze_funds(&mut s.env, dispute_contract, 304).unwrap();
    EscrowContract::resolve_dispute_split(&mut s.env, admin, 304, 10000).unwrap();
    assert_eq!(bal(&s, sender), 1000);
    assert_eq!(bal(&s, driver), 0);
    assert_eq!(bal(&s, contract), 0);
    assert_eq!(status(&s, 304), EscrowStatus::Split);
}

#[test]
fn test_release_escrow_happy_path_sets_released_status() {
    let mut s = setup();
    init(&mut s, 0);
    let (sender, driver) = (s.sender, s.driver);
    mint(&mut s, sender, 2000);
    create(&mut s, 500, 2000);
    release(&mut s, 500);
    assert_eq!(status(&s, 500), EscrowStatus::Released);
    assert_eq!(bal(&s, driver), 2000);
}

#[test]
fn test_set_settlement_contract_updates_getter() {
    let mut s = setup();
    init(&mut s, 0);
    let admin = s.admin;
    let settlement_contract = s.env.generate_address();
    assert_eq!(EscrowContract::get_settlement_contract(&s.env), None);
    EscrowContract::set_settlement_contract(&mut s.env, admin, settlement_contract).unwrap();
    assert_eq!(EscrowContract::get_settlement_contract(&s.env), None);
    s.env.timestamp += 3 * 24 * 60 * 60;
    EscrowContract::confirm_settlement_contract(&mut s.env, admin).unwrap();
    assert_eq!(EscrowContract::get_settlement_contract(&s.env), Some(settlement_contract));
}

#[test]
fn test_refund_escrow_sets_refunded_status() {
    let mut s = setup();
    init(&mut s, 0);
    let sender = s.sender;
    mint(&mut s, sender, 2000);
    create(&mut s, 501, 2000);
    EscrowContract::refund_escrow(&mut s.env, sender, 501).unwrap();
    assert_eq!(status(&s, 501), EscrowStatus::Refunded);
    assert_eq!(bal(&s, sender), 2000);
}

#[test]
fn test_resolve_dispute_updates_state_before_release_transfer() {
    let mut s = setup();
    init(&mut s, 0);
    let (admin, sender, driver) = (s.admin, s.sender, s.driver);
    mint(&mut s, sender, 2000);
    create(&mut s, 502, 2000);
    EscrowContract::raise_dispute(&mut s.env, sender, 502).unwrap();
    EscrowContract::resolve_dispute(&mut s.env, admin, 502, true).unwrap();
    assert_eq!(status(&s, 502), EscrowStatus::Released);
    assert_eq!(bal(&s, driver), 2000);
}

#[test]
fn test_set_settlement_contract_unauthorized() {
    let mut s = setup();
    init(&mut s, 0);
    let attacker = s.env.generate_address();
    let settlement_contract = s.env.generate_address();
    assert_eq!(
        EscrowContract::set_settlement_contract(&mut s.env, attacker, settlement_contract),
        fani(FaniLabError::Unauthorized)
    );
}

#[test]
fn test_sender_volume_tracking() {
    let mut s = setup();
    init(&mut s, 0);
    let sender = s.sender;
    mint(&mut s, sender, 5000);
    assert_eq!(volume(&s), 0);
    create(&mut s, 600, 1000);
    release(&mut s, 600);
    assert_eq!(volume(&s), 1);
    create(&mut s, 601, 1000);
    release(&mut s, 601);
    assert_eq!(volume(&s), 2);
    create(&mut s, 602, 1000);
    release(&mut s, 602);
    assert_eq!(volume(&s), 3);
}

#[test]
fn test_resolve_dispute_refund_sets_refunded_status() {
    let mut s = setup();
    init(&mut s, 0);
    let (admin, sender) = (s.admin, s.sender);
    mint(&mut s, sender, 2000);
    create(&mut s, 503, 2000);
    EscrowContract::raise_dispute(&mut s.env, sender, 503).unwrap();
    EscrowContract::resolve_dispute(&mut s.env, admin, 503, false).unwrap();
    assert_eq!(status(&s, 503), EscrowStatus::Refunded);
    assert_eq!(bal(&s, sender), 2000);
}

#[test]
fn test_resolve_dispute_split_updates_state_before_transfer() {
    let mut s = setup();
    init(&mut s, 0);
    let (admin, sender, driver) = (s.admin, s.sender, s.driver);
    mint(&mut s, sender, 2000);
    create(&mut s, 504, 2000);
    EscrowContract::raise_dispute(&mut s.env, sender, 504).unwrap();
    EscrowContract::resolve_dispute_split(&mut s.env, admin, 504, 3000).unwrap();
    assert_eq!(status(&s, 504), EscrowStatus::Split);
    assert_eq!(bal(&s, sender), 600);
    assert_eq!(bal(&s, driver), 1400);
}

#[test]
fn test_double_release_prevented_by_state_check() {
    let mut s = setup();
    init(&mut s, 0);
    let (admin, sender, driver) = (s.admin, s.sender, s.driver);
    mint(&mut s, sender, 2000);
    create(&mut s, 505, 2000);
    release(&mut s, 505);
    assert_eq!(EscrowContract::release_escrow(&mut s.env, admin, 505), esc(EscrowError::InvalidState));
    assert_eq!(bal(&s, driver), 2000);
}

#[test]
fn test_cannot_release_already_refunded_escrow() {
    let mut s = setup();
    init(&mut s, 0);
    let (admin, sender) = (s.admin, s.sender);
    tiers(&mut s, &[(10, 100), (50, 200)]).unwrap();
    assert_eq!(EscrowContract::get_volume_tiers(&s.env).len(), 2);
    mint(&mut s, sender, 2000);
    create(&mut s, 506, 2000);
    EscrowContract::refund_escrow(&mut s.env, sender, 506).unwrap();
    assert_eq!(EscrowContract::release_escrow(&mut s.env, admin, 506), esc(EscrowError::InvalidState));
    assert_eq!(bal(&s, sender), 2000);
}

#[test]
fn test_set_paused_requires_admin() {
    let mut s = setup();
    init(&mut s, 0);
    let not_admin = s.env.generate_address();
    assert_eq!(EscrowContract::set_paused(&mut s.env, not_admin, true), fani(FaniLabError::Unauthorized));
    assert!(!EscrowContract::is_paused(&s.env));
}

#[test]
fn test_set_paused_and_is_paused_roundtrip() {
    let mut s = setup();
    init(&mut s, 0);
    let admin = s.admin;
    assert!(!EscrowContract::is_paused(&s.env));
    EscrowContract::set_paused(&mut s.env, admin, true).unwrap();
    assert!(EscrowContract::is_paused(&s.env));
    EscrowContract::set_paused(&mut s.env, admin, false).unwrap();
    assert!(!EscrowContract::is_paused(&s.env));
}

#[test]
fn test_create_escrow_rejected_while_paused() {
    let mut s = setup();
    init(&mut s, 0);
    let (admin, sender, recipient, driver, token) = (s.admin, s.sender, s.recipient, s.driver, s.token);
    mint(&mut s, sender, 1000);
    EscrowContract::set_paused(&mut s.env, admin, true).unwrap();
    assert_eq!(
        EscrowContract::create_escrow(&mut s.env, sender, recipient, driver, 900, token, 1000, None),
        fani(FaniLabError::ProtocolPaused)
    );
}

#[test]
fn test_create_escrows_batch_rejected_while_paused() {
    let mut s = setup();
    init(&mut s, 0);
    let (admin, sender, driver) = (s.admin, s.sender, s.driver);
    mint(&mut s, sender, 1000);
    EscrowContract::set_paused(&mut s.env, admin, true).unwrap();
    assert_eq!(batch(&mut s, &[(901, driver, 500)]), Err(ContractError::Fani(FaniLabError::ProtocolPaused)));
}

#[test]
fn test_batch_increases_total_locked() {
    let mut s = setup();
    init(&mut s, 0);
    let (sender, driver) = (s.sender, s.driver);
    mint(&mut s, sender, 6000);
    assert_eq!(locked(&s), 0);
    assert_eq!(batch(&mut s, &[(1, driver, 1000), (2, driver, 2000), (3, driver, 3000)]), Ok(3));
    assert_eq!(locked(&s), 6000);
}

#[test]
fn test_batch_release_each_returns_total_locked_to_zero() {
    let mut s = setup();
    init(&mut s, 0);
    let (sender, driver) = (s.sender, s.driver);
    mint(&mut s, sender, 3000);
    batch(&mut s, &[(4, driver, 1000), (5, driver, 2000)]).unwrap();
    assert_eq!(locked(&s), 3000);
    release(&mut s, 4);
    assert_eq!(locked(&s), 2000);
    release(&mut s, 5);
    assert_eq!(locked(&s), 0);
}

#[test]
fn test_sweep_untracked_balance_after_batch_moves_no_funds() {
    let mut s = setup();
    init(&mut s, 0);
    let (admin, sender, driver, token, contract) = (s.admin, s.sender, s.driver, s.token, s.contract);
    let recovery = s.env.generate_address();
    mint(&mut s, sender, 2000);
    batch(&mut s, &[(6, driver, 1000), (7, driver, 1000)]).unwrap();
    assert_eq!(locked(&s), 2000);
    assert_eq!(bal(&s, contract), 2000);
    EscrowContract::sweep_untracked_balance(&mut s.env, admin, token, recovery).unwrap();
    assert_eq!(bal(&s, contract), 2000);
    assert_eq!(bal(&s, recovery), 0);
    assert_eq!(locked(&s), 2000);
    release(&mut s, 6);
    release(&mut s, 7);
    assert_eq!(locked(&s), 0);
}

#[test]
fn test_batch_total_locked_single_and_max_batch_size() {
    let mut s = setup();
    init(&mut s, 0);
    let (sender, driver) = (s.sender, s.driver);
    mint(&mut s, sender, 10_000);
    batch(&mut s, &[(8, driver, 500)]).unwrap();
    assert_eq!(locked(&s), 500);
    let max: Vec<(u64, Address, i128)> = (0..MAX_BATCH_SIZE).map(|i| (100u64 + u64::from(i), driver, 10i128)).collect();
    batch(&mut s, &max).unwrap();
    assert_eq!(locked(&s), 500 + 100 * 10);
}

#[test]
fn test_batch_total_locked_accumulates_across_senders() {
    let mut s = setup();
    init(&mut s, 0);
    let (recipient, driver, token) = (s.recipient, s.driver, s.token);
    let sender1 = s.env.generate_address();
    let sender2 = s.env.generate_address();
    mint(&mut s, sender1, 2000);
    mint(&mut s, sender2, 500);
    EscrowContract::create_escrows_batch(
        &mut s.env,
        sender1,
        recipient,
        token,
        vec![(200, driver, 1000, None), (201, driver, 1000, None)],
    )
    .unwrap();
    assert_eq!(locked(&s), 2000);
    EscrowContract::create_escrows_batch(&mut s.env, sender2, recipient, token, vec![(202, driver, 500, None)]).unwrap();
    assert_eq!(locked(&s), 2500);
}

#[test]
fn test_create_escrow_rejects_invalid_driver_and_parties() {
    let mut s = setup();
    init(&mut s, 0);
    let (sender, recipient, token) = (s.sender, s.recipient, s.token);
    mint(&mut s, sender, 5000);
    assert_eq!(
        EscrowContract::create_escrow(&mut s.env, sender, recipient, sender, 300, token, 500, None),
        esc(EscrowError::InvalidDriver)
    );
    assert_eq!(
        EscrowContract::create_escrow(&mut s.env, sender, recipient, recipient, 301, token, 500, None),
        esc(EscrowError::InvalidDriver)
    );
    assert_eq!(
        EscrowContract::create_escrow(&mut s.env, sender, sender, recipient, 302, token, 500, None),
        esc(EscrowError::InvalidParties)
    );
}

#[test]
fn test_batch_rejects_invalid_driver_and_parties() {
    let mut s = setup();
    init(&mut s, 0);
    let (sender, recipient, token) = (s.sender, s.recipient, s.token);
    mint(&mut s, sender, 2000);
    assert_eq!(batch(&mut s, &[(400, sender, 1000)]), Err(ContractError::Escrow(EscrowError::InvalidDriver)));
    assert_eq!(
        EscrowContract::create_escrows_batch(&mut s.env, sender, sender, token, vec![(401, recipient, 1000, None)]),
        Err(ContractError::Escrow(EscrowError::InvalidParties))
    );
}

#[test]
fn test_batch_with_foreign_token_rejected() {
    let mut s = setup();
    init(&mut s, 0);
    let (sender, recipient, driver) = (s.sender, s.recipient, s.driver);
    let other_token = s.env.generate_address();
    mint(&mut s, sender, 500);
    assert_eq!(
        EscrowContract::create_escrows_batch(&mut s.env, sender, recipient, other_token, vec![(300, driver, 500, None)]),
        Err(ContractError::Escrow(EscrowError::InvalidToken))
    );
    assert_eq!(locked(&s), 0);
}

#[test]
fn test_batch_with_zero_amount_rejected() {
    let mut s = setup();
    init(&mut s, 0);
    let (sender, driver) = (s.sender, s.driver);
    mint(&mut s, sender, 1000);
    assert_eq!(batch(&mut s, &[(301, driver, 0)]), Err(ContractError::Escrow(EscrowError::InvalidAmount)));
    assert_eq!(locked(&s), 0);
}

#[test]
fn test_batch_with_negative_amount_rejected() {
    let mut s = setup();
    init(&mut s, 0);
    let (sender, driver) = (s.sender, s.driver);
    mint(&mut s, sender, 1000);
    assert_eq!(batch(&mut s, &[(302, driver, -500)]), Err(ContractError::Escrow(EscrowError::InvalidAmount)));
    assert_eq!(locked(&s), 0);
}

#[test]
fn test_batch_invalid_element_leaves_no_partial_state() {
    let mut s = setup();
    init(&mut s, 0);
    let (sender, recipient, driver, contract) = (s.sender, s.recipient, s.driver, s.contract);
    mint(&mut s, sender, 3000);
    assert_eq!(
        batch(&mut s, &[(400, driver, 1000), (401, driver, 0), (402, driver, 1000)]),
        Err(ContractError::Escrow(EscrowError::InvalidAmount))
    );
    for id in [400u64, 401, 402] {
        assert_eq!(
            EscrowContract::get_escrow(&s.env, id),
            Err(ContractError::Escrow(EscrowError::DeliveryNotFound))
        );
    }
    assert_eq!(locked(&s), 0);
    assert_eq!(bal(&s, contract), 0);
    assert_eq!(EscrowContract::get_escrows_by_sender(&s.env, sender).len(), 0);
    assert_eq!(EscrowContract::get_escrows_by_recipient(&s.env, recipient).len(), 0);
    assert_eq!(EscrowContract::get_escrows_by_driver(&s.env, driver).len(), 0);
}

#[test]
fn test_batch_valid_creates_every_escrow() {
    let mut s = setup();
    init(&mut s, 0);
    let (sender, recipient, driver, contract) = (s.sender, s.recipient, s.driver, s.contract);
    mint(&mut s, sender, 3000);
    assert_eq!(batch(&mut s, &[(500, driver, 1000), (501, driver, 1000), (502, driver, 1000)]), Ok(3));
    for id in [500u64, 501, 502] {
        let record = EscrowContract::get_escrow(&s.env, id).unwrap();
        assert_eq!(record.status, EscrowStatus::Locked);
        assert_eq!(record.amount, 1000);
    }
    assert_eq!(locked(&s), 3000);
    assert_eq!(EscrowContract::get_escrows_by_sender(&s.env, sender).len(), 3);
    assert_eq!(EscrowContract::get_escrows_by_recipient(&s.env, recipient).len(), 3);
    assert_eq!(EscrowContract::get_escrows_by_driver(&s.env, driver).len(), 3);
    assert_eq!(bal(&s, contract), 3000);
}

#[test]
fn test_mark_holdback_escrow_rejected_while_paused() {
    let mut s = setup_paused_with_escrow(902);
    let recipient = s.recipient;
    assert_eq!(EscrowContract::mark_holdback_escrow(&mut s.env, recipient, 902), fani(FaniLabError::ProtocolPaused));
}

#[test]
fn test_release_holdback_escrow_rejected_while_paused() {
    let mut s = setup_paused_with_escrow(903);
    let recipient = s.recipient;
    assert_eq!(EscrowContract::release_holdback_escrow(&mut s.env, recipient, 903), fani(FaniLabError::ProtocolPaused));
}

#[test]
fn test_release_escrow_rejected_while_paused() {
    let mut s = setup_paused_with_escrow(904);
    let recipient = s.recipient;
    assert_eq!(EscrowContract::release_escrow(&mut s.env, recipient, 904), fani(FaniLabError::ProtocolPaused));
}

#[test]
fn test_refund_escrow_rejected_while_paused() {
    let mut s = setup_paused_with_escrow(905);
    let sender = s.sender;
    assert_eq!(EscrowContract::refund_escrow(&mut s.env, sender, 905), fani(FaniLabError::ProtocolPaused));
}

#[test]
fn test_resolve_dispute_rejected_while_paused() {
    let mut s = setup_paused_with_escrow(906);
    let admin = s.admin;
    assert_eq!(EscrowContract::resolve_dispute(&mut s.env, admin, 906, true), fani(FaniLabError::ProtocolPaused));
}

#[test]
fn test_resolve_dispute_split_rejected_while_paused() {
    let mut s = setup_paused_with_escrow(907);
    let admin = s.admin;
    assert_eq!(EscrowContract::resolve_dispute_split(&mut s.env, admin, 907, 5000), fani(FaniLabError::ProtocolPaused));
}

#[test]
fn test_reclaim_expired_escrow_rejected_while_paused() {
    let mut s = setup_paused_with_escrow(908);
    s.env.timestamp += 31 * 24 * 60 * 60;
    assert_eq!(EscrowContract::reclaim_expired_escrow(&mut s.env, 908), fani(FaniLabError::ProtocolPaused));
}

#[test]
fn test_freeze_funds_remains_available_while_paused() {
    let mut s = setup();
    init(&mut s, 0);
    let (admin, sender) = (s.admin, s.sender);
    let dispute_contract = s.env.generate_address();
    EscrowContract::set_dispute_resolution_contract(&mut s.env, admin, dispute_contract).unwrap();
    mint(&mut s, sender, 1000);
    create(&mut s, 909, 1000);
    EscrowContract::set_paused(&mut s.env, admin, true).unwrap();
    EscrowContract::freeze_funds(&mut s.env, dispute_contract, 909).unwrap();
    assert_eq!(status(&s, 909), EscrowStatus::Paused);
}

#[test]
fn test_freeze_funds_unauthorized_caller_rejected() {
    let mut s = setup();
    init(&mut s, 0);
    let (admin, sender) = (s.admin, s.sender);
    let attacker = s.env.generate_address();
    let dispute_contract = s.env.generate_address();
    EscrowContract::set_dispute_resolution_contract(&mut s.env, admin, dispute_contract).unwrap();
    mint(&mut s, sender, 1000);
    create(&mut s, 910, 1000);
    assert_eq!(EscrowContract::freeze_funds(&mut s.env, attacker, 910), fani(FaniLabError::Unauthorized));
    assert_eq!(status(&s, 910), EscrowStatus::Locked);
}
