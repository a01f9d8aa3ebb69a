use lib::env::Env;
use lib::settlement::SettlementContract;
use lib::types::{ContractError, FaniLabError, SettlementError};

fn fresh() -> Env {
    let mut env = Env::new();
    env.mock_all_auths = true;
    env
}

#[test]
fn lib_test_init() {
    let mut env = fresh();
    let admin = env.generate_address();
    SettlementContract::init(&mut env, admin).unwrap();
}

#[test]
fn test_test_init() {
    let mut env = fresh();
    let admin = env.generate_address();
    SettlementContract::init(&mut env, admin).unwrap();
    assert_eq!(SettlementContract::get_admin(&env), Ok(admin));
}

#[test]
#[should_panic]
fn test_init_rejects_reinitialization() {
    let mut env = fresh();
    let first_admin = env.generate_address();
    let second_admin = env.generate_address();
    SettlementContract::init(&mut env, first_admin).unwrap();
    let r = SettlementContract::init(&mut env, second_admin);
    assert_eq!(r, Err(ContractError::Fani(FaniLabError::AlreadyInitialized)));
    assert_eq!(SettlementContract::get_admin(&env), Ok(first_admin));
    r.unwrap();
}

#[test]
#[should_panic]
fn lib_test_execute_settlement_swap_panics_when_unimplemented() {
    let mut env = fresh();
    let admin = env.generate_address();
    let caller = env.generate_address();
    let from_token = env.generate_address();
    let to_token = env.generate_address();
    let recipient = env.generate_address();
    SettlementContract::init(&mut env, admin).unwrap();
    let r = SettlementContract::execute_settlement_swap(&env, caller, from_token, to_token, recipient, 1000, 900);
    assert_eq!(r, Err(ContractError::Settlement(SettlementError::SwapNotImplemented)));
    r.unwrap();
}

#[test]
#[should_panic]
fn test_test_execute_settlement_swap_panics_when_unimplemented() {
    let mut env = fresh();
    let admin = env.generate_address();
    let caller = env.generate_address();
    let from_token = env.generate_address();
    let to_token = env.generate_address();
    let recipient = env.generate_address();
    SettlementContract::init(&mut env, admin).unwrap();
    let r = SettlementContract::execute_settlement_swap(&env, caller, from_token, to_token, recipient, 1000, 900);
    assert_eq!(r, Err(ContractError::Settlement(SettlementError::SwapNotImplemented)));
    assert_eq!(SettlementError::SwapNotImplemented.code(), 1);
    r.unwrap();
}

#[test]
fn get_admin_before_init_is_not_initialized() {
    let env = fresh();
    assert_eq!(SettlementContract::get_admin(&env), Err(ContractError::Fani(FaniLabError::NotInitialized)));
}

#[test]
fn no_driver_has_a_preference() {
    let mut env = fresh();
    let driver = env.generate_address();
    assert_eq!(SettlementContract::get_driver_preference(&env, driver), None);
}

#[test]
fn swap_requires_the_callers_authorization() {
    let mut env = Env::new();
    let caller = env.generate_address();
    let a = env.generate_address();
    assert_eq!(
        SettlementContract::execute_settlement_swap(&env, caller, a, a, a, 1, 1),
        Err(ContractError::AuthRequired)
    );
}
