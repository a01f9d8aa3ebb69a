//! The settlement contract: the future home of cross-currency payouts. Its
//! swap entry point refuses every call until swaps are implemented.
use vstd::prelude::*;
use crate::types::{Address, ContractError, FaniLabError, SettlementError};
use crate::env::Env;

verus! {

/// Storage of the settlement contract.
pub struct SettlementContract {
    pub address: Address,
    pub admin: Option<Address>,
}

impl SettlementContract {
    /// A freshly deployed, uninitialized contract at `address`.
    pub open spec fn is_fresh(&self, address: Address) -> bool {
        self.address == address && self.admin is None
    }

    pub fn new(address: Address) -> (c: SettlementContract)
        ensures
            c.is_fresh(address),
    {
        SettlementContract { address, admin: None }
    }

    /// Initialize the contract with its administrator.
    pub fn init(env: &mut Env, admin: Address) -> (r: Result<(), ContractError>)
        ensures
            r == (if old(env).settlement.admin is Some {
                Err(ContractError::Fani(FaniLabError::AlreadyInitialized))
            } else if !old(env).authorizes(admin) {
                Err(ContractError::AuthRequired)
            } else {
                Ok(())
            }),
            r is Err ==> *final(env) == *old(env),
            r is Ok ==> *final(env) == (Env {
                settlement: SettlementContract { admin: Some(admin), ..old(env).settlement },
                ..*old(env)
            }),
    {
        if env.settlement.admin.is_some() {
            return Err(ContractError::Fani(FaniLabError::AlreadyInitialized));
        }
        env.require_auth(admin)?;
        env.settlement.admin = Some(admin);
        Ok(())
    }

    /// The settlement contract's administrator.
    pub fn get_admin(env: &Env) -> (r: Result<Address, ContractError>)
        ensures
            r == (match env.settlement.admin {
                Some(a) => Ok(a),
                None => Err(ContractError::Fani(FaniLabError::NotInitialized)),
            }),
    {
        match env.settlement.admin {
            Some(a) => Ok(a),
            None => Err(ContractError::Fani(FaniLabError::NotInitialized)),
        }
    }

    /// The asset a driver prefers to be paid in. No driver has a preference
    /// yet.
    pub fn get_driver_preference(env: &Env, driver: Address) -> (r: Option<Address>)
        ensures
            r is None,
    {
        None
    }

    /// Swap `amount` of `from_token` into `to_token` for `recipient`. Swaps
    /// are not implemented: after the caller's authorization the call always
    /// fails with `SwapNotImplemented`, so no payout is ever silently dropped.
    pub fn execute_settlement_swap(
        env: &Env,
        caller: Address,
        from_token: Address,
        to_token: Address,
        recipient: Address,
        amount: i128,
        min_amount_out: i128,
    ) -> (r: Result<(), ContractError>)
        ensures
            r == (if !env.authorizes(caller) {
                Err::<(), ContractError>(ContractError::AuthRequired)
            } else {
                Err(ContractError::Settlement(SettlementError::SwapNotImplemented))
            }),
    {
        env.require_auth(caller)?;
        Err(ContractError::Settlement(SettlementError::SwapNotImplemented))
    }
}

} // verus!
