//! The ledger of the payment token that escrows are funded with: who holds
//! how much of which token, and transfers between holders.
use vstd::prelude::*;
use std::collections::HashMap;
use crate::types::{Address, ContractError, TokenError, pair_key, make_pair_key};

verus! {

broadcast use vstd::std_specs::hash::group_hash_axioms;

/// Balances of every holder of every token.
pub struct TokenLedger {
    /// Balance keyed by `pair_key(token, holder)`; a missing entry is zero.
    pub balances: HashMap<u128, i128>,
}

/// Balance of `holder` in `token` in the given balance map.
pub open spec fn balance_in(m: Map<u128, i128>, token: Address, holder: Address) -> i128 {
    if m.contains_key(pair_key(token.id, holder.id)) {
        m[pair_key(token.id, holder.id)]
    } else {
        0
    }
}

/// The balance map after `holder`'s balance in `token` is set to `amount`.
pub open spec fn with_balance(m: Map<u128, i128>, token: Address, holder: Address, amount: i128) -> Map<u128, i128> {
    m.insert(pair_key(token.id, holder.id), amount)
}

/// Why a transfer of `amount` from `from` to `to` fails, if it does.
pub open spec fn transfer_error(m: Map<u128, i128>, token: Address, from: Address, to: Address, amount: i128) -> Option<ContractError> {
    if amount < 0 {
        Some(ContractError::Token(TokenError::NegativeAmount))
    } else if balance_in(m, token, from) < amount {
        Some(ContractError::Token(TokenError::InsufficientBalance))
    } else if from != to && balance_in(m, token, to) + amount > i128::MAX {
        Some(ContractError::Token(TokenError::BalanceOverflow))
    } else {
        None
    }
}

/// The outcome of a transfer on the balance map.
pub open spec fn transfer_result(m: Map<u128, i128>, token: Address, from: Address, to: Address, amount: i128) -> Result<Map<u128, i128>, ContractError> {
    match transfer_error(m, token, from, to, amount) {
        Some(e) => Err(e),
        None => Ok(transferred(m, token, from, to, amount)),
    }
}

/// The balances after a successful transfer.
pub open spec fn transferred(m: Map<u128, i128>, token: Address, from: Address, to: Address, amount: i128) -> Map<u128, i128> {
    if from == to {
        m
    } else {
        let m1 = with_balance(m, token, from, (balance_in(m, token, from) - amount) as i128);
        with_balance(m1, token, to, (balance_in(m, token, to) + amount) as i128)
    }
}

impl TokenLedger {
    pub fn new() -> (l: TokenLedger)
        ensures
            l.balances@ == Map::<u128, i128>::empty(),
    {
        TokenLedger { balances: HashMap::new() }
    }

    pub open spec fn balance_of(&self, token: Address, holder: Address) -> i128 {
        balance_in(self.balances@, token, holder)
    }

    /// Balance of `holder` in `token`; zero for a holder never credited.
    pub fn balance(&self, token: Address, holder: Address) -> (b: i128)
        ensures
            b == self.balance_of(token, holder),
    {
        let k = make_pair_key(token.id, holder.id);
        match self.balances.get(&k) {
            Some(b) => *b,
            None => 0,
        }
    }

    /// A copy of the ledger.
    pub fn snapshot(&self) -> (l: TokenLedger)
        ensures
            l.balances@ == self.balances@,
    {
        TokenLedger { balances: self.balances.clone() }
    }

    /// Why a transfer would fail, without making it.
    pub fn check_transfer(&self, token: Address, from: Address, to: Address, amount: i128) -> (e: Option<ContractError>)
        ensures
            e == transfer_error(self.balances@, token, from, to, amount),
    {
        if amount < 0 {
            return Some(ContractError::Token(TokenError::NegativeAmount));
        }
        let bf = self.balance(token, from);
        if bf < amount {
            return Some(ContractError::Token(TokenError::InsufficientBalance));
        }
        if from == to {
            return None;
        }
        let bt = self.balance(token, to);
        match bt.checked_add(amount) {
            None => Some(ContractError::Token(TokenError::BalanceOverflow)),
            Some(_) => None,
        }
    }

    /// Credit `amount` of `token` to `to` out of nothing (the token issuer's
    /// mint).
    pub fn mint(&mut self, token: Address, to: Address, amount: i128) -> (r: Result<(), ContractError>)
        ensures
            amount < 0 ==> r == Err::<(), ContractError>(ContractError::Token(TokenError::NegativeAmount)),
            amount >= 0 && old(self).balance_of(token, to) + amount > i128::MAX ==> r == Err::<(), ContractError>(
                ContractError::Token(TokenError::BalanceOverflow)),
            amount >= 0 && old(self).balance_of(token, to) + amount <= i128::MAX ==> r is Ok,
            r is Err ==> *final(self) == *old(self),
            r is Ok ==> amount >= 0 && final(self).balances@ == with_balance(
                old(self).balances@, token, to, (old(self).balance_of(token, to) + amount) as i128),
    {
        if amount < 0 {
            return Err(ContractError::Token(TokenError::NegativeAmount));
        }
        let b = self.balance(token, to);
        match b.checked_add(amount) {
            None => Err(ContractError::Token(TokenError::BalanceOverflow)),
            Some(nb) => {
                let k = make_pair_key(token.id, to.id);
                self.balances.insert(k, nb);
                Ok(())
            },
        }
    }

    /// Move `amount` of `token` from `from` to `to`. Whoever calls this has
    /// checked that `from` authorized the move: the contracts call it for
    /// their own holdings, and `Env::transfer_token` for signed transfers.
    pub(crate) fn transfer(&mut self, token: Address, from: Address, to: Address, amount: i128) -> (r: Result<(), ContractError>)
        ensures
            r == (match transfer_error(old(self).balances@, token, from, to, amount) {
                Some(e) => Err(e),
                None => Ok(()),
            }),
            r is Err ==> *final(self) == *old(self),
            r is Ok ==> final(self).balances@ == transferred(old(self).balances@, token, from, to, amount),
    {
        if amount < 0 {
            return Err(ContractError::Token(TokenError::NegativeAmount));
        }
        let bf = self.balance(token, from);
        if bf < amount {
            return Err(ContractError::Token(TokenError::InsufficientBalance));
        }
        if from == to {
            return Ok(());
        }
        let bt = self.balance(token, to);
        match bt.checked_add(amount) {
            None => Err(ContractError::Token(TokenError::BalanceOverflow)),
            Some(nt) => {
                let kf = make_pair_key(token.id, from.id);
                let kt = make_pair_key(token.id, to.id);
                self.balances.insert(kf, bf - amount);
                self.balances.insert(kt, nt);
                Ok(())
            },
        }
    }
}

} // verus!
