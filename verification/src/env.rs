//! The ledger environment the contracts run in: the clock, who authorized
//! the current call, the token ledger, and the storage of every deployed
//! contract of the protocol.
use vstd::prelude::*;
use crate::types::{Address, ContractError};
use crate::token::{TokenLedger, transfer_error, transferred};
use crate::escrow::EscrowContract;
use crate::delivery::DeliveryContract;
use crate::dispute::DisputeResolutionContract;
use crate::fleet::FleetManagementContract;
use crate::identity::IdentityReputationContract;
use crate::settlement::SettlementContract;

verus! {

/// Everything a contract call can observe or change.
pub struct Env {
    /// Ledger time in seconds.
    pub timestamp: u64,
    /// When set, every address counts as having authorized the call.
    pub mock_all_auths: bool,
    /// Addresses that authorized the current call.
    pub signers: Vec<Address>,
    /// Next address handed out by `generate_address`.
    pub next_address: u64,
    pub tokens: TokenLedger,
    pub escrow: EscrowContract,
    pub delivery: DeliveryContract,
    pub dispute: DisputeResolutionContract,
    pub fleet: FleetManagementContract,
    pub identity: IdentityReputationContract,
    pub settlement: SettlementContract,
}

impl Env {
    /// Whether `a` authorized the current call.
    pub open spec fn authorizes(&self, a: Address) -> bool {
        self.mock_all_auths || self.signers@.contains(a)
    }

    /// A fresh ledger at time zero with every contract deployed and not yet
    /// initialized. The contracts live at addresses 1 to 6.
    pub fn new() -> (env: Env)
        ensures
            env.timestamp == 0,
            !env.mock_all_auths,
            env.signers@.len() == 0,
            env.next_address == 100,
            env.escrow.is_fresh(Address { id: 1 }),
            env.delivery.is_fresh(Address { id: 2 }),
            env.dispute.is_fresh(Address { id: 3 }),
            env.fleet.is_fresh(Address { id: 4 }),
            env.identity.is_fresh(Address { id: 5 }),
            env.settlement.is_fresh(Address { id: 6 }),
            env.tokens.balances@ == Map::<u128, i128>::empty(),
    {
        Env {
            timestamp: 0,
            mock_all_auths: false,
            signers: Vec::new(),
            next_address: 100,
            tokens: TokenLedger::new(),
            escrow: EscrowContract::new(Address { id: 1 }),
            delivery: DeliveryContract::new(Address { id: 2 }),
            dispute: DisputeResolutionContract::new(Address { id: 3 }),
            fleet: FleetManagementContract::new(Address { id: 4 }),
            identity: IdentityReputationContract::new(Address { id: 5 }),
            settlement: SettlementContract::new(Address { id: 6 }),
        }
    }

    /// Hand out an address not used before (until the counter saturates).
    pub fn generate_address(&mut self) -> (a: Address)
        ensures
            a.id == old(self).next_address,
            final(self).next_address == if old(self).next_address < u64::MAX {
                (old(self).next_address + 1) as u64
            } else {
                old(self).next_address
            },
            final(self).timestamp == old(self).timestamp,
            final(self).mock_all_auths == old(self).mock_all_auths,
            final(self).signers == old(self).signers,
            final(self).tokens == old(self).tokens,
            final(self).escrow == old(self).escrow,
            final(self).delivery == old(self).delivery,
            final(self).dispute == old(self).dispute,
            final(self).fleet == old(self).fleet,
            final(self).identity == old(self).identity,
            final(self).settlement == old(self).settlement,
    {
        let a = Address { id: self.next_address };
        if self.next_address < u64::MAX {
            self.next_address = self.next_address + 1;
        }
        a
    }

    /// A token transfer signed by its sender: `amount` of `token` from
    /// `from` to `to`, refused unless `from` authorized the call.
    pub fn transfer_token(&mut self, token: Address, from: Address, to: Address, amount: i128) -> (r: Result<(), ContractError>)
        ensures
            r == (if !old(self).authorizes(from) {
                Err(ContractError::AuthRequired)
            } else {
                match transfer_error(old(self).tokens.balances@, token, from, to, amount) {
                    Some(e) => Err(e),
                    None => Ok(()),
                }
            }),
            r is Err ==> *final(self) == *old(self),
            r is Ok ==> old(self).frame(final(self), false, false, false, false, false, true)
                && final(self).tokens.balances@ == transferred(old(self).tokens.balances@, token, from, to, amount),
    {
        self.require_auth(from)?;
        self.tokens.transfer(token, from, to, amount)
    }

    /// Fails with `AuthRequired` unless `a` authorized the current call.
    pub fn require_auth(&self, a: Address) -> (r: Result<(), ContractError>)
        ensures
            r == (if self.authorizes(a) { Ok::<(), ContractError>(()) } else { Err(ContractError::AuthRequired) }),
    {
        if self.mock_all_auths {
            return Ok(());
        }
        let mut i: usize = 0;
        while i < self.signers.len()
            invariant
                0 <= i <= self.signers@.len(),
                forall|j: int| 0 <= j < i ==> self.signers@[j] != a,
            decreases self.signers@.len() - i,
        {
            if self.signers[i] == a {
                assert(self.signers@.contains(a));
                return Ok(());
            }
            i = i + 1;
        }
        Err(ContractError::AuthRequired)
    }
}

} // verus!

verus! {

impl Env {
    /// `b` differs from `a` at most in the identity contract's storage.
    pub open spec fn same_except_identity(&self, b: &Env) -> bool {
        &&& self.timestamp == b.timestamp
        &&& self.mock_all_auths == b.mock_all_auths
        &&& self.signers == b.signers
        &&& self.next_address == b.next_address
        &&& self.tokens == b.tokens
        &&& self.escrow == b.escrow
        &&& self.delivery == b.delivery
        &&& self.dispute == b.dispute
        &&& self.fleet == b.fleet
        &&& self.settlement == b.settlement
        &&& self.identity.address == b.identity.address
    }

    /// `b` differs from `a` at most in the parts flagged as changeable:
    /// the storage of the escrow, delivery, dispute, fleet and identity
    /// contracts and the token ledger. The clock, the authorizations, the
    /// address counter, the settlement contract and every contract's
    /// address stay.
    pub open spec fn frame(&self, b: &Env, escrow: bool, delivery: bool, dispute: bool, fleet: bool, identity: bool, tokens: bool) -> bool {
        &&& self.timestamp == b.timestamp
        &&& self.mock_all_auths == b.mock_all_auths
        &&& self.signers == b.signers
        &&& self.next_address == b.next_address
        &&& self.settlement == b.settlement
        &&& self.escrow.address == b.escrow.address
        &&& self.delivery.address == b.delivery.address
        &&& self.dispute.address == b.dispute.address
        &&& self.fleet.address == b.fleet.address
        &&& self.identity.address == b.identity.address
        &&& (!escrow ==> self.escrow == b.escrow)
        &&& (!delivery ==> self.delivery == b.delivery)
        &&& (!dispute ==> self.dispute == b.dispute)
        &&& (!fleet ==> self.fleet == b.fleet)
        &&& (!identity ==> self.identity == b.identity)
        &&& (!tokens ==> self.tokens == b.tokens)
    }

    /// The answer of the escrow contract's `is_paused` when called at
    /// `target`.
    pub open spec fn spec_is_paused_at(&self, target: Address) -> Result<bool, ContractError> {
        if target == self.escrow.address {
            Ok(self.escrow.paused)
        } else {
            Err(ContractError::MissingContract)
        }
    }

    /// Call `is_paused` on the contract at `target`.
    pub fn is_paused_at(&self, target: Address) -> (r: Result<bool, ContractError>)
        ensures
            r == self.spec_is_paused_at(target),
    {
        if target == self.escrow.address {
            Ok(self.escrow.paused)
        } else {
            Err(ContractError::MissingContract)
        }
    }
}

} // verus!
