//! The fleet management contract: fleets of drivers with an owner, a
//! treasury that receives the fleet's payouts, a membership roster and
//! multi-signer administration.
use vstd::prelude::*;
use std::collections::HashMap;
use crate::types::{Address, ContractError, DriverProfile, DriverStatus, FaniLabError, FleetError, pair_key, make_pair_key};
use crate::env::Env;
use crate::identity::{IdentityReputationContract, identity_pause_error, INITIAL_REPUTATION_SCORE};

verus! {

broadcast use vstd::std_specs::hash::group_hash_axioms;

/// Identifier of a fleet.
pub type FleetId = u64;

/// A driver's standing in one fleet.
#[derive(Clone, Copy, Debug, PartialEq, Eq, Structural)]
pub enum DriverFleetStatus {
    /// Invited, not yet accepted.
    Pending,
    /// A member of the fleet.
    Active,
    /// Removed from the fleet (the record is kept).
    Removed,
}

/// A stored fleet.
#[derive(Clone, Debug, PartialEq, Eq)]
pub struct FleetProfile {
    pub fleet_id: FleetId,
    pub owner: Address,
    pub treasury: Address,
    pub total_active_drivers: u32,
    pub signers: Vec<Address>,
    pub signature_threshold: u32,
    /// Cleared by `deactivate_fleet`.
    pub active: bool,
}

/// A treasury change waiting for its timelock.
#[derive(Clone, Copy, Debug, PartialEq, Eq, Structural)]
pub struct PendingTreasuryChange {
    pub treasury: Address,
    pub activates_at: u64,
}

/// Storage of the fleet management contract.
pub struct FleetManagementContract {
    pub address: Address,
    pub admin: Option<Address>,
    pub identity_contract: Option<Address>,
    pub escrow_contract: Option<Address>,
    /// The last fleet id handed out; absent before `init`.
    pub counter: Option<u64>,
    pub fleets: HashMap<u64, FleetProfile>,
    /// Membership keyed by `pair_key(fleet_id, driver)`.
    pub memberships: HashMap<u128, DriverFleetStatus>,
    /// Active drivers of each fleet, in the order they joined.
    pub rosters: HashMap<u64, Vec<Address>>,
    pub pending_treasury: HashMap<u64, PendingTreasuryChange>,
}


/// Most active drivers a fleet may have.
pub const MAX_ROSTER_SIZE: u32 = 10000;

/// Delay between proposing and confirming a treasury change (3 days).
pub const TREASURY_CHANGE_TIMELOCK_SECONDS: u64 = 259200;

/// Abstract storage of the fleet contract.
#[verifier::ext_equal]
pub struct FleetView {
    pub admin: Option<Address>,
    pub identity_contract: Option<Address>,
    pub escrow_contract: Option<Address>,
    pub counter: Option<u64>,
    pub fleets: Map<u64, FleetProfile>,
    pub memberships: Map<u128, DriverFleetStatus>,
    pub rosters: Map<u64, Seq<Address>>,
    pub pending_treasury: Map<u64, PendingTreasuryChange>,
}

/// Well-formedness depends only on the counter, the fleets, the
/// memberships and the rosters; a counter never set may start at zero.
pub proof fn lemma_wf_core(a: FleetView, b: FleetView)
    requires
        a.wf(),
        b.counter == a.counter || (a.counter is None && b.counter == Some(0u64)),
        b.fleets == a.fleets,
        b.memberships == a.memberships,
        b.rosters == a.rosters,
    ensures
        b.wf(),
{
    if a.counter is None {
        assert(a.fleets.dom() =~= Set::<u64>::empty());
    }
    assert forall|f: u64, d: Address| #[trigger] b.status(f, d) == a.status(f, d) by {};
    assert forall|f: u64| #[trigger] b.roster(f) == a.roster(f) by {};
    assert forall|f: u64, d: Address| #[trigger] b.status(f, d) is Some implies b.fleets.contains_key(f) by {
        assert(a.status(f, d) is Some);
    };
    assert forall|f: u64| #[trigger] b.fleets.contains_key(f) implies {
        &&& b.roster(f).len() == b.fleets[f].total_active_drivers
        &&& b.roster(f).no_duplicates()
        &&& forall|d: Address| #[trigger] b.roster(f).contains(d) <==> b.status(f, d) == Some(DriverFleetStatus::Active)
    } by {
        assert(a.fleets.contains_key(f));
        assert forall|d: Address| #[trigger] b.roster(f).contains(d) <==> b.status(f, d) == Some(DriverFleetStatus::Active) by {
            assert(a.roster(f).contains(d) <==> a.status(f, d) == Some(DriverFleetStatus::Active));
            assert(b.status(f, d) == a.status(f, d));
        };
    };
}

impl View for FleetManagementContract {
    type V = FleetView;

    open spec fn view(&self) -> FleetView {
        FleetView {
            admin: self.admin,
            identity_contract: self.identity_contract,
            escrow_contract: self.escrow_contract,
            counter: self.counter,
            fleets: self.fleets@,
            memberships: self.memberships@,
            rosters: self.rosters@.map_values(|v: Vec<Address>| v@),
            pending_treasury: self.pending_treasury@,
        }
    }
}

impl FleetView {
    /// The standing of `driver` in fleet `fleet_id`, if any.
    pub open spec fn status(self, fleet_id: u64, driver: Address) -> Option<DriverFleetStatus> {
        if self.memberships.contains_key(pair_key(fleet_id, driver.id)) {
            Some(self.memberships[pair_key(fleet_id, driver.id)])
        } else {
            None
        }
    }

    /// The active drivers of a fleet, in joining order.
    pub open spec fn roster(self, fleet_id: u64) -> Seq<Address> {
        if self.rosters.contains_key(fleet_id) {
            self.rosters[fleet_id]
        } else {
            Seq::empty()
        }
    }

    /// Every fleet's roster lists exactly its active drivers, each once, and
    /// its length is the fleet's active-driver count.
    pub open spec fn wf(self) -> bool {
        &&& match self.counter {
            None => self.fleets.is_empty(),
            Some(c) => forall|f: u64| #[trigger] self.fleets.contains_key(f) ==> f <= c,
        }
        &&& forall|f: u64, d: Address| #[trigger] self.status(f, d) is Some ==> self.fleets.contains_key(f)
        &&& forall|f: u64| #[trigger] self.rosters.contains_key(f) ==> self.fleets.contains_key(f)
        &&& forall|f: u64| #[trigger] self.fleets.contains_key(f) ==> {
            &&& self.roster(f).len() == self.fleets[f].total_active_drivers
            &&& self.roster(f).no_duplicates()
            &&& forall|d: Address| #[trigger] self.roster(f).contains(d) <==> self.status(f, d) == Some(DriverFleetStatus::Active)
        }
    }

    /// Where the escrow contract pays `driver` of fleet `fleet_id`: the
    /// fleet's treasury while the driver is an active member of an active
    /// fleet, the driver's own address otherwise.
    pub open spec fn payout_address(self, driver: Address, fleet_id: u64) -> Address {
        if self.status(fleet_id, driver) == Some(DriverFleetStatus::Active) && self.fleets.contains_key(fleet_id)
            && self.fleets[fleet_id].active {
            self.fleets[fleet_id].treasury
        } else {
            driver
        }
    }

    /// Whether a single authorization by `caller` meets the fleet's signer
    /// threshold.
    pub open spec fn signer_ok(self, fleet_id: u64, caller: Address) -> bool {
        let p = self.fleets[fleet_id];
        (if p.signers@.contains(caller) { 1int } else { 0int }) >= p.signature_threshold
    }
}

/// Why the fleet contract's escrow-pause precondition fails, if it does. A
/// fleet contract without an escrow contract skips the check.
pub open spec fn fleet_pause_error(env: Env) -> Option<ContractError> {
    match env.fleet.escrow_contract {
        None => None,
        Some(e) => match env.spec_is_paused_at(e) {
            Err(x) => Some(x),
            Ok(true) => Some(ContractError::Fani(FaniLabError::ProtocolPaused)),
            Ok(false) => None,
        },
    }
}

fn fleet_require_escrow_not_paused(env: &Env) -> (r: Result<(), ContractError>)
    ensures
        r == (match fleet_pause_error(*env) {
            Some(e) => Err(e),
            None => Ok(()),
        }),
{
    match env.fleet.escrow_contract {
        None => Ok(()),
        Some(e) => {
            let paused = env.is_paused_at(e)?;
            if paused {
                Err(ContractError::Fani(FaniLabError::ProtocolPaused))
            } else {
                Ok(())
            }
        },
    }
}

pub open spec fn fleet_err(e: FleetError) -> ContractError {
    ContractError::Fleet(e)
}

/// Why an administrator action by `admin` fails, if it does.
pub open spec fn fleet_admin_error(env: Env, admin: Address) -> Option<ContractError> {
    if !env.authorizes(admin) {
        Some(ContractError::AuthRequired)
    } else if env.fleet.admin != Some(admin) {
        Some(fleet_err(FleetError::Unauthorized))
    } else {
        None
    }
}

/// Why `register_fleet` by `owner` fails, if it does.
pub open spec fn register_fleet_error(env: Env, owner: Address) -> Option<ContractError> {
    if !env.authorizes(owner) {
        Some(ContractError::AuthRequired)
    } else if fleet_pause_error(env) is Some {
        fleet_pause_error(env)
    } else if env.fleet.counter is None {
        Some(fleet_err(FleetError::NotInitialized))
    } else if env.fleet.counter->0 == u64::MAX {
        Some(ContractError::ArithmeticOverflow)
    } else {
        match env.fleet.identity_contract {
            None => None,
            Some(i) => if i != env.identity.address {
                Some(ContractError::MissingContract)
            } else if env.identity@.drivers.contains_key(owner.id) {
                None
            } else {
                identity_pause_error(env)
            },
        }
    }
}

/// The identity contract's storage after `register_fleet` by `owner`: the
/// owner is registered as a driver when an identity contract is configured
/// and the owner has no driver profile yet.
pub open spec fn register_fleet_identity(env: Env, owner: Address) -> crate::identity::IdentityView {
    if env.fleet.identity_contract is Some && !env.identity@.drivers.contains_key(owner.id) {
        env.identity@.with_driver(owner, DriverProfile {
            address: owner,
            deliveries_completed: 0,
            reputation_score: INITIAL_REPUTATION_SCORE,
            registered_at: env.timestamp,
            kyc_verified: false,
            status: DriverStatus::Active,
        })
    } else {
        env.identity@
    }
}

/// Why loading fleet `fleet_id` after the caller's authorization and the
/// pause check fails, if it does.
pub open spec fn fleet_load_error(env: Env, caller: Address, fleet_id: u64) -> Option<ContractError> {
    if !env.authorizes(caller) {
        Some(ContractError::AuthRequired)
    } else if fleet_pause_error(env) is Some {
        fleet_pause_error(env)
    } else if !env.fleet@.fleets.contains_key(fleet_id) {
        Some(fleet_err(FleetError::FleetNotFound))
    } else {
        None
    }
}

/// Why a signer action by `caller` on fleet `fleet_id` fails, if it does.
pub open spec fn signer_action_error(env: Env, caller: Address, fleet_id: u64) -> Option<ContractError> {
    if fleet_load_error(env, caller, fleet_id) is Some {
        fleet_load_error(env, caller, fleet_id)
    } else if !env.fleet@.signer_ok(fleet_id, caller) {
        Some(fleet_err(FleetError::Unauthorized))
    } else {
        None
    }
}

/// Why `add_driver_to_fleet` fails, if it does.
pub open spec fn add_driver_error(env: Env, caller: Address, fleet_id: u64, driver: Address) -> Option<ContractError> {
    if fleet_load_error(env, caller, fleet_id) is Some {
        fleet_load_error(env, caller, fleet_id)
    } else if !env.fleet@.fleets[fleet_id].active {
        Some(fleet_err(FleetError::FleetInactive))
    } else if !env.fleet@.signer_ok(fleet_id, caller) {
        Some(fleet_err(FleetError::Unauthorized))
    } else if env.fleet@.status(fleet_id, driver) == Some(DriverFleetStatus::Pending) {
        Some(fleet_err(FleetError::DriverAlreadyInvited))
    } else if env.fleet@.status(fleet_id, driver) == Some(DriverFleetStatus::Active) {
        Some(fleet_err(FleetError::DriverAlreadyActive))
    } else {
        None
    }
}

/// Why `accept_fleet_invite` fails, if it does.
pub open spec fn accept_invite_error(env: Env, fleet_id: u64, driver: Address) -> Option<ContractError> {
    if fleet_load_error(env, driver, fleet_id) is Some {
        fleet_load_error(env, driver, fleet_id)
    } else if env.fleet@.status(fleet_id, driver) is None {
        Some(fleet_err(FleetError::InviteNotFound))
    } else if env.fleet@.status(fleet_id, driver) == Some(DriverFleetStatus::Active) {
        Some(fleet_err(FleetError::DriverAlreadyActive))
    } else if env.fleet@.status(fleet_id, driver) == Some(DriverFleetStatus::Removed) {
        Some(fleet_err(FleetError::InviteNotFound))
    } else if env.fleet@.fleets[fleet_id].total_active_drivers >= MAX_ROSTER_SIZE {
        Some(fleet_err(FleetError::FleetNotFound))
    } else {
        None
    }
}

/// Why `remove_driver_from_fleet` fails, if it does.
pub open spec fn remove_driver_error(env: Env, fleet_id: u64, caller: Address, driver: Address) -> Option<ContractError> {
    if !env.fleet@.fleets.contains_key(fleet_id) {
        Some(fleet_err(FleetError::FleetNotFound))
    } else if !env.authorizes(caller) {
        Some(ContractError::AuthRequired)
    } else if fleet_pause_error(env) is Some {
        fleet_pause_error(env)
    } else if caller != driver && !env.fleet@.signer_ok(fleet_id, caller) {
        Some(fleet_err(FleetError::Unauthorized))
    } else if env.fleet@.status(fleet_id, driver) is None {
        Some(fleet_err(FleetError::InviteNotFound))
    } else {
        None
    }
}

/// Proof that inserting a membership for `(f, d)` changes no other pair's
/// standing.
proof fn lemma_status_insert(v: FleetView, f: u64, d: Address, s: DriverFleetStatus)
    ensures
        forall|f2: u64, d2: Address| #[trigger] (FleetView {
            memberships: v.memberships.insert(pair_key(f, d.id), s),
            ..v
        }).status(f2, d2) == if f2 == f && d2 == d { Some(s) } else { v.status(f2, d2) },
{
    assert forall|f2: u64, d2: Address| #[trigger] (FleetView {
        memberships: v.memberships.insert(pair_key(f, d.id), s),
        ..v
    }).status(f2, d2) == if f2 == f && d2 == d { Some(s) } else { v.status(f2, d2) } by {
        crate::types::lemma_pair_key_injective(f, d.id, f2, d2.id);
    }
}

/// Proof that removing the membership of `(f, d)` changes no other pair's
/// standing.
proof fn lemma_status_remove(v: FleetView, f: u64, d: Address)
    ensures
        forall|f2: u64, d2: Address| #[trigger] (FleetView {
            memberships: v.memberships.remove(pair_key(f, d.id)),
            ..v
        }).status(f2, d2) == if f2 == f && d2 == d { None } else { v.status(f2, d2) },
{
    assert forall|f2: u64, d2: Address| #[trigger] (FleetView {
        memberships: v.memberships.remove(pair_key(f, d.id)),
        ..v
    }).status(f2, d2) == if f2 == f && d2 == d { None } else { v.status(f2, d2) } by {
        crate::types::lemma_pair_key_injective(f, d.id, f2, d2.id);
    }
}


/// Replacing a fleet's profile by one with the same active-driver count
/// keeps the roster invariant.
proof fn lemma_wf_profile_update(v: FleetView, f: u64, p: FleetProfile, pt: Map<u64, PendingTreasuryChange>)
    requires
        v.wf(),
        v.fleets.contains_key(f),
        p.total_active_drivers == v.fleets[f].total_active_drivers,
    ensures
        (FleetView { fleets: v.fleets.insert(f, p), pending_treasury: pt, ..v }).wf(),
{
    let nv = FleetView { fleets: v.fleets.insert(f, p), pending_treasury: pt, ..v };
    assert forall|g: u64, d: Address| #[trigger] nv.status(g, d) is Some implies nv.fleets.contains_key(g) by {
        assert(v.status(g, d) is Some);
    }
    assert forall|g: u64| #[trigger] nv.fleets.contains_key(g) implies {
        &&& nv.roster(g).len() == nv.fleets[g].total_active_drivers
        &&& nv.roster(g).no_duplicates()
        &&& forall|d: Address| #[trigger] nv.roster(g).contains(d) <==> nv.status(g, d) == Some(DriverFleetStatus::Active)
    } by {
        assert(v.fleets.contains_key(g));
        assert forall|d: Address| #[trigger] nv.roster(g).contains(d) <==> nv.status(g, d) == Some(DriverFleetStatus::Active) by {
            assert(v.roster(g).contains(d) <==> v.status(g, d) == Some(DriverFleetStatus::Active));
        }
    }
    match v.counter {
        None => {},
        Some(c) => {
            assert forall|g: u64| #[trigger] nv.fleets.contains_key(g) implies g <= c by {
                assert(v.fleets.contains_key(g));
            }
        },
    }
}

impl FleetProfile {
    /// A copy of the profile.
    pub fn copied(&self) -> (r: FleetProfile)
        ensures
            r.same_as(*self),
    {
        FleetProfile {
            fleet_id: self.fleet_id,
            owner: self.owner,
            treasury: self.treasury,
            total_active_drivers: self.total_active_drivers,
            signers: self.signers.clone(),
            signature_threshold: self.signature_threshold,
            active: self.active,
        }
    }

    /// Equal field by field, signers by their contents.
    pub open spec fn same_as(self, o: FleetProfile) -> bool {
        &&& self.fleet_id == o.fleet_id
        &&& self.owner == o.owner
        &&& self.treasury == o.treasury
        &&& self.total_active_drivers == o.total_active_drivers
        &&& self.signers@ == o.signers@
        &&& self.signature_threshold == o.signature_threshold
        &&& self.active == o.active
    }

    /// Whether a single authorization by `caller` meets the signer threshold.
    pub fn signer_threshold_met(&self, caller: Address) -> (b: bool)
        ensures
            b == ((if self.signers@.contains(caller) { 1int } else { 0int }) >= self.signature_threshold),
    {
        let mut count: u32 = 0;
        let mut i: usize = 0;
        while i < self.signers.len()
            invariant
                0 <= i <= self.signers@.len(),
                count == 0,
                forall|j: int| 0 <= j < i ==> self.signers@[j] != caller,
            decreases self.signers@.len() - i,
        {
            if self.signers[i] == caller {
                assert(self.signers@.contains(caller));
                count = 1;
                return count >= self.signature_threshold;
            }
            i = i + 1;
        }
        count >= self.signature_threshold
    }
}

impl FleetManagementContract {
    /// A freshly deployed, uninitialized contract at `address`.
    pub open spec fn is_fresh(&self, address: Address) -> bool {
        &&& self.address == address
        &&& self.admin is None
        &&& self.identity_contract is None
        &&& self.escrow_contract is None
        &&& self.counter is None
        &&& self.fleets@ == Map::<u64, FleetProfile>::empty()
        &&& self.memberships@ == Map::<u128, DriverFleetStatus>::empty()
        &&& self.rosters@ == Map::<u64, Vec<Address>>::empty()
        &&& self.pending_treasury@ == Map::<u64, PendingTreasuryChange>::empty()
    }

    pub fn new(address: Address) -> (c: FleetManagementContract)
        ensures
            c.is_fresh(address),
    {
        FleetManagementContract {
            address,
            admin: None,
            identity_contract: None,
            escrow_contract: None,
            counter: None,
            fleets: HashMap::new(),
            memberships: HashMap::new(),
            rosters: HashMap::new(),
            pending_treasury: HashMap::new(),
        }
    }

    /// Initialize with the administrator; fleet ids start after zero.
    pub fn init(env: &mut Env, admin: Address) -> (r: Result<(), ContractError>)
        ensures
            old(env).fleet@.wf() && old(env).fleet@.counter is None ==> final(env).fleet@.wf(),
            r == (if old(env).fleet.admin is Some {
                Err(fleet_err(FleetError::AlreadyInitialized))
            } else {
                Ok(())
            }),
            r is Err ==> *final(env) == *old(env),
            r is Ok ==> old(env).frame(final(env), false, false, false, true, false, false)
                && final(env).fleet@ == (FleetView { admin: Some(admin), counter: Some(0), ..old(env).fleet@ }),
    {
        if env.fleet.admin.is_some() {
            return Err(ContractError::Fleet(FleetError::AlreadyInitialized));
        }
        env.fleet.admin = Some(admin);
        env.fleet.counter = Some(0);
        proof { if old(env).fleet@.wf() && old(env).fleet@.counter is None { lemma_wf_core(old(env).fleet@, env.fleet@); } }
        Ok(())
    }

    fn require_fleet_admin(env: &Env, admin: Address) -> (r: Result<(), ContractError>)
        ensures
            r == (match fleet_admin_error(*env, admin) {
                Some(e) => Err(e),
                None => Ok(()),
            }),
    {
        env.require_auth(admin)?;
        if env.fleet.admin != Some(admin) {
            return Err(ContractError::Fleet(FleetError::Unauthorized));
        }
        Ok(())
    }

    /// Configure the identity contract in which fleet owners get registered.
    /// Administrator only.
    pub fn set_identity_contract(env: &mut Env, admin: Address, identity_contract: Address) -> (r: Result<(), ContractError>)
        ensures
            old(env).fleet@.wf() ==> final(env).fleet@.wf(),
            r == (match fleet_admin_error(*old(env), admin) {
                Some(e) => Err(e),
                None => Ok(()),
            }),
            r is Err ==> *final(env) == *old(env),
            r is Ok ==> old(env).frame(final(env), false, false, false, true, false, false)
                && final(env).fleet@ == (FleetView { identity_contract: Some(identity_contract), ..old(env).fleet@ }),
    {
        Self::require_fleet_admin(env, admin)?;
        env.fleet.identity_contract = Some(identity_contract);
        proof { if old(env).fleet@.wf() { lemma_wf_core(old(env).fleet@, env.fleet@); } }
        Ok(())
    }

    /// Configure the escrow contract whose pause flag gates this contract.
    /// Administrator only.
    pub fn set_escrow_contract(env: &mut Env, admin: Address, escrow_contract: Address) -> (r: Result<(), ContractError>)
        ensures
            old(env).fleet@.wf() ==> final(env).fleet@.wf(),
            r == (match fleet_admin_error(*old(env), admin) {
                Some(e) => Err(e),
                None => Ok(()),
            }),
            r is Err ==> *final(env) == *old(env),
            r is Ok ==> old(env).frame(final(env), false, false, false, true, false, false)
                && final(env).fleet@ == (FleetView { escrow_contract: Some(escrow_contract), ..old(env).fleet@ }),
    {
        Self::require_fleet_admin(env, admin)?;
        env.fleet.escrow_contract = Some(escrow_contract);
        proof { if old(env).fleet@.wf() { lemma_wf_core(old(env).fleet@, env.fleet@); } }
        Ok(())
    }

    /// Register a fleet owned by `owner` paying into `treasury`, with the
    /// owner as its only signer (threshold 1). Returns the new fleet id, one
    /// more than the last. With an identity contract configured, the owner
    /// is registered there as a driver unless already registered.
    pub fn register_fleet(env: &mut Env, owner: Address, treasury: Address) -> (r: Result<FleetId, ContractError>)
        requires
            old(env).fleet@.wf(),
        ensures
            register_fleet_error(*old(env), owner) is Some ==> r == Err::<FleetId, ContractError>(register_fleet_error(*old(env), owner)->0),
            register_fleet_error(*old(env), owner) is None ==> r == Ok::<FleetId, ContractError>((old(env).fleet.counter->0 + 1) as u64),
            r is Err ==> *final(env) == *old(env),
            r is Ok ==> {
                let id = r->Ok_0;
                let p = final(env).fleet@.fleets[id];
                &&& old(env).frame(final(env), false, false, false, true, true, false)
                &&& final(env).fleet@ == (FleetView {
                    counter: Some(id),
                    fleets: old(env).fleet@.fleets.insert(id, p),
                    ..old(env).fleet@
                })
                &&& p.fleet_id == id && p.owner == owner && p.treasury == treasury
                &&& p.total_active_drivers == 0 && p.signers@ == seq![owner]
                &&& p.signature_threshold == 1 && p.active
                &&& final(env).identity@ == register_fleet_identity(*old(env), owner)
            },
            final(env).fleet@.wf(),
    {
        env.require_auth(owner)?;
        fleet_require_escrow_not_paused(env)?;
        let current = match env.fleet.counter {
            Some(c) => c,
            None => { return Err(ContractError::Fleet(FleetError::NotInitialized)); },
        };
        if current == u64::MAX {
            return Err(ContractError::ArithmeticOverflow);
        }
        let fleet_id = current + 1;
        match env.fleet.identity_contract {
            None => {},
            Some(i) => {
                if i != env.identity.address {
                    return Err(ContractError::MissingContract);
                }
                if !IdentityReputationContract::has_driver_profile(env, owner) {
                    IdentityReputationContract::register_driver(env, owner)?;
                }
            },
        }
        let ghost before = env.fleet@;
        let mut signers: Vec<Address> = Vec::new();
        signers.push(owner);
        let profile = FleetProfile {
            fleet_id,
            owner,
            treasury,
            total_active_drivers: 0,
            signers,
            signature_threshold: 1,
            active: true,
        };
        env.fleet.counter = Some(fleet_id);
        env.fleet.fleets.insert(fleet_id, profile);
        proof {
            let nv = env.fleet@;
            assert(nv.rosters == before.rosters);
            assert forall|f: u64| #[trigger] nv.fleets.contains_key(f) implies f <= fleet_id by {
                if f != fleet_id { assert(before.fleets.contains_key(f)); }
            }
            assert forall|f: u64, d: Address| #[trigger] nv.status(f, d) is Some implies nv.fleets.contains_key(f) by {
                assert(nv.status(f, d) == before.status(f, d));
            }
            assert forall|f: u64| #[trigger] nv.fleets.contains_key(f) implies {
                &&& nv.roster(f).len() == nv.fleets[f].total_active_drivers
                &&& nv.roster(f).no_duplicates()
                &&& forall|d: Address| #[trigger] nv.roster(f).contains(d) <==> nv.status(f, d) == Some(DriverFleetStatus::Active)
            } by {
                if f != fleet_id {
                    assert(before.fleets.contains_key(f));
                    assert(nv.roster(f) == before.roster(f));
                    assert forall|d: Address| #[trigger] nv.roster(f).contains(d) <==> nv.status(f, d) == Some(DriverFleetStatus::Active) by {
                        assert(nv.status(f, d) == before.status(f, d));
                    }
                } else {
                    assert(!before.fleets.contains_key(fleet_id));
                    assert(!before.rosters.contains_key(fleet_id));
                    assert(nv.roster(f) =~= Seq::<Address>::empty());
                    assert forall|d: Address| #[trigger] nv.roster(f).contains(d) <==> nv.status(f, d) == Some(DriverFleetStatus::Active) by {
                        assert(nv.status(f, d) == before.status(f, d));
                        assert(before.status(f, d) is None);
                    }
                }
            }
        }
        Ok(fleet_id)
    }

    /// The stored profile of fleet `fleet_id`.
    pub fn get_fleet(env: &Env, fleet_id: FleetId) -> (r: Result<FleetProfile, ContractError>)
        ensures
            env.fleet@.fleets.contains_key(fleet_id) ==> r is Ok && r->Ok_0.same_as(env.fleet@.fleets[fleet_id]),
            !env.fleet@.fleets.contains_key(fleet_id) ==> r == Err::<FleetProfile, ContractError>(fleet_err(FleetError::FleetNotFound)),
    {
        match env.fleet.fleets.get(&fleet_id) {
            Some(p) => Ok(p.copied()),
            None => Err(ContractError::Fleet(FleetError::FleetNotFound)),
        }
    }

    fn load_for(env: &Env, caller: Address, fleet_id: FleetId) -> (r: Result<(), ContractError>)
        ensures
            r == (match fleet_load_error(*env, caller, fleet_id) {
                Some(e) => Err(e),
                None => Ok(()),
            }),
    {
        env.require_auth(caller)?;
        fleet_require_escrow_not_paused(env)?;
        if !env.fleet.fleets.contains_key(&fleet_id) {
            return Err(ContractError::Fleet(FleetError::FleetNotFound));
        }
        Ok(())
    }

    /// Deactivate a fleet. Callable by its owner or the administrator.
    pub fn deactivate_fleet(env: &mut Env, caller: Address, fleet_id: FleetId) -> (r: Result<(), ContractError>)
        requires
            old(env).fleet@.wf(),
        ensures
            r == (if fleet_load_error(*old(env), caller, fleet_id) is Some {
                Err(fleet_load_error(*old(env), caller, fleet_id)->0)
            } else if old(env).fleet@.fleets[fleet_id].owner != caller && old(env).fleet.admin != Some(caller) {
                Err(fleet_err(FleetError::Unauthorized))
            } else {
                Ok(())
            }),
            r is Err ==> *final(env) == *old(env),
            r is Ok ==> old(env).frame(final(env), false, false, false, true, false, false)
                && final(env).fleet@ == (FleetView {
                    fleets: old(env).fleet@.fleets.insert(fleet_id, FleetProfile { active: false, ..old(env).fleet@.fleets[fleet_id] }),
                    ..old(env).fleet@
                }),
            final(env).fleet@.wf(),
    {
        Self::load_for(env, caller, fleet_id)?;
        let owner = match env.fleet.fleets.get(&fleet_id) {
            Some(p) => p.owner,
            None => { return Err(ContractError::Fleet(FleetError::FleetNotFound)); },
        };
        if owner != caller && env.fleet.admin != Some(caller) {
            return Err(ContractError::Fleet(FleetError::Unauthorized));
        }
        let ghost before = env.fleet@;
        let mut p = env.fleet.fleets.remove(&fleet_id).unwrap();
        p.active = false;
        env.fleet.fleets.insert(fleet_id, p);
        proof {
            lemma_wf_profile_update(before, fleet_id, p, env.fleet@.pending_treasury);
            assert(env.fleet@ =~= (FleetView { fleets: before.fleets.insert(fleet_id, p), pending_treasury: env.fleet@.pending_treasury, ..before }));
        }
        Ok(())
    }

    /// Make `new_owner` the fleet's owner and sole signer (threshold 1).
    /// Administrator only: the recovery path for a lost owner key.
    pub fn admin_reassign_fleet_owner(env: &mut Env, admin: Address, fleet_id: FleetId, new_owner: Address) -> (r: Result<(), ContractError>)
        requires
            old(env).fleet@.wf(),
        ensures
            r == (if fleet_admin_error(*old(env), admin) is Some {
                Err(fleet_admin_error(*old(env), admin)->0)
            } else if !old(env).fleet@.fleets.contains_key(fleet_id) {
                Err(fleet_err(FleetError::FleetNotFound))
            } else {
                Ok(())
            }),
            r is Err ==> *final(env) == *old(env),
            r is Ok ==> {
                let p = final(env).fleet@.fleets[fleet_id];
                let o = old(env).fleet@.fleets[fleet_id];
                &&& old(env).frame(final(env), false, false, false, true, false, false)
                &&& final(env).fleet@ == (FleetView { fleets: old(env).fleet@.fleets.insert(fleet_id, p), ..old(env).fleet@ })
                &&& p == (FleetProfile { owner: new_owner, signature_threshold: 1, signers: p.signers, ..o })
                &&& p.signers@ == seq![new_owner]
            },
            final(env).fleet@.wf(),
    {
        Self::require_fleet_admin(env, admin)?;
        if !env.fleet.fleets.contains_key(&fleet_id) {
            return Err(ContractError::Fleet(FleetError::FleetNotFound));
        }
        let ghost before = env.fleet@;
        let mut p = env.fleet.fleets.remove(&fleet_id).unwrap();
        let mut signers: Vec<Address> = Vec::new();
        signers.push(new_owner);
        p.owner = new_owner;
        p.signers = signers;
        p.signature_threshold = 1;
        env.fleet.fleets.insert(fleet_id, p);
        proof {
            lemma_wf_profile_update(before, fleet_id, p, env.fleet@.pending_treasury);
            assert(env.fleet@ =~= (FleetView { fleets: before.fleets.insert(fleet_id, p), pending_treasury: env.fleet@.pending_treasury, ..before }));
        }
        Ok(())
    }

    /// Set the fleet's treasury at once and drop any pending owner-proposed
    /// change. Administrator only: the emergency path.
    pub fn admin_force_update_treasury(env: &mut Env, admin: Address, fleet_id: FleetId, new_treasury: Address) -> (r: Result<(), ContractError>)
        requires
            old(env).fleet@.wf(),
        ensures
            r == (if fleet_admin_error(*old(env), admin) is Some {
                Err(fleet_admin_error(*old(env), admin)->0)
            } else if !old(env).fleet@.fleets.contains_key(fleet_id) {
                Err(fleet_err(FleetError::FleetNotFound))
            } else {
                Ok(())
            }),
            r is Err ==> *final(env) == *old(env),
            r is Ok ==> old(env).frame(final(env), false, false, false, true, false, false)
                && final(env).fleet@ == (FleetView {
                    fleets: old(env).fleet@.fleets.insert(fleet_id, FleetProfile { treasury: new_treasury, ..old(env).fleet@.fleets[fleet_id] }),
                    pending_treasury: old(env).fleet@.pending_treasury.remove(fleet_id),
                    ..old(env).fleet@
                }),
            final(env).fleet@.wf(),
    {
        Self::require_fleet_admin(env, admin)?;
        if !env.fleet.fleets.contains_key(&fleet_id) {
            return Err(ContractError::Fleet(FleetError::FleetNotFound));
        }
        let ghost before = env.fleet@;
        let mut p = env.fleet.fleets.remove(&fleet_id).unwrap();
        p.treasury = new_treasury;
        env.fleet.fleets.insert(fleet_id, p);
        env.fleet.pending_treasury.remove(&fleet_id);
        proof {
            lemma_wf_profile_update(before, fleet_id, p, env.fleet@.pending_treasury);
            assert(env.fleet@ =~= (FleetView { fleets: before.fleets.insert(fleet_id, p), pending_treasury: env.fleet@.pending_treasury, ..before }));
        }
        Ok(())
    }

    /// Propose `treasury` as the fleet's new treasury; it can be confirmed
    /// once three days have passed. A new proposal replaces a pending one.
    /// Signers meeting the threshold only.
    pub fn update_fleet_treasury(env: &mut Env, owner: Address, fleet_id: FleetId, treasury: Address) -> (r: Result<(), ContractError>)
        ensures
            old(env).fleet@.wf() ==> final(env).fleet@.wf(),
            r == (match signer_action_error(*old(env), owner, fleet_id) {
                Some(e) => Err(e),
                None => Ok(()),
            }),
            r is Err ==> *final(env) == *old(env),
            r is Ok ==> old(env).frame(final(env), false, false, false, true, false, false)
                && final(env).fleet@ == (FleetView {
                    pending_treasury: old(env).fleet@.pending_treasury.insert(fleet_id, PendingTreasuryChange {
                        treasury,
                        activates_at: if old(env).timestamp + TREASURY_CHANGE_TIMELOCK_SECONDS > u64::MAX {
                            u64::MAX
                        } else {
                            (old(env).timestamp + TREASURY_CHANGE_TIMELOCK_SECONDS) as u64
                        },
                    }),
                    ..old(env).fleet@
                }),
    {
        Self::load_for(env, owner, fleet_id)?;
        let ok = env.fleet.fleets.get(&fleet_id).unwrap().signer_threshold_met(owner);
        if !ok {
            return Err(ContractError::Fleet(FleetError::Unauthorized));
        }
        let activates_at = env.timestamp.saturating_add(TREASURY_CHANGE_TIMELOCK_SECONDS);
        env.fleet.pending_treasury.insert(fleet_id, PendingTreasuryChange { treasury, activates_at });
        proof { if old(env).fleet@.wf() { lemma_wf_core(old(env).fleet@, env.fleet@); } }
        Ok(())
    }

    /// Apply a proposed treasury change whose timelock has passed. Anyone
    /// may call this.
    pub fn confirm_fleet_treasury_update(env: &mut Env, fleet_id: FleetId) -> (r: Result<(), ContractError>)
        requires
            old(env).fleet@.wf(),
        ensures
            r == (if fleet_pause_error(*old(env)) is Some {
                Err(fleet_pause_error(*old(env))->0)
            } else if !old(env).fleet@.pending_treasury.contains_key(fleet_id) {
                Err(fleet_err(FleetError::NoPendingTreasuryChange))
            } else if old(env).timestamp < old(env).fleet@.pending_treasury[fleet_id].activates_at {
                Err(fleet_err(FleetError::TimelockNotElapsed))
            } else if !old(env).fleet@.fleets.contains_key(fleet_id) {
                Err(fleet_err(FleetError::FleetNotFound))
            } else {
                Ok(())
            }),
            r is Err ==> *final(env) == *old(env),
            r is Ok ==> old(env).frame(final(env), false, false, false, true, false, false)
                && final(env).fleet@ == (FleetView {
                    fleets: old(env).fleet@.fleets.insert(fleet_id, FleetProfile {
                        treasury: old(env).fleet@.pending_treasury[fleet_id].treasury,
                        ..old(env).fleet@.fleets[fleet_id]
                    }),
                    pending_treasury: old(env).fleet@.pending_treasury.remove(fleet_id),
                    ..old(env).fleet@
                }),
            final(env).fleet@.wf(),
    {
        fleet_require_escrow_not_paused(env)?;
        let pending = match env.fleet.pending_treasury.get(&fleet_id) {
            Some(p) => *p,
            None => { return Err(ContractError::Fleet(FleetError::NoPendingTreasuryChange)); },
        };
        if env.timestamp < pending.activates_at {
            return Err(ContractError::Fleet(FleetError::TimelockNotElapsed));
        }
        if !env.fleet.fleets.contains_key(&fleet_id) {
            return Err(ContractError::Fleet(FleetError::FleetNotFound));
        }
        let ghost before = env.fleet@;
        let mut p = env.fleet.fleets.remove(&fleet_id).unwrap();
        p.treasury = pending.treasury;
        env.fleet.fleets.insert(fleet_id, p);
        env.fleet.pending_treasury.remove(&fleet_id);
        proof {
            lemma_wf_profile_update(before, fleet_id, p, env.fleet@.pending_treasury);
            assert(env.fleet@ =~= (FleetView { fleets: before.fleets.insert(fleet_id, p), pending_treasury: env.fleet@.pending_treasury, ..before }));
        }
        Ok(())
    }

    /// The pending treasury change of a fleet, if any.
    pub fn get_pending_treasury_update(env: &Env, fleet_id: FleetId) -> (r: Option<PendingTreasuryChange>)
        ensures
            r == (if env.fleet@.pending_treasury.contains_key(fleet_id) {
                Some(env.fleet@.pending_treasury[fleet_id])
            } else {
                None
            }),
    {
        match env.fleet.pending_treasury.get(&fleet_id) {
            Some(p) => Some(*p),
            None => None,
        }
    }

    /// Invite `driver` to an active fleet. Signers meeting the threshold
    /// only; a pending or active driver cannot be invited again, a removed
    /// one can.
    pub fn add_driver_to_fleet(env: &mut Env, caller: Address, fleet_id: FleetId, driver: Address) -> (r: Result<(), ContractError>)
        requires
            old(env).fleet@.wf(),
        ensures
            r == (match add_driver_error(*old(env), caller, fleet_id, driver) {
                Some(e) => Err(e),
                None => Ok(()),
            }),
            r is Err ==> *final(env) == *old(env),
            r is Ok ==> old(env).frame(final(env), false, false, false, true, false, false)
                && final(env).fleet@ == (FleetView {
                    memberships: old(env).fleet@.memberships.insert(pair_key(fleet_id, driver.id), DriverFleetStatus::Pending),
                    ..old(env).fleet@
                }),
            final(env).fleet@.wf(),
    {
        Self::load_for(env, caller, fleet_id)?;
        let (active, ok) = {
            let p = env.fleet.fleets.get(&fleet_id).unwrap();
            (p.active, p.signer_threshold_met(caller))
        };
        if !active {
            return Err(ContractError::Fleet(FleetError::FleetInactive));
        }
        if !ok {
            return Err(ContractError::Fleet(FleetError::Unauthorized));
        }
        let k = make_pair_key(fleet_id, driver.id);
        match env.fleet.memberships.get(&k) {
            Some(DriverFleetStatus::Pending) => { return Err(ContractError::Fleet(FleetError::DriverAlreadyInvited)); },
            Some(DriverFleetStatus::Active) => { return Err(ContractError::Fleet(FleetError::DriverAlreadyActive)); },
            _ => {},
        }
        let ghost before = env.fleet@;
        env.fleet.memberships.insert(k, DriverFleetStatus::Pending);
        proof {
            let nv = env.fleet@;
            lemma_status_insert(before, fleet_id, driver, DriverFleetStatus::Pending);
            assert(nv == (FleetView { memberships: before.memberships.insert(pair_key(fleet_id, driver.id), DriverFleetStatus::Pending), ..before }));
            assert forall|f: u64, d: Address| #[trigger] nv.status(f, d) is Some implies nv.fleets.contains_key(f) by {
                if !(f == fleet_id && d == driver) { assert(before.status(f, d) is Some); }
            }
            assert forall|f: u64| #[trigger] nv.fleets.contains_key(f) implies {
                &&& nv.roster(f).len() == nv.fleets[f].total_active_drivers
                &&& nv.roster(f).no_duplicates()
                &&& forall|d: Address| #[trigger] nv.roster(f).contains(d) <==> nv.status(f, d) == Some(DriverFleetStatus::Active)
            } by {
                assert forall|d: Address| #[trigger] nv.roster(f).contains(d) <==> nv.status(f, d) == Some(DriverFleetStatus::Active) by {
                    assert(before.roster(f).contains(d) <==> before.status(f, d) == Some(DriverFleetStatus::Active));
                }
            }
        }
        Ok(())
    }

    /// Withdraw a pending invite. Signers meeting the threshold only.
    pub fn cancel_invite(env: &mut Env, owner: Address, fleet_id: FleetId, driver: Address) -> (r: Result<(), ContractError>)
        requires
            old(env).fleet@.wf(),
        ensures
            r == (if signer_action_error(*old(env), owner, fleet_id) is Some {
                Err(signer_action_error(*old(env), owner, fleet_id)->0)
            } else if old(env).fleet@.status(fleet_id, driver) is None {
                Err(fleet_err(FleetError::InviteNotFound))
            } else if old(env).fleet@.status(fleet_id, driver) != Some(DriverFleetStatus::Pending) {
                Err(fleet_err(FleetError::DriverAlreadyActive))
            } else {
                Ok(())
            }),
            r is Err ==> *final(env) == *old(env),
            r is Ok ==> old(env).frame(final(env), false, false, false, true, false, false)
                && final(env).fleet@ == (FleetView {
                    memberships: old(env).fleet@.memberships.remove(pair_key(fleet_id, driver.id)),
                    ..old(env).fleet@
                }),
            final(env).fleet@.wf(),
    {
        Self::load_for(env, owner, fleet_id)?;
        let ok = env.fleet.fleets.get(&fleet_id).unwrap().signer_threshold_met(owner);
        if !ok {
            return Err(ContractError::Fleet(FleetError::Unauthorized));
        }
        let k = make_pair_key(fleet_id, driver.id);
        match env.fleet.memberships.get(&k) {
            None => { return Err(ContractError::Fleet(FleetError::InviteNotFound)); },
            Some(DriverFleetStatus::Pending) => {},
            Some(_) => { return Err(ContractError::Fleet(FleetError::DriverAlreadyActive)); },
        }
        let ghost before = env.fleet@;
        env.fleet.memberships.remove(&k);
        proof {
            let nv = env.fleet@;
            lemma_status_remove(before, fleet_id, driver);
            assert(nv == (FleetView { memberships: before.memberships.remove(pair_key(fleet_id, driver.id)), ..before }));
            assert forall|f: u64, d: Address| #[trigger] nv.status(f, d) is Some implies nv.fleets.contains_key(f) by {
                assert(before.status(f, d) is Some);
            }
            assert forall|f: u64| #[trigger] nv.fleets.contains_key(f) implies {
                &&& nv.roster(f).len() == nv.fleets[f].total_active_drivers
                &&& nv.roster(f).no_duplicates()
                &&& forall|d: Address| #[trigger] nv.roster(f).contains(d) <==> nv.status(f, d) == Some(DriverFleetStatus::Active)
            } by {
                assert forall|d: Address| #[trigger] nv.roster(f).contains(d) <==> nv.status(f, d) == Some(DriverFleetStatus::Active) by {
                    assert(before.roster(f).contains(d) <==> before.status(f, d) == Some(DriverFleetStatus::Active));
                }
            }
        }
        Ok(())
    }

    /// Accept a pending invite: the driver becomes active, joins the end of
    /// the roster, and the fleet's active-driver count grows by one. The
    /// driver signs; a fleet at `MAX_ROSTER_SIZE` refuses.
    pub fn accept_fleet_invite(env: &mut Env, fleet_id: FleetId, driver: Address) -> (r: Result<(), ContractError>)
        requires
            old(env).fleet@.wf(),
        ensures
            r == (match accept_invite_error(*old(env), fleet_id, driver) {
                Some(e) => Err(e),
                None => Ok(()),
            }),
            r is Err ==> *final(env) == *old(env),
            r is Ok ==> old(env).frame(final(env), false, false, false, true, false, false)
                && final(env).fleet@ == (FleetView {
                    memberships: old(env).fleet@.memberships.insert(pair_key(fleet_id, driver.id), DriverFleetStatus::Active),
                    fleets: old(env).fleet@.fleets.insert(fleet_id, FleetProfile {
                        total_active_drivers: (old(env).fleet@.fleets[fleet_id].total_active_drivers + 1) as u32,
                        ..old(env).fleet@.fleets[fleet_id]
                    }),
                    rosters: old(env).fleet@.rosters.insert(fleet_id, old(env).fleet@.roster(fleet_id).push(driver)),
                    ..old(env).fleet@
                }),
            final(env).fleet@.wf(),
    {
        Self::load_for(env, driver, fleet_id)?;
        let k = make_pair_key(fleet_id, driver.id);
        match env.fleet.memberships.get(&k) {
            None => { return Err(ContractError::Fleet(FleetError::InviteNotFound)); },
            Some(DriverFleetStatus::Active) => { return Err(ContractError::Fleet(FleetError::DriverAlreadyActive)); },
            Some(DriverFleetStatus::Removed) => { return Err(ContractError::Fleet(FleetError::InviteNotFound)); },
            Some(DriverFleetStatus::Pending) => {},
        }
        let total = env.fleet.fleets.get(&fleet_id).unwrap().total_active_drivers;
        if total >= MAX_ROSTER_SIZE {
            return Err(ContractError::Fleet(FleetError::FleetNotFound));
        }
        let ghost before = env.fleet@;
        env.fleet.memberships.insert(k, DriverFleetStatus::Active);
        let mut p = env.fleet.fleets.remove(&fleet_id).unwrap();
        p.total_active_drivers = total + 1;
        env.fleet.fleets.insert(fleet_id, p);
        let mut v = match env.fleet.rosters.remove(&fleet_id) {
            Some(v) => v,
            None => Vec::new(),
        };
        v.push(driver);
        env.fleet.rosters.insert(fleet_id, v);
        proof {
            let nv = env.fleet@;
            assert(nv.rosters =~= before.rosters.insert(fleet_id, before.roster(fleet_id).push(driver)));
            lemma_status_insert(before, fleet_id, driver, DriverFleetStatus::Active);
            assert(nv.memberships == before.memberships.insert(pair_key(fleet_id, driver.id), DriverFleetStatus::Active));
            assert forall|f: u64, d: Address| #[trigger] nv.status(f, d) is Some implies nv.fleets.contains_key(f) by {
                assert((FleetView { memberships: before.memberships.insert(pair_key(fleet_id, driver.id), DriverFleetStatus::Active), ..before }).status(f, d) == nv.status(f, d));
                if !(f == fleet_id && d == driver) { assert(before.status(f, d) is Some); }
            }
            assert forall|f: u64| #[trigger] nv.rosters.contains_key(f) implies nv.fleets.contains_key(f) by {
                if f != fleet_id { assert(before.rosters.contains_key(f)); }
            }
            assert(before.fleets.contains_key(fleet_id));
            assert(!before.roster(fleet_id).contains(driver));
            assert forall|f: u64| #[trigger] nv.fleets.contains_key(f) implies {
                &&& nv.roster(f).len() == nv.fleets[f].total_active_drivers
                &&& nv.roster(f).no_duplicates()
                &&& forall|d: Address| #[trigger] nv.roster(f).contains(d) <==> nv.status(f, d) == Some(DriverFleetStatus::Active)
            } by {
                assert(before.fleets.contains_key(f));
                assert forall|d: Address| #[trigger] nv.roster(f).contains(d) <==> nv.status(f, d) == Some(DriverFleetStatus::Active) by {
                    assert((FleetView { memberships: before.memberships.insert(pair_key(fleet_id, driver.id), DriverFleetStatus::Active), ..before }).status(f, d) == nv.status(f, d));
                    assert(before.roster(f).contains(d) <==> before.status(f, d) == Some(DriverFleetStatus::Active));
                    if f == fleet_id {
                        let s = before.roster(f);
                        if d == driver {
                            assert(nv.roster(f)[s.len() as int] == driver);
                        } else {
                            if nv.roster(f).contains(d) {
                                let j = choose|j: int| 0 <= j < nv.roster(f).len() && nv.roster(f)[j] == d;
                                assert(s[j] == d);
                            }
                            if s.contains(d) {
                                let j = choose|j: int| 0 <= j < s.len() && s[j] == d;
                                assert(nv.roster(f)[j] == d);
                            }
                        }
                    }
                }
                if f == fleet_id {
                    let s = before.roster(f);
                    assert forall|i: int, j: int| 0 <= i < nv.roster(f).len() && 0 <= j < nv.roster(f).len() && i != j
                        implies nv.roster(f)[i] != nv.roster(f)[j] by {
                        if i < s.len() && j < s.len() {
                        } else if i == s.len() {
                            assert(s[j] == nv.roster(f)[j]);
                            if s[j] == driver { assert(s.contains(driver)); }
                        } else {
                            assert(s[i] == nv.roster(f)[i]);
                            if s[i] == driver { assert(s.contains(driver)); }
                        }
                    }
                }
            }
            match nv.counter {
                None => {},
                Some(c) => {
                    assert forall|f: u64| #[trigger] nv.fleets.contains_key(f) implies f <= c by {
                        assert(before.fleets.contains_key(f));
                    }
                },
            }
        }
        Ok(())
    }

    /// Remove `driver` from the fleet: the driver's record becomes
    /// `Removed`, and an active driver leaves the roster (the others keep
    /// their order) and the active count drops by one. The driver may remove
    /// themselves; anyone else must be a signer meeting the threshold.
    pub fn remove_driver_from_fleet(env: &mut Env, fleet_id: FleetId, caller: Address, driver: Address) -> (r: Result<(), ContractError>)
        requires
            old(env).fleet@.wf(),
        ensures
            r == (match remove_driver_error(*old(env), fleet_id, caller, driver) {
                Some(e) => Err(e),
                None => Ok(()),
            }),
            r is Err ==> *final(env) == *old(env),
            r is Ok ==> {
                let was_active = old(env).fleet@.status(fleet_id, driver) == Some(DriverFleetStatus::Active);
                let s = old(env).fleet@.roster(fleet_id);
                let p = old(env).fleet@.fleets[fleet_id];
                &&& old(env).frame(final(env), false, false, false, true, false, false)
                &&& final(env).fleet@ == (FleetView {
                    memberships: old(env).fleet@.memberships.insert(pair_key(fleet_id, driver.id), DriverFleetStatus::Removed),
                    fleets: if was_active {
                        old(env).fleet@.fleets.insert(fleet_id, FleetProfile {
                            total_active_drivers: (p.total_active_drivers - 1) as u32,
                            ..p
                        })
                    } else {
                        old(env).fleet@.fleets
                    },
                    rosters: if was_active {
                        old(env).fleet@.rosters.insert(fleet_id, s.remove(s.index_of(driver)))
                    } else {
                        old(env).fleet@.rosters
                    },
                    ..old(env).fleet@
                })
            },
            final(env).fleet@.wf(),
    {
        if !env.fleet.fleets.contains_key(&fleet_id) {
            return Err(ContractError::Fleet(FleetError::FleetNotFound));
        }
        env.require_auth(caller)?;
        fleet_require_escrow_not_paused(env)?;
        if caller != driver {
            let ok = env.fleet.fleets.get(&fleet_id).unwrap().signer_threshold_met(caller);
            if !ok {
                return Err(ContractError::Fleet(FleetError::Unauthorized));
            }
        }
        let k = make_pair_key(fleet_id, driver.id);
        let status = match env.fleet.memberships.get(&k) {
            None => { return Err(ContractError::Fleet(FleetError::InviteNotFound)); },
            Some(st) => *st,
        };
        let ghost before = env.fleet@;
        let ghost s = before.roster(fleet_id);
        env.fleet.memberships.insert(k, DriverFleetStatus::Removed);
        proof {
            lemma_status_insert(before, fleet_id, driver, DriverFleetStatus::Removed);
            assert(before.fleets.contains_key(fleet_id));
        }
        if status == DriverFleetStatus::Active {
            assert(s.contains(driver));
            let mut p = env.fleet.fleets.remove(&fleet_id).unwrap();
            p.total_active_drivers = p.total_active_drivers - 1;
            env.fleet.fleets.insert(fleet_id, p);
            let mut v = env.fleet.rosters.remove(&fleet_id).unwrap();
            assert(v@ == s);
            let mut i: usize = 0;
            let mut found = false;
            while i < v.len() && !found
                invariant
                    0 <= i <= v@.len(),
                    v@ == s,
                    s.contains(driver),
                    found ==> i < v@.len() && s[i as int] == driver,
                    !found ==> forall|j: int| 0 <= j < i ==> s[j] != driver,
                decreases v@.len() - i + (if found { 0int } else { 1int }),
            {
                if v[i] == driver {
                    found = true;
                } else {
                    i = i + 1;
                }
            }
            if !found {
                proof {
                    let j = choose|j: int| 0 <= j < s.len() && s[j] == driver;
                    assert(s[j] != driver);
                }
                return Err(ContractError::Fleet(FleetError::InviteNotFound));
            }
            proof {
                let j = s.index_of(driver);
                assert(0 <= j < s.len() && s[j] == driver);
                assert(s.no_duplicates());
                assert(j == i as int);
            }
            v.remove(i);
            env.fleet.rosters.insert(fleet_id, v);
        }
        proof {
            let nv = env.fleet@;
            let was_active = status == DriverFleetStatus::Active;
            let mv = FleetView { memberships: before.memberships.insert(pair_key(fleet_id, driver.id), DriverFleetStatus::Removed), ..before };
            assert(nv.memberships == mv.memberships);
            if was_active {
                assert(nv.rosters =~= before.rosters.insert(fleet_id, s.remove(s.index_of(driver))));
            } else {
                assert(nv.rosters =~= before.rosters);
            }
            assert forall|f: u64, d: Address| #[trigger] nv.status(f, d) is Some implies nv.fleets.contains_key(f) by {
                assert(mv.status(f, d) == nv.status(f, d));
                if !(f == fleet_id && d == driver) { assert(before.status(f, d) is Some); }
            }
            assert forall|f: u64| #[trigger] nv.rosters.contains_key(f) implies nv.fleets.contains_key(f) by {
                if f != fleet_id { assert(before.rosters.contains_key(f)); }
            }
            assert forall|f: u64| #[trigger] nv.fleets.contains_key(f) implies {
                &&& nv.roster(f).len() == nv.fleets[f].total_active_drivers
                &&& nv.roster(f).no_duplicates()
                &&& forall|d: Address| #[trigger] nv.roster(f).contains(d) <==> nv.status(f, d) == Some(DriverFleetStatus::Active)
            } by {
                assert(before.fleets.contains_key(f));
                if f == fleet_id && was_active {
                    let i = s.index_of(driver);
                    s.remove_ensures(i);
                    let t = s.remove(i);
                    assert(nv.roster(f) == t);
                    assert forall|a: int, b: int| 0 <= a < t.len() && 0 <= b < t.len() && a != b implies t[a] != t[b] by {
                        let a2 = if a < i { a } else { a + 1 };
                        let b2 = if b < i { b } else { b + 1 };
                        assert(t[a] == s[a2] && t[b] == s[b2]);
                    }
                    assert forall|d: Address| #[trigger] nv.roster(f).contains(d) <==> nv.status(f, d) == Some(DriverFleetStatus::Active) by {
                        assert(mv.status(f, d) == nv.status(f, d));
                        assert(before.roster(f).contains(d) <==> before.status(f, d) == Some(DriverFleetStatus::Active));
                        if t.contains(d) {
                            let a = choose|a: int| 0 <= a < t.len() && t[a] == d;
                            let a2 = if a < i { a } else { a + 1 };
                            assert(s[a2] == d);
                            assert(a2 != i);
                            assert(d != driver);
                        }
                        if d != driver && s.contains(d) {
                            let a2 = choose|a2: int| 0 <= a2 < s.len() && s[a2] == d;
                            assert(a2 != i);
                            let a = if a2 < i { a2 } else { a2 - 1 };
                            assert(t[a] == d);
                        }
                    }
                } else {
                    assert(nv.roster(f) == before.roster(f));
                    assert forall|d: Address| #[trigger] nv.roster(f).contains(d) <==> nv.status(f, d) == Some(DriverFleetStatus::Active) by {
                        assert(mv.status(f, d) == nv.status(f, d));
                        assert(before.roster(f).contains(d) <==> before.status(f, d) == Some(DriverFleetStatus::Active));
                    }
                }
            }
            match nv.counter {
                None => {},
                Some(c) => {
                    assert forall|f: u64| #[trigger] nv.fleets.contains_key(f) implies f <= c by {
                        assert(before.fleets.contains_key(f));
                    }
                },
            }
        }
        Ok(())
    }

    /// Where the escrow contract should pay `driver` for fleet `fleet_id`:
    /// the fleet's treasury while the driver is an active member of an
    /// active fleet, otherwise the driver.
    pub fn get_payout_address(env: &Env, driver: Address, fleet_id: FleetId) -> (a: Address)
        ensures
            a == env.fleet@.payout_address(driver, fleet_id),
    {
        let k = make_pair_key(fleet_id, driver.id);
        match env.fleet.memberships.get(&k) {
            Some(DriverFleetStatus::Active) => {
                match env.fleet.fleets.get(&fleet_id) {
                    Some(p) => if p.active { p.treasury } else { driver },
                    None => driver,
                }
            },
            _ => driver,
        }
    }

    /// The standing of `driver` in fleet `fleet_id`, if any.
    pub fn get_driver_fleet_status(env: &Env, fleet_id: FleetId, driver: Address) -> (r: Option<DriverFleetStatus>)
        ensures
            r == env.fleet@.status(fleet_id, driver),
    {
        let k = make_pair_key(fleet_id, driver.id);
        match env.fleet.memberships.get(&k) {
            Some(st) => Some(*st),
            None => None,
        }
    }

    /// The active drivers of a fleet in joining order; empty for an unknown
    /// fleet.
    pub fn get_fleet_roster(env: &Env, fleet_id: FleetId) -> (r: Vec<Address>)
        requires
            env.fleet@.wf(),
        ensures
            r@ == env.fleet@.roster(fleet_id),
    {
        match env.fleet.rosters.get(&fleet_id) {
            Some(v) => {
                assert(env.fleet@.roster(fleet_id) == v@);
                v.clone()
            },
            None => Vec::new(),
        }
    }

    /// Set the fleet's signers and threshold. The owner only; the threshold
    /// must be between 1 and the number of signers.
    pub fn configure_signers(env: &mut Env, owner: Address, fleet_id: FleetId, signers: Vec<Address>, threshold: u32) -> (r: Result<(), ContractError>)
        requires
            old(env).fleet@.wf(),
        ensures
            r == (if fleet_load_error(*old(env), owner, fleet_id) is Some {
                Err(fleet_load_error(*old(env), owner, fleet_id)->0)
            } else if old(env).fleet@.fleets[fleet_id].owner != owner {
                Err(fleet_err(FleetError::Unauthorized))
            } else if threshold == 0 || threshold > signers@.len() {
                Err(fleet_err(FleetError::InvalidConfiguration))
            } else {
                Ok(())
            }),
            r is Err ==> *final(env) == *old(env),
            r is Ok ==> {
                let p = final(env).fleet@.fleets[fleet_id];
                &&& old(env).frame(final(env), false, false, false, true, false, false)
                &&& final(env).fleet@ == (FleetView { fleets: old(env).fleet@.fleets.insert(fleet_id, p), ..old(env).fleet@ })
                &&& p == (FleetProfile { signature_threshold: threshold, signers: p.signers, ..old(env).fleet@.fleets[fleet_id] })
                &&& p.signers@ == signers@
            },
            final(env).fleet@.wf(),
    {
        Self::load_for(env, owner, fleet_id)?;
        if env.fleet.fleets.get(&fleet_id).unwrap().owner != owner {
            return Err(ContractError::Fleet(FleetError::Unauthorized));
        }
        if threshold == 0 || threshold as usize > signers.len() {
            return Err(ContractError::Fleet(FleetError::InvalidConfiguration));
        }
        let ghost before = env.fleet@;
        let mut p = env.fleet.fleets.remove(&fleet_id).unwrap();
        p.signers = signers;
        p.signature_threshold = threshold;
        env.fleet.fleets.insert(fleet_id, p);
        proof {
            lemma_wf_profile_update(before, fleet_id, p, env.fleet@.pending_treasury);
            assert(env.fleet@ =~= (FleetView { fleets: before.fleets.insert(fleet_id, p), pending_treasury: env.fleet@.pending_treasury, ..before }));
        }
        Ok(())
    }

    /// The signers and threshold of a fleet.
    pub fn get_fleet_signers(env: &Env, fleet_id: FleetId) -> (r: Result<(Vec<Address>, u32), ContractError>)
        ensures
            env.fleet@.fleets.contains_key(fleet_id) ==> r is Ok
                && r->Ok_0.0@ == env.fleet@.fleets[fleet_id].signers@
                && r->Ok_0.1 == env.fleet@.fleets[fleet_id].signature_threshold,
            !env.fleet@.fleets.contains_key(fleet_id) ==> r == Err::<(Vec<Address>, u32), ContractError>(fleet_err(FleetError::FleetNotFound)),
    {
        match env.fleet.fleets.get(&fleet_id) {
            Some(p) => Ok((p.signers.clone(), p.signature_threshold)),
            None => Err(ContractError::Fleet(FleetError::FleetNotFound)),
        }
    }
}

} // verus!
