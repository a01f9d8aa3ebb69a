//! The identity and reputation contract: user and driver profiles, KYC
//! status, driver suspension, and the reputation score that deliveries and
//! dispute rulings move up or down.
use vstd::prelude::*;
use std::collections::HashMap;
use crate::types::{
    Address, ContractError, DriverProfile, DriverStatus, FaniLabError, UserProfile,
};
use crate::env::Env;

verus! {

broadcast use vstd::std_specs::hash::group_hash_axioms;

/// Reputation points awarded per completed delivery.
#[derive(Clone, Copy, Debug, PartialEq, Eq, Structural)]
pub struct ReputationConfig {
    pub base_points: u32,
    pub heavy_cargo_points: u32,
    pub fragile_points: u32,
}

/// A driver's standing derived from the reputation score.
#[derive(Clone, Copy, Debug, PartialEq, Eq, Structural)]
pub enum DriverTier {
    Bronze,
    Silver,
    Gold,
}

/// The highest reputation score.
pub const MAX_REPUTATION: u32 = 100;
/// Lowest score of the Gold tier.
pub const GOLD_TIER_THRESHOLD: u32 = 75;
/// Score from which a driver is eligible for enterprise work (Gold tier).
pub const ENTERPRISE_THRESHOLD: u32 = 75;
/// Lowest score of the Silver tier.
pub const SILVER_TIER_THRESHOLD: u32 = 50;
/// Score of a newly registered driver: the bottom of the Silver tier.
pub const INITIAL_REPUTATION_SCORE: u32 = 50;
/// Cargo heavier than this many grams earns the heavy-cargo bonus.
pub const HEAVY_CARGO_GRAMS: u32 = 5000;
pub const DEFAULT_BASE_POINTS: u32 = 5;
pub const DEFAULT_HEAVY_CARGO_POINTS: u32 = 3;
pub const DEFAULT_FRAGILE_POINTS: u32 = 2;

/// `score` raised by `points`, capped at `MAX_REPUTATION`.
pub open spec fn spec_reputation_up(score: u32, points: u32) -> u32 {
    if score + points > MAX_REPUTATION { MAX_REPUTATION } else { (score + points) as u32 }
}

/// `score` lowered by `points`, floored at zero.
pub open spec fn spec_reputation_down(score: u32, points: u32) -> u32 {
    if score >= points { (score - points) as u32 } else { 0 }
}

/// Raise a reputation score, capped at `MAX_REPUTATION`.
pub fn reputation_up(score: u32, points: u32) -> (r: u32)
    ensures
        r == spec_reputation_up(score, points),
{
    let s = score.saturating_add(points);
    if s > MAX_REPUTATION { MAX_REPUTATION } else { s }
}

/// Lower a reputation score, floored at zero.
pub fn reputation_down(score: u32, points: u32) -> (r: u32)
    ensures
        r == spec_reputation_down(score, points),
{
    score.saturating_sub(points)
}

/// The tier of a score.
pub open spec fn spec_tier(score: u32) -> DriverTier {
    if score >= GOLD_TIER_THRESHOLD {
        DriverTier::Gold
    } else if score >= SILVER_TIER_THRESHOLD {
        DriverTier::Silver
    } else {
        DriverTier::Bronze
    }
}

/// The tier of a score.
pub fn tier_for_score(score: u32) -> (t: DriverTier)
    ensures
        t == spec_tier(score),
{
    if score >= GOLD_TIER_THRESHOLD {
        DriverTier::Gold
    } else if score >= SILVER_TIER_THRESHOLD {
        DriverTier::Silver
    } else {
        DriverTier::Bronze
    }
}

/// The configuration used when none was set.
pub open spec fn default_config() -> ReputationConfig {
    ReputationConfig {
        base_points: DEFAULT_BASE_POINTS,
        heavy_cargo_points: DEFAULT_HEAVY_CARGO_POINTS,
        fragile_points: DEFAULT_FRAGILE_POINTS,
    }
}

/// Points earned for a delivery of the given cargo.
pub open spec fn cargo_points(config: ReputationConfig, weight_grams: u32, fragile: bool) -> int {
    config.base_points
        + (if weight_grams > HEAVY_CARGO_GRAMS { config.heavy_cargo_points as int } else { 0 })
        + (if fragile { config.fragile_points as int } else { 0 })
}

/// Points earned for a delivery, or `None` where the sum leaves `u32`.
pub fn compute_cargo_points(config: ReputationConfig, weight_grams: u32, fragile: bool) -> (r: Option<u32>)
    ensures
        r == (if cargo_points(config, weight_grams, fragile) <= u32::MAX {
            Some(cargo_points(config, weight_grams, fragile) as u32)
        } else {
            None
        }),
{
    let mut points: u32 = config.base_points;
    if weight_grams > HEAVY_CARGO_GRAMS {
        match points.checked_add(config.heavy_cargo_points) {
            Some(p) => { points = p; },
            None => { return None; },
        }
    }
    if fragile {
        match points.checked_add(config.fragile_points) {
            Some(p) => { points = p; },
            None => { return None; },
        }
    }
    Some(points)
}

/// Abstract storage of the identity contract.
#[verifier::ext_equal]
pub struct IdentityView {
    pub admin: Option<Address>,
    pub delivery_contract: Option<Address>,
    pub dispute_contract: Option<Address>,
    pub reputation_config: Option<ReputationConfig>,
    /// Contracts allowed to change reputation, keyed by address.
    pub authorized: Map<u64, bool>,
    pub users: Map<u64, UserProfile>,
    pub drivers: Map<u64, DriverProfile>,
}

/// Storage of the identity and reputation contract.
pub struct IdentityReputationContract {
    pub address: Address,
    pub admin: Option<Address>,
    pub delivery_contract: Option<Address>,
    pub dispute_contract: Option<Address>,
    pub reputation_config: Option<ReputationConfig>,
    pub authorized: HashMap<u64, bool>,
    pub users: HashMap<u64, UserProfile>,
    pub drivers: HashMap<u64, DriverProfile>,
}

impl View for IdentityReputationContract {
    type V = IdentityView;

    open spec fn view(&self) -> IdentityView {
        IdentityView {
            admin: self.admin,
            delivery_contract: self.delivery_contract,
            dispute_contract: self.dispute_contract,
            reputation_config: self.reputation_config,
            authorized: self.authorized@,
            users: self.users@,
            drivers: self.drivers@,
        }
    }
}

/// Whether `a` is the configured administrator.
pub open spec fn is_admin_of(admin: Option<Address>, a: Address) -> bool {
    admin == Some(a)
}

impl IdentityView {
    pub open spec fn is_authorized(self, a: Address) -> bool {
        self.authorized.contains_key(a.id) && self.authorized[a.id]
    }

    pub open spec fn config(self) -> ReputationConfig {
        match self.reputation_config {
            Some(c) => c,
            None => default_config(),
        }
    }

    /// The view with `driver`'s profile replaced by `p`.
    pub open spec fn with_driver(self, driver: Address, p: DriverProfile) -> IdentityView {
        IdentityView { drivers: self.drivers.insert(driver.id, p), ..self }
    }
}

/// Why the escrow-pause precondition of the identity contract fails, if it
/// does: the delivery contract names the escrow contract, whose pause flag
/// must be clear.
pub open spec fn identity_pause_error(env: Env) -> Option<ContractError> {
    match env.identity.delivery_contract {
        None => Some(ContractError::Fani(FaniLabError::NotInitialized)),
        Some(d) => if d != env.delivery.address {
            Some(ContractError::MissingContract)
        } else {
            match env.delivery.escrow_contract {
                None => Some(ContractError::Fani(FaniLabError::NotInitialized)),
                Some(e) => match env.spec_is_paused_at(e) {
                    Err(x) => Some(x),
                    Ok(true) => Some(ContractError::Fani(FaniLabError::ProtocolPaused)),
                    Ok(false) => None,
                },
            }
        },
    }
}

pub fn identity_require_escrow_not_paused(env: &Env) -> (r: Result<(), ContractError>)
    ensures
        r == (match identity_pause_error(*env) {
            Some(e) => Err(e),
            None => Ok(()),
        }),
{
    match env.identity.delivery_contract {
        None => Err(ContractError::Fani(FaniLabError::NotInitialized)),
        Some(d) => {
            if d != env.delivery.address {
                return Err(ContractError::MissingContract);
            }
            match env.delivery.escrow_contract {
                None => Err(ContractError::Fani(FaniLabError::NotInitialized)),
                Some(e) => {
                    let paused = env.is_paused_at(e)?;
                    if paused {
                        Err(ContractError::Fani(FaniLabError::ProtocolPaused))
                    } else {
                        Ok(())
                    }
                },
            }
        },
    }
}

/// Why a reputation change by `caller` on `driver` fails before the amount
/// is computed, if it does.
pub open spec fn reputation_change_error(env: Env, caller: Address, caller_is_invoker: bool, driver: Address, check_pause: bool) -> Option<ContractError> {
    if check_pause && identity_pause_error(env) is Some {
        identity_pause_error(env)
    } else if !env.identity@.is_authorized(caller) {
        Some(ContractError::Fani(FaniLabError::Unauthorized))
    } else if !caller_is_invoker && !env.authorizes(caller) {
        Some(ContractError::AuthRequired)
    } else if !env.identity@.drivers.contains_key(driver.id) {
        Some(ContractError::Fani(FaniLabError::ProviderNotFound))
    } else {
        None
    }
}

/// The driver profile after a completed delivery earning `points`, or
/// `None` where the delivery count overflows.
pub open spec fn after_delivery(p: DriverProfile, points: u32) -> Option<DriverProfile> {
    if p.deliveries_completed == u32::MAX {
        None
    } else {
        Some(DriverProfile {
            reputation_score: spec_reputation_up(p.reputation_score, points),
            deliveries_completed: (p.deliveries_completed + 1) as u32,
            ..p
        })
    }
}

/// Outcome of `increase_reputation`: the error, or the new profile.
pub open spec fn increase_reputation_outcome(env: Env, caller: Address, caller_is_invoker: bool, driver: Address, weight_grams: u32, fragile: bool) -> Result<DriverProfile, ContractError> {
    match reputation_change_error(env, caller, caller_is_invoker, driver, true) {
        Some(e) => Err(e),
        None => {
            let pts = cargo_points(env.identity@.config(), weight_grams, fragile);
            if pts > u32::MAX {
                Err(ContractError::ArithmeticOverflow)
            } else {
                match after_delivery(env.identity@.drivers[driver.id], pts as u32) {
                    None => Err(ContractError::ArithmeticOverflow),
                    Some(p) => Ok(p),
                }
            }
        },
    }
}

/// Outcome of `award_reputation`: the error, or the new profile.
pub open spec fn award_reputation_outcome(env: Env, caller: Address, caller_is_invoker: bool, driver: Address, points: u32) -> Result<DriverProfile, ContractError> {
    match reputation_change_error(env, caller, caller_is_invoker, driver, false) {
        Some(e) => Err(e),
        None => {
            let p = env.identity@.drivers[driver.id];
            if p.reputation_score + points > u32::MAX {
                Err(ContractError::ArithmeticOverflow)
            } else {
                Ok(DriverProfile { reputation_score: spec_reputation_up(p.reputation_score, points), ..p })
            }
        },
    }
}

/// Outcome of `decrease_reputation`: the error, or the new profile.
pub open spec fn decrease_reputation_outcome(env: Env, caller: Address, caller_is_invoker: bool, driver: Address, points: u32) -> Result<DriverProfile, ContractError> {
    match reputation_change_error(env, caller, caller_is_invoker, driver, true) {
        Some(e) => Err(e),
        None => {
            let p = env.identity@.drivers[driver.id];
            Ok(DriverProfile { reputation_score: spec_reputation_down(p.reputation_score, points), ..p })
        },
    }
}

/// Why an administrator action by `admin` fails, if it does.
pub open spec fn identity_admin_error(env: Env, admin: Address) -> Option<ContractError> {
    if !env.authorizes(admin) {
        Some(ContractError::AuthRequired)
    } else if !is_admin_of(env.identity.admin, admin) {
        Some(ContractError::Fani(FaniLabError::Unauthorized))
    } else {
        None
    }
}

/// Why a suspension-status change fails, if it does. `to` is the status the
/// driver must not already have.
pub open spec fn status_change_error(env: Env, admin: Address, driver: Address, to: DriverStatus) -> Option<ContractError> {
    if !env.authorizes(admin) {
        Some(ContractError::AuthRequired)
    } else if env.identity.admin is None {
        Some(ContractError::Fani(FaniLabError::NotInitialized))
    } else if env.identity.admin != Some(admin) {
        Some(ContractError::Fani(FaniLabError::Unauthorized))
    } else if !env.identity@.drivers.contains_key(driver.id) {
        Some(ContractError::Fani(FaniLabError::ProviderNotFound))
    } else if env.identity@.drivers[driver.id].status == to {
        Some(ContractError::Fani(FaniLabError::InvalidState))
    } else {
        None
    }
}

impl IdentityReputationContract {
    /// A freshly deployed, uninitialized contract at `address`.
    pub open spec fn is_fresh(&self, address: Address) -> bool {
        &&& self.address == address
        &&& self@ == IdentityView {
            admin: None,
            delivery_contract: None,
            dispute_contract: None,
            reputation_config: None,
            authorized: Map::empty(),
            users: Map::empty(),
            drivers: Map::empty(),
        }
    }

    pub fn new(address: Address) -> (c: IdentityReputationContract)
        ensures
            c.is_fresh(address),
    {
        IdentityReputationContract {
            address,
            admin: None,
            delivery_contract: None,
            dispute_contract: None,
            reputation_config: None,
            authorized: HashMap::new(),
            users: HashMap::new(),
            drivers: HashMap::new(),
        }
    }

    /// Initialize with the administrator and the two contracts allowed to
    /// change reputation.
    pub fn init(env: &mut Env, admin: Address, delivery_contract: Address, dispute_contract: Address) -> (r: Result<(), ContractError>)
        ensures
            r == (if old(env).identity.admin is Some {
                Err(ContractError::Fani(FaniLabError::AlreadyInitialized))
            } else if !old(env).authorizes(admin) {
                Err(ContractError::AuthRequired)
            } else {
                Ok(())
            }),
            r is Err ==> *final(env) == *old(env),
            r is Ok ==> old(env).same_except_identity(final(env)) && final(env).identity@ == (IdentityView {
                admin: Some(admin),
                delivery_contract: Some(delivery_contract),
                dispute_contract: Some(dispute_contract),
                authorized: old(env).identity@.authorized.insert(delivery_contract.id, true).insert(
                    dispute_contract.id, true),
                ..old(env).identity@
            }),
    {
        if env.identity.admin.is_some() {
            return Err(ContractError::Fani(FaniLabError::AlreadyInitialized));
        }
        env.require_auth(admin)?;
        env.identity.admin = Some(admin);
        env.identity.delivery_contract = Some(delivery_contract);
        env.identity.dispute_contract = Some(dispute_contract);
        env.identity.authorized.insert(delivery_contract.id, true);
        env.identity.authorized.insert(dispute_contract.id, true);
        Ok(())
    }

    pub fn get_admin(env: &Env) -> (r: Result<Address, ContractError>)
        ensures
            r == (match env.identity.admin {
                Some(a) => Ok(a),
                None => Err(ContractError::Fani(FaniLabError::NotInitialized)),
            }),
    {
        match env.identity.admin {
            Some(a) => Ok(a),
            None => Err(ContractError::Fani(FaniLabError::NotInitialized)),
        }
    }

    fn require_identity_admin(env: &Env, admin: Address) -> (r: Result<(), ContractError>)
        ensures
            r == (match identity_admin_error(*env, admin) {
                Some(e) => Err(e),
                None => Ok(()),
            }),
    {
        env.require_auth(admin)?;
        if env.identity.admin != Some(admin) {
            return Err(ContractError::Fani(FaniLabError::Unauthorized));
        }
        Ok(())
    }

    /// Grant (`authorized`) or revoke a contract's right to change
    /// reputation. Administrator only.
    pub fn set_authorized_contract(env: &mut Env, admin: Address, contract_addr: Address, authorized: bool) -> (r: Result<(), ContractError>)
        ensures
            r == (match identity_admin_error(*old(env), admin) {
                Some(e) => Err(e),
                None => Ok(()),
            }),
            r is Err ==> *final(env) == *old(env),
            r is Ok ==> old(env).same_except_identity(final(env)) && final(env).identity@ == (IdentityView {
                authorized: if authorized {
                    old(env).identity@.authorized.insert(contract_addr.id, true)
                } else {
                    old(env).identity@.authorized.remove(contract_addr.id)
                },
                ..old(env).identity@
            }),
    {
        Self::require_identity_admin(env, admin)?;
        if authorized {
            env.identity.authorized.insert(contract_addr.id, true);
        } else {
            env.identity.authorized.remove(&contract_addr.id);
        }
        Ok(())
    }

    /// Replace the reputation configuration. Administrator only.
    pub fn set_reputation_config(env: &mut Env, admin: Address, config: ReputationConfig) -> (r: Result<(), ContractError>)
        ensures
            r == (match identity_admin_error(*old(env), admin) {
                Some(e) => Err(e),
                None => Ok(()),
            }),
            r is Err ==> *final(env) == *old(env),
            r is Ok ==> old(env).same_except_identity(final(env)) && final(env).identity@ == (IdentityView {
                reputation_config: Some(config),
                ..old(env).identity@
            }),
    {
        Self::require_identity_admin(env, admin)?;
        env.identity.reputation_config = Some(config);
        Ok(())
    }

    /// The reputation configuration, or the defaults (5, 3, 2) when none was
    /// set.
    pub fn get_reputation_config(env: &Env) -> (c: ReputationConfig)
        ensures
            c == env.identity@.config(),
    {
        match env.identity.reputation_config {
            Some(c) => c,
            None => ReputationConfig {
                base_points: DEFAULT_BASE_POINTS,
                heavy_cargo_points: DEFAULT_HEAVY_CARGO_POINTS,
                fragile_points: DEFAULT_FRAGILE_POINTS,
            },
        }
    }

    /// Point the contract at a new delivery contract. Administrator only.
    pub fn set_delivery_contract(env: &mut Env, admin: Address, delivery_contract: Address) -> (r: Result<(), ContractError>)
        ensures
            r == (match identity_admin_error(*old(env), admin) {
                Some(e) => Err(e),
                None => Ok(()),
            }),
            r is Err ==> *final(env) == *old(env),
            r is Ok ==> old(env).same_except_identity(final(env)) && final(env).identity@ == (IdentityView {
                delivery_contract: Some(delivery_contract),
                ..old(env).identity@
            }),
    {
        Self::require_identity_admin(env, admin)?;
        env.identity.delivery_contract = Some(delivery_contract);
        Ok(())
    }

    /// Point the contract at a new dispute contract. Administrator only.
    pub fn set_dispute_contract(env: &mut Env, admin: Address, dispute_contract: Address) -> (r: Result<(), ContractError>)
        ensures
            r == (match identity_admin_error(*old(env), admin) {
                Some(e) => Err(e),
                None => Ok(()),
            }),
            r is Err ==> *final(env) == *old(env),
            r is Ok ==> old(env).same_except_identity(final(env)) && final(env).identity@ == (IdentityView {
                dispute_contract: Some(dispute_contract),
                ..old(env).identity@
            }),
    {
        Self::require_identity_admin(env, admin)?;
        env.identity.dispute_contract = Some(dispute_contract);
        Ok(())
    }

    pub fn get_delivery_contract(env: &Env) -> (r: Result<Address, ContractError>)
        ensures
            r == (match env.identity.delivery_contract {
                Some(a) => Ok(a),
                None => Err(ContractError::Fani(FaniLabError::NotInitialized)),
            }),
    {
        match env.identity.delivery_contract {
            Some(a) => Ok(a),
            None => Err(ContractError::Fani(FaniLabError::NotInitialized)),
        }
    }

    pub fn get_dispute_contract(env: &Env) -> (r: Result<Address, ContractError>)
        ensures
            r == (match env.identity.dispute_contract {
                Some(a) => Ok(a),
                None => Err(ContractError::Fani(FaniLabError::NotInitialized)),
            }),
    {
        match env.identity.dispute_contract {
            Some(a) => Ok(a),
            None => Err(ContractError::Fani(FaniLabError::NotInitialized)),
        }
    }

    /// Whether `contract_addr` may change reputation.
    pub fn is_authorized_contract(env: &Env, contract_addr: Address) -> (b: bool)
        ensures
            b == env.identity@.is_authorized(contract_addr),
    {
        match env.identity.authorized.get(&contract_addr.id) {
            Some(v) => *v,
            None => false,
        }
    }

    pub fn has_driver_profile(env: &Env, driver: Address) -> (b: bool)
        ensures
            b == env.identity@.drivers.contains_key(driver.id),
    {
        env.identity.drivers.contains_key(&driver.id)
    }

    /// Register `driver` with the starting score (Silver tier), no
    /// deliveries, KYC unverified and active status. A driver registers once.
    pub fn register_driver(env: &mut Env, driver: Address) -> (r: Result<(), ContractError>)
        ensures
            r == (if !old(env).authorizes(driver) {
                Err(ContractError::AuthRequired)
            } else if identity_pause_error(*old(env)) is Some {
                Err(identity_pause_error(*old(env))->0)
            } else if old(env).identity@.drivers.contains_key(driver.id) {
                Err(ContractError::Fani(FaniLabError::AlreadyInitialized))
            } else {
                Ok(())
            }),
            r is Err ==> *final(env) == *old(env),
            r is Ok ==> old(env).same_except_identity(final(env)) && final(env).identity@ == old(env).identity@.with_driver(
                driver,
                DriverProfile {
                    address: driver,
                    deliveries_completed: 0,
                    reputation_score: INITIAL_REPUTATION_SCORE,
                    registered_at: old(env).timestamp,
                    kyc_verified: false,
                    status: DriverStatus::Active,
                },
            ),
    {
        env.require_auth(driver)?;
        identity_require_escrow_not_paused(env)?;
        if env.identity.drivers.contains_key(&driver.id) {
            return Err(ContractError::Fani(FaniLabError::AlreadyInitialized));
        }
        let profile = DriverProfile {
            address: driver,
            deliveries_completed: 0,
            reputation_score: INITIAL_REPUTATION_SCORE,
            registered_at: env.timestamp,
            kyc_verified: false,
            status: DriverStatus::Active,
        };
        env.identity.drivers.insert(driver.id, profile);
        Ok(())
    }

    /// Register `user`, or return the existing profile unchanged when the
    /// user is already registered.
    pub fn register_user(env: &mut Env, user: Address) -> (r: Result<UserProfile, ContractError>)
        ensures
            r == (if !old(env).authorizes(user) {
                Err(ContractError::AuthRequired)
            } else if identity_pause_error(*old(env)) is Some {
                Err(identity_pause_error(*old(env))->0)
            } else if old(env).identity@.users.contains_key(user.id) {
                Ok(old(env).identity@.users[user.id])
            } else {
                Ok(UserProfile { address: user, registered_at: old(env).timestamp })
            }),
            r is Err || old(env).identity@.users.contains_key(user.id) ==> *final(env) == *old(env),
            r is Ok && !old(env).identity@.users.contains_key(user.id) ==> old(env).same_except_identity(final(env))
                && final(env).identity@ == (IdentityView {
                    users: old(env).identity@.users.insert(user.id, r->Ok_0),
                    ..old(env).identity@
                }),
    {
        env.require_auth(user)?;
        identity_require_escrow_not_paused(env)?;
        match env.identity.users.get(&user.id) {
            Some(p) => { return Ok(*p); },
            None => {},
        }
        let profile = UserProfile { address: user, registered_at: env.timestamp };
        env.identity.users.insert(user.id, profile);
        Ok(profile)
    }

    pub fn get_user_profile(env: &Env, user: Address) -> (r: Result<UserProfile, ContractError>)
        ensures
            r == (if env.identity@.users.contains_key(user.id) {
                Ok(env.identity@.users[user.id])
            } else {
                Err(ContractError::Fani(FaniLabError::ProviderNotFound))
            }),
    {
        match env.identity.users.get(&user.id) {
            Some(p) => Ok(*p),
            None => Err(ContractError::Fani(FaniLabError::ProviderNotFound)),
        }
    }

    pub fn has_user_profile(env: &Env, user: Address) -> (b: bool)
        ensures
            b == env.identity@.users.contains_key(user.id),
    {
        env.identity.users.contains_key(&user.id)
    }

    pub fn get_driver_profile(env: &Env, driver: Address) -> (r: Result<DriverProfile, ContractError>)
        ensures
            r == (if env.identity@.drivers.contains_key(driver.id) {
                Ok(env.identity@.drivers[driver.id])
            } else {
                Err(ContractError::Fani(FaniLabError::ProviderNotFound))
            }),
    {
        match env.identity.drivers.get(&driver.id) {
            Some(p) => Ok(*p),
            None => Err(ContractError::Fani(FaniLabError::ProviderNotFound)),
        }
    }

    /// Record whether `driver` passed KYC. Administrator only.
    pub fn update_driver_kyc_status(env: &mut Env, admin: Address, driver: Address, kyc_verified: bool) -> (r: Result<(), ContractError>)
        ensures
            r == (if !old(env).authorizes(admin) {
                Err(ContractError::AuthRequired)
            } else if identity_pause_error(*old(env)) is Some {
                Err(identity_pause_error(*old(env))->0)
            } else if !is_admin_of(old(env).identity.admin, admin) {
                Err(ContractError::Fani(FaniLabError::Unauthorized))
            } else if !old(env).identity@.drivers.contains_key(driver.id) {
                Err(ContractError::Fani(FaniLabError::ProviderNotFound))
            } else {
                Ok(())
            }),
            r is Err ==> *final(env) == *old(env),
            r is Ok ==> old(env).same_except_identity(final(env)) && final(env).identity@ == old(env).identity@.with_driver(
                driver,
                DriverProfile { kyc_verified, ..old(env).identity@.drivers[driver.id] },
            ),
    {
        env.require_auth(admin)?;
        identity_require_escrow_not_paused(env)?;
        if env.identity.admin != Some(admin) {
            return Err(ContractError::Fani(FaniLabError::Unauthorized));
        }
        let p = match env.identity.drivers.get(&driver.id) {
            Some(p) => *p,
            None => { return Err(ContractError::Fani(FaniLabError::ProviderNotFound)); },
        };
        env.identity.drivers.insert(driver.id, DriverProfile { kyc_verified, ..p });
        Ok(())
    }

    fn check_reputation_change(env: &Env, caller: Address, caller_is_invoker: bool, driver: Address, check_pause: bool) -> (r: Result<DriverProfile, ContractError>)
        ensures
            r == (match reputation_change_error(*env, caller, caller_is_invoker, driver, check_pause) {
                Some(e) => Err(e),
                None => Ok(env.identity@.drivers[driver.id]),
            }),
    {
        if check_pause {
            identity_require_escrow_not_paused(env)?;
        }
        if !Self::is_authorized_contract(env, caller) {
            return Err(ContractError::Fani(FaniLabError::Unauthorized));
        }
        if !caller_is_invoker {
            env.require_auth(caller)?;
        }
        match env.identity.drivers.get(&driver.id) {
            Some(p) => Ok(*p),
            None => Err(ContractError::Fani(FaniLabError::ProviderNotFound)),
        }
    }

    /// Credit `driver` for a completed delivery: points from the cargo (base,
    /// heavy-cargo and fragile bonuses), capped at `MAX_REPUTATION`, and one
    /// more completed delivery. Callable by authorized contracts only.
    /// `caller_is_invoker` says that `caller` is the contract making this
    /// call, whose authorization is implicit.
    pub(crate) fn increase_reputation_as(env: &mut Env, caller: Address, caller_is_invoker: bool, driver: Address, delivery_id: u64, weight_grams: u32, fragile: bool) -> (r: Result<(), ContractError>)
        ensures
            increase_reputation_outcome(*old(env), caller, caller_is_invoker, driver, weight_grams, fragile) is Err ==>
                r == Err::<(), ContractError>(increase_reputation_outcome(*old(env), caller, caller_is_invoker, driver, weight_grams, fragile)->Err_0),
            increase_reputation_outcome(*old(env), caller, caller_is_invoker, driver, weight_grams, fragile) is Ok ==> r is Ok,
            r is Err ==> *final(env) == *old(env),
            r is Ok ==> old(env).same_except_identity(final(env)) && final(env).identity@ == old(env).identity@.with_driver(
                driver,
                increase_reputation_outcome(*old(env), caller, caller_is_invoker, driver, weight_grams, fragile)->Ok_0,
            ),
    {
        let p = Self::check_reputation_change(env, caller, caller_is_invoker, driver, true)?;
        let config = Self::get_reputation_config(env);
        let points = match compute_cargo_points(config, weight_grams, fragile) {
            Some(pts) => pts,
            None => { return Err(ContractError::ArithmeticOverflow); },
        };
        if p.deliveries_completed == u32::MAX {
            return Err(ContractError::ArithmeticOverflow);
        }
        let np = DriverProfile {
            reputation_score: reputation_up(p.reputation_score, points),
            deliveries_completed: p.deliveries_completed + 1,
            ..p
        };
        env.identity.drivers.insert(driver.id, np);
        Ok(())
    }

    /// What `increase_reputation_as` would do, without doing it: the new
    /// profile, or the error.
    pub fn preview_increase_reputation(env: &Env, caller: Address, caller_is_invoker: bool, driver: Address, weight_grams: u32, fragile: bool) -> (r: Result<DriverProfile, ContractError>)
        ensures
            r == increase_reputation_outcome(*env, caller, caller_is_invoker, driver, weight_grams, fragile),
    {
        let p = Self::check_reputation_change(env, caller, caller_is_invoker, driver, true)?;
        let config = Self::get_reputation_config(env);
        let points = match compute_cargo_points(config, weight_grams, fragile) {
            Some(pts) => pts,
            None => { return Err(ContractError::ArithmeticOverflow); },
        };
        if p.deliveries_completed == u32::MAX {
            return Err(ContractError::ArithmeticOverflow);
        }
        Ok(DriverProfile {
            reputation_score: reputation_up(p.reputation_score, points),
            deliveries_completed: p.deliveries_completed + 1,
            ..p
        })
    }

    /// What `award_reputation_as` would do, without doing it: the new
    /// profile, or the error.
    pub fn preview_award_reputation(env: &Env, caller: Address, caller_is_invoker: bool, driver: Address, points: u32) -> (r: Result<DriverProfile, ContractError>)
        ensures
            r == award_reputation_outcome(*env, caller, caller_is_invoker, driver, points),
    {
        let p = Self::check_reputation_change(env, caller, caller_is_invoker, driver, false)?;
        let s = match p.reputation_score.checked_add(points) {
            Some(s) => s,
            None => { return Err(ContractError::ArithmeticOverflow); },
        };
        let ns = if s > MAX_REPUTATION { MAX_REPUTATION } else { s };
        Ok(DriverProfile { reputation_score: ns, ..p })
    }

    /// `increase_reputation_as` for a caller that signs the call itself.
    pub fn increase_reputation(env: &mut Env, caller: Address, driver: Address, delivery_id: u64, weight_grams: u32, fragile: bool) -> (r: Result<(), ContractError>)
        ensures
            increase_reputation_outcome(*old(env), caller, false, driver, weight_grams, fragile) is Err ==>
                r == Err::<(), ContractError>(increase_reputation_outcome(*old(env), caller, false, driver, weight_grams, fragile)->Err_0),
            increase_reputation_outcome(*old(env), caller, false, driver, weight_grams, fragile) is Ok ==> r is Ok,
            r is Err ==> *final(env) == *old(env),
            r is Ok ==> old(env).same_except_identity(final(env)) && final(env).identity@ == old(env).identity@.with_driver(
                driver,
                increase_reputation_outcome(*old(env), caller, false, driver, weight_grams, fragile)->Ok_0,
            ),
    {
        Self::increase_reputation_as(env, caller, false, driver, delivery_id, weight_grams, fragile)
    }

    /// Lower `driver`'s score by `points`, floored at zero. Callable by
    /// authorized contracts only.
    pub(crate) fn decrease_reputation_as(env: &mut Env, caller: Address, caller_is_invoker: bool, driver: Address, points: u32) -> (r: Result<(), ContractError>)
        ensures
            decrease_reputation_outcome(*old(env), caller, caller_is_invoker, driver, points) is Err ==>
                r == Err::<(), ContractError>(decrease_reputation_outcome(*old(env), caller, caller_is_invoker, driver, points)->Err_0),
            decrease_reputation_outcome(*old(env), caller, caller_is_invoker, driver, points) is Ok ==> r is Ok,
            r is Err ==> *final(env) == *old(env),
            r is Ok ==> old(env).same_except_identity(final(env)) && final(env).identity@ == old(env).identity@.with_driver(
                driver,
                decrease_reputation_outcome(*old(env), caller, caller_is_invoker, driver, points)->Ok_0,
            ),
    {
        let p = Self::check_reputation_change(env, caller, caller_is_invoker, driver, true)?;
        let np = DriverProfile { reputation_score: reputation_down(p.reputation_score, points), ..p };
        env.identity.drivers.insert(driver.id, np);
        Ok(())
    }

    /// What `decrease_reputation_as` would do, without doing it: the new
    /// profile, or the error.
    pub fn preview_decrease_reputation(env: &Env, caller: Address, caller_is_invoker: bool, driver: Address, points: u32) -> (r: Result<DriverProfile, ContractError>)
        ensures
            r == decrease_reputation_outcome(*env, caller, caller_is_invoker, driver, points),
    {
        let p = Self::check_reputation_change(env, caller, caller_is_invoker, driver, true)?;
        Ok(DriverProfile { reputation_score: reputation_down(p.reputation_score, points), ..p })
    }

    /// `decrease_reputation_as` for a caller that signs the call itself.
    pub fn decrease_reputation(env: &mut Env, caller: Address, driver: Address, points: u32) -> (r: Result<(), ContractError>)
        ensures
            decrease_reputation_outcome(*old(env), caller, false, driver, points) is Err ==>
                r == Err::<(), ContractError>(decrease_reputation_outcome(*old(env), caller, false, driver, points)->Err_0),
            decrease_reputation_outcome(*old(env), caller, false, driver, points) is Ok ==> r is Ok,
            r is Err ==> *final(env) == *old(env),
            r is Ok ==> old(env).same_except_identity(final(env)) && final(env).identity@ == old(env).identity@.with_driver(
                driver,
                decrease_reputation_outcome(*old(env), caller, false, driver, points)->Ok_0,
            ),
    {
        Self::decrease_reputation_as(env, caller, false, driver, points)
    }

    /// A flat award of `points` to `driver`, capped at `MAX_REPUTATION`,
    /// that does not count as a delivery. Callable by authorized contracts
    /// only; no pause check.
    pub(crate) fn award_reputation_as(env: &mut Env, caller: Address, caller_is_invoker: bool, driver: Address, points: u32) -> (r: Result<(), ContractError>)
        ensures
            award_reputation_outcome(*old(env), caller, caller_is_invoker, driver, points) is Err ==>
                r == Err::<(), ContractError>(award_reputation_outcome(*old(env), caller, caller_is_invoker, driver, points)->Err_0),
            award_reputation_outcome(*old(env), caller, caller_is_invoker, driver, points) is Ok ==> r is Ok,
            r is Err ==> *final(env) == *old(env),
            r is Ok ==> old(env).same_except_identity(final(env)) && final(env).identity@ == old(env).identity@.with_driver(
                driver,
                award_reputation_outcome(*old(env), caller, caller_is_invoker, driver, points)->Ok_0,
            ),
    {
        let p = Self::check_reputation_change(env, caller, caller_is_invoker, driver, false)?;
        let s = match p.reputation_score.checked_add(points) {
            Some(s) => s,
            None => { return Err(ContractError::ArithmeticOverflow); },
        };
        let ns = if s > MAX_REPUTATION { MAX_REPUTATION } else { s };
        env.identity.drivers.insert(driver.id, DriverProfile { reputation_score: ns, ..p });
        Ok(())
    }

    /// `award_reputation_as` for a caller that signs the call itself.
    pub fn award_reputation(env: &mut Env, caller: Address, driver: Address, points: u32) -> (r: Result<(), ContractError>)
        ensures
            award_reputation_outcome(*old(env), caller, false, driver, points) is Err ==>
                r == Err::<(), ContractError>(award_reputation_outcome(*old(env), caller, false, driver, points)->Err_0),
            award_reputation_outcome(*old(env), caller, false, driver, points) is Ok ==> r is Ok,
            r is Err ==> *final(env) == *old(env),
            r is Ok ==> old(env).same_except_identity(final(env)) && final(env).identity@ == old(env).identity@.with_driver(
                driver,
                award_reputation_outcome(*old(env), caller, false, driver, points)->Ok_0,
            ),
    {
        Self::award_reputation_as(env, caller, false, driver, points)
    }

    /// The tier of a registered driver.
    pub fn get_driver_tier(env: &Env, driver: Address) -> (r: Result<DriverTier, ContractError>)
        ensures
            r == (if env.identity@.drivers.contains_key(driver.id) {
                Ok(spec_tier(env.identity@.drivers[driver.id].reputation_score))
            } else {
                Err(ContractError::Fani(FaniLabError::ProviderNotFound))
            }),
    {
        let p = Self::get_driver_profile(env, driver)?;
        Ok(tier_for_score(p.reputation_score))
    }

    /// Whether a registered driver reached the enterprise threshold.
    pub fn is_eligible_for_enterprise(env: &Env, driver: Address) -> (r: Result<bool, ContractError>)
        ensures
            r == (if env.identity@.drivers.contains_key(driver.id) {
                Ok(env.identity@.drivers[driver.id].reputation_score >= ENTERPRISE_THRESHOLD)
            } else {
                Err(ContractError::Fani(FaniLabError::ProviderNotFound))
            }),
    {
        let p = Self::get_driver_profile(env, driver)?;
        Ok(p.reputation_score >= ENTERPRISE_THRESHOLD)
    }

    fn set_driver_status(env: &mut Env, admin: Address, driver: Address, to: DriverStatus) -> (r: Result<(), ContractError>)
        ensures
            r == (match status_change_error(*old(env), admin, driver, to) {
                Some(e) => Err(e),
                None => Ok(()),
            }),
            r is Err ==> *final(env) == *old(env),
            r is Ok ==> old(env).same_except_identity(final(env)) && final(env).identity@ == old(env).identity@.with_driver(
                driver,
                DriverProfile { status: to, ..old(env).identity@.drivers[driver.id] },
            ),
    {
        env.require_auth(admin)?;
        match env.identity.admin {
            None => { return Err(ContractError::Fani(FaniLabError::NotInitialized)); },
            Some(a) => {
                if a != admin {
                    return Err(ContractError::Fani(FaniLabError::Unauthorized));
                }
            },
        }
        let p = match env.identity.drivers.get(&driver.id) {
            Some(p) => *p,
            None => { return Err(ContractError::Fani(FaniLabError::ProviderNotFound)); },
        };
        if p.status == to {
            return Err(ContractError::Fani(FaniLabError::InvalidState));
        }
        env.identity.drivers.insert(driver.id, DriverProfile { status: to, ..p });
        Ok(())
    }

    /// Suspend a registered driver, keeping the whole profile. Administrator
    /// only; suspending a suspended driver fails with `InvalidState`.
    pub fn suspend_driver(env: &mut Env, admin: Address, driver: Address) -> (r: Result<(), ContractError>)
        ensures
            r == (match status_change_error(*old(env), admin, driver, DriverStatus::Suspended) {
                Some(e) => Err(e),
                None => Ok(()),
            }),
            r is Err ==> *final(env) == *old(env),
            r is Ok ==> old(env).same_except_identity(final(env)) && final(env).identity@ == old(env).identity@.with_driver(
                driver,
                DriverProfile { status: DriverStatus::Suspended, ..old(env).identity@.drivers[driver.id] },
            ),
    {
        Self::set_driver_status(env, admin, driver, DriverStatus::Suspended)
    }

    /// Reinstate a suspended driver, keeping the whole profile.
    /// Administrator only; reinstating an active driver fails with
    /// `InvalidState`.
    pub fn reinstate_driver(env: &mut Env, admin: Address, driver: Address) -> (r: Result<(), ContractError>)
        ensures
            r == (match status_change_error(*old(env), admin, driver, DriverStatus::Active) {
                Some(e) => Err(e),
                None => Ok(()),
            }),
            r is Err ==> *final(env) == *old(env),
            r is Ok ==> old(env).same_except_identity(final(env)) && final(env).identity@ == old(env).identity@.with_driver(
                driver,
                DriverProfile { status: DriverStatus::Active, ..old(env).identity@.drivers[driver.id] },
            ),
    {
        Self::set_driver_status(env, admin, driver, DriverStatus::Active)
    }

    /// Whether `driver` has a profile and is suspended.
    pub fn is_driver_suspended(env: &Env, driver: Address) -> (b: bool)
        ensures
            b == (env.identity@.drivers.contains_key(driver.id)
                && env.identity@.drivers[driver.id].status == DriverStatus::Suspended),
    {
        match env.identity.drivers.get(&driver.id) {
            Some(p) => p.status == DriverStatus::Suspended,
            None => false,
        }
    }
}

} // verus!
