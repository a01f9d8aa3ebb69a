//! Shared values of the protocol: account addresses, record types, statuses
//! and the error codes every contract reports.
use vstd::prelude::*;

verus! {

/// An account or contract address on the ledger. Addresses are only ever
/// compared for equality, so an address is identified by a number.
#[derive(Clone, Copy, Debug, PartialEq, Eq, Structural, Hash)]
pub struct Address {
    pub id: u64,
}

impl Address {
    pub fn new(id: u64) -> (a: Address)
        ensures
            a.id == id,
    {
        Address { id }
    }
}

/// Combines two 64-bit numbers into one 128-bit storage key.
pub open spec fn pair_key(a: u64, b: u64) -> u128 {
    (a * 0x1_0000_0000_0000_0000 + b) as u128
}

/// Distinct pairs give distinct storage keys.
pub proof fn lemma_pair_key_injective(a1: u64, b1: u64, a2: u64, b2: u64)
    ensures
        pair_key(a1, b1) == pair_key(a2, b2) <==> (a1 == a2 && b1 == b2),
{
    assert(a1 * 0x1_0000_0000_0000_0000 + b1 < 0x1_0000_0000_0000_0000_0000_0000_0000_0000) by (nonlinear_arith)
        requires a1 < 0x1_0000_0000_0000_0000, b1 < 0x1_0000_0000_0000_0000;
    assert(a2 * 0x1_0000_0000_0000_0000 + b2 < 0x1_0000_0000_0000_0000_0000_0000_0000_0000) by (nonlinear_arith)
        requires a2 < 0x1_0000_0000_0000_0000, b2 < 0x1_0000_0000_0000_0000;
    if a1 * 0x1_0000_0000_0000_0000 + b1 == a2 * 0x1_0000_0000_0000_0000 + b2 {
        assert(a1 == a2 && b1 == b2) by (nonlinear_arith)
            requires
                a1 * 0x1_0000_0000_0000_0000 + b1 == a2 * 0x1_0000_0000_0000_0000 + b2,
                0 <= b1 < 0x1_0000_0000_0000_0000,
                0 <= b2 < 0x1_0000_0000_0000_0000,
                0 <= a1, 0 <= a2;
    }
}

pub fn make_pair_key(a: u64, b: u64) -> (k: u128)
    ensures
        k == pair_key(a, b),
{
    assert(a * 0x1_0000_0000_0000_0000 + b < 0x1_0000_0000_0000_0000_0000_0000_0000_0000) by (nonlinear_arith)
        requires a < 0x1_0000_0000_0000_0000, b < 0x1_0000_0000_0000_0000;
    (a as u128) * 0x1_0000_0000_0000_0000u128 + (b as u128)
}


/// Errors shared by every contract of the protocol.
#[derive(Clone, Copy, Debug, PartialEq, Eq, Structural)]
pub enum FaniLabError {
    NotInitialized,
    AlreadyInitialized,
    Unauthorized,
    ProtocolPaused,
    InvalidState,
    DeliveryNotFound,
    ProviderNotFound,
    DuplicateDelivery,
    LimitExceeded,
}

/// Errors of the escrow contract.
#[derive(Clone, Copy, Debug, PartialEq, Eq, Structural)]
pub enum EscrowError {
    InvalidState,
    DeliveryNotFound,
    InsufficientFunds,
    DuplicateDelivery,
    InvalidFee,
    InvalidToken,
    InvalidAmount,
    NoPendingSettlementChange,
    TimelockNotElapsed,
    InvalidDriver,
    InvalidParties,
    BatchTooLarge,
}

impl EscrowError {
    /// The number each error is reported as.
    pub open spec fn spec_code(self) -> u32 {
        match self {
            EscrowError::InvalidState => 1,
            EscrowError::DeliveryNotFound => 2,
            EscrowError::InsufficientFunds => 3,
            EscrowError::DuplicateDelivery => 4,
            EscrowError::InvalidFee => 5,
            EscrowError::InvalidToken => 6,
            EscrowError::InvalidAmount => 7,
            EscrowError::NoPendingSettlementChange => 8,
            EscrowError::TimelockNotElapsed => 9,
            EscrowError::InvalidDriver => 10,
            EscrowError::InvalidParties => 11,
            EscrowError::BatchTooLarge => 12,
        }
    }

    /// The numeric error code the contract reports.
    pub fn code(&self) -> (c: u32)
        ensures
            c == self.spec_code(),
    {
        match self {
            EscrowError::InvalidState => 1,
            EscrowError::DeliveryNotFound => 2,
            EscrowError::InsufficientFunds => 3,
            EscrowError::DuplicateDelivery => 4,
            EscrowError::InvalidFee => 5,
            EscrowError::InvalidToken => 6,
            EscrowError::InvalidAmount => 7,
            EscrowError::NoPendingSettlementChange => 8,
            EscrowError::TimelockNotElapsed => 9,
            EscrowError::InvalidDriver => 10,
            EscrowError::InvalidParties => 11,
            EscrowError::BatchTooLarge => 12,
        }
    }
}

/// Errors of the delivery contract.
#[derive(Clone, Copy, Debug, PartialEq, Eq, Structural)]
pub enum DeliveryError {
    InvalidState,
    InvalidMetadata,
    /// A batch operation exceeded the batch size limit.
    BatchTooLarge,
    /// A driver address matched the delivery's sender or recipient.
    InvalidDriver,
    /// Sender and recipient must be different parties.
    InvalidParties,
}

impl DeliveryError {
    /// The number each error is reported as.
    pub open spec fn spec_code(self) -> u32 {
        match self {
            DeliveryError::InvalidState => 1,
            DeliveryError::InvalidMetadata => 2,
            DeliveryError::BatchTooLarge => 3,
            DeliveryError::InvalidDriver => 4,
            DeliveryError::InvalidParties => 5,
        }
    }

    /// The numeric error code the contract reports.
    pub fn code(&self) -> (c: u32)
        ensures
            c == self.spec_code(),
    {
        match self {
            DeliveryError::InvalidState => 1,
            DeliveryError::InvalidMetadata => 2,
            DeliveryError::BatchTooLarge => 3,
            DeliveryError::InvalidDriver => 4,
            DeliveryError::InvalidParties => 5,
        }
    }
}

/// Errors of the fleet management contract.
#[derive(Clone, Copy, Debug, PartialEq, Eq, Structural)]
pub enum FleetError {
    AlreadyInitialized,
    NotInitialized,
    Unauthorized,
    FleetNotFound,
    DriverAlreadyInvited,
    InviteNotFound,
    DriverAlreadyActive,
    NoPendingTreasuryChange,
    TimelockNotElapsed,
    FleetInactive,
    InvalidConfiguration,
}

impl FleetError {
    /// The number each error is reported as.
    pub open spec fn spec_code(self) -> u32 {
        match self {
            FleetError::AlreadyInitialized => 1,
            FleetError::NotInitialized => 2,
            FleetError::Unauthorized => 3,
            FleetError::FleetNotFound => 4,
            FleetError::DriverAlreadyInvited => 5,
            FleetError::InviteNotFound => 6,
            FleetError::DriverAlreadyActive => 7,
            FleetError::NoPendingTreasuryChange => 8,
            FleetError::TimelockNotElapsed => 9,
            FleetError::FleetInactive => 10,
            FleetError::InvalidConfiguration => 11,
        }
    }

    /// The numeric error code the contract reports.
    pub fn code(&self) -> (c: u32)
        ensures
            c == self.spec_code(),
    {
        match self {
            FleetError::AlreadyInitialized => 1,
            FleetError::NotInitialized => 2,
            FleetError::Unauthorized => 3,
            FleetError::FleetNotFound => 4,
            FleetError::DriverAlreadyInvited => 5,
            FleetError::InviteNotFound => 6,
            FleetError::DriverAlreadyActive => 7,
            FleetError::NoPendingTreasuryChange => 8,
            FleetError::TimelockNotElapsed => 9,
            FleetError::FleetInactive => 10,
            FleetError::InvalidConfiguration => 11,
        }
    }
}

/// Errors of the settlement contract.
#[derive(Clone, Copy, Debug, PartialEq, Eq, Structural)]
pub enum SettlementError {
    SwapNotImplemented,
}

impl SettlementError {
    /// The numeric error code the contract reports.
    pub fn code(&self) -> (c: u32)
        ensures
            c == 1,
    {
        1
    }
}

/// Failures of the payment token's ledger.
#[derive(Clone, Copy, Debug, PartialEq, Eq, Structural)]
pub enum TokenError {
    /// The payer holds less than the amount.
    InsufficientBalance,
    /// Transfers of a negative amount are refused.
    NegativeAmount,
    /// The payee's balance would leave the `i128` range.
    BalanceOverflow,
}

/// Why a contract call failed. A failed call leaves every contract's state
/// as it was before the call.
#[derive(Clone, Copy, Debug, PartialEq, Eq, Structural)]
pub enum ContractError {
    Fani(FaniLabError),
    Escrow(EscrowError),
    Delivery(DeliveryError),
    Fleet(FleetError),
    Settlement(SettlementError),
    Token(TokenError),
    /// An address whose authorization the call needs did not authorize it.
    AuthRequired,
    /// A cross-contract call was addressed to an address where no contract
    /// of the expected kind is deployed.
    MissingContract,
    /// An integer operation overflowed and aborted the call.
    ArithmeticOverflow,
}

/// Lifecycle of a delivery.
#[derive(Clone, Copy, Debug, PartialEq, Eq, Structural)]
pub enum DeliveryStatus {
    Pending,
    Active,
    InTransit,
    Delivered,
    Disputed,
    Cancelled,
}

/// Lifecycle of an escrow.
#[derive(Clone, Copy, Debug, PartialEq, Eq, Structural)]
pub enum EscrowStatus {
    Locked,
    Released,
    Refunded,
    Paused,
    Holdback,
    Split,
}

/// Whether a registered driver may work.
#[derive(Clone, Copy, Debug, PartialEq, Eq, Structural)]
pub enum DriverStatus {
    Active,
    Suspended,
}

/// Category of the goods carried.
#[derive(Clone, Copy, Debug, PartialEq, Eq, Structural)]
pub enum CargoCategory {
    General,
    Electronics,
}

/// What is carried.
#[derive(Clone, Copy, Debug, PartialEq, Eq, Structural)]
pub struct CargoDescriptor {
    pub weight_grams: u32,
    pub category: CargoCategory,
    pub fragile: bool,
}

/// Caller-supplied description of a delivery. Locations are byte strings.
#[derive(Clone, Debug, PartialEq, Eq)]
pub struct DeliveryMetadata {
    pub delivery_id: u64,
    pub origin: Vec<u8>,
    pub destination: Vec<u8>,
    pub cargo_description: CargoDescriptor,
    pub created_at: u64,
    pub estimated_delivery: u64,
}

/// Identifier of a delivery (and of the escrow that funds it).
pub type DeliveryId = u64;

/// A stored delivery.
#[derive(Clone, Debug, PartialEq, Eq)]
pub struct DeliveryRecord {
    pub delivery_id: DeliveryId,
    pub sender: Address,
    pub recipient: Address,
    pub driver: Option<Address>,
    pub status: DeliveryStatus,
    pub metadata: DeliveryMetadata,
    pub created_at: u64,
    pub delivered_at: Option<u64>,
    pub transit_started_at: Option<u64>,
}

/// A stored escrow.
#[derive(Clone, Copy, Debug, PartialEq, Eq, Structural)]
pub struct EscrowRecord {
    pub delivery_id: u64,
    pub sender: Address,
    pub recipient: Address,
    pub driver: Address,
    pub token: Address,
    pub amount: i128,
    pub status: EscrowStatus,
    pub created_at: u64,
    pub expires_at: Option<u64>,
    pub disputed_by: Option<Address>,
    pub disputed_at: Option<u64>,
    pub holdback_started_at: Option<u64>,
    pub fleet_id: Option<u64>,
}

/// The escrow contract's global configuration.
#[derive(Clone, Copy, Debug, PartialEq, Eq, Structural)]
pub struct ProtocolConfig {
    pub token: Address,
    pub platform_fee_bps: u32,
    pub protocol_version: u32,
    pub slippage_tolerance_bps: u32,
}

/// A driver's identity and reputation record.
#[derive(Clone, Copy, Debug, PartialEq, Eq, Structural)]
pub struct DriverProfile {
    pub address: Address,
    pub deliveries_completed: u32,
    pub reputation_score: u32,
    pub registered_at: u64,
    pub kyc_verified: bool,
    pub status: DriverStatus,
}

/// A sender's or recipient's identity record.
#[derive(Clone, Copy, Debug, PartialEq, Eq, Structural)]
pub struct UserProfile {
    pub address: Address,
    pub registered_at: u64,
}

} // verus!
