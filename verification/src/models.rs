//! The entities of the marketplace: properties, bids, leases and sale records.

use crate::text::{decimal, decimal_string};
use vstd::prelude::*;

verus! {

/// An account name. Two accounts are the same when their names hold the same
/// characters.
pub type AccountId = String;

/// Nanoseconds since the epoch, as the host reports them.
pub type Timestamp = u64;

/// Nanoseconds in one lease month of thirty days.
pub const NANOS_PER_MONTH: u64 = 2_592_000_000_000_000u64;

/// Where a lease stands with regard to disputes.
#[derive(Clone, Copy, Debug, PartialEq, Eq, Structural)]
pub enum DisputeStatus {
    /// No dispute has been raised.
    NoDispute,
    Raised,
    Resolved,
    PendingResponse,
}

/// The side for which a dispute is decided.
#[derive(Clone, Copy, Debug, PartialEq, Eq, Structural)]
pub enum DisputeWinner {
    Tenant,
    Owner,
}

/// What a bid is for.
#[derive(Clone, Copy, Debug, PartialEq, Eq, Structural)]
pub enum Action {
    Purchase,
    Lease,
}

/// Where a bid stands in its life cycle.
#[derive(Clone, Copy, Debug, PartialEq, Eq, Structural)]
pub enum BidStatus {
    Pending,
    Accepted,
    DocsReleased,
    DocsConfirmed,
    PaymentReleased,
    Completed,
    Rejected,
    Cancelled,
    Disputed,
}

impl BidStatus {
    /// A terminal status is never left by accept, reject, cancel or timeout refund.
    pub open spec fn is_terminal(self) -> bool {
        self == BidStatus::Rejected || self == BidStatus::Cancelled || self == BidStatus::Completed
            || self == BidStatus::Disputed
    }

    /// An accepted bid that has not yet been settled or abandoned.
    pub open spec fn is_in_flight(self) -> bool {
        self == BidStatus::Accepted || self == BidStatus::DocsReleased || self
            == BidStatus::DocsConfirmed || self == BidStatus::PaymentReleased
    }

    /// Whether the status is terminal.
    pub fn terminal(self) -> (r: bool)
        ensures
            r == self.is_terminal(),
    {
        match self {
            BidStatus::Rejected | BidStatus::Cancelled | BidStatus::Completed | BidStatus::Disputed => true,
            _ => false,
        }
    }

    /// Whether the status is that of an accepted bid that is not yet settled or abandoned.
    pub fn in_flight(self) -> (r: bool)
        ensures
            r == self.is_in_flight(),
    {
        match self {
            BidStatus::Accepted | BidStatus::DocsReleased | BidStatus::DocsConfirmed | BidStatus::PaymentReleased => true,
            _ => false,
        }
    }
}

/// Why an operation was refused. Unless an operation says otherwise, a refused
/// operation leaves the store as it was.
#[derive(Clone, Copy, Debug, PartialEq, Eq, Structural)]
pub enum ContractError {
    PropertyNotFound,
    NotPropertyOwner,
    InvalidBidAmount,
    LeaseNotActive,
    UnauthorizedAccess,
    DisputeAlreadyRaised,
    LeaseNotFound,
    InvalidPaymentToken,
    IncorrectBidAmount { expected: u128, received: u128 },
    UnsupportedToken,
    PropertyNotListed,
    BidNotFound,
    NotBidder,
    InvalidBidStatus,
    BidAlreadyAccepted,
    ReentrancyLocked,
    NoPendingTransfer,
    TimeoutNotReached,
    TimestampOverflow,
    PropertyNotSettled,
    BidAlreadySettled,
    TransferFailed,
    BalanceUnderflow,
    BalanceOverflow,
    CounterOverflow,
    PropertyForSale,
    PropertyHasActiveLease,
    PropertySold,
    PropertyNotSold,
    PropertyHasBids,
}

/// The record of a completed sale. It is written once and never changed.
#[derive(Debug, PartialEq, Eq)]
pub struct Sold {
    pub property_id: u64,
    pub buyer_id: AccountId,
    pub amount: u128,
    pub previous_owner_id: AccountId,
    pub sold_at: Timestamp,
}

/// Who raised a dispute on a lease, when and why, and what was heard on it.
#[derive(Debug, PartialEq, Eq)]
pub struct DisputeInfo {
    pub raised_by: AccountId,
    pub reason: String,
    pub raised_at: Timestamp,
    pub votes_for_tenant: u32,
    pub votes_for_owner: u32,
    pub oracle_result: Option<DisputeWinner>,
}

/// How a dispute ended: kept for audit.
#[derive(Debug, PartialEq, Eq)]
pub struct DisputeResolution {
    pub winner: DisputeWinner,
    pub payout: u128,
    pub resolved_by: AccountId,
    pub resolved_at: Timestamp,
}

/// A lease of a property, with the escrow it holds. It is never deleted, only made inactive.
#[derive(Debug, PartialEq, Eq)]
pub struct Lease {
    pub id: u64,
    pub property_id: u64,
    pub tenant_id: AccountId,
    pub start_time: Timestamp,
    pub end_time: Timestamp,
    pub active: bool,
    pub dispute_status: DisputeStatus,
    pub dispute: Option<DisputeInfo>,
    pub resolution: Option<DisputeResolution>,
    pub escrow_held: u128,
    pub escrow_token: AccountId,
}

/// A property that is listed in the marketplace.
#[derive(Debug, PartialEq, Eq)]
pub struct Property {
    pub id: u64,
    pub owner_id: AccountId,
    pub description: String,
    pub metadata_uri: String,
    pub is_for_sale: bool,
    pub price: u128,
    pub lease_duration_months: Option<u64>,
    pub damage_escrow: u128,
    /// The token in which the price is meant; `None` where every accepted
    /// token will do.
    pub escrow_token: Option<AccountId>,
    pub active_lease: Option<Lease>,
    pub timestamp: Timestamp,
    pub sold: Option<Sold>,
}

/// A bid on a property. It is never deleted: it moves from status to status.
#[derive(Debug, PartialEq, Eq)]
pub struct Bid {
    pub id: u64,
    pub bidder: AccountId,
    pub property_id: u64,
    pub amount: u128,
    pub created_at: Timestamp,
    pub updated_at: Timestamp,
    pub expires_at: Option<Timestamp>,
    pub action: Action,
    pub stablecoin_token: AccountId,
    pub status: BidStatus,
    pub document_ref: Option<String>,
    pub dispute_reason: Option<String>,
    pub settled_at: Option<Timestamp>,
}

/// The message that comes with a deposit.
#[derive(Debug, PartialEq, Eq)]
pub struct BidAction {
    pub property_id: u64,
    pub action: Action,
    pub stablecoin_token: AccountId,
}

/// The delays that the contract applies, in nanoseconds; zero switches one off.
#[derive(Clone, Copy, Debug, PartialEq, Eq, Structural)]
pub struct TimeLockConfig {
    pub bid_expiry_ns: u64,
    pub escrow_release_delay_ns: u64,
    pub lost_bid_claim_delay_ns: u64,
}

/// How a token transfer that the host was asked for has ended.
#[derive(Clone, Copy, Debug, PartialEq, Eq, Structural)]
pub enum TransferOutcome {
    Success,
    Failure,
}

/// A token transfer that the host has to issue on behalf of a bid. Its
/// outcome is reported back for the same property and bid.
#[derive(Debug, PartialEq, Eq)]
pub struct TransferRequest {
    pub token: AccountId,
    pub receiver_id: AccountId,
    pub amount: u128,
    pub property_id: u64,
    pub bid_id: u64,
}

/// A token transfer that belongs to no bid: a withdrawal or the payout of a
/// dispute. Its failure is reported back with the token and the amount.
#[derive(Debug, PartialEq, Eq)]
pub struct WithdrawRequest {
    pub token: AccountId,
    pub receiver_id: AccountId,
    pub amount: u128,
}

/// What the resolution of a dispute asks of the host: the payout, whose
/// failure is reported back with the token and the amount, and the change of
/// owner that gives the property back where the lease was still active.
#[derive(Debug, PartialEq, Eq)]
pub struct DisputeReport {
    pub payout: WithdrawRequest,
    pub ownership: Option<OwnershipTransfer>,
}

/// A change of owner that the host has to make in the ownership registry.
#[derive(Debug, PartialEq, Eq)]
pub struct OwnershipTransfer {
    pub property_id: u64,
    pub from: AccountId,
    pub to: AccountId,
}

/// What a sweep over the leases did: the changes of owner that the host has
/// to make in the registry, and the lease id at which a later sweep goes on.
#[derive(Debug, PartialEq, Eq)]
pub struct LeaseSweepReport {
    pub transfers: Vec<OwnershipTransfer>,
    pub next_index: u64,
}

/// What a batch of refunds did: the refunds that the host has to issue, each
/// with its outcome due at the refund callback, and the place in the list of
/// bids at which a later batch goes on.
#[derive(Debug, PartialEq, Eq)]
pub struct SweepReport {
    pub refunds: Vec<TransferRequest>,
    pub next_index: u64,
}

/// What a confirmed payout did: the change of owner that the host has to make
/// in the registry, and the refunds of the bids that lost.
#[derive(Debug, PartialEq, Eq)]
pub struct SettlementReport {
    pub ownership: OwnershipTransfer,
    pub refunds: Vec<TransferRequest>,
    pub next_index: u64,
}

/// The name of an error, as its variant is written.
pub open spec fn error_name(e: ContractError) -> Seq<char> {
    match e {
        ContractError::PropertyNotFound => "PropertyNotFound"@,
        ContractError::NotPropertyOwner => "NotPropertyOwner"@,
        ContractError::InvalidBidAmount => "InvalidBidAmount"@,
        ContractError::LeaseNotActive => "LeaseNotActive"@,
        ContractError::UnauthorizedAccess => "UnauthorizedAccess"@,
        ContractError::DisputeAlreadyRaised => "DisputeAlreadyRaised"@,
        ContractError::LeaseNotFound => "LeaseNotFound"@,
        ContractError::InvalidPaymentToken => "InvalidPaymentToken"@,
        ContractError::UnsupportedToken => "UnsupportedToken"@,
        ContractError::PropertyNotListed => "PropertyNotListed"@,
        ContractError::BidNotFound => "BidNotFound"@,
        ContractError::NotBidder => "NotBidder"@,
        ContractError::InvalidBidStatus => "InvalidBidStatus"@,
        ContractError::BidAlreadyAccepted => "BidAlreadyAccepted"@,
        ContractError::ReentrancyLocked => "ReentrancyLocked"@,
        ContractError::NoPendingTransfer => "NoPendingTransfer"@,
        ContractError::TimeoutNotReached => "TimeoutNotReached"@,
        ContractError::TimestampOverflow => "TimestampOverflow"@,
        ContractError::PropertyNotSettled => "PropertyNotSettled"@,
        ContractError::BidAlreadySettled => "BidAlreadySettled"@,
        ContractError::TransferFailed => "TransferFailed"@,
        ContractError::BalanceUnderflow => "BalanceUnderflow"@,
        ContractError::BalanceOverflow => "BalanceOverflow"@,
        ContractError::CounterOverflow => "CounterOverflow"@,
        ContractError::PropertyForSale => "PropertyForSale"@,
        ContractError::PropertyHasActiveLease => "PropertyHasActiveLease"@,
        ContractError::PropertySold => "PropertySold"@,
        ContractError::PropertyNotSold => "PropertyNotSold"@,
        ContractError::PropertyHasBids => "PropertyHasBids"@,
        ContractError::IncorrectBidAmount { .. } => "IncorrectBidAmount"@,
    }
}

/// The message of an error, for a reader.
pub open spec fn error_message(e: ContractError) -> Seq<char> {
    match e {
        ContractError::PropertyNotFound => "Property not found"@,
        ContractError::NotPropertyOwner => "Not property owner"@,
        ContractError::InvalidBidAmount => "Invalid bid amount"@,
        ContractError::LeaseNotActive => "Lease not active"@,
        ContractError::UnauthorizedAccess => "Unauthorized access"@,
        ContractError::DisputeAlreadyRaised => "Dispute already raised"@,
        ContractError::LeaseNotFound => "Lease not found"@,
        ContractError::InvalidPaymentToken => "Invalid payment token"@,
        ContractError::UnsupportedToken => "Unsupported token"@,
        ContractError::PropertyNotListed => "Property not listed"@,
        ContractError::BidNotFound => "Bid not found"@,
        ContractError::NotBidder => "Not bidder"@,
        ContractError::InvalidBidStatus => "Invalid bid status"@,
        ContractError::BidAlreadyAccepted => "Bid already accepted"@,
        ContractError::ReentrancyLocked => "Reentrancy locked"@,
        ContractError::NoPendingTransfer => "No pending transfer"@,
        ContractError::TimeoutNotReached => "Timeout not reached"@,
        ContractError::TimestampOverflow => "Timestamp overflow"@,
        ContractError::PropertyNotSettled => "Property not settled"@,
        ContractError::BidAlreadySettled => "Bid already settled"@,
        ContractError::TransferFailed => "Transfer failed"@,
        ContractError::BalanceUnderflow => "Balance underflow"@,
        ContractError::BalanceOverflow => "Balance overflow"@,
        ContractError::CounterOverflow => "Counter overflow"@,
        ContractError::PropertyForSale => "Property is currently for sale"@,
        ContractError::PropertyHasActiveLease => "Property has an active lease"@,
        ContractError::PropertySold => "Property is sold"@,
        ContractError::PropertyNotSold => "Property is not sold"@,
        ContractError::PropertyHasBids => "Property has bids"@,
        ContractError::IncorrectBidAmount { expected, received } =>
            "Incorrect bid amount: expected "@ + decimal(expected as nat) + ", received "@ + decimal(
                received as nat,
            ),
    }
}

impl ContractError {
    /// The name of the error.
    pub fn as_ref(&self) -> (r: &'static str)
        ensures
            r@ == error_name(*self),
    {
        match self {
            ContractError::PropertyNotFound => "PropertyNotFound",
            ContractError::NotPropertyOwner => "NotPropertyOwner",
            ContractError::InvalidBidAmount => "InvalidBidAmount",
            ContractError::LeaseNotActive => "LeaseNotActive",
            ContractError::UnauthorizedAccess => "UnauthorizedAccess",
            ContractError::DisputeAlreadyRaised => "DisputeAlreadyRaised",
            ContractError::LeaseNotFound => "LeaseNotFound",
            ContractError::InvalidPaymentToken => "InvalidPaymentToken",
            ContractError::UnsupportedToken => "UnsupportedToken",
            ContractError::PropertyNotListed => "PropertyNotListed",
            ContractError::BidNotFound => "BidNotFound",
            ContractError::NotBidder => "NotBidder",
            ContractError::InvalidBidStatus => "InvalidBidStatus",
            ContractError::BidAlreadyAccepted => "BidAlreadyAccepted",
            ContractError::ReentrancyLocked => "ReentrancyLocked",
            ContractError::NoPendingTransfer => "NoPendingTransfer",
            ContractError::TimeoutNotReached => "TimeoutNotReached",
            ContractError::TimestampOverflow => "TimestampOverflow",
            ContractError::PropertyNotSettled => "PropertyNotSettled",
            ContractError::BidAlreadySettled => "BidAlreadySettled",
            ContractError::TransferFailed => "TransferFailed",
            ContractError::BalanceUnderflow => "BalanceUnderflow",
            ContractError::BalanceOverflow => "BalanceOverflow",
            ContractError::CounterOverflow => "CounterOverflow",
            ContractError::PropertyForSale => "PropertyForSale",
            ContractError::PropertyHasActiveLease => "PropertyHasActiveLease",
            ContractError::PropertySold => "PropertySold",
            ContractError::PropertyNotSold => "PropertyNotSold",
            ContractError::PropertyHasBids => "PropertyHasBids",
            ContractError::IncorrectBidAmount { .. } => "IncorrectBidAmount",
        }
    }

    /// The message of the error.
    pub fn message(&self) -> (r: String)
        ensures
            r@ == error_message(*self),
    {
        match self {
            ContractError::IncorrectBidAmount { expected, received } => {
                let head: String = String::from_str("Incorrect bid amount: expected ");
                let with_expected: String = head.concat(decimal_string(*expected).as_str());
                let with_middle: String = with_expected.concat(", received ");
                let r: String = with_middle.concat(decimal_string(*received).as_str());
                proof {
                    assert(r@ =~= error_message(*self));
                }
                r
            },
            ContractError::PropertyNotFound => String::from_str("Property not found"),
            ContractError::NotPropertyOwner => String::from_str("Not property owner"),
            ContractError::InvalidBidAmount => String::from_str("Invalid bid amount"),
            ContractError::LeaseNotActive => String::from_str("Lease not active"),
            ContractError::UnauthorizedAccess => String::from_str("Unauthorized access"),
            ContractError::DisputeAlreadyRaised => String::from_str("Dispute already raised"),
            ContractError::LeaseNotFound => String::from_str("Lease not found"),
            ContractError::InvalidPaymentToken => String::from_str("Invalid payment token"),
            ContractError::UnsupportedToken => String::from_str("Unsupported token"),
            ContractError::PropertyNotListed => String::from_str("Property not listed"),
            ContractError::BidNotFound => String::from_str("Bid not found"),
            ContractError::NotBidder => String::from_str("Not bidder"),
            ContractError::InvalidBidStatus => String::from_str("Invalid bid status"),
            ContractError::BidAlreadyAccepted => String::from_str("Bid already accepted"),
            ContractError::ReentrancyLocked => String::from_str("Reentrancy locked"),
            ContractError::NoPendingTransfer => String::from_str("No pending transfer"),
            ContractError::TimeoutNotReached => String::from_str("Timeout not reached"),
            ContractError::TimestampOverflow => String::from_str("Timestamp overflow"),
            ContractError::PropertyNotSettled => String::from_str("Property not settled"),
            ContractError::BidAlreadySettled => String::from_str("Bid already settled"),
            ContractError::TransferFailed => String::from_str("Transfer failed"),
            ContractError::BalanceUnderflow => String::from_str("Balance underflow"),
            ContractError::BalanceOverflow => String::from_str("Balance overflow"),
            ContractError::CounterOverflow => String::from_str("Counter overflow"),
            ContractError::PropertyForSale => String::from_str("Property is currently for sale"),
            ContractError::PropertyHasActiveLease => String::from_str("Property has an active lease"),
            ContractError::PropertySold => String::from_str("Property is sold"),
            ContractError::PropertyNotSold => String::from_str("Property is not sold"),
            ContractError::PropertyHasBids => String::from_str("Property has bids"),
        }
    }
}

/// A copy of an optional text.
pub fn clone_opt_string(s: &Option<String>) -> (r: Option<String>)
    ensures
        r == *s,
{
    match s {
        Some(x) => Some(x.clone()),
        None => None,
    }
}

impl Clone for Sold {
    fn clone(&self) -> (r: Self)
        ensures
            r == *self,
    {
        Sold {
            property_id: self.property_id,
            buyer_id: self.buyer_id.clone(),
            amount: self.amount,
            previous_owner_id: self.previous_owner_id.clone(),
            sold_at: self.sold_at,
        }
    }
}

impl Clone for DisputeInfo {
    fn clone(&self) -> (r: Self)
        ensures
            r == *self,
    {
        DisputeInfo {
            raised_by: self.raised_by.clone(),
            reason: self.reason.clone(),
            raised_at: self.raised_at,
            votes_for_tenant: self.votes_for_tenant,
            votes_for_owner: self.votes_for_owner,
            oracle_result: self.oracle_result,
        }
    }
}

impl Clone for DisputeResolution {
    fn clone(&self) -> (r: Self)
        ensures
            r == *self,
    {
        DisputeResolution {
            winner: self.winner,
            payout: self.payout,
            resolved_by: self.resolved_by.clone(),
            resolved_at: self.resolved_at,
        }
    }
}

impl Clone for TransferRequest {
    fn clone(&self) -> (r: Self)
        ensures
            r == *self,
    {
        TransferRequest {
            token: self.token.clone(),
            receiver_id: self.receiver_id.clone(),
            amount: self.amount,
            property_id: self.property_id,
            bid_id: self.bid_id,
        }
    }
}

impl Clone for WithdrawRequest {
    fn clone(&self) -> (r: Self)
        ensures
            r == *self,
    {
        WithdrawRequest {
            token: self.token.clone(),
            receiver_id: self.receiver_id.clone(),
            amount: self.amount,
        }
    }
}

impl Clone for OwnershipTransfer {
    fn clone(&self) -> (r: Self)
        ensures
            r == *self,
    {
        OwnershipTransfer {
            property_id: self.property_id,
            from: self.from.clone(),
            to: self.to.clone(),
        }
    }
}

impl Clone for Lease {
    fn clone(&self) -> (r: Self)
        ensures
            r == *self,
    {
        let dispute = match &self.dispute {
            Some(d) => Some(d.clone()),
            None => None,
        };
        let resolution = match &self.resolution {
            Some(d) => Some(d.clone()),
            None => None,
        };
        Lease {
            id: self.id,
            property_id: self.property_id,
            tenant_id: self.tenant_id.clone(),
            start_time: self.start_time,
            end_time: self.end_time,
            active: self.active,
            dispute_status: self.dispute_status,
            dispute,
            resolution,
            escrow_held: self.escrow_held,
            escrow_token: self.escrow_token.clone(),
        }
    }
}

impl Clone for Property {
    fn clone(&self) -> (r: Self)
        ensures
            r == *self,
    {
        let active_lease = match &self.active_lease {
            Some(l) => Some(l.clone()),
            None => None,
        };
        let sold = match &self.sold {
            Some(s) => Some(s.clone()),
            None => None,
        };
        Property {
            id: self.id,
            owner_id: self.owner_id.clone(),
            description: self.description.clone(),
            metadata_uri: self.metadata_uri.clone(),
            is_for_sale: self.is_for_sale,
            price: self.price,
            lease_duration_months: self.lease_duration_months,
            damage_escrow: self.damage_escrow,
            escrow_token: clone_opt_string(&self.escrow_token),
            active_lease,
            timestamp: self.timestamp,
            sold,
        }
    }
}

impl Clone for Bid {
    fn clone(&self) -> (r: Self)
        ensures
            r == *self,
    {
        Bid {
            id: self.id,
            bidder: self.bidder.clone(),
            property_id: self.property_id,
            amount: self.amount,
            created_at: self.created_at,
            updated_at: self.updated_at,
            expires_at: self.expires_at,
            action: self.action,
            stablecoin_token: self.stablecoin_token.clone(),
            status: self.status,
            document_ref: clone_opt_string(&self.document_ref),
            dispute_reason: clone_opt_string(&self.dispute_reason),
            settled_at: self.settled_at,
        }
    }
}

impl Clone for BidAction {
    fn clone(&self) -> (r: Self)
        ensures
            r == *self,
    {
        BidAction {
            property_id: self.property_id,
            action: self.action,
            stablecoin_token: self.stablecoin_token.clone(),
        }
    }
}

// ----- what a reader of the store is shown -----

/// A sale record as it is shown.
#[derive(Debug, PartialEq, Eq)]
pub struct SoldView {
    pub property_id: u64,
    pub buyer_id: String,
    pub amount: u128,
    pub previous_owner_id: String,
    pub sold_at: Timestamp,
}

/// A lease as it is shown.
#[derive(Debug, PartialEq, Eq)]
pub struct LeaseView {
    pub id: u64,
    pub property_id: u64,
    pub tenant_id: String,
    pub start_time: Timestamp,
    pub end_time: Timestamp,
    pub active: bool,
    pub dispute_status: DisputeStatus,
    pub escrow_held: u128,
}

/// A property as it is shown.
#[derive(Debug, PartialEq, Eq)]
pub struct PropertyView {
    pub id: u64,
    pub owner_id: String,
    pub description: String,
    pub metadata_uri: String,
    pub is_for_sale: bool,
    pub price: u128,
    pub lease_duration_nanos: Option<u64>,
    pub damage_escrow: u128,
    pub active_lease: Option<LeaseView>,
    pub timestamp: Timestamp,
    pub sold: Option<SoldView>,
}

/// A bid as it is shown.
#[derive(Debug, PartialEq, Eq)]
pub struct BidView {
    pub id: u64,
    pub bidder_id: String,
    pub property_id: u64,
    pub bid_amount: u128,
    pub created_at: Timestamp,
    pub action: Action,
    pub stablecoin_token: String,
}

impl Sold {
    /// The sale record as it is shown.
    pub open spec fn as_view(self) -> SoldView {
        SoldView {
            property_id: self.property_id,
            buyer_id: self.buyer_id,
            amount: self.amount,
            previous_owner_id: self.previous_owner_id,
            sold_at: self.sold_at,
        }
    }

    /// The sale record as it is shown.
    pub fn to_view(&self) -> (r: SoldView)
        ensures
            r == self.as_view(),
    {
        SoldView {
            property_id: self.property_id,
            buyer_id: self.buyer_id.clone(),
            amount: self.amount,
            previous_owner_id: self.previous_owner_id.clone(),
            sold_at: self.sold_at,
        }
    }
}

impl Lease {
    /// The lease as it is shown.
    pub open spec fn as_view(self) -> LeaseView {
        LeaseView {
            id: self.id,
            property_id: self.property_id,
            tenant_id: self.tenant_id,
            start_time: self.start_time,
            end_time: self.end_time,
            active: self.active,
            dispute_status: self.dispute_status,
            escrow_held: self.escrow_held,
        }
    }

    /// The lease as it is shown.
    pub fn to_view(&self) -> (r: LeaseView)
        ensures
            r == self.as_view(),
    {
        LeaseView {
            id: self.id,
            property_id: self.property_id,
            tenant_id: self.tenant_id.clone(),
            start_time: self.start_time,
            end_time: self.end_time,
            active: self.active,
            dispute_status: self.dispute_status,
            escrow_held: self.escrow_held,
        }
    }
}

impl Property {
    /// The property as it is shown.
    pub open spec fn as_view(self) -> PropertyView {
        PropertyView {
            id: self.id,
            owner_id: self.owner_id,
            description: self.description,
            metadata_uri: self.metadata_uri,
            is_for_sale: self.is_for_sale,
            price: self.price,
            lease_duration_nanos: self.lease_duration_months,
            damage_escrow: self.damage_escrow,
            active_lease: match self.active_lease {
                Some(l) => Some(l.as_view()),
                None => None,
            },
            timestamp: self.timestamp,
            sold: match self.sold {
                Some(s) => Some(s.as_view()),
                None => None,
            },
        }
    }

    /// The property as it is shown.
    pub fn to_view(&self) -> (r: PropertyView)
        ensures
            r == self.as_view(),
    {
        let active_lease: Option<LeaseView> = match &self.active_lease {
            Some(l) => Some(l.to_view()),
            None => None,
        };
        let sold: Option<SoldView> = match &self.sold {
            Some(s) => Some(s.to_view()),
            None => None,
        };
        PropertyView {
            id: self.id,
            owner_id: self.owner_id.clone(),
            description: self.description.clone(),
            metadata_uri: self.metadata_uri.clone(),
            is_for_sale: self.is_for_sale,
            price: self.price,
            lease_duration_nanos: self.lease_duration_months,
            damage_escrow: self.damage_escrow,
            active_lease,
            timestamp: self.timestamp,
            sold,
        }
    }
}

impl Bid {
    /// The bid as it is shown.
    pub open spec fn as_view(self) -> BidView {
        BidView {
            id: self.id,
            bidder_id: self.bidder,
            property_id: self.property_id,
            bid_amount: self.amount,
            created_at: self.created_at,
            action: self.action,
            stablecoin_token: self.stablecoin_token,
        }
    }

    /// The bid as it is shown.
    pub fn to_view(&self) -> (r: BidView)
        ensures
            r == self.as_view(),
    {
        BidView {
            id: self.id,
            bidder_id: self.bidder.clone(),
            property_id: self.property_id,
            bid_amount: self.amount,
            created_at: self.created_at,
            action: self.action,
            stablecoin_token: self.stablecoin_token.clone(),
        }
    }
}

} // verus!
