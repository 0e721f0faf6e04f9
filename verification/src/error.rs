//! The errors of the lifecycle rules, with the messages they carry.

use crate::text::{decimal_string, decimal_text};
use vstd::prelude::*;
use vstd::string::StringExecFns;

verus! {

/// Why an operation was refused. An operation that returns one of these has
/// changed nothing.
#[derive(Debug, PartialEq, Eq)]
pub enum ContractError {
    /// No record is stored under the key that the operation needs.
    NotFound { msg: String },
    /// The stored state rules the operation out.
    Conflict { msg: String },
    /// The payment is not the one that the operation requires.
    InvalidPayment { msg: String },
    /// The access-control collaborator refused the sender.
    Unauthorized,
    /// The embedded instruction could not be decoded.
    Decode,
    /// The id counter has no successor.
    Overflow,
}

/// The mathematical value of an error.
pub ghost enum ErrorView {
    NotFound { msg: Seq<char> },
    Conflict { msg: Seq<char> },
    InvalidPayment { msg: Seq<char> },
    Unauthorized,
    Decode,
    Overflow,
}

impl View for ContractError {
    type V = ErrorView;

    open spec fn view(&self) -> ErrorView {
        match self {
            ContractError::NotFound { msg } => ErrorView::NotFound { msg: msg@ },
            ContractError::Conflict { msg } => ErrorView::Conflict { msg: msg@ },
            ContractError::InvalidPayment { msg } => ErrorView::InvalidPayment { msg: msg@ },
            ContractError::Unauthorized => ErrorView::Unauthorized,
            ContractError::Decode => ErrorView::Decode,
            ContractError::Overflow => ErrorView::Overflow,
        }
    }
}

impl ErrorView {
    /// The message that a person reads.
    pub open spec fn text(self) -> Seq<char> {
        match self {
            ErrorView::NotFound { msg } => msg,
            ErrorView::Conflict { msg } => msg,
            ErrorView::InvalidPayment { msg } => msg,
            ErrorView::Unauthorized => "Unauthorized"@,
            ErrorView::Decode => "Could not decode the hook message"@,
            ErrorView::Overflow => "Overflow"@,
        }
    }
}

/// Message for funds attached to a message that takes none.
pub open spec fn funds_not_accepted_text() -> Seq<char> {
    "This message does no accept funds"@
}

/// Message for a transfer of nothing.
pub open spec fn zero_amount_text() -> Seq<char> {
    "Cannot send a 0 amount."@
}

/// Message for a subscription to an offering that nobody registered.
pub open spec fn offering_not_found_text(nft_address: Seq<char>) -> Seq<char> {
    "No subscription offering found for creator address "@ + nft_address + "."@
}

/// Message for an offering that is itself flagged active.
pub open spec fn offering_active_text() -> Seq<char> {
    "This subscription is already marked as active."@
}

/// Message for a second subscription of one subscriber to one offering.
pub open spec fn already_subscribed_text(nft_address: Seq<char>) -> Seq<char> {
    "You already have a subscription to "@ + nft_address
        + " offering. Please renew (if inactive) or cancel it."@
}

/// Message for a payment that is not exactly the fee.
pub open spec fn wrong_amount_text(expected: u128, received: u128) -> Seq<char> {
    "Invalid payment amount. Expected "@ + decimal_text(expected as nat) + ", received "@
        + decimal_text(received as nat) + "."@
}

/// Message for a renewal of a subscription that does not exist.
pub open spec fn renewal_not_found_text(nft_address: Seq<char>, subscriber: Seq<char>) -> Seq<
    char,
> {
    "No subscription found for creator address "@ + nft_address + " and subscriber "@ + subscriber
        + "."@
}

/// Message for a renewal of a subscription that is still active.
pub open spec fn already_active_text() -> Seq<char> {
    "Subscription is already active."@
}

/// Message for a second registration of one offering.
pub open spec fn offering_exists_text() -> Seq<char> {
    "Subscription offering already exists for this NFT."@
}

/// Message for a cancellation of a subscription that does not exist.
pub open spec fn cancel_not_found_text(nft_address: Seq<char>, subscriber: Seq<char>) -> Seq<
    char,
> {
    "No subscription found for address "@ + nft_address + " and subscriber "@ + subscriber + "."@
}

/// Message for a cancellation of a subscription that is not active.
pub open spec fn already_inactive_text() -> Seq<char> {
    "Subscription is already inactive."@
}

/// Message for a query of a subscription that does not exist.
pub open spec fn query_not_found_text(creator: Seq<char>, subscriber: Seq<char>) -> Seq<char> {
    "No subscription found for creator '"@ + creator + "' and subscriber '"@ + subscriber + "'."@
}

impl ContractError {
    /// The message that a person reads.
    pub fn message(&self) -> (r: String)
        ensures
            r@ == self@.text(),
    {
        match self {
            ContractError::NotFound { msg } => msg.clone(),
            ContractError::Conflict { msg } => msg.clone(),
            ContractError::InvalidPayment { msg } => msg.clone(),
            ContractError::Unauthorized => String::from_str("Unauthorized"),
            ContractError::Decode => String::from_str("Could not decode the hook message"),
            ContractError::Overflow => String::from_str("Overflow"),
        }
    }

    /// Funds were attached to a message that takes none.
    pub fn funds_not_accepted() -> (e: ContractError)
        ensures
            e@ == (ErrorView::InvalidPayment { msg: funds_not_accepted_text() }),
    {
        ContractError::InvalidPayment { msg: String::from_str("This message does no accept funds") }
    }

    /// Nothing was transferred.
    pub fn zero_amount() -> (e: ContractError)
        ensures
            e@ == (ErrorView::InvalidPayment { msg: zero_amount_text() }),
    {
        ContractError::InvalidPayment { msg: String::from_str("Cannot send a 0 amount.") }
    }

    /// Nobody registered the offering of `nft_address`.
    pub fn offering_not_found(nft_address: &str) -> (e: ContractError)
        ensures
            e@ == (ErrorView::NotFound { msg: offering_not_found_text(nft_address@) }),
    {
        let msg = String::from_str("No subscription offering found for creator address ").concat(
            nft_address,
        ).concat(".");
        ContractError::NotFound { msg }
    }

    /// The offering is itself flagged active.
    pub fn offering_active() -> (e: ContractError)
        ensures
            e@ == (ErrorView::Conflict { msg: offering_active_text() }),
    {
        ContractError::Conflict {
            msg: String::from_str("This subscription is already marked as active."),
        }
    }

    /// The subscriber has a record for the offering of `nft_address` already.
    pub fn already_subscribed(nft_address: &str) -> (e: ContractError)
        ensures
            e@ == (ErrorView::Conflict { msg: already_subscribed_text(nft_address@) }),
    {
        let msg = String::from_str("You already have a subscription to ").concat(
            nft_address,
        ).concat(" offering. Please renew (if inactive) or cancel it.");
        ContractError::Conflict { msg }
    }

    /// `received` was paid where the fee is `expected`.
    pub fn wrong_amount(expected: u128, received: u128) -> (e: ContractError)
        ensures
            e@ == (ErrorView::InvalidPayment { msg: wrong_amount_text(expected, received) }),
    {
        let expected_text = decimal_string(expected);
        let received_text = decimal_string(received);
        let msg = String::from_str("Invalid payment amount. Expected ").concat(
            expected_text.as_str(),
        ).concat(", received ").concat(received_text.as_str()).concat(".");
        ContractError::InvalidPayment { msg }
    }

    /// There is no subscription of `subscriber` to `nft_address` to renew.
    pub fn renewal_not_found(nft_address: &str, subscriber: &str) -> (e: ContractError)
        ensures
            e@ == (ErrorView::NotFound { msg: renewal_not_found_text(nft_address@, subscriber@) }),
    {
        let msg = String::from_str("No subscription found for creator address ").concat(
            nft_address,
        ).concat(" and subscriber ").concat(subscriber).concat(".");
        ContractError::NotFound { msg }
    }

    /// The subscription to renew is still active.
    pub fn already_active() -> (e: ContractError)
        ensures
            e@ == (ErrorView::Conflict { msg: already_active_text() }),
    {
        ContractError::Conflict { msg: String::from_str("Subscription is already active.") }
    }

    /// The offering is registered already.
    pub fn offering_exists() -> (e: ContractError)
        ensures
            e@ == (ErrorView::Conflict { msg: offering_exists_text() }),
    {
        ContractError::Conflict {
            msg: String::from_str("Subscription offering already exists for this NFT."),
        }
    }

    /// There is no subscription of `subscriber` to `nft_address` to cancel.
    pub fn cancel_not_found(nft_address: &str, subscriber: &str) -> (e: ContractError)
        ensures
            e@ == (ErrorView::NotFound { msg: cancel_not_found_text(nft_address@, subscriber@) }),
    {
        let msg = String::from_str("No subscription found for address ").concat(
            nft_address,
        ).concat(" and subscriber ").concat(subscriber).concat(".");
        ContractError::NotFound { msg }
    }

    /// The subscription to cancel is not active.
    pub fn already_inactive() -> (e: ContractError)
        ensures
            e@ == (ErrorView::Conflict { msg: already_inactive_text() }),
    {
        ContractError::Conflict { msg: String::from_str("Subscription is already inactive.") }
    }

    /// There is no record under `creator` and `subscriber`.
    pub fn query_not_found(creator: &str, subscriber: &str) -> (e: ContractError)
        ensures
            e@ == (ErrorView::NotFound { msg: query_not_found_text(creator@, subscriber@) }),
    {
        let msg = String::from_str("No subscription found for creator '").concat(creator).concat(
            "' and subscriber '",
        ).concat(subscriber).concat("'.");
        ContractError::NotFound { msg }
    }
}

} // verus!
