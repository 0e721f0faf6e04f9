//! The messages that the lifecycle engine takes.

use vstd::prelude::*;

verus! {

/// The allow-lists to set up when the store is created.
#[derive(Debug, PartialEq, Eq)]
pub struct InstantiateMsg {
    /// Fungible-token contracts that may send payments.
    pub authorized_cw20_addresses: Option<Vec<String>>,
    /// Non-fungible-token contracts that may register offerings.
    pub authorized_token_addresses: Option<Vec<String>>,
}

/// The instruction embedded in a fungible-token transfer.
#[derive(Debug, PartialEq, Eq)]
pub enum Cw20HookMsg {
    /// Subscribe the sender of the tokens to an offering.
    Subscribe {
        /// The token id to note on the subscription.
        token_id: String,
        /// The token contract that owns the offering.
        nft_address: String,
    },
    /// Renew the sender's subscription to an offering.
    Renew {
        /// The token id to report.
        token_id: String,
        /// The token contract that owns the offering.
        nft_address: String,
    },
}

/// The instruction embedded in a non-fungible-token transfer.
#[derive(Debug, PartialEq, Eq)]
pub enum Cw721HookMsg {
    /// Register the offering of the token contract that sent the token.
    RegisterSubscription {
        /// Length of a period in seconds.
        duration: u64,
        /// Fee per period.
        payment_amount: u128,
    },
}

/// The notification of a fungible-token transfer.
#[derive(Debug, PartialEq, Eq)]
pub struct Cw20ReceiveMsg {
    /// Who sent the tokens.
    pub sender: String,
    /// How many tokens were sent.
    pub amount: u128,
    /// The embedded instruction; `None` when it could not be decoded.
    pub msg: Option<Cw20HookMsg>,
}

/// The notification of a non-fungible-token transfer.
#[derive(Debug, PartialEq, Eq)]
pub struct Cw721ReceiveMsg {
    /// Who sent the token.
    pub sender: String,
    /// The id of the token that was sent.
    pub token_id: String,
    /// The embedded instruction; `None` when it could not be decoded.
    pub msg: Option<Cw721HookMsg>,
}

/// The messages that change the store.
#[derive(Debug, PartialEq, Eq)]
pub enum ExecuteMsg {
    /// A fungible-token transfer arrived.
    Receive(Cw20ReceiveMsg),
    /// A non-fungible-token transfer arrived.
    ReceiveNft(Cw721ReceiveMsg),
    /// The sender cancels their subscription to this offering.
    Cancel { nft_address: String },
}

/// The messages that read the store.
#[derive(Debug, PartialEq, Eq)]
pub enum QueryMsg {
    /// The record stored under one key.
    Subscription { creator: String, subscriber: String },
    /// The records stored under one offering address.
    SubscriptionsForCreator {
        creator: String,
        start_after: Option<(String, String)>,
        limit: Option<u64>,
    },
    /// The records stored under one subscriber.
    SubscriptionsForSubscriber {
        subscriber: String,
        start_after: Option<(String, String)>,
        limit: Option<u64>,
    },
    /// The ids of the records stored under one offering address.
    SubscriptionIdsForCreator {
        creator: String,
        start_after: Option<(String, String)>,
        limit: Option<u64>,
    },
    /// The ids of the records stored under one subscriber.
    SubscriptionIdsForSubscriber {
        subscriber: String,
        start_after: Option<(String, String)>,
        limit: Option<u64>,
    },
    /// The ids of the records that are active now.
    SubscriptionIdsForActiveSubscriptions {
        start_after: Option<(String, String)>,
        limit: Option<u64>,
    },
}

} // verus!
