//! The lifecycle engine: registering an offering, subscribing, renewing,
//! cancelling, and the listings.
//!
//! Each operation is stated twice: as a function on the mathematical store that
//! gives the store afterwards and the result, and as executable code that is
//! proved to compute exactly that.

use crate::error::{
    already_active_text, already_inactive_text, already_subscribed_text, cancel_not_found_text,
    funds_not_accepted_text, offering_active_text, offering_exists_text,
    offering_not_found_text, query_not_found_text, renewal_not_found_text, wrong_amount_text,
    zero_amount_text, ContractError, ErrorView,
};
use crate::key::KeyView;
use crate::model::{
    active_at, cursor_view, with_offering, with_subscriber, RecordFilter, StoreView,
    SubscriptionView,
};
use crate::response::{Response, ResponseView};
use crate::state::{entries_at, subscriptions, Selector, SubscriptionState, SubscriptionStore};
use crate::subscription::{
    Cw20HookMsg, Cw20ReceiveMsg, Cw721HookMsg, Cw721ReceiveMsg, ExecuteMsg, InstantiateMsg,
    QueryMsg,
};
use crate::text::{bool_string, bool_text, decimal_string, decimal_text};
use crate::time::{end_time_fits, expiration_text, Expiration, Timestamp, NANOS_PER_SECOND};
use vstd::prelude::*;
use vstd::string::StringExecFns;

verus! {

/// Native funds attached to a message.
#[derive(Debug, PartialEq, Eq)]
pub struct Coin {
    pub denom: String,
    pub amount: u128,
}

/// What surrounds a message: who sent it, with which funds, when, and what the
/// access-control collaborator answered about it.
#[derive(Debug)]
pub struct ExecuteContext {
    /// The address that sent the message.
    pub sender: String,
    /// The native funds attached to it.
    pub funds: Vec<Coin>,
    /// The time of the block that carries it.
    pub time: Timestamp,
    /// Whether the collaborator lets the sender take the action of the message.
    pub authorized: bool,
    /// Whether the sender is on the allow-list of token contracts for the
    /// kind of transfer that the message notifies.
    pub allow_listed: bool,
}

/// The store after an operation, and what the operation returned.
pub ghost struct Outcome {
    pub store: StoreView,
    pub result: Result<ResponseView, ErrorView>,
}

/// The outcome that `store` and `r` make up.
pub open spec fn outcome_of(store: StoreView, r: Result<Response, ContractError>) -> Outcome {
    Outcome {
        store,
        result: match r {
            Ok(response) => Ok(response@),
            Err(e) => Err(e@),
        },
    }
}

/// The outcome of an operation that was refused: nothing has changed.
pub open spec fn refused(s: StoreView, e: ErrorView) -> Outcome {
    Outcome { store: s, result: Err(e) }
}

/// The key of the offering of `nft_address`: the empty subscriber.
pub open spec fn offering_key(nft_address: Seq<char>) -> KeyView {
    (nft_address, Seq::empty())
}

/// The end of a period of `duration` seconds that starts at `now`.
pub open spec fn period_end(now: Timestamp, duration: u64) -> Expiration {
    Expiration::AtTime(Timestamp { nanos: (now.nanos + duration * NANOS_PER_SECOND) as u64 })
}

/// Why a registration is refused, if it is.
pub open spec fn register_refusal(s: StoreView, nft_address: Seq<char>) -> Option<ErrorView> {
    if s.records.contains_key(offering_key(nft_address)) {
        Some(ErrorView::Conflict { msg: offering_exists_text() })
    } else if s.next_id == u128::MAX {
        Some(ErrorView::Overflow)
    } else {
        None
    }
}

/// The offering that a registration creates.
pub open spec fn offering_record(
    id: u128,
    nft_address: Seq<char>,
    creator: Seq<char>,
    token_id: Seq<char>,
    duration: u64,
    payment_amount: u128,
) -> SubscriptionView {
    SubscriptionView {
        subscription_id: id,
        creator,
        subscriber: Seq::empty(),
        token_id,
        nft_address,
        start_time: Expiration::Never,
        end_time: Expiration::Never,
        payment_amount,
        payment_pending: payment_amount,
        payment_denom: "CW20"@,
        subscription_duration: duration,
        is_active: false,
    }
}

/// What a registration reports.
pub open spec fn register_attributes(record: SubscriptionView) -> ResponseView {
    seq![
        ("action"@, "register_subscription"@),
        ("creator"@, record.creator),
        ("subscription_id"@, decimal_text(record.subscription_id as nat)),
        ("token_id"@, record.token_id),
        ("nft_address"@, record.nft_address),
        ("duration"@, decimal_text(record.subscription_duration as nat)),
    ]
}

/// Registering the offering of `nft_address`: refused when the offering
/// exists; else a new inactive record with a fresh id under the offering key.
pub open spec fn register_outcome(
    s: StoreView,
    nft_address: Seq<char>,
    creator: Seq<char>,
    token_id: Seq<char>,
    duration: u64,
    payment_amount: u128,
) -> Outcome {
    match register_refusal(s, nft_address) {
        Some(e) => refused(s, e),
        None => {
            let record = offering_record(
                s.next_id,
                nft_address,
                creator,
                token_id,
                duration,
                payment_amount,
            );
            Outcome {
                store: s.advance_id().put(offering_key(nft_address), record),
                result: Ok(register_attributes(record)),
            }
        },
    }
}

/// Why a subscription is refused, if it is: no offering; an offering flagged
/// active; a record of this subscriber already there; a payment that is not
/// exactly the fee; no id left.
pub open spec fn subscribe_refusal(
    s: StoreView,
    subscriber: Seq<char>,
    amount: u128,
    nft_address: Seq<char>,
) -> Option<ErrorView> {
    let open_key = offering_key(nft_address);
    let user_key = (nft_address, subscriber);
    if !s.records.contains_key(open_key) {
        Some(ErrorView::NotFound { msg: offering_not_found_text(nft_address) })
    } else if s.records[open_key].is_active {
        Some(ErrorView::Conflict { msg: offering_active_text() })
    } else if s.records.contains_key(user_key) {
        Some(ErrorView::Conflict { msg: already_subscribed_text(s.records[user_key].nft_address) })
    } else if amount != s.records[open_key].payment_amount {
        Some(
            ErrorView::InvalidPayment {
                msg: wrong_amount_text(s.records[open_key].payment_amount, amount),
            },
        )
    } else if s.next_id == u128::MAX {
        Some(ErrorView::Overflow)
    } else {
        None
    }
}

/// The record that a subscription creates from the terms of `offering`.
pub open spec fn subscription_record(
    id: u128,
    offering: SubscriptionView,
    now: Timestamp,
    subscriber: Seq<char>,
    token_id: Seq<char>,
) -> SubscriptionView {
    SubscriptionView {
        subscription_id: id,
        creator: offering.creator,
        subscriber,
        token_id,
        nft_address: offering.nft_address,
        start_time: Expiration::AtTime(now),
        end_time: period_end(now, offering.subscription_duration),
        payment_amount: offering.payment_amount,
        payment_pending: 0,
        payment_denom: offering.payment_denom,
        subscription_duration: offering.subscription_duration,
        is_active: true,
    }
}

/// What a subscription reports.
pub open spec fn subscribe_attributes(record: SubscriptionView) -> ResponseView {
    seq![
        ("action"@, "subscribe"@),
        ("subscriber"@, record.subscriber),
        ("creator"@, record.creator),
        ("creator address"@, record.nft_address),
        ("start_time"@, expiration_text(record.start_time)),
        ("end_time"@, expiration_text(record.end_time)),
        ("is_active"@, bool_text(record.is_active)),
    ]
}

/// Subscribing `subscriber` to the offering of `nft_address` with a payment of
/// `amount`.
pub open spec fn subscribe_outcome(
    s: StoreView,
    now: Timestamp,
    subscriber: Seq<char>,
    amount: u128,
    token_id: Seq<char>,
    nft_address: Seq<char>,
) -> Outcome {
    match subscribe_refusal(s, subscriber, amount, nft_address) {
        Some(e) => refused(s, e),
        None => {
            let record = subscription_record(
                s.next_id,
                s.records[offering_key(nft_address)],
                now,
                subscriber,
                token_id,
            );
            Outcome {
                store: s.advance_id().put((nft_address, subscriber), record),
                result: Ok(subscribe_attributes(record)),
            }
        },
    }
}

/// Whether a subscription runs without leaving the range of instants: where
/// it is not refused, the end of the new period is representable.
pub open spec fn subscribe_defined(
    s: StoreView,
    now: Timestamp,
    subscriber: Seq<char>,
    amount: u128,
    nft_address: Seq<char>,
) -> bool {
    subscribe_refusal(s, subscriber, amount, nft_address) is None ==> end_time_fits(
        now,
        s.records[offering_key(nft_address)].subscription_duration,
    )
}

/// Why a renewal is refused, if it is: no record; a payment that is not
/// exactly the fee; a record that is still active when evaluated at `now`.
pub open spec fn renew_refusal(
    s: StoreView,
    now: Timestamp,
    subscriber: Seq<char>,
    amount: u128,
    nft_address: Seq<char>,
) -> Option<ErrorView> {
    let key = (nft_address, subscriber);
    if !s.records.contains_key(key) {
        Some(ErrorView::NotFound { msg: renewal_not_found_text(nft_address, subscriber) })
    } else if amount != s.records[key].payment_amount {
        Some(
            ErrorView::InvalidPayment {
                msg: wrong_amount_text(s.records[key].payment_amount, amount),
            },
        )
    } else if s.records[key].evaluate(now).is_active {
        Some(ErrorView::Conflict { msg: already_active_text() })
    } else {
        None
    }
}

/// A record re-armed at `now`: active for one more period, nothing pending.
pub open spec fn renewed_record(record: SubscriptionView, now: Timestamp) -> SubscriptionView {
    SubscriptionView {
        start_time: Expiration::AtTime(now),
        end_time: period_end(now, record.subscription_duration),
        payment_pending: 0,
        is_active: true,
        ..record
    }
}

/// What a renewal reports.
pub open spec fn renew_attributes(record: SubscriptionView, token_id: Seq<char>) -> ResponseView {
    seq![
        ("action"@, "renew_subscription"@),
        ("subscriber"@, record.subscriber),
        ("creator"@, record.creator),
        ("creator address"@, record.nft_address),
        ("token_id"@, token_id),
        ("new_start_time"@, expiration_text(record.start_time)),
        ("new_end_time"@, expiration_text(record.end_time)),
        ("is_active"@, bool_text(record.is_active)),
    ]
}

/// Renewing the subscription of `subscriber` to the offering of `nft_address`
/// with a payment of `amount`.
pub open spec fn renew_outcome(
    s: StoreView,
    now: Timestamp,
    subscriber: Seq<char>,
    amount: u128,
    token_id: Seq<char>,
    nft_address: Seq<char>,
) -> Outcome {
    match renew_refusal(s, now, subscriber, amount, nft_address) {
        Some(e) => refused(s, e),
        None => {
            let key = (nft_address, subscriber);
            let record = renewed_record(s.records[key], now);
            Outcome {
                store: s.put(key, record),
                result: Ok(
                    renew_attributes(
                        SubscriptionView { subscriber, ..record },
                        token_id,
                    ),
                ),
            }
        },
    }
}

/// Whether a renewal runs without leaving the range of instants.
pub open spec fn renew_defined(
    s: StoreView,
    now: Timestamp,
    subscriber: Seq<char>,
    amount: u128,
    nft_address: Seq<char>,
) -> bool {
    renew_refusal(s, now, subscriber, amount, nft_address) is None ==> end_time_fits(
        now,
        s.records[(nft_address, subscriber)].subscription_duration,
    )
}

/// Why a cancellation is refused, if it is: no record; a record that is no
/// longer active when evaluated at `now`.
pub open spec fn cancel_refusal(
    s: StoreView,
    now: Timestamp,
    sender: Seq<char>,
    nft_address: Seq<char>,
) -> Option<ErrorView> {
    let key = (nft_address, sender);
    if !s.records.contains_key(key) {
        Some(ErrorView::NotFound { msg: cancel_not_found_text(nft_address, sender) })
    } else if !s.records[key].evaluate(now).is_active {
        Some(ErrorView::Conflict { msg: already_inactive_text() })
    } else {
        None
    }
}

/// A record after its cancellation: inactive, without a period, the full fee
/// pending.
pub open spec fn cancelled_record(record: SubscriptionView) -> SubscriptionView {
    SubscriptionView {
        start_time: Expiration::Never,
        end_time: Expiration::Never,
        payment_pending: record.payment_amount,
        is_active: false,
        ..record
    }
}

/// What a cancellation reports.
pub open spec fn cancel_attributes(record: SubscriptionView, sender: Seq<char>) -> ResponseView {
    seq![
        ("action"@, "cancel_subscription"@),
        ("creator"@, record.creator),
        ("subscriber"@, sender),
        ("is_active"@, bool_text(record.is_active)),
        ("status"@, "cancelled"@),
    ]
}

/// Cancelling the subscription of `sender` to the offering of `nft_address`.
pub open spec fn cancel_outcome(
    s: StoreView,
    now: Timestamp,
    sender: Seq<char>,
    nft_address: Seq<char>,
) -> Outcome {
    match cancel_refusal(s, now, sender, nft_address) {
        Some(e) => refused(s, e),
        None => {
            let key = (nft_address, sender);
            let record = cancelled_record(s.records[key]);
            Outcome { store: s.put(key, record), result: Ok(cancel_attributes(record, sender)) }
        },
    }
}

/// Brings `subscription` up to date with the clock: a record that is flagged
/// active although its period ended strictly before `now` becomes inactive and
/// owes its full fee. Nothing else changes, and nothing is stored.
pub fn evaluate_subscription_status(subscription: &mut SubscriptionState, now: Timestamp)
    ensures
        final(subscription)@ == old(subscription)@.evaluate(now),
{
    if subscription.is_active {
        if let Expiration::AtTime(end_time) = subscription.end_time {
            if now.nanos > end_time.nanos {
                subscription.is_active = false;
                subscription.payment_pending = subscription.payment_amount;
            }
        }
    }
}

/// Registers the offering of the token contract `nft_address` for `creator`.
pub fn register_subscription(
    store: &mut SubscriptionStore,
    nft_address: String,
    creator: String,
    token_id: String,
    duration: u64,
    payment_amount: u128,
) -> (r: Result<Response, ContractError>)
    ensures
        outcome_of(final(store)@, r) == register_outcome(
            old(store)@,
            nft_address@,
            creator@,
            token_id@,
            duration,
            payment_amount,
        ),
{
    let composite_key = (nft_address.clone(), String::new());
    if store.get(&composite_key).is_some() {
        return Err(ContractError::offering_exists());
    }
    let subscription_id: u128 = match store.next_id() {
        Ok(id) => id,
        Err(e) => {
            return Err(e);
        },
    };
    let id_text = decimal_string(subscription_id);
    let duration_text = decimal_string(duration as u128);
    let response = Response::new().add_attribute("action", "register_subscription").add_attribute(
        "creator",
        creator.as_str(),
    ).add_attribute("subscription_id", id_text.as_str()).add_attribute(
        "token_id",
        token_id.as_str(),
    ).add_attribute("nft_address", nft_address.as_str()).add_attribute(
        "duration",
        duration_text.as_str(),
    );
    let subscription = SubscriptionState {
        subscription_id,
        creator,
        subscriber: String::new(),
        token_id,
        nft_address,
        start_time: Expiration::Never,
        end_time: Expiration::Never,
        payment_amount,
        payment_pending: payment_amount,
        payment_denom: String::from_str("CW20"),
        subscription_duration: duration,
        is_active: false,
    };
    proof {
        assert(response@ =~= register_attributes(subscription@));
    }
    store.put(composite_key, subscription);
    Ok(response)
}

/// Subscribes `subscriber` to the offering of `nft_address`, for a payment of
/// `amount_sent` received at `now`.
pub fn subscribe(
    store: &mut SubscriptionStore,
    now: Timestamp,
    subscriber: String,
    amount_sent: u128,
    token_id: String,
    nft_address: String,
) -> (r: Result<Response, ContractError>)
    requires
        subscribe_defined(old(store)@, now, subscriber@, amount_sent, nft_address@),
    ensures
        outcome_of(final(store)@, r) == subscribe_outcome(
            old(store)@,
            now,
            subscriber@,
            amount_sent,
            token_id@,
            nft_address@,
        ),
{
    let open_key = (nft_address.clone(), String::new());
    let open_subscription = match store.get(&open_key) {
        Some(offering) => offering,
        None => {
            return Err(ContractError::offering_not_found(nft_address.as_str()));
        },
    };
    if open_subscription.is_active {
        return Err(ContractError::offering_active());
    }
    let user_key = (nft_address.clone(), subscriber.clone());
    if let Some(existing_subscription) = store.get(&user_key) {
        return Err(ContractError::already_subscribed(existing_subscription.nft_address.as_str()));
    }
    if amount_sent != open_subscription.payment_amount {
        return Err(ContractError::wrong_amount(open_subscription.payment_amount, amount_sent));
    }
    let subscription_id: u128 = match store.next_id() {
        Ok(id) => id,
        Err(e) => {
            return Err(e);
        },
    };
    let new_subscription = SubscriptionState {
        subscription_id,
        creator: open_subscription.creator.clone(),
        subscriber,
        token_id,
        nft_address: open_subscription.nft_address.clone(),
        start_time: Expiration::AtTime(now),
        end_time: Expiration::AtTime(now.plus_seconds(open_subscription.subscription_duration)),
        payment_amount: open_subscription.payment_amount,
        payment_pending: open_subscription.payment_amount - amount_sent,
        payment_denom: open_subscription.payment_denom.clone(),
        subscription_duration: open_subscription.subscription_duration,
        is_active: true,
    };
    let start_text = new_subscription.start_time.to_string();
    let end_text = new_subscription.end_time.to_string();
    let active_text = bool_string(new_subscription.is_active);
    let response = Response::new().add_attribute("action", "subscribe").add_attribute(
        "subscriber",
        new_subscription.subscriber.as_str(),
    ).add_attribute("creator", new_subscription.creator.as_str()).add_attribute(
        "creator address",
        new_subscription.nft_address.as_str(),
    ).add_attribute("start_time", start_text.as_str()).add_attribute(
        "end_time",
        end_text.as_str(),
    ).add_attribute("is_active", active_text.as_str());
    proof {
        assert(response@ =~= subscribe_attributes(new_subscription@));
    }
    store.put(user_key, new_subscription);
    Ok(response)
}

/// Renews the subscription of `subscriber` to the offering of `nft_address`,
/// for a payment of `amount_sent` received at `now`.
pub fn renew(
    store: &mut SubscriptionStore,
    now: Timestamp,
    subscriber: String,
    amount_sent: u128,
    token_id: String,
    nft_address: String,
) -> (r: Result<Response, ContractError>)
    requires
        renew_defined(old(store)@, now, subscriber@, amount_sent, nft_address@),
    ensures
        outcome_of(final(store)@, r) == renew_outcome(
            old(store)@,
            now,
            subscriber@,
            amount_sent,
            token_id@,
            nft_address@,
        ),
{
    let composite_key = (nft_address.clone(), subscriber.clone());
    let mut subscription = match store.get(&composite_key) {
        Some(record) => record,
        None => {
            return Err(
                ContractError::renewal_not_found(nft_address.as_str(), subscriber.as_str()),
            );
        },
    };
    if amount_sent != subscription.payment_amount {
        return Err(ContractError::wrong_amount(subscription.payment_amount, amount_sent));
    }
    evaluate_subscription_status(&mut subscription, now);
    if subscription.is_active {
        return Err(ContractError::already_active());
    }
    subscription.start_time = Expiration::AtTime(now);
    subscription.end_time = Expiration::AtTime(now.plus_seconds(subscription.subscription_duration));
    subscription.is_active = true;
    subscription.payment_pending = subscription.payment_amount - amount_sent;
    let start_text = subscription.start_time.to_string();
    let end_text = subscription.end_time.to_string();
    let active_text = bool_string(subscription.is_active);
    let response = Response::new().add_attribute("action", "renew_subscription").add_attribute(
        "subscriber",
        subscriber.as_str(),
    ).add_attribute("creator", subscription.creator.as_str()).add_attribute(
        "creator address",
        subscription.nft_address.as_str(),
    ).add_attribute("token_id", token_id.as_str()).add_attribute(
        "new_start_time",
        start_text.as_str(),
    ).add_attribute("new_end_time", end_text.as_str()).add_attribute(
        "is_active",
        active_text.as_str(),
    );
    proof {
        assert(response@ =~= renew_attributes(
            SubscriptionView { subscriber: subscriber@, ..subscription@ },
            token_id@,
        ));
    }
    store.put(composite_key, subscription);
    Ok(response)
}

/// Cancels the subscription of the sender of the message to the offering of
/// `nft_address`.
pub fn execute_cancel(store: &mut SubscriptionStore, ctx: &ExecuteContext, nft_address: String) -> (r:
    Result<Response, ContractError>)
    ensures
        outcome_of(final(store)@, r) == cancel_outcome(
            old(store)@,
            ctx.time,
            ctx.sender@,
            nft_address@,
        ),
{
    let composite_key = (nft_address.clone(), ctx.sender.clone());
    let mut subscription = match store.get(&composite_key) {
        Some(record) => record,
        None => {
            return Err(
                ContractError::cancel_not_found(nft_address.as_str(), ctx.sender.as_str()),
            );
        },
    };
    evaluate_subscription_status(&mut subscription, ctx.time);
    if !subscription.is_active {
        return Err(ContractError::already_inactive());
    }
    subscription.is_active = false;
    subscription.payment_pending = subscription.payment_amount;
    subscription.start_time = Expiration::Never;
    subscription.end_time = Expiration::Never;
    let active_text = bool_string(subscription.is_active);
    let response = Response::new().add_attribute("action", "cancel_subscription").add_attribute(
        "creator",
        subscription.creator.as_str(),
    ).add_attribute("subscriber", ctx.sender.as_str()).add_attribute(
        "is_active",
        active_text.as_str(),
    ).add_attribute("status", "cancelled");
    proof {
        assert(response@ =~= cancel_attributes(subscription@, ctx.sender@));
    }
    store.put(composite_key, subscription);
    Ok(response)
}

/// A fungible-token transfer with its embedded instruction: refused when the
/// token contract is not on the allow-list, when native funds are attached,
/// when nothing was transferred, when the instruction could not be decoded;
/// else the subscription or the renewal that the instruction asks for, in the
/// name of the sender of the tokens.
pub open spec fn receive_cw20_outcome(s: StoreView, ctx: ExecuteContext, msg: Cw20ReceiveMsg) -> Outcome {
    if !ctx.allow_listed {
        refused(s, ErrorView::Unauthorized)
    } else if ctx.funds@.len() > 0 {
        refused(s, ErrorView::InvalidPayment { msg: funds_not_accepted_text() })
    } else if msg.amount == 0 {
        refused(s, ErrorView::InvalidPayment { msg: zero_amount_text() })
    } else {
        match msg.msg {
            None => refused(s, ErrorView::Decode),
            Some(Cw20HookMsg::Subscribe { token_id, nft_address }) => subscribe_outcome(
                s,
                ctx.time,
                msg.sender@,
                msg.amount,
                token_id@,
                nft_address@,
            ),
            Some(Cw20HookMsg::Renew { token_id, nft_address }) => renew_outcome(
                s,
                ctx.time,
                msg.sender@,
                msg.amount,
                token_id@,
                nft_address@,
            ),
        }
    }
}

/// Whether a fungible-token transfer runs without leaving the range of
/// instants.
pub open spec fn receive_cw20_defined(s: StoreView, ctx: ExecuteContext, msg: Cw20ReceiveMsg) -> bool {
    ctx.allow_listed && ctx.funds@.len() == 0 && msg.amount != 0 ==> match msg.msg {
        None => true,
        Some(Cw20HookMsg::Subscribe { token_id, nft_address }) => subscribe_defined(
            s,
            ctx.time,
            msg.sender@,
            msg.amount,
            nft_address@,
        ),
        Some(Cw20HookMsg::Renew { token_id, nft_address }) => renew_defined(
            s,
            ctx.time,
            msg.sender@,
            msg.amount,
            nft_address@,
        ),
    }
}

/// A non-fungible-token transfer with its embedded instruction: refused when
/// the token contract is not on the allow-list or the instruction could not
/// be decoded; else the registration of the offering of the token contract
/// that sent the message, for the sender of the token.
pub open spec fn receive_cw721_outcome(s: StoreView, ctx: ExecuteContext, msg: Cw721ReceiveMsg) -> Outcome {
    if !ctx.allow_listed {
        refused(s, ErrorView::Unauthorized)
    } else {
        match msg.msg {
            None => refused(s, ErrorView::Decode),
            Some(Cw721HookMsg::RegisterSubscription { duration, payment_amount }) => register_outcome(
                s,
                ctx.sender@,
                msg.sender@,
                msg.token_id@,
                duration,
                payment_amount,
            ),
        }
    }
}

/// A message that changes the store: refused when the collaborator does not
/// let the sender take the action; else what the message asks for.
pub open spec fn execute_outcome(s: StoreView, ctx: ExecuteContext, msg: ExecuteMsg) -> Outcome {
    if !ctx.authorized {
        refused(s, ErrorView::Unauthorized)
    } else {
        match msg {
            ExecuteMsg::ReceiveNft(m) => receive_cw721_outcome(s, ctx, m),
            ExecuteMsg::Receive(m) => receive_cw20_outcome(s, ctx, m),
            ExecuteMsg::Cancel { nft_address } => cancel_outcome(
                s,
                ctx.time,
                ctx.sender@,
                nft_address@,
            ),
        }
    }
}

/// Whether a message runs without leaving the range of instants.
pub open spec fn execute_defined(s: StoreView, ctx: ExecuteContext, msg: ExecuteMsg) -> bool {
    ctx.authorized ==> match msg {
        ExecuteMsg::Receive(m) => receive_cw20_defined(s, ctx, m),
        _ => true,
    }
}

/// Calls `cw_utils::nonpayable`, which accepts a message exactly when no funds
/// are attached to it.
#[verifier::external_body]
fn nonpayable(sender: &String, funds: &Vec<Coin>) -> (accepted: bool)
    ensures
        accepted == (funds@.len() == 0),
{
    let funds = funds.iter().map(|c| cosmwasm_std::Coin::new(c.amount, c.denom.clone())).collect();
    let info = cosmwasm_std::MessageInfo {
        sender: cosmwasm_std::Addr::unchecked(sender.clone()),
        funds,
    };
    cw_utils::nonpayable(&info).is_ok()
}

/// Handles the notification of a fungible-token transfer.
pub fn handle_receive_cw20(
    store: &mut SubscriptionStore,
    ctx: &ExecuteContext,
    receive_msg: Cw20ReceiveMsg,
) -> (r: Result<Response, ContractError>)
    requires
        receive_cw20_defined(old(store)@, *ctx, receive_msg),
    ensures
        outcome_of(final(store)@, r) == receive_cw20_outcome(old(store)@, *ctx, receive_msg),
{
    if !ctx.allow_listed {
        return Err(ContractError::Unauthorized);
    }
    if !nonpayable(&ctx.sender, &ctx.funds) {
        return Err(ContractError::funds_not_accepted());
    }
    let amount_sent: u128 = receive_msg.amount;
    let subscriber = receive_msg.sender;
    if amount_sent == 0 {
        return Err(ContractError::zero_amount());
    }
    match receive_msg.msg {
        None => Err(ContractError::Decode),
        Some(Cw20HookMsg::Subscribe { token_id, nft_address }) => subscribe(
            store,
            ctx.time,
            subscriber,
            amount_sent,
            token_id,
            nft_address,
        ),
        Some(Cw20HookMsg::Renew { token_id, nft_address }) => renew(
            store,
            ctx.time,
            subscriber,
            amount_sent,
            token_id,
            nft_address,
        ),
    }
}

/// Handles the notification of a non-fungible-token transfer.
pub fn handle_receive_cw721(
    store: &mut SubscriptionStore,
    ctx: &ExecuteContext,
    receive_msg: Cw721ReceiveMsg,
) -> (r: Result<Response, ContractError>)
    ensures
        outcome_of(final(store)@, r) == receive_cw721_outcome(old(store)@, *ctx, receive_msg),
{
    if !ctx.allow_listed {
        return Err(ContractError::Unauthorized);
    }
    let Cw721ReceiveMsg { sender, token_id, msg } = receive_msg;
    match msg {
        None => Err(ContractError::Decode),
        Some(Cw721HookMsg::RegisterSubscription { duration, payment_amount }) => register_subscription(
            store,
            ctx.sender.clone(),
            sender,
            token_id,
            duration,
            payment_amount,
        ),
    }
}

/// Handles a message that changes the store.
pub fn handle_execute(store: &mut SubscriptionStore, ctx: &ExecuteContext, msg: ExecuteMsg) -> (r:
    Result<Response, ContractError>)
    requires
        execute_defined(old(store)@, *ctx, msg),
    ensures
        outcome_of(final(store)@, r) == execute_outcome(old(store)@, *ctx, msg),
{
    if !ctx.authorized {
        return Err(ContractError::Unauthorized);
    }
    match msg {
        ExecuteMsg::ReceiveNft(msg) => handle_receive_cw721(store, ctx, msg),
        ExecuteMsg::Receive(msg) => handle_receive_cw20(store, ctx, msg),
        ExecuteMsg::Cancel { nft_address } => execute_cancel(store, ctx, nft_address),
    }
}

/// Each record as a reader at `now` sees it.
pub open spec fn evaluated_at(records: Seq<SubscriptionView>, now: Timestamp) -> Seq<
    SubscriptionView,
> {
    Seq::new(records.len(), |i: int| records[i].evaluate(now))
}

/// The id of each record.
pub open spec fn ids_of(records: Seq<SubscriptionView>) -> Seq<u128> {
    Seq::new(records.len(), |i: int| records[i].subscription_id)
}

/// One page of a listing of records: the records under the first
/// `page_size(limit)` keys after the cursor that `filter` selects, in
/// ascending key order, each evaluated at `now`.
pub open spec fn listed_records(
    s: StoreView,
    start_after: Option<KeyView>,
    limit: Option<u64>,
    filter: RecordFilter,
    now: Timestamp,
) -> Seq<SubscriptionView> {
    evaluated_at(s.records_at(s.page(start_after, limit, filter)), now)
}

/// One page of a listing of ids: the ids of the records under the first
/// `page_size(limit)` keys after the cursor that `filter` selects, in
/// ascending key order.
pub open spec fn listed_ids(
    s: StoreView,
    start_after: Option<KeyView>,
    limit: Option<u64>,
    filter: RecordFilter,
) -> Seq<u128> {
    ids_of(s.records_at(s.page(start_after, limit, filter)))
}

/// The record under (`creator`, `subscriber`) evaluated at `now`, or the error
/// that says there is none.
pub open spec fn subscription_answer(
    s: StoreView,
    creator: Seq<char>,
    now: Timestamp,
    subscriber: Seq<char>,
) -> Result<SubscriptionView, ErrorView> {
    match s.get((creator, subscriber)) {
        Some(record) => Ok(record.evaluate(now)),
        None => Err(ErrorView::NotFound { msg: query_not_found_text(creator, subscriber) }),
    }
}

fn list_records(
    store: &SubscriptionStore,
    start_after: &Option<(String, String)>,
    limit: Option<u64>,
    selector: &Selector,
    now: Timestamp,
) -> (r: Vec<SubscriptionState>)
    ensures
        r.deep_view() == listed_records(
            store@,
            cursor_view(*start_after),
            limit,
            selector.filter(),
            now,
        ),
{
    let found = store.select(start_after, limit, selector);
    let ghost keys = store@.page(cursor_view(*start_after), limit, selector.filter());
    let mut out: Vec<SubscriptionState> = Vec::new();
    let mut i: usize = 0;
    proof {
        assert(found.deep_view().len() == keys.len());
        assert(out.deep_view() =~= evaluated_at(store@.records_at(keys.take(0)), now));
    }
    while i < found.len()
        invariant
            i <= found@.len(),
            found@.len() == keys.len(),
            found.deep_view() == entries_at(store@, keys),
            out.deep_view() == evaluated_at(store@.records_at(keys.take(i as int)), now),
        decreases found@.len() - i,
    {
        proof {
            assert(found.deep_view()[i as int] == (keys[i as int], store@.records[keys[i as int]]));
        }
        let mut subscription = found[i].1.clone();
        evaluate_subscription_status(&mut subscription, now);
        let ghost shown = out.deep_view();
        out.push(subscription);
        proof {
            assert(out.deep_view() =~= shown.push(store@.records[keys[i as int]].evaluate(now)));
            assert(out.deep_view() =~= evaluated_at(store@.records_at(keys.take(i + 1)), now));
        }
        i += 1;
    }
    proof {
        assert(keys.take(i as int) =~= keys);
    }
    out
}

fn list_ids(
    store: &SubscriptionStore,
    start_after: &Option<(String, String)>,
    limit: Option<u64>,
    selector: &Selector,
) -> (r: Vec<u128>)
    ensures
        r@ == listed_ids(store@, cursor_view(*start_after), limit, selector.filter()),
{
    let found = store.select(start_after, limit, selector);
    let ghost keys = store@.page(cursor_view(*start_after), limit, selector.filter());
    let mut out: Vec<u128> = Vec::new();
    let mut i: usize = 0;
    proof {
        assert(found.deep_view().len() == keys.len());
        assert(out@ =~= ids_of(store@.records_at(keys.take(0))));
    }
    while i < found.len()
        invariant
            i <= found@.len(),
            found@.len() == keys.len(),
            found.deep_view() == entries_at(store@, keys),
            out@ == ids_of(store@.records_at(keys.take(i as int))),
        decreases found@.len() - i,
    {
        proof {
            assert(found.deep_view()[i as int] == (keys[i as int], store@.records[keys[i as int]]));
        }
        out.push(found[i].1.subscription_id);
        proof {
            assert(out@ =~= ids_of(store@.records_at(keys.take(i + 1))));
        }
        i += 1;
    }
    proof {
        assert(keys.take(i as int) =~= keys);
    }
    out
}

/// The record stored under (`creator`, `subscriber`), evaluated at `now`.
pub fn query_subscription(
    store: &SubscriptionStore,
    creator: String,
    now: Timestamp,
    subscriber: String,
) -> (r: Result<SubscriptionState, ContractError>)
    ensures
        subscription_answer(store@, creator@, now, subscriber@) == match r {
            Ok(record) => Ok::<SubscriptionView, ErrorView>(record@),
            Err(e) => Err(e@),
        },
{
    let key = (creator.clone(), subscriber.clone());
    let mut subscription = match store.get(&key) {
        Some(record) => record,
        None => {
            return Err(ContractError::query_not_found(creator.as_str(), subscriber.as_str()));
        },
    };
    evaluate_subscription_status(&mut subscription, now);
    Ok(subscription)
}

/// One page of the records stored under the offering address `creator`, each
/// evaluated at `now`.
pub fn query_subscriptions_for_creator(
    store: &SubscriptionStore,
    creator: String,
    now: Timestamp,
    start_after: Option<(String, String)>,
    limit: Option<u64>,
) -> (r: Result<Vec<SubscriptionState>, ContractError>)
    ensures
        r is Ok,
        r->Ok_0.deep_view() == listed_records(
            store@,
            cursor_view(start_after),
            limit,
            with_offering(creator@),
            now,
        ),
{
    Ok(list_records(store, &start_after, limit, &Selector::Offering(creator), now))
}

/// One page of the records stored under the subscriber `subscriber`, each
/// evaluated at `now`.
pub fn query_subscriptions_for_subscriber(
    store: &SubscriptionStore,
    subscriber: String,
    now: Timestamp,
    start_after: Option<(String, String)>,
    limit: Option<u64>,
) -> (r: Result<Vec<SubscriptionState>, ContractError>)
    ensures
        r is Ok,
        r->Ok_0.deep_view() == listed_records(
            store@,
            cursor_view(start_after),
            limit,
            with_subscriber(subscriber@),
            now,
        ),
{
    Ok(list_records(store, &start_after, limit, &Selector::Subscriber(subscriber), now))
}

/// One page of the ids of the records stored under the offering address
/// `creator`.
pub fn query_subscription_ids_for_creator(
    store: &SubscriptionStore,
    creator: String,
    now: Timestamp,
    start_after: Option<(String, String)>,
    limit: Option<u64>,
) -> (r: Result<Vec<u128>, ContractError>)
    ensures
        r is Ok,
        r->Ok_0@ == listed_ids(store@, cursor_view(start_after), limit, with_offering(creator@)),
{
    Ok(list_ids(store, &start_after, limit, &Selector::Offering(creator)))
}

/// One page of the ids of the records stored under the subscriber
/// `subscriber`.
pub fn query_subscription_ids_for_subscriber(
    store: &SubscriptionStore,
    subscriber: String,
    now: Timestamp,
    start_after: Option<(String, String)>,
    limit: Option<u64>,
) -> (r: Result<Vec<u128>, ContractError>)
    ensures
        r is Ok,
        r->Ok_0@ == listed_ids(
            store@,
            cursor_view(start_after),
            limit,
            with_subscriber(subscriber@),
        ),
{
    Ok(list_ids(store, &start_after, limit, &Selector::Subscriber(subscriber)))
}

/// One page of the ids of the records that are still active when evaluated at
/// `now`.
pub fn query_subscription_ids_for_active_subscriptions(
    store: &SubscriptionStore,
    now: Timestamp,
    start_after: Option<(String, String)>,
    limit: Option<u64>,
) -> (r: Result<Vec<u128>, ContractError>)
    ensures
        r is Ok,
        r->Ok_0@ == listed_ids(store@, cursor_view(start_after), limit, active_at(now)),
{
    Ok(list_ids(store, &start_after, limit, &Selector::ActiveAt(now)))
}

/// The answer to a query.
#[derive(Debug, PartialEq, Eq)]
pub enum QueryResponse {
    /// One record.
    Subscription(SubscriptionState),
    /// A page of records.
    Subscriptions(Vec<SubscriptionState>),
    /// A page of ids.
    SubscriptionIds(Vec<u128>),
}

/// The mathematical value of an answer.
pub ghost enum AnswerView {
    Subscription(SubscriptionView),
    Subscriptions(Seq<SubscriptionView>),
    SubscriptionIds(Seq<u128>),
}

impl View for QueryResponse {
    type V = AnswerView;

    open spec fn view(&self) -> AnswerView {
        match self {
            QueryResponse::Subscription(record) => AnswerView::Subscription(record@),
            QueryResponse::Subscriptions(records) => AnswerView::Subscriptions(records.deep_view()),
            QueryResponse::SubscriptionIds(ids) => AnswerView::SubscriptionIds(ids@),
        }
    }
}

/// The answer that a query is owed.
pub open spec fn query_answer(s: StoreView, now: Timestamp, msg: QueryMsg) -> Result<
    AnswerView,
    ErrorView,
> {
    match msg {
        QueryMsg::Subscription { creator, subscriber } => match subscription_answer(
            s,
            creator@,
            now,
            subscriber@,
        ) {
            Ok(record) => Ok(AnswerView::Subscription(record)),
            Err(e) => Err(e),
        },
        QueryMsg::SubscriptionsForCreator { creator, start_after, limit } => Ok(
            AnswerView::Subscriptions(
                listed_records(s, cursor_view(start_after), limit, with_offering(creator@), now),
            ),
        ),
        QueryMsg::SubscriptionsForSubscriber { subscriber, start_after, limit } => Ok(
            AnswerView::Subscriptions(
                listed_records(
                    s,
                    cursor_view(start_after),
                    limit,
                    with_subscriber(subscriber@),
                    now,
                ),
            ),
        ),
        QueryMsg::SubscriptionIdsForCreator { creator, start_after, limit } => Ok(
            AnswerView::SubscriptionIds(
                listed_ids(s, cursor_view(start_after), limit, with_offering(creator@)),
            ),
        ),
        QueryMsg::SubscriptionIdsForSubscriber { subscriber, start_after, limit } => Ok(
            AnswerView::SubscriptionIds(
                listed_ids(s, cursor_view(start_after), limit, with_subscriber(subscriber@)),
            ),
        ),
        QueryMsg::SubscriptionIdsForActiveSubscriptions { start_after, limit } => Ok(
            AnswerView::SubscriptionIds(
                listed_ids(s, cursor_view(start_after), limit, active_at(now)),
            ),
        ),
    }
}

/// Answers a query. The store is read and never written: what evaluation
/// changes is seen in the answer only.
pub fn query(store: &SubscriptionStore, now: Timestamp, msg: QueryMsg) -> (r: Result<
    QueryResponse,
    ContractError,
>)
    ensures
        query_answer(store@, now, msg) == match r {
            Ok(answer) => Ok::<AnswerView, ErrorView>(answer@),
            Err(e) => Err(e@),
        },
{
    match msg {
        QueryMsg::Subscription { creator, subscriber } => {
            match query_subscription(store, creator, now, subscriber) {
                Ok(record) => Ok(QueryResponse::Subscription(record)),
                Err(e) => Err(e),
            }
        },
        QueryMsg::SubscriptionsForCreator { creator, start_after, limit } => {
            match query_subscriptions_for_creator(store, creator, now, start_after, limit) {
                Ok(records) => Ok(QueryResponse::Subscriptions(records)),
                Err(e) => Err(e),
            }
        },
        QueryMsg::SubscriptionsForSubscriber { subscriber, start_after, limit } => {
            match query_subscriptions_for_subscriber(store, subscriber, now, start_after, limit) {
                Ok(records) => Ok(QueryResponse::Subscriptions(records)),
                Err(e) => Err(e),
            }
        },
        QueryMsg::SubscriptionIdsForCreator { creator, start_after, limit } => {
            match query_subscription_ids_for_creator(store, creator, now, start_after, limit) {
                Ok(ids) => Ok(QueryResponse::SubscriptionIds(ids)),
                Err(e) => Err(e),
            }
        },
        QueryMsg::SubscriptionIdsForSubscriber { subscriber, start_after, limit } => {
            match query_subscription_ids_for_subscriber(
                store,
                subscriber,
                now,
                start_after,
                limit,
            ) {
                Ok(ids) => Ok(QueryResponse::SubscriptionIds(ids)),
                Err(e) => Err(e),
            }
        },
        QueryMsg::SubscriptionIdsForActiveSubscriptions { start_after, limit } => {
            match query_subscription_ids_for_active_subscriptions(store, now, start_after, limit) {
                Ok(ids) => Ok(QueryResponse::SubscriptionIds(ids)),
                Err(e) => Err(e),
            }
        },
    }
}

/// The kind of transfer that an allow-list of token contracts is about.
#[derive(Clone, Copy, Debug, PartialEq, Eq, Structural)]
pub enum PermissionAction {
    /// Sending fungible tokens: subscribing and renewing.
    SendCw20,
    /// Sending a non-fungible token: registering an offering.
    SendNft,
}

/// A request to the access-control collaborator: put these addresses on the
/// allow-list of this action.
#[derive(Debug, PartialEq, Eq)]
pub struct Authorization {
    pub action: PermissionAction,
    pub addresses: Vec<String>,
}

/// What instantiation sets up: the store, and the authorizations to ask for,
/// in the order in which to ask.
pub struct Instantiation {
    pub store: SubscriptionStore,
    pub authorizations: Vec<Authorization>,
}

/// The authorizations that `msg` asks for: the token contracts first, then
/// the fungible-token contracts; a list that is absent asks for nothing.
pub open spec fn requested_authorizations(msg: InstantiateMsg) -> Seq<Authorization> {
    let tokens = match msg.authorized_token_addresses {
        Some(addresses) => seq![Authorization { action: PermissionAction::SendNft, addresses }],
        None => Seq::empty(),
    };
    let cw20 = match msg.authorized_cw20_addresses {
        Some(addresses) => seq![Authorization { action: PermissionAction::SendCw20, addresses }],
        None => Seq::empty(),
    };
    tokens + cw20
}

/// Sets up an empty store whose first id is 1, and says which addresses to
/// put on which allow-list.
pub fn instantiate(msg: InstantiateMsg) -> (r: Instantiation)
    ensures
        r.store@ == StoreView::empty(),
        r.authorizations@ == requested_authorizations(msg),
{
    let ghost asked = msg;
    let mut authorizations: Vec<Authorization> = Vec::new();
    if let Some(addresses) = msg.authorized_token_addresses {
        authorizations.push(Authorization { action: PermissionAction::SendNft, addresses });
    }
    if let Some(addresses) = msg.authorized_cw20_addresses {
        authorizations.push(Authorization { action: PermissionAction::SendCw20, addresses });
    }
    proof {
        assert(authorizations@ =~= requested_authorizations(asked));
    }
    Instantiation { store: subscriptions(), authorizations }
}

fn subscribe_is_defined(
    store: &SubscriptionStore,
    now: Timestamp,
    subscriber: &String,
    amount_sent: u128,
    nft_address: &String,
) -> (b: bool)
    ensures
        b == subscribe_defined(store@, now, subscriber@, amount_sent, nft_address@),
{
    let open_key = (nft_address.clone(), String::new());
    match store.get(&open_key) {
        None => true,
        Some(open_subscription) => {
            let user_key = (nft_address.clone(), subscriber.clone());
            if open_subscription.is_active || store.get(&user_key).is_some() || amount_sent
                != open_subscription.payment_amount || store.next_subscription_id() == u128::MAX {
                true
            } else {
                now.can_add_seconds(open_subscription.subscription_duration)
            }
        },
    }
}

fn renew_is_defined(
    store: &SubscriptionStore,
    now: Timestamp,
    subscriber: &String,
    amount_sent: u128,
    nft_address: &String,
) -> (b: bool)
    ensures
        b == renew_defined(store@, now, subscriber@, amount_sent, nft_address@),
{
    let composite_key = (nft_address.clone(), subscriber.clone());
    match store.get(&composite_key) {
        None => true,
        Some(subscription) => {
            if amount_sent != subscription.payment_amount || subscription.is_active_at(now) {
                true
            } else {
                now.can_add_seconds(subscription.subscription_duration)
            }
        },
    }
}

fn execute_is_defined(store: &SubscriptionStore, ctx: &ExecuteContext, msg: &ExecuteMsg) -> (b:
    bool)
    ensures
        b == execute_defined(store@, *ctx, *msg),
{
    if !ctx.authorized {
        return true;
    }
    match msg {
        ExecuteMsg::Receive(m) => {
            if !ctx.allow_listed || ctx.funds.len() > 0 || m.amount == 0 {
                return true;
            }
            match &m.msg {
                None => true,
                Some(Cw20HookMsg::Subscribe { token_id, nft_address }) => subscribe_is_defined(
                    store,
                    ctx.time,
                    &m.sender,
                    m.amount,
                    nft_address,
                ),
                Some(Cw20HookMsg::Renew { token_id, nft_address }) => renew_is_defined(
                    store,
                    ctx.time,
                    &m.sender,
                    m.amount,
                    nft_address,
                ),
            }
        },
        _ => true,
    }
}

/// Runs a message that changes the store, if it can be run: `None`, and
/// nothing changed, when the period that the message would start has no
/// representable end.
pub fn execute(store: &mut SubscriptionStore, ctx: &ExecuteContext, msg: ExecuteMsg) -> (r: Option<
    Result<Response, ContractError>,
>)
    ensures
        match r {
            Some(result) => execute_defined(old(store)@, *ctx, msg) && outcome_of(
                final(store)@,
                result,
            ) == execute_outcome(old(store)@, *ctx, msg),
            None => !execute_defined(old(store)@, *ctx, msg) && final(store)@ == old(store)@,
        },
{
    if execute_is_defined(store, ctx, &msg) {
        Some(handle_execute(store, ctx, msg))
    } else {
        None
    }
}

/// The keys of the records that a message reads or writes: the offering key
/// for a registration; the offering key and the subscriber's key for a
/// subscription; the subscriber's key for a renewal or a cancellation; none
/// where the embedded instruction could not be decoded.
pub open spec fn touched_keys(ctx: ExecuteContext, msg: ExecuteMsg) -> Seq<KeyView> {
    match msg {
        ExecuteMsg::ReceiveNft(m) => seq![offering_key(ctx.sender@)],
        ExecuteMsg::Receive(m) => match m.msg {
            Some(Cw20HookMsg::Subscribe { token_id, nft_address }) => seq![
                offering_key(nft_address@),
                (nft_address@, m.sender@),
            ],
            Some(Cw20HookMsg::Renew { token_id, nft_address }) => seq![(nft_address@, m.sender@)],
            None => Seq::empty(),
        },
        ExecuteMsg::Cancel { nft_address } => seq![(nft_address@, ctx.sender@)],
    }
}

/// The keys of the records that `msg` reads or writes. A host that keeps the
/// records elsewhere needs to bring no others, and to write back no others.
pub fn keys_touched_by(ctx: &ExecuteContext, msg: &ExecuteMsg) -> (keys: Vec<(String, String)>)
    ensures
        keys.deep_view() == touched_keys(*ctx, *msg),
{
    let mut keys: Vec<(String, String)> = Vec::new();
    match msg {
        ExecuteMsg::ReceiveNft(m) => {
            keys.push((ctx.sender.clone(), String::new()));
        },
        ExecuteMsg::Receive(m) => {
            match &m.msg {
                Some(Cw20HookMsg::Subscribe { token_id, nft_address }) => {
                    keys.push((nft_address.clone(), String::new()));
                    keys.push((nft_address.clone(), m.sender.clone()));
                },
                Some(Cw20HookMsg::Renew { token_id, nft_address }) => {
                    keys.push((nft_address.clone(), m.sender.clone()));
                },
                None => {},
            }
        },
        ExecuteMsg::Cancel { nft_address } => {
            keys.push((nft_address.clone(), ctx.sender.clone()));
        },
    }
    proof {
        assert(keys.deep_view() =~= touched_keys(*ctx, *msg));
    }
    keys
}

} // verus!
