use andromeda_subscription::contract::{
    evaluate_subscription_status, execute, execute_cancel, handle_execute, handle_receive_cw20,
    handle_receive_cw721, instantiate, keys_touched_by, query,
    query_subscription, query_subscription_ids_for_active_subscriptions,
    query_subscription_ids_for_creator, query_subscription_ids_for_subscriber,
    query_subscriptions_for_creator, query_subscriptions_for_subscriber, register_subscription,
    renew, subscribe, Coin, ExecuteContext, PermissionAction, QueryResponse,
};
use andromeda_subscription::error::ContractError;
use andromeda_subscription::state::{subscriptions, SubscriptionState, SubscriptionStore};
use andromeda_subscription::subscription::{
    Cw20HookMsg, Cw20ReceiveMsg, Cw721HookMsg, Cw721ReceiveMsg, ExecuteMsg, InstantiateMsg,
    QueryMsg,
};
use andromeda_subscription::time::{Expiration, Timestamp};

const NOW: u64 = 1_571_797_419_879_305_533;

fn now() -> Timestamp {
    Timestamp::from_nanos(NOW)
}

fn at(sender: &str, time: Timestamp) -> ExecuteContext {
    ExecuteContext {
        sender: sender.to_string(),
        funds: vec![],
        time,
        authorized: true,
        allow_listed: true,
    }
}

fn register_msg(creator: &str, token_id: &str, duration: u64, payment_amount: u128) -> ExecuteMsg {
    ExecuteMsg::ReceiveNft(Cw721ReceiveMsg {
        sender: creator.to_string(),
        token_id: token_id.to_string(),
        msg: Some(Cw721HookMsg::RegisterSubscription { duration, payment_amount }),
    })
}

fn subscribe_msg(subscriber: &str, amount: u128, offering: &str) -> ExecuteMsg {
    ExecuteMsg::Receive(Cw20ReceiveMsg {
        sender: subscriber.to_string(),
        amount,
        msg: Some(Cw20HookMsg::Subscribe {
            token_id: "token_1".to_string(),
            nft_address: offering.to_string(),
        }),
    })
}

fn renew_msg(subscriber: &str, amount: u128, offering: &str) -> ExecuteMsg {
    ExecuteMsg::Receive(Cw20ReceiveMsg {
        sender: subscriber.to_string(),
        amount,
        msg: Some(Cw20HookMsg::Renew {
            token_id: "token_1".to_string(),
            nft_address: offering.to_string(),
        }),
    })
}

fn key(offering: &str, subscriber: &str) -> (String, String) {
    (offering.to_string(), subscriber.to_string())
}

fn snapshot(store: &SubscriptionStore) -> (Vec<((String, String), SubscriptionState)>, u128) {
    (store.scan_by_primary(&None, Some(30)), store.next_subscription_id())
}

/// A store with the offering "nftC" (3600 s, fee 100) registered by "creator".
fn with_offering() -> SubscriptionStore {
    let mut store = subscriptions();
    execute(&mut store, &at("nftC", now()), register_msg("creator", "token_1", 3600, 100))
        .unwrap()
        .unwrap();
    store
}

fn conflict(text: &str) -> ContractError {
    ContractError::Conflict { msg: text.to_string() }
}

#[test]
fn register_creates_an_inactive_offering() {
    let mut store = subscriptions();
    let res = execute(&mut store, &at("nftC", now()), register_msg("creator", "token_1", 3600, 100))
        .unwrap()
        .unwrap();
    let attributes: Vec<(&str, &str)> =
        res.attributes.iter().map(|a| (a.key.as_str(), a.value.as_str())).collect();
    assert_eq!(
        attributes,
        vec![
            ("action", "register_subscription"),
            ("creator", "creator"),
            ("subscription_id", "1"),
            ("token_id", "token_1"),
            ("nft_address", "nftC"),
            ("duration", "3600"),
        ]
    );
    assert_eq!(
        store.get(&key("nftC", "")),
        Some(SubscriptionState {
            subscription_id: 1,
            creator: "creator".to_string(),
            subscriber: "".to_string(),
            token_id: "token_1".to_string(),
            nft_address: "nftC".to_string(),
            start_time: Expiration::Never,
            end_time: Expiration::Never,
            payment_amount: 100,
            payment_pending: 100,
            payment_denom: "CW20".to_string(),
            subscription_duration: 3600,
            is_active: false,
        })
    );
    assert_eq!(store.next_subscription_id(), 2);
    assert_eq!(store.len(), 1);
}

#[test]
fn a_second_registration_of_one_offering_is_a_conflict() {
    let mut store = with_offering();
    let before = snapshot(&store);
    let err = execute(&mut store, &at("nftC", now()), register_msg("someone", "token_9", 60, 5))
        .unwrap()
        .unwrap_err();
    assert_eq!(err, conflict("Subscription offering already exists for this NFT."));
    assert_eq!(snapshot(&store), before);

    // Still so after other operations on the same offering.
    execute(&mut store, &at("cw20", now()), subscribe_msg("u1", 100, "nftC")).unwrap().unwrap();
    execute(&mut store, &at("u1", now()), ExecuteMsg::Cancel { nft_address: "nftC".to_string() })
        .unwrap()
        .unwrap();
    let err = register_subscription(
        &mut store,
        "nftC".to_string(),
        "creator".to_string(),
        "token_1".to_string(),
        3600,
        100,
    )
    .unwrap_err();
    assert_eq!(err, conflict("Subscription offering already exists for this NFT."));

    // Another offering address is free.
    execute(&mut store, &at("nftD", now()), register_msg("creator", "token_1", 3600, 100))
        .unwrap()
        .unwrap();
    assert_eq!(store.len(), 3);
}

#[test]
fn subscribe_scenario_with_two_subscribers() {
    let mut store = with_offering();

    let res = execute(&mut store, &at("cw20", now()), subscribe_msg("u1", 100, "nftC"))
        .unwrap()
        .unwrap();
    let attributes: Vec<(&str, &str)> =
        res.attributes.iter().map(|a| (a.key.as_str(), a.value.as_str())).collect();
    assert_eq!(
        attributes,
        vec![
            ("action", "subscribe"),
            ("subscriber", "u1"),
            ("creator", "creator"),
            ("creator address", "nftC"),
            ("start_time", "expiration time: 1571797419.879305533"),
            ("end_time", "expiration time: 1571801019.879305533"),
            ("is_active", "true"),
        ]
    );
    let first = store.get(&key("nftC", "u1")).unwrap();
    assert!(first.is_active);
    assert_eq!(first.start_time, Expiration::AtTime(now()));
    assert_eq!(first.end_time, Expiration::AtTime(Timestamp::from_nanos(NOW + 3600 * 1_000_000_000)));
    assert_eq!(first.payment_pending, 0);
    assert_eq!(first.payment_amount, 100);
    assert_eq!(first.subscription_id, 2);
    assert_eq!(first.creator, "creator");
    assert_eq!(first.subscriber, "u1");
    assert_eq!(first.token_id, "token_1");
    assert_eq!(first.nft_address, "nftC");
    assert_eq!(first.payment_denom, "CW20");
    assert_eq!(first.subscription_duration, 3600);

    execute(&mut store, &at("cw20", now()), subscribe_msg("u2", 100, "nftC")).unwrap().unwrap();
    let second = store.get(&key("nftC", "u2")).unwrap();
    assert!(second.is_active);
    assert_eq!(second.subscription_id, 3);
    assert_eq!(second.subscriber, "u2");
    assert_eq!(store.get(&key("nftC", "u1")), Some(first));

    let before = snapshot(&store);
    let err = execute(&mut store, &at("cw20", now()), subscribe_msg("u1", 100, "nftC"))
        .unwrap()
        .unwrap_err();
    assert_eq!(
        err,
        conflict(
            "You already have a subscription to nftC offering. Please renew (if inactive) or cancel it."
        )
    );
    assert_eq!(snapshot(&store), before);

    // The offering itself is as it was.
    let offering = store.get(&key("nftC", "")).unwrap();
    assert!(!offering.is_active);
    assert_eq!(offering.payment_pending, 100);
}

#[test]
fn expired_subscription_leaves_the_active_ids_and_can_be_renewed() {
    let mut store = with_offering();
    execute(&mut store, &at("cw20", now()), subscribe_msg("u1", 100, "nftC")).unwrap().unwrap();
    execute(&mut store, &at("cw20", now()), subscribe_msg("u2", 100, "nftC")).unwrap().unwrap();
    let end = NOW + 3600 * 1_000_000_000;

    let at_end = Timestamp::from_nanos(end);
    assert_eq!(
        query_subscription_ids_for_active_subscriptions(&store, at_end, None, None),
        Ok(vec![2, 3])
    );
    let past_end = Timestamp::from_nanos(end + 1);
    assert_eq!(
        query_subscription_ids_for_active_subscriptions(&store, past_end, None, None),
        Ok(vec![])
    );
    // The query has stored nothing.
    assert!(store.get(&key("nftC", "u1")).unwrap().is_active);
    assert_eq!(store.get(&key("nftC", "u1")).unwrap().payment_pending, 0);

    let res = execute(&mut store, &at("cw20", past_end), renew_msg("u1", 100, "nftC"))
        .unwrap()
        .unwrap();
    let attributes: Vec<(&str, &str)> =
        res.attributes.iter().map(|a| (a.key.as_str(), a.value.as_str())).collect();
    assert_eq!(
        attributes,
        vec![
            ("action", "renew_subscription"),
            ("subscriber", "u1"),
            ("creator", "creator"),
            ("creator address", "nftC"),
            ("token_id", "token_1"),
            ("new_start_time", "expiration time: 1571801019.879305534"),
            ("new_end_time", "expiration time: 1571804619.879305534"),
            ("is_active", "true"),
        ]
    );
    let renewed = store.get(&key("nftC", "u1")).unwrap();
    assert!(renewed.is_active);
    assert_eq!(renewed.start_time, Expiration::AtTime(past_end));
    assert_eq!(renewed.end_time, Expiration::AtTime(past_end.plus_seconds(3600)));
    assert_eq!(renewed.payment_pending, 0);
    assert_eq!(renewed.subscription_id, 2);
    assert_eq!(renewed.creator, "creator");
    assert_eq!(renewed.token_id, "token_1");
    assert_eq!(renewed.payment_amount, 100);
    assert_eq!(renewed.subscription_duration, 3600);
    assert_eq!(store.next_subscription_id(), 4);

    assert_eq!(
        query_subscription_ids_for_active_subscriptions(&store, past_end, None, None),
        Ok(vec![2])
    );
}

#[test]
fn cancel_scenario() {
    let mut store = with_offering();
    execute(&mut store, &at("cw20", now()), subscribe_msg("u1", 100, "nftC")).unwrap().unwrap();

    let res = execute(
        &mut store,
        &at("u1", now()),
        ExecuteMsg::Cancel { nft_address: "nftC".to_string() },
    )
    .unwrap()
    .unwrap();
    let attributes: Vec<(&str, &str)> =
        res.attributes.iter().map(|a| (a.key.as_str(), a.value.as_str())).collect();
    assert_eq!(
        attributes,
        vec![
            ("action", "cancel_subscription"),
            ("creator", "creator"),
            ("subscriber", "u1"),
            ("is_active", "false"),
            ("status", "cancelled"),
        ]
    );
    let cancelled = store.get(&key("nftC", "u1")).unwrap();
    assert!(!cancelled.is_active);
    assert_eq!(cancelled.start_time, Expiration::Never);
    assert_eq!(cancelled.end_time, Expiration::Never);
    assert_eq!(cancelled.payment_pending, 100);
    assert_eq!(cancelled.payment_amount, 100);
    assert_eq!(cancelled.subscription_id, 2);
    assert_eq!(store.len(), 2);

    let before = snapshot(&store);
    let err = execute_cancel(&mut store, &at("u1", now()), "nftC".to_string()).unwrap_err();
    assert_eq!(err, conflict("Subscription is already inactive."));
    assert_eq!(snapshot(&store), before);
}

#[test]
fn cancel_of_an_expired_subscription_is_a_conflict_and_stores_nothing() {
    let mut store = with_offering();
    execute(&mut store, &at("cw20", now()), subscribe_msg("u1", 100, "nftC")).unwrap().unwrap();
    let before = snapshot(&store);
    let later = Timestamp::from_nanos(NOW + 3601 * 1_000_000_000);
    let err = execute_cancel(&mut store, &at("u1", later), "nftC".to_string()).unwrap_err();
    assert_eq!(err, conflict("Subscription is already inactive."));
    assert_eq!(snapshot(&store), before);
}

#[test]
fn only_the_subscriber_cancels_their_own_record() {
    let mut store = with_offering();
    execute(&mut store, &at("cw20", now()), subscribe_msg("u1", 100, "nftC")).unwrap().unwrap();
    let err = execute_cancel(&mut store, &at("u2", now()), "nftC".to_string()).unwrap_err();
    assert_eq!(
        err,
        ContractError::NotFound {
            msg: "No subscription found for address nftC and subscriber u2.".to_string()
        }
    );
    assert!(store.get(&key("nftC", "u1")).unwrap().is_active);
}

#[test]
fn a_wrong_amount_is_an_invalid_payment_and_changes_nothing() {
    let mut store = with_offering();
    let before = snapshot(&store);
    for amount in [1u128, 99, 101, u128::MAX] {
        let err = execute(&mut store, &at("cw20", now()), subscribe_msg("u1", amount, "nftC"))
            .unwrap()
            .unwrap_err();
        assert_eq!(
            err,
            ContractError::InvalidPayment {
                msg: format!("Invalid payment amount. Expected 100, received {}.", amount)
            }
        );
        assert_eq!(snapshot(&store), before);
    }

    execute(&mut store, &at("cw20", now()), subscribe_msg("u1", 100, "nftC")).unwrap().unwrap();
    let later = Timestamp::from_nanos(NOW + 4000 * 1_000_000_000);
    let before = snapshot(&store);
    let err = execute(&mut store, &at("cw20", later), renew_msg("u1", 99, "nftC"))
        .unwrap()
        .unwrap_err();
    assert_eq!(
        err,
        ContractError::InvalidPayment {
            msg: "Invalid payment amount. Expected 100, received 99.".to_string()
        }
    );
    assert_eq!(snapshot(&store), before);
}

#[test]
fn a_transfer_of_nothing_is_an_invalid_payment() {
    let mut store = with_offering();
    let before = snapshot(&store);
    let err = handle_receive_cw20(
        &mut store,
        &at("cw20", now()),
        Cw20ReceiveMsg {
            sender: "u1".to_string(),
            amount: 0,
            msg: Some(Cw20HookMsg::Subscribe {
                token_id: "token_1".to_string(),
                nft_address: "nftC".to_string(),
            }),
        },
    )
    .unwrap_err();
    assert_eq!(err, ContractError::InvalidPayment { msg: "Cannot send a 0 amount.".to_string() });
    // Nothing is decoded before the amount is looked at.
    let err = handle_receive_cw20(
        &mut store,
        &at("cw20", now()),
        Cw20ReceiveMsg { sender: "u1".to_string(), amount: 0, msg: None },
    )
    .unwrap_err();
    assert_eq!(err, ContractError::InvalidPayment { msg: "Cannot send a 0 amount.".to_string() });
    assert_eq!(snapshot(&store), before);
}

#[test]
fn attached_funds_are_refused() {
    let mut store = with_offering();
    let before = snapshot(&store);
    let mut ctx = at("cw20", now());
    ctx.funds = vec![Coin { denom: "uandr".to_string(), amount: 5 }];
    let err = execute(&mut store, &ctx, subscribe_msg("u1", 100, "nftC")).unwrap().unwrap_err();
    assert_eq!(
        err,
        ContractError::InvalidPayment { msg: "This message does no accept funds".to_string() }
    );
    // Funds are looked at before the amount.
    let err = execute(&mut store, &ctx, subscribe_msg("u1", 0, "nftC")).unwrap().unwrap_err();
    assert_eq!(
        err,
        ContractError::InvalidPayment { msg: "This message does no accept funds".to_string() }
    );
    assert_eq!(snapshot(&store), before);
    // A registration takes no payment and does not look at funds.
    execute(&mut store, &ExecuteContext { sender: "nftD".to_string(), ..ctx }, register_msg("c", "t", 1, 1))
        .unwrap()
        .unwrap();
    assert_eq!(store.len(), 2);
}

#[test]
fn a_sender_who_is_turned_away_is_unauthorized() {
    let mut store = with_offering();
    let before = snapshot(&store);

    let mut ctx = at("cw20", now());
    ctx.authorized = false;
    assert_eq!(
        execute(&mut store, &ctx, subscribe_msg("u1", 100, "nftC")).unwrap(),
        Err(ContractError::Unauthorized)
    );
    assert_eq!(
        execute(&mut store, &ctx, register_msg("creator", "t", 1, 1)).unwrap(),
        Err(ContractError::Unauthorized)
    );
    assert_eq!(
        execute(&mut store, &ctx, ExecuteMsg::Cancel { nft_address: "nftC".to_string() }).unwrap(),
        Err(ContractError::Unauthorized)
    );

    let mut ctx = at("cw20", now());
    ctx.allow_listed = false;
    assert_eq!(
        execute(&mut store, &ctx, subscribe_msg("u1", 0, "nftC")).unwrap(),
        Err(ContractError::Unauthorized)
    );
    assert_eq!(
        handle_receive_cw721(
            &mut store,
            &ExecuteContext { sender: "nftD".to_string(), ..ctx },
            Cw721ReceiveMsg { sender: "c".to_string(), token_id: "t".to_string(), msg: None },
        ),
        Err(ContractError::Unauthorized)
    );
    assert_eq!(snapshot(&store), before);

    // A cancellation asks for no allow-list.
    execute(&mut store, &at("cw20", now()), subscribe_msg("u1", 100, "nftC")).unwrap().unwrap();
    let mut ctx = at("u1", now());
    ctx.allow_listed = false;
    assert!(execute(&mut store, &ctx, ExecuteMsg::Cancel { nft_address: "nftC".to_string() })
        .unwrap()
        .is_ok());
}

#[test]
fn an_instruction_that_was_not_decoded_is_a_decode_error() {
    let mut store = with_offering();
    let before = snapshot(&store);
    let err = handle_execute(
        &mut store,
        &at("cw20", now()),
        ExecuteMsg::Receive(Cw20ReceiveMsg { sender: "u1".to_string(), amount: 100, msg: None }),
    )
    .unwrap_err();
    assert_eq!(err, ContractError::Decode);
    let err = handle_execute(
        &mut store,
        &at("nftD", now()),
        ExecuteMsg::ReceiveNft(Cw721ReceiveMsg {
            sender: "creator".to_string(),
            token_id: "token_1".to_string(),
            msg: None,
        }),
    )
    .unwrap_err();
    assert_eq!(err, ContractError::Decode);
    assert_eq!(snapshot(&store), before);
}

#[test]
fn subscribe_needs_an_inactive_offering() {
    let mut store = subscriptions();
    let err = subscribe(
        &mut store,
        now(),
        "u1".to_string(),
        100,
        "token_1".to_string(),
        "nftC".to_string(),
    )
    .unwrap_err();
    assert_eq!(
        err,
        ContractError::NotFound {
            msg: "No subscription offering found for creator address nftC.".to_string()
        }
    );

    let mut store = with_offering();
    let mut offering = store.get(&key("nftC", "")).unwrap();
    offering.is_active = true;
    store.put(key("nftC", ""), offering);
    let before = snapshot(&store);
    let err = subscribe(
        &mut store,
        now(),
        "u1".to_string(),
        100,
        "token_1".to_string(),
        "nftC".to_string(),
    )
    .unwrap_err();
    assert_eq!(err, conflict("This subscription is already marked as active."));
    assert_eq!(snapshot(&store), before);
}

#[test]
fn subscribing_the_empty_subscriber_meets_the_offering_itself() {
    let mut store = with_offering();
    let err = subscribe(
        &mut store,
        now(),
        "".to_string(),
        100,
        "token_1".to_string(),
        "nftC".to_string(),
    )
    .unwrap_err();
    assert_eq!(
        err,
        conflict(
            "You already have a subscription to nftC offering. Please renew (if inactive) or cancel it."
        )
    );
}

#[test]
fn renew_is_refused_while_the_subscription_is_active() {
    let mut store = with_offering();
    execute(&mut store, &at("cw20", now()), subscribe_msg("u1", 100, "nftC")).unwrap().unwrap();
    let before = snapshot(&store);

    let err = renew(
        &mut store,
        now(),
        "u1".to_string(),
        100,
        "token_1".to_string(),
        "nftC".to_string(),
    )
    .unwrap_err();
    assert_eq!(err, conflict("Subscription is already active."));

    // At the very end of the period the subscription is still active.
    let at_end = Timestamp::from_nanos(NOW + 3600 * 1_000_000_000);
    let err = renew(
        &mut store,
        at_end,
        "u1".to_string(),
        100,
        "token_1".to_string(),
        "nftC".to_string(),
    )
    .unwrap_err();
    assert_eq!(err, conflict("Subscription is already active."));
    assert_eq!(snapshot(&store), before);
}

#[test]
fn renew_is_refused_for_an_active_record_that_never_ends() {
    let mut store = with_offering();
    execute(&mut store, &at("cw20", now()), subscribe_msg("u1", 100, "nftC")).unwrap().unwrap();
    let mut record = store.get(&key("nftC", "u1")).unwrap();
    record.end_time = Expiration::Never;
    store.put(key("nftC", "u1"), record);
    let before = snapshot(&store);
    let far = Timestamp::from_nanos(NOW + 1_000_000 * 1_000_000_000);
    let err = renew(
        &mut store,
        far,
        "u1".to_string(),
        100,
        "token_1".to_string(),
        "nftC".to_string(),
    )
    .unwrap_err();
    assert_eq!(err, conflict("Subscription is already active."));
    assert_eq!(snapshot(&store), before);
}

#[test]
fn renew_after_a_cancellation_starts_a_new_period() {
    let mut store = with_offering();
    execute(&mut store, &at("cw20", now()), subscribe_msg("u1", 100, "nftC")).unwrap().unwrap();
    execute_cancel(&mut store, &at("u1", now()), "nftC".to_string()).unwrap();
    let later = Timestamp::from_nanos(NOW + 10);
    execute(&mut store, &at("cw20", later), renew_msg("u1", 100, "nftC")).unwrap().unwrap();
    let record = store.get(&key("nftC", "u1")).unwrap();
    assert!(record.is_active);
    assert_eq!(record.payment_pending, 0);
    assert_eq!(record.start_time, Expiration::AtTime(later));
    assert_eq!(record.end_time, Expiration::AtTime(later.plus_seconds(3600)));
}

#[test]
fn renew_of_a_missing_subscription_is_not_found() {
    let mut store = with_offering();
    let err = execute(&mut store, &at("cw20", now()), renew_msg("u1", 100, "nftC"))
        .unwrap()
        .unwrap_err();
    assert_eq!(
        err,
        ContractError::NotFound {
            msg: "No subscription found for creator address nftC and subscriber u1.".to_string()
        }
    );
}

#[test]
fn ids_ascend_without_gaps_whatever_fails_in_between() {
    let mut store = subscriptions();
    let time = now();
    execute(&mut store, &at("nftA", time), register_msg("alice", "t", 60, 10)).unwrap().unwrap();
    // Refused: registered already.
    execute(&mut store, &at("nftA", time), register_msg("alice", "t", 60, 10)).unwrap().unwrap_err();
    execute(&mut store, &at("cw20", time), subscribe_msg("u1", 10, "nftA")).unwrap().unwrap();
    // Refused: wrong amount, no offering, turned away.
    execute(&mut store, &at("cw20", time), subscribe_msg("u2", 11, "nftA")).unwrap().unwrap_err();
    execute(&mut store, &at("cw20", time), subscribe_msg("u2", 10, "nftZ")).unwrap().unwrap_err();
    let mut refused = at("cw20", time);
    refused.authorized = false;
    execute(&mut store, &refused, subscribe_msg("u2", 10, "nftA")).unwrap().unwrap_err();
    execute(&mut store, &at("nftB", time), register_msg("bob", "t", 60, 10)).unwrap().unwrap();
    // A cancellation and a renewal take no id.
    execute(&mut store, &at("u1", time), ExecuteMsg::Cancel { nft_address: "nftA".to_string() })
        .unwrap()
        .unwrap();
    execute(&mut store, &at("cw20", time), renew_msg("u1", 10, "nftA")).unwrap().unwrap();
    execute(&mut store, &at("cw20", time), subscribe_msg("u2", 10, "nftA")).unwrap().unwrap();

    assert_eq!(store.get(&key("nftA", "")).unwrap().subscription_id, 1);
    assert_eq!(store.get(&key("nftA", "u1")).unwrap().subscription_id, 2);
    assert_eq!(store.get(&key("nftB", "")).unwrap().subscription_id, 3);
    assert_eq!(store.get(&key("nftA", "u2")).unwrap().subscription_id, 4);
    assert_eq!(store.next_subscription_id(), 5);
}

#[test]
fn no_record_is_created_when_no_id_is_left() {
    let mut store = with_offering();
    store.set_next_subscription_id(u128::MAX);
    let before = snapshot(&store);
    assert_eq!(
        execute(&mut store, &at("cw20", now()), subscribe_msg("u1", 100, "nftC")).unwrap(),
        Err(ContractError::Overflow)
    );
    assert_eq!(
        execute(&mut store, &at("nftD", now()), register_msg("c", "t", 1, 1)).unwrap(),
        Err(ContractError::Overflow)
    );
    assert_eq!(snapshot(&store), before);
}

#[test]
fn a_period_without_a_representable_end_is_not_started() {
    let mut store = subscriptions();
    execute(&mut store, &at("nftC", now()), register_msg("creator", "t", u64::MAX, 100))
        .unwrap()
        .unwrap();
    let before = snapshot(&store);
    assert_eq!(execute(&mut store, &at("cw20", now()), subscribe_msg("u1", 100, "nftC")), None);
    assert_eq!(snapshot(&store), before);
    // Where the message is refused anyway, it is refused.
    assert_eq!(
        execute(&mut store, &at("cw20", now()), subscribe_msg("u1", 99, "nftC")),
        Some(Err(ContractError::InvalidPayment {
            msg: "Invalid payment amount. Expected 100, received 99.".to_string()
        }))
    );

    let mut record = store.get(&key("nftC", "")).unwrap();
    record.subscriber = "u1".to_string();
    store.put(key("nftC", "u1"), record);
    assert_eq!(execute(&mut store, &at("cw20", now()), renew_msg("u1", 100, "nftC")), None);
    assert!(!store.get(&key("nftC", "u1")).unwrap().is_active);
}

#[test]
fn evaluation_flips_an_expired_record_once_and_for_all() {
    let end = Timestamp::from_nanos(1_000);
    let stored = SubscriptionState {
        subscription_id: 9,
        creator: "creator".to_string(),
        subscriber: "u1".to_string(),
        token_id: "t".to_string(),
        nft_address: "nft".to_string(),
        start_time: Expiration::AtTime(Timestamp::from_nanos(0)),
        end_time: Expiration::AtTime(end),
        payment_amount: 100,
        payment_pending: 0,
        payment_denom: "CW20".to_string(),
        subscription_duration: 1,
        is_active: true,
    };

    let mut at_end = stored.clone();
    evaluate_subscription_status(&mut at_end, end);
    assert_eq!(at_end, stored);

    let mut past = stored.clone();
    evaluate_subscription_status(&mut past, Timestamp::from_nanos(1_001));
    assert!(!past.is_active);
    assert_eq!(past.payment_pending, 100);
    assert_eq!(past.end_time, stored.end_time);
    assert_eq!(past.start_time, stored.start_time);
    assert_eq!(past.subscription_id, 9);

    let once = past.clone();
    evaluate_subscription_status(&mut past, Timestamp::from_nanos(1_001));
    assert_eq!(past, once);
    evaluate_subscription_status(&mut past, Timestamp::from_nanos(u64::MAX));
    assert_eq!(past, once);
    evaluate_subscription_status(&mut past, Timestamp::from_nanos(0));
    assert_eq!(past, once);
}

#[test]
fn evaluation_leaves_other_records_alone() {
    let base = SubscriptionState {
        subscription_id: 9,
        creator: "creator".to_string(),
        subscriber: "u1".to_string(),
        token_id: "t".to_string(),
        nft_address: "nft".to_string(),
        start_time: Expiration::Never,
        end_time: Expiration::Never,
        payment_amount: 100,
        payment_pending: 0,
        payment_denom: "CW20".to_string(),
        subscription_duration: 1,
        is_active: true,
    };
    let late = Timestamp::from_nanos(u64::MAX);

    let mut never = base.clone();
    evaluate_subscription_status(&mut never, late);
    assert_eq!(never, base);

    let mut height = base.clone();
    height.end_time = Expiration::AtHeight(1);
    let expected = height.clone();
    evaluate_subscription_status(&mut height, late);
    assert_eq!(height, expected);

    let mut inactive = base.clone();
    inactive.is_active = false;
    inactive.end_time = Expiration::AtTime(Timestamp::from_nanos(1));
    inactive.payment_pending = 7;
    let expected = inactive.clone();
    evaluate_subscription_status(&mut inactive, late);
    assert_eq!(inactive, expected);
}

#[test]
fn queries_show_the_evaluated_record_and_store_nothing() {
    let mut store = with_offering();
    execute(&mut store, &at("cw20", now()), subscribe_msg("u1", 100, "nftC")).unwrap().unwrap();
    let later = Timestamp::from_nanos(NOW + 3601 * 1_000_000_000);

    let seen = query_subscription(&store, "nftC".to_string(), later, "u1".to_string()).unwrap();
    assert!(!seen.is_active);
    assert_eq!(seen.payment_pending, 100);
    let stored = store.get(&key("nftC", "u1")).unwrap();
    assert!(stored.is_active);
    assert_eq!(stored.payment_pending, 0);

    let listed = query_subscriptions_for_creator(&store, "nftC".to_string(), later, None, None)
        .unwrap();
    assert_eq!(listed.len(), 2);
    assert_eq!(listed[0].subscriber, "");
    assert_eq!(listed[1], seen);

    let err = query_subscription(&store, "nftC".to_string(), later, "u2".to_string()).unwrap_err();
    assert_eq!(
        err,
        ContractError::NotFound {
            msg: "No subscription found for creator 'nftC' and subscriber 'u2'.".to_string()
        }
    );
    assert_eq!(
        query(
            &store,
            later,
            QueryMsg::Subscription { creator: "x".to_string(), subscriber: "y".to_string() }
        ),
        Err(ContractError::NotFound {
            msg: "No subscription found for creator 'x' and subscriber 'y'.".to_string()
        })
    );
}

#[test]
fn listings_select_by_offering_and_by_subscriber() {
    let mut store = subscriptions();
    let time = now();
    execute(&mut store, &at("nftA", time), register_msg("alice", "t", 60, 10)).unwrap().unwrap();
    execute(&mut store, &at("nftB", time), register_msg("bob", "t", 60, 10)).unwrap().unwrap();
    execute(&mut store, &at("cw20", time), subscribe_msg("u2", 10, "nftA")).unwrap().unwrap();
    execute(&mut store, &at("cw20", time), subscribe_msg("u1", 10, "nftB")).unwrap().unwrap();
    execute(&mut store, &at("cw20", time), subscribe_msg("u1", 10, "nftA")).unwrap().unwrap();

    assert_eq!(
        query_subscription_ids_for_creator(&store, "nftA".to_string(), time, None, None),
        Ok(vec![1, 5, 3])
    );
    assert_eq!(
        query_subscription_ids_for_creator(&store, "nftB".to_string(), time, None, Some(1)),
        Ok(vec![2])
    );
    assert_eq!(
        query_subscription_ids_for_creator(
            &store,
            "nftB".to_string(),
            time,
            Some(key("nftB", "")),
            Some(1)
        ),
        Ok(vec![4])
    );
    // The listing goes by the offering address of the key, not by the creator.
    assert_eq!(
        query_subscription_ids_for_creator(&store, "alice".to_string(), time, None, None),
        Ok(vec![])
    );
    assert_eq!(
        query_subscription_ids_for_subscriber(&store, "u1".to_string(), time, None, None),
        Ok(vec![5, 4])
    );
    assert_eq!(
        query_subscription_ids_for_subscriber(&store, "".to_string(), time, None, None),
        Ok(vec![1, 2])
    );
    let of_u1 =
        query_subscriptions_for_subscriber(&store, "u1".to_string(), time, None, None).unwrap();
    assert_eq!(of_u1.len(), 2);
    assert_eq!(of_u1[0].nft_address, "nftA");
    assert_eq!(of_u1[1].nft_address, "nftB");
    assert_eq!(
        query_subscriptions_for_subscriber(
            &store,
            "u1".to_string(),
            time,
            Some(key("nftA", "u1")),
            None
        )
        .unwrap(),
        vec![store.get(&key("nftB", "u1")).unwrap()]
    );

    assert_eq!(
        query(
            &store,
            time,
            QueryMsg::SubscriptionIdsForSubscriber {
                subscriber: "u2".to_string(),
                start_after: None,
                limit: None
            }
        ),
        Ok(QueryResponse::SubscriptionIds(vec![3]))
    );
    assert_eq!(
        query(
            &store,
            time,
            QueryMsg::SubscriptionIdsForCreator {
                creator: "nftA".to_string(),
                start_after: Some(key("nftA", "")),
                limit: Some(1)
            }
        ),
        Ok(QueryResponse::SubscriptionIds(vec![5]))
    );
    assert_eq!(
        query(
            &store,
            time,
            QueryMsg::SubscriptionsForSubscriber {
                subscriber: "u2".to_string(),
                start_after: None,
                limit: None
            }
        ),
        Ok(QueryResponse::Subscriptions(vec![store.get(&key("nftA", "u2")).unwrap()]))
    );
}

#[test]
fn the_active_listing_takes_its_page_after_it_has_selected() {
    let mut store = subscriptions();
    let time = now();
    execute(&mut store, &at("nftA", time), register_msg("alice", "t", 60, 10)).unwrap().unwrap();
    for user in ["u1", "u2", "u3", "u4"] {
        execute(&mut store, &at("cw20", time), subscribe_msg(user, 10, "nftA")).unwrap().unwrap();
    }
    execute_cancel(&mut store, &at("u2", time), "nftA".to_string()).unwrap();

    // The offering and the cancelled record are passed over, not counted.
    assert_eq!(
        query_subscription_ids_for_active_subscriptions(&store, time, None, Some(2)),
        Ok(vec![2, 4])
    );
    assert_eq!(
        query_subscription_ids_for_active_subscriptions(
            &store,
            time,
            Some(key("nftA", "u3")),
            Some(2)
        ),
        Ok(vec![5])
    );
    assert_eq!(
        query_subscription_ids_for_active_subscriptions(&store, time, None, Some(0)),
        Ok(vec![])
    );
}

#[test]
fn walking_a_listing_with_limit_one_yields_the_whole_listing() {
    let mut store = subscriptions();
    let time = now();
    for offering in ["nftA", "nftB", "nftC"] {
        execute(&mut store, &at(offering, time), register_msg("alice", "t", 60, 10))
            .unwrap()
            .unwrap();
        for user in ["u1", "u2", "u3"] {
            execute(&mut store, &at("cw20", time), subscribe_msg(user, 10, offering))
                .unwrap()
                .unwrap();
        }
    }
    let whole =
        query_subscriptions_for_subscriber(&store, "u2".to_string(), time, None, Some(30)).unwrap();
    assert_eq!(whole.len(), 3);

    let mut walked: Vec<SubscriptionState> = Vec::new();
    let mut cursor: Option<(String, String)> = None;
    loop {
        let page =
            query_subscriptions_for_subscriber(&store, "u2".to_string(), time, cursor, Some(1))
                .unwrap();
        if page.is_empty() {
            break;
        }
        assert_eq!(page.len(), 1);
        cursor = Some((page[0].nft_address.clone(), page[0].subscriber.clone()));
        walked.push(page[0].clone());
    }
    assert_eq!(walked, whole);
}

#[test]
fn instantiate_asks_for_the_token_contracts_first() {
    let set_up = instantiate(InstantiateMsg {
        authorized_cw20_addresses: Some(vec!["cw20_a".to_string(), "cw20_b".to_string()]),
        authorized_token_addresses: Some(vec!["nft_a".to_string()]),
    });
    assert_eq!(set_up.store.len(), 0);
    assert_eq!(set_up.store.next_subscription_id(), 1);
    assert_eq!(set_up.authorizations.len(), 2);
    assert_eq!(set_up.authorizations[0].action, PermissionAction::SendNft);
    assert_eq!(set_up.authorizations[0].addresses, vec!["nft_a".to_string()]);
    assert_eq!(set_up.authorizations[1].action, PermissionAction::SendCw20);
    assert_eq!(
        set_up.authorizations[1].addresses,
        vec!["cw20_a".to_string(), "cw20_b".to_string()]
    );

    let empty_lists = instantiate(InstantiateMsg {
        authorized_cw20_addresses: Some(vec![]),
        authorized_token_addresses: None,
    });
    assert_eq!(empty_lists.authorizations.len(), 1);
    assert_eq!(empty_lists.authorizations[0].action, PermissionAction::SendCw20);
    assert!(empty_lists.authorizations[0].addresses.is_empty());
}

#[test]
fn a_message_touches_the_keys_it_names() {
    let ctx = at("sender", now());
    assert_eq!(keys_touched_by(&ctx, &register_msg("creator", "t", 1, 1)), vec![key("sender", "")]);
    assert_eq!(
        keys_touched_by(&ctx, &subscribe_msg("u1", 1, "nftC")),
        vec![key("nftC", ""), key("nftC", "u1")]
    );
    assert_eq!(keys_touched_by(&ctx, &renew_msg("u1", 1, "nftC")), vec![key("nftC", "u1")]);
    assert_eq!(
        keys_touched_by(&ctx, &ExecuteMsg::Cancel { nft_address: "nftC".to_string() }),
        vec![key("nftC", "sender")]
    );
    assert_eq!(
        keys_touched_by(
            &ctx,
            &ExecuteMsg::Receive(Cw20ReceiveMsg { sender: "u1".to_string(), amount: 1, msg: None })
        ),
        Vec::<(String, String)>::new()
    );
}

#[test]
fn a_store_that_holds_only_the_touched_records_gives_the_same_result() {
    let mut whole = subscriptions();
    let time = now();
    for offering in ["nftA", "nftB"] {
        execute(&mut whole, &at(offering, time), register_msg("alice", "t", 60, 10))
            .unwrap()
            .unwrap();
        execute(&mut whole, &at("cw20", time), subscribe_msg("u1", 10, offering)).unwrap().unwrap();
    }
    let ctx = at("cw20", time);
    let touched = keys_touched_by(&ctx, &subscribe_msg("u2", 10, "nftB"));

    let mut part = subscriptions();
    for k in &touched {
        if let Some(record) = whole.get(k) {
            part.put(k.clone(), record);
        }
    }
    part.set_next_subscription_id(whole.next_subscription_id());
    assert_eq!(part.len(), 1);

    let in_whole = execute(&mut whole, &ctx, subscribe_msg("u2", 10, "nftB"));
    let in_part = execute(&mut part, &ctx, subscribe_msg("u2", 10, "nftB"));
    assert_eq!(in_whole, in_part);
    for k in &touched {
        assert_eq!(whole.get(k), part.get(k));
    }
    assert_eq!(whole.next_subscription_id(), part.next_subscription_id());
    assert_eq!(whole.get(&key("nftB", "u2")).unwrap().subscription_id, 5);
}
