//! What holds of the engine whatever it is asked to do.

use crate::contract::{
    execute_defined, execute_outcome, offering_key, register_outcome, renew_outcome,
    subscribe_outcome, touched_keys, ExecuteContext,
};
use crate::error::{offering_exists_text, wrong_amount_text, ErrorView};
use crate::key::{
    key_lt, lemma_key_lt_asymmetric, lemma_key_lt_irreflexive, strictly_sorted, KeyView,
};
use crate::model::{
    above, lemma_above_is_suffix, lemma_filter_agrees, lemma_filter_both,
    lemma_matching_is_exact, lemma_put_wf,
    page_size, RecordFilter, StoreView, SubscriptionView,
};
use crate::subscription::{Cw20HookMsg, ExecuteMsg};
use crate::time::{Expiration, Timestamp};
use vstd::prelude::*;

verus! {

/// Evaluating a record a second time at the same instant changes nothing; nor
/// does a second evaluation at any instant, once the first has left the
/// record inactive.
pub proof fn lemma_evaluate_is_idempotent(record: SubscriptionView, now: Timestamp, later: Timestamp)
    ensures
        record.evaluate(now).evaluate(now) == record.evaluate(now),
        !record.evaluate(now).is_active ==> record.evaluate(now).evaluate(later)
            == record.evaluate(now),
{
}

/// A record that expired is inactive and owes its full fee, however often it
/// is evaluated.
pub proof fn lemma_expired_record_owes_the_fee(
    record: SubscriptionView,
    now: Timestamp,
    later: Timestamp,
)
    requires
        record.expired_at(now),
    ensures
        !record.evaluate(now).is_active,
        record.evaluate(now).payment_pending == record.payment_amount,
        record.evaluate(now).evaluate(later) == record.evaluate(now),
{
}

/// A record whose period never ends is never changed by evaluation.
pub proof fn lemma_never_does_not_expire(record: SubscriptionView, now: Timestamp)
    requires
        record.end_time == Expiration::Never,
    ensures
        record.evaluate(now) == record,
{
}

/// An operation that is refused changes nothing.
pub proof fn lemma_refusal_changes_nothing(s: StoreView, ctx: ExecuteContext, msg: ExecuteMsg)
    requires
        execute_outcome(s, ctx, msg).result is Err,
    ensures
        execute_outcome(s, ctx, msg).store == s,
{
}

/// Every operation keeps the store well formed.
pub proof fn lemma_execute_keeps_wf(s: StoreView, ctx: ExecuteContext, msg: ExecuteMsg)
    requires
        s.wf(),
    ensures
        execute_outcome(s, ctx, msg).store.wf(),
{
    let out = execute_outcome(s, ctx, msg);
    if out.result is Ok {
        match msg {
            ExecuteMsg::ReceiveNft(m) => {
                let key = offering_key(ctx.sender@);
                lemma_put_wf(s.advance_id(), key, out.store.records[key]);
            },
            ExecuteMsg::Receive(m) => {
                match m.msg {
                    Some(Cw20HookMsg::Subscribe { token_id, nft_address }) => {
                        let key = (nft_address@, m.sender@);
                        lemma_put_wf(s.advance_id(), key, out.store.records[key]);
                    },
                    Some(Cw20HookMsg::Renew { token_id, nft_address }) => {
                        let key = (nft_address@, m.sender@);
                        lemma_put_wf(s, key, out.store.records[key]);
                    },
                    None => {},
                }
            },
            ExecuteMsg::Cancel { nft_address } => {
                let key = (nft_address@, ctx.sender@);
                lemma_put_wf(s, key, out.store.records[key]);
            },
        }
    }
}

/// No operation removes a record, and none changes the id of a record.
pub proof fn lemma_records_are_kept(s: StoreView, ctx: ExecuteContext, msg: ExecuteMsg, key: KeyView)
    requires
        s.records.contains_key(key),
    ensures
        execute_outcome(s, ctx, msg).store.records.contains_key(key),
        execute_outcome(s, ctx, msg).store.records[key].subscription_id
            == s.records[key].subscription_id,
{
}

/// The store after a run of messages, each with its context.
pub open spec fn run(s: StoreView, steps: Seq<(ExecuteContext, ExecuteMsg)>) -> StoreView
    decreases steps.len(),
{
    if steps.len() == 0 {
        s
    } else {
        execute_outcome(run(s, steps.drop_last()), steps.last().0, steps.last().1).store
    }
}

/// The key under which a message creates a record, if it does: the offering
/// key for a registration that succeeds, the subscriber's key for a
/// subscription that succeeds.
pub open spec fn created_key(s: StoreView, ctx: ExecuteContext, msg: ExecuteMsg) -> Option<
    KeyView,
> {
    if execute_outcome(s, ctx, msg).result is Err {
        None
    } else {
        match msg {
            ExecuteMsg::ReceiveNft(m) => Some(offering_key(ctx.sender@)),
            ExecuteMsg::Receive(m) => match m.msg {
                Some(Cw20HookMsg::Subscribe { token_id, nft_address }) => Some(
                    (nft_address@, m.sender@),
                ),
                _ => None,
            },
            ExecuteMsg::Cancel { nft_address } => None,
        }
    }
}

/// The ids that a run of messages assigns, in the order of the run.
pub open spec fn created_ids(s: StoreView, steps: Seq<(ExecuteContext, ExecuteMsg)>) -> Seq<u128>
    decreases steps.len(),
{
    if steps.len() == 0 {
        Seq::empty()
    } else {
        let before = run(s, steps.drop_last());
        let earlier = created_ids(s, steps.drop_last());
        match created_key(before, steps.last().0, steps.last().1) {
            Some(key) => earlier.push(
                execute_outcome(before, steps.last().0, steps.last().1).store.records[key].subscription_id,
            ),
            None => earlier,
        }
    }
}

/// A message that creates a record gives it the id of the counter, under a
/// key that was free, and moves the counter on by one. Any other message, and
/// any that is refused, leaves the counter where it was.
pub proof fn lemma_creation_takes_the_next_id(s: StoreView, ctx: ExecuteContext, msg: ExecuteMsg)
    ensures
        match created_key(s, ctx, msg) {
            Some(key) => {
                &&& !s.records.contains_key(key)
                &&& execute_outcome(s, ctx, msg).store.records.contains_key(key)
                &&& execute_outcome(s, ctx, msg).store.records[key].subscription_id == s.next_id
                &&& execute_outcome(s, ctx, msg).store.next_id == s.next_id + 1
            },
            None => execute_outcome(s, ctx, msg).store.next_id == s.next_id,
        },
{
}

/// The ids that a run of messages assigns are the counter's values in turn:
/// the first new record gets the id that the counter showed at the start, each
/// further one the next number. They ascend strictly and without a gap,
/// whatever was refused in between.
pub proof fn lemma_ids_are_monotonic(s: StoreView, steps: Seq<(ExecuteContext, ExecuteMsg)>)
    ensures
        run(s, steps).next_id == s.next_id + created_ids(s, steps).len(),
        forall|i: int|
            0 <= i < created_ids(s, steps).len() ==> #[trigger] created_ids(s, steps)[i]
                == s.next_id + i,
        forall|i: int, j: int|
            0 <= i < j < created_ids(s, steps).len() ==> created_ids(s, steps)[i] < created_ids(
                s,
                steps,
            )[j],
    decreases steps.len(),
{
    if steps.len() > 0 {
        lemma_ids_are_monotonic(s, steps.drop_last());
        lemma_creation_takes_the_next_id(
            run(s, steps.drop_last()),
            steps.last().0,
            steps.last().1,
        );
    }
}

/// Whether every record has an id below the counter.
pub open spec fn ids_below_counter(s: StoreView) -> bool {
    forall|k: KeyView| #[trigger] s.records.contains_key(k) ==> s.records[k].subscription_id < s.next_id
}

/// Whether no two records share an id.
pub open spec fn ids_are_distinct(s: StoreView) -> bool {
    forall|a: KeyView, b: KeyView|
        #[trigger] s.records.contains_key(a) && #[trigger] s.records.contains_key(b) && a != b
            ==> s.records[a].subscription_id != s.records[b].subscription_id
}

/// Where every id is below the counter and no two records share an id, that is
/// still so after any message: an id is never handed out twice.
pub proof fn lemma_ids_stay_unique(s: StoreView, ctx: ExecuteContext, msg: ExecuteMsg)
    requires
        ids_below_counter(s),
        ids_are_distinct(s),
    ensures
        ids_below_counter(execute_outcome(s, ctx, msg).store),
        ids_are_distinct(execute_outcome(s, ctx, msg).store),
{
    let out = execute_outcome(s, ctx, msg).store;
    lemma_creation_takes_the_next_id(s, ctx, msg);
    assert forall|k: KeyView| #[trigger] out.records.contains_key(k) implies out.records[k].subscription_id
        < out.next_id by {
        if s.records.contains_key(k) {
            lemma_records_are_kept(s, ctx, msg, k);
        }
    }
    assert forall|a: KeyView, b: KeyView|
        #[trigger] out.records.contains_key(a) && #[trigger] out.records.contains_key(b) && a
            != b implies out.records[a].subscription_id != out.records[b].subscription_id by {
        if s.records.contains_key(a) {
            lemma_records_are_kept(s, ctx, msg, a);
        }
        if s.records.contains_key(b) {
            lemma_records_are_kept(s, ctx, msg, b);
        }
    }
}

/// Once an offering is registered, registering it again is refused as a
/// conflict and changes nothing.
pub proof fn lemma_second_registration_conflicts(
    s: StoreView,
    nft_address: Seq<char>,
    creator: Seq<char>,
    token_id: Seq<char>,
    duration: u64,
    payment_amount: u128,
    second_creator: Seq<char>,
    second_token_id: Seq<char>,
    second_duration: u64,
    second_payment_amount: u128,
)
    requires
        register_outcome(s, nft_address, creator, token_id, duration, payment_amount).result is Ok,
    ensures
        ({
            let first = register_outcome(
                s,
                nft_address,
                creator,
                token_id,
                duration,
                payment_amount,
            );
            let second = register_outcome(
                first.store,
                nft_address,
                second_creator,
                second_token_id,
                second_duration,
                second_payment_amount,
            );
            &&& second.result == Err::<Seq<(Seq<char>, Seq<char>)>, ErrorView>(
                ErrorView::Conflict { msg: offering_exists_text() },
            )
            &&& second.store == first.store
        }),
{
}

/// An offering that is registered stays registered through any run of
/// messages, so that registering it again is always refused as a conflict.
pub proof fn lemma_offering_is_registered_once(
    s: StoreView,
    steps: Seq<(ExecuteContext, ExecuteMsg)>,
    nft_address: Seq<char>,
    creator: Seq<char>,
    token_id: Seq<char>,
    duration: u64,
    payment_amount: u128,
)
    requires
        s.records.contains_key(offering_key(nft_address)),
    ensures
        run(s, steps).records.contains_key(offering_key(nft_address)),
        register_outcome(
            run(s, steps),
            nft_address,
            creator,
            token_id,
            duration,
            payment_amount,
        ).result == Err::<Seq<(Seq<char>, Seq<char>)>, ErrorView>(
            ErrorView::Conflict { msg: offering_exists_text() },
        ),
    decreases steps.len(),
{
    if steps.len() > 0 {
        lemma_offering_is_registered_once(
            s,
            steps.drop_last(),
            nft_address,
            creator,
            token_id,
            duration,
            payment_amount,
        );
        lemma_records_are_kept(
            run(s, steps.drop_last()),
            steps.last().0,
            steps.last().1,
            offering_key(nft_address),
        );
    }
}

/// In a well-formed store no key occurs twice: there is at most one record
/// for each pair of offering address and subscriber, and so at most one
/// offering for each address.
pub proof fn lemma_keys_are_unique(s: StoreView, i: int, j: int)
    requires
        s.wf(),
        0 <= i < s.order.len(),
        0 <= j < s.order.len(),
        s.order[i] == s.order[j],
    ensures
        i == j,
{
    lemma_key_lt_irreflexive(s.order[i]);
    if i < j {
        assert(key_lt(s.order[i], s.order[j]));
    } else if j < i {
        assert(key_lt(s.order[j], s.order[i]));
    }
}

/// A subscription that succeeds was paid exactly and leaves nothing pending.
pub proof fn lemma_subscription_is_settled(
    s: StoreView,
    now: Timestamp,
    subscriber: Seq<char>,
    amount: u128,
    token_id: Seq<char>,
    nft_address: Seq<char>,
)
    requires
        subscribe_outcome(s, now, subscriber, amount, token_id, nft_address).result is Ok,
    ensures
        amount == s.records[offering_key(nft_address)].payment_amount,
        subscribe_outcome(s, now, subscriber, amount, token_id, nft_address).store.records[(
            nft_address,
            subscriber,
        )].payment_pending == 0,
        subscribe_outcome(s, now, subscriber, amount, token_id, nft_address).store.records[(
            nft_address,
            subscriber,
        )].is_active,
{
}

/// A renewal that succeeds was paid exactly and leaves nothing pending.
pub proof fn lemma_renewal_is_settled(
    s: StoreView,
    now: Timestamp,
    subscriber: Seq<char>,
    amount: u128,
    token_id: Seq<char>,
    nft_address: Seq<char>,
)
    requires
        renew_outcome(s, now, subscriber, amount, token_id, nft_address).result is Ok,
    ensures
        amount == s.records[(nft_address, subscriber)].payment_amount,
        renew_outcome(s, now, subscriber, amount, token_id, nft_address).store.records[(
            nft_address,
            subscriber,
        )].payment_pending == 0,
        renew_outcome(s, now, subscriber, amount, token_id, nft_address).store.records[(
            nft_address,
            subscriber,
        )].is_active,
{
}

/// A subscription that could go ahead but for its payment is refused as an
/// invalid payment, and changes nothing.
pub proof fn lemma_subscription_needs_exact_payment(
    s: StoreView,
    now: Timestamp,
    subscriber: Seq<char>,
    amount: u128,
    token_id: Seq<char>,
    nft_address: Seq<char>,
)
    requires
        s.records.contains_key(offering_key(nft_address)),
        !s.records[offering_key(nft_address)].is_active,
        !s.records.contains_key((nft_address, subscriber)),
        amount != s.records[offering_key(nft_address)].payment_amount,
    ensures
        subscribe_outcome(s, now, subscriber, amount, token_id, nft_address).result == Err::<
            Seq<(Seq<char>, Seq<char>)>,
            ErrorView,
        >(
            ErrorView::InvalidPayment {
                msg: wrong_amount_text(s.records[offering_key(nft_address)].payment_amount, amount),
            },
        ),
        subscribe_outcome(s, now, subscriber, amount, token_id, nft_address).store == s,
{
}

/// A renewal of an existing record with any payment but the fee is refused
/// as an invalid payment, and changes nothing.
pub proof fn lemma_renewal_needs_exact_payment(
    s: StoreView,
    now: Timestamp,
    subscriber: Seq<char>,
    amount: u128,
    token_id: Seq<char>,
    nft_address: Seq<char>,
)
    requires
        s.records.contains_key((nft_address, subscriber)),
        amount != s.records[(nft_address, subscriber)].payment_amount,
    ensures
        renew_outcome(s, now, subscriber, amount, token_id, nft_address).result == Err::<
            Seq<(Seq<char>, Seq<char>)>,
            ErrorView,
        >(
            ErrorView::InvalidPayment {
                msg: wrong_amount_text(s.records[(nft_address, subscriber)].payment_amount, amount),
            },
        ),
        renew_outcome(s, now, subscriber, amount, token_id, nft_address).store == s,
{
}

/// A listing holds each key of the store that its condition selects, once,
/// in ascending order, and nothing else.
pub proof fn lemma_listing_is_exact(s: StoreView, filter: RecordFilter)
    requires
        s.wf(),
    ensures
        strictly_sorted(s.matching(None, filter)),
        forall|k: KeyView|
            s.matching(None, filter).contains(k) <==> s.records.contains_key(k) && filter(
                k,
                s.records[k],
            ),
{
    lemma_matching_is_exact(s, None, filter);
}

/// A listing that resumes after a cursor holds the keys of the whole listing
/// that are above the cursor.
pub proof fn lemma_listing_after_cursor(s: StoreView, filter: RecordFilter, cursor: KeyView)
    ensures
        s.matching(Some(cursor), filter) == s.matching(None, filter).filter(above(cursor)),
{
    let whole = s.listed(None, filter);
    let rest = s.listed(Some(cursor), filter);
    let both = |k: KeyView| above(cursor)(k) && whole(k);
    lemma_filter_both(s.order, whole, above(cursor));
    lemma_filter_agrees(s.order, rest, both);
}

/// The page after the `j`-th key of a listing starts with the next key and
/// holds the keys that follow, as many as the page size allows: the first
/// page holds the first keys; no key is skipped and none comes twice.
pub proof fn lemma_pages_follow_each_other(
    s: StoreView,
    filter: RecordFilter,
    limit: Option<u64>,
    j: int,
)
    requires
        s.wf(),
        0 <= j < s.matching(None, filter).len(),
    ensures
        ({
            let all = s.matching(None, filter);
            let size = page_size(limit) as int;
            let end = if j + 1 + size <= all.len() {
                j + 1 + size
            } else {
                all.len() as int
            };
            let first_end = if size <= all.len() {
                size
            } else {
                all.len() as int
            };
            &&& s.page(Some(all[j]), limit, filter) == all.subrange(j + 1, end)
            &&& s.page(None, limit, filter) == all.subrange(0, first_end)
        }),
{
    let all = s.matching(None, filter);
    lemma_listing_is_exact(s, filter);
    lemma_listing_after_cursor(s, filter, all[j]);
    lemma_key_lt_irreflexive(all[j]);
    assert forall|i: int| 0 <= i < j + 1 implies !key_lt(all[j], all[i]) by {
        if i < j {
            lemma_key_lt_asymmetric(all[i], all[j]);
        }
    }
    lemma_above_is_suffix(all, all[j], j + 1);
    let size = page_size(limit) as int;
    let rest = all.skip(j + 1);
    if rest.len() <= size {
        assert(rest =~= all.subrange(j + 1, all.len() as int));
    } else {
        assert(rest.take(size) =~= all.subrange(j + 1, j + 1 + size));
    }
    if all.len() <= size {
        assert(all =~= all.subrange(0, all.len() as int));
    } else {
        assert(all.take(size) =~= all.subrange(0, size));
    }
}

/// The keys that a walk through a listing collects: page after page, each
/// resumed after the last key of the one before, until a page comes back
/// empty or `rounds` pages were read.
pub open spec fn walk(
    s: StoreView,
    filter: RecordFilter,
    limit: Option<u64>,
    start_after: Option<KeyView>,
    rounds: nat,
) -> Seq<KeyView>
    decreases rounds,
{
    if rounds == 0 {
        Seq::empty()
    } else {
        let page = s.page(start_after, limit, filter);
        if page.len() == 0 {
            page
        } else {
            page + walk(s, filter, limit, Some(page.last()), (rounds - 1) as nat)
        }
    }
}

proof fn lemma_walk_from(
    s: StoreView,
    filter: RecordFilter,
    limit: Option<u64>,
    j: int,
    rounds: nat,
)
    requires
        s.wf(),
        page_size(limit) >= 1,
        0 <= j <= s.matching(None, filter).len(),
        rounds > s.matching(None, filter).len() - j,
    ensures
        walk(
            s,
            filter,
            limit,
            if j == 0 {
                None
            } else {
                Some(s.matching(None, filter)[j - 1])
            },
            rounds,
        ) == s.matching(None, filter).skip(j),
    decreases rounds,
{
    let all = s.matching(None, filter);
    let cursor = if j == 0 {
        None
    } else {
        Some(all[j - 1])
    };
    let size = page_size(limit) as int;
    let page = s.page(cursor, limit, filter);
    let end = if j + size <= all.len() {
        j + size
    } else {
        all.len() as int
    };
    if j == 0 {
        if all.len() > 0 {
            lemma_pages_follow_each_other(s, filter, limit, 0);
        } else {
            assert(page =~= all.subrange(0, 0));
        }
    } else {
        lemma_pages_follow_each_other(s, filter, limit, j - 1);
    }
    assert(page == all.subrange(j, end));
    if page.len() == 0 {
        assert(all.skip(j) =~= page);
    } else {
        assert(page.last() == all[end - 1]);
        lemma_walk_from(s, filter, limit, end, (rounds - 1) as nat);
        assert(all.subrange(j, end) + all.skip(end) =~= all.skip(j));
    }
}

/// Walking through a listing one page at a time, with any page size of at
/// least one and each page resumed after the last key of the one before,
/// collects exactly the keys of the whole listing, in order: none is left out
/// and none comes twice.
pub proof fn lemma_pagination_is_complete(
    s: StoreView,
    filter: RecordFilter,
    limit: Option<u64>,
    rounds: nat,
)
    requires
        s.wf(),
        page_size(limit) >= 1,
        rounds > s.matching(None, filter).len(),
    ensures
        walk(s, filter, limit, None, rounds) == s.matching(None, filter),
{
    lemma_walk_from(s, filter, limit, 0, rounds);
    assert(s.matching(None, filter).skip(0) =~= s.matching(None, filter));
}

/// Whether two stores show the same counter and the same record, or none,
/// under each of `keys`.
pub open spec fn agree_on(a: StoreView, b: StoreView, keys: Seq<KeyView>) -> bool {
    &&& a.next_id == b.next_id
    &&& forall|i: int| 0 <= i < keys.len() ==> a.get(#[trigger] keys[i]) == b.get(keys[i])
}

/// What a message does depends on the counter and on the records under the
/// keys it touches, and on nothing else in the store: two stores that agree
/// there return the same, and agree there afterwards.
pub proof fn lemma_outcome_depends_on_touched_keys(
    a: StoreView,
    b: StoreView,
    ctx: ExecuteContext,
    msg: ExecuteMsg,
)
    requires
        agree_on(a, b, touched_keys(ctx, msg)),
    ensures
        execute_outcome(a, ctx, msg).result == execute_outcome(b, ctx, msg).result,
        execute_defined(a, ctx, msg) == execute_defined(b, ctx, msg),
        agree_on(
            execute_outcome(a, ctx, msg).store,
            execute_outcome(b, ctx, msg).store,
            touched_keys(ctx, msg),
        ),
{
    let keys = touched_keys(ctx, msg);
    match msg {
        ExecuteMsg::ReceiveNft(m) => {
            assert(a.get(keys[0]) == b.get(keys[0]));
        },
        ExecuteMsg::Receive(m) => {
            match m.msg {
                Some(Cw20HookMsg::Subscribe { token_id, nft_address }) => {
                    assert(a.get(keys[0]) == b.get(keys[0]));
                    assert(a.get(keys[1]) == b.get(keys[1]));
                },
                Some(Cw20HookMsg::Renew { token_id, nft_address }) => {
                    assert(a.get(keys[0]) == b.get(keys[0]));
                },
                None => {},
            }
        },
        ExecuteMsg::Cancel { nft_address } => {
            assert(a.get(keys[0]) == b.get(keys[0]));
        },
    }
}

/// A message leaves every record alone but those under the keys it touches.
pub proof fn lemma_other_records_are_untouched(
    s: StoreView,
    ctx: ExecuteContext,
    msg: ExecuteMsg,
    key: KeyView,
)
    requires
        !touched_keys(ctx, msg).contains(key),
    ensures
        execute_outcome(s, ctx, msg).store.get(key) == s.get(key),
{
    let keys = touched_keys(ctx, msg);
    match msg {
        ExecuteMsg::ReceiveNft(m) => {
            assert(keys[0] != key);
        },
        ExecuteMsg::Receive(m) => {
            match m.msg {
                Some(Cw20HookMsg::Subscribe { token_id, nft_address }) => {
                    assert(keys[1] != key);
                },
                Some(Cw20HookMsg::Renew { token_id, nft_address }) => {
                    assert(keys[0] != key);
                },
                None => {},
            }
        },
        ExecuteMsg::Cancel { nft_address } => {
            assert(keys[0] != key);
        },
    }
}

/// After evaluation at `now`, a record that is still flagged active has a
/// period that never ends, ends at a height, or ends no earlier than `now`.
pub proof fn lemma_active_means_not_expired(record: SubscriptionView, now: Timestamp)
    requires
        record.evaluate(now).is_active,
    ensures
        match record.evaluate(now).end_time {
            Expiration::AtTime(end) => now.nanos <= end.nanos,
            _ => true,
        },
{
}

/// Whether every record stands under the key that its own fields spell: its
/// offering address and its subscriber.
pub open spec fn records_match_keys(s: StoreView) -> bool {
    forall|k: KeyView| #[trigger]
        s.records.contains_key(k) ==> s.records[k].nft_address == k.0 && s.records[k].subscriber
            == k.1
}

/// Where every record stands under the key that its fields spell, that is
/// still so after any message.
pub proof fn lemma_records_keep_matching_keys(s: StoreView, ctx: ExecuteContext, msg: ExecuteMsg)
    requires
        records_match_keys(s),
    ensures
        records_match_keys(execute_outcome(s, ctx, msg).store),
{
    let out = execute_outcome(s, ctx, msg).store;
    assert forall|k: KeyView| #[trigger] out.records.contains_key(k) implies out.records[k].nft_address
        == k.0 && out.records[k].subscriber == k.1 by {
        match msg {
            ExecuteMsg::Receive(m) => {
                match m.msg {
                    Some(Cw20HookMsg::Subscribe { token_id, nft_address }) => {
                        let offering = offering_key(nft_address@);
                        assert(s.records.contains_key(offering) ==> s.records[offering].nft_address
                            == nft_address@);
                    },
                    _ => {},
                }
            },
            _ => {},
        }
    }
}

/// Where every record stands under the key that its fields spell, two records
/// that name the same offering address and the same subscriber are one record:
/// there is at most one offering, the record without a subscriber, for each
/// address.
pub proof fn lemma_one_record_per_pair(s: StoreView, a: KeyView, b: KeyView)
    requires
        records_match_keys(s),
        s.records.contains_key(a),
        s.records.contains_key(b),
        s.records[a].nft_address == s.records[b].nft_address,
        s.records[a].subscriber == s.records[b].subscriber,
    ensures
        a == b,
{
}

} // verus!
