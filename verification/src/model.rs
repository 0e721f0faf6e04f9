//! The mathematical model of records and of the record store.

use crate::key::{
    key_lt, lemma_key_lt_asymmetric, lemma_key_lt_connected, lemma_key_lt_irreflexive,
    lemma_key_lt_transitive, strictly_sorted, KeyView,
};
use crate::time::{Expiration, Timestamp};
use vstd::prelude::*;

verus! {

/// Largest page a listing hands out, whatever the caller asks for.
pub const MAX_LIMIT: u64 = 30;

/// Page size used when the caller names none.
pub const DEFAULT_LIMIT: u64 = 10;

/// The first id a fresh store hands out.
pub const FIRST_SUBSCRIPTION_ID: u128 = 1;

/// The page size in force for a requested `limit`: ten when none is named,
/// never more than thirty.
pub open spec fn page_size(limit: Option<u64>) -> nat {
    match limit {
        Some(n) => if n < MAX_LIMIT {
            n as nat
        } else {
            MAX_LIMIT as nat
        },
        None => DEFAULT_LIMIT as nat,
    }
}

/// The mathematical value of a subscription record.
pub ghost struct SubscriptionView {
    pub subscription_id: u128,
    pub creator: Seq<char>,
    pub subscriber: Seq<char>,
    pub token_id: Seq<char>,
    pub nft_address: Seq<char>,
    pub start_time: Expiration,
    pub end_time: Expiration,
    pub payment_amount: u128,
    pub payment_pending: u128,
    pub payment_denom: Seq<char>,
    pub subscription_duration: u64,
    pub is_active: bool,
}

impl SubscriptionView {
    /// Whether the record is flagged active although its period ended
    /// strictly before `now`.
    pub open spec fn expired_at(self, now: Timestamp) -> bool {
        self.is_active && match self.end_time {
            Expiration::AtTime(end) => now.nanos > end.nanos,
            _ => false,
        }
    }

    /// The record as a reader at `now` sees it: an expired record is inactive
    /// and owes its full amount; any other record is unchanged.
    pub open spec fn evaluate(self, now: Timestamp) -> SubscriptionView {
        if self.expired_at(now) {
            SubscriptionView { is_active: false, payment_pending: self.payment_amount, ..self }
        } else {
            self
        }
    }
}

/// A condition on an entry of the store, by which a listing selects.
pub type RecordFilter = spec_fn(KeyView, SubscriptionView) -> bool;

/// Selects every entry.
pub open spec fn any_record() -> RecordFilter {
    |k: KeyView, r: SubscriptionView| true
}

/// Selects the entries whose record names `creator` as its creator.
pub open spec fn with_creator(creator: Seq<char>) -> RecordFilter {
    |k: KeyView, r: SubscriptionView| r.creator == creator
}

/// Selects the entries stored under the offering address `address`.
pub open spec fn with_offering(address: Seq<char>) -> RecordFilter {
    |k: KeyView, r: SubscriptionView| k.0 == address
}

/// Selects the entries stored under the subscriber `subscriber`.
pub open spec fn with_subscriber(subscriber: Seq<char>) -> RecordFilter {
    |k: KeyView, r: SubscriptionView| k.1 == subscriber
}

/// Selects the entries whose record is still active when evaluated at `now`.
pub open spec fn active_at(now: Timestamp) -> RecordFilter {
    |k: KeyView, r: SubscriptionView| r.evaluate(now).is_active
}

/// The keys below `key`.
pub open spec fn below(key: KeyView) -> spec_fn(KeyView) -> bool {
    |k: KeyView| key_lt(k, key)
}

/// The keys above `key`.
pub open spec fn above(key: KeyView) -> spec_fn(KeyView) -> bool {
    |k: KeyView| key_lt(key, k)
}

/// The keys after the cursor: all of them when there is none.
pub open spec fn after_cursor(start_after: Option<KeyView>) -> spec_fn(KeyView) -> bool {
    |k: KeyView|
        match start_after {
            Some(cursor) => key_lt(cursor, k),
            None => true,
        }
}

/// The mathematical value of an optional cursor.
pub open spec fn cursor_view(start_after: Option<(String, String)>) -> Option<KeyView> {
    match start_after {
        Some(key) => Some(key@),
        None => None,
    }
}

/// The mathematical value of the record store: the records by key, the keys
/// in ascending order, and the id that the next new record gets.
pub ghost struct StoreView {
    pub records: Map<KeyView, SubscriptionView>,
    pub order: Seq<KeyView>,
    pub next_id: u128,
}

impl StoreView {
    /// The store without records, about to hand out the first id.
    pub open spec fn empty() -> StoreView {
        StoreView { records: Map::empty(), order: Seq::empty(), next_id: FIRST_SUBSCRIPTION_ID }
    }

    /// `order` ascends strictly and holds exactly the keys of `records`.
    pub open spec fn wf(self) -> bool {
        &&& strictly_sorted(self.order)
        &&& forall|k: KeyView| self.records.contains_key(k) <==> self.order.contains(k)
    }

    /// The record under `key`, if there is one.
    pub open spec fn get(self, key: KeyView) -> Option<SubscriptionView> {
        if self.records.contains_key(key) {
            Some(self.records[key])
        } else {
            None
        }
    }

    /// The store after `record` is written under `key`: a new key takes its
    /// place in the order, an old one keeps it.
    pub open spec fn put(self, key: KeyView, record: SubscriptionView) -> StoreView {
        StoreView {
            records: self.records.insert(key, record),
            order: self.order.filter(below(key)) + seq![key] + self.order.filter(above(key)),
            next_id: self.next_id,
        }
    }

    /// The store after one id was handed out.
    pub open spec fn advance_id(self) -> StoreView {
        StoreView { next_id: (self.next_id + 1) as u128, ..self }
    }

    /// The condition on a key that a listing applies: after the cursor, and
    /// selected by `filter`.
    pub open spec fn listed(self, start_after: Option<KeyView>, filter: RecordFilter) -> spec_fn(
        KeyView,
    ) -> bool {
        |k: KeyView| after_cursor(start_after)(k) && filter(k, self.records[k])
    }

    /// Every key that a listing would reach, in ascending order.
    pub open spec fn matching(self, start_after: Option<KeyView>, filter: RecordFilter) -> Seq<
        KeyView,
    > {
        self.order.filter(self.listed(start_after, filter))
    }

    /// One page of a listing: the first `page_size(limit)` matching keys.
    pub open spec fn page(
        self,
        start_after: Option<KeyView>,
        limit: Option<u64>,
        filter: RecordFilter,
    ) -> Seq<KeyView> {
        let all = self.matching(start_after, filter);
        if all.len() <= page_size(limit) {
            all
        } else {
            all.take(page_size(limit) as int)
        }
    }

    /// The records under `keys`, in the order of `keys`.
    pub open spec fn records_at(self, keys: Seq<KeyView>) -> Seq<SubscriptionView> {
        Seq::new(keys.len(), |i: int| self.records[keys[i]])
    }
}

/// Filtering keeps a sequence whose elements all pass.
pub proof fn lemma_filter_all<A>(s: Seq<A>, pred: spec_fn(A) -> bool)
    requires
        forall|i: int| 0 <= i < s.len() ==> pred(s[i]),
    ensures
        s.filter(pred) == s,
    decreases s.len(),
{
    reveal(Seq::filter);
    if s.len() > 0 {
        lemma_filter_all(s.drop_last(), pred);
        assert(s.drop_last().push(s.last()) =~= s);
    }
}

/// Filtering empties a sequence of which no element passes.
pub proof fn lemma_filter_none<A>(s: Seq<A>, pred: spec_fn(A) -> bool)
    requires
        forall|i: int| 0 <= i < s.len() ==> !pred(s[i]),
    ensures
        s.filter(pred) == Seq::<A>::empty(),
    decreases s.len(),
{
    reveal(Seq::filter);
    if s.len() > 0 {
        lemma_filter_none(s.drop_last(), pred);
    }
}

/// Filtering by two conditions that agree everywhere gives the same.
pub proof fn lemma_filter_agrees<A>(s: Seq<A>, p: spec_fn(A) -> bool, q: spec_fn(A) -> bool)
    requires
        forall|x: A| #[trigger] p(x) == q(x),
    ensures
        s.filter(p) == s.filter(q),
    decreases s.len(),
{
    reveal(Seq::filter);
    if s.len() > 0 {
        lemma_filter_agrees(s.drop_last(), p, q);
    }
}

/// Filtering by two conditions at once is filtering by one, then the other.
pub proof fn lemma_filter_both<A>(s: Seq<A>, p: spec_fn(A) -> bool, q: spec_fn(A) -> bool)
    ensures
        s.filter(|x: A| q(x) && p(x)) == s.filter(p).filter(q),
    decreases s.len(),
{
    reveal(Seq::filter);
    let both = |x: A| q(x) && p(x);
    if s.len() > 0 {
        lemma_filter_both(s.drop_last(), p, q);
        let rest = s.drop_last().filter(p);
        if p(s.last()) {
            assert(rest.push(s.last()).drop_last() =~= rest);
        }
    }
}

/// Filtering keeps a strictly ascending sequence strictly ascending.
pub proof fn lemma_filter_sorted(s: Seq<KeyView>, pred: spec_fn(KeyView) -> bool)
    requires
        strictly_sorted(s),
    ensures
        strictly_sorted(s.filter(pred)),
    decreases s.len(),
{
    reveal(Seq::filter);
    if s.len() > 0 {
        let rest = s.drop_last();
        lemma_filter_sorted(rest, pred);
        let kept = rest.filter(pred);
        assert forall|i: int| 0 <= i < kept.len() implies key_lt(#[trigger] kept[i], s.last()) by {
            rest.lemma_filter_contains_rev(pred, kept[i]);
            let j = choose|j: int| 0 <= j < rest.len() && rest[j] == kept[i];
            assert(key_lt(s[j], s[s.len() - 1]));
        }
    }
}

/// In a strictly ascending sequence, the keys below `key` are the first `i`
/// when position `i` is the first that is not below `key`.
pub proof fn lemma_below_is_prefix(s: Seq<KeyView>, key: KeyView, i: int)
    requires
        0 <= i <= s.len(),
        forall|j: int| 0 <= j < i ==> key_lt(s[j], key),
        forall|j: int| i <= j < s.len() ==> !key_lt(s[j], key),
    ensures
        s.filter(below(key)) == s.take(i),
{
    assert(s =~= s.take(i) + s.skip(i));
    Seq::filter_distributes_over_add(s.take(i), s.skip(i), below(key));
    lemma_filter_all(s.take(i), below(key));
    lemma_filter_none(s.skip(i), below(key));
    assert(s.take(i) + Seq::<KeyView>::empty() =~= s.take(i));
}

/// In a strictly ascending sequence, the keys above `key` are those from
/// position `i` on when position `i` is the first that is above `key`.
pub proof fn lemma_above_is_suffix(s: Seq<KeyView>, key: KeyView, i: int)
    requires
        0 <= i <= s.len(),
        forall|j: int| 0 <= j < i ==> !key_lt(key, s[j]),
        forall|j: int| i <= j < s.len() ==> key_lt(key, s[j]),
    ensures
        s.filter(above(key)) == s.skip(i),
{
    assert(s =~= s.take(i) + s.skip(i));
    Seq::filter_distributes_over_add(s.take(i), s.skip(i), above(key));
    lemma_filter_none(s.take(i), above(key));
    lemma_filter_all(s.skip(i), above(key));
    assert(Seq::<KeyView>::empty() + s.skip(i) =~= s.skip(i));
}

/// Writing a record keeps the store well formed.
pub proof fn lemma_put_wf(s: StoreView, key: KeyView, record: SubscriptionView)
    requires
        s.wf(),
    ensures
        s.put(key, record).wf(),
{
    let b = s.order.filter(below(key));
    let a = s.order.filter(above(key));
    let o = b + seq![key] + a;
    lemma_filter_sorted(s.order, below(key));
    lemma_filter_sorted(s.order, above(key));
    assert forall|i: int| 0 <= i < b.len() implies key_lt(#[trigger] b[i], key) by {
        s.order.lemma_filter_pred(below(key), i);
    }
    assert forall|i: int| 0 <= i < a.len() implies key_lt(key, #[trigger] a[i]) by {
        s.order.lemma_filter_pred(above(key), i);
    }
    assert forall|i: int, j: int| 0 <= i < j < o.len() implies key_lt(o[i], o[j]) by {
        if j < b.len() {
        } else if j == b.len() {
        } else if i < b.len() {
            lemma_key_lt_transitive(b[i], key, a[j - b.len() - 1]);
        } else if i == b.len() {
        } else {
            assert(key_lt(a[i - b.len() - 1], a[j - b.len() - 1]));
        }
    }
    assert forall|k: KeyView| s.put(key, record).records.contains_key(k) <==> o.contains(
        k,
    ) by {
        if k == key {
            assert(o[b.len() as int] == key);
        } else if s.records.contains_key(k) {
            assert(s.order.contains(k));
            let i = s.order.index_of(k);
            if key_lt(k, key) {
                s.order.lemma_filter_contains(below(key), i);
                assert(b.contains(k));
                let j = b.index_of(k);
                assert(o[j] == k);
            } else {
                if !key_lt(key, k) {
                    lemma_key_lt_connected(k, key);
                }
                s.order.lemma_filter_contains(above(key), i);
                assert(a.contains(k));
                let j = a.index_of(k);
                assert(o[b.len() + 1 + j] == k);
            }
        } else if o.contains(k) {
            let i = o.index_of(k);
            if i < b.len() {
                assert(b.contains(b[i]));
                s.order.lemma_filter_contains_rev(below(key), k);
            } else {
                assert(a.contains(a[i - b.len() - 1]));
                s.order.lemma_filter_contains_rev(above(key), k);
            }
            assert(s.order.contains(k));
        }
    }
}

/// A listing holds each key of the store that is after the cursor and that
/// its condition selects, once, in ascending order, and nothing else.
pub proof fn lemma_matching_is_exact(
    s: StoreView,
    start_after: Option<KeyView>,
    filter: RecordFilter,
)
    requires
        s.wf(),
    ensures
        strictly_sorted(s.matching(start_after, filter)),
        forall|k: KeyView|
            s.matching(start_after, filter).contains(k) <==> s.records.contains_key(k)
                && after_cursor(start_after)(k) && filter(k, s.records[k]),
{
    let listed = s.listed(start_after, filter);
    let m = s.matching(start_after, filter);
    lemma_filter_sorted(s.order, listed);
    assert forall|k: KeyView|
        m.contains(k) <==> s.records.contains_key(k) && after_cursor(start_after)(k) && filter(
            k,
            s.records[k],
        ) by {
        if m.contains(k) {
            s.order.lemma_filter_contains_rev(listed, k);
            assert(s.order.contains(k));
            let i = m.index_of(k);
            s.order.lemma_filter_pred(listed, i);
        }
        if s.records.contains_key(k) && after_cursor(start_after)(k) && filter(k, s.records[k]) {
            assert(s.order.contains(k));
            let i = s.order.index_of(k);
            s.order.lemma_filter_contains(listed, i);
        }
    }
}

/// Every key on a page is a key of the store.
pub proof fn lemma_page_holds_stored_keys(
    s: StoreView,
    start_after: Option<KeyView>,
    limit: Option<u64>,
    filter: RecordFilter,
    j: int,
)
    requires
        s.wf(),
        0 <= j < s.page(start_after, limit, filter).len(),
    ensures
        s.order.contains(s.page(start_after, limit, filter)[j]),
        s.records.contains_key(s.page(start_after, limit, filter)[j]),
{
    let all = s.matching(start_after, filter);
    lemma_matching_is_exact(s, start_after, filter);
    assert(all[j] == s.page(start_after, limit, filter)[j]);
    assert(all.contains(all[j]));
}

/// Two strictly ascending sequences that hold the same keys are the same
/// sequence.
pub proof fn lemma_sorted_keys_are_determined(a: Seq<KeyView>, b: Seq<KeyView>)
    requires
        strictly_sorted(a),
        strictly_sorted(b),
        forall|k: KeyView| a.contains(k) <==> b.contains(k),
    ensures
        a == b,
    decreases a.len(),
{
    if a.len() == 0 {
        if b.len() > 0 {
            assert(b.contains(b[0]));
        }
        assert(a =~= b);
    } else {
        let x = a.last();
        assert(a.contains(x));
        assert(b.contains(x));
        let y = b.last();
        assert(b.contains(y));
        assert(a.contains(y));
        let i = a.index_of(y);
        let j = b.index_of(x);
        lemma_key_lt_irreflexive(x);
        if x != y {
            assert(i < a.len() - 1);
            assert(key_lt(a[i], a[a.len() - 1]));
            assert(j < b.len() - 1);
            assert(key_lt(b[j], b[b.len() - 1]));
            lemma_key_lt_asymmetric(x, y);
        }
        let a0 = a.drop_last();
        let b0 = b.drop_last();
        assert forall|k: KeyView| a0.contains(k) <==> b0.contains(k) by {
            lemma_key_lt_irreflexive(k);
            if a0.contains(k) {
                let p = a0.index_of(k);
                assert(key_lt(a[p], a[a.len() - 1]));
                assert(a.contains(k));
                let q = b.index_of(k);
                assert(b0[q] == k);
            }
            if b0.contains(k) {
                let p = b0.index_of(k);
                assert(key_lt(b[p], b[b.len() - 1]));
                assert(b.contains(k));
                let q = a.index_of(k);
                assert(a0[q] == k);
            }
        }
        lemma_sorted_keys_are_determined(a0, b0);
        assert(a =~= a0.push(x));
        assert(b =~= b0.push(y));
    }
}

} // verus!
