//! Subscription records and the store that keeps them.
//!
//! The store maps a composite key (offering address, subscriber) to a record,
//! hands its entries out in ascending key order, one page at a time, and owns
//! the counter from which new records take their ids.

use crate::error::ContractError;
use crate::index::{index_keys, lemma_index_keys, RowView};
pub use crate::index::SubscriptionIndices;
use crate::key::{
    key_comes_before, key_lt, lemma_key_lt_connected, lemma_key_lt_irreflexive,
    lemma_key_lt_transitive, strictly_sorted, KeyView,
};
use crate::model::{
    active_at, after_cursor, any_record, cursor_view, lemma_above_is_suffix,
    lemma_below_is_prefix, lemma_filter_none,
    lemma_matching_is_exact, lemma_page_holds_stored_keys, lemma_sorted_keys_are_determined,
    page_size,
    with_creator, with_offering, with_subscriber, RecordFilter, StoreView, SubscriptionView,
    DEFAULT_LIMIT, FIRST_SUBSCRIPTION_ID, MAX_LIMIT,
};
use crate::time::{Expiration, Timestamp};
use vstd::prelude::*;

verus! {

/// One subscription record: an offering (no subscriber yet) or the
/// subscription of one subscriber to one offering.
#[derive(Debug, PartialEq, Eq)]
pub struct SubscriptionState {
    /// Unique id, assigned once when the record is created.
    pub subscription_id: u128,
    /// Address that registered the offering.
    pub creator: String,
    /// Address of the paying party; empty for an offering.
    pub subscriber: String,
    /// Id of the token tied to the offering.
    pub token_id: String,
    /// Address of the token contract that owns the offering.
    pub nft_address: String,
    /// When the current period began.
    pub start_time: Expiration,
    /// When the current period ends.
    pub end_time: Expiration,
    /// Fee required per period.
    pub payment_amount: u128,
    /// Amount not yet reconciled.
    pub payment_pending: u128,
    /// Unit of the payment.
    pub payment_denom: String,
    /// Length of a period in seconds.
    pub subscription_duration: u64,
    /// Cached activity flag; readers evaluate it against `end_time`.
    pub is_active: bool,
}

impl View for SubscriptionState {
    type V = SubscriptionView;

    open spec fn view(&self) -> SubscriptionView {
        SubscriptionView {
            subscription_id: self.subscription_id,
            creator: self.creator@,
            subscriber: self.subscriber@,
            token_id: self.token_id@,
            nft_address: self.nft_address@,
            start_time: self.start_time,
            end_time: self.end_time,
            payment_amount: self.payment_amount,
            payment_pending: self.payment_pending,
            payment_denom: self.payment_denom@,
            subscription_duration: self.subscription_duration,
            is_active: self.is_active,
        }
    }
}

impl DeepView for SubscriptionState {
    type V = SubscriptionView;

    open spec fn deep_view(&self) -> SubscriptionView {
        self@
    }
}

impl Clone for SubscriptionState {
    fn clone(&self) -> (r: Self)
        ensures
            r == *self,
    {
        SubscriptionState {
            subscription_id: self.subscription_id,
            creator: self.creator.clone(),
            subscriber: self.subscriber.clone(),
            token_id: self.token_id.clone(),
            nft_address: self.nft_address.clone(),
            start_time: self.start_time,
            end_time: self.end_time,
            payment_amount: self.payment_amount,
            payment_pending: self.payment_pending,
            payment_denom: self.payment_denom.clone(),
            subscription_duration: self.subscription_duration,
            is_active: self.is_active,
        }
    }
}

impl SubscriptionState {
    /// Whether the record is still active when evaluated at `now`.
    pub fn is_active_at(&self, now: Timestamp) -> (b: bool)
        ensures
            b == self@.evaluate(now).is_active,
    {
        if !self.is_active {
            return false;
        }
        match self.end_time {
            Expiration::AtTime(end) => !(now.nanos > end.nanos),
            _ => true,
        }
    }
}

/// The condition by which a listing selects entries.
#[derive(Debug)]
pub enum Selector {
    /// Every entry.
    Any,
    /// The entries whose record names this creator.
    Creator(String),
    /// The entries stored under this offering address.
    Offering(String),
    /// The entries stored under this subscriber.
    Subscriber(String),
    /// The entries whose record is still active at this instant.
    ActiveAt(Timestamp),
}

impl Selector {
    /// The condition that this selector stands for.
    pub open spec fn filter(&self) -> RecordFilter {
        match self {
            Selector::Any => any_record(),
            Selector::Creator(creator) => with_creator(creator@),
            Selector::Offering(address) => with_offering(address@),
            Selector::Subscriber(subscriber) => with_subscriber(subscriber@),
            Selector::ActiveAt(now) => active_at(*now),
        }
    }

    /// Decides whether the entry of `key` and `record` is selected.
    pub fn selects(&self, key: &(String, String), record: &SubscriptionState) -> (b: bool)
        ensures
            b == (self.filter())(key@, record@),
    {
        match self {
            Selector::Any => true,
            Selector::Creator(creator) => record.creator == *creator,
            Selector::Offering(address) => key.0 == *address,
            Selector::Subscriber(subscriber) => key.1 == *subscriber,
            Selector::ActiveAt(now) => record.is_active_at(*now),
        }
    }
}

/// The page size in force for a requested `limit`.
pub fn effective_limit(limit: Option<u64>) -> (n: usize)
    ensures
        n == page_size(limit),
{
    match limit {
        Some(n) => if n < MAX_LIMIT {
            n as usize
        } else {
            MAX_LIMIT as usize
        },
        None => DEFAULT_LIMIT as usize,
    }
}

/// Calls `cosmwasm_std::Uint128::checked_add`, which returns the sum of the two
/// numbers, or an overflow error when the sum leaves the range of `u128`.
#[verifier::external_body]
fn uint128_checked_add(a: u128, b: u128) -> (r: Option<u128>)
    ensures
        r == if a + b <= u128::MAX {
            Some((a + b) as u128)
        } else {
            None
        },
{
    match cosmwasm_std::Uint128::new(a).checked_add(cosmwasm_std::Uint128::new(b)) {
        Ok(sum) => Some(sum.u128()),
        Err(_) => None,
    }
}

struct StoredEntry {
    key: (String, String),
    record: SubscriptionState,
}

spec fn entry_keys(es: Seq<StoredEntry>) -> Seq<KeyView> {
    Seq::new(es.len(), |i: int| es[i].key@)
}

spec fn entry_records(es: Seq<StoredEntry>) -> Map<KeyView, SubscriptionView> {
    Map::new(
        |k: KeyView| entry_keys(es).contains(k),
        |k: KeyView| es[entry_keys(es).index_of(k)].record@,
    )
}

proof fn lemma_entry_at(es: Seq<StoredEntry>, i: int)
    requires
        strictly_sorted(entry_keys(es)),
        0 <= i < es.len(),
    ensures
        entry_records(es).contains_key(es[i].key@),
        entry_records(es)[es[i].key@] == es[i].record@,
{
    let keys = entry_keys(es);
    assert(keys[i] == es[i].key@);
    assert(keys.contains(es[i].key@));
    let j = keys.index_of(es[i].key@);
    lemma_key_lt_irreflexive(keys[i]);
    if j < i {
        assert(key_lt(keys[j], keys[i]));
    } else if i < j {
        assert(key_lt(keys[i], keys[j]));
    }
}

proof fn lemma_put_refines(
    old_es: Seq<StoredEntry>,
    new_es: Seq<StoredEntry>,
    i: int,
    found: bool,
    entry: StoredEntry,
)
    requires
        strictly_sorted(entry_keys(old_es)),
        0 <= i <= old_es.len(),
        forall|j: int| 0 <= j < i ==> key_lt(entry_keys(old_es)[j], entry.key@),
        found ==> i < old_es.len() && old_es[i].key@ == entry.key@,
        forall|j: int|
            (if found {
                i + 1
            } else {
                i
            }) <= j < old_es.len() ==> key_lt(entry.key@, entry_keys(old_es)[j]),
        new_es == if found {
            old_es.update(i, entry)
        } else {
            old_es.insert(i, entry)
        },
    ensures
        strictly_sorted(entry_keys(new_es)),
        entry_keys(new_es) == entry_keys(old_es).filter(crate::model::below(entry.key@)) + seq![
            entry.key@,
        ] + entry_keys(old_es).filter(crate::model::above(entry.key@)),
        entry_records(new_es) == entry_records(old_es).insert(entry.key@, entry.record@),
{
    let key = entry.key@;
    let old_keys = entry_keys(old_es);
    let new_keys = entry_keys(new_es);
    let upper = if found {
        i + 1
    } else {
        i
    };
    lemma_key_lt_irreflexive(key);
    assert forall|j: int| i <= j < old_es.len() implies !key_lt(old_keys[j], key) by {
        if key_lt(old_keys[j], key) {
            if j >= upper {
                lemma_key_lt_transitive(key, old_keys[j], key);
            }
        }
    }
    assert forall|j: int| 0 <= j < upper implies !key_lt(key, old_keys[j]) by {
        if key_lt(key, old_keys[j]) {
            if j < i {
                lemma_key_lt_transitive(key, old_keys[j], key);
            }
        }
    }
    lemma_below_is_prefix(old_keys, key, i);
    lemma_above_is_suffix(old_keys, key, upper);
    assert(new_keys =~= old_keys.take(i) + seq![key] + old_keys.skip(upper));
    assert forall|a: int, b: int| 0 <= a < b < new_keys.len() implies key_lt(
        new_keys[a],
        new_keys[b],
    ) by {
        if found {
            assert(new_keys =~= old_keys);
        } else {
            if b < i {
                assert(key_lt(old_keys[a], old_keys[b]));
            } else if b == i {
            } else if a < i {
                assert(key_lt(old_keys[a], old_keys[b - 1]));
            } else if a == i {
            } else {
                assert(key_lt(old_keys[a - 1], old_keys[b - 1]));
            }
        }
    }
    let target = entry_records(old_es).insert(key, entry.record@);
    assert forall|k: KeyView| entry_records(new_es).contains_key(k) <==> target.contains_key(
        k,
    ) by {
        if new_keys.contains(k) {
            let a = new_keys.index_of(k);
            if k != key {
                if found {
                    assert(old_keys[a] == k);
                } else if a < i {
                    assert(old_keys[a] == k);
                } else {
                    assert(old_keys[a - 1] == k);
                }
            }
        }
        if k == key {
            assert(new_keys[i] == key);
        } else if old_keys.contains(k) {
            let a = old_keys.index_of(k);
            if found {
                assert(new_keys[a] == k);
            } else if a < i {
                assert(new_keys[a] == k);
            } else {
                assert(new_keys[a + 1] == k);
            }
        }
    }
    assert forall|k: KeyView| target.contains_key(k) implies entry_records(new_es)[k]
        == target[k] by {
        assert(new_keys.contains(k));
        let a = new_keys.index_of(k);
        lemma_entry_at(new_es, a);
        if k != key {
            let b = if found || a < i {
                a
            } else {
                a - 1
            };
            assert(old_es[b].key@ == k);
            lemma_entry_at(old_es, b);
        } else {
            lemma_entry_at(new_es, i);
        }
    }
    assert(entry_records(new_es) =~= target);
}

/// The record store: the records in ascending key order, the index of their
/// keys by creator, and the id counter.
pub struct SubscriptionStore {
    entries: Vec<StoredEntry>,
    idx: SubscriptionIndices,
    next_id: u128,
}

/// Whether `rows` holds, for each record, the row of its creator and its key,
/// and no other row.
pub open spec fn index_matches(rows: Seq<RowView>, records: Map<KeyView, SubscriptionView>) -> bool {
    &&& forall|k: KeyView| #[trigger]
        records.contains_key(k) ==> rows.contains((records[k].creator, k))
    &&& forall|r: RowView| #[trigger]
        rows.contains(r) ==> records.contains_key(r.1) && records[r.1].creator == r.0
}

/// Writing `record` under `key` and moving the row of `key` to the creator of
/// `record` keeps the index in step with the records.
proof fn lemma_index_follows(
    rows: Seq<RowView>,
    without: Seq<RowView>,
    after: Seq<RowView>,
    records: Map<KeyView, SubscriptionView>,
    key: KeyView,
    record: SubscriptionView,
)
    requires
        index_matches(rows, records),
        forall|r: RowView|
            without.contains(r) <==> rows.contains(r) && !(records.contains_key(key) && r == (
                records[key].creator,
                key,
            )),
        forall|r: RowView| after.contains(r) <==> r == (record.creator, key) || without.contains(r),
    ensures
        index_matches(after, records.insert(key, record)),
{
    let target = records.insert(key, record);
    assert forall|k: KeyView| #[trigger] target.contains_key(k) implies after.contains(
        (target[k].creator, k),
    ) by {
        if k != key {
            assert(records.contains_key(k));
            assert(rows.contains((records[k].creator, k)));
            assert(without.contains((records[k].creator, k)));
        }
    }
    assert forall|r: RowView| #[trigger] after.contains(r) implies target.contains_key(r.1)
        && target[r.1].creator == r.0 by {
        if r != (record.creator, key) {
            assert(without.contains(r));
            assert(rows.contains(r));
            assert(records.contains_key(r.1));
        }
    }
}

impl View for SubscriptionStore {
    type V = StoreView;

    closed spec fn view(&self) -> StoreView {
        StoreView {
            records: entry_records(self.entries@),
            order: entry_keys(self.entries@),
            next_id: self.next_id,
        }
    }
}

/// The entries under `keys`: each key with its record.
pub open spec fn entries_at(s: StoreView, keys: Seq<KeyView>) -> Seq<
    (KeyView, SubscriptionView),
> {
    Seq::new(keys.len(), |i: int| (keys[i], s.records[keys[i]]))
}

impl SubscriptionStore {
    #[verifier::type_invariant]
    spec fn consistent(self) -> bool {
        &&& strictly_sorted(entry_keys(self.entries@))
        &&& index_matches(self.idx.rows(), entry_records(self.entries@))
    }

    /// The rows of the secondary index, in ascending order.
    pub closed spec fn index_rows(&self) -> Seq<RowView> {
        self.idx.rows()
    }

    /// A store without records, about to hand out the first id.
    pub fn new() -> (s: Self)
        ensures
            s@ == StoreView::empty(),
            index_matches(s.index_rows(), s@.records),
    {
        let entries: Vec<StoredEntry> = Vec::new();
        let idx = SubscriptionIndices::new();
        assert(entry_keys(entries@) =~= Seq::empty());
        assert(entry_records(entries@) =~= Map::empty());
        SubscriptionStore { entries, idx, next_id: FIRST_SUBSCRIPTION_ID }
    }

    /// The id that the next new record gets.
    pub fn next_subscription_id(&self) -> (id: u128)
        ensures
            id == self@.next_id,
    {
        self.next_id
    }

    /// Sets the id that the next new record gets.
    pub fn set_next_subscription_id(&mut self, id: u128)
        ensures
            final(self)@ == (StoreView { next_id: id, ..old(self)@ }),
    {
        proof {
            use_type_invariant(&*self);
        }
        self.next_id = id;
    }

    /// The number of records.
    pub fn len(&self) -> (n: usize)
        ensures
            n == self@.order.len(),
            self@.wf(),
    {
        proof {
            use_type_invariant(&*self);
        }
        self.entries.len()
    }

    /// First position whose key is not below `key`, and whether `key` is there.
    fn locate(&self, key: &(String, String)) -> (r: (usize, bool))
        ensures
            r.0 <= self.entries@.len(),
            forall|j: int| 0 <= j < r.0 ==> key_lt(entry_keys(self.entries@)[j], key@),
            r.1 == entry_keys(self.entries@).contains(key@),
            r.1 ==> r.0 < self.entries@.len() && self.entries@[r.0 as int].key@ == key@,
            forall|j: int|
                (if r.1 {
                    r.0 + 1
                } else {
                    r.0 as int
                }) <= j < self.entries@.len() ==> key_lt(key@, entry_keys(self.entries@)[j]),
    {
        proof {
            use_type_invariant(&*self);
        }
        let ghost keys = entry_keys(self.entries@);
        let mut lo: usize = 0;
        let mut hi: usize = self.entries.len();
        while lo < hi
            invariant
                keys == entry_keys(self.entries@),
                strictly_sorted(keys),
                lo <= hi <= keys.len(),
                forall|j: int| 0 <= j < lo ==> key_lt(keys[j], key@),
                forall|j: int| hi <= j < keys.len() ==> !key_lt(keys[j], key@),
            decreases hi - lo,
        {
            let mid: usize = lo + (hi - lo) / 2;
            if key_comes_before(&self.entries[mid].key, key) {
                proof {
                    assert forall|j: int| 0 <= j < mid + 1 implies key_lt(keys[j], key@) by {
                        if j < mid {
                            lemma_key_lt_transitive(keys[j], keys[mid as int], key@);
                        }
                    }
                }
                lo = mid + 1;
            } else {
                proof {
                    assert forall|j: int| mid <= j < keys.len() implies !key_lt(keys[j], key@) by {
                        if j > mid && key_lt(keys[j], key@) {
                            lemma_key_lt_transitive(keys[mid as int], keys[j], key@);
                        }
                    }
                }
                hi = mid;
            }
        }
        let i: usize = lo;
        let found = i < self.entries.len() && self.entries[i].key.0 == key.0
            && self.entries[i].key.1 == key.1;
        proof {
            lemma_key_lt_irreflexive(key@);
            if i < self.entries@.len() {
                assert(keys[i as int] == self.entries@[i as int].key@);
                if !found {
                    if !key_lt(key@, keys[i as int]) {
                        lemma_key_lt_connected(key@, keys[i as int]);
                    }
                }
                assert forall|j: int|
                    (if found {
                        i + 1
                    } else {
                        i as int
                    }) <= j < self.entries@.len() implies key_lt(key@, keys[j]) by {
                    if j > i {
                        assert(key_lt(keys[i as int], keys[j]));
                        if !found {
                            lemma_key_lt_transitive(key@, keys[i as int], keys[j]);
                        }
                    }
                }
            }
            if !found && keys.contains(key@) {
                let j = keys.index_of(key@);
                assert(false);
            }
        }
        (i, found)
    }

    /// The record stored under `key`, if there is one.
    pub fn get(&self, key: &(String, String)) -> (r: Option<SubscriptionState>)
        ensures
            self@.get(key@) == match r {
                Some(record) => Some(record@),
                None => None,
            },
            self@.wf(),
    {
        proof {
            use_type_invariant(&*self);
        }
        let (i, found) = self.locate(key);
        if found {
            proof {
                lemma_entry_at(self.entries@, i as int);
            }
            Some(self.entries[i].record.clone())
        } else {
            None
        }
    }

    /// Writes `record` under `key`, over the record that was there if any, and
    /// moves the row of `key` in the index to the creator of `record`. No
    /// business rule is checked.
    pub fn put(&mut self, key: (String, String), record: SubscriptionState)
        ensures
            final(self)@ == old(self)@.put(key@, record@),
            final(self)@.wf(),
            index_matches(final(self).index_rows(), final(self)@.records),
    {
        proof {
            use_type_invariant(&*self);
        }
        let (i, found) = self.locate(&key);
        let mut taken = SubscriptionStore::new();
        std::mem::swap(self, &mut taken);
        let SubscriptionStore { entries, idx, next_id } = taken;
        let mut entries = entries;
        let mut idx = idx;
        let ghost old_es = entries@;
        let ghost rows = idx.rows();
        proof {
            if found {
                lemma_entry_at(old_es, i as int);
            }
        }
        if found {
            idx.remove(&entries[i].record.creator, &entries[i].key);
        }
        let ghost without = idx.rows();
        idx.insert(record.creator.clone(), (key.0.clone(), key.1.clone()));
        let entry = StoredEntry { key, record };
        let ghost spec_entry = entry;
        if found {
            entries[i] = entry;
        } else {
            entries.insert(i, entry);
        }
        proof {
            lemma_put_refines(old_es, entries@, i as int, found, spec_entry);
            lemma_index_follows(
                rows,
                without,
                idx.rows(),
                entry_records(old_es),
                spec_entry.key@,
                spec_entry.record@,
            );
        }
        *self = SubscriptionStore { entries, idx, next_id };
    }

    /// Hands out the next id and moves the counter on by one.
    pub fn next_id(&mut self) -> (r: Result<u128, ContractError>)
        ensures
            match r {
                Ok(id) => id == old(self)@.next_id && id < u128::MAX && final(self)@ == old(
                    self,
                )@.advance_id(),
                Err(e) => e@ == crate::error::ErrorView::Overflow && old(self)@.next_id
                    == u128::MAX && final(self)@ == old(self)@,
            },
    {
        proof {
            use_type_invariant(&*self);
        }
        let id: u128 = self.next_id;
        match uint128_checked_add(id, 1) {
            Some(next) => {
                self.next_id = next;
                Ok(id)
            },
            None => Err(ContractError::Overflow),
        }
    }

    /// One page of the entries that `selector` selects, in ascending key order,
    /// starting after the cursor.
    pub fn select(
        &self,
        start_after: &Option<(String, String)>,
        limit: Option<u64>,
        selector: &Selector,
    ) -> (r: Vec<((String, String), SubscriptionState)>)
        ensures
            r.deep_view() == entries_at(
                self@,
                self@.page(cursor_view(*start_after), limit, selector.filter()),
            ),
            self@.wf(),
    {
        proof {
            use_type_invariant(&*self);
        }
        let n: usize = effective_limit(limit);
        let mut out: Vec<((String, String), SubscriptionState)> = Vec::new();
        let ghost keys = entry_keys(self.entries@);
        let ghost listed = self@.listed(cursor_view(*start_after), selector.filter());
        let start: usize = match start_after {
            Some(cursor) => {
                let (p, found) = self.locate(cursor);
                assert(found ==> p < self.entries.len());
                if found {
                    p + 1
                } else {
                    p
                }
            },
            None => 0,
        };
        proof {
            assert forall|j: int| 0 <= j < start implies !listed(#[trigger] keys.take(start as int)[j]) by {
                let cursor = cursor_view(*start_after)->Some_0;
                lemma_key_lt_irreflexive(cursor);
                if key_lt(cursor, keys[j]) {
                    lemma_key_lt_transitive(cursor, keys[j], cursor);
                }
            }
            lemma_filter_none(keys.take(start as int), listed);
            assert(out.deep_view() =~= entries_at(self@, Seq::<KeyView>::empty()));
        }
        let mut i: usize = start;
        while i < self.entries.len() && out.len() < n
            invariant
                keys == entry_keys(self.entries@),
                keys == self@.order,
                strictly_sorted(keys),
                listed == self@.listed(cursor_view(*start_after), selector.filter()),
                start <= i <= self.entries@.len(),
                forall|j: int|
                    start <= j < keys.len() ==> after_cursor(cursor_view(*start_after))(
                        #[trigger] keys[j],
                    ),
                out@.len() <= n,
                out.deep_view() == entries_at(self@, keys.take(i as int).filter(listed)),
            decreases self.entries@.len() - i,
        {
            let entry = &self.entries[i];
            let ghost before = keys.take(i as int).filter(listed);
            let ghost old_out = out.deep_view();
            proof {
                lemma_entry_at(self.entries@, i as int);
                reveal(Seq::filter);
                assert(keys.take(i + 1).drop_last() =~= keys.take(i as int));
                assert(keys.take(i + 1).last() == keys[i as int]);
            }
            if selector.selects(&entry.key, &entry.record) {
                let key = (entry.key.0.clone(), entry.key.1.clone());
                out.push((key, entry.record.clone()));
                proof {
                    assert(keys.take(i + 1).filter(listed) == before.push(keys[i as int]));
                    assert(out.deep_view() =~= old_out.push(
                        (keys[i as int], self@.records[keys[i as int]]),
                    ));
                    assert(out.deep_view() =~= entries_at(self@, before.push(keys[i as int])));
                }
            } else {
                proof {
                    assert(keys.take(i + 1).filter(listed) == before);
                }
            }
            i += 1;
        }
        proof {
            let shown = keys.take(i as int).filter(listed);
            let all = self@.matching(cursor_view(*start_after), selector.filter());
            assert(keys =~= keys.take(i as int) + keys.skip(i as int));
            Seq::filter_distributes_over_add(keys.take(i as int), keys.skip(i as int), listed);
            assert(all == shown + keys.skip(i as int).filter(listed));
            assert(shown.len() == out@.len());
            if i == self.entries@.len() {
                assert(keys.skip(i as int) =~= Seq::<KeyView>::empty());
                assert(all =~= shown);
            } else {
                assert(all.take(n as int) =~= shown);
            }
        }
        out
    }

    /// One page of all entries in ascending key order, starting after the
    /// cursor.
    pub fn scan_by_primary(&self, start_after: &Option<(String, String)>, limit: Option<u64>) -> (r:
        Vec<((String, String), SubscriptionState)>)
        ensures
            r.deep_view() == entries_at(
                self@,
                self@.page(cursor_view(*start_after), limit, any_record()),
            ),
            self@.wf(),
    {
        self.select(start_after, limit, &Selector::Any)
    }

    /// One page of the entries whose record names `creator`, in ascending key
    /// order, starting after the cursor. The keys come from the index.
    pub fn scan_by_creator(
        &self,
        creator: String,
        start_after: &Option<(String, String)>,
        limit: Option<u64>,
    ) -> (r: Vec<((String, String), SubscriptionState)>)
        ensures
            r.deep_view() == entries_at(
                self@,
                self@.page(cursor_view(*start_after), limit, with_creator(creator@)),
            ),
            self@.wf(),
    {
        proof {
            use_type_invariant(&*self);
        }
        let n: usize = effective_limit(limit);
        let keys = self.idx.keys_of(&creator, start_after, n);
        let ghost page = self@.page(cursor_view(*start_after), limit, with_creator(creator@));
        proof {
            let cursor = cursor_view(*start_after);
            let indexed = index_keys(self.idx.rows(), creator@, cursor);
            let all = self@.matching(cursor, with_creator(creator@));
            lemma_index_keys(self.idx.rows(), creator@, cursor);
            lemma_matching_is_exact(self@, cursor, with_creator(creator@));
            assert forall|k: KeyView| indexed.contains(k) <==> all.contains(k) by {
                if indexed.contains(k) {
                    assert(self.idx.rows().contains((creator@, k)));
                }
                if all.contains(k) {
                    assert(self@.records.contains_key(k));
                }
            }
            lemma_sorted_keys_are_determined(indexed, all);
            assert(keys.deep_view() == page);
        }
        let mut out: Vec<((String, String), SubscriptionState)> = Vec::new();
        let mut j: usize = 0;
        proof {
            assert(out.deep_view() =~= entries_at(self@, page.take(0)));
        }
        while j < keys.len()
            invariant
                j <= keys@.len(),
                keys.deep_view() == page,
                page == self@.page(cursor_view(*start_after), limit, with_creator(creator@)),
                self@.wf(),
                self@.order == entry_keys(self.entries@),
                self@.records == entry_records(self.entries@),
                strictly_sorted(entry_keys(self.entries@)),
                out.deep_view() == entries_at(self@, page.take(j as int)),
            decreases keys@.len() - j,
        {
            let key = &keys[j];
            proof {
                assert(keys.deep_view()[j as int] == page[j as int]);
                assert(key@ == page[j as int]);
                lemma_page_holds_stored_keys(
                    self@,
                    cursor_view(*start_after),
                    limit,
                    with_creator(creator@),
                    j as int,
                );
                assert(self@.order.contains(key@));
            }
            let (i, found) = self.locate(key);
            if found {
                proof {
                    lemma_entry_at(self.entries@, i as int);
                }
                let ghost shown = out.deep_view();
                out.push(((key.0.clone(), key.1.clone()), self.entries[i].record.clone()));
                proof {
                    assert(out.deep_view() =~= shown.push((key@, self@.records[key@])));
                    assert(out.deep_view() =~= entries_at(self@, page.take(j + 1)));
                }
            }
            j += 1;
        }
        proof {
            assert(page.take(j as int) =~= page);
        }
        out
    }
}

/// A store without records, about to hand out the first id.
pub fn subscriptions() -> (s: SubscriptionStore)
    ensures
        s@ == StoreView::empty(),
{
    SubscriptionStore::new()
}

/// One page of the records that name `creator`, in ascending key order,
/// starting after the cursor.
pub fn read_subscriptions(
    store: &SubscriptionStore,
    creator: String,
    start_after: Option<(String, String)>,
    limit: Option<u64>,
) -> (r: Result<Vec<SubscriptionState>, ContractError>)
    ensures
        r is Ok,
        r->Ok_0.deep_view() == store@.records_at(
            store@.page(cursor_view(start_after), limit, with_creator(creator@)),
        ),
{
    let found = store.scan_by_creator(creator, &start_after, limit);
    let ghost keys = store@.page(cursor_view(start_after), limit, with_creator(creator@));
    let mut res: Vec<SubscriptionState> = Vec::new();
    let mut i: usize = 0;
    proof {
        assert(found.deep_view().len() == keys.len());
        assert(res.deep_view() =~= store@.records_at(keys.take(0)));
    }
    while i < found.len()
        invariant
            i <= found@.len(),
            found@.len() == keys.len(),
            found.deep_view() == entries_at(store@, keys),
            res.deep_view() == store@.records_at(keys.take(i as int)),
        decreases found@.len() - i,
    {
        proof {
            assert(found.deep_view()[i as int] == (keys[i as int], store@.records[keys[i as int]]));
        }
        let ghost shown = res.deep_view();
        res.push(found[i].1.clone());
        proof {
            assert(res.deep_view() =~= shown.push(store@.records[keys[i as int]]));
            assert(res.deep_view() =~= store@.records_at(keys.take(i + 1)));
        }
        i += 1;
    }
    proof {
        assert(keys.take(i as int) =~= keys);
    }
    Ok(res)
}

/// Hands out the next id of `store` and moves its counter on by one.
pub fn get_and_increment_next_subscription_id(store: &mut SubscriptionStore) -> (r: Result<
    u128,
    ContractError,
>)
    ensures
        match r {
            Ok(id) => id == old(store)@.next_id && id < u128::MAX && final(store)@ == old(
                store,
            )@.advance_id(),
            Err(e) => e@ == crate::error::ErrorView::Overflow && old(store)@.next_id == u128::MAX
                && final(store)@ == old(store)@,
        },
{
    store.next_id()
}

} // verus!
