//! The secondary index of the store: for each creator, the keys of the records
//! that name it.
//!
//! The index is a list of rows, each the pair of a creator and a key, kept in
//! ascending order (creator major, key minor). The keys of one creator stand
//! together, in key order, and a binary search finds where they start.

use crate::key::{
    key_comes_before, key_lt, lemma_key_lt_connected, lemma_key_lt_irreflexive,
    lemma_key_lt_transitive, lemma_text_lt_connected, lemma_text_lt_irreflexive,
    lemma_text_lt_transitive, strictly_sorted, text_comes_before, text_lt, KeyView,
};
use crate::model::{after_cursor, cursor_view, lemma_filter_all, lemma_filter_none};
use vstd::prelude::*;

verus! {

/// The mathematical value of a row: a creator and the key of a record that
/// names it.
pub type RowView = (Seq<char>, KeyView);

/// Strict order of rows: creator major, key minor.
pub open spec fn row_lt(a: RowView, b: RowView) -> bool {
    text_lt(a.0, b.0) || (a.0 == b.0 && key_lt(a.1, b.1))
}

/// Whether `rows` ascends strictly.
pub open spec fn rows_sorted(rows: Seq<RowView>) -> bool {
    forall|i: int, j: int| 0 <= i < j < rows.len() ==> row_lt(rows[i], rows[j])
}

/// The rows of `creator` whose key is after the cursor.
pub open spec fn in_partition(creator: Seq<char>, start_after: Option<KeyView>) -> spec_fn(
    RowView,
) -> bool {
    |r: RowView| r.0 == creator && after_cursor(start_after)(r.1)
}

/// The key of a row.
pub open spec fn row_key() -> spec_fn(RowView) -> KeyView {
    |r: RowView| r.1
}

/// The keys that the index holds for `creator` after the cursor, in ascending
/// order.
pub open spec fn index_keys(rows: Seq<RowView>, creator: Seq<char>, start_after: Option<KeyView>) -> Seq<
    KeyView,
> {
    rows.filter(in_partition(creator, start_after)).map_values(row_key())
}

/// No row comes before itself.
pub proof fn lemma_row_lt_irreflexive(a: RowView)
    ensures
        !row_lt(a, a),
{
    lemma_text_lt_irreflexive(a.0);
    lemma_key_lt_irreflexive(a.1);
}

/// The order of rows is transitive.
pub proof fn lemma_row_lt_transitive(a: RowView, b: RowView, c: RowView)
    requires
        row_lt(a, b),
        row_lt(b, c),
    ensures
        row_lt(a, c),
{
    lemma_text_lt_irreflexive(a.0);
    lemma_text_lt_irreflexive(b.0);
    if text_lt(a.0, b.0) && text_lt(b.0, c.0) {
        lemma_text_lt_transitive(a.0, b.0, c.0);
    } else if a.0 == b.0 && b.0 == c.0 {
        lemma_key_lt_transitive(a.1, b.1, c.1);
    }
}

/// Two rows of which neither comes first are the same row.
pub proof fn lemma_row_lt_connected(a: RowView, b: RowView)
    requires
        !row_lt(a, b),
        !row_lt(b, a),
    ensures
        a == b,
{
    lemma_text_lt_connected(a.0, b.0);
    lemma_key_lt_connected(a.1, b.1);
}

/// No key is below the pair of empty texts.
pub proof fn lemma_nothing_below_the_empty_key(k: KeyView)
    ensures
        !key_lt(k, (Seq::<char>::empty(), Seq::<char>::empty())),
{
    let e = Seq::<char>::empty();
    assert(vstd::utf8::encode_utf8(e).len() == 0) by {
        reveal_with_fuel(vstd::utf8::encode_utf8, 1);
    }
    assert(!text_lt(k.0, e));
    assert(!text_lt(k.1, e));
}

/// The keys that the index holds for one creator ascend strictly, and are the
/// keys of the rows of that creator that are after the cursor.
pub proof fn lemma_index_keys(rows: Seq<RowView>, creator: Seq<char>, start_after: Option<KeyView>)
    requires
        rows_sorted(rows),
    ensures
        strictly_sorted(index_keys(rows, creator, start_after)),
        forall|k: KeyView|
            index_keys(rows, creator, start_after).contains(k) <==> rows.contains((creator, k))
                && after_cursor(start_after)(k),
{
    let pred = in_partition(creator, start_after);
    let kept = rows.filter(pred);
    let keys = index_keys(rows, creator, start_after);
    lemma_filter_keeps_rows_sorted(rows, pred);
    assert forall|i: int| 0 <= i < kept.len() implies pred(#[trigger] kept[i]) by {
        rows.lemma_filter_pred(pred, i);
    }
    lemma_text_lt_irreflexive(creator);
    assert forall|i: int, j: int| 0 <= i < j < keys.len() implies key_lt(keys[i], keys[j]) by {
        assert(row_lt(kept[i], kept[j]));
        assert(pred(kept[i]) && pred(kept[j]));
    }
    assert forall|k: KeyView|
        keys.contains(k) <==> rows.contains((creator, k)) && after_cursor(start_after)(k) by {
        if keys.contains(k) {
            let i = keys.index_of(k);
            assert(pred(kept[i]));
            assert(kept[i] == (creator, k));
            assert(kept.contains(kept[i]));
            rows.lemma_filter_contains_rev(pred, kept[i]);
        }
        if rows.contains((creator, k)) && after_cursor(start_after)(k) {
            let i = rows.index_of((creator, k));
            rows.lemma_filter_contains(pred, i);
            let j = kept.index_of((creator, k));
            assert(keys[j] == k);
        }
    }
}

proof fn lemma_filter_keeps_rows_sorted(s: Seq<RowView>, pred: spec_fn(RowView) -> bool)
    requires
        rows_sorted(s),
    ensures
        rows_sorted(s.filter(pred)),
    decreases s.len(),
{
    reveal(Seq::filter);
    if s.len() > 0 {
        let rest = s.drop_last();
        lemma_filter_keeps_rows_sorted(rest, pred);
        let kept = rest.filter(pred);
        assert forall|i: int| 0 <= i < kept.len() implies row_lt(#[trigger] kept[i], s.last()) by {
            assert(kept.contains(kept[i]));
            rest.lemma_filter_contains_rev(pred, kept[i]);
            let j = rest.index_of(kept[i]);
            assert(row_lt(s[j], s[s.len() - 1]));
        }
    }
}

/// In a sorted index, the rows of one creator after the cursor are the rows
/// from `start` on that name the creator. Where `end` is where they stop, or
/// where the `n`-th of them stands, the first `n` of their keys are the keys
/// of the rows from `start` to `end`.
proof fn lemma_partition_is_a_range(
    rows: Seq<RowView>,
    creator: Seq<char>,
    cursor: Option<KeyView>,
    start: int,
    end: int,
    n: int,
)
    requires
        0 <= start <= end <= rows.len(),
        end - start <= n,
        forall|j: int| 0 <= j < start ==> !in_partition(creator, cursor)(#[trigger] rows[j]),
        forall|j: int|
            start <= j < end ==> (#[trigger] rows[j]).0 == creator && after_cursor(cursor)(
                rows[j].1,
            ),
        end - start < n ==> forall|j: int|
            end <= j < rows.len() ==> (#[trigger] rows[j]).0 != creator,
    ensures
        ({
            let all = index_keys(rows, creator, cursor);
            rows.subrange(start, end).map_values(row_key()) == if all.len() <= n {
                all
            } else {
                all.take(n)
            }
        }),
{
    let pred = in_partition(creator, cursor);
    let all = index_keys(rows, creator, cursor);
    let head = rows.take(start);
    let middle = rows.subrange(start, end);
    let tail = rows.skip(end);
    assert(rows =~= head + middle + tail);
    Seq::filter_distributes_over_add(head + middle, tail, pred);
    Seq::filter_distributes_over_add(head, middle, pred);
    lemma_filter_none(head, pred);
    assert forall|j: int| 0 <= j < middle.len() implies pred(#[trigger] middle[j]) by {
        assert(middle[j] == rows[start + j]);
    }
    lemma_filter_all(middle, pred);
    let rest = tail.filter(pred);
    assert(rows.filter(pred) =~= middle + rest);
    assert(all =~= middle.map_values(row_key()) + rest.map_values(row_key()));
    if end - start < n {
        assert forall|j: int| 0 <= j < tail.len() implies !pred(#[trigger] tail[j]) by {
            assert(tail[j] == rows[end + j]);
        }
        lemma_filter_none(tail, pred);
        assert(all =~= middle.map_values(row_key()));
    } else {
        assert(all.take(n) =~= middle.map_values(row_key()));
    }
}

/// In a sorted index, once a row names a creator above `creator`, no later
/// row names `creator`.
proof fn lemma_partition_has_ended(rows: Seq<RowView>, creator: Seq<char>, end: int)
    requires
        rows_sorted(rows),
        0 <= end < rows.len(),
        !text_lt(rows[end].0, creator),
        rows[end].0 != creator,
    ensures
        forall|j: int| end <= j < rows.len() ==> (#[trigger] rows[j]).0 != creator,
{
    assert forall|j: int| end <= j < rows.len() implies (#[trigger] rows[j]).0 != creator by {
        if j > end && rows[j].0 == creator {
            assert(row_lt(rows[end], rows[j]));
        }
    }
}

struct IndexRow {
    creator: String,
    key: (String, String),
}

spec fn row_views(rows: Seq<IndexRow>) -> Seq<RowView> {
    Seq::new(rows.len(), |i: int| (rows[i].creator@, rows[i].key@))
}

/// The secondary index of the store, by creator.
pub struct SubscriptionIndices {
    creator: Vec<IndexRow>,
}

fn row_comes_before(
    creator: &String,
    key: &(String, String),
    other_creator: &String,
    other_key: &(String, String),
) -> (r: bool)
    ensures
        r == row_lt((creator@, key@), (other_creator@, other_key@)),
{
    if text_comes_before(creator.as_str(), other_creator.as_str()) {
        true
    } else if *creator == *other_creator {
        key_comes_before(key, other_key)
    } else {
        false
    }
}

impl SubscriptionIndices {
    #[verifier::type_invariant]
    spec fn sorted(self) -> bool {
        rows_sorted(row_views(self.creator@))
    }

    /// The rows of the index, in ascending order.
    pub closed spec fn rows(&self) -> Seq<RowView> {
        row_views(self.creator@)
    }

    /// An index without rows.
    pub fn new() -> (idx: Self)
        ensures
            idx.rows() == Seq::<RowView>::empty(),
    {
        let idx = SubscriptionIndices { creator: Vec::new() };
        assert(idx.rows() =~= Seq::<RowView>::empty());
        idx
    }

    /// First position whose row is not below the row of `creator` and `key`.
    fn lower_bound(&self, creator: &String, key: &(String, String)) -> (p: usize)
        ensures
            p <= self.rows().len(),
            rows_sorted(self.rows()),
            forall|j: int| 0 <= j < p ==> row_lt(self.rows()[j], (creator@, key@)),
            forall|j: int| p <= j < self.rows().len() ==> !row_lt(self.rows()[j], (creator@, key@)),
    {
        proof {
            use_type_invariant(&*self);
        }
        let ghost rows = self.rows();
        let ghost target = (creator@, key@);
        let mut lo: usize = 0;
        let mut hi: usize = self.creator.len();
        while lo < hi
            invariant
                rows == row_views(self.creator@),
                rows_sorted(rows),
                target == (creator@, key@),
                lo <= hi <= rows.len(),
                forall|j: int| 0 <= j < lo ==> row_lt(rows[j], target),
                forall|j: int| hi <= j < rows.len() ==> !row_lt(rows[j], target),
            decreases hi - lo,
        {
            let mid: usize = lo + (hi - lo) / 2;
            let row = &self.creator[mid];
            if row_comes_before(&row.creator, &row.key, creator, key) {
                proof {
                    assert forall|j: int| 0 <= j < mid + 1 implies row_lt(rows[j], target) by {
                        if j < mid {
                            lemma_row_lt_transitive(rows[j], rows[mid as int], target);
                        }
                    }
                }
                lo = mid + 1;
            } else {
                proof {
                    assert forall|j: int| mid <= j < rows.len() implies !row_lt(rows[j], target) by {
                        if j > mid && row_lt(rows[j], target) {
                            lemma_row_lt_transitive(rows[mid as int], rows[j], target);
                        }
                    }
                }
                hi = mid;
            }
        }
        lo
    }

    /// Whether the row at `p`, the lower bound of the row of `creator` and
    /// `key`, is that row.
    fn holds_at(&self, p: usize, creator: &String, key: &(String, String)) -> (b: bool)
        requires
            p <= self.rows().len(),
            forall|j: int| 0 <= j < p ==> row_lt(self.rows()[j], (creator@, key@)),
            forall|j: int| p <= j < self.rows().len() ==> !row_lt(self.rows()[j], (creator@, key@)),
        ensures
            b == self.rows().contains((creator@, key@)),
            b ==> p < self.rows().len() && self.rows()[p as int] == (creator@, key@),
            rows_sorted(self.rows()),
    {
        proof {
            use_type_invariant(&*self);
        }
        let b = p < self.creator.len() && self.creator[p].creator == *creator
            && self.creator[p].key.0 == key.0 && self.creator[p].key.1 == key.1;
        proof {
            let rows = self.rows();
            let target = (creator@, key@);
            lemma_row_lt_irreflexive(target);
            if b {
                assert(rows[p as int] == target);
            } else if rows.contains(target) {
                let j = rows.index_of(target);
                if j < p {
                    assert(row_lt(rows[j], target));
                } else if j > p {
                    assert(row_lt(rows[p as int], rows[j]));
                } else {
                    assert(rows[p as int] == (self.creator@[p as int].creator@, self.creator@[p as int].key@));
                }
                assert(false);
            }
        }
        b
    }

    /// Puts the row of `creator` and `key` into the index, if it is not there.
    pub fn insert(&mut self, creator: String, key: (String, String))
        ensures
            forall|r: RowView|
                final(self).rows().contains(r) <==> r == (creator@, key@) || old(
                    self,
                ).rows().contains(r),
    {
        let p: usize = self.lower_bound(&creator, &key);
        if self.holds_at(p, &creator, &key) {
            return ;
        }
        let ghost before = self.rows();
        let ghost target = (creator@, key@);
        let mut rows: Vec<IndexRow> = Vec::new();
        std::mem::swap(&mut rows, &mut self.creator);
        rows.insert(p, IndexRow { creator, key });
        proof {
            let after = row_views(rows@);
            assert(after =~= before.insert(p as int, target));
            assert forall|j: int| p <= j < before.len() implies row_lt(target, before[j]) by {
                if !row_lt(target, before[j]) {
                    lemma_row_lt_connected(target, before[j]);
                    assert(before.contains(target));
                }
            }
            assert forall|a: int, b: int| 0 <= a < b < after.len() implies row_lt(
                after[a],
                after[b],
            ) by {
                if b < p {
                    assert(row_lt(before[a], before[b]));
                } else if b == p {
                    assert(row_lt(before[a], target));
                } else if a < p {
                    assert(row_lt(before[a], before[b - 1]));
                } else if a == p {
                    assert(row_lt(target, before[b - 1]));
                } else {
                    assert(row_lt(before[a - 1], before[b - 1]));
                }
            }
            assert forall|r: RowView| after.contains(r) <==> r == target || before.contains(r) by {
                if after.contains(r) {
                    let a = after.index_of(r);
                    if a < p {
                        assert(before[a] == r);
                    } else if a > p {
                        assert(before[a - 1] == r);
                    }
                }
                if r == target {
                    assert(after[p as int] == r);
                } else if before.contains(r) {
                    let a = before.index_of(r);
                    if a < p {
                        assert(after[a] == r);
                    } else {
                        assert(after[a + 1] == r);
                    }
                }
            }
        }
        self.creator = rows;
    }

    /// Takes the row of `creator` and `key` out of the index, if it is there.
    pub fn remove(&mut self, creator: &String, key: &(String, String))
        ensures
            forall|r: RowView|
                final(self).rows().contains(r) <==> r != (creator@, key@) && old(
                    self,
                ).rows().contains(r),
    {
        let p: usize = self.lower_bound(creator, key);
        if !self.holds_at(p, creator, key) {
            return ;
        }
        let ghost before = self.rows();
        let ghost target = (creator@, key@);
        let mut rows: Vec<IndexRow> = Vec::new();
        std::mem::swap(&mut rows, &mut self.creator);
        rows.remove(p);
        proof {
            let after = row_views(rows@);
            assert(after =~= before.remove(p as int));
            lemma_row_lt_irreflexive(target);
            assert forall|a: int, b: int| 0 <= a < b < after.len() implies row_lt(
                after[a],
                after[b],
            ) by {
                let x = if a < p {
                    a
                } else {
                    a + 1
                };
                let y = if b < p {
                    b
                } else {
                    b + 1
                };
                assert(row_lt(before[x], before[y]));
            }
            assert forall|r: RowView| after.contains(r) <==> r != target && before.contains(r) by {
                if after.contains(r) {
                    let a = after.index_of(r);
                    let x = if a < p {
                        a
                    } else {
                        a + 1
                    };
                    assert(before[x] == r);
                    if x < p {
                        assert(row_lt(before[x], before[p as int]));
                    } else {
                        assert(row_lt(before[p as int], before[x]));
                    }
                }
                if r != target && before.contains(r) {
                    let a = before.index_of(r);
                    if a < p {
                        assert(after[a] == r);
                    } else {
                        assert(after[a - 1] == r);
                    }
                }
            }
        }
        self.creator = rows;
    }

    /// Position of the first row of `creator` whose key is after the cursor.
    fn partition_start(&self, creator: &String, start_after: &Option<(String, String)>) -> (start:
        usize)
        ensures
            start <= self.rows().len(),
            rows_sorted(self.rows()),
            forall|j: int|
                0 <= j < start ==> !in_partition(creator@, cursor_view(*start_after))(
                    #[trigger] self.rows()[j],
                ),
            forall|j: int|
                start <= j < self.rows().len() ==> !text_lt(
                    (#[trigger] self.rows()[j]).0,
                    creator@,
                ) && (self.rows()[j].0 == creator@ ==> after_cursor(cursor_view(*start_after))(
                    self.rows()[j].1,
                )),
    {
        let ghost rows = self.rows();
        let ghost pred = in_partition(creator@, cursor_view(*start_after));
        proof {
            lemma_text_lt_irreflexive(creator@);
        }
        match start_after {
            Some(key) => {
                let p: usize = self.lower_bound(creator, key);
                let held = self.holds_at(p, creator, key);
                assert(held ==> p < self.creator.len());
                let start: usize = if held {
                    p + 1
                } else {
                    p
                };
                proof {
                    let target = (creator@, key@);
                    lemma_row_lt_irreflexive(target);
                    lemma_key_lt_irreflexive(key@);
                    assert forall|j: int| 0 <= j < start implies !pred(#[trigger] rows[j]) by {
                        if j < p {
                            assert(row_lt(rows[j], target));
                            if pred(rows[j]) {
                                lemma_key_lt_transitive(key@, rows[j].1, key@);
                            }
                        }
                    }
                    assert forall|j: int| start <= j < rows.len() implies !text_lt(
                        (#[trigger] rows[j]).0,
                        creator@,
                    ) && (rows[j].0 == creator@ ==> key_lt(key@, rows[j].1)) by {
                        if held {
                            assert(row_lt(rows[p as int], rows[j]));
                        } else {
                            assert(!row_lt(rows[j], target));
                            if !row_lt(target, rows[j]) {
                                lemma_row_lt_connected(target, rows[j]);
                                assert(rows.contains(target));
                            }
                        }
                        assert(row_lt(target, rows[j]));
                        assert(text_lt(creator@, rows[j].0) || rows[j].0 == creator@);
                        if text_lt(rows[j].0, creator@) {
                            lemma_text_lt_transitive(creator@, rows[j].0, creator@);
                        }
                    }
                }
                start
            },
            None => {
                let least = (String::new(), String::new());
                let start: usize = self.lower_bound(creator, &least);
                proof {
                    assert(least@ == (Seq::<char>::empty(), Seq::<char>::empty()));
                    assert forall|j: int| 0 <= j < start implies !pred(#[trigger] rows[j]) by {
                        lemma_nothing_below_the_empty_key(rows[j].1);
                        assert(row_lt(rows[j], (creator@, least@)));
                    }
                    assert forall|j: int| start <= j < rows.len() implies !text_lt(
                        (#[trigger] rows[j]).0,
                        creator@,
                    ) by {
                        assert(!row_lt(rows[j], (creator@, least@)));
                    }
                }
                start
            },
        }
    }

    /// The first `n` keys that the index holds for `creator` after the cursor,
    /// in ascending order; all of them where there are no more than `n`.
    pub fn keys_of(&self, creator: &String, start_after: &Option<(String, String)>, n: usize) -> (r:
        Vec<(String, String)>)
        ensures
            rows_sorted(self.rows()),
            ({
                let all = index_keys(self.rows(), creator@, cursor_view(*start_after));
                r.deep_view() == if all.len() <= n {
                    all
                } else {
                    all.take(n as int)
                }
            }),
    {
        let ghost rows = self.rows();
        let start: usize = self.partition_start(creator, start_after);
        let mut out: Vec<(String, String)> = Vec::new();
        let mut i: usize = start;
        proof {
            assert(rows.subrange(start as int, start as int) =~= Seq::<RowView>::empty());
            assert(out.deep_view() =~= rows.subrange(start as int, i as int).map_values(row_key()));
        }
        while i < self.creator.len() && out.len() < n && self.creator[i].creator == *creator
            invariant
                rows == row_views(self.creator@),
                start <= i <= rows.len(),
                out@.len() == i - start,
                out@.len() <= n,
                forall|j: int| start <= j < i ==> (#[trigger] rows[j]).0 == creator@,
                out.deep_view() == rows.subrange(start as int, i as int).map_values(row_key()),
            decreases rows.len() - i,
        {
            let ghost shown = out.deep_view();
            let key = &self.creator[i].key;
            out.push((key.0.clone(), key.1.clone()));
            proof {
                assert(out.deep_view() =~= shown.push(rows[i as int].1));
                assert(rows.subrange(start as int, i + 1).map_values(row_key()) =~= shown.push(
                    rows[i as int].1,
                ));
            }
            i += 1;
        }
        proof {
            if out@.len() < n && i < rows.len() {
                lemma_partition_has_ended(rows, creator@, i as int);
            }
            lemma_partition_is_a_range(
                rows,
                creator@,
                cursor_view(*start_after),
                start as int,
                i as int,
                n as int,
            );
        }
        out
    }
}

} // verus!
