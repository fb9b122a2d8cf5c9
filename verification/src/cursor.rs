//! Bookkeeping for incremental syncs.
//!
//! A client that pushes the same growing data set on every autosave needs to
//! know what the server already has. Two shapes cover most of it:
//!
//! - [`SyncCursor`]: how many items of an append-only list have been pushed, so
//!   the next push carries only the tail. [`SyncCursors`] keeps one cursor per
//!   key, for lists grouped by run, level, or any other identifier.
//! - [`SyncWatermarks`]: the last value pushed for a counter that only grows,
//!   so unchanged counters are skipped.

use crate::keymap::{GroupKey, KeyMap};
use vstd::prelude::*;
use vstd::slice::slice_subrange;
use vstd::std_specs::cmp::PartialOrdIs;

verus! {

/// The items past the first `synced`: none when there are no more than that.
pub open spec fn unsynced<T>(items: Seq<T>, synced: usize) -> Seq<T> {
    if synced <= items.len() {
        items.skip(synced as int)
    } else {
        Seq::empty()
    }
}

/// The larger of two counts.
pub open spec fn larger(a: usize, b: usize) -> usize {
    if a < b {
        b
    } else {
        a
    }
}

/// How many items of an append-only list have been synced.
#[derive(Debug, Clone, Copy, PartialEq, Eq, Structural)]
pub struct SyncCursor {
    synced: usize,
}

impl View for SyncCursor {
    type V = usize;

    closed spec fn view(&self) -> usize {
        self.synced
    }
}

impl SyncCursor {
    /// Create a cursor that has synced `count` items.
    #[must_use]
    pub fn new(count: usize) -> (cursor: Self)
        ensures
            cursor@ == count,
    {
        SyncCursor { synced: count }
    }

    /// Number of items synced so far.
    pub fn synced(&self) -> (count: usize)
        ensures
            count == self@,
    {
        self.synced
    }

    /// The tail of `items` that has not been synced yet.
    pub fn pending<'a, T>(&self, items: &'a [T]) -> (tail: &'a [T])
        ensures
            tail@ == unsynced(items@, self@),
    {
        let from = if self.synced < items.len() {
            self.synced
        } else {
            items.len()
        };
        let tail = slice_subrange(items, from, items.len());
        assert(tail@ =~= unsynced(items@, self@));
        tail
    }

    /// Whether every item of `items` has been synced.
    pub fn is_caught_up<T>(&self, items: &[T]) -> (caught_up: bool)
        ensures
            caught_up == (items@.len() <= self@),
    {
        self.pending(items).len() == 0
    }

    /// Record that the first `count` items are synced.
    ///
    /// The cursor only moves forward, so a late callback reporting an older
    /// count leaves it untouched.
    pub fn mark_synced(&mut self, count: usize)
        ensures
            final(self)@ == larger(old(self)@, count),
    {
        if self.synced < count {
            self.synced = count;
        }
    }

    /// Forget what was synced, so the next push carries everything again.
    pub fn reset(&mut self)
        ensures
            final(self)@ == 0,
    {
        self.synced = 0;
    }
}

impl Default for SyncCursor {
    fn default() -> (cursor: Self)
        ensures
            cursor@ == 0,
    {
        Self::new(0)
    }
}

/// The synced items followed by the pending ones are all items.
pub proof fn law_pending_completes_the_synced<T>(items: Seq<T>, synced: usize)
    ensures
        synced <= items.len() ==> items.take(synced as int) + unsynced(items, synced) == items,
        synced > items.len() ==> unsynced(items, synced).len() == 0,
{
    if synced <= items.len() {
        assert(items.take(synced as int) + unsynced(items, synced) =~= items);
    }
}

/// A cursor never moves back, and the order in which counts are reported does
/// not matter.
pub proof fn law_cursor_only_moves_forward(synced: usize, first: usize, second: usize)
    ensures
        larger(synced, first) >= synced,
        larger(synced, first) >= first,
        first <= synced ==> larger(synced, first) == synced,
        larger(larger(synced, first), second) == larger(larger(synced, second), first),
{
}

/// Once a list is marked as synced to its end, exactly what is appended to it
/// afterwards is pending.
pub proof fn law_next_push_carries_what_was_appended<T>(
    items: Seq<T>,
    appended: Seq<T>,
    synced: usize,
)
    requires
        synced <= items.len() <= usize::MAX,
    ensures
        unsynced(items + appended, larger(synced, items.len() as usize)) == appended,
{
    assert(unsynced(items + appended, larger(synced, items.len() as usize)) =~= appended);
}

/// One [`SyncCursor`] per key, for append-only lists grouped by an identifier.
#[derive(Debug)]
pub struct SyncCursors<K: GroupKey> {
    cursors: KeyMap<K, usize>,
}

impl<K: GroupKey> View for SyncCursors<K> {
    type V = Map<K::V, usize>;

    closed spec fn view(&self) -> Map<K::V, usize> {
        self.cursors@
    }
}

/// How many items of `key` have been synced: none for an unknown key.
pub open spec fn count_of<G>(counts: Map<G, usize>, key: G) -> usize {
    if counts.contains_key(key) {
        counts[key]
    } else {
        0
    }
}

impl<K: GroupKey> SyncCursors<K> {
    /// Create an empty set of cursors.
    #[must_use]
    pub fn new() -> (cursors: Self)
        ensures
            cursors@ == Map::<K::V, usize>::empty(),
    {
        SyncCursors { cursors: KeyMap::new() }
    }

    /// The cursor for `key`, or a fresh one if the key is unknown.
    pub fn cursor(&self, key: &K) -> (cursor: SyncCursor)
        ensures
            cursor@ == count_of(self@, key@),
    {
        match self.cursors.get(key) {
            Some(count) => SyncCursor::new(*count),
            None => SyncCursor::new(0),
        }
    }

    /// Number of items synced for `key`.
    pub fn synced(&self, key: &K) -> (count: usize)
        ensures
            count == count_of(self@, key@),
    {
        self.cursor(key).synced()
    }

    /// The tail of `items` not yet synced for `key`.
    pub fn pending<'a, T>(&self, key: &K, items: &'a [T]) -> (tail: &'a [T])
        ensures
            tail@ == unsynced(items@, count_of(self@, key@)),
    {
        self.cursor(key).pending(items)
    }

    /// Record that the first `count` items of `key` are synced.
    pub fn mark_synced(&mut self, key: K, count: usize)
        ensures
            final(self)@ == old(self)@.insert(key@, larger(count_of(old(self)@, key@), count)),
    {
        let mut cursor = self.cursor(&key);
        cursor.mark_synced(count);
        self.cursors.insert(key, cursor.synced());
    }

    /// Number of keys with a recorded cursor.
    pub fn len(&self) -> (count: usize)
        ensures
            self@.dom().finite(),
            count == self@.len(),
    {
        self.cursors.len()
    }

    /// Whether no key has a recorded cursor.
    pub fn is_empty(&self) -> (empty: bool)
        ensures
            self@.dom().finite(),
            empty == (self@ == Map::<K::V, usize>::empty()),
    {
        self.cursors.is_empty()
    }

    /// Forget every cursor.
    pub fn clear(&mut self)
        ensures
            final(self)@ == Map::<K::V, usize>::empty(),
    {
        self.cursors.clear();
    }
}

impl<K: GroupKey> Default for SyncCursors<K> {
    fn default() -> (cursors: Self)
        ensures
            cursors@ == Map::<K::V, usize>::empty(),
    {
        Self::new()
    }
}

impl<K: GroupKey> Clone for SyncCursors<K> {
    fn clone(&self) -> (cursors: Self)
        ensures
            cursors@ == self@,
    {
        SyncCursors { cursors: self.cursors.clone() }
    }
}

/// Marking one key leaves what is synced of every other key alone.
pub proof fn law_keys_are_independent<G>(
    counts: Map<G, usize>,
    key: G,
    count: usize,
    other: G,
)
    ensures
        other != key ==> count_of(
            counts.insert(key, larger(count_of(counts, key), count)),
            other,
        ) == count_of(counts, other),
        count_of(counts.insert(key, larger(count_of(counts, key), count)), key) == larger(
            count_of(counts, key),
            count,
        ),
{
}

/// A record for a new key adds one to the number of keys, and one for a key
/// that has a record already adds none. There are no keys exactly when the
/// number is zero.
pub proof fn law_length_counts_the_keys<G, V>(records: Map<G, V>, key: G, value: V)
    requires
        records.dom().finite(),
    ensures
        records.contains_key(key) ==> records.insert(key, value).len() == records.len(),
        !records.contains_key(key) ==> records.insert(key, value).len() == records.len() + 1,
        records.len() == 0 <==> records == Map::<G, V>::empty(),
{
    if records.contains_key(key) {
        assert(records.insert(key, value).dom() =~= records.dom());
    } else {
        assert(records.insert(key, value).dom() =~= records.dom().insert(key));
    }
    if records.len() == 0 {
        assert(records.dom() =~= Set::empty());
        assert(records =~= Map::<G, V>::empty());
    }
}

/// Where no key has a cursor, nothing is synced of any.
pub proof fn law_no_cursors_means_nothing_synced<G>(counts: Map<G, usize>, key: G)
    requires
        counts == Map::<G, usize>::empty(),
    ensures
        count_of(counts, key) == 0,
{
}

/// The highest value pushed for each of a set of monotonically growing
/// counters.
#[derive(Debug)]
pub struct SyncWatermarks<K: GroupKey, V = u32> {
    marks: KeyMap<K, V>,
}

impl<K: GroupKey, V> View for SyncWatermarks<K, V> {
    type V = Map<K::V, V>;

    closed spec fn view(&self) -> Map<K::V, V> {
        self.marks@
    }
}

/// Whether `mark` is the watermark of `key`: the value recorded for it, or the
/// type's default if there is none.
pub open spec fn is_mark<G, V: Default>(marks: Map<G, V>, key: G, mark: V) -> bool {
    if marks.contains_key(key) {
        mark == marks[key]
    } else {
        call_ensures(V::default, (), mark)
    }
}

impl<K: GroupKey, V: Copy + Ord + Default> SyncWatermarks<K, V> {
    /// Create an empty set of watermarks.
    #[must_use]
    pub fn new() -> (marks: Self)
        ensures
            marks@ == Map::<K::V, V>::empty(),
    {
        SyncWatermarks { marks: KeyMap::new() }
    }

    /// The value last synced for `key`, or the default if it is unknown.
    pub fn synced(&self, key: &K) -> (mark: V)
        ensures
            is_mark(self@, key@, mark),
    {
        match self.marks.get(key) {
            Some(mark) => *mark,
            None => V::default(),
        }
    }

    /// Whether `value` is above the watermark for `key` and so worth pushing.
    pub fn is_ahead(&self, key: &K, value: V) -> (ahead: bool)
        ensures
            exists|mark: V|
                #[trigger] is_mark(self@, key@, mark) && call_ensures(
                    V::gt,
                    (&value, &mark),
                    ahead,
                ),
    {
        let mark = self.synced(key);
        value.gt(&mark)
    }

    /// Record `value` as synced for `key`, keeping the higher of the two.
    pub fn mark_synced(&mut self, key: K, value: V)
        ensures
            exists|mark: V, kept: V|
                {
                    &&& #[trigger] is_mark(old(self)@, key@, mark)
                    &&& #[trigger] call_ensures(V::max, (mark, value), kept)
                    &&& final(self)@ == old(self)@.insert(key@, kept)
                },
    {
        let mark = self.synced(&key);
        let kept = mark.max(value);
        self.marks.insert(key, kept);
    }

    /// Number of keys with a recorded watermark.
    pub fn len(&self) -> (count: usize)
        ensures
            self@.dom().finite(),
            count == self@.len(),
    {
        self.marks.len()
    }

    /// Whether no key has a recorded watermark.
    pub fn is_empty(&self) -> (empty: bool)
        ensures
            self@.dom().finite(),
            empty == (self@ == Map::<K::V, V>::empty()),
    {
        self.marks.is_empty()
    }

    /// Forget every watermark.
    pub fn clear(&mut self)
        ensures
            final(self)@ == Map::<K::V, V>::empty(),
    {
        self.marks.clear();
    }
}

impl<K: GroupKey, V> Default for SyncWatermarks<K, V> {
    fn default() -> (marks: Self)
        ensures
            marks@ == Map::<K::V, V>::empty(),
    {
        SyncWatermarks { marks: KeyMap::new() }
    }
}

impl<K: GroupKey, V: Copy> Clone for SyncWatermarks<K, V> {
    fn clone(&self) -> (marks: Self)
        ensures
            marks@ == self@,
    {
        SyncWatermarks { marks: self.marks.clone() }
    }
}

/// A watermark keeps the highest value: what is kept of a mark and a value is
/// one of them, and neither is above it.
pub proof fn law_watermark_keeps_the_highest<V: Ord>(mark: V, value: V, kept: V)
    requires
        vstd::laws_cmp::obeys_cmp::<V>(),
        call_ensures(V::max, (mark, value), kept),
    ensures
        kept == mark || kept == value,
        !mark.is_gt(&kept),
        !value.is_gt(&kept),
{
    reveal(vstd::laws_cmp::obeys_cmp_ord);
    reveal(vstd::laws_cmp::obeys_partial_cmp_spec_properties);
    reveal(vstd::laws_cmp::obeys_cmp_partial_ord);
    reveal(vstd::laws_eq::obeys_eq_spec_properties);
}

/// Once a value is marked as synced, that value is not ahead any more: a
/// counter that did not change is skipped.
pub proof fn law_unchanged_counters_are_skipped<V: Ord>(
    mark: V,
    value: V,
    kept: V,
    ahead: bool,
)
    requires
        vstd::laws_cmp::obeys_cmp::<V>(),
        call_ensures(V::max, (mark, value), kept),
        call_ensures(V::gt, (&value, &kept), ahead),
    ensures
        !ahead,
{
    law_watermark_keeps_the_highest(mark, value, kept);
    reveal(vstd::laws_cmp::obeys_cmp_partial_ord);
}

/// Marking a value for a key sets its watermark to the higher of the two: no
/// mark goes down, the value is not ahead any more, and the watermark of every
/// other key is what it was. An unknown key starts at the type's default.
pub proof fn law_marking_raises_one_watermark<G, V: Ord + Default>(
    marks: Map<G, V>,
    key: G,
    value: V,
    mark: V,
    kept: V,
    other: G,
)
    requires
        vstd::laws_cmp::obeys_cmp::<V>(),
        is_mark(marks, key, mark),
        call_ensures(V::max, (mark, value), kept),
    ensures
        kept == mark || kept == value,
        !mark.is_gt(&kept),
        !value.is_gt(&kept),
        forall|now: V| is_mark(marks.insert(key, kept), key, now) <==> now == kept,
        forall|now: V, ahead: bool|
            is_mark(marks.insert(key, kept), key, now) && #[trigger] call_ensures(
                V::gt,
                (&value, &now),
                ahead,
            ) ==> !ahead,
        other != key ==> forall|now: V|
            is_mark(marks.insert(key, kept), other, now) <==> is_mark(marks, other, now),
{
    law_watermark_keeps_the_highest(mark, value, kept);
    assert forall|now: V, ahead: bool|
        is_mark(marks.insert(key, kept), key, now) && #[trigger] call_ensures(
            V::gt,
            (&value, &now),
            ahead,
        ) implies !ahead by {
        law_unchanged_counters_are_skipped(mark, value, kept, ahead);
    }
}

/// What is synced of a key is the count recorded for it, and nothing where none
/// is.
pub proof fn law_count_is_the_recorded_one<G>(counts: Map<G, usize>, key: G)
    ensures
        counts.contains_key(key) ==> count_of(counts, key) == counts[key],
        !counts.contains_key(key) ==> count_of(counts, key) == 0,
{
}

/// Of two counts the larger is one of them, and neither is above it.
pub proof fn law_larger_is_the_larger(a: usize, b: usize)
    ensures
        larger(a, b) == a || larger(a, b) == b,
        larger(a, b) >= a,
        larger(a, b) >= b,
{
}

/// Item by item: what is pending after the first `synced` is the rest, in
/// order.
pub proof fn law_pending_is_the_rest<T>(items: Seq<T>, synced: usize, i: int)
    ensures
        unsynced(items, synced).len() == if synced <= items.len() {
            items.len() - synced
        } else {
            0
        },
        0 <= i && synced + i < items.len() ==> unsynced(items, synced)[i] == items[synced + i],
{
}

/// The watermark of a key is the value recorded for it, and where none is, what
/// the type gives as its default.
pub proof fn law_watermark_is_the_recorded_one<G, V: Default>(marks: Map<G, V>, key: G, mark: V)
    ensures
        marks.contains_key(key) ==> (is_mark(marks, key, mark) <==> mark == marks[key]),
        !marks.contains_key(key) ==> (is_mark(marks, key, mark) <==> call_ensures(
            V::default,
            (),
            mark,
        )),
{
}

} // verus!
