//! Maps from group keys to values.

use crate::text::same_text;
use vstd::prelude::*;

verus! {

/// A key that records are grouped by. Two keys name the same group exactly
/// when they have the same view.
pub trait GroupKey: View + Sized {
    /// Whether both keys name the same group.
    fn same_key(&self, other: &Self) -> (same: bool)
        ensures
            same == (self@ == other@),
    ;

    /// A key that names the same group.
    fn copy_key(&self) -> (copy: Self)
        ensures
            copy@ == self@,
    ;
}

impl GroupKey for () {
    fn same_key(&self, other: &Self) -> (same: bool) {
        true
    }

    fn copy_key(&self) -> (copy: Self) {
        *self
    }
}

impl GroupKey for usize {
    fn same_key(&self, other: &Self) -> (same: bool) {
        *self == *other
    }

    fn copy_key(&self) -> (copy: Self) {
        *self
    }
}

impl GroupKey for u8 {
    fn same_key(&self, other: &Self) -> (same: bool) {
        *self == *other
    }

    fn copy_key(&self) -> (copy: Self) {
        *self
    }
}

impl GroupKey for u16 {
    fn same_key(&self, other: &Self) -> (same: bool) {
        *self == *other
    }

    fn copy_key(&self) -> (copy: Self) {
        *self
    }
}

impl GroupKey for u32 {
    fn same_key(&self, other: &Self) -> (same: bool) {
        *self == *other
    }

    fn copy_key(&self) -> (copy: Self) {
        *self
    }
}

impl GroupKey for u64 {
    fn same_key(&self, other: &Self) -> (same: bool) {
        *self == *other
    }

    fn copy_key(&self) -> (copy: Self) {
        *self
    }
}

impl GroupKey for u128 {
    fn same_key(&self, other: &Self) -> (same: bool) {
        *self == *other
    }

    fn copy_key(&self) -> (copy: Self) {
        *self
    }
}

impl GroupKey for i8 {
    fn same_key(&self, other: &Self) -> (same: bool) {
        *self == *other
    }

    fn copy_key(&self) -> (copy: Self) {
        *self
    }
}

impl GroupKey for i16 {
    fn same_key(&self, other: &Self) -> (same: bool) {
        *self == *other
    }

    fn copy_key(&self) -> (copy: Self) {
        *self
    }
}

impl GroupKey for i32 {
    fn same_key(&self, other: &Self) -> (same: bool) {
        *self == *other
    }

    fn copy_key(&self) -> (copy: Self) {
        *self
    }
}

impl GroupKey for i64 {
    fn same_key(&self, other: &Self) -> (same: bool) {
        *self == *other
    }

    fn copy_key(&self) -> (copy: Self) {
        *self
    }
}

impl GroupKey for i128 {
    fn same_key(&self, other: &Self) -> (same: bool) {
        *self == *other
    }

    fn copy_key(&self) -> (copy: Self) {
        *self
    }
}

impl GroupKey for isize {
    fn same_key(&self, other: &Self) -> (same: bool) {
        *self == *other
    }

    fn copy_key(&self) -> (copy: Self) {
        *self
    }
}

impl GroupKey for bool {
    fn same_key(&self, other: &Self) -> (same: bool) {
        *self == *other
    }

    fn copy_key(&self) -> (copy: Self) {
        *self
    }
}

impl GroupKey for char {
    fn same_key(&self, other: &Self) -> (same: bool) {
        *self == *other
    }

    fn copy_key(&self) -> (copy: Self) {
        *self
    }
}

impl GroupKey for String {
    fn same_key(&self, other: &Self) -> (same: bool) {
        *self == *other
    }

    fn copy_key(&self) -> (copy: Self) {
        self.clone()
    }
}

impl<'a> GroupKey for &'a str {
    fn same_key(&self, other: &Self) -> (same: bool) {
        same_text(self, other)
    }

    fn copy_key(&self) -> (copy: Self) {
        *self
    }
}

impl<A: GroupKey, B: GroupKey> GroupKey for (A, B) {
    fn same_key(&self, other: &Self) -> (same: bool) {
        self.0.same_key(&other.0) && self.1.same_key(&other.1)
    }

    fn copy_key(&self) -> (copy: Self) {
        (self.0.copy_key(), self.1.copy_key())
    }
}

impl<A: GroupKey, B: GroupKey, C: GroupKey> GroupKey for (A, B, C) {
    fn same_key(&self, other: &Self) -> (same: bool) {
        self.0.same_key(&other.0) && self.1.same_key(&other.1) && self.2.same_key(&other.2)
    }

    fn copy_key(&self) -> (copy: Self) {
        (self.0.copy_key(), self.1.copy_key(), self.2.copy_key())
    }
}

/// The map that a list of entries stands for, a later entry winning over an
/// earlier one with the same key.
pub open spec fn entries_map<K: GroupKey, D>(entries: Seq<(K, D)>) -> Map<K::V, D>
    decreases entries.len(),
{
    if entries.len() == 0 {
        Map::empty()
    } else {
        entries_map(entries.drop_last()).insert(entries.last().0@, entries.last().1)
    }
}

/// Whether no two entries share a key.
pub open spec fn distinct_keys<K: GroupKey, D>(entries: Seq<(K, D)>) -> bool {
    forall|i: int, j: int|
        0 <= i < j < entries.len() ==> #[trigger] entries[i].0@ != #[trigger] entries[j].0@
}

/// An entry list with distinct keys holds one binding per entry and no other.
pub proof fn lemma_entries_map<K: GroupKey, D>(entries: Seq<(K, D)>)
    requires
        distinct_keys(entries),
    ensures
        forall|i: int|
            0 <= i < entries.len() ==> entries_map(entries).contains_key(
                #[trigger] entries[i].0@,
            ) && entries_map(entries)[entries[i].0@] == entries[i].1,
        forall|k: K::V| #[trigger]
            entries_map(entries).contains_key(k) ==> exists|i: int|
                0 <= i < entries.len() && #[trigger] entries[i].0@ == k,
        entries_map(entries).dom().finite(),
        entries_map(entries).len() == entries.len(),
    decreases entries.len(),
{
    if entries.len() > 0 {
        let rest = entries.drop_last();
        assert forall|i: int, j: int| 0 <= i < j < rest.len() implies #[trigger] rest[i].0@
            != #[trigger] rest[j].0@ by {
            assert(entries[i].0@ != entries[j].0@);
        }
        lemma_entries_map(rest);
        let last = entries.last();
        if entries_map(rest).contains_key(last.0@) {
            let i = choose|i: int| 0 <= i < rest.len() && #[trigger] rest[i].0@ == last.0@;
            assert(entries[i].0@ != entries[entries.len() - 1].0@);
        }
        assert forall|i: int| 0 <= i < entries.len() implies entries_map(entries).contains_key(
            #[trigger] entries[i].0@,
        ) && entries_map(entries)[entries[i].0@] == entries[i].1 by {
            if i < rest.len() {
                assert(rest[i].0@ == entries[i].0@);
                assert(entries[i].0@ != entries[entries.len() - 1].0@);
            }
        }
        assert forall|k: K::V| #[trigger] entries_map(entries).contains_key(k) implies exists|
            i: int,
        | 0 <= i < entries.len() && #[trigger] entries[i].0@ == k by {
            if k == last.0@ {
                assert(entries[entries.len() - 1].0@ == k);
            } else {
                let i = choose|i: int| 0 <= i < rest.len() && #[trigger] rest[i].0@ == k;
                assert(entries[i].0@ == k);
            }
        }
    }
}

/// A map from group keys to values, held as a list of entries in which no key
/// occurs twice.
#[derive(Debug)]
pub struct KeyMap<K: GroupKey, D> {
    entries: Vec<(K, D)>,
}

impl<K: GroupKey, D> View for KeyMap<K, D> {
    type V = Map<K::V, D>;

    closed spec fn view(&self) -> Map<K::V, D> {
        entries_map(self.entries@)
    }
}

impl<K: GroupKey, D> KeyMap<K, D> {
    #[verifier::type_invariant]
    spec fn keys_are_distinct(self) -> bool {
        distinct_keys(self.entries@)
    }

    /// An empty map.
    pub fn new() -> (map: Self)
        ensures
            map@ == Map::<K::V, D>::empty(),
    {
        KeyMap { entries: Vec::new() }
    }

    /// Where the entry for `key` stands, if there is one.
    fn position(&self, key: &K) -> (found: Option<usize>)
        ensures
            match found {
                Some(i) => i < self.entries@.len() && self.entries@[i as int].0@ == key@,
                None => !self@.contains_key(key@),
            },
    {
        proof {
            use_type_invariant(self);
            lemma_entries_map(self.entries@);
        }
        for i in 0..self.entries.len()
            invariant
                forall|j: int| 0 <= j < i ==> #[trigger] self.entries@[j].0@ != key@,
        {
            if self.entries[i].0.same_key(key) {
                return Some(i);
            }
        }
        None
    }

    /// The value recorded for `key`, if any.
    pub fn get(&self, key: &K) -> (value: Option<&D>)
        ensures
            match value {
                Some(value) => self@.contains_key(key@) && *value == self@[key@],
                None => !self@.contains_key(key@),
            },
    {
        proof {
            use_type_invariant(self);
            lemma_entries_map(self.entries@);
        }
        match self.position(key) {
            Some(i) => Some(&self.entries[i].1),
            None => None,
        }
    }

    /// Record `value` for `key`, replacing what was recorded for it before.
    pub fn insert(&mut self, key: K, value: D)
        ensures
            final(self)@ == old(self)@.insert(key@, value),
    {
        proof {
            use_type_invariant(&*self);
            lemma_entries_map(self.entries@);
        }
        let found = self.position(&key);
        let ghost before = self.entries@;
        let mut entries: Vec<(K, D)> = Vec::new();
        core::mem::swap(&mut entries, &mut self.entries);
        match found {
            Some(i) => {
                entries[i] = (key, value);
                proof {
                    assert(forall|j: int|
                        0 <= j < before.len() ==> #[trigger] entries@[j].0@ == before[j].0@);
                    lemma_replaced(before, entries@, i as int);
                }
            },
            None => {
                entries.push((key, value));
                proof {
                    assert(entries@.drop_last() =~= before);
                    lemma_appended(before, entries@);
                }
            },
        }
        self.entries = entries;
    }

    /// Record everything that `newer` records, over what was recorded before.
    pub fn absorb(&mut self, newer: Self)
        ensures
            final(self)@ == old(self)@.union_prefer_right(newer@),
    {
        proof {
            use_type_invariant(&newer);
            lemma_entries_map(newer.entries@);
        }
        let mut pending = newer.entries;
        let ghost all = pending@;
        let ghost before = self@;
        while pending.len() > 0
            invariant
                all == newer.entries@,
                distinct_keys(all),
                pending@.len() <= all.len(),
                pending@ == all.take(pending@.len() as int),
                before == old(self)@,
                forall|k: K::V| #[trigger]
                    self@.contains_key(k) <==> before.contains_key(k) || exists|i: int|
                        pending@.len() <= i < all.len() && #[trigger] all[i].0@ == k,
                forall|i: int|
                    pending@.len() <= i < all.len() ==> self@[#[trigger] all[i].0@] == all[i].1,
                forall|k: K::V| #[trigger]
                    self@.contains_key(k) && (forall|i: int|
                        pending@.len() <= i < all.len() ==> #[trigger] all[i].0@ != k) ==> self@[k]
                        == before[k],
            decreases pending@.len(),
        {
            let ghost n = pending@.len() as int;
            let ghost held = self@;
            if let Some((key, value)) = pending.pop() {
                assert(all[n - 1] == (key, value));
                self.insert(key, value);
                assert(pending@ =~= all.take(n - 1));
                assert forall|k: K::V| #[trigger] self@.contains_key(k) <==> before.contains_key(k)
                    || exists|i: int| n - 1 <= i < all.len() && #[trigger] all[i].0@ == k by {
                    if held.contains_key(k) && !before.contains_key(k) {
                        let i = choose|i: int| n <= i < all.len() && #[trigger] all[i].0@ == k;
                        assert(n - 1 <= i < all.len());
                    }
                    if exists|i: int| n - 1 <= i < all.len() && #[trigger] all[i].0@ == k {
                        let i = choose|i: int| n - 1 <= i < all.len() && #[trigger] all[i].0@ == k;
                        if i > n - 1 {
                            assert(held.contains_key(k));
                        }
                    }
                }
                assert forall|k: K::V| #[trigger]
                    self@.contains_key(k) && (forall|i: int|
                        n - 1 <= i < all.len() ==> #[trigger] all[i].0@ != k) implies self@[k]
                    == before[k] by {
                    assert(all[n - 1].0@ != k);
                    assert(held.contains_key(k));
                }
            }
        }
        proof {
            let whole = before.union_prefer_right(newer@);
            assert forall|k: K::V| self@.contains_key(k) == whole.contains_key(k) by {
                if newer@.contains_key(k) {
                    let i = choose|i: int| 0 <= i < all.len() && #[trigger] all[i].0@ == k;
                    assert(all[i].0@ == k);
                }
            }
            assert forall|k: K::V| self@.contains_key(k) implies self@[k] == whole[k] by {
                if newer@.contains_key(k) {
                    let i = choose|i: int| 0 <= i < all.len() && #[trigger] all[i].0@ == k;
                    assert(all[i].0@ == k);
                }
            }
            assert(self@ =~= whole);
        }
    }

    /// The recorded entries, one per key.
    pub fn entries(&self) -> (entries: &[(K, D)])
        ensures
            distinct_keys(entries@),
            self@ == entries_map(entries@),
    {
        proof {
            use_type_invariant(self);
        }
        self.entries.as_slice()
    }

    /// How many keys have a recorded value.
    pub fn len(&self) -> (count: usize)
        ensures
            self@.dom().finite(),
            count == self@.len(),
    {
        proof {
            use_type_invariant(self);
            lemma_entries_map(self.entries@);
        }
        self.entries.len()
    }

    /// Whether no key has a recorded value.
    pub fn is_empty(&self) -> (empty: bool)
        ensures
            self@.dom().finite(),
            empty == (self@ == Map::<K::V, D>::empty()),
    {
        proof {
            use_type_invariant(self);
            lemma_entries_map(self.entries@);
            if self.entries@.len() > 0 {
                assert(self@.contains_key(self.entries@[0].0@));
            }
        }
        self.entries.len() == 0
    }

    /// Forget every recorded value.
    pub fn clear(&mut self)
        ensures
            final(self)@ == Map::<K::V, D>::empty(),
    {
        self.entries = Vec::new();
    }
}

impl<K: GroupKey, D: Copy> Clone for KeyMap<K, D> {
    fn clone(&self) -> (map: Self)
        ensures
            map@ == self@,
    {
        proof {
            use_type_invariant(self);
        }
        let mut entries: Vec<(K, D)> = Vec::new();
        for i in 0..self.entries.len()
            invariant
                distinct_keys(self.entries@),
                entries@.len() == i,
                forall|j: int|
                    0 <= j < i ==> (#[trigger] entries@[j]).0@ == self.entries@[j].0@,
                forall|j: int| 0 <= j < i ==> (#[trigger] entries@[j]).1 == self.entries@[j].1,
        {
            entries.push((self.entries[i].0.copy_key(), self.entries[i].1));
        }
        proof {
            lemma_same_entries(entries@, self.entries@);
        }
        KeyMap { entries }
    }
}

/// Entries with the same keys and values stand for the same map.
proof fn lemma_same_entries<K: GroupKey, D>(left: Seq<(K, D)>, right: Seq<(K, D)>)
    requires
        left.len() == right.len(),
        forall|i: int| 0 <= i < left.len() ==> (#[trigger] left[i]).0@ == right[i].0@,
        forall|i: int| 0 <= i < left.len() ==> (#[trigger] left[i]).1 == right[i].1,
        distinct_keys(right),
    ensures
        distinct_keys(left),
        entries_map(left) == entries_map(right),
    decreases left.len(),
{
    assert forall|i: int, j: int| 0 <= i < j < left.len() implies #[trigger] left[i].0@
        != #[trigger] left[j].0@ by {
        assert(right[i].0@ != right[j].0@);
    }
    if left.len() > 0 {
        let rest = right.drop_last();
        assert forall|i: int, j: int| 0 <= i < j < rest.len() implies #[trigger] rest[i].0@
            != #[trigger] rest[j].0@ by {
            assert(right[i].0@ != right[j].0@);
        }
        lemma_same_entries(left.drop_last(), rest);
    }
}

/// Replacing one entry by another for the same key is an insertion.
proof fn lemma_replaced<K: GroupKey, D>(before: Seq<(K, D)>, after: Seq<(K, D)>, at: int)
    requires
        distinct_keys(before),
        0 <= at < before.len(),
        after == before.update(at, after[at]),
        after[at].0@ == before[at].0@,
    ensures
        distinct_keys(after),
        entries_map(after) == entries_map(before).insert(after[at].0@, after[at].1),
{
    assert forall|i: int, j: int| 0 <= i < j < after.len() implies #[trigger] after[i].0@
        != #[trigger] after[j].0@ by {
        assert(before[i].0@ != before[j].0@);
    }
    lemma_entries_map(before);
    lemma_entries_map(after);
    let target = entries_map(before).insert(after[at].0@, after[at].1);
    assert forall|k: K::V| entries_map(after).contains_key(k) == target.contains_key(k) by {
        if entries_map(after).contains_key(k) {
            let i = choose|i: int| 0 <= i < after.len() && #[trigger] after[i].0@ == k;
            assert(before[i].0@ == k);
        }
        if entries_map(before).contains_key(k) {
            let i = choose|i: int| 0 <= i < before.len() && #[trigger] before[i].0@ == k;
            assert(after[i].0@ == k);
        }
        assert(entries_map(after).contains_key(after[at].0@));
    }
    assert forall|k: K::V| entries_map(after).contains_key(k) implies entries_map(after)[k]
        == target[k] by {
        let i = choose|i: int| 0 <= i < after.len() && #[trigger] after[i].0@ == k;
        assert(after[i].0@ == k);
        assert(before[i].0@ == k);
        if i != at && k == after[at].0@ {
            assert(before[at].0@ == k);
        }
    }
    assert(entries_map(after) =~= target);
}

/// Appending an entry for a new key is an insertion.
proof fn lemma_appended<K: GroupKey, D>(before: Seq<(K, D)>, after: Seq<(K, D)>)
    requires
        distinct_keys(before),
        after.len() == before.len() + 1,
        after.drop_last() == before,
        !entries_map(before).contains_key(after.last().0@),
    ensures
        distinct_keys(after),
        entries_map(after) == entries_map(before).insert(after.last().0@, after.last().1),
{
    lemma_entries_map(before);
    assert forall|i: int, j: int| 0 <= i < j < after.len() implies #[trigger] after[i].0@
        != #[trigger] after[j].0@ by {
        assert(before[i].0@ == after[i].0@);
        if j < before.len() {
            assert(before[j].0@ == after[j].0@);
        }
    }
}

/// Where keys are distinct, no two entries at different places share one.
pub proof fn law_distinct_keys_are_never_shared<K: GroupKey, D>(
    entries: Seq<(K, D)>,
    i: int,
    j: int,
)
    requires
        distinct_keys(entries),
        0 <= i < entries.len(),
        0 <= j < entries.len(),
        i != j,
    ensures
        entries[i].0@ != entries[j].0@,
{
    if i < j {
        assert(entries[i].0@ != entries[j].0@);
    } else {
        assert(entries[j].0@ != entries[i].0@);
    }
}

/// How a longer list of entries relates to a shorter one: one more entry records
/// its value for its key, over what was recorded before.
pub proof fn law_one_more_entry_is_recorded<K: GroupKey, D>(entries: Seq<(K, D)>, entry: (K, D))
    ensures
        entries_map(Seq::<(K, D)>::empty()) == Map::<K::V, D>::empty(),
        entries_map(entries.push(entry)) == entries_map(entries).insert(entry.0@, entry.1),
{
    assert(entries.push(entry).drop_last() =~= entries);
}

} // verus!
