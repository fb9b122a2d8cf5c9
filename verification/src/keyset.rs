//! Sets of sync keys.

use crate::text::same_text;
use vstd::hash_set::StringHashSet;
use vstd::prelude::*;

verus! {

/// A set of keys, held as a list for going through them and as an index for
/// looking one up.
pub struct KeySet {
    keys: Vec<String>,
    index: StringHashSet,
}

impl View for KeySet {
    type V = Set<Seq<char>>;

    closed spec fn view(&self) -> Set<Seq<char>> {
        crate::text::views(self.keys@).to_set()
    }
}

impl KeySet {
    #[verifier::type_invariant]
    spec fn list_and_index_agree(self) -> bool {
        &&& crate::text::views(self.keys@).no_duplicates()
        &&& self.index@ == crate::text::views(self.keys@).to_set()
    }

    /// An empty set.
    pub fn new() -> (set: Self)
        ensures
            set@ == Set::<Seq<char>>::empty(),
    {
        let keys: Vec<String> = Vec::new();
        assert(crate::text::views(keys@).to_set() =~= Set::empty());
        KeySet { keys, index: StringHashSet::new() }
    }

    /// Whether the set holds `key`.
    pub fn contains(&self, key: &str) -> (held: bool)
        ensures
            held == self@.contains(key@),
    {
        proof {
            use_type_invariant(self);
        }
        self.index.contains(key)
    }

    /// The keys of the set, each once.
    pub fn keys(&self) -> (keys: &[String])
        ensures
            crate::text::views(keys@).no_duplicates(),
            crate::text::views(keys@).to_set() == self@,
    {
        proof {
            use_type_invariant(self);
        }
        self.keys.as_slice()
    }

    /// How many keys the set holds.
    pub fn len(&self) -> (count: usize)
        ensures
            self@.finite(),
            count == self@.len(),
    {
        proof {
            use_type_invariant(self);
            crate::text::views(self.keys@).unique_seq_to_set();
        }
        self.keys.len()
    }

    /// Whether the set holds no key.
    pub fn is_empty(&self) -> (empty: bool)
        ensures
            self@.finite(),
            empty == (self@ == Set::<Seq<char>>::empty()),
    {
        proof {
            let all = crate::text::views(self.keys@);
            if self.keys@.len() == 0 {
                assert(self@ =~= Set::empty());
            } else {
                assert(all.contains(all[0]));
                assert(self@.contains(all[0]));
            }
        }
        self.keys.len() == 0
    }

    /// Add a key.
    pub fn insert(&mut self, key: String)
        ensures
            final(self)@ == old(self)@.insert(key@),
    {
        proof {
            use_type_invariant(&*self);
        }
        let mut taken = KeySet::new();
        core::mem::swap(self, &mut taken);
        let KeySet { mut keys, mut index } = taken;
        let ghost before = crate::text::views(keys@);
        if index.insert(key.clone()) {
            keys.push(key);
            let ghost after = crate::text::views(keys@);
            proof {
                assert(after =~= before.push(key@));
                assert(!before.contains(key@));
                lemma_pushed(before, key@);
            }
        } else {
            assert(before.to_set().insert(key@) =~= before.to_set());
        }
        *self = KeySet { keys, index };
    }

    /// Take a key out, if it is there.
    pub fn remove(&mut self, key: &str)
        ensures
            final(self)@ == old(self)@.remove(key@),
    {
        proof {
            use_type_invariant(&*self);
        }
        let mut taken = KeySet::new();
        core::mem::swap(self, &mut taken);
        let KeySet { mut keys, mut index } = taken;
        let ghost before = crate::text::views(keys@);
        if index.remove(key) {
            let mut at: usize = 0;
            while at < keys.len() && !same_text(keys[at].as_str(), key)
                invariant
                    at <= keys.len(),
                    before == crate::text::views(keys@),
                    forall|i: int| 0 <= i < at ==> before[i] != key@,
                decreases keys.len() - at,
            {
                at = at + 1;
            }
            assert(before.contains(key@));
            assert(at < keys.len());
            keys.remove(at);
            proof {
                assert(crate::text::views(keys@) =~= before.remove(at as int));
                lemma_removed(before, at as int);
            }
        } else {
            assert(before.to_set().remove(key@) =~= before.to_set());
        }
        *self = KeySet { keys, index };
    }

    /// Take every key out.
    pub fn clear(&mut self)
        ensures
            final(self)@ == Set::<Seq<char>>::empty(),
    {
        *self = KeySet::new();
    }
}

impl Default for KeySet {
    fn default() -> (set: Self)
        ensures
            set@ == Set::<Seq<char>>::empty(),
    {
        Self::new()
    }
}

impl Clone for KeySet {
    fn clone(&self) -> (set: Self)
        ensures
            set@ == self@,
    {
        let mut set = KeySet::new();
        let ghost all = crate::text::views(self.keys@);
        assert(all.take(0).to_set() =~= Set::empty());
        for i in 0..self.keys.len()
            invariant
                all == crate::text::views(self.keys@),
                set@ == all.take(i as int).to_set(),
        {
            set.insert(self.keys[i].clone());
            proof {
                lemma_to_set_grows(all, i as int);
            }
        }
        assert(all.take(self.keys.len() as int) =~= all);
        set
    }
}

/// The first `n` of a list of items and the next one, as sets.
pub proof fn lemma_to_set_grows<A>(items: Seq<A>, n: int)
    requires
        0 <= n < items.len(),
    ensures
        items.take(n + 1).to_set() == items.take(n).to_set().insert(items[n]),
{
    let fewer = items.take(n);
    let more = items.take(n + 1);
    assert(more =~= fewer.push(items[n]));
    assert forall|item: A| more.to_set().contains(item) == fewer.to_set().insert(
        items[n],
    ).contains(item) by {
        if fewer.contains(item) {
            let i = choose|i: int| 0 <= i < fewer.len() && fewer[i] == item;
            assert(more[i] == item);
        }
        if more.contains(item) && item != items[n] {
            let i = choose|i: int| 0 <= i < more.len() && more[i] == item;
            assert(fewer[i] == item);
        }
        assert(more[n] == items[n]);
    }
    assert(more.to_set() =~= fewer.to_set().insert(items[n]));
}

/// Appending a new item keeps items distinct and adds it to their set.
proof fn lemma_pushed<A>(items: Seq<A>, item: A)
    requires
        items.no_duplicates(),
        !items.contains(item),
    ensures
        items.push(item).no_duplicates(),
        items.push(item).to_set() == items.to_set().insert(item),
{
    let more = items.push(item);
    assert(more.take(items.len() as int) =~= items);
    assert(more.take(more.len() as int) =~= more);
    lemma_to_set_grows(more, items.len() as int);
}

/// Leaving one of several distinct items out keeps them distinct and takes it
/// out of their set.
proof fn lemma_removed<A>(items: Seq<A>, at: int)
    requires
        items.no_duplicates(),
        0 <= at < items.len(),
    ensures
        items.remove(at).no_duplicates(),
        items.remove(at).to_set() == items.to_set().remove(items[at]),
{
    let fewer = items.remove(at);
    assert forall|item: A| fewer.to_set().contains(item) == items.to_set().remove(
        items[at],
    ).contains(item) by {
        if fewer.contains(item) {
            let i = choose|i: int| 0 <= i < fewer.len() && fewer[i] == item;
            let was = if i < at {
                i
            } else {
                i + 1
            };
            assert(items[was] == item);
        }
        if items.contains(item) && item != items[at] {
            let i = choose|i: int| 0 <= i < items.len() && items[i] == item;
            let now = if i < at {
                i
            } else {
                i - 1
            };
            assert(fewer[now] == item);
        }
    }
    assert(fewer.to_set() =~= items.to_set().remove(items[at]));
}

} // verus!
