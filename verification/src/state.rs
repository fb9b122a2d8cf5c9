//! What a session has synced so far.

use crate::keyset::KeySet;
use crate::traits::SupabaseRow;
use core::marker::PhantomData;
use vstd::prelude::*;

verus! {

/// The sync state of one row type.
#[verifier::ext_equal]
pub struct StateParts {
    /// The sync keys of the rows that reached the server.
    pub synced_keys: Set<Seq<char>>,
    /// The sync keys of the rows that are under way.
    pub in_flight_keys: Set<Seq<char>>,
    /// The primary key that the server assigned.
    pub primary_key: Option<i64>,
    /// How many syncs succeeded.
    pub sync_count: u32,
    /// Whether the first insert has been done.
    pub initial_insert_done: bool,
}

impl StateParts {
    /// Nothing synced yet.
    pub open spec fn blank() -> Self {
        StateParts {
            synced_keys: Set::empty(),
            in_flight_keys: Set::empty(),
            primary_key: None,
            sync_count: 0,
            initial_insert_done: false,
        }
    }

    /// The keys that were synced or are under way.
    pub open spec fn taken(self) -> Set<Seq<char>> {
        self.synced_keys.union(self.in_flight_keys)
    }

    /// A request with the rows of these keys is under way.
    pub open spec fn launched(self, keys: Seq<Seq<char>>) -> Self {
        StateParts { in_flight_keys: self.in_flight_keys.union(keys.to_set()), ..self }
    }

    /// The request with the rows of these keys was answered.
    pub open spec fn released(self, keys: Seq<Seq<char>>) -> Self {
        StateParts { in_flight_keys: self.in_flight_keys.difference(keys.to_set()), ..self }
    }

    /// One more sync succeeded.
    pub open spec fn counted(self) -> Self {
        StateParts { sync_count: (self.sync_count + 1) as u32, ..self }
    }

    /// The row with this key was synced.
    pub open spec fn marked(self, key: Seq<char>) -> Self {
        StateParts { synced_keys: self.synced_keys.insert(key), ..self }.counted()
    }

    /// The rows with the first `n` of these keys were synced.
    pub open spec fn marked_each(self, keys: Seq<Seq<char>>, n: nat) -> Self
        decreases n,
    {
        if n == 0 {
            self
        } else {
            self.marked_each(keys, (n - 1) as nat).marked(keys[n - 1])
        }
    }

    /// The first insert has been done.
    pub open spec fn inserted(self) -> Self {
        StateParts { initial_insert_done: true, ..self }
    }

    /// The first insert has been done, under this primary key.
    pub open spec fn inserted_as(self, key: i64) -> Self {
        StateParts { primary_key: Some(key), ..self.inserted() }
    }

    /// Marking a key makes that key synced, forgets none, and adds one to the
    /// number of keys if it is new.
    pub proof fn law_marking_forgets_nothing(self, key: Seq<char>, other: Seq<char>)
        ensures
            self.marked(key).synced_keys.contains(other) <==> other == key
                || self.synced_keys.contains(other),
            self.marked(key).in_flight_keys == self.in_flight_keys,
            self.marked(key).primary_key == self.primary_key,
            self.marked(key).initial_insert_done == self.initial_insert_done,
            self.synced_keys.finite() && !self.synced_keys.contains(key) ==> self.marked(
                key,
            ).synced_keys.len() == self.synced_keys.len() + 1,
            self.synced_keys.finite() && self.synced_keys.contains(key) ==> self.marked(
                key,
            ).synced_keys.len() == self.synced_keys.len(),
    {
        if self.synced_keys.contains(key) {
            assert(self.synced_keys.insert(key) =~= self.synced_keys);
        }
    }

    /// Answering a request whose keys were not under way before it was launched
    /// undoes the launch.
    pub proof fn law_release_undoes_launch(self, keys: Seq<Seq<char>>)
        requires
            forall|i: int|
                0 <= i < keys.len() ==> !self.in_flight_keys.contains(#[trigger] keys[i]),
        ensures
            self.launched(keys).released(keys) == self,
    {
        assert(self.launched(keys).released(keys).in_flight_keys =~= self.in_flight_keys);
    }

    /// Marking a list of keys makes exactly those keys synced besides the
    /// earlier ones, counts one sync for each, and touches nothing else.
    pub proof fn law_marking_each_key(self, keys: Seq<Seq<char>>, n: nat, key: Seq<char>)
        requires
            n <= keys.len(),
        ensures
            self.marked_each(keys, n).synced_keys.contains(key) <==> keys.take(
                n as int,
            ).contains(key) || self.synced_keys.contains(key),
            self.sync_count + n <= u32::MAX ==> self.marked_each(keys, n).sync_count
                == self.sync_count + n,
            self.marked_each(keys, n).in_flight_keys == self.in_flight_keys,
            self.marked_each(keys, n).primary_key == self.primary_key,
            self.marked_each(keys, n).initial_insert_done == self.initial_insert_done,
        decreases n,
    {
        if n > 0 {
            let m = (n - 1) as nat;
            self.law_marking_each_key(keys, m, key);
            let fewer = keys.take(m as int);
            let more = keys.take(n as int);
            assert(more =~= fewer.push(keys[m as int]));
            if more.contains(key) && key != keys[m as int] {
                let i = choose|i: int| 0 <= i < more.len() && more[i] == key;
                assert(fewer[i] == key);
            }
            if fewer.contains(key) {
                let i = choose|i: int| 0 <= i < fewer.len() && fewer[i] == key;
                assert(more[i] == key);
            }
            assert(more[m as int] == keys[m as int]);
        }
    }
}

/// The sync state of one row type: which rows have been synced or are under
/// way, so that none is sent twice, the primary key that the server assigned,
/// and how many syncs succeeded.
pub struct SyncState<T: SupabaseRow> {
    /// Sync keys that have been successfully synced.
    synced_keys: KeySet,
    /// Sync keys of rows that are under way to the server.
    in_flight_keys: KeySet,
    /// Primary key returned by the server after the first insert, which later
    /// updates go to.
    primary_key: Option<i64>,
    /// Number of successful syncs.
    sync_count: u32,
    /// Whether the first insert has been done.
    initial_insert_done: bool,
    _marker: PhantomData<T>,
}

impl<T: SupabaseRow> View for SyncState<T> {
    type V = StateParts;

    closed spec fn view(&self) -> StateParts {
        StateParts {
            synced_keys: self.synced_keys@,
            in_flight_keys: self.in_flight_keys@,
            primary_key: self.primary_key,
            sync_count: self.sync_count,
            initial_insert_done: self.initial_insert_done,
        }
    }
}

impl<T: SupabaseRow> SyncState<T> {
    /// Create a new sync state.
    pub fn new() -> (state: Self)
        ensures
            state@ == StateParts::blank(),
    {
        SyncState {
            synced_keys: KeySet::new(),
            in_flight_keys: KeySet::new(),
            primary_key: None,
            sync_count: 0,
            initial_insert_done: false,
            _marker: PhantomData,
        }
    }

    /// Check if a sync key has already been synced.
    pub fn is_synced(&self, key: &str) -> (synced: bool)
        ensures
            synced == self@.synced_keys.contains(key@),
    {
        self.synced_keys.contains(key)
    }

    /// Check if a row with this sync key is under way.
    pub fn is_in_flight(&self, key: &str) -> (under_way: bool)
        ensures
            under_way == self@.in_flight_keys.contains(key@),
    {
        self.in_flight_keys.contains(key)
    }

    /// Record that a request with the rows of these keys is under way.
    pub fn launch(&mut self, keys: &[String])
        ensures
            final(self)@ == old(self)@.launched(crate::text::views(keys@)),
    {
        let ghost all = crate::text::views(keys@);
        assert(self@.launched(all.take(0)) =~= self@);
        for i in 0..keys.len()
            invariant
                all == crate::text::views(keys@),
                self@ == old(self)@.launched(all.take(i as int)),
        {
            self.in_flight_keys.insert(keys[i].clone());
            proof {
                crate::keyset::lemma_to_set_grows(all, i as int);
                assert(self@ =~= old(self)@.launched(all.take(i + 1)));
            }
        }
        assert(all.take(keys.len() as int) =~= all);
    }

    /// Record that the request with the rows of these keys was answered.
    pub fn release(&mut self, keys: &[String])
        ensures
            final(self)@ == old(self)@.released(crate::text::views(keys@)),
    {
        let ghost all = crate::text::views(keys@);
        assert(self@.released(all.take(0)) =~= self@);
        for i in 0..keys.len()
            invariant
                all == crate::text::views(keys@),
                self@ == old(self)@.released(all.take(i as int)),
        {
            self.in_flight_keys.remove(keys[i].as_str());
            proof {
                crate::keyset::lemma_to_set_grows(all, i as int);
                assert(self@ =~= old(self)@.released(all.take(i + 1)));
            }
        }
        assert(all.take(keys.len() as int) =~= all);
    }

    /// Whether `more` further syncs can still be counted.
    pub fn can_count(&self, more: usize) -> (fits: bool)
        ensures
            fits == (self@.sync_count + more <= u32::MAX),
    {
        more <= (u32::MAX - self.sync_count) as usize
    }

    /// Mark a sync key as synced.
    pub fn mark_synced(&mut self, key: String)
        requires
            old(self)@.sync_count < u32::MAX,
        ensures
            final(self)@ == old(self)@.marked(key@),
    {
        self.synced_keys.insert(key);
        self.sync_count = self.sync_count + 1;
    }

    /// All synced keys.
    pub fn synced_keys(&self) -> (keys: &KeySet)
        ensures
            keys@ == self@.synced_keys,
    {
        &self.synced_keys
    }

    /// The number of synced keys.
    pub fn synced_count(&self) -> (count: usize)
        ensures
            self@.synced_keys.finite(),
            count == self@.synced_keys.len(),
    {
        self.synced_keys.len()
    }

    /// The total sync count (including updates to the same key).
    pub fn sync_count(&self) -> (count: u32)
        ensures
            count == self@.sync_count,
    {
        self.sync_count
    }

    /// The primary key if one has been assigned.
    pub fn primary_key(&self) -> (key: Option<i64>)
        ensures
            key == self@.primary_key,
    {
        self.primary_key
    }

    /// Set the primary key, after the first insert.
    pub fn set_primary_key(&mut self, key: i64)
        ensures
            final(self)@ == old(self)@.inserted_as(key),
    {
        self.primary_key = Some(key);
        self.initial_insert_done = true;
    }

    /// Check if the first insert has been done.
    pub fn initial_insert_done(&self) -> (done: bool)
        ensures
            done == self@.initial_insert_done,
    {
        self.initial_insert_done
    }

    /// Mark the first insert as done without setting a primary key.
    pub fn mark_initial_insert_done(&mut self)
        ensures
            final(self)@ == old(self)@.inserted(),
    {
        self.initial_insert_done = true;
    }

    /// Forget everything, as for a new session.
    pub fn clear(&mut self)
        ensures
            final(self)@ == StateParts::blank(),
    {
        self.synced_keys.clear();
        self.in_flight_keys.clear();
        self.primary_key = None;
        self.sync_count = 0;
        self.initial_insert_done = false;
    }

    /// Increment the sync count without marking a key.
    pub fn increment_sync_count(&mut self)
        requires
            old(self)@.sync_count < u32::MAX,
        ensures
            final(self)@ == old(self)@.counted(),
    {
        self.sync_count = self.sync_count + 1;
    }
}

impl<T: SupabaseRow> Default for SyncState<T> {
    fn default() -> (state: Self)
        ensures
            state@ == StateParts::blank(),
    {
        Self::new()
    }
}

impl<T: SupabaseRow> Clone for SyncState<T> {
    fn clone(&self) -> (state: Self)
        ensures
            state@ == self@,
    {
        SyncState {
            synced_keys: self.synced_keys.clone(),
            in_flight_keys: self.in_flight_keys.clone(),
            primary_key: self.primary_key,
            sync_count: self.sync_count,
            initial_insert_done: self.initial_insert_done,
            _marker: PhantomData,
        }
    }
}

/// Nothing is known of a new state.
pub proof fn law_a_new_state_is_empty(key: Seq<char>)
    ensures
        !StateParts::blank().synced_keys.contains(key),
        !StateParts::blank().in_flight_keys.contains(key),
        StateParts::blank().primary_key is None,
        StateParts::blank().sync_count == 0,
        !StateParts::blank().initial_insert_done,
{
}

/// A key is taken exactly when it was synced or is under way.
pub proof fn law_taken_keys_are_synced_or_under_way(state: StateParts, key: Seq<char>)
    ensures
        state.taken().contains(key) <==> state.synced_keys.contains(key)
            || state.in_flight_keys.contains(key),
{
}

/// Launching adds exactly its keys to those under way, releasing takes exactly
/// its keys away, and neither touches anything else.
pub proof fn law_launch_and_release_move_their_keys(
    state: StateParts,
    keys: Seq<Seq<char>>,
    key: Seq<char>,
)
    ensures
        state.launched(keys).in_flight_keys.contains(key) <==> state.in_flight_keys.contains(key)
            || keys.contains(key),
        state.released(keys).in_flight_keys.contains(key) <==> state.in_flight_keys.contains(key)
            && !keys.contains(key),
        state.launched(keys).synced_keys == state.synced_keys,
        state.launched(keys).primary_key == state.primary_key,
        state.launched(keys).sync_count == state.sync_count,
        state.launched(keys).initial_insert_done == state.initial_insert_done,
        state.released(keys).synced_keys == state.synced_keys,
        state.released(keys).primary_key == state.primary_key,
        state.released(keys).sync_count == state.sync_count,
        state.released(keys).initial_insert_done == state.initial_insert_done,
{
}

/// Counting adds one and an insert is remembered, with its primary key where
/// there is one; neither touches anything else.
pub proof fn law_counting_and_inserting_change_one_thing(state: StateParts, key: i64)
    ensures
        state.sync_count < u32::MAX ==> state.counted().sync_count == state.sync_count + 1,
        state.counted().synced_keys == state.synced_keys,
        state.counted().in_flight_keys == state.in_flight_keys,
        state.counted().primary_key == state.primary_key,
        state.counted().initial_insert_done == state.initial_insert_done,
        state.inserted().initial_insert_done,
        state.inserted().primary_key == state.primary_key,
        state.inserted().synced_keys == state.synced_keys,
        state.inserted().in_flight_keys == state.in_flight_keys,
        state.inserted().sync_count == state.sync_count,
        state.inserted_as(key).initial_insert_done,
        state.inserted_as(key).primary_key == Some(key),
        state.inserted_as(key).synced_keys == state.synced_keys,
        state.inserted_as(key).in_flight_keys == state.in_flight_keys,
        state.inserted_as(key).sync_count == state.sync_count,
{
}

/// Marking a key counts one sync.
pub proof fn law_marking_counts_one_sync(state: StateParts, key: Seq<char>)
    requires
        state.sync_count < u32::MAX,
    ensures
        state.marked(key).sync_count == state.sync_count + 1,
        state.marked(key).synced_keys.contains(key),
{
}

} // verus!
