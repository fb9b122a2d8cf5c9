//! A session of syncs in Insert mode, over any number of events and replies.

use crate::queue::SyncOutcome;
use crate::traits::SupabaseRow;
use vstd::prelude::*;

verus! {

/// What happens in a session.
pub enum SessionStep<T: SupabaseRow> {
    /// An event is planned whose rows have these sync keys.
    Sync(Seq<Option<String>>),
    /// The unanswered request at this place has this outcome.
    Answer(int, SyncOutcome<T>),
}

/// Where a session stands.
pub struct Session {
    /// The sync state.
    pub state: crate::state::StateParts,
    /// The sync keys of each request that is not answered yet.
    pub unanswered: Seq<Seq<Seq<char>>>,
    /// The sync keys of the rows that reached the server, in the order in which
    /// their success came in.
    pub arrived: Seq<Seq<char>>,
}

impl Session {
    /// A session that begins in this state.
    pub open spec fn begun(state: crate::state::StateParts) -> Self {
        Session { state, unanswered: Seq::empty(), arrived: Seq::empty() }
    }

    /// Whether a step can happen: a reply is one to an unanswered request.
    pub open spec fn admits<T: SupabaseRow>(self, step: SessionStep<T>) -> bool {
        match step {
            SessionStep::Sync(_) => true,
            SessionStep::Answer(i, outcome) => 0 <= i < self.unanswered.len()
                && crate::plugin::outcome_keys(outcome) == self.unanswered[i],
        }
    }

    /// Where the session stands after a step.
    pub open spec fn after<T: SupabaseRow>(self, step: SessionStep<T>) -> Self {
        match step {
            SessionStep::Sync(keys) => {
                let sent = crate::plugin::keys_out(
                    crate::config::SaveMode::Insert,
                    self.state.taken(),
                    keys,
                    keys.len(),
                );
                Session {
                    state: self.state.launched(sent),
                    unanswered: self.unanswered.push(sent),
                    arrived: self.arrived,
                }
            },
            SessionStep::Answer(i, outcome) => Session {
                state: crate::plugin::applied(self.state, outcome),
                unanswered: self.unanswered.remove(i),
                arrived: if outcome is Success {
                    self.arrived + self.unanswered[i]
                } else {
                    self.arrived
                },
            },
        }
    }

    /// Whether every step of a list can happen in its turn.
    pub open spec fn admits_all<T: SupabaseRow>(self, steps: Seq<SessionStep<T>>) -> bool
        decreases steps.len(),
    {
        steps.len() > 0 ==> self.admits_all(steps.drop_last()) && self.after_all(
            steps.drop_last(),
        ).admits(steps.last())
    }

    /// Where the session stands after a list of steps.
    pub open spec fn after_all<T: SupabaseRow>(self, steps: Seq<SessionStep<T>>) -> Self
        decreases steps.len(),
    {
        if steps.len() == 0 {
            self
        } else {
            self.after_all(steps.drop_last()).after(steps.last())
        }
    }

    /// Whether an unanswered request carries a row with this key.
    pub open spec fn awaits(self, key: Seq<char>) -> bool {
        exists|i: int| 0 <= i < self.unanswered.len() && #[trigger] self.unanswered[i].contains(key)
    }

    /// What holds of a session that began with `synced` on the server: the keys
    /// under way are those of the unanswered requests, no two requests share a
    /// key or repeat one, and no key is under way that is on the server.
    pub open spec fn is_sound(self, synced: Set<Seq<char>>) -> bool {
        &&& forall|i: int, key: Seq<char>|
            0 <= i < self.unanswered.len() && #[trigger] self.unanswered[i].contains(key)
                ==> self.state.in_flight_keys.contains(key) && !self.state.synced_keys.contains(key)
        &&& forall|key: Seq<char>| #[trigger]
            self.state.in_flight_keys.contains(key) ==> self.awaits(key)
        &&& forall|i: int, j: int, key: Seq<char>|
            0 <= i < j < self.unanswered.len() && #[trigger] self.unanswered[i].contains(key)
                ==> !#[trigger] self.unanswered[j].contains(key)
        &&& forall|i: int|
            0 <= i < self.unanswered.len() ==> (#[trigger] self.unanswered[i]).no_duplicates()
        &&& self.arrived.no_duplicates()
        &&& forall|key: Seq<char>| #[trigger]
            self.arrived.contains(key) ==> self.state.synced_keys.contains(key)
                && !synced.contains(key)
        &&& synced.subset_of(self.state.synced_keys)
    }
}

/// Planning an event keeps a session sound.
proof fn lemma_sync_keeps_sound<T: SupabaseRow>(
    session: Session,
    synced: Set<Seq<char>>,
    keys: Seq<Option<String>>,
)
    requires
        session.is_sound(synced),
    ensures
        session.after(SessionStep::<T>::Sync(keys)).is_sound(synced),
{
    let next = session.after(SessionStep::<T>::Sync(keys));
    let n = session.unanswered.len() as int;
    let sent = next.unanswered[n];
    crate::plugin::law_new_keys_go_out_once(session.state.taken(), keys, keys.len());
    assert forall|i: int, key: Seq<char>|
        0 <= i < next.unanswered.len() && #[trigger] next.unanswered[i].contains(
            key,
        ) implies next.state.in_flight_keys.contains(key) && !next.state.synced_keys.contains(
        key,
    ) by {
        if i < n {
            assert(session.unanswered[i].contains(key));
        } else {
            assert(sent.contains(key));
        }
    }
    assert forall|key: Seq<char>| #[trigger]
        next.state.in_flight_keys.contains(key) implies next.awaits(key) by {
        if session.state.in_flight_keys.contains(key) {
            let i = choose|i: int|
                0 <= i < session.unanswered.len() && #[trigger] session.unanswered[i].contains(key);
            assert(next.unanswered[i].contains(key));
        } else {
            assert(next.unanswered[n].contains(key));
        }
    }
    assert forall|i: int, j: int, key: Seq<char>|
        0 <= i < j < next.unanswered.len() && #[trigger] next.unanswered[i].contains(
            key,
        ) implies !#[trigger] next.unanswered[j].contains(key) by {
        assert(session.unanswered[i].contains(key));
        if j < n {
            assert(!session.unanswered[j].contains(key));
        } else {
            assert(session.state.taken().contains(key));
            assert(!sent.contains(key));
        }
    }
}

/// A reply keeps a session sound.
proof fn lemma_answer_keeps_sound<T: SupabaseRow>(
    session: Session,
    synced: Set<Seq<char>>,
    at: int,
    outcome: SyncOutcome<T>,
)
    requires
        session.is_sound(synced),
        session.admits(SessionStep::Answer(at, outcome)),
    ensures
        session.after(SessionStep::Answer(at, outcome)).is_sound(synced),
{
    let next = session.after(SessionStep::Answer(at, outcome));
    let sent = session.unanswered[at];
    assert forall|key: Seq<char>|
        #[trigger] next.state.synced_keys.contains(key) <==> session.state.synced_keys.contains(key)
            || (outcome is Success && sent.contains(key)) by {
        crate::plugin::law_outcome_settles_its_keys(session.state, outcome, key);
    }
    assert forall|key: Seq<char>| #[trigger]
        next.state.in_flight_keys.contains(key) <==> session.state.in_flight_keys.contains(key)
            && !sent.contains(key) by {
        crate::plugin::law_outcome_settles_its_keys(session.state, outcome, key);
    }
    assert forall|i: int, key: Seq<char>|
        0 <= i < next.unanswered.len() && #[trigger] next.unanswered[i].contains(
            key,
        ) implies next.state.in_flight_keys.contains(key) && !next.state.synced_keys.contains(
        key,
    ) by {
        let was = if i < at {
            i
        } else {
            i + 1
        };
        assert(session.unanswered[was].contains(key));
        assert(!sent.contains(key));
        assert(!next.state.synced_keys.contains(key));
    }
    assert forall|key: Seq<char>| #[trigger]
        next.state.in_flight_keys.contains(key) implies next.awaits(key) by {
        let was = choose|i: int|
            0 <= i < session.unanswered.len() && #[trigger] session.unanswered[i].contains(key);
        assert(was != at);
        let i = if was < at {
            was
        } else {
            was - 1
        };
        assert(next.unanswered[i].contains(key));
    }
    assert forall|i: int, j: int, key: Seq<char>|
        0 <= i < j < next.unanswered.len() && #[trigger] next.unanswered[i].contains(
            key,
        ) implies !#[trigger] next.unanswered[j].contains(key) by {
        let was_i = if i < at {
            i
        } else {
            i + 1
        };
        let was_j = if j < at {
            j
        } else {
            j + 1
        };
        assert(session.unanswered[was_i].contains(key));
        assert(!session.unanswered[was_j].contains(key));
    }
    assert forall|i: int| 0 <= i < next.unanswered.len() implies (
    #[trigger] next.unanswered[i]).no_duplicates() by {
        let was = if i < at {
            i
        } else {
            i + 1
        };
        assert(session.unanswered[was].no_duplicates());
    }
    assert forall|key: Seq<char>| #[trigger]
        next.arrived.contains(key) implies next.state.synced_keys.contains(key)
        && !synced.contains(key) by {
        let i = choose|i: int| 0 <= i < next.arrived.len() && next.arrived[i] == key;
        if i < session.arrived.len() {
            assert(session.arrived[i] == key);
            assert(session.arrived.contains(key));
        } else {
            assert(sent[i - session.arrived.len()] == key);
            assert(sent.contains(key));
        }
        assert(next.state.synced_keys.contains(key));
    }
    assert forall|i: int, j: int|
        0 <= i < j < next.arrived.len() implies next.arrived[i] != next.arrived[j] by {
        let n = session.arrived.len();
        if i < n && n <= j {
            assert(session.arrived.contains(session.arrived[i]));
            assert(sent.contains(sent[j - n]));
        }
    }
    assert(next.arrived.no_duplicates());
    assert(synced.subset_of(next.state.synced_keys));
}

/// Every step keeps a session sound.
proof fn lemma_steps_keep_sound<T: SupabaseRow>(
    session: Session,
    synced: Set<Seq<char>>,
    steps: Seq<SessionStep<T>>,
)
    requires
        session.is_sound(synced),
        session.admits_all(steps),
    ensures
        session.after_all(steps).is_sound(synced),
    decreases steps.len(),
{
    if steps.len() > 0 {
        lemma_steps_keep_sound(session, synced, steps.drop_last());
        let before = session.after_all(steps.drop_last());
        match steps.last() {
            SessionStep::Sync(keys) => lemma_sync_keeps_sound::<T>(before, synced, keys),
            SessionStep::Answer(at, outcome) => lemma_answer_keeps_sound(
                before,
                synced,
                at,
                outcome,
            ),
        }
    }
}

/// In Insert mode the same key is synced only once per session. Over any number
/// of events, with requests overlapping, failing and being sent again, no key
/// reaches the server twice, none that was there already reaches it, and no key
/// is under way in two requests, twice in one, or while it is on the server.
pub proof fn law_each_key_is_synced_once<T: SupabaseRow>(
    state: crate::state::StateParts,
    steps: Seq<SessionStep<T>>,
)
    requires
        state.in_flight_keys == Set::<Seq<char>>::empty(),
        Session::begun(state).admits_all(steps),
    ensures
        Session::begun(state).after_all(steps).arrived.no_duplicates(),
        Session::begun(state).after_all(steps).is_sound(state.synced_keys),
{
    lemma_steps_keep_sound(Session::begun(state), state.synced_keys, steps);
}

} // verus!
