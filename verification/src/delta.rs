//! Delta-sync bookkeeping: high-water marks, an in-flight guard, and
//! foreign-key hold-back for one table's append-only send queue.
//!
//! A host that pushes a growing list on every save wants to send only the
//! tail past what the server has acknowledged. [`SupabaseDeltaSync`] holds
//! that bookkeeping for one table:
//!
//! - High-water marks: how many records of each partition (a run, a level, or
//!   just `()` for an unpartitioned table) have been acknowledged.
//!   [`SupabaseDeltaSync::take_batch`] slices each partition past its mark;
//!   [`SupabaseDeltaSync::commit`] advances the marks only once the write
//!   lands, so a dropped or failed request is carried again by the next push.
//! - In-flight guard and batch identity: an insert is not idempotent, so while
//!   a batch is unanswered the table sits out further pushes rather than
//!   sending the same rows twice. A batch comes with a [`BatchId`], and an
//!   outcome whose id is not that of the batch in flight is ignored.
//! - Foreign-key hold-back and substitution: a partition whose parent key has
//!   not been resolved yet is held back, its mark untouched; once the resolver
//!   answers, the key is handed to the row builder.
//!
//! The send queues are append-only: records may only be added past the
//! acknowledged marks. When a new session replaces the histories, call
//! [`SupabaseDeltaSync::reset`] so the marks start over.
//!
//! The model is [`DeltaState`]; what a push sends is [`outgoing`], and where
//! the marks stand once it lands is [`marks_after`].

use crate::keymap::{GroupKey, KeyMap};
use crate::traits::SupabaseRow;
use core::marker::PhantomData;
use vstd::prelude::*;

verus! {

/// Identity of one batch handed out by [`SupabaseDeltaSync::take_batch`].
///
/// Ids increase monotonically per [`SupabaseDeltaSync`] and are never reused,
/// not even across [`SupabaseDeltaSync::reset`].
#[derive(Debug, Clone, Copy, PartialEq, Eq, Hash, Structural)]
pub struct BatchId(u64);

impl BatchId {
    /// The batch's place in the order in which batches were handed out.
    pub closed spec fn number(self) -> u64 {
        self.0
    }

    /// A batch is identified by its number.
    pub proof fn law_number_identifies(self, other: Self)
        ensures
            self == other <==> self.number() == other.number(),
    {
    }
}

/// The bookkeeping of one table.
#[verifier::ext_equal]
#[verifier::reject_recursive_types(P)]
pub struct DeltaState<P> {
    /// How many records of each partition have been acknowledged.
    pub acked: Map<P, usize>,
    /// The batch awaiting the server's answer, and the marks that hold once
    /// its write lands.
    pub in_flight: Option<(BatchId, Map<P, usize>)>,
    /// The number that the next batch gets.
    pub next_number: u64,
}

impl<P> DeltaState<P> {
    /// Nothing acknowledged and nothing in flight.
    pub open spec fn blank(next_number: u64) -> Self {
        DeltaState { acked: Map::empty(), in_flight: None, next_number }
    }

    /// The batch `id` goes out, to move the marks to `marks` once it lands.
    pub open spec fn launched(self, id: BatchId, marks: Map<P, usize>) -> Self {
        DeltaState {
            acked: self.acked,
            in_flight: Some((id, marks)),
            next_number: (self.next_number + 1) as u64,
        }
    }

    /// The id of the batch in flight, if any.
    pub open spec fn in_flight_id(self) -> Option<BatchId> {
        match self.in_flight {
            Some((id, _)) => Some(id),
            None => None,
        }
    }

    /// The write of batch `id` landed.
    pub open spec fn committed(self, id: BatchId) -> Self {
        match self.in_flight {
            Some((waiting, marks)) if waiting == id => DeltaState {
                acked: marks,
                in_flight: None,
                ..self
            },
            _ => self,
        }
    }

    /// The write of batch `id` failed.
    pub open spec fn aborted(self, id: BatchId) -> Self {
        if self.in_flight_id() == Some(id) {
            DeltaState { in_flight: None, ..self }
        } else {
            self
        }
    }
}

/// The mark of `partition`: zero for one that has none.
pub open spec fn mark<P>(marks: Map<P, usize>, partition: P) -> usize {
    if marks.contains_key(partition) {
        marks[partition]
    } else {
        0
    }
}

/// Whether a partition with these records sends anything: its parent key was
/// resolved and its list reaches past its mark.
pub open spec fn sends<P: GroupKey, Rec, K>(
    marks: Map<P::V, usize>,
    part: (P, &[Rec]),
    answer: Option<K>,
) -> bool {
    answer is Some && part.1.len() > mark(marks, part.0@)
}

/// The marks once the first `n` partitions have been sent.
pub open spec fn marks_after<P: GroupKey, Rec, K>(
    acked: Map<P::V, usize>,
    parts: Seq<(P, &[Rec])>,
    answers: Seq<Option<K>>,
    n: nat,
) -> Map<P::V, usize>
    decreases n,
{
    if n == 0 {
        acked
    } else {
        let before = marks_after(acked, parts, answers, (n - 1) as nat);
        let part = parts[n - 1];
        if sends(before, part, answers[n - 1]) {
            before.insert(part.0@, part.1.len())
        } else {
            before
        }
    }
}

/// The records that the first `n` partitions send, each with the parent key
/// its row references: of every partition those past its mark, in order.
pub open spec fn outgoing<P: GroupKey, Rec, K>(
    acked: Map<P::V, usize>,
    parts: Seq<(P, &[Rec])>,
    answers: Seq<Option<K>>,
    n: nat,
) -> Seq<(Rec, K)>
    decreases n,
{
    if n == 0 {
        Seq::empty()
    } else {
        let before = outgoing(acked, parts, answers, (n - 1) as nat);
        let marks = marks_after(acked, parts, answers, (n - 1) as nat);
        let part = parts[n - 1];
        if sends(marks, part, answers[n - 1]) {
            before + keyed(part.1@.skip(mark(marks, part.0@) as int), answers[n - 1]->0)
        } else {
            before
        }
    }
}

/// Each of `records` with the key `key`.
pub open spec fn keyed<Rec, K>(records: Seq<Rec>, key: K) -> Seq<(Rec, K)> {
    records.map_values(|record: Rec| (record, key))
}

/// Whether `answers` are answers of `resolve_parent` for the partitions.
pub open spec fn answered<P, Rec, K, F: Fn(&P) -> Option<K>>(
    resolve_parent: F,
    parts: Seq<(P, &[Rec])>,
    answers: Seq<Option<K>>,
) -> bool {
    &&& answers.len() == parts.len()
    &&& forall|i: int|
        0 <= i < parts.len() ==> call_ensures(
            resolve_parent,
            (&(#[trigger] parts[i]).0,),
            answers[i],
        )
}

/// Whether `rows` are what `to_row` builds from `records`, one row for each.
pub open spec fn built<'a, Rec, K, R, F: FnMut(&'a Rec, &K) -> R>(
    to_row: F,
    records: Seq<(Rec, K)>,
    rows: Seq<R>,
) -> bool {
    &&& rows.len() == records.len()
    &&& forall|j: int|
        0 <= j < rows.len() ==> call_ensures(
            to_row,
            (&records[j].0, &records[j].1),
            #[trigger] rows[j],
        )
}

/// Whether a batch can be taken of these partitions: the resolver takes each of
/// them, and for those that it may resolve and whose lists reach past their
/// marks there is a number left and the row builder takes the records past the
/// mark.
pub open spec fn can_take<'a, P: GroupKey, Rec, K, R, F, G>(
    state: DeltaState<P::V>,
    parts: Seq<(P, &'a [Rec])>,
    resolve_parent: F,
    to_row: G,
) -> bool where F: Fn(&P) -> Option<K>, G: FnMut(&'a Rec, &K) -> R {
    &&& forall|i: int|
        0 <= i < parts.len() ==> call_requires(resolve_parent, (&(#[trigger] parts[i]).0,))
    &&& forall|i: int, key: K|
        0 <= i < parts.len() && mark(state.acked, parts[i].0@) < parts[i].1@.len()
            && #[trigger] call_ensures(resolve_parent, (&parts[i].0,), Some(key))
            ==> state.next_number < u64::MAX
    &&& forall|i: int, j: int, key: K|
        0 <= i < parts.len() && mark(state.acked, parts[i].0@) <= j < parts[i].1@.len()
            && call_ensures(resolve_parent, (&parts[i].0,), Some(key)) ==> #[trigger] call_requires(
            to_row,
            (&parts[i].1@[j], &key),
        )
}

/// Delta-sync bookkeeping for one table's append-only send queue: per-partition
/// high-water marks, an in-flight guard, and foreign-key hold-back.
///
/// `R` is the row type of the table, `P` the key that records are partitioned
/// by (`()` for an unpartitioned table) and `K` the parent key that rows
/// reference.
#[derive(Debug)]
pub struct SupabaseDeltaSync<R: SupabaseRow, P: GroupKey = (), K = i64> {
    /// How many records of each partition have been acknowledged.
    acked: KeyMap<P, usize>,
    /// The batch awaiting the server's answer: its id and the marks that it
    /// would move.
    in_flight: Option<(BatchId, KeyMap<P, usize>)>,
    /// The number the next batch will be handed; never reused.
    next_batch_id: u64,
    _marker: PhantomData<(R, K)>,
}

impl<R: SupabaseRow, P: GroupKey, K> View for SupabaseDeltaSync<R, P, K> {
    type V = DeltaState<P::V>;

    closed spec fn view(&self) -> DeltaState<P::V> {
        DeltaState {
            acked: self.acked@,
            in_flight: match self.in_flight {
                Some((id, moved)) => Some((id, self.acked@.union_prefer_right(moved@))),
                None => None,
            },
            next_number: self.next_batch_id,
        }
    }
}

impl<R: SupabaseRow, P: GroupKey, K> SupabaseDeltaSync<R, P, K> {
    /// A fresh state: nothing acknowledged, nothing in flight.
    pub fn new() -> (sync: Self)
        ensures
            sync@ == DeltaState::<P::V>::blank(0),
    {
        SupabaseDeltaSync {
            acked: KeyMap::new(),
            in_flight: None,
            next_batch_id: 0,
            _marker: PhantomData,
        }
    }

    /// How many records of `partition` the server has acknowledged.
    pub fn acked(&self, partition: &P) -> (count: usize)
        ensures
            count == mark(self@.acked, partition@),
    {
        match self.acked.get(partition) {
            Some(count) => *count,
            None => 0,
        }
    }

    /// The acknowledged marks of every partition seen so far.
    pub fn marks(&self) -> (marks: &KeyMap<P, usize>)
        ensures
            marks@ == self@.acked,
    {
        &self.acked
    }

    /// Whether a batch is currently awaiting the server's answer.
    pub fn is_in_flight(&self) -> (waiting: bool)
        ensures
            waiting == (self@.in_flight is Some),
    {
        self.in_flight.is_some()
    }

    /// The id of the batch currently awaiting the server's answer, if any.
    pub fn in_flight_id(&self) -> (id: Option<BatchId>)
        ensures
            id == self@.in_flight_id(),
    {
        match &self.in_flight {
            Some((id, _)) => Some(*id),
            None => None,
        }
    }

    /// Whether a partition with these records is held back because its list
    /// shrank below the acknowledged mark.
    pub fn has_shrunk<Rec>(&self, partition: &P, records: &[Rec]) -> (shrunk: bool)
        ensures
            shrunk == (records@.len() < mark(self@.acked, partition@)),
    {
        records.len() < self.acked(partition)
    }

    /// Whether another batch can still be numbered.
    pub fn can_number(&self) -> (left: bool)
        ensures
            left == (self@.next_number < u64::MAX),
    {
        self.next_batch_id < u64::MAX
    }

    /// Slice every partition past its mark and build the rows of one batch.
    ///
    /// For each partition `resolve_parent` answers the key that its rows
    /// reference. With a key, the records past the mark become rows by
    /// `to_row`, and the batch proposes to advance the mark to the end of the
    /// list. Without one the partition is held back: no rows, mark untouched.
    /// A list that shrank below its mark is held back too. A partition that is
    /// named twice emits its records only once.
    ///
    /// Returns `None` when a batch is already in flight or nothing is pending.
    /// Otherwise the batch is in flight under the returned id, until
    /// [`SupabaseDeltaSync::commit`] or [`SupabaseDeltaSync::abort`].
    #[must_use]
    pub fn take_batch<'a, Rec, F, G>(
        &mut self,
        partitions: Vec<(P, &'a [Rec])>,
        resolve_parent: F,
        mut to_row: G,
    ) -> (batch: Option<(BatchId, Vec<R>)>) where
        F: Fn(&P) -> Option<K>,
        G: FnMut(&'a Rec, &K) -> R,

        requires
            old(self)@.in_flight is None ==> can_take(
                old(self)@,
                partitions@,
                resolve_parent,
                to_row,
            ),
        ensures
            batch is None ==> final(self)@ == old(self)@,
            old(self)@.in_flight is Some ==> batch is None,
            old(self)@.in_flight is None ==> forall|i: int|
                {
                    &&& 0 <= i < partitions@.len()
                    &&& forall|answer: Option<K>| #[trigger]
                        call_ensures(resolve_parent, (&partitions@[i].0,), answer)
                            ==> answer is Some
                    &&& (#[trigger] partitions@[i]).1@.len() > if old(
                        self,
                    )@.acked.contains_key(partitions@[i].0@) {
                        old(self)@.acked[partitions@[i].0@]
                    } else {
                        0
                    }
                } ==> {
                    &&& batch is Some
                    &&& final(self)@.in_flight matches Some((_, proposed))
                    &&& proposed.contains_key(partitions@[i].0@)
                    &&& proposed[partitions@[i].0@] >= partitions@[i].1@.len()
                },
            old(self)@.in_flight is None ==> exists|answers: Seq<Option<K>>|
                {
                    let sent = outgoing(old(self)@.acked, partitions@, answers, partitions@.len());
                    &&& #[trigger] answered(resolve_parent, partitions@, answers)
                    &&& batch is None <==> sent.len() == 0
                    &&& batch matches Some((id, rows)) ==> {
                        &&& id.number() == old(self)@.next_number
                        &&& built(to_row, sent, rows@)
                        &&& final(self)@ == old(self)@.launched(
                            id,
                            marks_after(
                                old(self)@.acked,
                                partitions@,
                                answers,
                                partitions@.len(),
                            ),
                        )
                    }
                },
    {
        if self.in_flight.is_some() {
            return None;
        }
        let mut rows: Vec<R> = Vec::new();
        let mut moved: KeyMap<P, usize> = KeyMap::new();
        let ghost mut answers: Seq<Option<K>> = Seq::empty();
        let ghost acked = self.acked@;
        let ghost parts = partitions@;
        let ghost builder = to_row;
        assert(acked.union_prefer_right(moved@) =~= acked);
        for part in it: partitions
            invariant
                it.seq() == parts,
                parts == partitions@,
                to_row == builder,
                self@ == old(self)@,
                self@.acked == acked,
                self.acked@ == acked,
                answers.len() == it.index(),
                forall|i: int|
                    0 <= i < it.index() ==> call_ensures(
                        resolve_parent,
                        (&(#[trigger] parts[i]).0,),
                        answers[i],
                    ),
                can_take(self@, parts, resolve_parent, to_row),
                moved@ != Map::<P::V, usize>::empty() ==> self@.next_number < u64::MAX,
                acked.union_prefer_right(moved@) == marks_after(
                    acked,
                    parts,
                    answers,
                    it.index() as nat,
                ),
                built(to_row, outgoing(acked, parts, answers, it.index() as nat), rows@),
                rows@.len() == 0 <==> moved@ == Map::<P::V, usize>::empty(),
        {
            let ghost n = it.index() as nat;
            let ghost marks = marks_after(acked, parts, answers, n);
            let ghost sent = outgoing(acked, parts, answers, n);
            let (partition, records) = part;
            assert(parts[n as int] == (partition, records));
            let answer = resolve_parent(&partition);
            let ghost earlier = answers;
            proof {
                answers = answers.push(answer);
                assert(earlier =~= answers.take(earlier.len() as int));
                lemma_answers_extend(acked, parts, earlier, answers, n);
            }
            if let Some(key) = answer {
                let already_sent = match moved.get(&partition) {
                    Some(count) => *count,
                    None => self.acked(&partition),
                };
                assert(already_sent == mark(marks, partition@));
                proof {
                    lemma_marks_rise(acked, parts, answers, 0, n, partition@);
                }
                if records.len() > already_sent {
                    let ghost fresh = keyed(records@.skip(already_sent as int), key);
                    let ghost done = rows@;
                    for j in already_sent..records.len()
                        invariant
                            already_sent <= records.len(),
                            to_row == builder,
                            parts[n as int] == (partition, records),
                            0 <= n < parts.len(),
                            call_ensures(resolve_parent, (&partition,), Some(key)),
                            can_take(self@, parts, resolve_parent, to_row),
                            self@.acked == acked,
                            mark(acked, partition@) <= already_sent,
                            fresh == keyed(records@.skip(already_sent as int), key),
                            built(to_row, sent, done),
                            built(to_row, sent + fresh.take(j - already_sent), rows@),
                    {
                        assert(call_requires(to_row, (&parts[n as int].1@[j as int], &key)));
                        let row = to_row(&records[j], &key);
                        let ghost upto = sent + fresh.take(j - already_sent);
                        rows.push(row);
                        assert(sent + fresh.take(j + 1 - already_sent) =~= upto.push(
                            fresh[j - already_sent],
                        ));
                    }
                    assert(fresh.take(records.len() - already_sent) =~= fresh);
                    moved.insert(partition, records.len());
                    proof {
                        assert(call_ensures(resolve_parent, (&parts[n as int].0,), Some(key)));
                        assert(acked.union_prefer_right(moved@) =~= marks.insert(
                            partition@,
                            records.len(),
                        ));
                        assert(moved@.contains_key(partition@));
                    }
                }
            }
        }
        assert(answered(resolve_parent, parts, answers));
        proof {
            let landed = marks_after(acked, parts, answers, parts.len());
            assert forall|i: int|
                {
                    &&& 0 <= i < parts.len()
                    &&& forall|answer: Option<K>| #[trigger]
                        call_ensures(resolve_parent, (&parts[i].0,), answer) ==> answer is Some
                    &&& (#[trigger] parts[i]).1@.len() > mark(acked, parts[i].0@)
                } implies {
                &&& moved@ != Map::<P::V, usize>::empty()
                &&& landed.contains_key(parts[i].0@)
                &&& landed[parts[i].0@] >= parts[i].1@.len()
            } by {
                assert(call_ensures(resolve_parent, (&parts[i].0,), answers[i]));
                law_resolved_list_is_covered(acked, parts, answers, i);
                if moved@ == Map::<P::V, usize>::empty() {
                    assert(acked.union_prefer_right(moved@) =~= acked);
                }
            }
        }
        if moved.is_empty() {
            None
        } else {
            let id = BatchId(self.next_batch_id);
            self.next_batch_id = self.next_batch_id + 1;
            self.in_flight = Some((id, moved));
            Some((id, rows))
        }
    }

    /// Whether `id` is the batch in flight.
    fn awaits(&self, id: BatchId) -> (same: bool)
        ensures
            same == (self@.in_flight_id() == Some(id)),
    {
        match &self.in_flight {
            Some((in_flight, _)) => *in_flight == id,
            None => false,
        }
    }

    /// The write landed: advance the marks the in-flight batch proposed and
    /// clear the guard.
    ///
    /// An `id` other than that of the batch in flight is stale or belongs to
    /// another write, and changes nothing.
    pub fn commit(&mut self, id: BatchId)
        ensures
            final(self)@ == old(self)@.committed(id),
    {
        if self.awaits(id) {
            if let Some((_, moved)) = self.in_flight.take() {
                self.acked.absorb(moved);
            }
        }
    }

    /// The write failed or was dropped: discard the proposed marks, leaving
    /// the acknowledged marks untouched so the next push carries the same
    /// records again.
    ///
    /// An `id` other than that of the batch in flight is stale or belongs to
    /// another write, and changes nothing.
    pub fn abort(&mut self, id: BatchId)
        ensures
            final(self)@ == old(self)@.aborted(id),
    {
        if self.awaits(id) {
            self.in_flight = None;
        }
    }

    /// Forget everything, marks and in-flight state, when a new session begins
    /// and the send queues start over. Batch numbers keep counting up.
    pub fn reset(&mut self)
        ensures
            final(self)@ == DeltaState::<P::V>::blank(old(self)@.next_number),
    {
        self.acked.clear();
        self.in_flight = None;
    }
}

impl<R: SupabaseRow, P: GroupKey, K> Default for SupabaseDeltaSync<R, P, K> {
    fn default() -> (sync: Self)
        ensures
            sync@ == DeltaState::<P::V>::blank(0),
    {
        Self::new()
    }
}

impl<R: SupabaseRow, K> SupabaseDeltaSync<R, (), K> {
    /// [`SupabaseDeltaSync::take_batch`] for an unpartitioned table with no
    /// parent key: one list, sliced past its single mark.
    #[must_use]
    pub fn take_pending<'a, Rec, G>(&mut self, records: &'a [Rec], mut to_row: G) -> (batch: Option<
        (BatchId, Vec<R>),
    >) where G: FnMut(&'a Rec) -> R
        requires
            old(self)@.in_flight is None && records@.len() > mark(old(self)@.acked, ())
                ==> old(self)@.next_number < u64::MAX,
            forall|j: int|
                old(self)@.in_flight is None && mark(old(self)@.acked, ()) <= j < records@.len()
                    ==> call_requires(to_row, (&#[trigger] records@[j],)),
        ensures
            batch is None ==> final(self)@ == old(self)@,
            batch is None <==> old(self)@.in_flight is Some || records@.len() <= mark(
                old(self)@.acked,
                (),
            ),
            batch matches Some((id, rows)) ==> {
                let start = mark(old(self)@.acked, ()) as int;
                &&& id.number() == old(self)@.next_number
                &&& rows@.len() == records@.len() - start
                &&& forall|j: int|
                    0 <= j < rows@.len() ==> call_ensures(
                        to_row,
                        (&records@[start + j],),
                        #[trigger] rows@[j],
                    )
                &&& final(self)@ == old(self)@.launched(
                    id,
                    old(self)@.acked.insert((), records.len()),
                )
            },
    {
        if self.in_flight.is_some() {
            return None;
        }
        let already_sent = self.acked(&());
        if records.len() <= already_sent {
            return None;
        }
        let mut rows: Vec<R> = Vec::new();
        let ghost builder = to_row;
        for j in already_sent..records.len()
            invariant
                already_sent <= records.len(),
                to_row == builder,
                self@ == old(self)@,
                forall|j: int|
                    already_sent <= j < records@.len() ==> call_requires(
                        to_row,
                        (&#[trigger] records@[j],),
                    ),
                rows@.len() == j - already_sent,
                forall|i: int|
                    0 <= i < rows@.len() ==> call_ensures(
                        to_row,
                        (&records@[already_sent + i],),
                        #[trigger] rows@[i],
                    ),
        {
            assert(call_requires(to_row, (&records@[j as int],)));
            rows.push(to_row(&records[j]));
        }
        let mut moved: KeyMap<(), usize> = KeyMap::new();
        moved.insert((), records.len());
        let id = BatchId(self.next_batch_id);
        self.next_batch_id = self.next_batch_id + 1;
        self.in_flight = Some((id, moved));
        assert(self.acked@.union_prefer_right(moved@) =~= self.acked@.insert((), records.len()));
        Some((id, rows))
    }
}

/// What the first partitions send does not depend on later answers.
proof fn lemma_answers_extend<P: GroupKey, Rec, K>(
    acked: Map<P::V, usize>,
    parts: Seq<(P, &[Rec])>,
    shorter: Seq<Option<K>>,
    longer: Seq<Option<K>>,
    n: nat,
)
    requires
        n <= shorter.len() <= longer.len(),
        shorter == longer.take(shorter.len() as int),
    ensures
        marks_after(acked, parts, shorter, n) == marks_after(acked, parts, longer, n),
        outgoing(acked, parts, shorter, n) == outgoing(acked, parts, longer, n),
    decreases n,
{
    if n > 0 {
        lemma_answers_extend(acked, parts, shorter, longer, (n - 1) as nat);
        assert(shorter[n - 1] == longer[n - 1]);
    }
}

/// Marks only rise from one partition of a push to the next.
proof fn lemma_marks_rise<P: GroupKey, Rec, K>(
    acked: Map<P::V, usize>,
    parts: Seq<(P, &[Rec])>,
    answers: Seq<Option<K>>,
    m: nat,
    n: nat,
    partition: P::V,
)
    requires
        m <= n,
    ensures
        mark(marks_after(acked, parts, answers, m), partition) <= mark(
            marks_after(acked, parts, answers, n),
            partition,
        ),
    decreases n,
{
    if m < n {
        lemma_marks_rise(acked, parts, answers, m, (n - 1) as nat, partition);
    }
}

/// A mark never falls: a push leaves every partition's mark where it was or
/// moves it up.
pub proof fn law_marks_never_fall<P: GroupKey, Rec, K>(
    acked: Map<P::V, usize>,
    parts: Seq<(P, &[Rec])>,
    answers: Seq<Option<K>>,
    partition: P::V,
)
    requires
        answers.len() == parts.len(),
    ensures
        mark(acked, partition) <= mark(
            marks_after(acked, parts, answers, parts.len()),
            partition,
        ),
{
    lemma_marks_rise(acked, parts, answers, 0, parts.len(), partition);
}

/// Once a push lands, the mark of a partition whose parent key was resolved
/// covers its whole list.
pub proof fn law_resolved_list_is_covered<P: GroupKey, Rec, K>(
    acked: Map<P::V, usize>,
    parts: Seq<(P, &[Rec])>,
    answers: Seq<Option<K>>,
    i: int,
)
    requires
        answers.len() == parts.len(),
        0 <= i < parts.len(),
        answers[i] is Some,
    ensures
        parts[i].1.len() <= mark(
            marks_after(acked, parts, answers, parts.len()),
            parts[i].0@,
        ),
{
    let n = (i + 1) as nat;
    assert(parts[i].1.len() <= mark(marks_after(acked, parts, answers, n), parts[i].0@));
    lemma_marks_rise(acked, parts, answers, n, parts.len(), parts[i].0@);
}

/// Where every list ends at or below its mark, nothing goes out.
proof fn lemma_covered_sends_nothing<P: GroupKey, Rec, K>(
    acked: Map<P::V, usize>,
    parts: Seq<(P, &[Rec])>,
    answers: Seq<Option<K>>,
    n: nat,
)
    requires
        n <= parts.len(),
        forall|i: int|
            0 <= i < n && answers[i] is Some ==> (#[trigger] parts[i]).1.len() <= mark(
                acked,
                parts[i].0@,
            ),
    ensures
        outgoing(acked, parts, answers, n).len() == 0,
        marks_after(acked, parts, answers, n) == acked,
    decreases n,
{
    if n > 0 {
        lemma_covered_sends_nothing(acked, parts, answers, (n - 1) as nat);
        assert(answers[n - 1] is Some ==> parts[n - 1].1.len() <= mark(acked, parts[n - 1].0@));
    }
}

/// No double sync: once a batch has been committed, pushing the same lists
/// again, with no more parents resolved, sends nothing.
pub proof fn law_caught_up_after_commit<P: GroupKey, Rec, K>(
    acked: Map<P::V, usize>,
    parts: Seq<(P, &[Rec])>,
    answers: Seq<Option<K>>,
    again: Seq<Option<K>>,
)
    requires
        answers.len() == parts.len(),
        again.len() == parts.len(),
        forall|i: int| 0 <= i < parts.len() && again[i] is Some ==> #[trigger] answers[i] is Some,
    ensures
        outgoing(
            marks_after(acked, parts, answers, parts.len()),
            parts,
            again,
            parts.len(),
        ).len() == 0,
{
    let landed = marks_after(acked, parts, answers, parts.len());
    assert forall|i: int| 0 <= i < parts.len() && again[i] is Some implies (
    #[trigger] parts[i]).1.len() <= mark(landed, parts[i].0@) by {
        assert(answers[i] is Some);
        law_resolved_list_is_covered(acked, parts, answers, i);
    }
    lemma_covered_sends_nothing(landed, parts, again, parts.len());
}

/// Hold-back: a partition none of whose lists is both resolved and longer than
/// its acknowledged mark keeps that mark. Such are partitions that a push does
/// not name, those whose parent key is not resolved, and those whose list
/// shrank.
pub proof fn law_held_back_marks_stay<P: GroupKey, Rec, K>(
    acked: Map<P::V, usize>,
    parts: Seq<(P, &[Rec])>,
    answers: Seq<Option<K>>,
    partition: P::V,
)
    requires
        answers.len() == parts.len(),
        forall|i: int|
            0 <= i < parts.len() && (#[trigger] parts[i]).0@ == partition ==> answers[i] is None
                || parts[i].1.len() <= mark(acked, partition),
    ensures
        mark(marks_after(acked, parts, answers, parts.len()), partition) == mark(acked, partition),
{
    lemma_held_back(acked, parts, answers, parts.len(), partition);
}

proof fn lemma_held_back<P: GroupKey, Rec, K>(
    acked: Map<P::V, usize>,
    parts: Seq<(P, &[Rec])>,
    answers: Seq<Option<K>>,
    n: nat,
    partition: P::V,
)
    requires
        n <= parts.len(),
        forall|i: int|
            0 <= i < n && (#[trigger] parts[i]).0@ == partition ==> answers[i] is None
                || parts[i].1.len() <= mark(acked, partition),
    ensures
        mark(marks_after(acked, parts, answers, n), partition) == mark(acked, partition),
    decreases n,
{
    if n > 0 {
        lemma_held_back(acked, parts, answers, (n - 1) as nat, partition);
        let part = parts[n - 1];
        assert(part.0@ == partition ==> answers[n - 1] is None || part.1.len() <= mark(
            acked,
            partition,
        ));
    }
}

/// A push in which no partition is resolved sends nothing.
pub proof fn law_all_held_back_sends_nothing<P: GroupKey, Rec, K>(
    acked: Map<P::V, usize>,
    parts: Seq<(P, &[Rec])>,
    answers: Seq<Option<K>>,
)
    requires
        answers.len() == parts.len(),
        forall|i: int| 0 <= i < answers.len() ==> #[trigger] answers[i] is None,
    ensures
        outgoing(acked, parts, answers, parts.len()).len() == 0,
{
    assert forall|i: int| 0 <= i < parts.len() && answers[i] is Some implies (
    #[trigger] parts[i]).1.len() <= mark(acked, parts[i].0@) by {}
    lemma_covered_sends_nothing(acked, parts, answers, parts.len());
}

/// Naming a partition a second time, with a list no longer than the one it was
/// resolved with, emits nothing more and leaves the marks as they are.
pub proof fn law_repeated_partition_emits_once<P: GroupKey, Rec, K>(
    acked: Map<P::V, usize>,
    parts: Seq<(P, &[Rec])>,
    answers: Seq<Option<K>>,
    i: int,
    repeated: (P, &[Rec]),
    answer: Option<K>,
)
    requires
        answers.len() == parts.len(),
        0 <= i < parts.len(),
        answers[i] is Some,
        repeated.0@ == parts[i].0@,
        repeated.1.len() <= parts[i].1.len(),
    ensures
        outgoing(acked, parts.push(repeated), answers.push(answer), parts.len() + 1) == outgoing(
            acked,
            parts,
            answers,
            parts.len(),
        ),
        marks_after(acked, parts.push(repeated), answers.push(answer), parts.len() + 1)
            == marks_after(acked, parts, answers, parts.len()),
{
    law_resolved_list_is_covered(acked, parts, answers, i);
    lemma_parts_extend(acked, parts, parts.push(repeated), answers, parts.len());
    assert(answers =~= answers.push(answer).take(answers.len() as int));
    lemma_answers_extend(acked, parts.push(repeated), answers, answers.push(answer), parts.len());
}

/// What the first partitions send does not depend on later partitions.
proof fn lemma_parts_extend<P: GroupKey, Rec, K>(
    acked: Map<P::V, usize>,
    shorter: Seq<(P, &[Rec])>,
    longer: Seq<(P, &[Rec])>,
    answers: Seq<Option<K>>,
    n: nat,
)
    requires
        n <= shorter.len() <= longer.len(),
        forall|i: int| 0 <= i < shorter.len() ==> shorter[i] == longer[i],
    ensures
        marks_after(acked, shorter, answers, n) == marks_after(acked, longer, answers, n),
        outgoing(acked, shorter, answers, n) == outgoing(acked, longer, answers, n),
    decreases n,
{
    if n > 0 {
        lemma_parts_extend(acked, shorter, longer, answers, (n - 1) as nat);
    }
}

/// What one partition on its own sends from these marks: nothing while its
/// parent key is not resolved, else its records past the mark.
pub open spec fn share<P: GroupKey, Rec, K>(
    marks: Map<P::V, usize>,
    part: (P, &[Rec]),
    answer: Option<K>,
) -> Seq<(Rec, K)> {
    match answer {
        Some(key) if part.1.len() > mark(marks, part.0@) => keyed(
            part.1@.skip(mark(marks, part.0@) as int),
            key,
        ),
        _ => Seq::empty(),
    }
}

/// The shares of the first `n` partitions, one after the other.
pub open spec fn shares<P: GroupKey, Rec, K>(
    marks: Map<P::V, usize>,
    parts: Seq<(P, &[Rec])>,
    answers: Seq<Option<K>>,
    n: nat,
) -> Seq<(Rec, K)>
    decreases n,
{
    if n == 0 {
        Seq::empty()
    } else {
        shares(marks, parts, answers, (n - 1) as nat) + share(marks, parts[n - 1], answers[n - 1])
    }
}

/// The mark that one partition on its own proposes.
pub open spec fn mark_after<P: GroupKey, Rec, K>(
    marks: Map<P::V, usize>,
    part: (P, &[Rec]),
    answer: Option<K>,
) -> usize {
    if sends(marks, part, answer) {
        part.1.len()
    } else {
        mark(marks, part.0@)
    }
}

/// Partitions do not disturb each other: in a push that names no partition
/// twice, each one sends its records past its own acknowledged mark, and its
/// mark moves by its own list alone.
pub proof fn law_partitions_are_independent<P: GroupKey, Rec, K>(
    acked: Map<P::V, usize>,
    parts: Seq<(P, &[Rec])>,
    answers: Seq<Option<K>>,
)
    requires
        answers.len() == parts.len(),
        crate::keymap::distinct_keys(parts),
    ensures
        outgoing(acked, parts, answers, parts.len()) == shares(acked, parts, answers, parts.len()),
        forall|i: int|
            0 <= i < parts.len() ==> mark(
                marks_after(acked, parts, answers, parts.len()),
                (#[trigger] parts[i]).0@,
            ) == mark_after(acked, parts[i], answers[i]),
{
    lemma_independent(acked, parts, answers, parts.len());
    assert forall|i: int| 0 <= i < parts.len() implies mark(
        marks_after(acked, parts, answers, parts.len()),
        (#[trigger] parts[i]).0@,
    ) == mark_after(acked, parts[i], answers[i]) by {
        lemma_mark_of_first(acked, parts, answers, parts.len(), i);
    }
}

/// In a push that names no partition twice, the marks of those still to come
/// are the acknowledged ones.
proof fn lemma_mark_of_later<P: GroupKey, Rec, K>(
    acked: Map<P::V, usize>,
    parts: Seq<(P, &[Rec])>,
    answers: Seq<Option<K>>,
    n: nat,
    i: int,
)
    requires
        crate::keymap::distinct_keys(parts),
        n <= i < parts.len(),
    ensures
        mark(marks_after(acked, parts, answers, n), parts[i].0@) == mark(acked, parts[i].0@),
    decreases n,
{
    if n > 0 {
        lemma_mark_of_later(acked, parts, answers, (n - 1) as nat, i);
        assert(parts[n - 1].0@ != parts[i].0@);
    }
}

proof fn lemma_mark_of_first<P: GroupKey, Rec, K>(
    acked: Map<P::V, usize>,
    parts: Seq<(P, &[Rec])>,
    answers: Seq<Option<K>>,
    n: nat,
    i: int,
)
    requires
        crate::keymap::distinct_keys(parts),
        0 <= i < n <= parts.len(),
    ensures
        mark(marks_after(acked, parts, answers, n), parts[i].0@) == mark_after(
            acked,
            parts[i],
            answers[i],
        ),
    decreases n,
{
    lemma_mark_of_later(acked, parts, answers, (n - 1) as nat, n - 1);
    if i < n - 1 {
        lemma_mark_of_first(acked, parts, answers, (n - 1) as nat, i);
        assert(parts[i].0@ != parts[n - 1].0@);
    }
}

proof fn lemma_independent<P: GroupKey, Rec, K>(
    acked: Map<P::V, usize>,
    parts: Seq<(P, &[Rec])>,
    answers: Seq<Option<K>>,
    n: nat,
)
    requires
        crate::keymap::distinct_keys(parts),
        n <= parts.len(),
    ensures
        outgoing(acked, parts, answers, n) == shares(acked, parts, answers, n),
    decreases n,
{
    if n > 0 {
        lemma_independent(acked, parts, answers, (n - 1) as nat);
        lemma_mark_of_later(acked, parts, answers, (n - 1) as nat, n - 1);
        assert(outgoing(acked, parts, answers, n) =~= shares(acked, parts, answers, n));
    }
}

/// Every record of a growing list goes out once: what a partition sends in one
/// push, followed by what it sends of the grown list after that push has been
/// committed, is exactly what the grown list would have sent at the start, with
/// nothing left out and nothing sent twice. A partition that the first push
/// held back sends everything in the second.
pub proof fn law_growing_list_goes_out_once<P: GroupKey, Rec, K>(
    acked: Map<P::V, usize>,
    parts: Seq<(P, &[Rec])>,
    answers: Seq<Option<K>>,
    i: int,
    grown: &[Rec],
    key: K,
)
    requires
        answers.len() == parts.len(),
        crate::keymap::distinct_keys(parts),
        0 <= i < parts.len(),
        answers[i] is None || answers[i] == Some(key),
        parts[i].1.len() <= grown.len(),
        parts[i].1@ == grown@.take(parts[i].1@.len() as int),
    ensures
        ({
            let landed = marks_after(acked, parts, answers, parts.len());
            let whole = (parts[i].0, grown);
            share(acked, parts[i], answers[i]) + share(landed, whole, Some(key)) == share(
                acked,
                whole,
                Some(key),
            )
        }),
{
    let landed = marks_after(acked, parts, answers, parts.len());
    let whole = (parts[i].0, grown);
    let list = parts[i].1;
    lemma_mark_of_first(acked, parts, answers, parts.len(), i);
    let start = mark(acked, parts[i].0@) as int;
    if sends(acked, parts[i], answers[i]) {
        assert(mark(landed, parts[i].0@) == list.len());
        if grown.len() > list.len() {
            assert(keyed(list@.skip(start), key) + keyed(grown@.skip(list@.len() as int), key)
                =~= keyed(grown@.skip(start), key));
        } else {
            assert(grown@.take(list@.len() as int) =~= grown@);
            assert(share(acked, parts[i], answers[i]) + Seq::<(Rec, K)>::empty() =~= share(
                acked,
                parts[i],
                answers[i],
            ));
        }
    } else {
        assert(Seq::<(Rec, K)>::empty() + share(landed, whole, Some(key)) =~= share(
            landed,
            whole,
            Some(key),
        ));
    }
}

/// What [`outgoing`] sends, each record labelled with the partition that it
/// belongs to.
pub open spec fn labelled<P: GroupKey, Rec, K>(
    acked: Map<P::V, usize>,
    parts: Seq<(P, &[Rec])>,
    answers: Seq<Option<K>>,
    n: nat,
) -> Seq<(P::V, (Rec, K))>
    decreases n,
{
    if n == 0 {
        Seq::empty()
    } else {
        let before = labelled(acked, parts, answers, (n - 1) as nat);
        let marks = marks_after(acked, parts, answers, (n - 1) as nat);
        let part = parts[n - 1];
        if sends(marks, part, answers[n - 1]) {
            before + with_label(
                part.0@,
                keyed(part.1@.skip(mark(marks, part.0@) as int), answers[n - 1]->0),
            )
        } else {
            before
        }
    }
}

/// Each of `items` with the label `label`.
pub open spec fn with_label<G, T>(label: G, items: Seq<T>) -> Seq<(G, T)> {
    items.map_values(|item: T| (label, item))
}

/// Labelled items without their labels.
pub open spec fn unlabelled<G, T>(items: Seq<(G, T)>) -> Seq<T> {
    items.map_values(|item: (G, T)| item.1)
}

/// Those of a list of labelled items that have the label `label`, in order.
pub open spec fn labelled_as<G, T>(items: Seq<(G, T)>, label: G) -> Seq<T>
    decreases items.len(),
{
    if items.len() == 0 {
        Seq::empty()
    } else {
        let before = labelled_as(items.drop_last(), label);
        if items.last().0 == label {
            before.push(items.last().1)
        } else {
            before
        }
    }
}

/// Labelling the records changes nothing of what a push sends.
pub proof fn law_labels_change_nothing<P: GroupKey, Rec, K>(
    acked: Map<P::V, usize>,
    parts: Seq<(P, &[Rec])>,
    answers: Seq<Option<K>>,
    n: nat,
)
    requires
        n <= parts.len(),
        answers.len() == parts.len(),
    ensures
        unlabelled(labelled(acked, parts, answers, n)) == outgoing(acked, parts, answers, n),
    decreases n,
{
    if n > 0 {
        law_labels_change_nothing(acked, parts, answers, (n - 1) as nat);
    }
    assert(unlabelled(labelled(acked, parts, answers, n)) =~= outgoing(acked, parts, answers, n));
}

/// Picking by label goes through a list in two parts.
proof fn lemma_labelled_as_splits<G, T>(first: Seq<(G, T)>, second: Seq<(G, T)>, label: G)
    ensures
        labelled_as(first + second, label) == labelled_as(first, label) + labelled_as(
            second,
            label,
        ),
    decreases second.len(),
{
    if second.len() == 0 {
        assert(first + second =~= first);
        assert(labelled_as(first, label) + labelled_as(second, label) =~= labelled_as(
            first,
            label,
        ));
    } else {
        lemma_labelled_as_splits(first, second.drop_last(), label);
        assert((first + second).drop_last() =~= first + second.drop_last());
        assert(labelled_as(first + second, label) =~= labelled_as(first, label) + labelled_as(
            second,
            label,
        ));
    }
}

/// Of items with one label, that label picks all and any other none.
proof fn lemma_labelled_as_one<G, T>(of: G, items: Seq<T>, label: G)
    ensures
        labelled_as(with_label(of, items), label) == if of == label {
            items
        } else {
            Seq::empty()
        },
    decreases items.len(),
{
    if items.len() > 0 {
        lemma_labelled_as_one(of, items.drop_last(), label);
        assert(with_label(of, items).drop_last() =~= with_label(of, items.drop_last()));
        assert(items =~= items.drop_last().push(items.last()));
    } else {
        assert(items =~= Seq::empty());
    }
}

/// One push: the partitions with their lists as they stood at the time, the
/// parent keys that the resolver answers, and whether the write landed.
pub struct Push<'a, P, Rec, K> {
    /// The partitions and their lists.
    pub parts: Seq<(P, &'a [Rec])>,
    /// The parent key of each partition, where it was resolved.
    pub answers: Seq<Option<K>>,
    /// Whether the batch was committed; otherwise it was aborted.
    pub landed: bool,
}

/// The marks after several pushes, each answered before the next, and the
/// records that reached the server by then, labelled with their partitions.
pub open spec fn after_pushes<P: GroupKey, Rec, K>(
    acked: Map<P::V, usize>,
    pushes: Seq<Push<P, Rec, K>>,
) -> (Map<P::V, usize>, Seq<(P::V, (Rec, K))>)
    decreases pushes.len(),
{
    if pushes.len() == 0 {
        (acked, Seq::empty())
    } else {
        let (marks, arrived) = after_pushes(acked, pushes.drop_last());
        let push = pushes.last();
        if push.landed {
            (
                marks_after(marks, push.parts, push.answers, push.parts.len()),
                arrived + labelled(marks, push.parts, push.answers, push.parts.len()),
            )
        } else {
            (marks, arrived)
        }
    }
}

/// Whether every list that a push names for `partition` is a part of the
/// append-only list `whole`, and its parent key is `key` where it is resolved.
pub open spec fn extracts<P: GroupKey, Rec, K>(
    parts: Seq<(P, &[Rec])>,
    answers: Seq<Option<K>>,
    partition: P::V,
    whole: Seq<Rec>,
    key: K,
) -> bool {
    &&& answers.len() == parts.len()
    &&& forall|i: int|
        0 <= i < parts.len() && (#[trigger] parts[i]).0@ == partition
            ==> parts[i].1@.is_prefix_of(whole) && (answers[i] is None || answers[i] == Some(key))
}

/// Over any number of pushes of any partitions, whether they land, fail or are
/// held back, exactly the records between a partition's first mark and its last
/// reach the server: each one once, in order. The lists of that partition are
/// append-only; of the other partitions nothing is asked.
pub proof fn law_every_record_arrives_once<P: GroupKey, Rec, K>(
    acked: Map<P::V, usize>,
    pushes: Seq<Push<P, Rec, K>>,
    partition: P::V,
    whole: Seq<Rec>,
    key: K,
)
    requires
        mark(acked, partition) <= whole.len(),
        forall|i: int|
            0 <= i < pushes.len() ==> extracts(
                (#[trigger] pushes[i]).parts,
                pushes[i].answers,
                partition,
                whole,
                key,
            ),
    ensures
        ({
            let (marks, arrived) = after_pushes(acked, pushes);
            let start = mark(acked, partition) as int;
            let end = mark(marks, partition) as int;
            &&& start <= end <= whole.len()
            &&& labelled_as(arrived, partition) == keyed(whole.subrange(start, end), key)
        }),
    decreases pushes.len(),
{
    let start = mark(acked, partition) as int;
    if pushes.len() == 0 {
        assert(keyed(whole.subrange(start, start), key) =~= Seq::<(Rec, K)>::empty());
    } else {
        let earlier = pushes.drop_last();
        assert forall|i: int| 0 <= i < earlier.len() implies extracts(
            (#[trigger] earlier[i]).parts,
            earlier[i].answers,
            partition,
            whole,
            key,
        ) by {
            assert(earlier[i] == pushes[i]);
        }
        law_every_record_arrives_once(acked, earlier, partition, whole, key);
        let (marks, arrived) = after_pushes(acked, earlier);
        let push = pushes[pushes.len() - 1];
        if push.landed {
            let n = push.parts.len();
            let sent = labelled(marks, push.parts, push.answers, n);
            lemma_push_of_partition(marks, push.parts, push.answers, n, partition, whole, key);
            lemma_labelled_as_splits(arrived, sent, partition);
            let middle = mark(marks, partition) as int;
            let end = mark(marks_after(marks, push.parts, push.answers, n), partition) as int;
            assert(keyed(whole.subrange(start, middle), key) + keyed(
                whole.subrange(middle, end),
                key,
            ) =~= keyed(whole.subrange(start, end), key));
        }
    }
}

/// What the first `n` partitions of one push send of a partition is what lies
/// between its marks before and after.
proof fn lemma_push_of_partition<P: GroupKey, Rec, K>(
    acked: Map<P::V, usize>,
    parts: Seq<(P, &[Rec])>,
    answers: Seq<Option<K>>,
    n: nat,
    partition: P::V,
    whole: Seq<Rec>,
    key: K,
)
    requires
        n <= parts.len(),
        mark(acked, partition) <= whole.len(),
        extracts(parts, answers, partition, whole, key),
    ensures
        ({
            let start = mark(acked, partition) as int;
            let end = mark(marks_after(acked, parts, answers, n), partition) as int;
            &&& start <= end <= whole.len()
            &&& labelled_as(labelled(acked, parts, answers, n), partition) == keyed(
                whole.subrange(start, end),
                key,
            )
        }),
    decreases n,
{
    let start = mark(acked, partition) as int;
    if n == 0 {
        assert(keyed(whole.subrange(start, start), key) =~= Seq::<(Rec, K)>::empty());
    } else {
        let m = (n - 1) as nat;
        lemma_push_of_partition(acked, parts, answers, m, partition, whole, key);
        let marks = marks_after(acked, parts, answers, m);
        let middle = mark(marks, partition) as int;
        let part = parts[m as int];
        if sends(marks, part, answers[m as int]) {
            let fresh = keyed(part.1@.skip(mark(marks, part.0@) as int), answers[m as int]->0);
            lemma_labelled_as_splits(
                labelled(acked, parts, answers, m),
                with_label(part.0@, fresh),
                partition,
            );
            lemma_labelled_as_one(part.0@, fresh, partition);
            if part.0@ == partition {
                let end = part.1@.len() as int;
                assert(keyed(whole.subrange(start, middle), key) + fresh =~= keyed(
                    whole.subrange(start, end),
                    key,
                ));
            } else {
                assert(keyed(whole.subrange(start, middle), key) + Seq::<(Rec, K)>::empty()
                    =~= keyed(whole.subrange(start, middle), key));
            }
        }
    }
}

/// A failed batch changes nothing but the batch number: once it is aborted the
/// marks are as before it was taken, so the next push carries the same records
/// again.
pub proof fn law_aborted_batch_is_carried_again<P>(
    state: DeltaState<P>,
    id: BatchId,
    marks: Map<P, usize>,
)
    requires
        state.in_flight is None,
    ensures
        state.launched(id, marks).aborted(id) == (DeltaState {
            next_number: (state.next_number + 1) as u64,
            ..state
        }),
{
}

/// The marks advance when the write lands and not before: taking a batch
/// leaves them, committing it moves them to what the batch proposed.
pub proof fn law_marks_advance_on_commit<P>(
    state: DeltaState<P>,
    id: BatchId,
    marks: Map<P, usize>,
)
    ensures
        state.launched(id, marks).acked == state.acked,
        state.launched(id, marks).committed(id).acked == marks,
        state.launched(id, marks).committed(id).in_flight is None,
{
}

/// An outcome whose id is not that of the batch in flight changes nothing; in
/// particular an outcome that has been reported once is not counted again.
pub proof fn law_stale_outcome_is_ignored<P>(state: DeltaState<P>, id: BatchId)
    ensures
        state.in_flight_id() != Some(id) ==> state.committed(id) == state && state.aborted(id)
            == state,
        state.committed(id).committed(id) == state.committed(id),
        state.committed(id).aborted(id) == state.committed(id),
        state.aborted(id).committed(id) == state.aborted(id),
        state.aborted(id).aborted(id) == state.aborted(id),
{
}

/// Whether `id` has a number below that of the next batch, as every id has that
/// was handed out.
pub open spec fn numbered_below<P>(state: DeltaState<P>, id: BatchId) -> bool {
    id.number() < state.next_number
}

/// Batch ids are never reused: an id that was handed out stays below the next
/// number whatever happens, a reset included, so no later batch gets it.
pub proof fn law_batch_ids_are_never_reused<P>(
    state: DeltaState<P>,
    earlier: BatchId,
    id: BatchId,
    other: BatchId,
    marks: Map<P, usize>,
)
    requires
        state.next_number < u64::MAX,
        numbered_below(state, earlier),
        id.number() == state.next_number,
    ensures
        id != earlier,
        numbered_below(state.launched(id, marks), earlier),
        numbered_below(state.launched(id, marks), id),
        numbered_below(state.committed(other), earlier),
        numbered_below(state.aborted(other), earlier),
        numbered_below(DeltaState::<P>::blank(state.next_number), earlier),
{
}

/// A push of a single list is a push of one partition whose parent is
/// resolved: the records past the mark, in order.
pub proof fn law_single_list_is_one_partition<Rec, K>(
    acked: Map<(), usize>,
    records: &[Rec],
    key: K,
)
    ensures
        ({
            let parts: Seq<((), &[Rec])> = seq![((), records)];
            let answers = seq![Some(key)];
            let start = mark(acked, ()) as int;
            if records.len() > start {
                &&& outgoing(acked, parts, answers, 1) == keyed(records@.skip(start), key)
                &&& marks_after(acked, parts, answers, 1) == acked.insert((), records.len())
            } else {
                &&& outgoing(acked, parts, answers, 1) == Seq::<(Rec, K)>::empty()
                &&& marks_after(acked, parts, answers, 1) == acked
            }
        }),
{
    reveal_with_fuel(outgoing, 2);
    reveal_with_fuel(marks_after, 2);
    let parts: Seq<((), &[Rec])> = seq![((), records)];
    assert(parts[0] == ((), records));
    let start = mark(acked, ()) as int;
    assert(Seq::<(Rec, K)>::empty() + keyed(records@.skip(start), key) =~= keyed(
        records@.skip(start),
        key,
    ));
}

/// The mark of a partition is the count acknowledged for it, and zero where none
/// is.
pub proof fn law_mark_is_the_acknowledged_count<P>(marks: Map<P, usize>, partition: P)
    ensures
        marks.contains_key(partition) ==> mark(marks, partition) == marks[partition],
        !marks.contains_key(partition) ==> mark(marks, partition) == 0,
{
}

/// The answers of a push are what the resolver gives for the partitions, each
/// of them asked.
pub proof fn law_every_partition_is_asked<P, Rec, K, F: Fn(&P) -> Option<K>>(
    resolve_parent: F,
    parts: Seq<(P, &[Rec])>,
    answers: Seq<Option<K>>,
)
    ensures
        answered(resolve_parent, parts, answers) ==> answers.len() == parts.len(),
        answered(resolve_parent, parts, answers) ==> forall|i: int|
            0 <= i < parts.len() ==> call_ensures(
                resolve_parent,
                (&parts[i].0,),
                #[trigger] answers[i],
            ),
{
    if answered(resolve_parent, parts, answers) {
        assert forall|i: int| 0 <= i < parts.len() implies call_ensures(
            resolve_parent,
            (&parts[i].0,),
            #[trigger] answers[i],
        ) by {
            assert(call_ensures(resolve_parent, (&parts[i].0,), answers[i]));
        }
    }
}

/// The rows of a batch are what the row builder makes of its records and their
/// parent keys, one row for each and in order.
pub proof fn law_every_record_becomes_a_row<'a, Rec, K, R, F: FnMut(&'a Rec, &K) -> R>(
    to_row: F,
    records: Seq<(Rec, K)>,
    rows: Seq<R>,
)
    requires
        built(to_row, records, rows),
    ensures
        rows.len() == records.len(),
        forall|j: int|
            0 <= j < records.len() ==> call_ensures(
                to_row,
                (&records[j].0, &records[j].1),
                #[trigger] rows[j],
            ),
{
}

/// Records get their parent key one by one and in order.
pub proof fn law_records_get_their_key<Rec, K>(records: Seq<Rec>, key: K)
    ensures
        keyed(records, key).len() == records.len(),
        forall|i: int|
            0 <= i < records.len() ==> (#[trigger] keyed(records, key)[i]).0 == records[i]
                && keyed(records, key)[i].1 == key,
{
}

/// A batch can be taken wherever a number is left and the resolver and the row
/// builder take anything.
pub proof fn law_batch_can_be_taken<'a, P: GroupKey, Rec, K, R, F, G>(
    state: DeltaState<P::V>,
    parts: Seq<(P, &'a [Rec])>,
    resolve_parent: F,
    to_row: G,
) where F: Fn(&P) -> Option<K>, G: FnMut(&'a Rec, &K) -> R
    requires
        state.next_number < u64::MAX,
        forall|partition: &P| #[trigger] call_requires(resolve_parent, (partition,)),
        forall|record: &'a Rec, key: &K| #[trigger] call_requires(to_row, (record, key)),
    ensures
        can_take(state, parts, resolve_parent, to_row),
{
}

/// How a longer push relates to a shorter one: one more partition changes
/// nothing of what those before it send. It sends its records past its mark, in
/// order and with its parent key, and moves its mark to the end of its list;
/// where its key is not resolved or its list does not reach past the mark, it
/// sends nothing and moves nothing. Without partitions nothing is sent.
pub proof fn law_one_more_partition_sends_its_tail<P: GroupKey, Rec, K>(
    acked: Map<P::V, usize>,
    parts: Seq<(P, &[Rec])>,
    answers: Seq<Option<K>>,
    part: (P, &[Rec]),
    answer: Option<K>,
)
    requires
        answers.len() == parts.len(),
    ensures
        outgoing(acked, Seq::<(P, &[Rec])>::empty(), Seq::<Option<K>>::empty(), 0).len() == 0,
        marks_after(acked, Seq::<(P, &[Rec])>::empty(), Seq::<Option<K>>::empty(), 0) == acked,
        ({
            let marks = marks_after(acked, parts, answers, parts.len());
            let sent = outgoing(acked, parts, answers, parts.len());
            let marks_then = marks_after(
                acked,
                parts.push(part),
                answers.push(answer),
                parts.len() + 1,
            );
            let sent_then = outgoing(
                acked,
                parts.push(part),
                answers.push(answer),
                parts.len() + 1,
            );
            let start: int = if marks.contains_key(part.0@) {
                marks[part.0@] as int
            } else {
                0
            };
            &&& answer is None || part.1@.len() <= start ==> sent_then == sent && marks_then
                == marks
            &&& answer matches Some(key) ==> part.1@.len() > start ==> {
                &&& sent_then.len() == sent.len() + part.1@.len() - start
                &&& forall|r: int| 0 <= r < sent.len() ==> #[trigger] sent_then[r] == sent[r]
                &&& forall|r: int|
                    sent.len() <= r < sent_then.len() ==> (#[trigger] sent_then[r]).0
                        == part.1@[start + r - sent.len()] && sent_then[r].1 == key
                &&& marks_then == marks.insert(part.0@, part.1.len())
            }
        }),
{
    let n = parts.len();
    let more = parts.push(part);
    let then = answers.push(answer);
    lemma_parts_extend(acked, parts, more, answers, n);
    assert(answers =~= then.take(answers.len() as int));
    lemma_answers_extend(acked, more, answers, then, n);
    assert(more[n as int] == part);
    assert(then[n as int] == answer);
}

/// Nothing goes out but records past an acknowledged mark, of partitions whose
/// parent key was resolved, each with that key.
pub proof fn law_only_pending_records_go_out<P: GroupKey, Rec, K>(
    acked: Map<P::V, usize>,
    parts: Seq<(P, &[Rec])>,
    answers: Seq<Option<K>>,
    n: nat,
    r: int,
)
    requires
        answers.len() == parts.len(),
        n <= parts.len(),
        0 <= r < outgoing(acked, parts, answers, n).len(),
    ensures
        exists|i: int, j: int|
            {
                &&& 0 <= i < n
                &&& #[trigger] answers[i] == Some(outgoing(acked, parts, answers, n)[r].1)
                &&& 0 <= j < parts[i].1@.len()
                &&& acked.contains_key(parts[i].0@) ==> acked[parts[i].0@] <= j
                &&& #[trigger] parts[i].1@[j] == outgoing(acked, parts, answers, n)[r].0
            },
    decreases n,
{
    if n > 0 {
        let m = (n - 1) as nat;
        let before = outgoing(acked, parts, answers, m);
        if r < before.len() {
            law_only_pending_records_go_out(acked, parts, answers, m, r);
            let (i, j) = choose|i: int, j: int|
                {
                    &&& 0 <= i < m
                    &&& #[trigger] answers[i] == Some(before[r].1)
                    &&& 0 <= j < parts[i].1@.len()
                    &&& acked.contains_key(parts[i].0@) ==> acked[parts[i].0@] <= j
                    &&& #[trigger] parts[i].1@[j] == before[r].0
                };
            assert(answers[i] == Some(outgoing(acked, parts, answers, n)[r].1));
            assert(parts[i].1@[j] == outgoing(acked, parts, answers, n)[r].0);
        } else {
            let marks = marks_after(acked, parts, answers, m);
            let part = parts[m as int];
            let start = mark(marks, part.0@) as int;
            lemma_marks_rise(acked, parts, answers, 0, m, part.0@);
            let j = start + r - before.len();
            assert(answers[m as int] == Some(outgoing(acked, parts, answers, n)[r].1));
            assert(part.1@[j] == outgoing(acked, parts, answers, n)[r].0);
            assert(parts[m as int].1@[j] == outgoing(acked, parts, answers, n)[r].0);
        }
    }
}

/// Every record past the acknowledged mark of a partition whose parent key was
/// resolved goes out: at its place in the list of that partition, or of a
/// repetition of it, and with that list's key.
pub proof fn law_every_pending_record_goes_out<P: GroupKey, Rec, K>(
    acked: Map<P::V, usize>,
    parts: Seq<(P, &[Rec])>,
    answers: Seq<Option<K>>,
    i: int,
    j: int,
)
    requires
        answers.len() == parts.len(),
        0 <= i < parts.len(),
        answers[i] is Some,
        0 <= j < parts[i].1@.len(),
        acked.contains_key(parts[i].0@) ==> acked[parts[i].0@] <= j,
    ensures
        exists|k: int, r: int|
            {
                &&& 0 <= k < parts.len()
                &&& (#[trigger] parts[k]).0@ == parts[i].0@
                &&& answers[k] is Some
                &&& j < parts[k].1@.len()
                &&& 0 <= r < outgoing(acked, parts, answers, parts.len()).len()
                &&& #[trigger] outgoing(acked, parts, answers, parts.len())[r] == (
                    parts[k].1@[j],
                    answers[k]->0,
                )
            },
{
    law_resolved_list_is_covered(acked, parts, answers, i);
    lemma_below_the_mark_is_sent(acked, parts, answers, parts.len(), parts[i].0@, j);
}

/// What lies between the mark of a partition before and after the first `n`
/// partitions of a push has gone out.
proof fn lemma_below_the_mark_is_sent<P: GroupKey, Rec, K>(
    acked: Map<P::V, usize>,
    parts: Seq<(P, &[Rec])>,
    answers: Seq<Option<K>>,
    n: nat,
    partition: P::V,
    j: int,
)
    requires
        answers.len() == parts.len(),
        n <= parts.len(),
        mark(acked, partition) <= j < mark(marks_after(acked, parts, answers, n), partition),
    ensures
        exists|k: int, r: int|
            {
                &&& 0 <= k < n
                &&& (#[trigger] parts[k]).0@ == partition
                &&& answers[k] is Some
                &&& j < parts[k].1@.len()
                &&& 0 <= r < outgoing(acked, parts, answers, n).len()
                &&& #[trigger] outgoing(acked, parts, answers, n)[r] == (
                    parts[k].1@[j],
                    answers[k]->0,
                )
            },
    decreases n,
{
    if n > 0 {
        let m = (n - 1) as nat;
        let marks = marks_after(acked, parts, answers, m);
        let before = outgoing(acked, parts, answers, m);
        let now = outgoing(acked, parts, answers, n);
        if j < mark(marks, partition) {
            lemma_below_the_mark_is_sent(acked, parts, answers, m, partition, j);
            let (k, r) = choose|k: int, r: int|
                {
                    &&& 0 <= k < m
                    &&& (#[trigger] parts[k]).0@ == partition
                    &&& answers[k] is Some
                    &&& j < parts[k].1@.len()
                    &&& 0 <= r < before.len()
                    &&& #[trigger] before[r] == (parts[k].1@[j], answers[k]->0)
                };
            assert(parts[k].0@ == partition);
            assert(now[r] == (parts[k].1@[j], answers[k]->0));
        } else {
            let part = parts[m as int];
            let r = before.len() + j - mark(marks, partition);
            assert(part.0@ == partition);
            assert(now[r] == (parts[m as int].1@[j], answers[m as int]->0));
        }
    }
}

/// How a batch is launched and settled. Launching it leaves the marks, puts it
/// in flight with the marks that it proposes and uses up its number. While it is
/// in flight, committing it moves the marks there and aborting it leaves them;
/// both end its flight and use up no number.
pub proof fn law_batch_is_launched_and_settled<P>(
    state: DeltaState<P>,
    id: BatchId,
    marks: Map<P, usize>,
)
    ensures
        state.launched(id, marks).acked == state.acked,
        state.launched(id, marks).in_flight == Some((id, marks)),
        state.next_number < u64::MAX ==> state.launched(id, marks).next_number
            == state.next_number + 1,
        state.in_flight == Some((id, marks)) ==> {
            &&& state.in_flight_id() == Some(id)
            &&& state.committed(id).acked == marks
            &&& state.committed(id).in_flight is None
            &&& state.committed(id).next_number == state.next_number
            &&& state.aborted(id).acked == state.acked
            &&& state.aborted(id).in_flight is None
            &&& state.aborted(id).next_number == state.next_number
        },
        state.in_flight is None ==> {
            &&& state.in_flight_id() is None
            &&& state.committed(id) == state
            &&& state.aborted(id) == state
        },
{
}

/// An outcome of another batch than the one in flight changes nothing.
pub proof fn law_other_batches_change_nothing<P>(
    state: DeltaState<P>,
    id: BatchId,
    marks: Map<P, usize>,
    other: BatchId,
)
    requires
        state.in_flight == Some((id, marks)),
        other != id,
    ensures
        state.committed(other) == state,
        state.aborted(other) == state,
{
}

/// A fresh start has no marks and nothing in flight, whatever number comes next.
pub proof fn law_blank_knows_nothing<P>(number: u64, partition: P)
    ensures
        !DeltaState::<P>::blank(number).acked.contains_key(partition),
        DeltaState::<P>::blank(number).in_flight is None,
        DeltaState::<P>::blank(number).next_number == number,
{
}

} // verus!
