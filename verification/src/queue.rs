//! Results on their way from HTTP callbacks to the host.

use crate::error::RequestError;
use crate::traits::{SupabaseRow, SupabaseView};
use std::collections::VecDeque;
use vstd::prelude::*;

verus! {

/// A queue that HTTP callbacks push into and the host drains.
///
/// Callbacks run off the main thread, so the host shares the queue behind a
/// lock. The functions whose name ends in `_locked` take what the lock gave
/// them: the queue, or nothing.
#[derive(Debug)]
pub struct ResultQueue<T> {
    items: VecDeque<T>,
}

impl<T> View for ResultQueue<T> {
    type V = Seq<T>;

    closed spec fn view(&self) -> Seq<T> {
        self.items@
    }
}

impl<T> ResultQueue<T> {
    /// Create an empty queue.
    #[must_use]
    pub fn new() -> (queue: Self)
        ensures
            queue@ == Seq::<T>::empty(),
    {
        ResultQueue { items: VecDeque::new() }
    }

    /// Push a value onto the queue.
    pub fn send(&mut self, value: T)
        ensures
            final(self)@ == old(self)@.push(value),
    {
        self.items.push_back(value);
    }

    /// Take everything queued so far, in the order it arrived.
    pub fn drain(&mut self) -> (values: Vec<T>)
        ensures
            values@ == old(self)@,
            final(self)@ == Seq::<T>::empty(),
    {
        let mut values: Vec<T> = Vec::new();
        let ghost all = self@;
        while self.items.len() > 0
            invariant
                values@ + self.items@ == all,
            decreases self.items.len(),
        {
            let ghost rest = self.items@;
            let ghost before = values@;
            if let Some(value) = self.items.pop_front() {
                values.push(value);
                assert(values@ + self.items@ =~= before + rest);
            }
        }
        assert(self@ =~= Seq::<T>::empty());
        assert(values@ + self.items@ =~= values@);
        values
    }

    /// Whether the queue holds no values.
    pub fn is_empty(&self) -> (empty: bool)
        ensures
            empty == (self@.len() == 0),
    {
        self.items.len() == 0
    }

    /// Push a value onto the queue that a lock gave. The value is dropped if
    /// the lock gave none, because a consumer panicked while holding it.
    pub fn send_locked(queue: Option<&mut Self>, value: T)
        ensures
            queue matches Some(queue) ==> final(queue)@ == (*queue)@.push(value),
    {
        if let Some(queue) = queue {
            queue.send(value);
        }
    }

    /// Take everything from the queue that a lock gave. Returns nothing while a
    /// callback holds the queue; those values are drained by a later call.
    pub fn drain_locked(queue: Option<&mut Self>) -> (values: Vec<T>)
        ensures
            match queue {
                Some(queue) => values@ == (*queue)@ && final(queue)@ == Seq::<T>::empty(),
                None => values@ == Seq::<T>::empty(),
            },
    {
        match queue {
            Some(queue) => queue.drain(),
            None => Vec::new(),
        }
    }

    /// Whether the queue that a lock gave holds no values. Reports `true` while
    /// a callback holds the queue.
    pub fn is_empty_locked(queue: Option<&Self>) -> (empty: bool)
        ensures
            empty == (queue matches Some(queue) ==> queue@.len() == 0),
    {
        match queue {
            Some(queue) => queue.is_empty(),
            None => true,
        }
    }
}

impl<T> Default for ResultQueue<T> {
    fn default() -> (queue: Self)
        ensures
            queue@ == Seq::<T>::empty(),
    {
        Self::new()
    }
}

/// What happens to a queue over time.
pub enum QueueStep<T> {
    /// A value is sent.
    Send(T),
    /// The queue is drained.
    Drain,
    /// The queue is to be drained while a callback holds it.
    DrainHeld,
}

/// What a queue holds after some steps, and all that has been drained by then.
pub open spec fn after_steps<T>(contents: Seq<T>, steps: Seq<QueueStep<T>>) -> (Seq<T>, Seq<T>)
    decreases steps.len(),
{
    if steps.len() == 0 {
        (contents, Seq::empty())
    } else {
        let (held, drained) = after_steps(contents, steps.drop_last());
        match steps.last() {
            QueueStep::Send(value) => (held.push(value), drained),
            QueueStep::Drain => (Seq::empty(), drained + held),
            QueueStep::DrainHeld => (held, drained),
        }
    }
}

/// The values that are sent in some steps, in order.
pub open spec fn sent<T>(steps: Seq<QueueStep<T>>) -> Seq<T>
    decreases steps.len(),
{
    if steps.len() == 0 {
        Seq::empty()
    } else {
        match steps.last() {
            QueueStep::Send(value) => sent(steps.drop_last()).push(value),
            _ => sent(steps.drop_last()),
        }
    }
}

/// Nothing is lost, repeated or reordered: what has been drained, followed by
/// what the queue still holds, is what it held at first followed by what was
/// sent.
pub proof fn law_values_arrive_once_in_order<T>(contents: Seq<T>, steps: Seq<QueueStep<T>>)
    ensures
        after_steps(contents, steps).1 + after_steps(contents, steps).0 == contents + sent(steps),
    decreases steps.len(),
{
    let (held, drained) = after_steps(contents, steps);
    if steps.len() == 0 {
        assert(drained + held =~= contents + sent(steps));
    } else {
        law_values_arrive_once_in_order(contents, steps.drop_last());
        let (held_before, drained_before) = after_steps(contents, steps.drop_last());
        match steps.last() {
            QueueStep::Send(value) => {
                assert(drained + held =~= (drained_before + held_before).push(value));
                assert(contents + sent(steps) =~= (contents + sent(steps.drop_last())).push(value));
            },
            QueueStep::Drain => {
                assert(drained + held =~= drained_before + held_before);
            },
            QueueStep::DrainHeld => {},
        }
    }
}

/// Outcome of a single sync.
pub enum SyncOutcome<T: SupabaseRow> {
    /// The rows reached the server.
    Success {
        /// Rows the server returned, empty when no response body was asked for.
        rows: Vec<T::Response>,
        /// Primary keys the server assigned, in the order they came back.
        primary_keys: Vec<i64>,
        /// Whether rows were inserted.
        was_insert: bool,
        /// HTTP status of the response.
        status: u16,
        /// Sync keys of the rows that were written.
        sync_keys: Vec<String>,
    },
    /// The request failed.
    Failure {
        /// What went wrong.
        error: RequestError,
        /// Sync keys of the rows that did not reach the server.
        sync_keys: Vec<String>,
    },
}

/// Outcome of a single view read.
pub enum ViewOutcome<R: SupabaseView> {
    /// The rows that were read.
    Rows(Vec<R>),
    /// The request failed.
    Failure(RequestError),
}

} // verus!
