//! What a host tells the library, and what it is told in return.

use crate::reply::first_of;
use crate::text::IntoText;
use crate::traits::{SupabaseRow, SupabaseView};
use core::marker::PhantomData;
use vstd::prelude::*;

verus! {

/// Asks for rows to be synced: one row or a whole batch, written in one
/// request.
#[derive(Debug, Clone)]
pub struct SyncToSupabase<T: SupabaseRow> {
    /// The rows to sync, written in one request.
    pub rows: Vec<T>,
    /// Deduplication keys, one per row. Empty to fall back on each row's
    /// [`SupabaseRow::sync_key`].
    pub sync_keys: Vec<String>,
}

impl<T: SupabaseRow> SyncToSupabase<T> {
    /// Whether `key` is the sync key of the row at `index`: the key given for
    /// it, otherwise the row's own.
    pub open spec fn has_key(self, index: int, key: Option<String>) -> bool {
        if index < self.sync_keys@.len() {
            key == Some(self.sync_keys@[index])
        } else if index < self.rows@.len() {
            call_ensures(T::sync_key, (&self.rows@[index],), key)
        } else {
            key is None
        }
    }

    /// Create a sync event for a single row.
    pub fn new(data: T) -> (event: Self)
        ensures
            event.rows@ == seq![data],
            event.sync_keys@.len() == 0,
    {
        let mut rows: Vec<T> = Vec::new();
        rows.push(data);
        assert(rows@ =~= seq![data]);
        SyncToSupabase { rows, sync_keys: Vec::new() }
    }

    /// Create a sync event for many rows, written in one request.
    pub fn batch(rows: Vec<T>) -> (event: Self)
        ensures
            event.rows == rows,
            event.sync_keys@.len() == 0,
    {
        SyncToSupabase { rows, sync_keys: Vec::new() }
    }

    /// Create a single-row sync event with a custom sync key for deduplication.
    pub fn with_key<S: IntoText>(data: T, key: S) -> (event: Self)
        ensures
            event.rows@ == seq![data],
            crate::text::views(event.sync_keys@) == seq![key.text()],
    {
        let mut rows: Vec<T> = Vec::new();
        rows.push(data);
        assert(rows@ =~= seq![data]);
        let mut sync_keys: Vec<String> = Vec::new();
        sync_keys.push(key.into_text());
        assert(crate::text::views(sync_keys@) =~= seq![key.text()]);
        SyncToSupabase { rows, sync_keys }
    }

    /// Create a batch whose rows carry their own deduplication keys.
    ///
    /// Use this when a row cannot identify itself from its columns alone: two
    /// enemies killed in the same frame look identical, but their position in
    /// the list does not. Rows past the end of `keys` fall back on
    /// [`SupabaseRow::sync_key`].
    pub fn batch_with_keys(rows: Vec<T>, keys: Vec<String>) -> (event: Self)
        ensures
            event.rows == rows,
            event.sync_keys == keys,
    {
        SyncToSupabase { rows, sync_keys: keys }
    }

    /// The sync key of the row at `index`: the key given for it, otherwise the
    /// row's own.
    pub fn effective_sync_key(&self, index: usize) -> (key: Option<String>)
        ensures
            self.has_key(index as int, key),
    {
        if index < self.sync_keys.len() {
            Some(self.sync_keys[index].clone())
        } else if index < self.rows.len() {
            self.rows[index].sync_key()
        } else {
            None
        }
    }
}

/// Tells that a sync completed successfully.
///
/// Carries the rows the server returned, so a chained workflow can read the
/// primary keys its next table needs as foreign keys.
#[derive(Debug, Clone)]
pub struct SyncComplete<T: SupabaseRow> {
    /// The rows the server returned, empty when the type asks for no response
    /// body.
    pub rows: Vec<T::Response>,
    /// The primary keys the server assigned, in the order they came back.
    pub primary_keys: Vec<i64>,
    /// Whether this was an insert (true) or update (false).
    pub was_insert: bool,
    /// HTTP status code from the response.
    pub status: u16,
}

impl<T: SupabaseRow> SyncComplete<T> {
    /// Create a new sync complete event.
    pub fn new(
        rows: Vec<T::Response>,
        primary_keys: Vec<i64>,
        was_insert: bool,
        status: u16,
    ) -> (event: Self)
        ensures
            event == (SyncComplete::<T> { rows, primary_keys, was_insert, status }),
    {
        SyncComplete { rows, primary_keys, was_insert, status }
    }

    /// The first primary key returned, if any.
    pub fn primary_key(&self) -> (key: Option<i64>)
        ensures
            key == crate::reply::first_key(self.primary_keys@),
    {
        first_of(&self.primary_keys)
    }
}

/// Tells that a sync failed.
#[derive(Debug)]
pub struct SyncError<T: SupabaseRow> {
    /// Error message describing what went wrong.
    pub message: String,
    /// HTTP status code (if available).
    pub status: Option<u16>,
    /// Response body (if available).
    pub body: Option<String>,
    /// The row type that was to be synced.
    pub row_type: PhantomData<T>,
}

impl<T: SupabaseRow> View for SyncError<T> {
    type V = crate::error::Failure;

    open spec fn view(&self) -> crate::error::Failure {
        crate::error::Failure {
            message: self.message@,
            status: self.status,
            body: crate::text::optional_string(self.body),
        }
    }
}

impl<T: SupabaseRow> SyncError<T> {
    /// Create a new sync error event.
    pub fn new<S: IntoText>(message: S) -> (event: Self)
        ensures
            event@ == (crate::error::Failure { message: message.text(), status: None, body: None }),
    {
        SyncError { message: message.into_text(), status: None, body: None, row_type: PhantomData }
    }

    /// Create a sync error with HTTP response details.
    pub fn with_response<S: IntoText>(message: S, status: u16, body: Option<String>) -> (event:
        Self)
        ensures
            event@ == (crate::error::Failure {
                message: message.text(),
                status: Some(status),
                body: crate::text::optional_string(body),
            }),
    {
        SyncError {
            message: message.into_text(),
            status: Some(status),
            body,
            row_type: PhantomData,
        }
    }
}

impl<T: SupabaseRow> Clone for SyncError<T> {
    fn clone(&self) -> (event: Self)
        ensures
            event@ == self@,
    {
        SyncError {
            message: self.message.clone(),
            status: self.status,
            body: match &self.body {
                Some(body) => Some(body.clone()),
                None => None,
            },
            row_type: PhantomData,
        }
    }
}

/// Asks for a view to be read.
#[derive(Debug)]
pub struct FetchView<R: SupabaseView> {
    _marker: PhantomData<R>,
}

impl<R: SupabaseView> FetchView<R> {
    /// Request a fresh read of the view.
    pub fn new() -> Self {
        FetchView { _marker: PhantomData }
    }
}

impl<R: SupabaseView> Default for FetchView<R> {
    fn default() -> Self {
        Self::new()
    }
}

/// Tells that a view was read.
#[derive(Debug)]
pub struct ViewFetched<R: SupabaseView> {
    /// The rows read from the view.
    pub rows: Vec<R>,
}

/// Tells that a view could not be read.
#[derive(Debug)]
pub struct ViewFetchFailed<R: SupabaseView> {
    /// Error message describing what went wrong.
    pub message: String,
    /// HTTP status code (if available).
    pub status: Option<u16>,
    /// The row type that was to be read.
    pub row_type: PhantomData<R>,
}

impl<R: SupabaseView> ViewFetchFailed<R> {
    /// Create a new view fetch failure event.
    pub fn new<S: IntoText>(message: S, status: Option<u16>) -> (event: Self)
        ensures
            event.message@ == message.text(),
            event.status == status,
    {
        ViewFetchFailed { message: message.into_text(), status, row_type: PhantomData }
    }
}

/// A row's sync key is the one given for it. Without one it is the row's own,
/// and past the end of the rows there is none.
pub proof fn law_given_keys_win<T: SupabaseRow>(
    event: SyncToSupabase<T>,
    index: int,
    key: Option<String>,
)
    requires
        0 <= index,
        event.has_key(index, key),
    ensures
        index < event.sync_keys@.len() ==> key == Some(event.sync_keys@[index]),
        event.sync_keys@.len() <= index < event.rows@.len() ==> call_ensures(
            T::sync_key,
            (&event.rows@[index],),
            key,
        ),
        event.sync_keys@.len() <= index && event.rows@.len() <= index ==> key is None,
{
}

/// What an error event tells is what its fields hold.
pub proof fn law_an_error_event_tells_its_fields<T: SupabaseRow>(event: SyncError<T>)
    ensures
        event@.message == event.message@,
        event@.status == event.status,
        event.body matches Some(body) ==> event@.body == Some(body@),
        event.body is None ==> event@.body is None,
{
}

} // verus!
