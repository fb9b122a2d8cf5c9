//! What reading a table or view sends, and what its outcome announces.

use crate::error::RequestError;
use crate::event::{ViewFetchFailed, ViewFetched};
use crate::http::{Request, Response};
use crate::queue::ViewOutcome;
use crate::reply::complete_rows;
use crate::request::{build_select_request, SupabaseConnection};
use crate::text::IntoText;
use crate::traits::SupabaseView;
use core::marker::PhantomData;
use vstd::prelude::*;

verus! {

/// The connection for a view.
pub struct SupabaseViewConfig<R: SupabaseView> {
    /// Connection details (URL and API key).
    pub connection: SupabaseConnection,
    /// The row type that is read.
    pub row_type: PhantomData<R>,
}

impl<R: SupabaseView> SupabaseViewConfig<R> {
    /// Create a new config with the given connection.
    pub fn new(connection: SupabaseConnection) -> (config: Self)
        ensures
            config.connection == connection,
    {
        SupabaseViewConfig { connection, row_type: PhantomData }
    }

    /// The request that reads the view.
    pub fn start_fetch(&self) -> (request: Request)
        ensures
            exists|query: crate::query::TableQuery, source: Seq<char>|
                {
                    &&& #[trigger] call_ensures(R::query, (), query)
                    &&& #[trigger] crate::traits::names_source::<R>(source)
                    &&& request@ == crate::request::select_parts(
                        self.connection,
                        source,
                        query@,
                    )
                },
    {
        let query = R::query();
        let source = R::view_name();
        assert(crate::traits::names_source::<R>(source@));
        build_select_request(&self.connection, source, &query)
    }
}

/// The settings with which a view is registered for reading.
pub struct SupabaseViewPlugin<R: SupabaseView> {
    /// Connection details (URL and API key).
    pub connection: SupabaseConnection,
    /// The row type that is read.
    pub row_type: PhantomData<R>,
}

impl<R: SupabaseView> SupabaseViewPlugin<R> {
    /// Create a new plugin with the given Supabase URL and API key.
    pub fn new<U: IntoText, K: IntoText>(url: U, api_key: K) -> (plugin: Self)
        ensures
            plugin.connection.url@ == url.text(),
            plugin.connection.api_key@ == api_key.text(),
    {
        SupabaseViewPlugin {
            connection: SupabaseConnection::new(url, api_key),
            row_type: PhantomData,
        }
    }
}

/// The outcome of a read.
pub fn view_outcome<R: SupabaseView>(result: Result<Vec<R>, RequestError>) -> (outcome: ViewOutcome<
    R,
>)
    ensures
        outcome == match result {
            Ok(rows) => ViewOutcome::<R>::Rows(rows),
            Err(err) => ViewOutcome::<R>::Failure(err),
        },
{
    match result {
        Ok(rows) => ViewOutcome::Rows(rows),
        Err(err) => ViewOutcome::Failure(err),
    }
}

/// The outcome of a read, from the reply to its request.
pub fn finish_fetch<R: SupabaseView, P>(reply: Result<Response, String>, parse: P) -> (outcome:
    ViewOutcome<R>) where P: FnOnce(&str) -> Result<Vec<R>, serde_json::Error>
    requires
        crate::reply::takes_reply(parse, reply),
    ensures
        match crate::reply::checked(reply) {
            Ok(response) => exists|read: Result<Vec<R>, RequestError>|
                {
                    &&& #[trigger] crate::reply::rows_read(parse, response, read)
                    &&& outcome == match read {
                        Ok(rows) => ViewOutcome::<R>::Rows(rows),
                        Err(err) => ViewOutcome::<R>::Failure(err),
                    }
                },
            Err(failure) => outcome is Failure && outcome->Failure_0@ == failure,
        },
{
    let result = complete_rows(reply, parse);
    view_outcome(result)
}

/// What to announce of a read.
pub enum ViewNotice<R: SupabaseView> {
    /// The view was read.
    Fetched(ViewFetched<R>),
    /// The view could not be read.
    Failed(ViewFetchFailed<R>),
}

impl<R: SupabaseView> ViewNotice<R> {
    /// Whether this announces an outcome: the rows that were read, or why none
    /// were.
    pub open spec fn announces(self, outcome: ViewOutcome<R>) -> bool {
        match outcome {
            ViewOutcome::Rows(rows) => self == ViewNotice::<R>::Fetched(ViewFetched { rows }),
            ViewOutcome::Failure(err) => {
                &&& self is Failed
                &&& self->Failed_0.message@ == err.message@
                &&& self->Failed_0.status == err.status
            },
        }
    }
}

/// What to announce of one outcome.
pub fn view_notice<R: SupabaseView>(outcome: ViewOutcome<R>) -> (notice: ViewNotice<R>)
    ensures
        notice.announces(outcome),
{
    match outcome {
        ViewOutcome::Rows(rows) => ViewNotice::Fetched(ViewFetched { rows }),
        ViewOutcome::Failure(err) => ViewNotice::Failed(
            ViewFetchFailed::new(err.message, err.status),
        ),
    }
}

/// What to announce of each outcome, in order.
pub fn view_notices<R: SupabaseView>(outcomes: Vec<ViewOutcome<R>>) -> (notices: Vec<
    ViewNotice<R>,
>)
    ensures
        notices@.len() == outcomes@.len(),
        forall|i: int|
            0 <= i < notices@.len() ==> (#[trigger] notices@[i]).announces(outcomes@[i]),
{
    let mut notices: Vec<ViewNotice<R>> = Vec::new();
    let ghost all = outcomes@;
    for outcome in it: outcomes
        invariant
            it.seq() == all,
            all == outcomes@,
            notices@.len() == it.index(),
            forall|i: int|
                0 <= i < notices@.len() ==> (#[trigger] notices@[i]).announces(all[i]),
    {
        notices.push(view_notice(outcome));
    }
    notices
}

/// What is announced of a read carries what came back: all rows in order, or
/// the error's message and status.
pub proof fn law_announced_reads_carry_what_came_back<R: SupabaseView>(
    notice: ViewNotice<R>,
    outcome: ViewOutcome<R>,
)
    requires
        notice.announces(outcome),
    ensures
        outcome matches ViewOutcome::Rows(rows) ==> notice is Fetched
            && notice->Fetched_0.rows@ == rows@,
        outcome matches ViewOutcome::Failure(err) ==> {
            &&& notice is Failed
            &&& notice->Failed_0.message@ == err.message@
            &&& notice->Failed_0.status == err.status
        },
{
}

} // verus!
