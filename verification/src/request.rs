//! Building the requests of Supabase's PostgREST API and reading the replies.
//!
//! Three layers, from lowest to highest:
//!
//! - [`build_write_request`] and [`build_select_request`] hand back a
//!   [`Request`] for callers that want to send it themselves.
//! - [`execute_write`], [`execute_write_returning`] and [`execute_select`]
//!   start an exchange with the server: they say what to send, or that nothing
//!   need be sent. The `complete_` functions turn the reply into the outcome.
//! - [`execute_sync`] applies a [`SyncConfig`].
//!
//! Rows are turned into JSON, and JSON into rows, by functions that the caller
//! hands over.

use crate::config::{SaveMode, SyncConfig};
use crate::error::RequestError;
use crate::http::{build_headers, build_read_headers, default_timeout, text_bytes};
use crate::http::{Request, Response};
use crate::query::TableQuery;
use crate::text::{concat_three, concat_two, signed_text, starts_with, IntoText, IntoTexts};
use crate::traits::SupabaseRow;
use vstd::prelude::*;

verus! {

/// Where a Supabase project is reached.
#[derive(Clone)]
pub struct SupabaseConnection {
    /// Supabase project URL, as in `https://xyz.supabase.co`.
    pub url: String,
    /// Supabase API key (anon/public key for client-side).
    pub api_key: String,
}

impl SupabaseConnection {
    /// The REST API URL of a table.
    pub open spec fn table_address(self, table: Seq<char>) -> Seq<char> {
        self.url@ + "/rest/v1/"@ + table
    }

    /// The REST API URL of a table with query parameters.
    pub open spec fn query_address(
        self,
        table: Seq<char>,
        query: crate::query::QueryParts,
    ) -> Seq<char> {
        if query == crate::query::QueryParts::none() {
            self.table_address(table)
        } else {
            self.table_address(table) + "?"@ + query.rendered()
        }
    }

    /// Query parameters are appended to the table's URL, and only a query
    /// without parameters leaves it bare.
    pub proof fn law_parameters_are_appended(
        self,
        table: Seq<char>,
        query: crate::query::QueryParts,
    )
        ensures
            self.table_address(table).is_prefix_of(self.query_address(table, query)),
            self.query_address(table, query) == self.table_address(table) <==> query
                == crate::query::QueryParts::none(),
    {
        reveal_strlit("?");
        let base = self.table_address(table);
        let full = self.query_address(table, query);
        assert(full.take(base.len() as int) =~= base);
        if query != crate::query::QueryParts::none() {
            assert(full.len() > base.len());
        }
    }

    /// Create a new connection configuration.
    pub fn new<U: IntoText, K: IntoText>(url: U, api_key: K) -> (connection: Self)
        ensures
            connection.url@ == url.text(),
            connection.api_key@ == api_key.text(),
    {
        SupabaseConnection { url: url.into_text(), api_key: api_key.into_text() }
    }

    /// Whether the project is reached over HTTPS. Otherwise API keys are
    /// transmitted in plaintext.
    pub fn is_secure(&self) -> (secure: bool)
        ensures
            secure == "https://"@.is_prefix_of(self.url@),
    {
        starts_with(self.url.as_str(), "https://")
    }

    /// Build the REST API URL for a table.
    pub fn table_url(&self, table: &str) -> (url: String)
        ensures
            url@ == self.table_address(table@),
    {
        concat_three(self.url.as_str(), "/rest/v1/", table)
    }

    /// Build the REST API URL for a table, with query parameters appended.
    pub fn table_url_with(&self, table: &str, query: &TableQuery) -> (url: String)
        ensures
            url@ == self.query_address(table@, query@),
    {
        let base = self.table_url(table);
        if query.is_empty() {
            base
        } else {
            concat_three(base.as_str(), "?", query.to_query_string().as_str())
        }
    }
}

/// A row of a response that carries only its primary key.
#[derive(Debug, Clone, Copy, PartialEq, Eq, Structural)]
pub struct PrimaryKeyResponse {
    /// The primary key.
    pub id: i64,
}

/// What [`WriteOptions`] ask for.
#[verifier::ext_equal]
pub struct OptionParts {
    /// The columns on which conflicts are resolved.
    pub on_conflict: Seq<Seq<char>>,
    /// Whether conflicts are resolved even with no columns named.
    pub merge: bool,
    /// Whether the server sends the written rows back.
    pub return_rows: bool,
    /// The columns that it sends back, or all.
    pub returning: Option<Seq<char>>,
}

impl OptionParts {
    /// A plain insert with no response body.
    pub open spec fn insert() -> Self {
        OptionParts { on_conflict: Seq::empty(), merge: false, return_rows: false, returning: None }
    }

    /// An insert that returns the written rows in full.
    pub open spec fn insert_all() -> Self {
        OptionParts { return_rows: true, ..OptionParts::insert() }
    }

    /// An upsert on the given columns that returns the written rows in full.
    pub open spec fn upsert_all(columns: Seq<Seq<char>>) -> Self {
        OptionParts { on_conflict: columns, merge: true, return_rows: true, returning: None }
    }

    /// Whether the write resolves conflicts instead of failing on them.
    pub open spec fn upserts(self) -> bool {
        self.merge || self.on_conflict.len() > 0
    }

    /// What the `Prefer` header says of the response body.
    pub open spec fn return_preference(self) -> Seq<char> {
        if self.return_rows {
            "return=representation"@
        } else {
            "return=minimal"@
        }
    }

    /// The value of the `Prefer` header.
    pub open spec fn prefer(self) -> Seq<char> {
        if self.upserts() {
            "resolution=merge-duplicates,"@ + self.return_preference()
        } else {
            self.return_preference()
        }
    }

    /// The query parameters.
    pub open spec fn parameters(self) -> crate::query::QueryParts {
        crate::query::QueryParts {
            on_conflict: self.on_conflict,
            select: self.returning,
            ..crate::query::QueryParts::none()
        }
    }

    /// The same options, resolving conflicts on these columns and no others.
    pub open spec fn resolving_on(self, columns: Seq<Seq<char>>) -> Self {
        OptionParts { on_conflict: columns, merge: false, ..self }
    }

    /// Naming conflict columns makes a write an upsert and naming none makes it
    /// an insert, whatever it was before. What it returns stays as it was.
    pub proof fn law_conflict_columns_decide_upsert(self, columns: Seq<Seq<char>>)
        ensures
            self.resolving_on(columns).upserts() <==> columns.len() > 0,
            self.resolving_on(columns).parameters().on_conflict == columns,
            self.resolving_on(columns).return_rows == self.return_rows,
            self.resolving_on(columns).returning == self.returning,
    {
    }

    /// The same options, asking for the written rows back.
    pub open spec fn asking_for_rows(self) -> Self {
        OptionParts { return_rows: true, ..self }
    }

    /// The `Prefer` header tells exactly whether conflicts are resolved and
    /// whether rows come back.
    pub proof fn law_prefer_tells_what_is_asked(self, other: Self)
        ensures
            self.prefer() == other.prefer() <==> self.upserts() == other.upserts()
                && self.return_rows == other.return_rows,
    {
        reveal_strlit("return=representation");
        reveal_strlit("return=minimal");
        reveal_strlit("resolution=merge-duplicates,");
        assert(self.prefer().len() == (if self.upserts() { 28int } else { 0 }) + (
        if self.return_rows { 21int } else { 14 }));
        assert(other.prefer().len() == (if other.upserts() { 28int } else { 0 }) + (
        if other.return_rows { 21int } else { 14 }));
    }

    /// Asking for the written rows changes nothing else of a write, and asking
    /// twice is asking once.
    pub proof fn law_asking_for_rows_changes_nothing_else(self)
        ensures
            self.asking_for_rows().return_rows,
            self.asking_for_rows().upserts() == self.upserts(),
            self.asking_for_rows().parameters() == self.parameters(),
            self.asking_for_rows().asking_for_rows() == self.asking_for_rows(),
            self.return_rows ==> self.asking_for_rows() == self,
    {
    }

    /// An upsert resolves conflicts whatever the unique columns are, an insert
    /// never does, and only the upsert names columns to resolve on.
    pub proof fn law_upsert_always_merges(columns: Seq<Seq<char>>)
        ensures
            OptionParts::upsert_all(columns).upserts(),
            OptionParts::upsert_all(columns).prefer()
                == "resolution=merge-duplicates,return=representation"@,
            OptionParts::upsert_all(columns).parameters().on_conflict == columns,
            !OptionParts::insert_all().upserts(),
            OptionParts::insert_all().parameters() == crate::query::QueryParts::none(),
    {
        reveal_strlit("return=representation");
        reveal_strlit("resolution=merge-duplicates,");
        reveal_strlit("resolution=merge-duplicates,return=representation");
        assert(OptionParts::upsert_all(columns).prefer()
            =~= "resolution=merge-duplicates,return=representation"@);
        assert(OptionParts::insert_all().parameters() =~= crate::query::QueryParts::none());
    }
}

/// How a write resolves conflicts, and what it returns.
///
/// The default inserts rows and asks for no response body. Naming conflict
/// columns turns the write into an upsert; asking for returned rows makes the
/// server respond with them.
#[derive(Debug, Clone)]
pub struct WriteOptions {
    on_conflict: Vec<String>,
    merge: bool,
    return_rows: bool,
    returning: Option<String>,
}

impl View for WriteOptions {
    type V = OptionParts;

    closed spec fn view(&self) -> OptionParts {
        OptionParts {
            on_conflict: crate::text::views(self.on_conflict@),
            merge: self.merge,
            return_rows: self.return_rows,
            returning: crate::text::optional_string(self.returning),
        }
    }
}

impl WriteOptions {
    /// Create options for a plain insert with no response body.
    #[must_use]
    pub fn new() -> (options: Self)
        ensures
            options@ == OptionParts::insert(),
    {
        let options = WriteOptions {
            on_conflict: Vec::new(),
            merge: false,
            return_rows: false,
            returning: None,
        };
        assert(options@ =~= OptionParts::insert());
        options
    }

    /// Resolve conflicts on these columns, making the write an upsert. With no
    /// columns the write is an insert, whatever it was before.
    #[must_use]
    pub fn on_conflict<I: IntoTexts>(self, columns: I) -> (options: Self)
        ensures
            options@ == self@.resolving_on(columns.all_texts()),
    {
        WriteOptions { on_conflict: columns.into_texts(), merge: false, ..self }
    }

    /// Resolve conflicts on the table's primary key when no columns are named.
    #[must_use]
    pub fn merging(self) -> (options: Self)
        ensures
            options@ == (OptionParts { merge: true, ..self@ }),
    {
        WriteOptions { merge: true, ..self }
    }

    /// Return the written rows, projected to `columns`.
    #[must_use]
    pub fn returning<S: IntoText>(self, columns: S) -> (options: Self)
        ensures
            options@ == (OptionParts {
                return_rows: true,
                returning: Some(columns.text()),
                ..self@
            }),
    {
        WriteOptions { return_rows: true, returning: Some(columns.into_text()), ..self }
    }

    /// Return the written rows in full.
    #[must_use]
    pub fn returning_all(self) -> (options: Self)
        ensures
            options@ == (OptionParts { return_rows: true, returning: None, ..self@ }),
    {
        WriteOptions { return_rows: true, returning: None, ..self }
    }

    /// Whether the write resolves conflicts instead of failing on them.
    pub fn is_upsert(&self) -> (upsert: bool)
        ensures
            upsert == self@.upserts(),
    {
        self.merge || self.on_conflict.len() > 0
    }

    /// Whether the server is asked to send the written rows back.
    pub fn returns_rows(&self) -> (asked: bool)
        ensures
            asked == self@.return_rows,
    {
        self.return_rows
    }

    /// The `Prefer` header value for these options.
    pub fn prefer_header(&self) -> (value: String)
        ensures
            value@ == self@.prefer(),
    {
        let return_part = if self.return_rows {
            "return=representation"
        } else {
            "return=minimal"
        };
        if self.is_upsert() {
            concat_two("resolution=merge-duplicates,", return_part)
        } else {
            return_part.to_owned()
        }
    }

    /// The URL query parameters for these options.
    pub fn query(&self) -> (query: TableQuery)
        ensures
            query@ == self@.parameters(),
    {
        let query = TableQuery::new().on_conflict(copied(self.on_conflict.as_slice()));
        match &self.returning {
            Some(columns) => query.select(columns.clone()),
            None => query,
        }
    }

    /// The same options, asking for the written rows back.
    pub fn requesting_rows(&self) -> (options: Self)
        ensures
            options@ == self@.asking_for_rows(),
    {
        WriteOptions {
            on_conflict: copied(self.on_conflict.as_slice()),
            merge: self.merge,
            return_rows: true,
            returning: match &self.returning {
                Some(columns) => Some(columns.clone()),
                None => None,
            },
        }
    }
}

impl Default for WriteOptions {
    fn default() -> (options: Self)
        ensures
            options@ == OptionParts::insert(),
    {
        Self::new()
    }
}

/// A copy of `items`.
fn copied(items: &[String]) -> (copy: Vec<String>)
    ensures
        crate::text::views(copy@) == crate::text::views(items@),
        crate::text::texts(copy@) == crate::text::views(items@),
{
    let mut copy: Vec<String> = Vec::new();
    for i in 0..items.len()
        invariant
            copy@ == items@.take(i as int),
    {
        copy.push(items[i].clone());
        assert(items@.take(i + 1) =~= items@.take(i as int).push(items@[i as int]));
    }
    assert(copy@ =~= items@);
    assert(crate::text::texts(copy@) =~= crate::text::views(items@));
    copy
}

/// Whether `options` are those of an upsert that resolves conflicts on the
/// unique columns of `T` and returns the written rows in full.
pub open spec fn upserts_for<T: SupabaseRow>(options: OptionParts) -> bool {
    exists|columns: Seq<Seq<char>>|
        #[trigger] crate::traits::names_unique_columns::<T>(columns) && options
            == OptionParts::upsert_all(columns)
}

/// Upsert options resolving on a row type's unique columns, or on the table's
/// primary key when the type has none.
pub fn upsert_options<T: SupabaseRow>() -> (options: WriteOptions)
    ensures
        upserts_for::<T>(options@),
{
    let names = T::unique_columns();
    assert(crate::traits::names_unique_columns::<T>(crate::text::str_views(names@)));
    WriteOptions::new().on_conflict(names).merging().returning_all()
}

/// The request that writes a JSON text to a table.
pub open spec fn write_parts(
    connection: SupabaseConnection,
    table: Seq<char>,
    options: OptionParts,
    json: Seq<char>,
) -> crate::http::RequestParts {
    crate::http::RequestParts {
        method: "POST"@,
        url: connection.query_address(table, options.parameters()),
        body: vstd::utf8::encode_utf8(json),
        headers: crate::http::write_lines(connection.api_key@, options.prefer()),
        timeout: Some(30),
    }
}

/// The request that changes one row of a table, the one with this primary key.
pub open spec fn update_parts(
    connection: SupabaseConnection,
    table: Seq<char>,
    primary_key: i64,
    pk_column: Seq<char>,
    json: Seq<char>,
) -> crate::http::RequestParts {
    crate::http::RequestParts {
        method: "PATCH"@,
        url: connection.query_address(table, key_filter(pk_column, primary_key)),
        body: vstd::utf8::encode_utf8(json),
        headers: crate::http::write_lines(connection.api_key@, "return=minimal"@),
        timeout: Some(30),
    }
}

/// The query parameters that select the row with this primary key.
pub open spec fn key_filter(
    pk_column: Seq<char>,
    primary_key: i64,
) -> crate::query::QueryParts {
    crate::query::QueryParts {
        filters: seq![
            (pk_column, "eq."@ + crate::text::signed_decimal(primary_key as int)),
        ],
        ..crate::query::QueryParts::none()
    }
}

/// The request that reads rows from a table.
pub open spec fn select_parts(
    connection: SupabaseConnection,
    table: Seq<char>,
    query: crate::query::QueryParts,
) -> crate::http::RequestParts {
    crate::http::RequestParts {
        method: "GET"@,
        url: connection.query_address(table, query),
        body: Seq::empty(),
        headers: crate::http::read_lines(connection.api_key@),
        timeout: Some(30),
    }
}

/// Whether `built` is the request `wanted` with the serialized rows as its
/// body, or the error that tells why they could not be serialized.
pub open spec fn carries(
    serialized: Result<String, serde_json::Error>,
    wanted: spec_fn(Seq<char>) -> crate::http::RequestParts,
    built: Result<Request, RequestError>,
) -> bool {
    match serialized {
        Ok(json) => built is Ok && built->Ok_0@ == wanted(json@),
        Err(err) => built is Err && built->Err_0.reports_serialization(err),
    }
}

/// The requests that write a JSON text to a table, for every text.
pub open spec fn writing(
    connection: SupabaseConnection,
    table: Seq<char>,
    options: OptionParts,
) -> spec_fn(Seq<char>) -> crate::http::RequestParts {
    |json: Seq<char>| write_parts(connection, table, options, json)
}

/// The requests that change one row of a table, for every JSON text.
pub open spec fn updating(
    connection: SupabaseConnection,
    table: Seq<char>,
    primary_key: i64,
    pk_column: Seq<char>,
) -> spec_fn(Seq<char>) -> crate::http::RequestParts {
    |json: Seq<char>| update_parts(connection, table, primary_key, pk_column, json)
}

/// The POST request that writes the rows of `json` to `table`.
pub fn write_request(
    connection: &SupabaseConnection,
    table: &str,
    options: &WriteOptions,
    json: &str,
) -> (request: Request)
    ensures
        request@ == write_parts(*connection, table@, options@, json@),
{
    Request {
        method: "POST".to_owned(),
        url: connection.table_url_with(table, &options.query()),
        body: text_bytes(json),
        headers: build_headers(connection.api_key.as_str(), options.prefer_header().as_str()),
        timeout: Some(default_timeout()),
    }
}

/// The PATCH request that sets the row with this primary key to `json`.
pub fn update_request(
    connection: &SupabaseConnection,
    table: &str,
    primary_key: i64,
    pk_column: &str,
    json: &str,
) -> (request: Request)
    ensures
        request@ == update_parts(*connection, table@, primary_key, pk_column@, json@),
{
    let condition = concat_two("eq.", signed_text(primary_key).as_str());
    let query = TableQuery::new().filter(pk_column, condition);
    assert(query@ =~= key_filter(pk_column@, primary_key));
    Request {
        method: "PATCH".to_owned(),
        url: connection.table_url_with(table, &query),
        body: text_bytes(json),
        headers: build_headers(connection.api_key.as_str(), "return=minimal"),
        timeout: Some(default_timeout()),
    }
}

/// Build the POST request that writes `rows` to `table`.
///
/// Returns the request instead of sending it, so callers can adjust it: a
/// shorter timeout, or a blocking send from a panic hook. When `serialize`
/// fails, its error is reported.
pub fn build_write_request<T, S>(
    connection: &SupabaseConnection,
    rows: &[T],
    table: &str,
    options: &WriteOptions,
    serialize: S,
) -> (built: Result<Request, RequestError>) where
    S: FnOnce(&[T]) -> Result<String, serde_json::Error>,

    requires
        call_requires(serialize, (rows,)),
    ensures
        exists|serialized: Result<String, serde_json::Error>|
            {
                &&& #[trigger] call_ensures(serialize, (rows,), serialized)
                &&& carries(serialized, writing(*connection, table@, options@), built)
            },
{
    match serialize(rows) {
        Ok(json) => Ok(write_request(connection, table, options, json.as_str())),
        Err(err) => Err(RequestError::serialization(&err)),
    }
}

/// Build the GET request that reads rows from `table`.
///
/// Reads work against tables and views alike, so this also serves aggregate
/// views such as leaderboards.
pub fn build_select_request(
    connection: &SupabaseConnection,
    table: &str,
    query: &TableQuery,
) -> (request: Request)
    ensures
        request@ == select_parts(*connection, table@, query@),
{
    let body: Vec<u8> = Vec::new();
    Request {
        method: "GET".to_owned(),
        url: connection.table_url_with(table, query),
        body,
        headers: build_read_headers(connection.api_key.as_str()),
        timeout: Some(default_timeout()),
    }
}

/// The start of an exchange with the server that ends in a `T`.
#[derive(Debug)]
pub enum Exchange<T> {
    /// This request has to be sent, and its reply completed.
    Send(Request),
    /// The outcome is known without sending anything.
    Done(Result<T, RequestError>),
}

impl<T> Exchange<T> {
    /// Whether the exchange begins with the request `wanted`, the serialized
    /// rows as its body, or ends at once because they could not be serialized.
    pub open spec fn begins(
        self,
        serialized: Result<String, serde_json::Error>,
        wanted: spec_fn(Seq<char>) -> crate::http::RequestParts,
    ) -> bool {
        match self {
            Exchange::Send(request) => carries(serialized, wanted, Ok(request)),
            Exchange::Done(Err(err)) => carries(serialized, wanted, Err(err)),
            Exchange::Done(Ok(_)) => false,
        }
    }

    /// The exchange that begins with `built`.
    pub fn start(built: Result<Request, RequestError>) -> (exchange: Self)
        ensures
            built matches Ok(request) ==> exchange == Exchange::<T>::Send(request),
            built matches Err(err) ==> exchange == Exchange::<T>::Done(Err(err)),
    {
        match built {
            Ok(request) => Exchange::Send(request),
            Err(err) => Exchange::Done(Err(err)),
        }
    }
}

/// Write `rows` to `table`, to learn only of success or failure.
///
/// Done at once with `Ok` when `rows` is empty. The reply is for
/// [`complete_write`].
pub fn execute_write<T, S>(
    connection: &SupabaseConnection,
    rows: &[T],
    table: &str,
    options: &WriteOptions,
    serialize: S,
) -> (exchange: Exchange<()>) where
    S: FnOnce(&[T]) -> Result<String, serde_json::Error>,

    requires
        rows@.len() > 0 ==> call_requires(serialize, (rows,)),
    ensures
        rows@.len() == 0 ==> exchange == Exchange::Done(Ok(())),
        rows@.len() > 0 ==> exists|serialized: Result<String, serde_json::Error>|
            {
                &&& #[trigger] call_ensures(serialize, (rows,), serialized)
                &&& exchange.begins(serialized, writing(*connection, table@, options@))
            },
{
    if rows.len() == 0 {
        return Exchange::Done(Ok(()));
    }
    Exchange::start(build_write_request(connection, rows, table, options, serialize))
}

/// Write `rows` to `table`, to read the rows that the server sends back.
///
/// Asks for a response body even when `options` did not. Done at once with an
/// empty `Vec` when `rows` is empty. The reply is for [`complete_rows`].
pub fn execute_write_returning<T, R, S>(
    connection: &SupabaseConnection,
    rows: &[T],
    table: &str,
    options: &WriteOptions,
    serialize: S,
) -> (exchange: Exchange<Vec<R>>) where
    S: FnOnce(&[T]) -> Result<String, serde_json::Error>,

    requires
        rows@.len() > 0 ==> call_requires(serialize, (rows,)),
    ensures
        rows@.len() == 0 ==> exchange is Done && exchange->Done_0 is Ok
            && exchange->Done_0->Ok_0@.len() == 0,
        rows@.len() > 0 ==> exists|serialized: Result<String, serde_json::Error>|
            {
                &&& #[trigger] call_ensures(serialize, (rows,), serialized)
                &&& exchange.begins(
                    serialized,
                    writing(*connection, table@, options@.asking_for_rows()),
                )
            },
{
    if rows.len() == 0 {
        return Exchange::Done(Ok(Vec::new()));
    }
    let asking = options.requesting_rows();
    Exchange::start(build_write_request(connection, rows, table, &asking, serialize))
}

/// Read rows from `table` (or a view). The reply is for [`complete_rows`].
pub fn execute_select<R>(
    connection: &SupabaseConnection,
    table: &str,
    query: &TableQuery,
) -> (exchange: Exchange<Vec<R>>)
    ensures
        exchange is Send,
        exchange->Send_0@ == select_parts(*connection, table@, query@),
{
    Exchange::Send(build_select_request(connection, table, query))
}

/// `core::slice::from_ref` makes a slice of length one that holds the given
/// value.
pub assume_specification<T>[ core::slice::from_ref::<T> ](s: &T) -> (slice: &[T])
    ensures
        slice@ == seq![*s],
;

/// Whether `serialized` is what `serialize` makes of the one row `data`, taken
/// as a list.
pub open spec fn listed<T, S: FnOnce(&[T]) -> Result<String, serde_json::Error>>(
    serialize: S,
    data: T,
    serialized: Result<String, serde_json::Error>,
) -> bool {
    exists|rows: &[T]|
        rows@ == seq![data] && #[trigger] call_ensures(serialize, (rows,), serialized)
}

/// Whether `serialize` takes the one row `data` as a list.
pub open spec fn takes_one<T, S: FnOnce(&[T]) -> Result<String, serde_json::Error>>(
    serialize: S,
    data: T,
) -> bool {
    forall|rows: &[T]| rows@ == seq![data] ==> #[trigger] call_requires(serialize, (rows,))
}

/// Write a single row, to learn the primary key that the server assigned. The
/// reply is for [`complete_one`].
pub fn write_one<T, S>(
    connection: &SupabaseConnection,
    data: &T,
    table: &str,
    options: &WriteOptions,
    serialize: S,
) -> (exchange: Exchange<Option<i64>>) where
    T: SupabaseRow,
    S: FnOnce(&[T]) -> Result<String, serde_json::Error>,

    requires
        takes_one(serialize, *data),
    ensures
        exists|serialized: Result<String, serde_json::Error>|
            {
                &&& #[trigger] listed(serialize, *data, serialized)
                &&& exchange.begins(serialized, writing(*connection, table@, options@))
            },
{
    let rows = core::slice::from_ref(data);
    let built = build_write_request(connection, rows, table, options, serialize);
    proof {
        let serialized = choose|serialized: Result<String, serde_json::Error>|
            {
                &&& #[trigger] call_ensures(serialize, (rows,), serialized)
                &&& carries(serialized, writing(*connection, table@, options@), built)
            };
        assert(listed(serialize, *data, serialized));
    }
    Exchange::start(built)
}

/// Write several rows, to learn the primary keys that the server assigned.
///
/// Done at once with no keys when `data` is empty. The reply is for
/// [`complete_many`].
pub fn write_many<T, S>(
    connection: &SupabaseConnection,
    data: &[T],
    table: &str,
    options: &WriteOptions,
    serialize: S,
) -> (exchange: Exchange<Vec<i64>>) where
    T: SupabaseRow,
    S: FnOnce(&[T]) -> Result<String, serde_json::Error>,

    requires
        data@.len() > 0 ==> call_requires(serialize, (data,)),
    ensures
        data@.len() == 0 ==> exchange is Done && exchange->Done_0 is Ok
            && exchange->Done_0->Ok_0@.len() == 0,
        data@.len() > 0 ==> exists|serialized: Result<String, serde_json::Error>|
            {
                &&& #[trigger] call_ensures(serialize, (data,), serialized)
                &&& exchange.begins(serialized, writing(*connection, table@, options@))
            },
{
    if data.len() == 0 {
        return Exchange::Done(Ok(Vec::new()));
    }
    Exchange::start(build_write_request(connection, data, table, options, serialize))
}

/// Insert one row. The reply is for [`complete_one`].
pub fn execute_insert<T, S>(
    connection: &SupabaseConnection,
    data: &T,
    table: &str,
    serialize: S,
) -> (exchange: Exchange<Option<i64>>) where
    T: SupabaseRow,
    S: FnOnce(&[T]) -> Result<String, serde_json::Error>,

    requires
        takes_one(serialize, *data),
    ensures
        exists|serialized: Result<String, serde_json::Error>|
            {
                &&& #[trigger] listed(serialize, *data, serialized)
                &&& exchange.begins(
                    serialized,
                    writing(*connection, table@, OptionParts::insert_all()),
                )
            },
{
    let options = WriteOptions::new().returning_all();
    assert(options@ =~= OptionParts::insert_all());
    write_one(connection, data, table, &options, serialize)
}

/// Upsert one row. The reply is for [`complete_one`].
///
/// Conflicts resolve on [`SupabaseRow::unique_columns`]; with no unique columns
/// the server falls back to the table's primary key.
pub fn execute_upsert<T, S>(
    connection: &SupabaseConnection,
    data: &T,
    table: &str,
    serialize: S,
) -> (exchange: Exchange<Option<i64>>) where
    T: SupabaseRow,
    S: FnOnce(&[T]) -> Result<String, serde_json::Error>,

    requires
        takes_one(serialize, *data),
    ensures
        exists|serialized: Result<String, serde_json::Error>, options: OptionParts|
            {
                &&& #[trigger] listed(serialize, *data, serialized)
                &&& #[trigger] upserts_for::<T>(options)
                &&& exchange.begins(serialized, writing(*connection, table@, options))
            },
{
    write_one(connection, data, table, &upsert_options::<T>(), serialize)
}

/// Update the row with this primary key. The reply is for [`complete_update`].
pub fn execute_update<T, S>(
    connection: &SupabaseConnection,
    data: &T,
    table: &str,
    primary_key: i64,
    pk_column: &str,
    serialize: S,
) -> (exchange: Exchange<Option<i64>>) where
    T: SupabaseRow,
    S: FnOnce(&T) -> Result<String, serde_json::Error>,

    requires
        call_requires(serialize, (data,)),
    ensures
        exists|serialized: Result<String, serde_json::Error>|
            {
                &&& #[trigger] call_ensures(serialize, (data,), serialized)
                &&& exchange.begins(
                    serialized,
                    updating(*connection, table@, primary_key, pk_column@),
                )
            },
{
    match serialize(data) {
        Ok(json) => Exchange::Send(
            update_request(connection, table, primary_key, pk_column, json.as_str()),
        ),
        Err(err) => Exchange::Done(Err(RequestError::serialization(&err))),
    }
}

/// Updates of rows with different primary keys go to different URLs.
pub proof fn law_update_addresses_its_row(
    connection: SupabaseConnection,
    table: Seq<char>,
    first: i64,
    second: i64,
    pk_column: Seq<char>,
    first_json: Seq<char>,
    second_json: Seq<char>,
)
    ensures
        update_parts(connection, table, first, pk_column, first_json).url == update_parts(
            connection,
            table,
            second,
            pk_column,
            second_json,
        ).url <==> first == second,
{
    let a = key_filter(pk_column, first);
    let b = key_filter(pk_column, second);
    let head = connection.table_address(table) + "?"@ + pk_column + "="@ + "eq."@;
    lemma_key_filter_rendered(pk_column, first);
    lemma_key_filter_rendered(pk_column, second);
    let url_a = connection.query_address(table, a);
    let url_b = connection.query_address(table, b);
    assert(url_a =~= head + crate::text::signed_decimal(first as int));
    assert(url_b =~= head + crate::text::signed_decimal(second as int));
    assert(url_a.skip(head.len() as int) =~= crate::text::signed_decimal(first as int));
    assert(url_b.skip(head.len() as int) =~= crate::text::signed_decimal(second as int));
    crate::text::law_signed_decimal_identifies(first as int, second as int);
}

/// Every request is authorised by the API key, in two headers, and gives up
/// after thirty seconds; only a write names a content type and a preference.
pub proof fn law_every_request_carries_the_key(
    connection: SupabaseConnection,
    table: Seq<char>,
    options: OptionParts,
    query: crate::query::QueryParts,
    primary_key: i64,
    pk_column: Seq<char>,
    json: Seq<char>,
)
    ensures
        ({
            let write = write_parts(connection, table, options, json);
            let update = update_parts(connection, table, primary_key, pk_column, json);
            let select = select_parts(connection, table, query);
            let key = ("apikey"@, connection.api_key@);
            let bearer = ("Authorization"@, "Bearer "@ + connection.api_key@);
            &&& write.headers.contains(key) && write.headers.contains(bearer)
            &&& update.headers.contains(key) && update.headers.contains(bearer)
            &&& select.headers == seq![key, bearer]
            &&& write.headers.contains(("Prefer"@, options.prefer()))
            &&& update.headers.contains(("Prefer"@, "return=minimal"@))
            &&& write.timeout == Some(30u64) && update.timeout == Some(30u64) && select.timeout
                == Some(30u64)
        }),
{
    let write = write_parts(connection, table, options, json);
    let update = update_parts(connection, table, primary_key, pk_column, json);
    assert(write.headers[1] == ("apikey"@, connection.api_key@));
    assert(write.headers[2] == ("Authorization"@, "Bearer "@ + connection.api_key@));
    assert(write.headers[3] == ("Prefer"@, options.prefer()));
    assert(update.headers[1] == ("apikey"@, connection.api_key@));
    assert(update.headers[2] == ("Authorization"@, "Bearer "@ + connection.api_key@));
    assert(update.headers[3] == ("Prefer"@, "return=minimal"@));
}

/// How the filter on a primary key is written.
proof fn lemma_key_filter_rendered(pk_column: Seq<char>, primary_key: i64)
    ensures
        key_filter(pk_column, primary_key) != crate::query::QueryParts::none(),
        key_filter(pk_column, primary_key).rendered() == pk_column + "="@ + ("eq."@
            + crate::text::signed_decimal(primary_key as int)),
{
    let query = key_filter(pk_column, primary_key);
    let all = query.parameters();
    assert(query.filters.len() == 1);
    assert(crate::query::QueryParts::none().filters.len() == 0);
    assert(all.len() == 1);
    assert(all[0] == query.filter_parameters()[0]);
}

/// Whether a sync patches the row that an earlier one inserted.
pub open spec fn patches(
    mode: SaveMode,
    has_primary_key: bool,
    primary_key: Option<i64>,
) -> bool {
    mode == SaveMode::Update && has_primary_key && primary_key is Some
}

/// Whether a sync in this mode, one that patches no row, writes with these
/// options: it inserts in Insert mode and upserts otherwise.
pub open spec fn sync_options<T: SupabaseRow>(mode: SaveMode, options: OptionParts) -> bool {
    if mode == SaveMode::Insert {
        options == OptionParts::insert_all()
    } else {
        upserts_for::<T>(options)
    }
}

/// Start the exchange that `config` calls for, and say whether it inserts.
///
/// `Insert` inserts and `Upsert` upserts. `Update` updates the row with the
/// primary key when there is one, and upserts otherwise. `serialize_list`
/// serializes a list of rows and `serialize_row` a single one. The reply is
/// for [`complete_sync`].
pub fn execute_sync<T, S, U>(
    connection: &SupabaseConnection,
    data: &T,
    config: &SyncConfig,
    has_primary_key: bool,
    primary_key: Option<i64>,
    serialize_list: S,
    serialize_row: U,
) -> (started: (Exchange<Option<i64>>, bool)) where
    T: SupabaseRow,
    S: FnOnce(&[T]) -> Result<String, serde_json::Error>,
    U: FnOnce(&T) -> Result<String, serde_json::Error>,

    requires
        if patches(config.save_mode, has_primary_key, primary_key) {
            call_requires(serialize_row, (data,))
        } else {
            takes_one(serialize_list, *data)
        },
    ensures
        started.1 == !patches(config.save_mode, has_primary_key, primary_key),
        !started.1 ==> exists|
            serialized: Result<String, serde_json::Error>,
            table: Seq<char>,
            column: Seq<char>,
        |
            {
                &&& #[trigger] call_ensures(serialize_row, (data,), serialized)
                &&& #[trigger] config.targets::<T>(table)
                &&& #[trigger] crate::traits::names_key_column::<T>(column)
                &&& started.0.begins(
                    serialized,
                    updating(*connection, table, primary_key->0, column),
                )
            },
        started.1 ==> exists|
            serialized: Result<String, serde_json::Error>,
            table: Seq<char>,
            options: OptionParts,
        |
            {
                &&& #[trigger] listed(serialize_list, *data, serialized)
                &&& #[trigger] config.targets::<T>(table)
                &&& sync_options::<T>(config.save_mode, options)
                &&& started.0.begins(serialized, #[trigger] writing(*connection, table, options))
            },
{
    let table = config.table_for::<T>();
    match config.save_mode {
        SaveMode::Insert => (
            execute_insert(connection, data, table.as_str(), serialize_list),
            true,
        ),
        SaveMode::Upsert => (
            execute_upsert(connection, data, table.as_str(), serialize_list),
            true,
        ),
        SaveMode::Update => match (has_primary_key, primary_key) {
            (true, Some(pk)) => {
                let column = T::primary_key_column();
                assert(crate::traits::names_key_column::<T>(column@));
                (
                    execute_update(connection, data, table.as_str(), pk, column, serialize_row),
                    false,
                )
            },
            _ => (execute_upsert(connection, data, table.as_str(), serialize_list), true),
        },
    }
}

/// Insert several rows. The reply is for [`complete_many`].
pub fn execute_batch_insert<T, S>(
    connection: &SupabaseConnection,
    data: &[T],
    table: &str,
    serialize: S,
) -> (exchange: Exchange<Vec<i64>>) where
    T: SupabaseRow,
    S: FnOnce(&[T]) -> Result<String, serde_json::Error>,

    requires
        data@.len() > 0 ==> call_requires(serialize, (data,)),
    ensures
        data@.len() == 0 ==> exchange is Done && exchange->Done_0 is Ok
            && exchange->Done_0->Ok_0@.len() == 0,
        data@.len() > 0 ==> exists|serialized: Result<String, serde_json::Error>|
            {
                &&& #[trigger] call_ensures(serialize, (data,), serialized)
                &&& exchange.begins(
                    serialized,
                    writing(*connection, table@, OptionParts::insert_all()),
                )
            },
{
    let options = WriteOptions::new().returning_all();
    assert(options@ =~= OptionParts::insert_all());
    write_many(connection, data, table, &options, serialize)
}

/// Upsert several rows. The reply is for [`complete_many`].
///
/// Conflicts resolve on [`SupabaseRow::unique_columns`]; with no unique columns
/// the server falls back to the table's primary key.
pub fn execute_batch_upsert<T, S>(
    connection: &SupabaseConnection,
    data: &[T],
    table: &str,
    serialize: S,
) -> (exchange: Exchange<Vec<i64>>) where
    T: SupabaseRow,
    S: FnOnce(&[T]) -> Result<String, serde_json::Error>,

    requires
        data@.len() > 0 ==> call_requires(serialize, (data,)),
    ensures
        data@.len() == 0 ==> exchange is Done && exchange->Done_0 is Ok
            && exchange->Done_0->Ok_0@.len() == 0,
        data@.len() > 0 ==> exists|
            serialized: Result<String, serde_json::Error>,
            options: OptionParts,
        |
            {
                &&& #[trigger] call_ensures(serialize, (data,), serialized)
                &&& #[trigger] upserts_for::<T>(options)
                &&& exchange.begins(serialized, writing(*connection, table@, options))
            },
{
    write_many(connection, data, table, &upsert_options::<T>(), serialize)
}

/// A table is found below the project's URL, and a query is written behind a
/// question mark, where there is one.
pub proof fn law_addresses_are_built_from_their_parts(
    connection: SupabaseConnection,
    table: Seq<char>,
    query: crate::query::QueryParts,
)
    ensures
        connection.table_address(table) == connection.url@ + "/rest/v1/"@ + table,
        query.rendered().len() == 0 ==> connection.query_address(table, query) == connection.url@
            + "/rest/v1/"@ + table,
        query.rendered().len() > 0 ==> connection.query_address(table, query) == connection.url@
            + "/rest/v1/"@ + table + "?"@ + query.rendered(),
{
    query.law_empty_renders_nothing();
}

/// The `Prefer` header of a write: it asks for merging exactly when conflicts
/// are resolved, which is so when columns are named or merging is asked for,
/// and for the rows exactly when they are wanted.
pub proof fn law_prefer_is_written_out(options: OptionParts)
    ensures
        options.upserts() <==> options.merge || options.on_conflict.len() > 0,
        !options.upserts() && !options.return_rows ==> options.prefer() == "return=minimal"@,
        !options.upserts() && options.return_rows ==> options.prefer()
            == "return=representation"@,
        options.upserts() && !options.return_rows ==> options.prefer()
            == "resolution=merge-duplicates,"@ + "return=minimal"@,
        options.upserts() && options.return_rows ==> options.prefer()
            == "resolution=merge-duplicates,"@ + "return=representation"@,
{
}

/// The query parameters of a write are all its conflict columns and the columns
/// that it returns, and nothing else.
pub proof fn law_write_parameters_are_columns_alone(options: OptionParts)
    ensures
        options.parameters().on_conflict == options.on_conflict,
        options.parameters().select == options.returning,
        options.parameters().filters.len() == 0,
        options.parameters().order.len() == 0,
        options.parameters().limit is None,
{
}

/// Asking for rows, and naming conflict columns, each change what they name and
/// nothing else.
pub proof fn law_options_change_one_by_one(options: OptionParts, columns: Seq<Seq<char>>)
    ensures
        ({
            let asking = options.asking_for_rows();
            let resolving = options.resolving_on(columns);
            &&& asking.return_rows
            &&& asking.on_conflict == options.on_conflict
            &&& asking.merge == options.merge
            &&& asking.returning == options.returning
            &&& resolving.on_conflict == columns
            &&& !resolving.merge
            &&& resolving.return_rows == options.return_rows
            &&& resolving.returning == options.returning
        }),
{
}

/// A plain insert names no columns and asks for nothing back, an insert that
/// reports keys asks for the rows in full, and so does an upsert, which merges
/// on the columns that it is given.
pub proof fn law_inserts_and_upserts_ask_for_this(columns: Seq<Seq<char>>)
    ensures
        OptionParts::insert().on_conflict.len() == 0,
        !OptionParts::insert().merge,
        !OptionParts::insert().return_rows,
        OptionParts::insert().returning is None,
        OptionParts::insert_all().on_conflict.len() == 0,
        !OptionParts::insert_all().merge,
        OptionParts::insert_all().return_rows,
        OptionParts::insert_all().returning is None,
        OptionParts::upsert_all(columns).on_conflict == columns,
        OptionParts::upsert_all(columns).merge,
        OptionParts::upsert_all(columns).return_rows,
        OptionParts::upsert_all(columns).returning is None,
{
}

/// An upsert of a row type resolves conflicts on all columns that the type
/// names as unique, merges, and asks for the rows in full.
pub proof fn law_upsert_resolves_on_every_unique_column<T: SupabaseRow>(options: OptionParts)
    requires
        upserts_for::<T>(options),
    ensures
        exists|names: &'static [&'static str]|
            {
                &&& #[trigger] call_ensures(T::unique_columns, (), names)
                &&& options.on_conflict.len() == names@.len()
                &&& forall|i: int|
                    0 <= i < names@.len() ==> #[trigger] options.on_conflict[i] == names@[i]@
            },
        options.merge,
        options.return_rows,
        options.returning is None,
{
}

/// What a write sends: a POST to its table, whose body reads back as the JSON
/// text.
pub proof fn law_write_sends_the_text(
    connection: SupabaseConnection,
    table: Seq<char>,
    options: OptionParts,
    json: Seq<char>,
)
    ensures
        ({
            let request = write_parts(connection, table, options, json);
            &&& request.method == "POST"@
            &&& vstd::utf8::valid_utf8(request.body)
            &&& vstd::utf8::decode_utf8(request.body) == json
            &&& request.url == connection.query_address(table, options.parameters())
            &&& request.headers.len() == 4
            &&& request.headers[0] == ("Content-Type"@, "application/json"@)
            &&& request.headers[1] == ("apikey"@, connection.api_key@)
            &&& request.headers[2] == ("Authorization"@, "Bearer "@ + connection.api_key@)
            &&& request.headers[3] == ("Prefer"@, options.prefer())
            &&& request.timeout == Some(30u64)
        }),
{
    vstd::utf8::encode_utf8_valid_utf8(json);
    vstd::utf8::encode_utf8_decode_utf8(json);
}

/// What an update sends: a PATCH to the one row with its key, whose body reads
/// back as the JSON text and which asks for nothing back.
pub proof fn law_update_sends_the_text_to_its_row(
    connection: SupabaseConnection,
    table: Seq<char>,
    primary_key: i64,
    pk_column: Seq<char>,
    json: Seq<char>,
)
    ensures
        ({
            let request = update_parts(connection, table, primary_key, pk_column, json);
            &&& request.method == "PATCH"@
            &&& vstd::utf8::valid_utf8(request.body)
            &&& vstd::utf8::decode_utf8(request.body) == json
            &&& request.url == connection.url@ + "/rest/v1/"@ + table + "?"@ + (pk_column + "="@
                + ("eq."@ + crate::text::signed_decimal(primary_key as int)))
            &&& request.headers.len() == 4
            &&& request.headers[0] == ("Content-Type"@, "application/json"@)
            &&& request.headers[1] == ("apikey"@, connection.api_key@)
            &&& request.headers[2] == ("Authorization"@, "Bearer "@ + connection.api_key@)
            &&& request.headers[3] == ("Prefer"@, "return=minimal"@)
            &&& request.timeout == Some(30u64)
        }),
{
    vstd::utf8::encode_utf8_valid_utf8(json);
    vstd::utf8::encode_utf8_decode_utf8(json);
    lemma_key_filter_rendered(pk_column, primary_key);
}

/// What a read sends: a GET of its table with its query, and no body.
pub proof fn law_select_sends_no_body(
    connection: SupabaseConnection,
    table: Seq<char>,
    query: crate::query::QueryParts,
)
    ensures
        ({
            let request = select_parts(connection, table, query);
            &&& request.method == "GET"@
            &&& request.body.len() == 0
            &&& request.url == connection.query_address(table, query)
            &&& request.headers.len() == 2
            &&& request.headers[0] == ("apikey"@, connection.api_key@)
            &&& request.headers[1] == ("Authorization"@, "Bearer "@ + connection.api_key@)
            &&& request.timeout == Some(30u64)
        }),
{
}

/// A request is built exactly when the rows were serialized, and is then the
/// one wanted with their text; otherwise the serializer's error is reported.
pub proof fn law_serialized_rows_are_what_is_sent(
    serialized: Result<String, serde_json::Error>,
    wanted: spec_fn(Seq<char>) -> crate::http::RequestParts,
    built: Result<Request, RequestError>,
)
    requires
        carries(serialized, wanted, built),
    ensures
        built is Ok <==> serialized is Ok,
        serialized matches Ok(json) ==> built->Ok_0@ == wanted(json@),
        serialized matches Err(err) ==> built->Err_0.reports_serialization(err),
{
}

/// An exchange sends its request exactly when the rows were serialized, and
/// otherwise ends at once with the serializer's error. It never ends well
/// without sending.
pub proof fn law_exchange_sends_what_was_serialized<T>(
    exchange: Exchange<T>,
    serialized: Result<String, serde_json::Error>,
    wanted: spec_fn(Seq<char>) -> crate::http::RequestParts,
)
    requires
        exchange.begins(serialized, wanted),
    ensures
        serialized matches Ok(json) ==> exchange is Send && exchange->Send_0@ == wanted(json@),
        serialized matches Err(err) ==> exchange is Done && exchange->Done_0 is Err
            && exchange->Done_0->Err_0.reports_serialization(err),
{
}

/// Requests that write and update differ only in the JSON text that they carry.
pub proof fn law_requests_carry_any_text(
    connection: SupabaseConnection,
    table: Seq<char>,
    options: OptionParts,
    primary_key: i64,
    pk_column: Seq<char>,
    json: Seq<char>,
)
    ensures
        writing(connection, table, options)(json) == write_parts(connection, table, options, json),
        updating(connection, table, primary_key, pk_column)(json) == update_parts(
            connection,
            table,
            primary_key,
            pk_column,
            json,
        ),
{
}

/// A single row is serialized as a list that holds it alone.
pub proof fn law_single_row_is_a_list_of_one<
    T,
    S: FnOnce(&[T]) -> Result<String, serde_json::Error>,
>(serialize: S, data: T, serialized: Result<String, serde_json::Error>)
    requires
        listed(serialize, data, serialized),
    ensures
        exists|rows: &[T]| #[trigger]
            call_ensures(serialize, (rows,), serialized) && rows@.len() == 1 && rows@[0] == data,
{
}

/// A serializer that takes any list takes a single row.
pub proof fn law_single_row_can_be_taken<
    T,
    S: FnOnce(&[T]) -> Result<String, serde_json::Error>,
>(serialize: S, data: T)
    requires
        forall|rows: &[T]| #[trigger] call_requires(serialize, (rows,)),
    ensures
        takes_one(serialize, data),
{
}

/// A sync patches only in Update mode and only with a primary key at hand, and
/// then always. Otherwise it inserts in Insert mode and upserts on the row
/// type's unique columns in the other modes.
pub proof fn law_mode_decides_what_a_sync_does<T: SupabaseRow>(
    mode: SaveMode,
    has_primary_key: bool,
    primary_key: Option<i64>,
    options: OptionParts,
)
    ensures
        mode == SaveMode::Insert ==> !patches(mode, has_primary_key, primary_key),
        mode == SaveMode::Upsert ==> !patches(mode, has_primary_key, primary_key),
        mode == SaveMode::Update ==> (patches(mode, has_primary_key, primary_key)
            <==> has_primary_key && primary_key is Some),
        sync_options::<T>(mode, options) && mode == SaveMode::Insert ==> options
            == OptionParts::insert_all(),
        sync_options::<T>(mode, options) && mode != SaveMode::Insert ==> upserts_for::<T>(options),
{
}

} // verus!
