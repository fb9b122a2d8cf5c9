//! What a sync sends, and what its outcome changes.
//!
//! A [`SyncToSupabase`] event becomes a [`SyncPlan`]: nothing, a patch of the
//! row that an earlier sync inserted, or one write of every row that is not
//! yet on the server. [`SyncPlan::start`] builds the request, and
//! [`SyncPlan::pending`] keeps what [`PendingSync::finish`] needs to turn the
//! reply into a [`SyncOutcome`]. [`apply_outcomes`] brings outcomes into the
//! [`SyncState`] and says what to announce. Between the two the state holds the
//! keys that are under way, so that no row goes out twice.

use crate::config::{SaveMode, SyncConfig};
use crate::error::RequestError;
use crate::event::{SyncComplete, SyncError, SyncToSupabase};
use crate::http::{Request, Response};
use crate::queue::SyncOutcome;
use crate::reply::{complete_update, complete_write_response, first_of, WriteResponse};
use crate::request::{build_write_request, update_request};
use crate::request::{PrimaryKeyResponse, SupabaseConnection, WriteOptions};
use crate::state::SyncState;
use crate::text::IntoText;
use crate::traits::SupabaseRow;
use core::marker::PhantomData;
use vstd::hash_set::StringHashSet;
use vstd::prelude::*;

verus! {

/// The connection and configuration for a row type.
pub struct SupabaseConfig<T: SupabaseRow> {
    /// Connection details (URL and API key).
    pub connection: SupabaseConnection,
    /// Sync configuration (save mode, etc.).
    pub config: SyncConfig,
    /// The row type that is synced.
    pub row_type: PhantomData<T>,
}

impl<T: SupabaseRow> SupabaseConfig<T> {
    /// The write options that this configuration implies for a row type with
    /// these unique columns that asks for `returning` back.
    pub open spec fn options(
        self,
        columns: Seq<Seq<char>>,
        returning: Option<Seq<char>>,
    ) -> crate::request::OptionParts {
        crate::request::OptionParts {
            on_conflict: if self.config.save_mode == SaveMode::Insert {
                Seq::empty()
            } else {
                columns
            },
            merge: self.config.save_mode == SaveMode::Upsert,
            return_rows: returning is Some || self.config.return_representation,
            returning,
        }
    }

    /// Whether `options` are the write options of this configuration, for what
    /// the row type names as its unique columns and asks to have returned.
    pub open spec fn implies(self, options: crate::request::OptionParts) -> bool {
        exists|columns: Seq<Seq<char>>, returning: Option<Seq<char>>|
            {
                &&& self.config.save_mode != SaveMode::Insert
                    ==> crate::traits::names_unique_columns::<T>(columns)
                &&& crate::traits::asks_for::<T>(returning)
                &&& options == #[trigger] self.options(columns, returning)
            }
    }

    /// Whether a sync that writes does so with `options`: those that this
    /// configuration implies, but that Update mode always asks for the written
    /// rows, since it needs the primary key for the patches that follow.
    pub open spec fn writes_with(self, options: crate::request::OptionParts) -> bool {
        exists|implied: crate::request::OptionParts|
            {
                &&& #[trigger] self.implies(implied)
                &&& options == if self.config.save_mode == SaveMode::Update {
                    implied.asking_for_rows()
                } else {
                    implied
                }
            }
    }

    /// A write in Update mode asks for the written rows, whatever the
    /// configuration says of returned rows. In the other modes the configuration
    /// and what the row type asks for decide.
    pub proof fn law_update_asks_for_its_key(self, options: crate::request::OptionParts)
        requires
            self.writes_with(options),
        ensures
            self.config.save_mode == SaveMode::Update ==> options.return_rows,
            self.config.save_mode != SaveMode::Update ==> (options.return_rows
                <==> options.returning is Some || self.config.return_representation),
    {
    }

    /// Insert mode never resolves conflicts, Upsert mode always does, and
    /// Update mode does so when the row type has unique columns.
    pub proof fn law_save_mode_decides_upsert(self, options: crate::request::OptionParts)
        requires
            self.implies(options),
        ensures
            self.config.save_mode == SaveMode::Insert ==> !options.upserts(),
            self.config.save_mode == SaveMode::Upsert ==> options.upserts(),
            self.config.save_mode == SaveMode::Update ==> (options.upserts()
                <==> options.on_conflict.len() > 0),
    {
    }

    /// Create a new config with the given connection and sync settings.
    pub fn new(connection: SupabaseConnection, config: SyncConfig) -> (supabase_config: Self)
        ensures
            supabase_config.connection == connection,
            supabase_config.config == config,
    {
        SupabaseConfig { connection, config, row_type: PhantomData }
    }

    /// The write options this configuration implies for `T`.
    ///
    /// Upserts resolve on [`SupabaseRow::unique_columns`], and the returned
    /// columns come from [`SupabaseRow::returning`].
    pub fn write_options(&self) -> (options: WriteOptions)
        ensures
            self.implies(options@),
    {
        let mut options = WriteOptions::new();
        let ghost mut columns: Seq<Seq<char>> = Seq::empty();
        if self.config.save_mode != SaveMode::Insert {
            let names = T::unique_columns();
            proof {
                columns = crate::text::str_views(names@);
                assert(crate::traits::names_unique_columns::<T>(columns));
            }
            options = options.on_conflict(names);
        }
        if self.config.save_mode == SaveMode::Upsert {
            options = options.merging();
        }
        let returning = T::returning();
        let result = match returning {
            Some(columns) => options.returning(columns),
            None => if self.config.return_representation {
                options.returning_all()
            } else {
                options
            },
        };
        proof {
            let asked = crate::text::optional_str(returning);
            assert(crate::traits::asks_for::<T>(asked));
            assert(result@ =~= self.options(columns, asked));
        }
        result
    }
}

/// The settings with which a row type is registered for syncing.
pub struct SupabasePlugin<T: SupabaseRow> {
    /// Connection details (URL and API key).
    pub connection: SupabaseConnection,
    /// Sync configuration (save mode, etc.).
    pub config: SyncConfig,
    /// The row type that is synced.
    pub row_type: PhantomData<T>,
}

impl<T: SupabaseRow> SupabasePlugin<T> {
    /// Create a new plugin with the given Supabase URL and API key.
    ///
    /// Uses default configuration (Insert mode).
    pub fn new<U: IntoText, K: IntoText>(url: U, api_key: K) -> (plugin: Self)
        ensures
            plugin.connection.url@ == url.text(),
            plugin.connection.api_key@ == api_key.text(),
            plugin.config.save_mode == SaveMode::Insert,
            plugin.config.return_representation,
            plugin.config.table_override is None,
    {
        SupabasePlugin {
            connection: SupabaseConnection::new(url, api_key),
            config: SyncConfig::default(),
            row_type: PhantomData,
        }
    }

    /// Set the save mode for this type.
    #[must_use]
    pub fn with_save_mode(self, mode: SaveMode) -> (plugin: Self)
        ensures
            plugin.connection == self.connection,
            plugin.config == (SyncConfig { save_mode: mode, ..self.config }),
    {
        SupabasePlugin { config: self.config.with_save_mode(mode), ..self }
    }

    /// Set a custom sync configuration.
    #[must_use]
    pub fn with_config(self, config: SyncConfig) -> (plugin: Self)
        ensures
            plugin.connection == self.connection,
            plugin.config == config,
    {
        SupabasePlugin { config, ..self }
    }

    /// Override the table name for this type.
    #[must_use]
    pub fn with_table<S: IntoText>(self, table: S) -> (plugin: Self)
        ensures
            plugin.connection == self.connection,
            plugin.config.save_mode == self.config.save_mode,
            plugin.config.return_representation == self.config.return_representation,
            crate::text::optional_string(plugin.config.table_override) == Some(table.text()),
    {
        SupabasePlugin { config: self.config.with_table(table), ..self }
    }

    /// Set whether to return representation after sync.
    #[must_use]
    pub fn with_return_representation(self, return_repr: bool) -> (plugin: Self)
        ensures
            plugin.connection == self.connection,
            plugin.config == (SyncConfig { return_representation: return_repr, ..self.config }),
    {
        SupabasePlugin { config: self.config.with_return_representation(return_repr), ..self }
    }
}

/// Whether one of the first `n` rows has the sync key `key`.
pub open spec fn named(keys: Seq<Option<String>>, n: int, key: Seq<char>) -> bool {
    exists|j: int| 0 <= j < n && (#[trigger] keys[j]) is Some && keys[j]->0@ == key
}

/// Whether the row at `i` goes out. In Insert mode a row whose key is taken,
/// because it was synced or is under way, would duplicate, and so would one
/// whose key an earlier row of the same event has.
pub open spec fn goes_out(
    mode: SaveMode,
    taken: Set<Seq<char>>,
    keys: Seq<Option<String>>,
    i: int,
) -> bool {
    mode == SaveMode::Insert && keys[i] is Some ==> !taken.contains(keys[i]->0@) && !named(
        keys,
        i,
        keys[i]->0@,
    )
}

/// Those of the first `n` rows that go out, in order.
pub open spec fn rows_out<T>(
    mode: SaveMode,
    taken: Set<Seq<char>>,
    rows: Seq<T>,
    keys: Seq<Option<String>>,
    n: nat,
) -> Seq<T>
    decreases n,
{
    if n == 0 {
        Seq::empty()
    } else {
        let before = rows_out(mode, taken, rows, keys, (n - 1) as nat);
        if goes_out(mode, taken, keys, n - 1) {
            before.push(rows[n - 1])
        } else {
            before
        }
    }
}

/// The sync keys of those of the first `n` rows that go out, in order. A row
/// without a key has none among them.
pub open spec fn keys_out(
    mode: SaveMode,
    taken: Set<Seq<char>>,
    keys: Seq<Option<String>>,
    n: nat,
) -> Seq<Seq<char>>
    decreases n,
{
    if n == 0 {
        Seq::empty()
    } else {
        let before = keys_out(mode, taken, keys, (n - 1) as nat);
        match keys[n - 1] {
            Some(key) => if goes_out(mode, taken, keys, n - 1) {
                before.push(key@)
            } else {
                before
            },
            None => before,
        }
    }
}

/// What a sync sends.
pub enum SyncPlan<'a, T: SupabaseRow> {
    /// Every row is on the server already, or under way to it.
    Nothing,
    /// Update the row with this primary key.
    Patch {
        /// The new row.
        row: &'a T,
        /// The primary key of the row that it replaces.
        primary_key: i64,
        /// The table it belongs to.
        table: String,
        /// The sync keys of the row: one, or none.
        sync_keys: Vec<String>,
    },
    /// Write these rows in one request.
    Write {
        /// The rows.
        rows: Vec<&'a T>,
        /// The table they belong to.
        table: String,
        /// How conflicts are resolved and what is returned.
        options: WriteOptions,
        /// The sync keys of those rows that have one.
        sync_keys: Vec<String>,
    },
}

/// The rows behind a list of references.
pub open spec fn pointees<T>(rows: Seq<&T>) -> Seq<T> {
    rows.map_values(|row: &T| *row)
}

impl<'a, T: SupabaseRow> SyncPlan<'a, T> {
    /// Whether the plan sends exactly `rows`, whose keys are `keys`, as this
    /// configuration wants it for a session whose row has this primary key.
    pub open spec fn sends(
        self,
        config: SupabaseConfig<T>,
        primary_key: Option<i64>,
        rows: Seq<T>,
        keys: Seq<Seq<char>>,
    ) -> bool {
        if rows.len() == 0 {
            self is Nothing
        } else if config.config.save_mode == SaveMode::Update && primary_key is Some && rows.len()
            == 1 {
            &&& self matches SyncPlan::Patch { row, primary_key: pk, table, sync_keys }
            &&& *row == rows[0]
            &&& pk == primary_key->0
            &&& config.config.targets::<T>(table@)
            &&& crate::text::views(sync_keys@) == keys
        } else {
            &&& self matches SyncPlan::Write { rows: written, table, options, sync_keys }
            &&& pointees(written@) == rows
            &&& config.config.targets::<T>(table@)
            &&& config.writes_with(options@)
            &&& crate::text::views(sync_keys@) == keys
        }
    }
}

impl<'a, T: SupabaseRow> SyncPlan<'a, T> {
    /// Whether `serialize_list` and `serialize_row` take what the plan sends.
    pub open spec fn serializable<S, U>(self, serialize_list: S, serialize_row: U) -> bool where
        S: FnOnce(&[&'a T]) -> Result<String, serde_json::Error>,
        U: FnOnce(&T) -> Result<String, serde_json::Error>,
     {
        match self {
            SyncPlan::Nothing => true,
            SyncPlan::Patch { row, .. } => call_requires(serialize_row, (row,)),
            SyncPlan::Write { rows, .. } => forall|list: &[&'a T]|
                list@ == rows@ ==> #[trigger] call_requires(serialize_list, (list,)),
        }
    }

    /// The request that the plan begins with, none when it sends nothing.
    ///
    /// `serialize_list` serializes a list of rows and `serialize_row` a single
    /// one. When it fails, its error is reported.
    pub fn start<S, U>(
        &self,
        connection: &SupabaseConnection,
        serialize_list: S,
        serialize_row: U,
    ) -> (request: Option<Result<Request, RequestError>>) where
        S: FnOnce(&[&'a T]) -> Result<String, serde_json::Error>,
        U: FnOnce(&T) -> Result<String, serde_json::Error>,

        requires
            self.serializable(serialize_list, serialize_row),
        ensures
            request is None <==> self is Nothing,
            self matches SyncPlan::Patch { row, primary_key, table, sync_keys } ==> exists|
                serialized: Result<String, serde_json::Error>,
                column: Seq<char>,
            |
                {
                    &&& #[trigger] call_ensures(serialize_row, (row,), serialized)
                    &&& #[trigger] crate::traits::names_key_column::<T>(column)
                    &&& crate::request::carries(
                        serialized,
                        crate::request::updating(*connection, table@, *primary_key, column),
                        request->0,
                    )
                },
            self matches SyncPlan::Write { rows, table, options, sync_keys } ==> exists|
                list: &[&'a T],
                serialized: Result<String, serde_json::Error>,
            |
                {
                    &&& list@ == rows@
                    &&& #[trigger] call_ensures(serialize_list, (list,), serialized)
                    &&& crate::request::carries(
                        serialized,
                        crate::request::writing(*connection, table@, options@),
                        request->0,
                    )
                },
    {
        match self {
            SyncPlan::Nothing => None,
            SyncPlan::Patch { row, primary_key, table, sync_keys: _ } => {
                let column = T::primary_key_column();
                assert(crate::traits::names_key_column::<T>(column@));
                match serialize_row(row) {
                    Ok(json) => Some(
                        Ok(
                            update_request(
                                connection,
                                table.as_str(),
                                *primary_key,
                                column,
                                json.as_str(),
                            ),
                        ),
                    ),
                    Err(err) => Some(Err(RequestError::serialization(&err))),
                }
            },
            SyncPlan::Write { rows, table, options, sync_keys: _ } => {
                let list = rows.as_slice();
                Some(build_write_request(connection, list, table.as_str(), options, serialize_list))
            },
        }
    }

    /// What has to be kept until the reply to the plan's request comes.
    pub fn pending(self) -> (pending: PendingSync)
        ensures
            self is Nothing ==> pending.patched is None && !pending.asked_for_rows
                && pending.sync_keys@.len() == 0,
            self matches SyncPlan::Patch { row, primary_key, table, sync_keys } ==> {
                &&& pending.patched == Some(primary_key)
                &&& !pending.asked_for_rows
                &&& pending.sync_keys == sync_keys
            },
            self matches SyncPlan::Write { rows, table, options, sync_keys } ==> {
                &&& pending.patched is None
                &&& pending.asked_for_rows == options@.return_rows
                &&& pending.sync_keys == sync_keys
            },
    {
        match self {
            SyncPlan::Nothing => PendingSync {
                patched: None,
                asked_for_rows: false,
                sync_keys: Vec::new(),
            },
            SyncPlan::Patch { row: _, primary_key, table: _, sync_keys } => PendingSync {
                patched: Some(primary_key),
                asked_for_rows: false,
                sync_keys,
            },
            SyncPlan::Write { rows: _, table: _, options, sync_keys } => PendingSync {
                patched: None,
                asked_for_rows: options.returns_rows(),
                sync_keys,
            },
        }
    }
}

/// A sync whose request is under way.
#[derive(Debug)]
pub struct PendingSync {
    /// The primary key of the row that is updated, when one is.
    pub patched: Option<i64>,
    /// Whether the server was asked to send the written rows back.
    pub asked_for_rows: bool,
    /// The sync keys of the rows that were sent.
    pub sync_keys: Vec<String>,
}

/// The outcome of updating a row: on success its primary key stands, whatever
/// the reply carried.
pub fn patch_outcome<T: SupabaseRow>(
    result: Result<Option<i64>, RequestError>,
    primary_key: i64,
    sync_keys: Vec<String>,
) -> (outcome: SyncOutcome<T>)
    ensures
        match result {
            Ok(_) => {
                &&& outcome matches SyncOutcome::Success {
                    rows,
                    primary_keys,
                    was_insert,
                    status,
                    sync_keys: keys,
                }
                &&& rows@.len() == 0
                &&& primary_keys@ == seq![primary_key]
                &&& !was_insert
                &&& status == 200
                &&& keys == sync_keys
            },
            Err(error) => outcome == (SyncOutcome::<T>::Failure { error, sync_keys }),
        },
{
    match result {
        Ok(_) => {
            let mut primary_keys: Vec<i64> = Vec::new();
            primary_keys.push(primary_key);
            assert(primary_keys@ =~= seq![primary_key]);
            SyncOutcome::Success {
                rows: Vec::new(),
                primary_keys,
                was_insert: false,
                status: 200,
                sync_keys,
            }
        },
        Err(error) => SyncOutcome::Failure { error, sync_keys },
    }
}

/// The outcome of writing rows.
pub fn write_outcome<T: SupabaseRow>(
    result: Result<WriteResponse<T::Response>, RequestError>,
    sync_keys: Vec<String>,
) -> (outcome: SyncOutcome<T>)
    ensures
        match result {
            Ok(response) => outcome == (SyncOutcome::<T>::Success {
                rows: response.rows,
                primary_keys: response.primary_keys,
                was_insert: true,
                status: response.status,
                sync_keys,
            }),
            Err(error) => outcome == (SyncOutcome::<T>::Failure { error, sync_keys }),
        },
{
    match result {
        Ok(response) => SyncOutcome::Success {
            rows: response.rows,
            primary_keys: response.primary_keys,
            was_insert: true,
            status: response.status,
            sync_keys,
        },
        Err(error) => SyncOutcome::Failure { error, sync_keys },
    }
}

impl PendingSync {
    /// Whether `outcome` is what a response that tells of success comes to.
    pub open spec fn succeeds<T: SupabaseRow, P, Q>(
        self,
        response: Response,
        parse_rows: P,
        parse_keys: Q,
        outcome: SyncOutcome<T>,
    ) -> bool where
        P: FnOnce(&str) -> Result<Vec<T::Response>, serde_json::Error>,
        Q: FnOnce(&str) -> Result<Vec<PrimaryKeyResponse>, serde_json::Error>,
     {
        match self.patched {
            Some(primary_key) => {
                &&& outcome matches SyncOutcome::Success {
                    rows,
                    primary_keys,
                    was_insert,
                    status,
                    sync_keys,
                }
                &&& rows@.len() == 0
                &&& primary_keys@ == seq![primary_key]
                &&& !was_insert
                &&& status == 200
                &&& sync_keys == self.sync_keys
            },
            None => if self.asked_for_rows {
                exists|read: Result<Vec<T::Response>, RequestError>|
                    {
                        &&& #[trigger] crate::reply::rows_read(parse_rows, response, read)
                        &&& match read {
                            Ok(rows_read) => {
                                &&& outcome matches SyncOutcome::Success {
                                    rows,
                                    primary_keys,
                                    was_insert,
                                    status,
                                    sync_keys,
                                }
                                &&& rows == rows_read
                                &&& crate::reply::keys_read(parse_keys, response, primary_keys@)
                                &&& was_insert
                                &&& status == response.status
                                &&& sync_keys == self.sync_keys
                            },
                            Err(error) => outcome == (SyncOutcome::<T>::Failure {
                                error,
                                sync_keys: self.sync_keys,
                            }),
                        }
                    }
            } else {
                &&& outcome matches SyncOutcome::Success {
                    rows,
                    primary_keys,
                    was_insert,
                    status,
                    sync_keys,
                }
                &&& rows@.len() == 0
                &&& primary_keys@.len() == 0
                &&& was_insert
                &&& status == response.status
                &&& sync_keys == self.sync_keys
            },
        }
    }

    /// The outcome of the sync when its request could not be built.
    pub fn fail<T: SupabaseRow>(self, error: RequestError) -> (outcome: SyncOutcome<T>)
        ensures
            outcome == (SyncOutcome::<T>::Failure { error, sync_keys: self.sync_keys }),
    {
        SyncOutcome::Failure { error, sync_keys: self.sync_keys }
    }

    /// The outcome of the sync, from the reply to its request.
    pub fn finish<T: SupabaseRow, P, Q>(
        self,
        reply: Result<Response, String>,
        parse_rows: P,
        parse_keys: Q,
    ) -> (outcome: SyncOutcome<T>) where
        P: FnOnce(&str) -> Result<Vec<T::Response>, serde_json::Error>,
        Q: FnOnce(&str) -> Result<Vec<PrimaryKeyResponse>, serde_json::Error>,

        requires
            self.patched is None && self.asked_for_rows ==> crate::reply::takes_reply(
                parse_rows,
                reply,
            ) && crate::reply::takes_reply(parse_keys, reply),
        ensures
            match crate::reply::checked(reply) {
                Ok(response) => self.succeeds(response, parse_rows, parse_keys, outcome),
                Err(failure) => {
                    &&& outcome matches SyncOutcome::Failure { error, sync_keys }
                    &&& error@ == failure
                    &&& sync_keys == self.sync_keys
                },
            },
    {
        match self.patched {
            Some(primary_key) => patch_outcome(
                complete_update(reply),
                primary_key,
                self.sync_keys,
            ),
            None => {
                let result = complete_write_response(
                    reply,
                    self.asked_for_rows,
                    parse_rows,
                    parse_keys,
                );
                write_outcome(result, self.sync_keys)
            },
        }
    }
}

/// Whether `keys` are the sync keys of the rows of an event.
pub open spec fn keys_of_rows<T: SupabaseRow>(
    event: SyncToSupabase<T>,
    keys: Seq<Option<String>>,
) -> bool {
    &&& keys.len() == event.rows@.len()
    &&& forall|i: int| 0 <= i < keys.len() ==> event.has_key(i, #[trigger] keys[i])
}

/// Whether `plan` is what this configuration makes of an event whose rows have
/// these sync keys, in a session whose state is `state`.
pub open spec fn plans<T: SupabaseRow>(
    event: SyncToSupabase<T>,
    config: SupabaseConfig<T>,
    state: crate::state::StateParts,
    keys: Seq<Option<String>>,
    plan: SyncPlan<T>,
) -> bool {
    let mode = config.config.save_mode;
    &&& keys_of_rows(event, keys)
    &&& plan.sends(
        config,
        state.primary_key,
        rows_out(mode, state.taken(), event.rows@, keys, event.rows@.len()),
        keys_out(mode, state.taken(), keys, event.rows@.len()),
    )
}

/// Decide what a sync event sends, and record in the state that it is under
/// way.
///
/// In Insert mode, rows whose key was synced before or is under way are left
/// out, and of several rows with one key only the first goes out. In Update
/// mode one row is kept per session: it is inserted once and then patched.
/// Everything else is one write.
///
/// The outcome has to be brought back by [`apply_outcomes`], of a failure too,
/// for its keys to go out again.
pub fn plan_sync<'a, T: SupabaseRow>(
    event: &'a SyncToSupabase<T>,
    config: &SupabaseConfig<T>,
    state: Option<&mut SyncState<T>>,
) -> (plan: SyncPlan<'a, T>)
    ensures
        match state {
            Some(state) => exists|keys: Seq<Option<String>>|
                {
                    &&& #[trigger] plans(*event, *config, (*state)@, keys, plan)
                    &&& final(state)@ == (*state)@.launched(
                        keys_out(
                            config.config.save_mode,
                            (*state)@.taken(),
                            keys,
                            event.rows@.len(),
                        ),
                    )
                },
            None => exists|keys: Seq<Option<String>>| #[trigger]
                plans(*event, *config, crate::state::StateParts::blank(), keys, plan),
        },
{
    match state {
        Some(state) => {
            let plan = plan_rows(event, config, Some(&*state));
            let ghost before = state@;
            let ghost keys = choose|keys: Seq<Option<String>>| #[trigger]
                plans(*event, *config, before, keys, plan);
            let ghost mode = config.config.save_mode;
            proof {
                lemma_no_rows_no_keys(
                    mode,
                    before.taken(),
                    event.rows@,
                    keys,
                    event.rows@.len(),
                );
            }
            match &plan {
                SyncPlan::Nothing => {
                    proof {
                        let none = keys_out(mode, before.taken(), keys, event.rows@.len());
                        assert(none =~= Seq::empty());
                        assert(before.launched(none) =~= before);
                    }
                },
                SyncPlan::Patch { row: _, primary_key: _, table: _, sync_keys } => {
                    state.launch(sync_keys.as_slice());
                },
                SyncPlan::Write { rows: _, table: _, options: _, sync_keys } => {
                    state.launch(sync_keys.as_slice());
                },
            }
            assert(plans(*event, *config, before, keys, plan));
            plan
        },
        None => plan_rows(event, config, None),
    }
}

/// Where no row goes out, no key does.
proof fn lemma_no_rows_no_keys<T>(
    mode: SaveMode,
    taken: Set<Seq<char>>,
    rows: Seq<T>,
    keys: Seq<Option<String>>,
    n: nat,
)
    ensures
        rows_out(mode, taken, rows, keys, n).len() == 0 ==> keys_out(mode, taken, keys, n).len()
            == 0,
    decreases n,
{
    if n > 0 {
        lemma_no_rows_no_keys(mode, taken, rows, keys, (n - 1) as nat);
    }
}

/// The parts of a state that decide what goes out: those of a new one when
/// there is none.
pub open spec fn parts_of<T: SupabaseRow>(
    state: Option<&SyncState<T>>,
) -> crate::state::StateParts {
    match state {
        Some(state) => state@,
        None => crate::state::StateParts::blank(),
    }
}

/// What a sync event sends.
fn plan_rows<'a, T: SupabaseRow>(
    event: &'a SyncToSupabase<T>,
    config: &SupabaseConfig<T>,
    state: Option<&SyncState<T>>,
) -> (plan: SyncPlan<'a, T>)
    ensures
        exists|keys: Seq<Option<String>>| #[trigger]
            plans(*event, *config, parts_of(state), keys, plan),
{
    let mode = config.config.save_mode;
    let mut rows: Vec<&'a T> = Vec::new();
    let mut sync_keys: Vec<String> = Vec::new();
    let mut seen = StringHashSet::new();
    let ghost mut keys: Seq<Option<String>> = Seq::empty();
    let ghost taken = parts_of(state).taken();
    for index in 0..event.rows.len()
        invariant
            mode == config.config.save_mode,
            taken == parts_of(state).taken(),
            keys.len() == index,
            forall|i: int| 0 <= i < keys.len() ==> event.has_key(i, #[trigger] keys[i]),
            forall|key: Seq<char>| #[trigger]
                seen@.contains(key) <==> named(keys, index as int, key),
            pointees(rows@) == rows_out(mode, taken, event.rows@, keys, index as nat),
            crate::text::views(sync_keys@) == keys_out(mode, taken, keys, index as nat),
    {
        let ghost earlier = keys;
        let ghost i = index as int;
        let key = event.effective_sync_key(index);
        proof {
            keys = keys.push(key);
            assert forall|k: Seq<char>| named(earlier, i, k) == #[trigger] named(keys, i, k) by {
                lemma_named_ignores_later(earlier, keys, i, k);
            }
            lemma_out_ignores_later(mode, taken, event.rows@, earlier, keys, index as nat);
        }
        let duplicates = match &key {
            Some(key) => mode == SaveMode::Insert && (seen.contains(key.as_str()) || match state {
                Some(state) => state.is_synced(key.as_str()) || state.is_in_flight(key.as_str()),
                None => false,
            }),
            None => false,
        };
        assert(duplicates == !goes_out(mode, taken, keys, i));
        if let Some(key) = &key {
            seen.insert(key.clone());
        }
        assert forall|k: Seq<char>| #[trigger] seen@.contains(k) <==> named(keys, i + 1, k) by {
            lemma_named_grows(keys, i, k);
        }
        if !duplicates {
            let ghost rows_before = rows@;
            let ghost keys_before = sync_keys@;
            let row = &event.rows[index];
            rows.push(row);
            assert(pointees(rows@) =~= pointees(rows_before).push(*row));
            if let Some(key) = key {
                sync_keys.push(key);
                assert(crate::text::views(sync_keys@) =~= crate::text::views(keys_before).push(
                    key@,
                ));
            }
        }
    }
    assert(keys_of_rows(*event, keys));
    let primary_key = match state {
        Some(state) => state.primary_key(),
        None => None,
    };
    let ghost before = parts_of(state);
    if rows.len() == 0 {
        let plan = SyncPlan::Nothing;
        assert(plans(*event, *config, before, keys, plan));
        return plan;
    }
    let table = config.config.table_for::<T>();
    if mode == SaveMode::Update && rows.len() == 1 {
        if let Some(primary_key) = primary_key {
            let row = rows[0];
            assert(*row == pointees(rows@)[0]);
            let plan = SyncPlan::Patch { row, primary_key, table, sync_keys };
            assert(plans(*event, *config, before, keys, plan));
            return plan;
        }
    }
    let implied = config.write_options();
    let ghost asked = implied@;
    let options = if mode == SaveMode::Update {
        implied.requesting_rows()
    } else {
        implied
    };
    assert(config.implies(asked));
    let plan = SyncPlan::Write { rows, table, options, sync_keys };
    assert(plans(*event, *config, before, keys, plan));
    plan
}

/// Whether a key is named by the first rows does not depend on later keys.
proof fn lemma_named_ignores_later(
    earlier: Seq<Option<String>>,
    later: Seq<Option<String>>,
    n: int,
    key: Seq<char>,
)
    requires
        n <= earlier.len() <= later.len(),
        forall|i: int| 0 <= i < n ==> earlier[i] == later[i],
    ensures
        named(earlier, n, key) == named(later, n, key),
{
    if named(earlier, n, key) {
        let j = choose|j: int|
            0 <= j < n && (#[trigger] earlier[j]) is Some && earlier[j]->0@ == key;
        assert(later[j] is Some && later[j]->0@ == key);
    }
    if named(later, n, key) {
        let j = choose|j: int| 0 <= j < n && (#[trigger] later[j]) is Some && later[j]->0@ == key;
        assert(earlier[j] is Some && earlier[j]->0@ == key);
    }
}

/// One more row names its own key.
proof fn lemma_named_grows(keys: Seq<Option<String>>, n: int, key: Seq<char>)
    requires
        0 <= n < keys.len(),
    ensures
        named(keys, n + 1, key) <==> named(keys, n, key) || keys[n] is Some && keys[n]->0@ == key,
{
    if named(keys, n, key) {
        let j = choose|j: int| 0 <= j < n && (#[trigger] keys[j]) is Some && keys[j]->0@ == key;
        assert(keys[j] is Some && keys[j]->0@ == key);
    }
}

/// What goes out of the first `n` rows does not depend on later keys.
proof fn lemma_out_ignores_later<T>(
    mode: SaveMode,
    taken: Set<Seq<char>>,
    rows: Seq<T>,
    earlier: Seq<Option<String>>,
    later: Seq<Option<String>>,
    n: nat,
)
    requires
        n <= earlier.len() <= later.len(),
        forall|i: int| 0 <= i < n ==> earlier[i] == later[i],
    ensures
        rows_out(mode, taken, rows, earlier, n) == rows_out(mode, taken, rows, later, n),
        keys_out(mode, taken, earlier, n) == keys_out(mode, taken, later, n),
    decreases n,
{
    if n > 0 {
        lemma_out_ignores_later(mode, taken, rows, earlier, later, (n - 1) as nat);
        if earlier[n - 1] is Some {
            lemma_named_ignores_later(earlier, later, n - 1, earlier[n - 1]->0@);
        }
    }
}

/// In Insert mode the keys that go out are exactly those that the rows have and
/// that are not taken, each of them once: no key goes out that was synced or is
/// under way, and none twice.
pub proof fn law_new_keys_go_out_once(taken: Set<Seq<char>>, keys: Seq<Option<String>>, n: nat)
    requires
        n <= keys.len(),
    ensures
        keys_out(SaveMode::Insert, taken, keys, n).no_duplicates(),
        forall|key: Seq<char>| #[trigger]
            keys_out(SaveMode::Insert, taken, keys, n).contains(key) <==> named(
                keys,
                n as int,
                key,
            ) && !taken.contains(key),
    decreases n,
{
    let all = keys_out(SaveMode::Insert, taken, keys, n);
    if n > 0 {
        let m = (n - 1) as nat;
        let before = keys_out(SaveMode::Insert, taken, keys, m);
        law_new_keys_go_out_once(taken, keys, m);
        assert forall|key: Seq<char>| #[trigger] all.contains(key) <==> named(keys, n as int, key)
            && !taken.contains(key) by {
            lemma_named_grows(keys, m as int, key);
            if before.contains(key) {
                let i = choose|i: int| 0 <= i < before.len() && before[i] == key;
                assert(all[i] == key);
            }
            if all.contains(key) && !before.contains(key) {
                let i = choose|i: int| 0 <= i < all.len() && all[i] == key;
                if i < before.len() {
                    assert(before[i] == key);
                }
            }
            if keys[m as int] is Some && goes_out(SaveMode::Insert, taken, keys, m as int) {
                assert(all.last() == keys[m as int]->0@);
            }
        }
        if keys[m as int] is Some && goes_out(SaveMode::Insert, taken, keys, m as int) {
            let key = keys[m as int]->0@;
            assert(!before.contains(key));
            assert(all =~= before.push(key));
        }
    }
}

/// In Update and Upsert mode every row goes out, in order.
pub proof fn law_other_modes_send_every_row<T>(
    mode: SaveMode,
    taken: Set<Seq<char>>,
    rows: Seq<T>,
    keys: Seq<Option<String>>,
    n: nat,
)
    requires
        mode != SaveMode::Insert,
        n <= rows.len(),
        rows.len() == keys.len(),
    ensures
        rows_out(mode, taken, rows, keys, n) == rows.take(n as int),
    decreases n,
{
    if n > 0 {
        law_other_modes_send_every_row(mode, taken, rows, keys, (n - 1) as nat);
        assert(rows.take(n as int) =~= rows.take(n - 1).push(rows[n - 1]));
    } else {
        assert(rows.take(0) =~= Seq::empty());
    }
}

/// Once an insert of a list of rows with keys has succeeded, the whole list can
/// be sent again: of a longer list only rows past its end go out.
pub proof fn law_resent_list_sends_only_what_is_new<T: SupabaseRow>(
    state: crate::state::StateParts,
    rows: Seq<T>,
    keys: Seq<Option<String>>,
    outcome: SyncOutcome<T>,
    more_rows: Seq<T>,
    more_keys: Seq<Option<String>>,
)
    requires
        rows.len() == keys.len(),
        more_rows.len() == more_keys.len(),
        forall|i: int| 0 <= i < keys.len() ==> (#[trigger] keys[i]) is Some,
        outcome is Success,
        outcome_keys(outcome) == keys_out(SaveMode::Insert, state.taken(), keys, keys.len()),
    ensures
        ({
            let after = applied(state.launched(outcome_keys(outcome)), outcome);
            rows_out(
                SaveMode::Insert,
                after.taken(),
                rows + more_rows,
                keys + more_keys,
                rows.len() + more_rows.len(),
            ) == rows_out(
                SaveMode::Insert,
                after.taken(),
                more_rows,
                more_keys,
                more_rows.len(),
            )
        }),
{
    let sent = keys_out(SaveMode::Insert, state.taken(), keys, keys.len());
    let launched = state.launched(sent);
    let after = applied(launched, outcome);
    law_new_keys_go_out_once(state.taken(), keys, keys.len());
    assert forall|i: int| 0 <= i < keys.len() implies after.taken().contains(
        (#[trigger] keys[i])->0@,
    ) by {
        let key = keys[i]->0@;
        assert(named(keys, keys.len() as int, key));
        law_outcome_settles_its_keys(launched, outcome, key);
        assert(sent.contains(key) || state.taken().contains(key));
    }
    lemma_only_tail_goes_out(after.taken(), rows, keys, more_rows, more_keys, more_rows.len());
}

/// A request that failed leaves no trace on what goes out: in Insert mode the
/// state is as it was before the request was planned, so the same rows go out
/// again.
pub proof fn law_failed_rows_can_go_out_again<T: SupabaseRow>(
    state: crate::state::StateParts,
    keys: Seq<Option<String>>,
    outcome: SyncOutcome<T>,
)
    requires
        outcome is Failure,
        outcome_keys(outcome) == keys_out(SaveMode::Insert, state.taken(), keys, keys.len()),
    ensures
        applied(state.launched(outcome_keys(outcome)), outcome) == state,
{
    let sent = outcome_keys(outcome);
    law_new_keys_go_out_once(state.taken(), keys, keys.len());
    assert forall|i: int| 0 <= i < sent.len() implies !state.in_flight_keys.contains(
        #[trigger] sent[i],
    ) by {
        assert(sent.contains(sent[i]));
    }
    state.law_release_undoes_launch(sent);
}

/// After rows whose keys are all taken, what goes out is what goes out of the
/// rows that follow.
proof fn lemma_only_tail_goes_out<T>(
    taken: Set<Seq<char>>,
    rows: Seq<T>,
    keys: Seq<Option<String>>,
    more_rows: Seq<T>,
    more_keys: Seq<Option<String>>,
    n: nat,
)
    requires
        rows.len() == keys.len(),
        n <= more_rows.len(),
        more_rows.len() == more_keys.len(),
        forall|i: int|
            0 <= i < keys.len() ==> (#[trigger] keys[i]) is Some && taken.contains(keys[i]->0@),
    ensures
        rows_out(
            SaveMode::Insert,
            taken,
            rows + more_rows,
            keys + more_keys,
            rows.len() + n,
        ) == rows_out(SaveMode::Insert, taken, more_rows, more_keys, n),
    decreases rows.len() + n,
{
    if n > 0 {
        lemma_only_tail_goes_out(taken, rows, keys, more_rows, more_keys, (n - 1) as nat);
        assert((rows + more_rows)[rows.len() + n - 1] == more_rows[n - 1]);
        assert((keys + more_keys)[rows.len() + n - 1] == more_keys[n - 1]);
        if more_keys[n - 1] is Some {
            lemma_named_in_two_parts(keys, more_keys, n - 1, more_keys[n - 1]->0@);
        }
    } else {
        lemma_taken_rows_stay(taken, rows + more_rows, keys + more_keys, rows.len());
    }
}

/// Of rows whose keys are all taken none goes out.
proof fn lemma_taken_rows_stay<T>(
    taken: Set<Seq<char>>,
    rows: Seq<T>,
    keys: Seq<Option<String>>,
    n: nat,
)
    requires
        n <= keys.len(),
        forall|i: int|
            0 <= i < n ==> (#[trigger] keys[i]) is Some && taken.contains(keys[i]->0@),
    ensures
        rows_out(SaveMode::Insert, taken, rows, keys, n) == Seq::<T>::empty(),
    decreases n,
{
    if n > 0 {
        lemma_taken_rows_stay(taken, rows, keys, (n - 1) as nat);
    }
}

/// A key that the rows of two lists have is had by one of the first or one of
/// the second.
proof fn lemma_named_in_two_parts(
    keys: Seq<Option<String>>,
    more_keys: Seq<Option<String>>,
    n: int,
    key: Seq<char>,
)
    requires
        0 <= n <= more_keys.len(),
    ensures
        named(keys + more_keys, keys.len() + n, key) <==> named(keys, keys.len() as int, key)
            || named(more_keys, n, key),
{
    let all = keys + more_keys;
    if named(all, keys.len() + n, key) {
        let j = choose|j: int|
            0 <= j < keys.len() + n && (#[trigger] all[j]) is Some && all[j]->0@ == key;
        if j < keys.len() {
            assert(keys[j] is Some && keys[j]->0@ == key);
        } else {
            assert(more_keys[j - keys.len()] is Some && more_keys[j - keys.len()]->0@ == key);
        }
    }
    if named(keys, keys.len() as int, key) {
        let j = choose|j: int|
            0 <= j < keys.len() && (#[trigger] keys[j]) is Some && keys[j]->0@ == key;
        assert(all[j] is Some && all[j]->0@ == key);
    }
    if named(more_keys, n, key) {
        let j = choose|j: int|
            0 <= j < n && (#[trigger] more_keys[j]) is Some && more_keys[j]->0@ == key;
        assert(all[keys.len() + j] is Some && all[keys.len() + j]->0@ == key);
    }
}

/// What to announce of an outcome.
pub enum SyncNotice<T: SupabaseRow> {
    /// The sync completed.
    Complete(SyncComplete<T>),
    /// The sync failed.
    Error(SyncError<T>),
}

/// How many syncs an outcome counts for: one for each key of a success, one
/// for a success without keys, none for a failure.
pub open spec fn weight<T: SupabaseRow>(outcome: SyncOutcome<T>) -> nat {
    match outcome {
        SyncOutcome::Success { sync_keys, .. } => if sync_keys@.len() == 0 {
            1
        } else {
            sync_keys@.len()
        },
        SyncOutcome::Failure { .. } => 0,
    }
}

/// How many syncs a list of outcomes counts for.
pub open spec fn total_weight<T: SupabaseRow>(outcomes: Seq<SyncOutcome<T>>) -> nat
    decreases outcomes.len(),
{
    if outcomes.len() == 0 {
        0
    } else {
        total_weight(outcomes.drop_last()) + weight(outcomes.last())
    }
}

/// The sync keys of the rows that an outcome is about.
pub open spec fn outcome_keys<T: SupabaseRow>(outcome: SyncOutcome<T>) -> Seq<Seq<char>> {
    match outcome {
        SyncOutcome::Success { sync_keys, .. } => crate::text::views(sync_keys@),
        SyncOutcome::Failure { sync_keys, .. } => crate::text::views(sync_keys@),
    }
}

/// The state once rows were written, of which these primary keys came back.
pub open spec fn settled(
    state: crate::state::StateParts,
    was_insert: bool,
    primary_keys: Seq<i64>,
) -> crate::state::StateParts {
    if !was_insert {
        state
    } else if primary_keys.len() > 0 {
        state.inserted_as(primary_keys[0])
    } else {
        state.inserted()
    }
}

/// The state once an outcome has come in. Its keys are not under way any more.
/// A success of an insert settles the primary key, when one came back; any
/// success marks its keys as synced. A failure changes nothing else.
pub open spec fn applied<T: SupabaseRow>(
    state: crate::state::StateParts,
    outcome: SyncOutcome<T>,
) -> crate::state::StateParts {
    let answered = state.released(outcome_keys(outcome));
    match outcome {
        SyncOutcome::Success { primary_keys, was_insert, sync_keys, .. } => {
            let written = settled(answered, was_insert, primary_keys@);
            if sync_keys@.len() == 0 {
                written.counted()
            } else {
                written.marked_each(outcome_keys(outcome), sync_keys@.len())
            }
        },
        SyncOutcome::Failure { .. } => answered,
    }
}

/// The state once a list of outcomes has come in, one after the other.
pub open spec fn applied_all<T: SupabaseRow>(
    state: crate::state::StateParts,
    outcomes: Seq<SyncOutcome<T>>,
) -> crate::state::StateParts
    decreases outcomes.len(),
{
    if outcomes.len() == 0 {
        state
    } else {
        applied(applied_all(state, outcomes.drop_last()), outcomes.last())
    }
}

impl<T: SupabaseRow> SyncNotice<T> {
    /// Whether this announces an outcome: what a success brought, or why it
    /// failed. An error without a response has neither status nor body.
    pub open spec fn announces(self, outcome: SyncOutcome<T>) -> bool {
        match outcome {
            SyncOutcome::Success { rows, primary_keys, was_insert, status, .. } => self
                == SyncNotice::<T>::Complete(
                SyncComplete { rows, primary_keys, was_insert, status },
            ),
            SyncOutcome::Failure { error, .. } => {
                &&& self is Error
                &&& self->Error_0@ == (crate::error::Failure {
                    body: if error.status is Some {
                        error@.body
                    } else {
                        None
                    },
                    ..error@
                })
            },
        }
    }
}

/// Bring one outcome into the state, and say what to announce.
pub fn apply_outcome<T: SupabaseRow>(state: &mut SyncState<T>, outcome: SyncOutcome<T>) -> (notice:
    SyncNotice<T>)
    requires
        old(state)@.sync_count + weight(outcome) <= u32::MAX,
    ensures
        final(state)@ == applied(old(state)@, outcome),
        notice.announces(outcome),
{
    match outcome {
        SyncOutcome::Success { rows, primary_keys, was_insert, status, sync_keys } => {
            state.release(sync_keys.as_slice());
            if was_insert {
                match first_of(&primary_keys) {
                    Some(pk) => state.set_primary_key(pk),
                    None => state.mark_initial_insert_done(),
                }
            }
            if sync_keys.len() == 0 {
                state.increment_sync_count();
            } else {
                let ghost written = state@;
                let ghost keys = crate::text::views(sync_keys@);
                for key in it: sync_keys
                    invariant
                        it.seq() == sync_keys@,
                        keys == crate::text::views(sync_keys@),
                        state@ == written.marked_each(keys, it.index() as nat),
                        written.sync_count + sync_keys@.len() <= u32::MAX,
                {
                    proof {
                        written.law_marking_each_key(keys, it.index() as nat, key@);
                    }
                    state.mark_synced(key);
                }
            }
            SyncNotice::Complete(SyncComplete::new(rows, primary_keys, was_insert, status))
        },
        SyncOutcome::Failure { error, sync_keys } => {
            state.release(sync_keys.as_slice());
            match error.status {
                Some(status) => SyncNotice::Error(
                    SyncError::with_response(error.message, status, error.body),
                ),
                None => SyncNotice::Error(SyncError::new(error.message)),
            }
        },
    }
}

/// A key is synced after an outcome exactly when it was so before or is among
/// the keys of a success, and it is under way exactly when it was so before and
/// is not among the keys of the outcome.
pub proof fn law_outcome_settles_its_keys<T: SupabaseRow>(
    state: crate::state::StateParts,
    outcome: SyncOutcome<T>,
    key: Seq<char>,
)
    ensures
        applied(state, outcome).synced_keys.contains(key) <==> state.synced_keys.contains(key) || (
        outcome is Success && outcome_keys(outcome).contains(key)),
        applied(state, outcome).in_flight_keys.contains(key) <==> state.in_flight_keys.contains(
            key,
        ) && !outcome_keys(outcome).contains(key),
{
    if let SyncOutcome::Success { primary_keys, was_insert, sync_keys, .. } = outcome {
        let keys = outcome_keys(outcome);
        assert(keys.take(keys.len() as int) =~= keys);
        settled(state.released(keys), was_insert, primary_keys@).law_marking_each_key(
            keys,
            keys.len(),
            key,
        );
    }
}

/// A failed sync changes nothing, but that its keys are not under way any more.
pub proof fn law_failure_only_releases_its_keys<T: SupabaseRow>(
    state: crate::state::StateParts,
    outcome: SyncOutcome<T>,
)
    requires
        outcome is Failure,
    ensures
        applied(state, outcome) == state.released(outcome_keys(outcome)),
        outcome_keys(outcome).len() == 0 ==> applied(state, outcome) == state,
{
    if outcome_keys(outcome).len() == 0 {
        assert(outcome_keys(outcome).to_set() =~= Set::empty());
        assert(state.released(outcome_keys(outcome)) =~= state);
    }
}

/// A key that was synced stays synced whatever comes in, and a success makes
/// its own keys synced.
pub proof fn law_synced_keys_are_kept<T: SupabaseRow>(
    state: crate::state::StateParts,
    outcome: SyncOutcome<T>,
    key: Seq<char>,
)
    ensures
        state.synced_keys.contains(key) ==> applied(state, outcome).synced_keys.contains(key),
        outcome is Success && outcome_keys(outcome).contains(key) ==> applied(
            state,
            outcome,
        ).synced_keys.contains(key),
{
    law_outcome_settles_its_keys(state, outcome, key);
}

/// In Insert mode a row whose key is under way does not go out.
pub proof fn law_key_under_way_does_not_go_out(
    state: crate::state::StateParts,
    keys: Seq<Option<String>>,
    i: int,
)
    requires
        0 <= i < keys.len(),
        keys[i] is Some,
        state.in_flight_keys.contains(keys[i]->0@),
    ensures
        !goes_out(SaveMode::Insert, state.taken(), keys, i),
{
}

/// Once a key is synced it stays so whatever comes in, and no row with it goes
/// out in Insert mode.
pub proof fn law_synced_key_never_goes_out_again<T: SupabaseRow>(
    state: crate::state::StateParts,
    outcomes: Seq<SyncOutcome<T>>,
    keys: Seq<Option<String>>,
    i: int,
)
    requires
        0 <= i < keys.len(),
        keys[i] is Some,
        state.synced_keys.contains(keys[i]->0@),
    ensures
        applied_all(state, outcomes).synced_keys.contains(keys[i]->0@),
        !goes_out(SaveMode::Insert, applied_all(state, outcomes).taken(), keys, i),
    decreases outcomes.len(),
{
    if outcomes.len() > 0 {
        let earlier = outcomes.drop_last();
        law_synced_key_never_goes_out_again(state, earlier, keys, i);
        law_synced_keys_are_kept(applied_all(state, earlier), outcomes.last(), keys[i]->0@);
    }
}

/// In Update mode a single row is patched under the primary key that the first
/// insert brought back.
pub proof fn law_update_patches_the_inserted_row<T: SupabaseRow>(
    state: crate::state::StateParts,
    outcome: SyncOutcome<T>,
    config: SupabaseConfig<T>,
    plan: SyncPlan<T>,
    row: T,
    keys: Seq<Seq<char>>,
)
    requires
        config.config.save_mode == SaveMode::Update,
        outcome is Success,
        outcome->was_insert,
        outcome->primary_keys@.len() > 0,
        plan.sends(config, applied(state, outcome).primary_key, seq![row], keys),
    ensures
        plan is Patch,
        *plan->row == row,
        plan->primary_key == outcome->primary_keys@[0],
{
    let sent = outcome_keys(outcome);
    settled(state.released(sent), true, outcome->primary_keys@).law_marking_each_key(
        sent,
        sent.len(),
        Seq::empty(),
    );
}

/// Patching a row keeps the primary key under which the next patch goes out.
pub proof fn law_patch_keeps_the_primary_key<T: SupabaseRow>(
    state: crate::state::StateParts,
    outcome: SyncOutcome<T>,
)
    requires
        outcome is Success,
        !outcome->was_insert,
    ensures
        applied(state, outcome).primary_key == state.primary_key,
        applied(state, outcome).initial_insert_done == state.initial_insert_done,
{
    let sent = outcome_keys(outcome);
    state.released(sent).law_marking_each_key(sent, sent.len(), Seq::empty());
}

/// Whatever comes in besides inserts, the row of a session keeps its primary
/// key, so that every later patch goes to the same row.
pub proof fn law_later_patches_go_to_the_same_row<T: SupabaseRow>(
    state: crate::state::StateParts,
    outcomes: Seq<SyncOutcome<T>>,
)
    requires
        forall|i: int|
            0 <= i < outcomes.len() && (#[trigger] outcomes[i]) is Success
                ==> !outcomes[i]->was_insert,
    ensures
        applied_all(state, outcomes).primary_key == state.primary_key,
    decreases outcomes.len(),
{
    if outcomes.len() > 0 {
        let earlier = outcomes.drop_last();
        assert forall|i: int|
            0 <= i < earlier.len() && (
            #[trigger] earlier[i]) is Success implies !earlier[i]->was_insert by {
            assert(earlier[i] == outcomes[i]);
        }
        law_later_patches_go_to_the_same_row(state, earlier);
        assert(outcomes.last() == outcomes[outcomes.len() - 1]);
        if outcomes.last() is Success {
            law_patch_keeps_the_primary_key(applied_all(state, earlier), outcomes.last());
        }
    }
}

/// In every mode a session without a primary key writes its rows.
pub proof fn law_first_sync_writes<T: SupabaseRow>(
    config: SupabaseConfig<T>,
    plan: SyncPlan<T>,
    rows: Seq<T>,
    keys: Seq<Seq<char>>,
)
    requires
        rows.len() > 0,
        plan.sends(config, None, rows, keys),
    ensures
        plan is Write,
        pointees(plan->Write_rows@) == rows,
{
}

/// Applying an outcome counts it.
proof fn lemma_applied_counts<T: SupabaseRow>(
    state: crate::state::StateParts,
    outcome: SyncOutcome<T>,
)
    requires
        state.sync_count + weight(outcome) <= u32::MAX,
    ensures
        applied(state, outcome).sync_count == state.sync_count + weight(outcome),
{
    if let SyncOutcome::Success { primary_keys, was_insert, sync_keys, .. } = outcome {
        let sent = outcome_keys(outcome);
        settled(state.released(sent), was_insert, primary_keys@).law_marking_each_key(
            sent,
            sent.len(),
            Seq::empty(),
        );
    }
}

/// Every outcome that comes in is counted: one sync for each key of a success,
/// one for a success without keys, none for a failure.
pub proof fn law_every_sync_is_counted<T: SupabaseRow>(
    state: crate::state::StateParts,
    outcomes: Seq<SyncOutcome<T>>,
)
    requires
        state.sync_count + total_weight(outcomes) <= u32::MAX,
    ensures
        applied_all(state, outcomes).sync_count == state.sync_count + total_weight(outcomes),
    decreases outcomes.len(),
{
    if outcomes.len() > 0 {
        law_every_sync_is_counted(state, outcomes.drop_last());
        lemma_applied_counts(applied_all(state, outcomes.drop_last()), outcomes.last());
    }
}

/// A part of a list of outcomes counts for no more than the list.
proof fn lemma_weight_grows<T: SupabaseRow>(outcomes: Seq<SyncOutcome<T>>, n: int)
    requires
        0 <= n <= outcomes.len(),
    ensures
        total_weight(outcomes.take(n)) <= total_weight(outcomes),
    decreases outcomes.len(),
{
    if n == outcomes.len() {
        assert(outcomes.take(n) =~= outcomes);
    } else {
        lemma_weight_grows(outcomes.drop_last(), n);
        assert(outcomes.drop_last().take(n) =~= outcomes.take(n));
    }
}

/// Whether the state can still count these outcomes.
pub fn can_apply<T: SupabaseRow>(state: &SyncState<T>, outcomes: &[SyncOutcome<T>]) -> (fits: bool)
    ensures
        fits == (state@.sync_count + total_weight(outcomes@) <= u32::MAX),
{
    let mut total: usize = 0;
    for i in 0..outcomes.len()
        invariant
            total == total_weight(outcomes@.take(i as int)),
            state@.sync_count + total <= u32::MAX,
    {
        let more: usize = match &outcomes[i] {
            SyncOutcome::Success { sync_keys, .. } => {
                if sync_keys.len() == 0 {
                    1
                } else {
                    sync_keys.len()
                }
            },
            SyncOutcome::Failure { .. } => 0,
        };
        proof {
            assert(outcomes@.take(i + 1).drop_last() =~= outcomes@.take(i as int));
            lemma_weight_grows(outcomes@, i + 1);
        }
        let room: usize = (u32::MAX - state.sync_count()) as usize;
        if more > room - total {
            return false;
        }
        total = total + more;
    }
    assert(outcomes@.take(outcomes.len() as int) =~= outcomes@);
    true
}

/// Bring every outcome into the state, in order, and say what to announce.
pub fn apply_outcomes<T: SupabaseRow>(
    state: &mut SyncState<T>,
    outcomes: Vec<SyncOutcome<T>>,
) -> (notices: Vec<SyncNotice<T>>)
    requires
        old(state)@.sync_count + total_weight(outcomes@) <= u32::MAX,
    ensures
        final(state)@ == applied_all(old(state)@, outcomes@),
        notices@.len() == outcomes@.len(),
        forall|i: int|
            0 <= i < notices@.len() ==> (#[trigger] notices@[i]).announces(outcomes@[i]),
{
    let mut notices: Vec<SyncNotice<T>> = Vec::new();
    let ghost all = outcomes@;
    let ghost first = state@;
    for outcome in it: outcomes
        invariant
            it.seq() == all,
            all == outcomes@,
            first.sync_count + total_weight(all) <= u32::MAX,
            state@ == applied_all(first, all.take(it.index() as int)),
            notices@.len() == it.index(),
            forall|i: int|
                0 <= i < notices@.len() ==> (#[trigger] notices@[i]).announces(all[i]),
    {
        let ghost n = it.index() as int;
        proof {
            lemma_weight_grows(all, n + 1);
            lemma_weight_grows(all, n);
            assert(all.take(n + 1).drop_last() =~= all.take(n));
            law_every_sync_is_counted(first, all.take(n));
        }
        notices.push(apply_outcome(state, outcome));
    }
    assert(all.take(all.len() as int) =~= all);
    notices
}

/// The write options of a configuration: outside Insert mode they resolve on
/// all unique columns of the row type, and in Insert mode on none; Upsert mode
/// merges even without columns. The columns that the row type asks for come
/// back, and where it asks for none the configuration decides.
pub proof fn law_write_options_follow_the_row_type<T: SupabaseRow>(
    config: SupabaseConfig<T>,
    options: crate::request::OptionParts,
)
    requires
        config.implies(options),
    ensures
        config.config.save_mode == SaveMode::Insert ==> options.on_conflict.len() == 0,
        config.config.save_mode != SaveMode::Insert ==> crate::traits::names_unique_columns::<T>(
            options.on_conflict,
        ),
        config.config.save_mode != SaveMode::Insert ==> exists|given: &'static [&'static str]|
            {
                &&& #[trigger] call_ensures(T::unique_columns, (), given)
                &&& options.on_conflict.len() == given@.len()
                &&& forall|i: int|
                    0 <= i < given@.len() ==> #[trigger] options.on_conflict[i] == given@[i]@
            },
        options.merge <==> config.config.save_mode == SaveMode::Upsert,
        exists|given: Option<&'static str>|
            {
                &&& #[trigger] call_ensures(T::returning, (), given)
                &&& given matches Some(columns) ==> options.returning == Some(columns@)
                    && options.return_rows
                &&& given is None ==> options.returning is None && options.return_rows
                    == config.config.return_representation
            },
{
}

/// A sync writes with the options of its configuration, changed in one thing:
/// in Update mode the rows are asked for in any case.
pub proof fn law_sync_writes_with_the_implied_options<T: SupabaseRow>(
    config: SupabaseConfig<T>,
    options: crate::request::OptionParts,
)
    requires
        config.writes_with(options),
    ensures
        exists|implied: crate::request::OptionParts|
            {
                &&& #[trigger] config.implies(implied)
                &&& options.on_conflict == implied.on_conflict
                &&& options.merge == implied.merge
                &&& options.returning == implied.returning
                &&& options.return_rows == (implied.return_rows || config.config.save_mode
                    == SaveMode::Update)
            },
{
}

/// How a longer event relates to a shorter one: one more row changes nothing of
/// what goes out of the rows before it, and it goes out itself unless the mode
/// is Insert and its key is taken or an earlier row has it. Of no rows nothing
/// goes out.
pub proof fn law_one_more_row_goes_out_or_stays<T>(
    mode: SaveMode,
    taken: Set<Seq<char>>,
    rows: Seq<T>,
    keys: Seq<Option<String>>,
    row: T,
    key: Option<String>,
)
    requires
        rows.len() == keys.len(),
    ensures
        rows_out(mode, taken, Seq::<T>::empty(), Seq::empty(), 0).len() == 0,
        keys_out(mode, taken, Seq::empty(), 0).len() == 0,
        ({
            let stays = mode == SaveMode::Insert && key is Some && (taken.contains(key->0@)
                || exists|j: int|
                0 <= j < keys.len() && (#[trigger] keys[j]) is Some && keys[j]->0@ == key->0@);
            let rows_before = rows_out(mode, taken, rows, keys, rows.len());
            let keys_before = keys_out(mode, taken, keys, keys.len());
            let rows_after = rows_out(
                mode,
                taken,
                rows.push(row),
                keys.push(key),
                rows.len() + 1,
            );
            let keys_after = keys_out(mode, taken, keys.push(key), keys.len() + 1);
            &&& stays ==> rows_after == rows_before && keys_after == keys_before
            &&& !stays ==> rows_after == rows_before.push(row)
            &&& !stays && key is Some ==> keys_after == keys_before.push(key->0@)
            &&& key is None ==> keys_after == keys_before
        }),
{
    let n = rows.len();
    let longer = keys.push(key);
    lemma_out_ignores_later(mode, taken, rows, keys, longer, n);
    lemma_rows_ignore_later(mode, taken, rows, rows.push(row), longer, n);
    if key is Some {
        lemma_named_ignores_later(keys, longer, n as int, key->0@);
        if named(keys, n as int, key->0@) {
            let j = choose|j: int|
                0 <= j < n && (#[trigger] keys[j]) is Some && keys[j]->0@ == key->0@;
            assert(keys[j] is Some);
        }
    }
}

/// What goes out of the first rows does not depend on later rows.
proof fn lemma_rows_ignore_later<T>(
    mode: SaveMode,
    taken: Set<Seq<char>>,
    earlier: Seq<T>,
    later: Seq<T>,
    keys: Seq<Option<String>>,
    n: nat,
)
    requires
        n <= earlier.len() <= later.len(),
        forall|i: int| 0 <= i < n ==> earlier[i] == later[i],
    ensures
        rows_out(mode, taken, earlier, keys, n) == rows_out(mode, taken, later, keys, n),
    decreases n,
{
    if n > 0 {
        lemma_rows_ignore_later(mode, taken, earlier, later, keys, (n - 1) as nat);
    }
}

/// What a plan does: it sends nothing exactly where no row goes out. It patches
/// only in Update mode, where the session has a primary key and one row goes
/// out, and then always. Everything else is one write of all the rows, in
/// order, with the options of the configuration. Either goes to the table that
/// the configuration targets and carries the keys of its rows.
pub proof fn law_only_update_patches<T: SupabaseRow>(
    plan: SyncPlan<T>,
    config: SupabaseConfig<T>,
    primary_key: Option<i64>,
    rows: Seq<T>,
    keys: Seq<Seq<char>>,
)
    requires
        plan.sends(config, primary_key, rows, keys),
    ensures
        plan is Nothing <==> rows.len() == 0,
        plan is Patch <==> config.config.save_mode == SaveMode::Update && primary_key is Some
            && rows.len() == 1,
        config.config.save_mode != SaveMode::Update && rows.len() > 0 ==> plan is Write,
        plan matches SyncPlan::Patch { row, primary_key: pk, table, sync_keys } ==> {
            &&& *row == rows[0]
            &&& Some(pk) == primary_key
            &&& config.config.targets::<T>(table@)
            &&& sync_keys@.len() == keys.len()
            &&& forall|i: int| 0 <= i < keys.len() ==> #[trigger] sync_keys@[i]@ == keys[i]
        },
        plan matches SyncPlan::Write { rows: written, table, options, sync_keys } ==> {
            &&& written@.len() == rows.len()
            &&& forall|i: int| 0 <= i < rows.len() ==> *(#[trigger] written@[i]) == rows[i]
            &&& config.config.targets::<T>(table@)
            &&& config.writes_with(options@)
            &&& sync_keys@.len() == keys.len()
            &&& forall|i: int| 0 <= i < keys.len() ==> #[trigger] sync_keys@[i]@ == keys[i]
        },
{
    if let SyncPlan::Patch { row, primary_key: pk, table, sync_keys } = plan {
        assert(crate::text::views(sync_keys@).len() == sync_keys@.len());
        assert forall|i: int| 0 <= i < keys.len() implies #[trigger] sync_keys@[i]@ == keys[i] by {
            assert(crate::text::views(sync_keys@)[i] == keys[i]);
        }
    }
    if let SyncPlan::Write { rows: written, table, options, sync_keys } = plan {
        assert(pointees(written@).len() == written@.len());
        assert(crate::text::views(sync_keys@).len() == sync_keys@.len());
        assert forall|i: int| 0 <= i < rows.len() implies *(#[trigger] written@[i]) == rows[i] by {
            assert(pointees(written@)[i] == rows[i]);
        }
        assert forall|i: int| 0 <= i < keys.len() implies #[trigger] sync_keys@[i]@ == keys[i] by {
            assert(crate::text::views(sync_keys@)[i] == keys[i]);
        }
    }
}

/// References to rows stand for those rows, one for each and in order.
pub proof fn law_references_stand_for_their_rows<T>(rows: Seq<&T>)
    ensures
        pointees(rows).len() == rows.len(),
        forall|i: int| 0 <= i < rows.len() ==> #[trigger] pointees(rows)[i] == *rows[i],
{
}

/// An event is planned by the keys of its rows, those given and otherwise the
/// rows' own, and by the keys taken and the primary key of the session. In
/// Update and Upsert mode every row of the event goes out.
pub proof fn law_plan_is_made_of_the_events_rows<T: SupabaseRow>(
    event: SyncToSupabase<T>,
    config: SupabaseConfig<T>,
    state: crate::state::StateParts,
    keys: Seq<Option<String>>,
    plan: SyncPlan<T>,
)
    requires
        plans(event, config, state, keys, plan),
    ensures
        keys.len() == event.rows@.len(),
        forall|i: int|
            0 <= i < keys.len() && i < event.sync_keys@.len() ==> #[trigger] keys[i] == Some(
                event.sync_keys@[i],
            ),
        forall|i: int|
            event.sync_keys@.len() <= i < keys.len() ==> call_ensures(
                T::sync_key,
                (&event.rows@[i],),
                #[trigger] keys[i],
            ),
        plan.sends(
            config,
            state.primary_key,
            rows_out(config.config.save_mode, state.taken(), event.rows@, keys, keys.len()),
            keys_out(config.config.save_mode, state.taken(), keys, keys.len()),
        ),
        config.config.save_mode == SaveMode::Upsert && event.rows@.len() > 0 ==> {
            &&& plan matches SyncPlan::Write { rows, table, options, sync_keys }
            &&& rows@.len() == event.rows@.len()
            &&& forall|i: int|
                0 <= i < rows@.len() ==> *(#[trigger] rows@[i]) == event.rows@[i]
        },
        config.config.save_mode == SaveMode::Update && event.rows@.len() == 1 ==> {
            &&& state.primary_key is Some ==> plan is Patch && *plan->row == event.rows@[0]
                && Some(plan->primary_key) == state.primary_key
            &&& state.primary_key is None ==> plan is Write
        },
{
    let mode = config.config.save_mode;
    let rows = rows_out(mode, state.taken(), event.rows@, keys, keys.len());
    let sent = keys_out(mode, state.taken(), keys, keys.len());
    assert forall|i: int|
        event.sync_keys@.len() <= i < keys.len() implies call_ensures(
        T::sync_key,
        (&event.rows@[i],),
        #[trigger] keys[i],
    ) by {
        assert(event.has_key(i, keys[i]));
    }
    if mode != SaveMode::Insert {
        law_other_modes_send_every_row(mode, state.taken(), event.rows@, keys, keys.len());
        assert(event.rows@.take(keys.len() as int) =~= event.rows@);
    }
    law_only_update_patches(plan, config, state.primary_key, rows, sent);
}

/// Serializers that take anything take what a plan sends.
pub proof fn law_any_plan_can_be_serialized<'a, T: SupabaseRow, S, U>(
    plan: SyncPlan<'a, T>,
    serialize_list: S,
    serialize_row: U,
) where
    S: FnOnce(&[&'a T]) -> Result<String, serde_json::Error>,
    U: FnOnce(&T) -> Result<String, serde_json::Error>,

    requires
        forall|list: &[&'a T]| #[trigger] call_requires(serialize_list, (list,)),
        forall|row: &T| #[trigger] call_requires(serialize_row, (row,)),
    ensures
        plan.serializable(serialize_list, serialize_row),
{
}

/// What a successful reply comes to. Of a patch it is a success under the
/// patched key. Of a write it is a success with the rows that the parser makes
/// of the reply, their keys, and the reply's status, or the parser's failure;
/// where no rows were asked for there are none. Always the keys of the rows
/// that were sent come with it.
pub proof fn law_success_carries_what_came_back<T: SupabaseRow, P, Q>(
    pending: PendingSync,
    response: Response,
    parse_rows: P,
    parse_keys: Q,
    outcome: SyncOutcome<T>,
) where
    P: FnOnce(&str) -> Result<Vec<T::Response>, serde_json::Error>,
    Q: FnOnce(&str) -> Result<Vec<PrimaryKeyResponse>, serde_json::Error>,

    requires
        pending.succeeds(response, parse_rows, parse_keys, outcome),
    ensures
        outcome matches SyncOutcome::Success { sync_keys, .. } ==> sync_keys@
            == pending.sync_keys@,
        outcome matches SyncOutcome::Failure { sync_keys, .. } ==> sync_keys@
            == pending.sync_keys@,
        pending.patched matches Some(key) ==> {
            &&& outcome matches SyncOutcome::Success {
                rows,
                primary_keys,
                was_insert,
                status,
                sync_keys,
            }
            &&& rows@.len() == 0
            &&& primary_keys@.len() == 1
            &&& primary_keys@[0] == key
            &&& !was_insert
            &&& status == 200
        },
        pending.patched is None && !pending.asked_for_rows ==> {
            &&& outcome matches SyncOutcome::Success {
                rows,
                primary_keys,
                was_insert,
                status,
                sync_keys,
            }
            &&& rows@.len() == 0
            &&& primary_keys@.len() == 0
            &&& was_insert
            &&& status == response.status
        },
        pending.patched is None && pending.asked_for_rows ==> exists|
            read: Result<Vec<T::Response>, RequestError>,
        |
            {
                &&& #[trigger] crate::reply::rows_read(parse_rows, response, read)
                &&& read is Ok <==> outcome is Success
                &&& outcome matches SyncOutcome::Success {
                    rows,
                    primary_keys,
                    was_insert,
                    status,
                    sync_keys,
                } ==> {
                    &&& rows@ == read->Ok_0@
                    &&& crate::reply::keys_read(parse_keys, response, primary_keys@)
                    &&& was_insert
                    &&& status == response.status
                }
                &&& outcome matches SyncOutcome::Failure { error, sync_keys } ==> error
                    == read->Err_0
            },
{
}

/// How an outcome changes the state, key by key and field by field. A key is
/// not under way any more when it is one of the outcome's. A success makes its
/// keys synced and counts one sync for each, or one where it has none; an
/// insert is remembered, with the first primary key that came back. A failure
/// changes nothing else.
pub proof fn law_outcome_changes_the_state_so<T: SupabaseRow>(
    state: crate::state::StateParts,
    outcome: SyncOutcome<T>,
    key: Seq<char>,
)
    ensures
        outcome matches SyncOutcome::Failure { error, sync_keys } ==> {
            let after = applied(state, outcome);
            let among = exists|i: int|
                0 <= i < sync_keys@.len() && #[trigger] sync_keys@[i]@ == key;
            &&& after.synced_keys.contains(key) <==> state.synced_keys.contains(key)
            &&& after.in_flight_keys.contains(key) <==> state.in_flight_keys.contains(key)
                && !among
            &&& after.primary_key == state.primary_key
            &&& after.initial_insert_done == state.initial_insert_done
            &&& after.sync_count == state.sync_count
        },
        outcome matches SyncOutcome::Success {
            rows,
            primary_keys,
            was_insert,
            status,
            sync_keys,
        } ==> {
            let after = applied(state, outcome);
            let among = exists|i: int|
                0 <= i < sync_keys@.len() && #[trigger] sync_keys@[i]@ == key;
            let counted: int = if sync_keys@.len() == 0 {
                1
            } else {
                sync_keys@.len() as int
            };
            &&& after.synced_keys.contains(key) <==> state.synced_keys.contains(key) || among
            &&& after.in_flight_keys.contains(key) <==> state.in_flight_keys.contains(key)
                && !among
            &&& was_insert && primary_keys@.len() > 0 ==> after.primary_key == Some(
                primary_keys@[0],
            )
            &&& !was_insert || primary_keys@.len() == 0 ==> after.primary_key
                == state.primary_key
            &&& after.initial_insert_done == (state.initial_insert_done || was_insert)
            &&& state.sync_count + counted <= u32::MAX ==> after.sync_count == state.sync_count
                + counted
        },
{
    law_outcome_settles_its_keys(state, outcome, key);
    let keys = outcome_keys(outcome);
    match outcome {
        SyncOutcome::Failure { error, sync_keys } => {
            lemma_key_among(sync_keys@, key);
        },
        SyncOutcome::Success { rows, primary_keys, was_insert, status, sync_keys } => {
            lemma_key_among(sync_keys@, key);
            settled(state.released(keys), was_insert, primary_keys@).law_marking_each_key(
                keys,
                keys.len(),
                key,
            );
        },
    }
}

/// A text is among those of a list exactly when one of its strings has it.
proof fn lemma_key_among(strings: Seq<String>, key: Seq<char>)
    ensures
        crate::text::views(strings).contains(key) <==> exists|i: int|
            0 <= i < strings.len() && #[trigger] strings[i]@ == key,
{
    let all = crate::text::views(strings);
    if all.contains(key) {
        let i = choose|i: int| 0 <= i < all.len() && all[i] == key;
        assert(strings[i]@ == key);
    }
    if exists|i: int| 0 <= i < strings.len() && #[trigger] strings[i]@ == key {
        let i = choose|i: int| 0 <= i < strings.len() && #[trigger] strings[i]@ == key;
        assert(all[i] == key);
    }
}

/// The keys of an outcome are those of its rows, one for each and in order.
pub proof fn law_outcome_keys_are_its_own<T: SupabaseRow>(outcome: SyncOutcome<T>)
    ensures
        outcome matches SyncOutcome::Success { sync_keys, .. } ==> {
            &&& outcome_keys(outcome).len() == sync_keys@.len()
            &&& forall|i: int|
                0 <= i < sync_keys@.len() ==> #[trigger] outcome_keys(outcome)[i]
                    == sync_keys@[i]@
        },
        outcome matches SyncOutcome::Failure { sync_keys, .. } ==> {
            &&& outcome_keys(outcome).len() == sync_keys@.len()
            &&& forall|i: int|
                0 <= i < sync_keys@.len() ==> #[trigger] outcome_keys(outcome)[i]
                    == sync_keys@[i]@
        },
{
}

/// One more outcome is applied to the state that those before it left, and adds
/// what it counts for to what they count for.
pub proof fn law_outcomes_are_applied_in_turn<T: SupabaseRow>(
    state: crate::state::StateParts,
    outcomes: Seq<SyncOutcome<T>>,
    outcome: SyncOutcome<T>,
)
    ensures
        applied_all(state, Seq::<SyncOutcome<T>>::empty()) == state,
        applied_all(state, outcomes.push(outcome)) == applied(
            applied_all(state, outcomes),
            outcome,
        ),
        total_weight(Seq::<SyncOutcome<T>>::empty()) == 0,
        total_weight(outcomes.push(outcome)) == total_weight(outcomes) + weight(outcome),
        outcome is Failure ==> weight(outcome) == 0,
        outcome matches SyncOutcome::Success { sync_keys, .. } ==> weight(outcome) == (
        if sync_keys@.len() == 0 {
            1
        } else {
            sync_keys@.len()
        }),
{
    assert(outcomes.push(outcome).drop_last() =~= outcomes);
}

/// What is announced of a sync carries what came back. Of a success these are
/// all the rows and primary keys, in order, whether it was an insert, and the
/// status. Of a failure it is the error's message, with its status, and with its
/// body where there was a response.
pub proof fn law_announcements_carry_what_came_back<T: SupabaseRow>(
    notice: SyncNotice<T>,
    outcome: SyncOutcome<T>,
)
    requires
        notice.announces(outcome),
    ensures
        outcome matches SyncOutcome::Success {
            rows,
            primary_keys,
            was_insert,
            status,
            sync_keys,
        } ==> {
            &&& notice is Complete
            &&& notice->Complete_0.rows@ == rows@
            &&& notice->Complete_0.primary_keys@ == primary_keys@
            &&& notice->Complete_0.was_insert == was_insert
            &&& notice->Complete_0.status == status
        },
        outcome matches SyncOutcome::Failure { error, sync_keys } ==> {
            &&& notice is Error
            &&& notice->Error_0.message@ == error.message@
            &&& notice->Error_0.status == error.status
            &&& error.status is None ==> notice->Error_0.body is None
            &&& error.status is Some ==> (notice->Error_0.body is Some <==> error.body is Some)
            &&& error.status is Some && error.body is Some ==> notice->Error_0.body->0@
                == error.body->0@
        },
{
}

} // verus!
