//! How a row type is saved.

use crate::text::IntoText;
use crate::traits::SupabaseRow;
use vstd::prelude::*;

verus! {

/// How data is saved to Supabase.
#[derive(Debug, Clone, Copy, PartialEq, Eq, Structural)]
pub enum SaveMode {
    /// Always insert new rows.
    ///
    /// Each sync creates a new database entry: event logs, kill records, any
    /// data that should create unique entries.
    Insert,
    /// Insert on first sync, update on subsequent syncs.
    ///
    /// The first sync of a session inserts a new row and retrieves its primary
    /// key; all subsequent syncs update that same row.
    Update,
    /// Always upsert: insert a new row, or update the one that already has the
    /// same values in the unique columns.
    Upsert,
}

impl Default for SaveMode {
    fn default() -> (mode: Self)
        ensures
            mode == SaveMode::Insert,
    {
        SaveMode::Insert
    }
}

/// How a type is synced to Supabase.
#[derive(Debug, Clone)]
pub struct SyncConfig {
    /// How to save data.
    pub save_mode: SaveMode,
    /// Whether to return the written rows after a save, and with them the
    /// primary keys that the database assigned.
    ///
    /// Update mode asks for them in any case, since it needs the primary key of
    /// the row that it inserts.
    pub return_representation: bool,
    /// The table to write to in place of the row type's own.
    pub table_override: Option<String>,
}

impl SyncConfig {
    /// Whether rows of `T` go to `table`: the override, or else the type's own.
    pub open spec fn targets<T: SupabaseRow>(self, table: Seq<char>) -> bool {
        match self.table_override {
            Some(name) => table == name@,
            None => crate::traits::names_table::<T>(table),
        }
    }

    /// A config with the given save mode, which returns the written rows and
    /// overrides no table.
    #[must_use]
    pub fn new(save_mode: SaveMode) -> (config: Self)
        ensures
            config.save_mode == save_mode,
            config.return_representation,
            config.table_override is None,
    {
        SyncConfig { save_mode, return_representation: true, table_override: None }
    }

    /// Set the save mode.
    #[must_use]
    pub fn with_save_mode(self, mode: SaveMode) -> (config: Self)
        ensures
            config == (SyncConfig { save_mode: mode, ..self }),
    {
        SyncConfig { save_mode: mode, ..self }
    }

    /// Set whether to return the written rows after a save.
    #[must_use]
    pub fn with_return_representation(self, return_repr: bool) -> (config: Self)
        ensures
            config == (SyncConfig { return_representation: return_repr, ..self }),
    {
        SyncConfig { return_representation: return_repr, ..self }
    }

    /// Override the table name.
    #[must_use]
    pub fn with_table<S: IntoText>(self, table: S) -> (config: Self)
        ensures
            config.save_mode == self.save_mode,
            config.return_representation == self.return_representation,
            crate::text::optional_string(config.table_override) == Some(table.text()),
    {
        SyncConfig { table_override: Some(table.into_text()), ..self }
    }

    /// The table that rows of `T` go to: the override, or else the type's own.
    pub fn table_for<T: SupabaseRow>(&self) -> (table: String)
        ensures
            self.targets::<T>(table@),
    {
        match &self.table_override {
            Some(table) => table.clone(),
            None => T::table_name().to_owned(),
        }
    }
}

impl Default for SyncConfig {
    fn default() -> (config: Self)
        ensures
            config.save_mode == SaveMode::Insert,
            config.return_representation,
            config.table_override is None,
    {
        SyncConfig::new(SaveMode::Insert)
    }
}

/// Rows go to the override where there is one, and otherwise to the table that
/// the row type names.
pub proof fn law_override_wins<T: SupabaseRow>(config: SyncConfig, table: Seq<char>)
    requires
        config.targets::<T>(table),
    ensures
        config.table_override matches Some(name) ==> table == name@,
        config.table_override is None ==> exists|name: &'static str| #[trigger]
            call_ensures(T::table_name, (), name) && table == name@,
{
}

} // verus!
