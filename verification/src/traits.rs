//! What a host tells the library about its row and view types.

use crate::query::TableQuery;
use vstd::prelude::*;

verus! {

/// A type whose values are rows of one Supabase table.
///
/// A host implements this for each type it syncs. The table's name and columns
/// are fixed properties of the type.
pub trait SupabaseRow: Clone + Send + Sync + Sized + 'static {
    /// What the server sends back for each written row.
    type Response: Send + Sync + 'static;

    /// The table's name.
    fn table_name() -> &'static str;

    /// The name of the primary key column.
    fn primary_key_column() -> &'static str;

    /// The columns that identify a row, on which an upsert resolves conflicts.
    fn unique_columns() -> &'static [&'static str];

    /// The columns to return after a write, as a PostgREST `select` list. A
    /// type that does not say asks for none.
    fn returning() -> (columns: Option<&'static str>)
        default_ensures
            columns is None,
    {
        None
    }

    /// A key that identifies this row among those already synced. A type that
    /// does not say has none.
    fn sync_key(&self) -> (key: Option<String>)
        default_ensures
            key is None,
    {
        None
    }
}

/// A type whose values are rows read from one Supabase table or view.
///
/// A host implements this for each view it reads.
pub trait SupabaseView: Send + Sync + Sized + 'static {
    /// The name of the table or view.
    fn view_name() -> &'static str;

    /// The query that a read carries. A type that does not say reads every row
    /// in full.
    fn query() -> (query: TableQuery)
        default_ensures
            query@ == crate::query::QueryParts::none(),
    {
        TableQuery::new()
    }
}

/// Whether a row type names `table` as its table.
pub open spec fn names_table<T: SupabaseRow>(table: Seq<char>) -> bool {
    exists|name: &'static str|
        #[trigger] call_ensures(T::table_name, (), name) && name@ == table
}

/// Whether a row type names `column` as its primary key column.
pub open spec fn names_key_column<T: SupabaseRow>(column: Seq<char>) -> bool {
    exists|name: &'static str|
        #[trigger] call_ensures(T::primary_key_column, (), name) && name@ == column
}

/// Whether a row type names `columns` as its unique columns.
pub open spec fn names_unique_columns<T: SupabaseRow>(columns: Seq<Seq<char>>) -> bool {
    exists|names: &'static [&'static str]|
        #[trigger] call_ensures(T::unique_columns, (), names) && crate::text::str_views(names@)
            == columns
}

/// Whether a row type asks for `columns` to be returned after a write.
pub open spec fn asks_for<T: SupabaseRow>(columns: Option<Seq<char>>) -> bool {
    exists|asked: Option<&'static str>|
        #[trigger] call_ensures(T::returning, (), asked) && crate::text::optional_str(asked)
            == columns
}

/// Whether a row type names `source` as the table or view that it is read
/// from.
pub open spec fn names_source<R: SupabaseView>(source: Seq<char>) -> bool {
    exists|name: &'static str|
        #[trigger] call_ensures(R::view_name, (), name) && name@ == source
}

/// What a row type is said to name is what its methods give.
pub proof fn law_row_types_name_what_their_methods_give<T: SupabaseRow>(
    name: &'static str,
    names: &'static [&'static str],
    asked: Option<&'static str>,
)
    ensures
        call_ensures(T::table_name, (), name) ==> names_table::<T>(name@),
        call_ensures(T::primary_key_column, (), name) ==> names_key_column::<T>(name@),
        call_ensures(T::unique_columns, (), names) ==> names_unique_columns::<T>(
            crate::text::str_views(names@),
        ),
        call_ensures(T::returning, (), asked) ==> asks_for::<T>(crate::text::optional_str(asked)),
{
}

/// A name that a row type is said to have is one that its methods give, with
/// all its columns in order.
pub proof fn law_names_come_from_the_row_type<T: SupabaseRow, R: SupabaseView>(
    name: Seq<char>,
    columns: Seq<Seq<char>>,
    returning: Option<Seq<char>>,
)
    ensures
        names_table::<T>(name) ==> exists|given: &'static str| #[trigger]
            call_ensures(T::table_name, (), given) && given@ == name,
        names_key_column::<T>(name) ==> exists|given: &'static str| #[trigger]
            call_ensures(T::primary_key_column, (), given) && given@ == name,
        names_source::<R>(name) ==> exists|given: &'static str| #[trigger]
            call_ensures(R::view_name, (), given) && given@ == name,
        names_unique_columns::<T>(columns) ==> exists|given: &'static [&'static str]|
            {
                &&& #[trigger] call_ensures(T::unique_columns, (), given)
                &&& columns.len() == given@.len()
                &&& forall|i: int| 0 <= i < columns.len() ==> #[trigger] columns[i] == given@[i]@
            },
        asks_for::<T>(returning) ==> exists|given: Option<&'static str>|
            {
                &&& #[trigger] call_ensures(T::returning, (), given)
                &&& returning is Some <==> given is Some
                &&& given matches Some(text) ==> returning == Some(text@)
            },
{
}

} // verus!
