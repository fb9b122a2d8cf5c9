//! PostgREST query parameters shared by read and write requests.

use crate::text::{concat_three, join, unsigned_text, IntoText, IntoTexts};
use core::fmt::Display;
use vstd::prelude::*;
use vstd::string::StringExecFns;

verus! {

/// Sort direction for an `order=` clause.
#[derive(Debug, Clone, Copy, PartialEq, Eq, Structural)]
pub enum Order {
    /// Ascending order (`asc`).
    Ascending,
    /// Descending order (`desc`).
    Descending,
}

impl Order {
    /// How PostgREST writes the direction.
    pub open spec fn suffix(self) -> Seq<char> {
        match self {
            Order::Ascending => "asc"@,
            Order::Descending => "desc"@,
        }
    }

    /// Ascending order is written `asc` and descending order `desc`.
    pub proof fn law_directions_are_told_apart(self)
        ensures
            self == Order::Ascending ==> self.suffix() == "asc"@,
            self == Order::Descending ==> self.suffix() == "desc"@,
    {
    }

    /// How PostgREST writes the direction.
    pub fn as_suffix(self) -> (text: &'static str)
        ensures
            text@ == self.suffix(),
    {
        match self {
            Order::Ascending => "asc",
            Order::Descending => "desc",
        }
    }
}

/// The parameters that a [`TableQuery`] holds.
#[verifier::ext_equal]
pub struct QueryParts {
    /// The columns to return.
    pub select: Option<Seq<char>>,
    /// The columns forming the conflict target of an upsert.
    pub on_conflict: Seq<Seq<char>>,
    /// Filtered columns with their conditions.
    pub filters: Seq<(Seq<char>, Seq<char>)>,
    /// Columns to sort by with their directions.
    pub order: Seq<(Seq<char>, Order)>,
    /// How many rows to return at most.
    pub limit: Option<usize>,
}

impl QueryParts {
    /// No parameters.
    pub open spec fn none() -> Self {
        QueryParts {
            select: None,
            on_conflict: Seq::empty(),
            filters: Seq::empty(),
            order: Seq::empty(),
            limit: None,
        }
    }

    /// The conflict target as a URL parameter.
    pub open spec fn conflict_parameter(self) -> Seq<Seq<char>> {
        if self.on_conflict.len() == 0 {
            Seq::empty()
        } else {
            seq!["on_conflict="@ + crate::text::joined(self.on_conflict, ","@)]
        }
    }

    /// The column list as a URL parameter.
    pub open spec fn select_parameter(self) -> Seq<Seq<char>> {
        match self.select {
            Some(columns) => seq!["select="@ + columns],
            None => Seq::empty(),
        }
    }

    /// Each filter as a URL parameter.
    pub open spec fn filter_parameters(self) -> Seq<Seq<char>> {
        self.filters.map_values(|filter: (Seq<char>, Seq<char>)| filter.0 + "="@ + filter.1)
    }

    /// Each sort column with its direction.
    pub open spec fn order_clauses(self) -> Seq<Seq<char>> {
        self.order.map_values(|clause: (Seq<char>, Order)| clause.0 + "."@ + clause.1.suffix())
    }

    /// The sort order as a URL parameter.
    pub open spec fn order_parameter(self) -> Seq<Seq<char>> {
        if self.order.len() == 0 {
            Seq::empty()
        } else {
            seq!["order="@ + crate::text::joined(self.order_clauses(), ","@)]
        }
    }

    /// The row limit as a URL parameter.
    pub open spec fn limit_parameter(self) -> Seq<Seq<char>> {
        match self.limit {
            Some(rows) => seq!["limit="@ + crate::text::decimal(rows as nat)],
            None => Seq::empty(),
        }
    }

    /// All URL parameters, in the order in which they are written.
    pub open spec fn parameters(self) -> Seq<Seq<char>> {
        self.conflict_parameter() + self.select_parameter() + self.filter_parameters()
            + self.order_parameter() + self.limit_parameter()
    }

    /// The URL query string, without a leading `?`.
    pub open spec fn rendered(self) -> Seq<char> {
        crate::text::joined(self.parameters(), "&"@)
    }

    /// Every part that is set is written, and nothing else: first the conflict
    /// target, then the columns, each filter in order, the sort order and the
    /// limit, one parameter for each, in one text with `&` between them.
    pub proof fn law_every_part_is_written(self)
        ensures
            ({
                let all = self.parameters();
                let conflict: int = if self.on_conflict.len() > 0 {
                    1
                } else {
                    0
                };
                let columns: int = if self.select is Some {
                    1
                } else {
                    0
                };
                let sorted: int = if self.order.len() > 0 {
                    1
                } else {
                    0
                };
                let limited: int = if self.limit is Some {
                    1
                } else {
                    0
                };
                let head = conflict + columns;
                let tail = head + self.filters.len();
                &&& all.len() == tail + sorted + limited
                &&& self.on_conflict.len() > 0 ==> all[0] == "on_conflict="@ + crate::text::joined(
                    self.on_conflict,
                    ","@,
                )
                &&& self.select matches Some(list) ==> all[conflict] == "select="@ + list
                &&& forall|i: int|
                    0 <= i < self.filters.len() ==> #[trigger] all[head + i]
                        == self.filters[i].0 + "="@ + self.filters[i].1
                &&& self.order.len() > 0 ==> exists|clauses: Seq<Seq<char>>|
                    {
                        &&& clauses.len() == self.order.len()
                        &&& forall|i: int|
                            0 <= i < clauses.len() ==> #[trigger] clauses[i] == self.order[i].0
                                + "."@ + (if self.order[i].1 == Order::Ascending {
                                "asc"@
                            } else {
                                "desc"@
                            })
                        &&& all[tail] == "order="@ + #[trigger] crate::text::joined(clauses, ","@)
                    }
                &&& self.limit matches Some(rows) ==> all.last() == "limit="@
                    + crate::text::decimal(rows as nat)
                &&& self.rendered() == crate::text::joined(all, "&"@)
            }),
    {
        if self.order.len() > 0 {
            let clauses = self.order_clauses();
            assert(clauses.len() == self.order.len());
            let tail = self.conflict_parameter().len() + self.select_parameter().len()
                + self.filters.len();
            assert(self.parameters()[tail as int] == "order="@ + crate::text::joined(
                clauses,
                ","@,
            ));
        }
    }

    /// Without parts there is nothing to write: no parameter is set.
    pub proof fn law_none_sets_nothing()
        ensures
            QueryParts::none().select is None,
            QueryParts::none().on_conflict.len() == 0,
            QueryParts::none().filters.len() == 0,
            QueryParts::none().order.len() == 0,
            QueryParts::none().limit is None,
    {
    }

    /// A query adds nothing to the URL exactly when it has no parameters.
    pub proof fn law_empty_renders_nothing(self)
        ensures
            self.rendered().len() == 0 <==> self == QueryParts::none(),
    {
        reveal_strlit("on_conflict=");
        reveal_strlit("select=");
        reveal_strlit("=");
        reveal_strlit("order=");
        reveal_strlit("limit=");
        reveal_strlit("&");
        let all = self.parameters();
        if all.len() == 0 {
            assert(self.on_conflict =~= Seq::empty());
            assert(self.filters =~= Seq::empty());
            assert(self.order =~= Seq::empty());
        } else {
            assert(all[0].len() > 0);
        }
        if self == QueryParts::none() {
            assert(all.len() == 0);
        }
    }
}

/// The characters of a list of filters.
pub open spec fn filter_views(filters: Seq<(String, String)>) -> Seq<(Seq<char>, Seq<char>)> {
    filters.map_values(|filter: (String, String)| (filter.0@, filter.1@))
}

/// The characters of a list of sort clauses.
pub open spec fn order_views(order: Seq<(String, Order)>) -> Seq<(Seq<char>, Order)> {
    order.map_values(|clause: (String, Order)| (clause.0@, clause.1))
}

/// Query parameters appended to a PostgREST table URL.
///
/// Parts are written into the URL verbatim, so they use PostgREST syntax:
/// column lists are comma separated and a filter condition carries its
/// operator, as in `eq.42` or `in.(sword,shield)`.
#[derive(Debug, Clone)]
pub struct TableQuery {
    select: Option<String>,
    on_conflict: Vec<String>,
    filters: Vec<(String, String)>,
    order: Vec<(String, Order)>,
    limit: Option<usize>,
}

impl View for TableQuery {
    type V = QueryParts;

    closed spec fn view(&self) -> QueryParts {
        QueryParts {
            select: crate::text::optional_string(self.select),
            on_conflict: crate::text::views(self.on_conflict@),
            filters: filter_views(self.filters@),
            order: order_views(self.order@),
            limit: self.limit,
        }
    }
}

impl TableQuery {
    /// Create an empty query.
    #[must_use]
    pub fn new() -> (query: Self)
        ensures
            query@ == QueryParts::none(),
    {
        let query = TableQuery {
            select: None,
            on_conflict: Vec::new(),
            filters: Vec::new(),
            order: Vec::new(),
            limit: None,
        };
        assert(query@ =~= QueryParts::none());
        query
    }

    /// Set the columns to return, as a PostgREST `select` list (`*` for all).
    #[must_use]
    pub fn select<S: IntoText>(self, columns: S) -> (query: Self)
        ensures
            query@ == (QueryParts { select: Some(columns.text()), ..self@ }),
    {
        TableQuery { select: Some(columns.into_text()), ..self }
    }

    /// Set the columns forming the `ON CONFLICT` target of an upsert.
    #[must_use]
    pub fn on_conflict<I: IntoTexts>(self, columns: I) -> (query: Self)
        ensures
            query@ == (QueryParts { on_conflict: columns.all_texts(), ..self@ }),
    {
        TableQuery { on_conflict: columns.into_texts(), ..self }
    }

    /// Add a filter on `column`, where `condition` carries the PostgREST
    /// operator, as in `eq.42`.
    #[must_use]
    pub fn filter<C: IntoText, D: IntoText>(self, column: C, condition: D) -> (query: Self)
        ensures
            query@ == (QueryParts {
                filters: self@.filters.push((column.text(), condition.text())),
                ..self@
            }),
    {
        let mut query = self;
        let ghost before = query.filters@;
        query.filters.push((column.into_text(), condition.into_text()));
        assert(filter_views(query.filters@) =~= filter_views(before).push(
            (column.text(), condition.text()),
        ));
        query
    }

    /// Add an equality filter on `column`: the condition is `eq.` followed by
    /// the value as it displays.
    #[must_use]
    pub fn eq<C: IntoText, D: Display>(self, column: C, value: D) -> (query: Self)
        ensures
            exists|shown: String|
                {
                    &&& #[trigger] vstd::string::to_string_from_display_ensures(&value, shown)
                    &&& query@ == (QueryParts {
                        filters: self@.filters.push((column.text(), "eq."@ + shown@)),
                        ..self@
                    })
                },
    {
        let shown = value.to_string();
        let mut condition = "eq.".to_owned();
        condition.append(shown.as_str());
        self.filter(column, condition)
    }

    /// Add an ordering clause. Repeated calls order by each column in turn.
    #[must_use]
    pub fn order<S: IntoText>(self, column: S, direction: Order) -> (query: Self)
        ensures
            query@ == (QueryParts {
                order: self@.order.push((column.text(), direction)),
                ..self@
            }),
    {
        let mut query = self;
        let ghost before = query.order@;
        query.order.push((column.into_text(), direction));
        assert(order_views(query.order@) =~= order_views(before).push((column.text(), direction)));
        query
    }

    /// Limit the number of returned rows.
    #[must_use]
    pub fn limit(self, rows: usize) -> (query: Self)
        ensures
            query@ == (QueryParts { limit: Some(rows), ..self@ }),
    {
        TableQuery { limit: Some(rows), ..self }
    }

    /// Whether the query would add no parameters to the URL.
    pub fn is_empty(&self) -> (empty: bool)
        ensures
            empty == (self@ == QueryParts::none()),
    {
        let empty = self.select.is_none() && self.on_conflict.len() == 0 && self.filters.len() == 0
            && self.order.len() == 0 && self.limit.is_none();
        proof {
            if empty {
                assert(self@ =~= QueryParts::none());
            }
        }
        empty
    }

    /// Render the parameters as a URL query string, without a leading `?`:
    /// conflict target, columns, filters, sort order, limit.
    pub fn to_query_string(&self) -> (text: String)
        ensures
            text@ == self@.rendered(),
    {
        let mut parts: Vec<String> = Vec::new();
        let ghost model = self@;
        if self.on_conflict.len() > 0 {
            let mut part = "on_conflict=".to_owned();
            part.append(join(self.on_conflict.as_slice(), ",").as_str());
            parts.push(part);
        }
        assert(crate::text::views(parts@) =~= model.conflict_parameter());
        if let Some(columns) = &self.select {
            let mut part = "select=".to_owned();
            part.append(columns.as_str());
            parts.push(part);
        }
        let ghost head = model.conflict_parameter() + model.select_parameter();
        assert(crate::text::views(parts@) =~= head);
        let ghost filters = model.filter_parameters();
        for i in 0..self.filters.len()
            invariant
                model == self@,
                filters == model.filter_parameters(),
                crate::text::views(parts@) == head + filters.take(i as int),
        {
            let ghost before = parts@;
            let part = concat_three(self.filters[i].0.as_str(), "=", self.filters[i].1.as_str());
            parts.push(part);
            assert(part@ == filters[i as int]);
            assert(crate::text::views(parts@) =~= crate::text::views(before).push(part@));
            assert(head + filters.take(i + 1) =~= (head + filters.take(i as int)).push(part@));
        }
        assert(filters.take(self.filters.len() as int) =~= filters);
        if self.order.len() > 0 {
            let mut clauses: Vec<String> = Vec::new();
            let ghost wanted = model.order_clauses();
            for i in 0..self.order.len()
                invariant
                    model == self@,
                    wanted == model.order_clauses(),
                    crate::text::views(clauses@) == wanted.take(i as int),
            {
                let ghost before = clauses@;
                let clause = concat_three(
                    self.order[i].0.as_str(),
                    ".",
                    self.order[i].1.as_suffix(),
                );
                clauses.push(clause);
                assert(clause@ == wanted[i as int]);
                assert(crate::text::views(clauses@) =~= crate::text::views(before).push(clause@));
                assert(wanted.take(i + 1) =~= wanted.take(i as int).push(clause@));
            }
            assert(wanted.take(self.order.len() as int) =~= wanted);
            let mut part = "order=".to_owned();
            part.append(join(clauses.as_slice(), ",").as_str());
            parts.push(part);
        }
        assert(crate::text::views(parts@) =~= head + filters + model.order_parameter());
        if let Some(rows) = self.limit {
            let mut part = "limit=".to_owned();
            part.append(unsigned_text(rows as u64).as_str());
            parts.push(part);
        }
        assert(crate::text::views(parts@) =~= model.parameters());
        join(parts.as_slice(), "&")
    }
}

impl Default for TableQuery {
    fn default() -> (query: Self)
        ensures
            query@ == QueryParts::none(),
    {
        Self::new()
    }
}

} // verus!
