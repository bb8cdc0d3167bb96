//! A builder for ClickHouse `SELECT` statements.
use vstd::prelude::*;
use vstd::string::*;
use crate::text::{decimal_text, push_decimal};

verus! {

/// The clauses a [`ClickHouseQueryBuilder`] holds, as text.
pub struct QueryParts {
    pub select_clause: Seq<char>,
    pub from_clause: Seq<char>,
    pub where_clause: Option<Seq<char>>,
    pub order_by_clause: Option<Seq<char>>,
    pub order_direction: Option<Seq<char>>,
    pub limit_clause: Option<Seq<char>>,
    pub offset_clause: Option<Seq<char>>,
}

/// Builds a ClickHouse query clause by clause.
pub struct ClickHouseQueryBuilder {
    select_clause: String,
    from_clause: String,
    where_clause: Option<String>,
    order_by_clause: Option<String>,
    order_direction: Option<String>,
    limit_clause: Option<String>,
    offset_clause: Option<String>,
}

/// The text of an optional clause.
pub open spec fn opt_text(s: Option<String>) -> Option<Seq<char>> {
    match s {
        Some(t) => Some(t@),
        None => None,
    }
}

impl View for ClickHouseQueryBuilder {
    type V = QueryParts;

    closed spec fn view(&self) -> QueryParts {
        QueryParts {
            select_clause: self.select_clause@,
            from_clause: self.from_clause@,
            where_clause: opt_text(self.where_clause),
            order_by_clause: opt_text(self.order_by_clause),
            order_direction: opt_text(self.order_direction),
            limit_clause: opt_text(self.limit_clause),
            offset_clause: opt_text(self.offset_clause),
        }
    }
}

/// The condition `field LIKE 'pattern'`, or `field NOT LIKE 'pattern'` when
/// `negated`.
pub open spec fn like_condition(field: Seq<char>, pattern: Seq<char>, negated: bool) -> Seq<char> {
    if negated {
        field + " NOT LIKE '"@ + pattern + "'"@
    } else {
        field + " LIKE '"@ + pattern + "'"@
    }
}

/// The `WHERE` clause after adding a `LIKE` (or `NOT LIKE`) condition: a new
/// clause if there was none, else the old one joined to it with `AND`.
pub open spec fn where_with_like(
    existing: Option<Seq<char>>,
    field: Seq<char>,
    pattern: Seq<char>,
    negated: bool,
) -> Seq<char> {
    match existing {
        None => "WHERE "@ + like_condition(field, pattern, negated),
        Some(e) => e + " AND "@ + like_condition(field, pattern, negated),
    }
}

/// `" " + clause` when the clause is present, else nothing.
pub open spec fn spaced(clause: Option<Seq<char>>) -> Seq<char> {
    match clause {
        Some(c) => " "@ + c,
        None => Seq::empty(),
    }
}

/// The query text that `build` produces from the clauses: select, from, then
/// the where, order-by and limit clauses that are present, separated by single
/// spaces. The offset clause is not part of it.
pub open spec fn query_text(q: QueryParts) -> Seq<char> {
    q.select_clause + " "@ + q.from_clause + spaced(q.where_clause) + spaced(q.order_by_clause)
        + spaced(q.limit_clause)
}

fn add_like(existing: Option<String>, field: &str, pattern: &str, negated: bool) -> (r: String)
    ensures
        r@ == where_with_like(opt_text(existing), field@, pattern@, negated),
{
    let mut clause = match existing {
        None => String::from_str("WHERE "),
        Some(e) => {
            let mut e = e;
            e.append(" AND ");
            e
        },
    };
    clause.append(field);
    if negated {
        clause.append(" NOT LIKE '");
    } else {
        clause.append(" LIKE '");
    }
    clause.append(pattern);
    clause.append("'");
    clause
}

fn append_spaced(query: &mut String, clause: &Option<String>)
    ensures
        final(query)@ == old(query)@ + spaced(opt_text(*clause)),
{
    match clause {
        Some(c) => {
            query.append(" ");
            query.append(c.as_str());
        },
        None => {
            assert(spaced(opt_text(*clause)) =~= Seq::<char>::empty());
        },
    }
}

impl Default for ClickHouseQueryBuilder {
    /// The empty builder of [`ClickHouseQueryBuilder::new`].
    fn default() -> (r: Self)
        ensures
            r@ == (QueryParts {
                select_clause: Seq::empty(),
                from_clause: Seq::empty(),
                where_clause: None,
                order_by_clause: None,
                order_direction: None,
                limit_clause: None,
                offset_clause: None,
            }),
    {
        Self::new()
    }
}

impl ClickHouseQueryBuilder {
    /// An empty builder: no select or from text and no optional clause.
    pub fn new() -> (r: Self)
        ensures
            r@ == (QueryParts {
                select_clause: Seq::empty(),
                from_clause: Seq::empty(),
                where_clause: None,
                order_by_clause: None,
                order_direction: None,
                limit_clause: None,
                offset_clause: None,
            }),
    {
        ClickHouseQueryBuilder {
            select_clause: String::new(),
            from_clause: String::new(),
            where_clause: None,
            order_by_clause: None,
            order_direction: None,
            limit_clause: None,
            offset_clause: None,
        }
    }

    /// Sets the select clause to `SELECT fields`.
    pub fn select(self, fields: &str) -> (r: Self)
        ensures
            r@ == (QueryParts { select_clause: "SELECT "@ + fields@, ..self@ }),
    {
        let mut clause = String::from_str("SELECT ");
        clause.append(fields);
        ClickHouseQueryBuilder { select_clause: clause, ..self }
    }

    /// Sets the from clause to `FROM database_name.table_name`.
    pub fn from(self, database_name: &str, table_name: &str) -> (r: Self)
        ensures
            r@ == (QueryParts {
                from_clause: "FROM "@ + database_name@ + "."@ + table_name@,
                ..self@
            }),
    {
        let mut clause = String::from_str("FROM ");
        clause.append(database_name);
        clause.append(".");
        clause.append(table_name);
        ClickHouseQueryBuilder { from_clause: clause, ..self }
    }

    /// Sets the where clause to `WHERE condition`, replacing any earlier one.
    pub fn where_clause(self, condition: &str) -> (r: Self)
        ensures
            r@ == (QueryParts { where_clause: Some("WHERE "@ + condition@), ..self@ }),
    {
        let mut clause = String::from_str("WHERE ");
        clause.append(condition);
        ClickHouseQueryBuilder { where_clause: Some(clause), ..self }
    }

    /// Adds the condition `field LIKE 'pattern'` to the where clause.
    pub fn like_clause(self, field: &str, pattern: &str) -> (r: Self)
        ensures
            r@ == (QueryParts {
                where_clause: Some(where_with_like(self@.where_clause, field@, pattern@, false)),
                ..self@
            }),
    {
        let ClickHouseQueryBuilder {
            select_clause,
            from_clause,
            where_clause,
            order_by_clause,
            order_direction,
            limit_clause,
            offset_clause,
        } = self;
        let clause = add_like(where_clause, field, pattern, false);
        ClickHouseQueryBuilder {
            select_clause,
            from_clause,
            where_clause: Some(clause),
            order_by_clause,
            order_direction,
            limit_clause,
            offset_clause,
        }
    }

    /// Adds the condition `field NOT LIKE 'pattern'` to the where clause.
    pub fn not_like_clause(self, field: &str, pattern: &str) -> (r: Self)
        ensures
            r@ == (QueryParts {
                where_clause: Some(where_with_like(self@.where_clause, field@, pattern@, true)),
                ..self@
            }),
    {
        let ClickHouseQueryBuilder {
            select_clause,
            from_clause,
            where_clause,
            order_by_clause,
            order_direction,
            limit_clause,
            offset_clause,
        } = self;
        let clause = add_like(where_clause, field, pattern, true);
        ClickHouseQueryBuilder {
            select_clause,
            from_clause,
            where_clause: Some(clause),
            order_by_clause,
            order_direction,
            limit_clause,
            offset_clause,
        }
    }

    /// Sets the order-by clause to `ORDER BY field direction` when a direction
    /// is given, and removes it when none is.
    pub fn order(self, field: &str, direction: Option<&str>) -> (r: Self)
        ensures
            r@ == (QueryParts {
                order_by_clause: match direction {
                    Some(d) => Some("ORDER BY "@ + field@ + " "@ + d@),
                    None => None,
                },
                ..self@
            }),
    {
        let clause = match direction {
            Some(d) => {
                let mut c = String::from_str("ORDER BY ");
                c.append(field);
                c.append(" ");
                c.append(d);
                Some(c)
            },
            None => None,
        };
        ClickHouseQueryBuilder { order_by_clause: clause, ..self }
    }

    /// Sets the limit clause to `LIMIT n` with `n` in decimal.
    pub fn limit(self, limit: usize) -> (r: Self)
        ensures
            r@ == (QueryParts { limit_clause: Some("LIMIT "@ + decimal_text(limit as nat)), ..self@ }),
    {
        let mut clause = String::from_str("LIMIT ");
        push_decimal(&mut clause, limit as u64);
        ClickHouseQueryBuilder { limit_clause: Some(clause), ..self }
    }

    /// Sets the offset clause to `OFFSET n` with `n` in decimal.
    pub fn offset(self, offset: usize) -> (r: Self)
        ensures
            r@ == (QueryParts {
                offset_clause: Some("OFFSET "@ + decimal_text(offset as nat)),
                ..self@
            }),
    {
        let mut clause = String::from_str("OFFSET ");
        push_decimal(&mut clause, offset as u64);
        ClickHouseQueryBuilder { offset_clause: Some(clause), ..self }
    }

    /// The query text (see [`query_text`]).
    pub fn build(self) -> (r: String)
        ensures
            r@ == query_text(self@),
    {
        let mut query = self.select_clause;
        query.append(" ");
        query.append(self.from_clause.as_str());
        append_spaced(&mut query, &self.where_clause);
        append_spaced(&mut query, &self.order_by_clause);
        append_spaced(&mut query, &self.limit_clause);
        query
    }
}

} // verus!
