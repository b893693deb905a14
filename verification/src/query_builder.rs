//! SQL text for SELECT, UPDATE and DELETE statements with numbered parameters
//! (`$1`, `$2`, ...), handed out in order across the clauses.

use vstd::prelude::*;
use crate::text::{decimal, i64_to_string, signed_decimal, u64_to_string};

verus! {

/// The direction of an ORDER BY column.
#[derive(Debug, Clone, Copy, PartialEq, Eq, Structural)]
pub enum SortOrder {
    Asc,
    Desc,
}

/// The SQL keyword of a sort order.
pub open spec fn sort_text(o: SortOrder) -> Seq<char> {
    match o {
        SortOrder::Asc => "ASC"@,
        SortOrder::Desc => "DESC"@,
    }
}

impl SortOrder {
    /// `ASC` or `DESC`.
    pub fn as_sql(&self) -> (r: &'static str)
        ensures
            r@ == sort_text(*self),
    {
        match self {
            SortOrder::Asc => "ASC",
            SortOrder::Desc => "DESC",
        }
    }
}

/// A WHERE or HAVING condition on a column; each parameter it takes is numbered.
#[derive(Debug, Clone, PartialEq, Eq)]
pub enum Condition {
    Eq(String),
    NotEq(String),
    Gt(String),
    Gte(String),
    Lt(String),
    Lte(String),
    Like(String),
    ILike(String),
    In(String, usize),
    NotIn(String, usize),
    Between(String),
    IsNull(String),
    IsNotNull(String),
    Raw(String),
}

/// The number of parameters a condition takes.
pub open spec fn cond_params(c: Condition) -> nat {
    match c {
        Condition::In(_, n) => n as nat,
        Condition::NotIn(_, n) => n as nat,
        Condition::Between(_) => 2,
        Condition::IsNull(_) => 0,
        Condition::IsNotNull(_) => 0,
        Condition::Raw(_) => 0,
        _ => 1,
    }
}

/// Parameters `$start`, `$start+1`, ... (`n` of them).
pub open spec fn placeholder_list(start: nat, n: nat) -> Seq<Seq<char>> {
    Seq::new(n, |i: int| "$"@ + decimal((start + i) as nat))
}

/// The parts joined by a separator.
pub open spec fn join(parts: Seq<Seq<char>>, sep: Seq<char>) -> Seq<char>
    decreases parts.len(),
{
    if parts.len() == 0 {
        Seq::empty()
    } else if parts.len() == 1 {
        parts[0]
    } else {
        join(parts.drop_last(), sep) + sep + parts.last()
    }
}

/// The SQL of a condition whose first parameter is number `start`.
pub open spec fn cond_sql(c: Condition, start: nat) -> Seq<char> {
    let p = "$"@ + decimal(start);
    match c {
        Condition::Eq(col) => col@ + " = "@ + p,
        Condition::NotEq(col) => col@ + " != "@ + p,
        Condition::Gt(col) => col@ + " > "@ + p,
        Condition::Gte(col) => col@ + " >= "@ + p,
        Condition::Lt(col) => col@ + " < "@ + p,
        Condition::Lte(col) => col@ + " <= "@ + p,
        Condition::Like(col) => col@ + " LIKE "@ + p,
        Condition::ILike(col) => col@ + " ILIKE "@ + p,
        Condition::In(col, n) => col@ + " IN ("@ + join(placeholder_list(start, n as nat), ", "@) + ")"@,
        Condition::NotIn(col, n) => col@ + " NOT IN ("@ + join(placeholder_list(start, n as nat), ", "@) + ")"@,
        Condition::Between(col) => col@ + " BETWEEN "@ + p + " AND $"@ + decimal(start + 1),
        Condition::IsNull(col) => col@ + " IS NULL"@,
        Condition::IsNotNull(col) => col@ + " IS NOT NULL"@,
        Condition::Raw(sql) => sql@,
    }
}

/// The parameters the conditions take together.
pub open spec fn total_params(cs: Seq<Condition>) -> nat
    decreases cs.len(),
{
    if cs.len() == 0 {
        0
    } else {
        total_params(cs.drop_last()) + cond_params(cs.last())
    }
}

/// The SQL of each condition, numbered from `start` on.
pub open spec fn cond_parts(cs: Seq<Condition>, start: nat) -> Seq<Seq<char>>
    decreases cs.len(),
{
    if cs.len() == 0 {
        Seq::empty()
    } else {
        cond_parts(cs.drop_last(), start).push(cond_sql(cs.last(), start + total_params(cs.drop_last())))
    }
}

impl Condition {
    /// The number of parameters the condition takes.
    pub fn param_count(&self) -> (r: usize)
        ensures
            r == cond_params(*self),
    {
        match self {
            Condition::In(_, n) => *n,
            Condition::NotIn(_, n) => *n,
            Condition::Between(_) => 2,
            Condition::IsNull(_) => 0,
            Condition::IsNotNull(_) => 0,
            Condition::Raw(_) => 0,
            _ => 1,
        }
    }

    /// The SQL of the condition with its first parameter numbered `param_start`.
    pub fn to_sql(&self, param_start: usize) -> (r: String)
        requires
            param_start + cond_params(*self) <= usize::MAX,
        ensures
            r@ == cond_sql(*self, param_start as nat),
    {
        let p = param_text(param_start);
        let (col, op) = match self {
            Condition::Eq(c) => (c, " = "),
            Condition::NotEq(c) => (c, " != "),
            Condition::Gt(c) => (c, " > "),
            Condition::Gte(c) => (c, " >= "),
            Condition::Lt(c) => (c, " < "),
            Condition::Lte(c) => (c, " <= "),
            Condition::Like(c) => (c, " LIKE "),
            Condition::ILike(c) => (c, " ILIKE "),
            Condition::In(c, n) => {
                let mut s = c.clone();
                s.append(" IN (");
                let l = placeholders_text(param_start, *n);
                s.append(l.as_str());
                s.append(")");
                return s;
            },
            Condition::NotIn(c, n) => {
                let mut s = c.clone();
                s.append(" NOT IN (");
                let l = placeholders_text(param_start, *n);
                s.append(l.as_str());
                s.append(")");
                return s;
            },
            Condition::Between(c) => {
                let mut s = c.clone();
                s.append(" BETWEEN ");
                s.append(p.as_str());
                s.append(" AND $");
                let q = u64_to_string((param_start + 1) as u64);
                s.append(q.as_str());
                return s;
            },
            Condition::IsNull(c) => {
                let mut s = c.clone();
                s.append(" IS NULL");
                return s;
            },
            Condition::IsNotNull(c) => {
                let mut s = c.clone();
                s.append(" IS NOT NULL");
                return s;
            },
            Condition::Raw(sql) => {
                return sql.clone();
            },
        };
        let mut s = col.clone();
        s.append(op);
        s.append(p.as_str());
        s
    }
}

fn param_text(n: usize) -> (r: String)
    ensures
        r@ == "$"@ + decimal(n as nat),
{
    let mut s = String::from_str("$");
    let d = u64_to_string(n as u64);
    s.append(d.as_str());
    s
}

fn placeholders_text(start: usize, n: usize) -> (r: String)
    requires
        start + n <= usize::MAX,
    ensures
        r@ == join(placeholder_list(start as nat, n as nat), ", "@),
{
    let ghost all = placeholder_list(start as nat, n as nat);
    let mut s = String::new();
    let mut i: usize = 0;
    assert(all.take(0) =~= Seq::<Seq<char>>::empty());
    while i < n
        invariant
            i <= n,
            start + n <= usize::MAX,
            all == placeholder_list(start as nat, n as nat),
            s@ == join(all.take(i as int), ", "@),
        decreases n - i,
    {
        let p = param_text(start + i);
        assert(all.take(i + 1).drop_last() =~= all.take(i as int));
        assert(all.take(i + 1).last() == "$"@ + decimal((start + i) as nat));
        if i > 0 {
            s.append(", ");
        } else {
            assert(all.take(1) =~= seq![all[0]]);
        }
        s.append(p.as_str());
        i = i + 1;
    }
    assert(all.take(n as int) =~= all);
    s
}

proof fn lemma_total_params_prefix(cs: Seq<Condition>, i: int)
    requires
        0 <= i <= cs.len(),
    ensures
        total_params(cs.take(i)) <= total_params(cs),
    decreases cs.len() - i,
{
    if i < cs.len() {
        assert(cs.take(i + 1).drop_last() =~= cs.take(i));
        lemma_total_params_prefix(cs, i + 1);
    } else {
        assert(cs.take(i) =~= cs);
    }
}

/// Append the conditions joined by ` AND `, numbered from `start`; the next number.
fn push_conditions(sql: &mut String, cs: &Vec<Condition>, start: usize) -> (next: usize)
    requires
        start + total_params(cs@) <= usize::MAX,
    ensures
        final(sql)@ == old(sql)@ + join(cond_parts(cs@, start as nat), " AND "@),
        next == start + total_params(cs@),
{
    let ghost head = sql@;
    let mut counter = start;
    let mut i: usize = 0;
    assert(cs@.take(0) =~= Seq::<Condition>::empty());
    while i < cs.len()
        invariant
            i <= cs@.len(),
            start + total_params(cs@) <= usize::MAX,
            counter == start + total_params(cs@.take(i as int)),
            sql@ == head + join(cond_parts(cs@.take(i as int), start as nat), " AND "@),
        decreases cs.len() - i,
    {
        proof {
            assert(cs@.take(i + 1).drop_last() =~= cs@.take(i as int));
            lemma_total_params_prefix(cs@, i + 1);
        }
        let part = cs[i].to_sql(counter);
        if i > 0 {
            sql.append(" AND ");
        }
        sql.append(part.as_str());
        proof {
            let ps = cond_parts(cs@.take(i + 1), start as nat);
            assert(ps.drop_last() == cond_parts(cs@.take(i as int), start as nat));
            if i == 0 {
                assert(cond_parts(cs@.take(0), start as nat).len() == 0);
                assert(ps.len() == 1);
            }
            assert(sql@ =~= head + join(ps, " AND "@));
        }
        counter = counter + cs[i].param_count();
        i = i + 1;
    }
    assert(cs@.take(cs@.len() as int) =~= cs@);
    counter
}

proof fn lemma_cond_parts_len(cs: Seq<Condition>, start: nat)
    ensures
        cond_parts(cs, start).len() == cs.len(),
    decreases cs.len(),
{
    if cs.len() > 0 {
        lemma_cond_parts_len(cs.drop_last(), start);
    }
}

/// Append the texts joined by the separator.
fn push_joined(sql: &mut String, parts: &Vec<String>, sep: &str)
    ensures
        final(sql)@ == old(sql)@ + join(parts@.map_values(|s: String| s@), sep@),
{
    let ghost head = sql@;
    let ghost pv = parts@.map_values(|s: String| s@);
    let mut i: usize = 0;
    assert(pv.take(0) =~= Seq::<Seq<char>>::empty());
    while i < parts.len()
        invariant
            i <= parts@.len(),
            pv == parts@.map_values(|s: String| s@),
            sql@ == head + join(pv.take(i as int), sep@),
        decreases parts.len() - i,
    {
        assert(pv.take(i + 1).drop_last() =~= pv.take(i as int));
        if i > 0 {
            sql.append(sep);
        } else {
            assert(pv.take(1) =~= seq![pv[0]]);
        }
        sql.append(parts[i].as_str());
        i = i + 1;
    }
    assert(pv.take(pv.len() as int) =~= pv);
}

/// The kinds of join.
#[derive(Debug, Clone, Copy, PartialEq, Eq, Structural)]
pub enum JoinType {
    Inner,
    Left,
    Right,
    Full,
}

/// The SQL keywords of a join.
pub open spec fn join_text(j: JoinType) -> Seq<char> {
    match j {
        JoinType::Inner => "INNER JOIN"@,
        JoinType::Left => "LEFT JOIN"@,
        JoinType::Right => "RIGHT JOIN"@,
        JoinType::Full => "FULL OUTER JOIN"@,
    }
}

impl JoinType {
    /// The SQL keywords of the join.
    pub fn as_sql(&self) -> (r: &'static str)
        ensures
            r@ == join_text(*self),
    {
        match self {
            JoinType::Inner => "INNER JOIN",
            JoinType::Left => "LEFT JOIN",
            JoinType::Right => "RIGHT JOIN",
            JoinType::Full => "FULL OUTER JOIN",
        }
    }
}

/// A join with another table.
#[derive(Debug, Clone, PartialEq, Eq)]
pub struct Join {
    pub join_type: JoinType,
    pub table: String,
    pub on_condition: String,
}

/// A SELECT statement under construction.
#[derive(Debug, Clone)]
pub struct QueryBuilder {
    pub table: String,
    pub select_columns: Vec<String>,
    pub conditions: Vec<Condition>,
    pub joins: Vec<Join>,
    pub order_by: Vec<(String, SortOrder)>,
    pub group_by: Vec<String>,
    pub having: Vec<Condition>,
    pub limit_value: Option<i64>,
    pub offset_value: Option<i64>,
    pub distinct: bool,
}

/// The views of a list of texts.
pub open spec fn texts(s: Seq<String>) -> Seq<Seq<char>> {
    s.map_values(|x: String| x@)
}

/// The text of the joins, each ` TYPE table ON condition`.
pub open spec fn joins_sql(js: Seq<Join>) -> Seq<char>
    decreases js.len(),
{
    if js.len() == 0 {
        Seq::empty()
    } else {
        joins_sql(js.drop_last()) + " "@ + join_text(js.last().join_type) + " "@ + js.last().table@ + " ON "@
            + js.last().on_condition@
    }
}

/// The ORDER BY items, each `column ORDER`.
pub open spec fn order_parts(os: Seq<(String, SortOrder)>) -> Seq<Seq<char>> {
    os.map_values(|o: (String, SortOrder)| o.0@ + " "@ + sort_text(o.1))
}

/// The WHERE clause, parameters numbered from 1.
pub open spec fn where_part(cs: Seq<Condition>) -> Seq<char> {
    if cs.len() > 0 {
        " WHERE "@ + join(cond_parts(cs, 1), " AND "@)
    } else {
        Seq::empty()
    }
}

/// The GROUP BY clause.
pub open spec fn group_part(g: Seq<Seq<char>>) -> Seq<char> {
    if g.len() > 0 {
        " GROUP BY "@ + join(g, ", "@)
    } else {
        Seq::empty()
    }
}

/// The HAVING clause, parameters numbered from `start`.
pub open spec fn having_part(cs: Seq<Condition>, start: nat) -> Seq<char> {
    if cs.len() > 0 {
        " HAVING "@ + join(cond_parts(cs, start), " AND "@)
    } else {
        Seq::empty()
    }
}

/// The ORDER BY clause.
pub open spec fn order_part(order: Seq<(String, SortOrder)>) -> Seq<char> {
    if order.len() > 0 {
        " ORDER BY "@ + join(order_parts(order), ", "@)
    } else {
        Seq::empty()
    }
}

/// The LIMIT and OFFSET clauses.
pub open spec fn window_part(limit: Option<i64>, offset: Option<i64>) -> Seq<char> {
    let a: Seq<char> = match limit {
        Some(l) => " LIMIT "@ + signed_decimal(l as int),
        None => Seq::empty(),
    };
    let b: Seq<char> = match offset {
        Some(o) => " OFFSET "@ + signed_decimal(o as int),
        None => Seq::empty(),
    };
    a + b
}

/// The SQL of a SELECT statement with the given columns, order and window.
pub open spec fn select_sql(
    q: QueryBuilder,
    columns: Seq<Seq<char>>,
    order: Seq<(String, SortOrder)>,
    limit: Option<i64>,
    offset: Option<i64>,
) -> Seq<char> {
    "SELECT "@ + (if q.distinct { "DISTINCT "@ } else { Seq::empty() }) + join(columns, ", "@) + " FROM "@
        + q.table@ + joins_sql(q.joins@) + where_part(q.conditions@) + group_part(texts(q.group_by@))
        + having_part(q.having@, 1 + total_params(q.conditions@)) + order_part(order) + window_part(limit, offset)
}

fn push_joins(sql: &mut String, joins: &Vec<Join>)
    ensures
        final(sql)@ == old(sql)@ + joins_sql(joins@),
{
    let ghost before = sql@;
    let mut i: usize = 0;
    assert(joins@.take(0) =~= Seq::<Join>::empty());
    while i < joins.len()
        invariant
            i <= joins@.len(),
            sql@ == before + joins_sql(joins@.take(i as int)),
        decreases joins.len() - i,
    {
        assert(joins@.take(i + 1).drop_last() =~= joins@.take(i as int));
        sql.append(" ");
        sql.append(joins[i].join_type.as_sql());
        sql.append(" ");
        sql.append(joins[i].table.as_str());
        sql.append(" ON ");
        sql.append(joins[i].on_condition.as_str());
        assert(sql@ =~= before + joins_sql(joins@.take(i + 1)));
        i = i + 1;
    }
    assert(joins@.take(joins@.len() as int) =~= joins@);
}

fn push_order(sql: &mut String, order: &Vec<(String, SortOrder)>)
    ensures
        final(sql)@ == old(sql)@ + order_part(order@),
{
    if order.len() > 0 {
        sql.append(" ORDER BY ");
        let mut parts: Vec<String> = Vec::new();
        let mut k: usize = 0;
        while k < order.len()
            invariant
                k <= order@.len(),
                parts@.map_values(|s: String| s@) == order_parts(order@.take(k as int)),
            decreases order.len() - k,
        {
            let ghost prev = parts@.map_values(|s: String| s@);
            let mut p = order[k].0.clone();
            p.append(" ");
            p.append(order[k].1.as_sql());
            parts.push(p);
            assert(parts@.map_values(|s: String| s@) =~= prev.push(p@));
            assert(order_parts(order@.take(k + 1)) =~= order_parts(order@.take(k as int)).push(
                order@[k as int].0@ + " "@ + sort_text(order@[k as int].1),
            ));
            k = k + 1;
        }
        assert(order@.take(order@.len() as int) =~= order@);
        push_joined(sql, &parts, ", ");
    } else {
        assert(sql@ =~= old(sql)@ + Seq::<char>::empty());
    }
}

fn push_window(sql: &mut String, limit: Option<i64>, offset: Option<i64>)
    ensures
        final(sql)@ == old(sql)@ + window_part(limit, offset),
{
    let ghost before = sql@;
    match limit {
        Some(l) => {
            sql.append(" LIMIT ");
            let t = i64_to_string(l);
            sql.append(t.as_str());
        },
        None => {},
    }
    let ghost mid = sql@;
    match offset {
        Some(o) => {
            sql.append(" OFFSET ");
            let t = i64_to_string(o);
            sql.append(t.as_str());
        },
        None => {},
    }
    assert(sql@ =~= before + window_part(limit, offset));
}

impl QueryBuilder {
    /// `SELECT *` from a table, with nothing else.
    pub fn new(table: &str) -> (r: Self)
        ensures
            r.table@ == table@,
            texts(r.select_columns@) == seq!["*"@],
            r.conditions@.len() == 0,
            r.joins@.len() == 0,
            r.order_by@.len() == 0,
            r.group_by@.len() == 0,
            r.having@.len() == 0,
            r.limit_value is None,
            r.offset_value is None,
            !r.distinct,
    {
        let mut cols: Vec<String> = Vec::new();
        cols.push(String::from_str("*"));
        assert(texts(cols@) =~= seq!["*"@]);
        QueryBuilder {
            table: String::from_str(table),
            select_columns: cols,
            conditions: Vec::new(),
            joins: Vec::new(),
            order_by: Vec::new(),
            group_by: Vec::new(),
            having: Vec::new(),
            limit_value: None,
            offset_value: None,
            distinct: false,
        }
    }

    /// Select the given columns.
    pub fn select(self, columns: &[&str]) -> (r: Self)
        ensures
            texts(r.select_columns@) == columns@.map_values(|c: &str| c@),
            r.table == self.table,
            r.conditions == self.conditions,
            r.joins == self.joins,
            r.order_by == self.order_by,
            r.group_by == self.group_by,
            r.having == self.having,
            r.limit_value == self.limit_value,
            r.offset_value == self.offset_value,
            r.distinct == self.distinct,
    {
        let mut cols: Vec<String> = Vec::new();
        let mut i: usize = 0;
        while i < columns.len()
            invariant
                i <= columns@.len(),
                texts(cols@) == columns@.take(i as int).map_values(|c: &str| c@),
            decreases columns.len() - i,
        {
            let ghost prev = texts(cols@);
            cols.push(String::from_str(columns[i]));
            assert(texts(cols@) =~= prev.push(columns@[i as int]@));
            assert(columns@.take(i + 1).map_values(|c: &str| c@) =~= columns@.take(i as int).map_values(|c: &str| c@).push(
                columns@[i as int]@,
            ));
            i = i + 1;
        }
        assert(columns@.take(columns@.len() as int) =~= columns@);
        QueryBuilder { select_columns: cols, ..self }
    }

    /// `SELECT DISTINCT`.
    pub fn distinct(self) -> (r: Self)
        ensures
            r == (QueryBuilder { distinct: true, ..self }),
    {
        QueryBuilder { distinct: true, ..self }
    }

    /// Add a WHERE condition.
    pub fn where_condition(self, condition: Condition) -> (r: Self)
        ensures
            r.conditions@ == self.conditions@.push(condition),
            r.table == self.table,
            r.select_columns == self.select_columns,
            r.joins == self.joins,
            r.order_by == self.order_by,
            r.group_by == self.group_by,
            r.having == self.having,
            r.limit_value == self.limit_value,
            r.offset_value == self.offset_value,
            r.distinct == self.distinct,
    {
        let mut s = self;
        s.conditions.push(condition);
        s
    }

    /// Add a WHERE condition when `predicate` holds.
    pub fn where_if(self, predicate: bool, condition: Condition) -> (r: Self)
        ensures
            r.conditions@ == (if predicate { self.conditions@.push(condition) } else { self.conditions@ }),
            r.table == self.table,
            r.select_columns == self.select_columns,
            r.joins == self.joins,
            r.order_by == self.order_by,
            r.group_by == self.group_by,
            r.having == self.having,
            r.limit_value == self.limit_value,
            r.offset_value == self.offset_value,
            r.distinct == self.distinct,
    {
        if predicate {
            self.where_condition(condition)
        } else {
            self
        }
    }

    /// Add a join.
    pub fn join(self, join_type: JoinType, table: &str, on_condition: &str) -> (r: Self)
        ensures
            r.joins@.len() == self.joins@.len() + 1,
            r.joins@.drop_last() == self.joins@,
            r.joins@.last().join_type == join_type,
            r.joins@.last().table@ == table@,
            r.joins@.last().on_condition@ == on_condition@,
            r.table == self.table,
            r.select_columns == self.select_columns,
            r.conditions == self.conditions,
            r.order_by == self.order_by,
            r.group_by == self.group_by,
            r.having == self.having,
            r.limit_value == self.limit_value,
            r.offset_value == self.offset_value,
            r.distinct == self.distinct,
    {
        let mut s = self;
        s.joins.push(Join { join_type, table: String::from_str(table), on_condition: String::from_str(on_condition) });
        assert(s.joins@.drop_last() =~= self.joins@);
        s
    }

    /// Add an ORDER BY column.
    pub fn order_by(self, column: &str, order: SortOrder) -> (r: Self)
        ensures
            r.order_by@.len() == self.order_by@.len() + 1,
            r.order_by@.drop_last() == self.order_by@,
            r.order_by@.last().0@ == column@,
            r.order_by@.last().1 == order,
            r.table == self.table,
            r.select_columns == self.select_columns,
            r.conditions == self.conditions,
            r.joins == self.joins,
            r.group_by == self.group_by,
            r.having == self.having,
            r.limit_value == self.limit_value,
            r.offset_value == self.offset_value,
            r.distinct == self.distinct,
    {
        let mut s = self;
        s.order_by.push((String::from_str(column), order));
        assert(s.order_by@.drop_last() =~= self.order_by@);
        s
    }

    /// Add a GROUP BY column.
    pub fn group_by(self, column: &str) -> (r: Self)
        ensures
            texts(r.group_by@) == texts(self.group_by@).push(column@),
            r.table == self.table,
            r.select_columns == self.select_columns,
            r.conditions == self.conditions,
            r.joins == self.joins,
            r.order_by == self.order_by,
            r.having == self.having,
            r.limit_value == self.limit_value,
            r.offset_value == self.offset_value,
            r.distinct == self.distinct,
    {
        let mut s = self;
        s.group_by.push(String::from_str(column));
        assert(texts(s.group_by@) =~= texts(self.group_by@).push(column@));
        s
    }

    /// Add a HAVING condition.
    pub fn having(self, condition: Condition) -> (r: Self)
        ensures
            r.having@ == self.having@.push(condition),
            r.table == self.table,
            r.select_columns == self.select_columns,
            r.conditions == self.conditions,
            r.joins == self.joins,
            r.order_by == self.order_by,
            r.group_by == self.group_by,
            r.limit_value == self.limit_value,
            r.offset_value == self.offset_value,
            r.distinct == self.distinct,
    {
        let mut s = self;
        s.having.push(condition);
        s
    }

    /// Set the LIMIT.
    pub fn limit(self, limit: i64) -> (r: Self)
        ensures
            r == (QueryBuilder { limit_value: Some(limit), ..self }),
    {
        QueryBuilder { limit_value: Some(limit), ..self }
    }

    /// Set the OFFSET.
    pub fn offset(self, offset: i64) -> (r: Self)
        ensures
            r == (QueryBuilder { offset_value: Some(offset), ..self }),
    {
        QueryBuilder { offset_value: Some(offset), ..self }
    }

    fn build_with(
        &self,
        columns: &Vec<String>,
        order: &Vec<(String, SortOrder)>,
        limit: Option<i64>,
        offset: Option<i64>,
    ) -> (r: (String, usize))
        requires
            1 + total_params(self.conditions@) + total_params(self.having@) <= usize::MAX,
        ensures
            r.0@ == select_sql(*self, texts(columns@), order@, limit, offset),
            r.1 == total_params(self.conditions@) + total_params(self.having@),
    {
        let mut sql = String::from_str("SELECT ");
        if self.distinct {
            sql.append("DISTINCT ");
        }
        push_joined(&mut sql, columns, ", ");
        sql.append(" FROM ");
        sql.append(self.table.as_str());
        let ghost s0 = sql@;
        push_joins(&mut sql, &self.joins);
        let ghost s1 = sql@;
        let mut counter: usize = 1;
        if self.conditions.len() > 0 {
            sql.append(" WHERE ");
            counter = push_conditions(&mut sql, &self.conditions, 1);
        } else {
            assert(total_params(self.conditions@) == 0);
        }
        assert(sql@ =~= s1 + where_part(self.conditions@));
        let ghost s2 = sql@;
        if self.group_by.len() > 0 {
            sql.append(" GROUP BY ");
            push_joined(&mut sql, &self.group_by, ", ");
        }
        assert(sql@ =~= s2 + group_part(texts(self.group_by@)));
        let ghost s3 = sql@;
        if self.having.len() > 0 {
            sql.append(" HAVING ");
            counter = push_conditions(&mut sql, &self.having, counter);
        } else {
            assert(total_params(self.having@) == 0);
        }
        assert(sql@ =~= s3 + having_part(self.having@, 1 + total_params(self.conditions@)));
        let ghost s4 = sql@;
        push_order(&mut sql, order);
        push_window(&mut sql, limit, offset);
        assert(sql@ =~= s4 + order_part(order@) + window_part(limit, offset));
        assert(sql@ =~= select_sql(*self, texts(columns@), order@, limit, offset));
        (sql, counter - 1)
    }

    /// The SQL of the statement and the number of parameters it takes.
    pub fn build(&self) -> (r: (String, usize))
        requires
            1 + total_params(self.conditions@) + total_params(self.having@) <= usize::MAX,
        ensures
            r.0@ == select_sql(*self, texts(self.select_columns@), self.order_by@, self.limit_value, self.offset_value),
            r.1 == total_params(self.conditions@) + total_params(self.having@),
    {
        self.build_with(&self.select_columns, &self.order_by, self.limit_value, self.offset_value)
    }

    /// The same statement counting rows: `COUNT(*)`, without order, limit or offset.
    pub fn build_count(&self) -> (r: (String, usize))
        requires
            1 + total_params(self.conditions@) + total_params(self.having@) <= usize::MAX,
        ensures
            r.0@ == select_sql(*self, seq!["COUNT(*)"@], Seq::empty(), None, None),
            r.1 == total_params(self.conditions@) + total_params(self.having@),
    {
        let mut cols: Vec<String> = Vec::new();
        cols.push(String::from_str("COUNT(*)"));
        assert(texts(cols@) =~= seq!["COUNT(*)"@]);
        let no_order: Vec<(String, SortOrder)> = Vec::new();
        self.build_with(&cols, &no_order, None, None)
    }
}

/// An UPDATE statement under construction.
#[derive(Debug, Clone)]
pub struct UpdateBuilder {
    pub table: String,
    pub set_columns: Vec<String>,
    pub conditions: Vec<Condition>,
}

/// The SET items, `column = $n` numbered from 1.
pub open spec fn set_parts(cols: Seq<Seq<char>>) -> Seq<Seq<char>> {
    Seq::new(cols.len(), |i: int| cols[i] + " = $"@ + decimal((i + 1) as nat))
}

/// The SQL of an UPDATE statement.
pub open spec fn update_sql(u: UpdateBuilder) -> Seq<char> {
    let n = u.set_columns@.len();
    "UPDATE "@ + u.table@ + (if n > 0 {
        " SET "@ + join(set_parts(texts(u.set_columns@)), ", "@)
    } else {
        Seq::empty()
    }) + (if u.conditions@.len() > 0 {
        " WHERE "@ + join(cond_parts(u.conditions@, 1 + n), " AND "@)
    } else {
        Seq::empty()
    })
}

impl UpdateBuilder {
    /// An UPDATE of a table with nothing set.
    pub fn new(table: &str) -> (r: Self)
        ensures
            r.table@ == table@,
            r.set_columns@.len() == 0,
            r.conditions@.len() == 0,
    {
        UpdateBuilder { table: String::from_str(table), set_columns: Vec::new(), conditions: Vec::new() }
    }

    /// Set a column (to the next parameter).
    pub fn set(self, column: &str) -> (r: Self)
        ensures
            texts(r.set_columns@) == texts(self.set_columns@).push(column@),
            r.table == self.table,
            r.conditions == self.conditions,
    {
        let mut s = self;
        s.set_columns.push(String::from_str(column));
        assert(texts(s.set_columns@) =~= texts(self.set_columns@).push(column@));
        s
    }

    /// Add a WHERE condition.
    pub fn where_condition(self, condition: Condition) -> (r: Self)
        ensures
            r.conditions@ == self.conditions@.push(condition),
            r.table == self.table,
            r.set_columns == self.set_columns,
    {
        let mut s = self;
        s.conditions.push(condition);
        s
    }

    /// The SQL of the statement and the number of parameters it takes.
    pub fn build(&self) -> (r: (String, usize))
        requires
            1 + self.set_columns@.len() + total_params(self.conditions@) <= usize::MAX,
        ensures
            r.0@ == update_sql(*self),
            r.1 == self.set_columns@.len() + total_params(self.conditions@),
    {
        let mut sql = String::from_str("UPDATE ");
        sql.append(self.table.as_str());
        let n = self.set_columns.len();
        let ghost sv = set_parts(texts(self.set_columns@));
        if n > 0 {
            sql.append(" SET ");
            let ghost head = sql@;
            let mut i: usize = 0;
            assert(sv.take(0) =~= Seq::<Seq<char>>::empty());
            while i < n
                invariant
                    n == self.set_columns@.len(),
                    i <= n,
                    1 + n <= usize::MAX,
                    sv == set_parts(texts(self.set_columns@)),
                    sql@ == head + join(sv.take(i as int), ", "@),
                decreases n - i,
            {
                assert(sv.take(i + 1).drop_last() =~= sv.take(i as int));
                if i > 0 {
                    sql.append(", ");
                } else {
                    assert(sv.take(1) =~= seq![sv[0]]);
                }
                sql.append(self.set_columns[i].as_str());
                sql.append(" = $");
                let d = u64_to_string((i + 1) as u64);
                sql.append(d.as_str());
                i = i + 1;
            }
            assert(sv.take(n as int) =~= sv);
        }
        let mut counter: usize = n + 1;
        if self.conditions.len() > 0 {
            sql.append(" WHERE ");
            counter = push_conditions(&mut sql, &self.conditions, n + 1);
        } else {
            assert(total_params(self.conditions@) == 0);
        }
        assert(sql@ =~= update_sql(*self));
        (sql, counter - 1)
    }
}

/// A DELETE statement under construction.
#[derive(Debug, Clone)]
pub struct DeleteBuilder {
    pub table: String,
    pub conditions: Vec<Condition>,
}

/// The SQL of a DELETE statement.
pub open spec fn delete_sql(d: DeleteBuilder) -> Seq<char> {
    "DELETE FROM "@ + d.table@ + if d.conditions@.len() > 0 {
        " WHERE "@ + join(cond_parts(d.conditions@, 1), " AND "@)
    } else {
        Seq::empty()
    }
}

impl DeleteBuilder {
    /// A DELETE from a table, without conditions.
    pub fn new(table: &str) -> (r: Self)
        ensures
            r.table@ == table@,
            r.conditions@.len() == 0,
    {
        DeleteBuilder { table: String::from_str(table), conditions: Vec::new() }
    }

    /// Add a WHERE condition.
    pub fn where_condition(self, condition: Condition) -> (r: Self)
        ensures
            r.conditions@ == self.conditions@.push(condition),
            r.table == self.table,
    {
        let mut s = self;
        s.conditions.push(condition);
        s
    }

    /// The SQL of the statement and the number of parameters it takes.
    pub fn build(&self) -> (r: (String, usize))
        requires
            1 + total_params(self.conditions@) <= usize::MAX,
        ensures
            r.0@ == delete_sql(*self),
            r.1 == total_params(self.conditions@),
    {
        let mut sql = String::from_str("DELETE FROM ");
        sql.append(self.table.as_str());
        let mut counter: usize = 1;
        if self.conditions.len() > 0 {
            sql.append(" WHERE ");
            counter = push_conditions(&mut sql, &self.conditions, 1);
        } else {
            assert(total_params(self.conditions@) == 0);
        }
        assert(sql@ =~= delete_sql(*self));
        (sql, counter - 1)
    }
}

} // verus!
