//! The relational form of a query: a `SELECT` with its projection, tables,
//! constraints, ordering and limit, and its rendering as SQL text.

use vstd::prelude::*;
use crate::query::{Direction, Limit, LimitView, Variable};
use crate::sql::{
    BuildQueryResult, BuilderView, SQLError, SQLErrorKind, SQLQuery, SQLiteQueryBuilder,
    bind_param_error, is_error, lemma_with_sql_twice, named_values, query_args, quoted_identifier,
    sorted_by_name, with_sql, with_typed_value,
};
use crate::symbols::plain_name_of;
use crate::text::{int_decimal, nat_decimal, str_to_chars};
use crate::types::{
    Column, ColumnName, DatomsColumn, DatomsTable, OrderBy, QualifiedAlias, SourceAlias, TableAlias,
    datoms_column_name, table_name, variable_column_name,
};
use crate::values::{Entid, TypedValue, TypedValueView};

verus! {

/// What can stand in a projection or on one side of a constraint.
#[derive(Debug, PartialEq, Eq)]
pub enum ColumnOrExpression {
    Column(QualifiedAlias),
    Entid(Entid),
    Integer(i32),
    Long(i64),
    Value(TypedValue),
}

/// A column as mathematical data: a fixed column, or a named one.
pub enum ColumnView {
    Fixed(DatomsColumn),
    Named(Seq<char>),
}

/// The view of a column.
pub open spec fn column_view(c: Column) -> ColumnView {
    match c {
        Column::Fixed(d) => ColumnView::Fixed(d),
        Column::Variable(v) => ColumnView::Named(variable_column_name(v)),
    }
}

/// `ColumnOrExpression` as mathematical data: each text and each list as a sequence.
pub enum ColumnOrExpressionView {
    Column { table: Seq<char>, column: ColumnView },
    Entid(int),
    Integer(int),
    Long(int),
    Value(TypedValueView),
}

/// The view of a qualified column.
pub open spec fn qualified_view(qa: QualifiedAlias) -> ColumnOrExpressionView {
    ColumnOrExpressionView::Column { table: qa.0@, column: column_view(qa.1) }
}

impl View for ColumnOrExpression {
    type V = ColumnOrExpressionView;

    open spec fn view(&self) -> ColumnOrExpressionView {
        match self {
            ColumnOrExpression::Column(qa) => qualified_view(*qa),
            ColumnOrExpression::Entid(e) => ColumnOrExpressionView::Entid(*e as int),
            ColumnOrExpression::Integer(n) => ColumnOrExpressionView::Integer(*n as int),
            ColumnOrExpression::Long(n) => ColumnOrExpressionView::Long(*n as int),
            ColumnOrExpression::Value(v) => ColumnOrExpressionView::Value(v@),
        }
    }
}

/// The name under which a column is projected.
pub type Name = String;

/// A projected expression and the name it is given.
#[derive(Debug, PartialEq, Eq)]
pub struct ProjectedColumn(pub ColumnOrExpression, pub Name);

/// `ProjectedColumn` as mathematical data: each text and each list as a sequence.
pub struct ProjectedColumnView {
    pub expression: ColumnOrExpressionView,
    pub name: Seq<char>,
}

impl View for ProjectedColumn {
    type V = ProjectedColumnView;

    open spec fn view(&self) -> ProjectedColumnView {
        ProjectedColumnView { expression: self.0@, name: self.1@ }
    }
}

/// What a `SELECT` projects.
#[derive(Debug, PartialEq, Eq)]
pub enum Projection {
    Columns(Vec<ProjectedColumn>),
    Star,
    One,
}

/// `Projection` as mathematical data: each text and each list as a sequence.
pub enum ProjectionView {
    Columns(Seq<ProjectedColumnView>),
    Star,
    One,
}

/// The views of a list of projected columns.
pub open spec fn projected_views(cols: Seq<ProjectedColumn>) -> Seq<ProjectedColumnView> {
    Seq::new(cols.len(), |i: int| cols[i]@)
}

impl View for Projection {
    type V = ProjectionView;

    open spec fn view(&self) -> ProjectionView {
        match self {
            Projection::Columns(cols) => ProjectionView::Columns(projected_views(cols@)),
            Projection::Star => ProjectionView::Star,
            Projection::One => ProjectionView::One,
        }
    }
}

/// An infix operator, written as it stands.
#[derive(Clone, Copy, Debug, PartialEq, Eq)]
pub struct Op(pub &'static str);

/// A constraint of a `WHERE` clause.
#[derive(Debug, PartialEq, Eq)]
pub enum Constraint {
    Infix { op: Op, left: ColumnOrExpression, right: ColumnOrExpression },
    Or { constraints: Vec<Constraint> },
    And { constraints: Vec<Constraint> },
    In { left: ColumnOrExpression, list: Vec<ColumnOrExpression> },
    NotExists { subquery: TableOrSubquery },
}

/// A table, or a query that stands where a table can.
#[derive(Debug, PartialEq, Eq)]
pub enum TableOrSubquery {
    Table(SourceAlias),
    Union(Vec<SelectQuery>, TableAlias),
    Subquery(Box<SelectQuery>),
}

/// The kinds of join.
#[derive(Clone, Copy, Debug, PartialEq, Eq)]
pub enum JoinOp {
    Inner,
}

/// Tables joined by listing them.
#[derive(Debug, PartialEq, Eq)]
pub struct TableList(pub Vec<TableOrSubquery>);

/// Two tables joined explicitly.
#[derive(Debug, PartialEq, Eq)]
pub struct Join {
    pub left: TableOrSubquery,
    pub op: JoinOp,
    pub right: TableOrSubquery,
}

/// The `FROM` clause.
#[derive(Debug, PartialEq, Eq)]
pub enum FromClause {
    TableList(TableList),
    Join(Join),
    Nothing,
}

/// A `SELECT` statement.
#[derive(Debug, PartialEq, Eq)]
pub struct SelectQuery {
    pub distinct: bool,
    pub projection: Projection,
    pub from: FromClause,
    pub constraints: Vec<Constraint>,
    pub order: Vec<OrderBy>,
    pub limit: Limit,
}

/// `Constraint` as mathematical data: each text and each list as a sequence.
pub enum ConstraintView {
    Infix { op: Seq<char>, left: ColumnOrExpressionView, right: ColumnOrExpressionView },
    Or(Seq<ConstraintView>),
    And(Seq<ConstraintView>),
    In { left: ColumnOrExpressionView, list: Seq<ColumnOrExpressionView> },
    NotExists(TableView),
}

/// `Table` as mathematical data: each text and each list as a sequence.
pub enum TableView {
    Table { table: DatomsTable, alias: Seq<char> },
    Union { arms: Seq<SelectQueryView>, alias: Seq<char> },
    Subquery(Box<SelectQueryView>),
}

/// `From` as mathematical data: each text and each list as a sequence.
pub enum FromView {
    TableList(Seq<TableView>),
    Join { left: TableView, right: TableView },
    Nothing,
}

/// `OrderBy` as mathematical data: each text and each list as a sequence.
pub struct OrderByView {
    pub direction: Direction,
    pub column: Seq<char>,
}

/// `SelectQuery` as mathematical data: each text and each list as a sequence.
pub struct SelectQueryView {
    pub distinct: bool,
    pub projection: ProjectionView,
    pub from: FromView,
    pub constraints: Seq<ConstraintView>,
    pub order: Seq<OrderByView>,
    pub limit: LimitView,
}

/// The views of a list of expressions.
pub open spec fn expression_views(es: Seq<ColumnOrExpression>) -> Seq<ColumnOrExpressionView> {
    Seq::new(es.len(), |i: int| es[i]@)
}

/// The views of a list of order entries.
pub open spec fn order_by_views(os: Seq<OrderBy>) -> Seq<OrderByView> {
    Seq::new(
        os.len(),
        |i: int| OrderByView { direction: os[i].0, column: variable_column_name(os[i].1) },
    )
}

/// The view of a constraint.
pub open spec fn constraint_view(c: Constraint) -> ConstraintView
    decreases c, 0int,
{
    match c {
        Constraint::Infix { op, left, right } => ConstraintView::Infix {
            op: op.0@,
            left: left@,
            right: right@,
        },
        Constraint::Or { constraints } => ConstraintView::Or(
            constraints_view(constraints@, constraints@.len() as int),
        ),
        Constraint::And { constraints } => ConstraintView::And(
            constraints_view(constraints@, constraints@.len() as int),
        ),
        Constraint::In { left, list } => ConstraintView::In {
            left: left@,
            list: expression_views(list@),
        },
        Constraint::NotExists { subquery } => ConstraintView::NotExists(table_view(subquery)),
    }
}

/// The views of the first `n` constraints.
pub open spec fn constraints_view(cs: Seq<Constraint>, n: int) -> Seq<ConstraintView>
    decreases cs, n,
{
    if n <= 0 || n > cs.len() {
        seq![]
    } else {
        constraints_view(cs, n - 1).push(constraint_view(cs[n - 1]))
    }
}

/// The view of a table or subquery.
pub open spec fn table_view(t: TableOrSubquery) -> TableView
    decreases t, 0int,
{
    match t {
        TableOrSubquery::Table(sa) => TableView::Table { table: sa.0, alias: sa.1@ },
        TableOrSubquery::Union(arms, alias) => TableView::Union {
            arms: selects_view(arms@, arms@.len() as int),
            alias: alias@,
        },
        TableOrSubquery::Subquery(q) => TableView::Subquery(Box::new(select_view(*q))),
    }
}

/// The views of the first `n` tables.
pub open spec fn tables_view(ts: Seq<TableOrSubquery>, n: int) -> Seq<TableView>
    decreases ts, n,
{
    if n <= 0 || n > ts.len() {
        seq![]
    } else {
        tables_view(ts, n - 1).push(table_view(ts[n - 1]))
    }
}

/// The views of the first `n` queries.
pub open spec fn selects_view(qs: Seq<SelectQuery>, n: int) -> Seq<SelectQueryView>
    decreases qs, n,
{
    if n <= 0 || n > qs.len() {
        seq![]
    } else {
        selects_view(qs, n - 1).push(select_view(qs[n - 1]))
    }
}

/// The view of a `FROM` clause.
pub open spec fn from_view(f: FromClause) -> FromView
    decreases f, 0int,
{
    match f {
        FromClause::TableList(tl) => FromView::TableList(tables_view(tl.0@, tl.0@.len() as int)),
        FromClause::Join(j) => FromView::Join { left: table_view(j.left), right: table_view(j.right) },
        FromClause::Nothing => FromView::Nothing,
    }
}

/// The view of a query.
pub open spec fn select_view(q: SelectQuery) -> SelectQueryView
    decreases q, 0int,
{
    SelectQueryView {
        distinct: q.distinct,
        projection: q.projection@,
        from: from_view(q.from),
        constraints: constraints_view(q.constraints@, q.constraints@.len() as int),
        order: order_by_views(q.order@),
        limit: q.limit@,
    }
}

impl View for Constraint {
    type V = ConstraintView;

    open spec fn view(&self) -> ConstraintView {
        constraint_view(*self)
    }
}

impl View for TableOrSubquery {
    type V = TableView;

    open spec fn view(&self) -> TableView {
        table_view(*self)
    }
}

impl View for FromClause {
    type V = FromView;

    open spec fn view(&self) -> FromView {
        from_view(*self)
    }
}

impl View for SelectQuery {
    type V = SelectQueryView;

    open spec fn view(&self) -> SelectQueryView {
        select_view(*self)
    }
}

/// The views of a list of constraints.
pub open spec fn constraint_views(cs: Seq<Constraint>) -> Seq<ConstraintView> {
    Seq::new(cs.len(), |i: int| cs[i]@)
}

/// The views of a list of tables.
pub open spec fn table_views(ts: Seq<TableOrSubquery>) -> Seq<TableView> {
    Seq::new(ts.len(), |i: int| ts[i]@)
}

/// The views of a list of queries.
pub open spec fn select_views(qs: Seq<SelectQuery>) -> Seq<SelectQueryView> {
    Seq::new(qs.len(), |i: int| qs[i]@)
}

/// An error of the builder as mathematical data.
pub struct BuildErrorView {
    pub kind: SQLErrorKind,
    pub name: Seq<char>,
}

/// The outcome of writing something into a builder: the builder's new state,
/// or the error that stopped the writing.
pub type Written = Result<BuilderView, BuildErrorView>;

/// The text of a column after its table's alias.
pub open spec fn column_sql(c: ColumnView) -> Seq<char> {
    match c {
        ColumnView::Fixed(d) => datoms_column_name(d),
        ColumnView::Named(n) => quoted_identifier(n),
    }
}

/// The state after an expression has been written.
pub open spec fn expression_sql(e: ColumnOrExpressionView, st: BuilderView) -> BuilderView {
    match e {
        ColumnOrExpressionView::Column { table, column } => with_sql(
            st,
            quoted_identifier(table) + seq!['.'] + column_sql(column),
        ),
        ColumnOrExpressionView::Entid(n) => with_sql(st, int_decimal(n)),
        ColumnOrExpressionView::Integer(n) => with_sql(st, int_decimal(n)),
        ColumnOrExpressionView::Long(n) => with_sql(st, int_decimal(n)),
        ColumnOrExpressionView::Value(v) => with_typed_value(st, v),
    }
}

/// The state after the first `n` expressions have been written, separated by
/// `, `.
pub open spec fn expressions_sql(es: Seq<ColumnOrExpressionView>, n: int, st: BuilderView) -> BuilderView
    decreases n,
{
    if n <= 0 {
        st
    } else {
        let before = expressions_sql(es, n - 1, st);
        let sep = if n > 1 {
            with_sql(before, ", "@)
        } else {
            before
        };
        expression_sql(es[n - 1], sep)
    }
}

/// The state after one projected column has been written.
pub open spec fn projected_sql(c: ProjectedColumnView, st: BuilderView) -> BuilderView {
    with_sql(expression_sql(c.expression, st), " AS "@ + quoted_identifier(c.name))
}

/// The state after the first `n` projected columns have been written,
/// separated by `, `.
pub open spec fn columns_sql(cols: Seq<ProjectedColumnView>, n: int, st: BuilderView) -> BuilderView
    decreases n,
{
    if n <= 0 {
        st
    } else {
        let before = columns_sql(cols, n - 1, st);
        let sep = if n > 1 {
            with_sql(before, ", "@)
        } else {
            before
        };
        projected_sql(cols[n - 1], sep)
    }
}

/// The state after a projection has been written.
pub open spec fn projection_sql(p: ProjectionView, st: BuilderView) -> BuilderView {
    match p {
        ProjectionView::One => with_sql(st, seq!['1']),
        ProjectionView::Star => with_sql(st, seq!['*']),
        ProjectionView::Columns(cols) => columns_sql(cols, cols.len() as int, st),
    }
}

/// The text of a table and its alias.
pub open spec fn source_alias_sql(table: DatomsTable, alias: Seq<char>) -> Seq<char> {
    quoted_identifier(table_name(table)) + " AS "@ + quoted_identifier(alias)
}

/// The characters that a bind parameter's name may surely hold.
pub open spec fn is_plain_char(c: char) -> bool {
    ('a' <= c <= 'z') || ('A' <= c <= 'Z') || ('0' <= c <= '9') || c == '_'
}

/// The text with every character that is not a letter, a digit or an
/// underscore replaced by an underscore.
pub open spec fn sanitized(s: Seq<char>) -> Seq<char> {
    Seq::new(
        s.len(),
        |i: int|
            if is_plain_char(s[i]) {
                s[i]
            } else {
                '_'
            },
    )
}

/// The name of the bind parameter that stands for a variable: `i`, then the
/// variable's name without its `?`, sanitized.
pub open spec fn variable_param_name(var: Seq<char>) -> Seq<char> {
    seq!['i'] + sanitized(plain_name_of(var))
}

/// The outcome of writing the bind parameter `name`.
pub open spec fn bind_param_sql(name: Seq<char>, st: BuilderView) -> Written {
    match bind_param_error(st.prefix, name) {
        Some(kind) => Err(BuildErrorView { kind, name }),
        None => Ok(with_sql(st, seq!['$'] + name)),
    }
}

/// The text of one `ORDER BY` entry.
pub open spec fn order_sql(o: OrderByView) -> Seq<char> {
    quoted_identifier(o.column) + (match o.direction {
        Direction::Ascending => " ASC"@,
        Direction::Descending => " DESC"@,
    })
}

/// The text of the first `n` `ORDER BY` entries, separated by `, `.
pub open spec fn orders_sql(os: Seq<OrderByView>, n: int) -> Seq<char>
    decreases n,
{
    if n <= 0 {
        seq![]
    } else {
        orders_sql(os, n - 1) + (if n > 1 {
            ", "@
        } else {
            seq![]
        }) + order_sql(os[n - 1])
    }
}

/// The outcome of writing a limit.
pub open spec fn limit_sql(l: LimitView, st: BuilderView) -> Written {
    match l {
        LimitView::Unlimited => Ok(st),
        LimitView::Fixed(n) => Ok(
            with_sql(st, " LIMIT "@ + nat_decimal(n as nat)),
        ),
        LimitView::Variable(v) => bind_param_sql(
            variable_param_name(v),
            with_sql(st, " LIMIT "@),
        ),
    }
}

/// The outcome of writing a constraint.
pub open spec fn constraint_sql(c: ConstraintView, st: BuilderView) -> Written
    decreases c, 0int,
{
    match c {
        ConstraintView::Infix { op, left, right } => Ok(
            expression_sql(right, with_sql(expression_sql(left, st), seq![' '] + op + seq![' '])),
        ),
        ConstraintView::And(cs) => if cs.len() == 0 {
            Ok(with_sql(st, seq!['1']))
        } else {
            match constraints_sql(cs, cs.len() as int, " AND "@, with_sql(st, seq!['('])) {
                Ok(inner) => Ok(with_sql(inner, seq![')'])),
                Err(e) => Err(e),
            }
        },
        ConstraintView::Or(cs) => if cs.len() == 0 {
            Ok(with_sql(st, seq!['0']))
        } else {
            match constraints_sql(cs, cs.len() as int, " OR "@, with_sql(st, seq!['('])) {
                Ok(inner) => Ok(with_sql(inner, seq![')'])),
                Err(e) => Err(e),
            }
        },
        ConstraintView::In { left, list } => Ok(
            with_sql(
                expressions_sql(
                    list,
                    list.len() as int,
                    with_sql(expression_sql(left, st), " IN ("@),
                ),
                seq![')'],
            ),
        ),
        ConstraintView::NotExists(t) => table_sql(
            t,
            with_sql(st, "NOT EXISTS "@),
        ),
    }
}

/// The outcome of writing the first `n` constraints, separated by `sep`.
pub open spec fn constraints_sql(cs: Seq<ConstraintView>, n: int, sep: Seq<char>, st: BuilderView) -> Written
    decreases cs, n,
{
    if n <= 0 || n > cs.len() {
        Ok(st)
    } else {
        match constraints_sql(cs, n - 1, sep, st) {
            Ok(before) => constraint_sql(
                cs[n - 1],
                if n > 1 {
                    with_sql(before, sep)
                } else {
                    before
                },
            ),
            Err(e) => Err(e),
        }
    }
}

/// The outcome of writing a table or a subquery.
pub open spec fn table_sql(t: TableView, st: BuilderView) -> Written
    decreases t, 0int,
{
    match t {
        TableView::Table { table, alias } => Ok(with_sql(st, source_alias_sql(table, alias))),
        TableView::Union { arms, alias } => match selects_sql(
            arms,
            arms.len() as int,
            with_sql(st, seq!['(']),
        ) {
            Ok(inner) => Ok(with_sql(inner, ") AS "@ + quoted_identifier(alias))),
            Err(e) => Err(e),
        },
        TableView::Subquery(q) => match select_sql(*q, with_sql(st, seq!['('])) {
            Ok(inner) => Ok(with_sql(inner, seq![')'])),
            Err(e) => Err(e),
        },
    }
}

/// The outcome of writing the first `n` tables, separated by `, `.
pub open spec fn tables_sql(ts: Seq<TableView>, n: int, st: BuilderView) -> Written
    decreases ts, n,
{
    if n <= 0 || n > ts.len() {
        Ok(st)
    } else {
        match tables_sql(ts, n - 1, st) {
            Ok(before) => table_sql(
                ts[n - 1],
                if n > 1 {
                    with_sql(before, ", "@)
                } else {
                    before
                },
            ),
            Err(e) => Err(e),
        }
    }
}

/// The outcome of writing the first `n` queries, separated by ` UNION `.
pub open spec fn selects_sql(qs: Seq<SelectQueryView>, n: int, st: BuilderView) -> Written
    decreases qs, n,
{
    if n <= 0 || n > qs.len() {
        Ok(st)
    } else {
        match selects_sql(qs, n - 1, st) {
            Ok(before) => select_sql(
                qs[n - 1],
                if n > 1 {
                    with_sql(before, " UNION "@)
                } else {
                    before
                },
            ),
            Err(e) => Err(e),
        }
    }
}

/// The outcome of writing a `FROM` clause; nothing is written for no tables.
pub open spec fn from_sql(f: FromView, st: BuilderView) -> Written
    decreases f, 0int,
{
    match f {
        FromView::TableList(ts) => if ts.len() == 0 {
            Ok(st)
        } else {
            tables_sql(ts, ts.len() as int, with_sql(st, " FROM "@))
        },
        FromView::Join { left, right } => match table_sql(
            left,
            with_sql(st, " FROM "@),
        ) {
            Ok(mid) => table_sql(right, with_sql(mid, " JOIN "@)),
            Err(e) => Err(e),
        },
        FromView::Nothing => Ok(st),
    }
}

/// The text that opens a `SELECT`.
pub open spec fn select_keyword(distinct: bool) -> Seq<char> {
    if distinct {
        "SELECT DISTINCT "@
    } else {
        "SELECT "@
    }
}

/// The state after the `ORDER BY` clause has been written; nothing is written
/// for no entries.
pub open spec fn order_clause_sql(os: Seq<OrderByView>, st: BuilderView) -> BuilderView {
    if os.len() == 0 {
        st
    } else {
        with_sql(
            st,
            " ORDER BY "@ + orders_sql(os, os.len() as int),
        )
    }
}

/// The outcome of writing a `SELECT` statement.
pub open spec fn select_sql(q: SelectQueryView, st: BuilderView) -> Written
    decreases q, 1int,
{
    let head = projection_sql(q.projection, with_sql(st, select_keyword(q.distinct)));
    match from_sql(q.from, head) {
        Ok(after_from) => {
            let wheres = if q.constraints.len() == 0 {
                Ok(after_from)
            } else {
                constraints_sql(
                    q.constraints,
                    q.constraints.len() as int,
                    " AND "@,
                    with_sql(after_from, " WHERE "@),
                )
            };
            match wheres {
                Ok(after_where) => limit_sql(q.limit, order_clause_sql(q.order, after_where)),
                Err(e) => Err(e),
            }
        },
        Err(e) => Err(e),
    }
}

/// Whether the result `r` of writing, and the builder's state `after` it,
/// are what `expected` says. After an error the state is left unspecified.
pub open spec fn wrote(r: BuildQueryResult, after: BuilderView, expected: Written) -> bool {
    match expected {
        Ok(st) => r is Ok && after == st,
        Err(e) => r is Err && is_error(r->Err_0, e.kind, e.name),
    }
}

fn push_column(out: &mut SQLiteQueryBuilder, col: &Column) -> (r: BuildQueryResult)
    ensures
        r is Ok,
        final(out)@ == with_sql(old(out)@, column_sql(column_view(*col))),
{
    match col {
        Column::Fixed(d) => {
            out.push_sql(d.as_str());
            Ok(())
        },
        Column::Variable(vc) => {
            let name = vc.column_name();
            out.push_identifier(name.as_str())
        },
    }
}

impl ColumnOrExpression {
    /// Writes the expression: a qualified column, a number, or a typed value.
    pub fn push_sql(&self, out: &mut SQLiteQueryBuilder) -> (r: BuildQueryResult)
        ensures
            r is Ok,
            final(out)@ == expression_sql(self@, old(out)@),
    {
        match self {
            ColumnOrExpression::Column(qa) => {
                let _ = out.push_identifier(qa.0.as_str());
                out.push_char('.');
                let r = push_column(out, &qa.1);
                proof {
                    let a = quoted_identifier(qa.0@);
                    let c = column_sql(column_view(qa.1));
                    lemma_with_sql_twice(old(out)@, a, seq!['.']);
                    lemma_with_sql_twice(old(out)@, a + seq!['.'], c);
                }
                r
            },
            ColumnOrExpression::Entid(entid) => {
                out.push_int(*entid);
                Ok(())
            },
            ColumnOrExpression::Integer(integer) => {
                out.push_int(*integer as i64);
                Ok(())
            },
            ColumnOrExpression::Long(long) => {
                out.push_int(*long);
                Ok(())
            },
            ColumnOrExpression::Value(v) => out.push_typed_value(v),
        }
    }
}

fn push_expressions(list: &Vec<ColumnOrExpression>, out: &mut SQLiteQueryBuilder)
    ensures
        final(out)@ == expressions_sql(expression_views(list@), list@.len() as int, old(out)@),
{
    let ghost views = expression_views(list@);
    let mut i: usize = 0;
    while i < list.len()
        invariant
            i <= list@.len(),
            views == expression_views(list@),
            out@ == expressions_sql(views, i as int, old(out)@),
        decreases list@.len() - i,
    {
        if i > 0 {
            out.push_sql(", ");
        }
        let _ = list[i].push_sql(out);
        i += 1;
    }
}

impl ProjectedColumn {
    /// Writes the expression, ` AS `, and the quoted name.
    pub fn push_sql(&self, out: &mut SQLiteQueryBuilder) -> (r: BuildQueryResult)
        ensures
            r is Ok,
            final(out)@ == projected_sql(self@, old(out)@),
    {
        let _ = self.0.push_sql(out);
        let ghost mid = out@;
        out.push_sql(" AS ");
        let r = out.push_identifier(self.1.as_str());
        proof {
            lemma_with_sql_twice(mid, " AS "@, quoted_identifier(self.1@));
        }
        r
    }
}

impl Projection {
    /// Writes `1`, `*`, or the projected columns separated by commas.
    pub fn push_sql(&self, out: &mut SQLiteQueryBuilder) -> (r: BuildQueryResult)
        ensures
            r is Ok,
            final(out)@ == projection_sql(self@, old(out)@),
    {
        match self {
            Projection::One => {
                out.push_char('1');
            },
            Projection::Star => {
                out.push_char('*');
            },
            Projection::Columns(cols) => {
                let ghost views = projected_views(cols@);
                let mut i: usize = 0;
                while i < cols.len()
                    invariant
                        i <= cols@.len(),
                        views == projected_views(cols@),
                        out@ == columns_sql(views, i as int, old(out)@),
                    decreases cols@.len() - i,
                {
                    if i > 0 {
                        out.push_sql(", ");
                    }
                    let _ = cols[i].push_sql(out);
                    i += 1;
                }
            },
        }
        Ok(())
    }
}

impl Op {
    /// Writes the operator as it stands.
    pub fn push_sql(&self, out: &mut SQLiteQueryBuilder) -> (r: BuildQueryResult)
        ensures
            r is Ok,
            final(out)@ == with_sql(old(out)@, self.0@),
    {
        out.push_sql(self.0);
        Ok(())
    }
}

impl JoinOp {
    /// Writes the join keyword.
    pub fn push_sql(&self, out: &mut SQLiteQueryBuilder) -> (r: BuildQueryResult)
        ensures
            r is Ok,
            final(out)@ == with_sql(old(out)@, " JOIN "@),
    {
        out.push_sql(" JOIN ");
        Ok(())
    }
}

/// Writes a table's quoted name, ` AS `, and its quoted alias.
pub fn source_alias_push_sql(out: &mut SQLiteQueryBuilder, sa: &SourceAlias) -> (r: BuildQueryResult)
    ensures
        r is Ok,
        final(out)@ == with_sql(old(out)@, source_alias_sql(sa.0, sa.1@)),
{
    let _ = out.push_identifier(sa.0.name());
    out.push_sql(" AS ");
    let r = out.push_identifier(sa.1.as_str());
    proof {
        let a = quoted_identifier(table_name(sa.0));
        lemma_with_sql_twice(old(out)@, a, " AS "@);
        lemma_with_sql_twice(old(out)@, a + " AS "@, quoted_identifier(sa.1@));
    }
    r
}

fn sanitize(chars: &Vec<char>) -> (r: String)
    ensures
        r@ == sanitized(chars@),
{
    let mut out = String::new();
    let mut i: usize = 0;
    while i < chars.len()
        invariant
            i <= chars@.len(),
            out@ == sanitized(chars@).subrange(0, i as int),
        decreases chars@.len() - i,
    {
        let c = chars[i];
        if ('a' <= c && c <= 'z') || ('A' <= c && c <= 'Z') || ('0' <= c && c <= '9') || c == '_' {
            out.push(c);
        } else {
            out.push('_');
        }
        assert(out@ =~= sanitized(chars@).subrange(0, i + 1));
        i += 1;
    }
    assert(out@ =~= sanitized(chars@));
    out
}

/// Writes the bind parameter that stands for `var`.
pub fn push_variable_param(var: &Variable, out: &mut SQLiteQueryBuilder) -> (r: BuildQueryResult)
    ensures
        wrote(r, final(out)@, bind_param_sql(variable_param_name(var@), old(out)@)),
{
    let plain = str_to_chars(var.0.plain_name());
    let clean = sanitize(&plain);
    let mut name = String::new();
    name.push('i');
    name.push_str(clean.as_str());
    assert(name@ =~= variable_param_name(var@));
    out.push_bind_param(name.as_str())
}

fn push_order(order: &Vec<OrderBy>, out: &mut SQLiteQueryBuilder)
    ensures
        final(out)@ == order_clause_sql(order_by_views(order@), old(out)@),
{
    if order.len() == 0 {
        return ;
    }
    let ghost views = order_by_views(order@);
    out.push_sql(" ORDER BY ");
    let mut i: usize = 0;
    proof {
        lemma_with_sql_twice(old(out)@, " ORDER BY "@, seq![]);
        assert(" ORDER BY "@ + Seq::<char>::empty() =~= " ORDER BY "@);
    }
    while i < order.len()
        invariant
            i <= order@.len(),
            views == order_by_views(order@),
            out@ == with_sql(old(out)@, " ORDER BY "@ + orders_sql(views, i as int)),
        decreases order@.len() - i,
    {
        let ghost sofar = " ORDER BY "@ + orders_sql(views, i as int);
        let ghost sep: Seq<char> = if i > 0 {
            ", "@
        } else {
            seq![]
        };
        if i > 0 {
            out.push_sql(", ");
        }
        proof {
            if i > 0 {
                lemma_with_sql_twice(old(out)@, sofar, sep);
            } else {
                assert(sofar + sep =~= sofar);
            }
        }
        let name = order[i].1.column_name();
        let _ = out.push_identifier(name.as_str());
        match order[i].0 {
            Direction::Ascending => {
                out.push_sql(" ASC");
            },
            Direction::Descending => {
                out.push_sql(" DESC");
            },
        }
        proof {
            let q = quoted_identifier(views[i as int].column);
            let d = match order@[i as int].0 {
                Direction::Ascending => " ASC"@,
                Direction::Descending => " DESC"@,
            };
            lemma_with_sql_twice(old(out)@, sofar + sep, q);
            lemma_with_sql_twice(old(out)@, sofar + sep + q, d);
            assert(sofar + sep + q + d =~= " ORDER BY "@ + orders_sql(views, i + 1));
        }
        i += 1;
    }
}

fn push_limit(limit: &Limit, out: &mut SQLiteQueryBuilder) -> (r: BuildQueryResult)
    ensures
        wrote(r, final(out)@, limit_sql(limit@, old(out)@)),
{
    match limit {
        Limit::Unlimited => Ok(()),
        Limit::Fixed(n) => {
            out.push_sql(" LIMIT ");
            out.push_nat(*n);
            proof {
                lemma_with_sql_twice(old(out)@, " LIMIT "@, nat_decimal(*n as nat));
            }
            Ok(())
        },
        Limit::Variable(var) => {
            out.push_sql(" LIMIT ");
            push_variable_param(var, out)
        },
    }
}

fn push_constraints(cs: &Vec<Constraint>, sep: &'static str, out: &mut SQLiteQueryBuilder) -> (r:
    BuildQueryResult)
    ensures
        wrote(r, final(out)@, constraints_sql(constraint_views(cs@), cs@.len() as int, sep@, old(out)@)),
    decreases cs, 0int,
{
    let ghost views = constraint_views(cs@);
    let mut i: usize = 0;
    while i < cs.len()
        invariant
            i <= cs@.len(),
            views == constraint_views(cs@),
            constraints_sql(views, i as int, sep@, old(out)@) == Ok::<BuilderView, BuildErrorView>(out@),
        decreases cs@.len() - i,
    {
        if i > 0 {
            out.push_sql(sep);
        }
        match cs[i].push_sql(out) {
            Ok(_) => {},
            Err(e) => {
                proof {
                    lemma_constraints_error(views, i + 1, cs@.len() as int, sep@, old(out)@);
                }
                return Err(e);
            },
        }
        i += 1;
    }
    Ok(())
}

fn push_tables(ts: &Vec<TableOrSubquery>, out: &mut SQLiteQueryBuilder) -> (r: BuildQueryResult)
    ensures
        wrote(r, final(out)@, tables_sql(table_views(ts@), ts@.len() as int, old(out)@)),
    decreases ts, 0int,
{
    let ghost views = table_views(ts@);
    let mut i: usize = 0;
    while i < ts.len()
        invariant
            i <= ts@.len(),
            views == table_views(ts@),
            tables_sql(views, i as int, old(out)@) == Ok::<BuilderView, BuildErrorView>(out@),
        decreases ts@.len() - i,
    {
        if i > 0 {
            out.push_sql(", ");
        }
        match ts[i].push_sql(out) {
            Ok(_) => {},
            Err(e) => {
                proof {
                    lemma_tables_error(views, i + 1, ts@.len() as int, old(out)@);
                }
                return Err(e);
            },
        }
        i += 1;
    }
    Ok(())
}

fn push_selects(qs: &Vec<SelectQuery>, out: &mut SQLiteQueryBuilder) -> (r: BuildQueryResult)
    ensures
        wrote(r, final(out)@, selects_sql(select_views(qs@), qs@.len() as int, old(out)@)),
    decreases qs, 0int,
{
    let ghost views = select_views(qs@);
    let mut i: usize = 0;
    while i < qs.len()
        invariant
            i <= qs@.len(),
            views == select_views(qs@),
            selects_sql(views, i as int, old(out)@) == Ok::<BuilderView, BuildErrorView>(out@),
        decreases qs@.len() - i,
    {
        if i > 0 {
            out.push_sql(" UNION ");
        }
        match qs[i].push_sql(out) {
            Ok(_) => {},
            Err(e) => {
                proof {
                    lemma_selects_error(views, i + 1, qs@.len() as int, old(out)@);
                }
                return Err(e);
            },
        }
        i += 1;
    }
    Ok(())
}

/// The views of the first `n` constraints, one by one.
pub proof fn lemma_constraints_view(cs: Seq<Constraint>, n: int)
    requires
        0 <= n <= cs.len(),
    ensures
        constraints_view(cs, n) == constraint_views(cs).subrange(0, n),
    decreases n,
{
    if n > 0 {
        lemma_constraints_view(cs, n - 1);
        assert(constraints_view(cs, n) =~= constraint_views(cs).subrange(0, n));
    } else {
        assert(constraints_view(cs, n) =~= constraint_views(cs).subrange(0, n));
    }
}

/// The views of the first `n` tables, one by one.
pub proof fn lemma_tables_view(ts: Seq<TableOrSubquery>, n: int)
    requires
        0 <= n <= ts.len(),
    ensures
        tables_view(ts, n) == table_views(ts).subrange(0, n),
    decreases n,
{
    if n > 0 {
        lemma_tables_view(ts, n - 1);
        assert(tables_view(ts, n) =~= table_views(ts).subrange(0, n));
    } else {
        assert(tables_view(ts, n) =~= table_views(ts).subrange(0, n));
    }
}

/// The views of the first `n` queries, one by one.
pub proof fn lemma_selects_view(qs: Seq<SelectQuery>, n: int)
    requires
        0 <= n <= qs.len(),
    ensures
        selects_view(qs, n) == select_views(qs).subrange(0, n),
    decreases n,
{
    if n > 0 {
        lemma_selects_view(qs, n - 1);
        assert(selects_view(qs, n) =~= select_views(qs).subrange(0, n));
    } else {
        assert(selects_view(qs, n) =~= select_views(qs).subrange(0, n));
    }
}

/// The view of a conjunction is the conjunction of its members' views.
pub proof fn lemma_and_view(c: Constraint)
    requires
        c is And,
    ensures
        c@ == ConstraintView::And(constraint_views(c->And_constraints@)),
{
    let cs = c->And_constraints@;
    lemma_constraints_view(cs, cs.len() as int);
    assert(constraint_views(cs).subrange(0, cs.len() as int) =~= constraint_views(cs));
}

/// The view of a disjunction is the disjunction of its members' views.
pub proof fn lemma_or_view(c: Constraint)
    requires
        c is Or,
    ensures
        c@ == ConstraintView::Or(constraint_views(c->Or_constraints@)),
{
    let cs = c->Or_constraints@;
    lemma_constraints_view(cs, cs.len() as int);
    assert(constraint_views(cs).subrange(0, cs.len() as int) =~= constraint_views(cs));
}

/// The view of a union is the union of its arms' views.
pub proof fn lemma_union_view(t: TableOrSubquery)
    requires
        t is Union,
    ensures
        t@ == (TableView::Union { arms: select_views(t->Union_0@), alias: t->Union_1@ }),
{
    let qs = t->Union_0@;
    lemma_selects_view(qs, qs.len() as int);
    assert(select_views(qs).subrange(0, qs.len() as int) =~= select_views(qs));
}

/// The view of a table list is the list of its tables' views.
pub proof fn lemma_table_list_view(f: FromClause)
    requires
        f is TableList,
    ensures
        f@ == FromView::TableList(table_views(f->TableList_0.0@)),
{
    let ts = f->TableList_0.0@;
    lemma_tables_view(ts, ts.len() as int);
    assert(table_views(ts).subrange(0, ts.len() as int) =~= table_views(ts));
}

/// The constraints of a query's view are the views of its constraints.
pub proof fn lemma_select_view(q: SelectQuery)
    ensures
        q@.constraints == constraint_views(q.constraints@),
{
    let cs = q.constraints@;
    lemma_constraints_view(cs, cs.len() as int);
    assert(constraint_views(cs).subrange(0, cs.len() as int) =~= constraint_views(cs));
}

/// Once the first `n` constraints cannot be written, no more can.
pub proof fn lemma_constraints_error(cs: Seq<ConstraintView>, n: int, m: int, sep: Seq<char>, st: BuilderView)
    requires
        0 < n <= m <= cs.len(),
        constraints_sql(cs, n, sep, st) is Err,
    ensures
        constraints_sql(cs, m, sep, st) == constraints_sql(cs, n, sep, st),
    decreases m - n,
{
    if n < m {
        lemma_constraints_error(cs, n, m - 1, sep, st);
    }
}

/// Once the first `n` tables cannot be written, no more can.
pub proof fn lemma_tables_error(ts: Seq<TableView>, n: int, m: int, st: BuilderView)
    requires
        0 < n <= m <= ts.len(),
        tables_sql(ts, n, st) is Err,
    ensures
        tables_sql(ts, m, st) == tables_sql(ts, n, st),
    decreases m - n,
{
    if n < m {
        lemma_tables_error(ts, n, m - 1, st);
    }
}

/// Once the first `n` queries cannot be written, no more can.
pub proof fn lemma_selects_error(qs: Seq<SelectQueryView>, n: int, m: int, st: BuilderView)
    requires
        0 < n <= m <= qs.len(),
        selects_sql(qs, n, st) is Err,
    ensures
        selects_sql(qs, m, st) == selects_sql(qs, n, st),
    decreases m - n,
{
    if n < m {
        lemma_selects_error(qs, n, m - 1, st);
    }
}

impl Constraint {
    /// `left = right`.
    pub fn equal(left: ColumnOrExpression, right: ColumnOrExpression) -> (r: Constraint)
        ensures
            r == (Constraint::Infix { op: Op("="), left, right }),
    {
        Constraint::Infix { op: Op("="), left, right }
    }

    /// `left <> right`.
    pub fn not_equal(left: ColumnOrExpression, right: ColumnOrExpression) -> (r: Constraint)
        ensures
            r == (Constraint::Infix { op: Op("<>"), left, right }),
    {
        Constraint::Infix { op: Op("<>"), left, right }
    }

    /// Writes the constraint. An empty `And` is written `1` and an empty `Or`
    /// is written `0`; the others are parenthesized.
    pub fn push_sql(&self, out: &mut SQLiteQueryBuilder) -> (r: BuildQueryResult)
        ensures
            wrote(r, final(out)@, constraint_sql(self@, old(out)@)),
        decreases self, 1int,
    {
        match self {
            Constraint::Infix { op, left, right } => {
                let _ = left.push_sql(out);
                let ghost mid = out@;
                out.push_char(' ');
                let _ = op.push_sql(out);
                out.push_char(' ');
                proof {
                    lemma_with_sql_twice(mid, seq![' '], op.0@);
                    lemma_with_sql_twice(mid, seq![' '] + op.0@, seq![' ']);
                }
                right.push_sql(out)
            },
            Constraint::And { constraints } => {
                proof {
                    lemma_and_view(*self);
                }
                if constraints.len() == 0 {
                    out.push_char('1');
                    return Ok(());
                }
                out.push_char('(');
                match push_constraints(constraints, " AND ", out) {
                    Ok(_) => {},
                    Err(e) => {
                        return Err(e);
                    },
                }
                out.push_char(')');
                Ok(())
            },
            Constraint::Or { constraints } => {
                proof {
                    lemma_or_view(*self);
                }
                if constraints.len() == 0 {
                    out.push_char('0');
                    return Ok(());
                }
                out.push_char('(');
                match push_constraints(constraints, " OR ", out) {
                    Ok(_) => {},
                    Err(e) => {
                        return Err(e);
                    },
                }
                out.push_char(')');
                Ok(())
            },
            Constraint::In { left, list } => {
                let _ = left.push_sql(out);
                out.push_sql(" IN (");
                push_expressions(list, out);
                out.push_char(')');
                Ok(())
            },
            Constraint::NotExists { subquery } => {
                out.push_sql("NOT EXISTS ");
                subquery.push_sql(out)
            },
        }
    }
}

impl TableOrSubquery {
    /// Writes a table with its alias, a parenthesized union with its alias,
    /// or a parenthesized subquery.
    pub fn push_sql(&self, out: &mut SQLiteQueryBuilder) -> (r: BuildQueryResult)
        ensures
            wrote(r, final(out)@, table_sql(self@, old(out)@)),
        decreases self, 1int,
    {
        match self {
            TableOrSubquery::Table(sa) => source_alias_push_sql(out, sa),
            TableOrSubquery::Union(subqueries, table_alias) => {
                proof {
                    lemma_union_view(*self);
                }
                out.push_char('(');
                match push_selects(subqueries, out) {
                    Ok(_) => {},
                    Err(e) => {
                        return Err(e);
                    },
                }
                let ghost inner = out@;
                out.push_sql(") AS ");
                let r = out.push_identifier(table_alias.as_str());
                proof {
                    lemma_with_sql_twice(inner, ") AS "@, quoted_identifier(table_alias@));
                }
                r
            },
            TableOrSubquery::Subquery(subquery) => {
                out.push_char('(');
                match subquery.push_sql(out) {
                    Ok(_) => {},
                    Err(e) => {
                        return Err(e);
                    },
                }
                out.push_char(')');
                Ok(())
            },
        }
    }
}

impl TableList {
    /// Writes the tables separated by commas.
    pub fn push_sql(&self, out: &mut SQLiteQueryBuilder) -> (r: BuildQueryResult)
        ensures
            wrote(r, final(out)@, tables_sql(table_views(self.0@), self.0@.len() as int, old(out)@)),
        decreases self, 1int,
    {
        push_tables(&self.0, out)
    }
}

impl Join {
    /// Writes the two tables with the join keyword between them.
    pub fn push_sql(&self, out: &mut SQLiteQueryBuilder) -> (r: BuildQueryResult)
        ensures
            wrote(
                r,
                final(out)@,
                match table_sql(self.left@, old(out)@) {
                    Ok(mid) => table_sql(self.right@, with_sql(mid, " JOIN "@)),
                    Err(e) => Err(e),
                },
            ),
        decreases self, 2int,
    {
        match self.left.push_sql(out) {
            Ok(_) => {},
            Err(e) => {
                return Err(e);
            },
        }
        let _ = self.op.push_sql(out);
        self.right.push_sql(out)
    }
}

impl FromClause {
    /// Writes ` FROM ` and the tables, or nothing where there is none.
    pub fn push_sql(&self, out: &mut SQLiteQueryBuilder) -> (r: BuildQueryResult)
        ensures
            wrote(r, final(out)@, from_sql(self@, old(out)@)),
        decreases self, 3int,
    {
        match self {
            FromClause::TableList(table_list) => {
                proof {
                    lemma_table_list_view(*self);
                }
                if table_list.0.len() == 0 {
                    Ok(())
                } else {
                    out.push_sql(" FROM ");
                    table_list.push_sql(out)
                }
            },
            FromClause::Join(join) => {
                out.push_sql(" FROM ");
                join.push_sql(out)
            },
            FromClause::Nothing => Ok(()),
        }
    }
}

impl SelectQuery {
    /// Writes the statement: `SELECT`, the projection, the tables, the
    /// constraints joined by `AND`, the ordering, and the limit.
    pub fn push_sql(&self, out: &mut SQLiteQueryBuilder) -> (r: BuildQueryResult)
        ensures
            wrote(r, final(out)@, select_sql(self@, old(out)@)),
        decreases self, 4int,
    {
        proof {
            lemma_select_view(*self);
        }
        if self.distinct {
            out.push_sql("SELECT DISTINCT ");
        } else {
            out.push_sql("SELECT ");
        }
        let _ = self.projection.push_sql(out);
        match self.from.push_sql(out) {
            Ok(_) => {},
            Err(e) => {
                return Err(e);
            },
        }
        if self.constraints.len() > 0 {
            out.push_sql(" WHERE ");
            match push_constraints(&self.constraints, " AND ", out) {
                Ok(_) => {},
                Err(e) => {
                    return Err(e);
                },
            }
        }
        push_order(&self.order, out);
        push_limit(&self.limit, out)
    }

    /// The statement as SQL text with its parameters.
    pub fn to_sql_query(&self) -> (r: Result<SQLQuery, SQLError>)
        ensures
            match select_sql(self@, SQLiteQueryBuilder::new_view()) {
                Ok(st) => r is Ok && r->Ok_0.sql@ == st.sql && query_args(r->Ok_0.args@)
                    == named_values(sorted_by_name(st.args)),
                Err(e) => r is Err && is_error(r->Err_0, e.kind, e.name),
            },
    {
        let mut builder = SQLiteQueryBuilder::new();
        match self.push_sql(&mut builder) {
            Ok(_) => Ok(builder.finish()),
            Err(e) => Err(e),
        }
    }
}

} // verus!
