//! What a builder of SQL text offers, and what can be written to one.

use vstd::prelude::*;
use crate::query_sql::{
    ColumnOrExpression, Constraint, FromClause, Join, JoinOp, Op, ProjectedColumn, Projection,
    SelectQuery, TableList, TableOrSubquery, Written, constraint_sql, expression_sql, from_sql,
    projected_sql, projection_sql, select_sql, table_sql, table_views, tables_sql, wrote,
};
use crate::sql::{
    BuildQueryResult, BuilderView, SQLQuery, SQLiteQueryBuilder, bind_param_error, is_error,
    named_values, query_args, quoted_identifier, sorted_by_name, with_sql, with_typed_value,
};
use crate::values::TypedValue;

verus! {

/// A builder of SQL text with its parameters.
pub trait QueryBuilder: Sized {
    /// The text written so far, the prefix of generated parameter names, and
    /// the parameters.
    spec fn state(&self) -> BuilderView;

    /// Appends `sql` as it stands.
    fn push_sql(&mut self, sql: &str)
        ensures
            final(self).state() == with_sql(old(self).state(), sql@),
    ;

    /// Appends `identifier` between backticks, each backtick in it doubled.
    fn push_identifier(&mut self, identifier: &str) -> (r: BuildQueryResult)
        ensures
            r is Ok,
            final(self).state() == with_sql(old(self).state(), quoted_identifier(identifier@)),
    ;

    /// Appends `value`: a number or a truth value as text, anything else as
    /// the placeholder of a parameter.
    fn push_typed_value(&mut self, value: &TypedValue) -> (r: BuildQueryResult)
        ensures
            r is Ok,
            final(self).state() == with_typed_value(old(self).state(), value@),
    ;

    /// Appends the placeholder `$name`, or refuses the name and writes
    /// nothing.
    fn push_bind_param(&mut self, name: &str) -> (r: BuildQueryResult)
        ensures
            match bind_param_error(old(self).state().prefix, name@) {
                Some(kind) => r is Err && is_error(r->Err_0, kind, name@) && final(self).state() == old(
                    self,
                ).state(),
                None => r is Ok && final(self).state() == with_sql(old(self).state(), seq!['$'] + name@),
            },
    ;

    /// The text and the parameters, sorted by name.
    fn finish(self) -> (r: SQLQuery)
        ensures
            r.sql@ == self.state().sql,
            query_args(r.args@) == named_values(sorted_by_name(self.state().args)),
    ;
}

impl QueryBuilder for SQLiteQueryBuilder {
    open spec fn state(&self) -> BuilderView {
        self@
    }

    fn push_sql(&mut self, sql: &str) {
        SQLiteQueryBuilder::push_sql(self, sql)
    }

    fn push_identifier(&mut self, identifier: &str) -> (r: BuildQueryResult) {
        SQLiteQueryBuilder::push_identifier(self, identifier)
    }

    fn push_typed_value(&mut self, value: &TypedValue) -> (r: BuildQueryResult) {
        SQLiteQueryBuilder::push_typed_value(self, value)
    }

    fn push_bind_param(&mut self, name: &str) -> (r: BuildQueryResult) {
        SQLiteQueryBuilder::push_bind_param(self, name)
    }

    fn finish(self) -> (r: SQLQuery) {
        SQLiteQueryBuilder::finish(self)
    }
}

/// A piece of a statement that can be written to a builder.
pub trait QueryFragment {
    /// What the builder holds once the piece is written after `before`, or
    /// the error that writing it gives.
    spec fn written(&self, before: BuilderView) -> Written;

    /// Writes the piece.
    fn push_sql(&self, out: &mut SQLiteQueryBuilder) -> (r: BuildQueryResult)
        ensures
            wrote(r, final(out)@, self.written(old(out)@)),
    ;
}

impl QueryFragment for ColumnOrExpression {
    open spec fn written(&self, before: BuilderView) -> Written {
        Ok(expression_sql(self@, before))
    }

    fn push_sql(&self, out: &mut SQLiteQueryBuilder) -> (r: BuildQueryResult) {
        ColumnOrExpression::push_sql(self, out)
    }
}

impl QueryFragment for ProjectedColumn {
    open spec fn written(&self, before: BuilderView) -> Written {
        Ok(projected_sql(self@, before))
    }

    fn push_sql(&self, out: &mut SQLiteQueryBuilder) -> (r: BuildQueryResult) {
        ProjectedColumn::push_sql(self, out)
    }
}

impl QueryFragment for Projection {
    open spec fn written(&self, before: BuilderView) -> Written {
        Ok(projection_sql(self@, before))
    }

    fn push_sql(&self, out: &mut SQLiteQueryBuilder) -> (r: BuildQueryResult) {
        Projection::push_sql(self, out)
    }
}

impl QueryFragment for Op {
    open spec fn written(&self, before: BuilderView) -> Written {
        Ok(with_sql(before, self.0@))
    }

    fn push_sql(&self, out: &mut SQLiteQueryBuilder) -> (r: BuildQueryResult) {
        Op::push_sql(self, out)
    }
}

impl QueryFragment for JoinOp {
    open spec fn written(&self, before: BuilderView) -> Written {
        Ok(with_sql(before, " JOIN "@))
    }

    fn push_sql(&self, out: &mut SQLiteQueryBuilder) -> (r: BuildQueryResult) {
        JoinOp::push_sql(self, out)
    }
}

impl QueryFragment for Constraint {
    open spec fn written(&self, before: BuilderView) -> Written {
        constraint_sql(self@, before)
    }

    fn push_sql(&self, out: &mut SQLiteQueryBuilder) -> (r: BuildQueryResult) {
        Constraint::push_sql(self, out)
    }
}

impl QueryFragment for TableOrSubquery {
    open spec fn written(&self, before: BuilderView) -> Written {
        table_sql(self@, before)
    }

    fn push_sql(&self, out: &mut SQLiteQueryBuilder) -> (r: BuildQueryResult) {
        TableOrSubquery::push_sql(self, out)
    }
}

impl QueryFragment for TableList {
    open spec fn written(&self, before: BuilderView) -> Written {
        tables_sql(table_views(self.0@), self.0@.len() as int, before)
    }

    fn push_sql(&self, out: &mut SQLiteQueryBuilder) -> (r: BuildQueryResult) {
        TableList::push_sql(self, out)
    }
}

impl QueryFragment for Join {
    open spec fn written(&self, before: BuilderView) -> Written {
        match table_sql(self.left@, before) {
            Ok(mid) => table_sql(self.right@, with_sql(mid, " JOIN "@)),
            Err(e) => Err(e),
        }
    }

    fn push_sql(&self, out: &mut SQLiteQueryBuilder) -> (r: BuildQueryResult) {
        Join::push_sql(self, out)
    }
}

impl QueryFragment for FromClause {
    open spec fn written(&self, before: BuilderView) -> Written {
        from_sql(self@, before)
    }

    fn push_sql(&self, out: &mut SQLiteQueryBuilder) -> (r: BuildQueryResult) {
        FromClause::push_sql(self, out)
    }
}

impl QueryFragment for SelectQuery {
    open spec fn written(&self, before: BuilderView) -> Written {
        select_sql(self@, before)
    }

    fn push_sql(&self, out: &mut SQLiteQueryBuilder) -> (r: BuildQueryResult) {
        SelectQuery::push_sql(self, out)
    }
}

} // verus!
