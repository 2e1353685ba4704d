//! From conjoining clauses to a `SELECT`: tables and computed tables become
//! the `FROM` clause, and column constraints become SQL constraints.

use vstd::prelude::*;
use crate::clauses::{
    ConjoiningClauses, alternates_wf, arms_wf, clauses_wf, constraint_wf, from_ok, table_wf,
    tables_wf, vars_projectable, wheres_wf,
};
use crate::query::{Limit, LimitView, Variable, contains_var, names_contain};
use crate::query_sql::{
    ColumnOrExpression, ColumnOrExpressionView, ColumnView, Constraint, ConstraintView,
    FromClause, FromView, Op, OrderByView, ProjectedColumn, ProjectedColumnView, Projection,
    ProjectionView, SelectQuery, SelectQueryView, TableList, TableOrSubquery, TableView,
    constraint_views, lemma_and_view, lemma_or_view, lemma_select_view, lemma_table_list_view,
    lemma_union_view, order_by_views, projected_views, qualified_view, select_views, table_views,
};
use crate::types::{
    Column, ColumnAlternation, ColumnConstraint, ColumnConstraintOrAlternation, ColumnIntersection,
    ColumnName, ComputedTable, DatomsColumn, DatomsTable, OrderBy, QualifiedAlias, QueryValue,
    SourceAlias, TableAlias, VariableColumn, sql_operator, variable_column_name,
};
use crate::values::{TypedValue, TypedValueView, ValueType, accommodates, tag_of, type_of_value};

verus! {

/// A vector whose elements are moved out one by one, each at most once.
pub struct ConsumableVec<T> {
    pub inner: Vec<Option<T>>,
}

impl<T> View for ConsumableVec<T> {
    type V = Seq<Option<T>>;

    open spec fn view(&self) -> Seq<Option<T>> {
        self.inner@
    }
}

impl<T> ConsumableVec<T> {
    /// Every element of `vec`, still in place.
    pub fn with_vec(vec: Vec<T>) -> (r: ConsumableVec<T>)
        ensures
            r@.len() == vec@.len(),
            forall|i: int| 0 <= i < vec@.len() ==> #[trigger] r@[i] == Some(vec@[i]),
    {
        let mut vec = vec;
        let ghost all = vec@;
        let mut rev: Vec<Option<T>> = Vec::new();
        while vec.len() > 0
            invariant
                vec@.len() + rev@.len() == all.len(),
                vec@ == all.subrange(0, vec@.len() as int),
                forall|j: int| 0 <= j < rev@.len() ==> #[trigger] rev@[j] == Some(all[all.len() - 1 - j]),
            decreases vec@.len(),
        {
            let x = vec.pop();
            rev.push(x);
            assert(vec@ =~= all.subrange(0, vec@.len() as int));
        }
        let mut inner: Vec<Option<T>> = Vec::new();
        let ghost rall = rev@;
        while rev.len() > 0
            invariant
                rev@.len() + inner@.len() == all.len(),
                rall.len() == all.len(),
                rev@ == rall.subrange(0, rev@.len() as int),
                forall|j: int| 0 <= j < rall.len() ==> #[trigger] rall[j] == Some(all[all.len() - 1 - j]),
                forall|j: int| 0 <= j < inner@.len() ==> #[trigger] inner@[j] == Some(all[j]),
            decreases rev@.len(),
        {
            match rev.pop() {
                Some(x) => {
                    inner.push(x);
                    assert(rev@ =~= rall.subrange(0, rev@.len() as int));
                },
                None => {},
            }
        }
        ConsumableVec { inner }
    }

    /// Moves the element at `i` out. It must still be in place.
    pub fn take_dangerously(&mut self, i: usize) -> (r: T)
        requires
            i < old(self)@.len(),
            old(self)@[i as int] is Some,
        ensures
            r == old(self)@[i as int]->0,
            final(self)@ == old(self)@.update(i as int, None),
    {
        self.inner.push(None);
        let taken = self.inner.swap_remove(i);
        assert(self.inner@ =~= old(self)@.update(i as int, None));
        match taken {
            Some(x) => x,
            None => {
                // Not reached: the element is in place.
                loop
                    invariant
                        false,
                    decreases 0int,
                {
                }
            },
        }
    }
}

/// The expression that a query value denotes. A bare integer is a long.
pub open spec fn query_value_view(v: QueryValue) -> ColumnOrExpressionView {
    match v {
        QueryValue::Column(qa) => qualified_view(qa),
        QueryValue::Entid(e) => ColumnOrExpressionView::Entid(e as int),
        QueryValue::TypedValue(tv) => ColumnOrExpressionView::Value(tv@),
        QueryValue::PrimitiveLong(n) => ColumnOrExpressionView::Value(TypedValueView::Long(n as int)),
    }
}

/// `left = right`.
pub open spec fn equal_view(left: ColumnOrExpressionView, right: ColumnOrExpressionView) -> ConstraintView {
    ConstraintView::Infix { op: "="@, left, right }
}

/// The type-tag column of a table.
pub open spec fn tag_column_view(table: Seq<char>) -> ColumnOrExpressionView {
    ColumnOrExpressionView::Column { table, column: ColumnView::Fixed(DatomsColumn::ValueTypeTag) }
}

/// The constraint that says a column holds the bare integer `n`. Where `n`
/// could be the stored form of a boolean, the constraint also says that the
/// row's type tag is not the boolean tag.
pub open spec fn primitive_long_view(qa: QualifiedAlias, n: int) -> ConstraintView {
    let value = equal_view(qualified_view(qa), ColumnOrExpressionView::Value(TypedValueView::Long(n)));
    if accommodates(ValueType::Boolean, n) {
        ConstraintView::And(
            seq![
                value,
                ConstraintView::Infix {
                    op: "<>"@,
                    left: tag_column_view(qa.0@),
                    right: ColumnOrExpressionView::Integer(tag_of(ValueType::Boolean)),
                },
            ],
        )
    } else {
        value
    }
}

/// The constraint that a column constraint denotes.
pub open spec fn column_constraint_view(c: ColumnConstraint) -> ConstraintView
    decreases c, 0int,
{
    match c {
        ColumnConstraint::Equals(qa, QueryValue::PrimitiveLong(n)) => primitive_long_view(qa, n as int),
        ColumnConstraint::Equals(qa, v) => equal_view(qualified_view(qa), query_value_view(v)),
        ColumnConstraint::NumericInequality { operator, left, right } => ConstraintView::Infix {
            op: sql_operator(operator),
            left: query_value_view(left),
            right: query_value_view(right),
        },
        ColumnConstraint::HasType(table, value_type) => equal_view(
            tag_column_view(table@),
            ColumnOrExpressionView::Integer(tag_of(value_type)),
        ),
        ColumnConstraint::NotExists(t) => ConstraintView::NotExists(computed_view(t, seq![])),
    }
}

/// The constraint that a constraint or an alternation denotes.
pub open spec fn where_view(c: ColumnConstraintOrAlternation) -> ConstraintView
    decreases c, 1int,
{
    match c {
        ColumnConstraintOrAlternation::Constraint(c) => column_constraint_view(c),
        ColumnConstraintOrAlternation::Alternation(alt) => ConstraintView::Or(
            alternates_view(alt.0@, alt.0@.len() as int),
        ),
    }
}

/// The constraints that the first `n` members of an intersection denote.
pub open spec fn wheres_view(cs: Seq<ColumnConstraintOrAlternation>, n: int) -> Seq<ConstraintView>
    decreases cs, n,
{
    if n <= 0 || n > cs.len() {
        seq![]
    } else {
        wheres_view(cs, n - 1).push(where_view(cs[n - 1]))
    }
}

/// The conjunctions that the first `n` alternates denote.
pub open spec fn alternates_view(cs: Seq<ColumnIntersection>, n: int) -> Seq<ConstraintView>
    decreases cs, n,
{
    if n <= 0 || n > cs.len() {
        seq![]
    } else {
        alternates_view(cs, n - 1).push(
            ConstraintView::And(wheres_view(cs[n - 1].0@, cs[n - 1].0@.len() as int)),
        )
    }
}

/// The column that a union's arm projects for the variable `var`: its value
/// if it has one, and else the first column it is bound to.
pub open spec fn projected_column_view(var: Variable, cc: ConjoiningClauses) -> ProjectedColumnView {
    match cc.value_of(var@) {
        Some(value) => ProjectedColumnView {
            expression: ColumnOrExpressionView::Value(value@),
            name: var@,
        },
        None => ProjectedColumnView {
            expression: match cc.column_of(var@) {
                Some(qa) => qualified_view(qa),
                None => ColumnOrExpressionView::Integer(0),
            },
            name: var@,
        },
    }
}

/// The type that an arm knows the variable `var` to have.
pub open spec fn projected_type(var: Variable, cc: ConjoiningClauses) -> Option<ValueType> {
    match cc.value_of(var@) {
        Some(value) => Some(type_of_value(value)),
        None => cc.type_of(var@),
    }
}

/// The column that a union's arm projects for the type tag of `var`: the tag
/// itself where the arm knows the type, and else the column that holds it.
pub open spec fn projected_tag_view(var: Variable, cc: ConjoiningClauses) -> ProjectedColumnView {
    ProjectedColumnView {
        expression: match projected_type(var, cc) {
            Some(t) => ColumnOrExpressionView::Integer(tag_of(t)),
            None => match cc.extracted_type_of(var@) {
                Some(qa) => qualified_view(qa),
                None => ColumnOrExpressionView::Integer(0),
            },
        },
        name: variable_column_name(VariableColumn::VariableTypeTag(var)),
    }
}

/// The columns that an arm projects for the first `n` variables of a union:
/// each variable under its own name, followed by its type tag where the union
/// extracts the type.
pub open spec fn arm_columns(projection: Seq<Variable>, types: Seq<Variable>, cc: ConjoiningClauses, n: int) -> Seq<ProjectedColumnView>
    decreases n,
{
    if n <= 0 || n > projection.len() {
        seq![]
    } else {
        let var = projection[n - 1];
        let before = arm_columns(projection, types, cc, n - 1).push(projected_column_view(var, cc));
        if names_contain(types, var@) {
            before.push(projected_tag_view(var, cc))
        } else {
            before
        }
    }
}

/// The table or subquery that a computed table denotes under `alias`.
pub open spec fn computed_view(t: ComputedTable, alias: Seq<char>) -> TableView
    decreases t, 0int,
{
    match t {
        ComputedTable::Union { projection, type_extraction, arms } => TableView::Union {
            arms: arms_view(projection@, type_extraction@, arms@, arms@.len() as int),
            alias,
        },
        ComputedTable::Subquery(cc) => TableView::Subquery(
            Box::new(select_of(ProjectionView::One, cc, false, seq![], LimitView::Unlimited)),
        ),
    }
}

/// The queries that the first `n` arms of a union denote.
pub open spec fn arms_view(projection: Seq<Variable>, types: Seq<Variable>, arms: Seq<ConjoiningClauses>, n: int) -> Seq<SelectQueryView>
    decreases arms, n,
{
    if n <= 0 || n > arms.len() {
        seq![]
    } else {
        arms_view(projection, types, arms, n - 1).push(
            select_of(
                ProjectionView::Columns(
                    arm_columns(projection, types, arms[n - 1], projection.len() as int),
                ),
                arms[n - 1],
                false,
                seq![],
                LimitView::Unlimited,
            ),
        )
    }
}

/// The tables that the first `n` entries of `from` denote.
pub open spec fn from_views(from: Seq<SourceAlias>, tables: Seq<ComputedTable>, n: int) -> Seq<TableView>
    decreases tables, n,
{
    if n <= 0 || n > from.len() {
        seq![]
    } else {
        from_views(from, tables, n - 1).push(
            match from[n - 1].0 {
                DatomsTable::Computed(i) => if i < tables.len() {
                    computed_view(tables[i as int], from[n - 1].1@)
                } else {
                    TableView::Table { table: from[n - 1].0, alias: from[n - 1].1@ }
                },
                _ => TableView::Table { table: from[n - 1].0, alias: from[n - 1].1@ },
            },
        )
    }
}

/// The query that conjoining clauses denote, for a given projection,
/// ordering and limit. A conjunction that is known to be empty gets the
/// limit 0, whatever limit was asked for.
pub open spec fn select_of(projection: ProjectionView, cc: ConjoiningClauses, distinct: bool, order: Seq<OrderByView>, limit: LimitView) -> SelectQueryView
    decreases cc, 0int,
{
    SelectQueryView {
        distinct,
        projection,
        from: if cc.from@.len() == 0 {
            FromView::Nothing
        } else {
            FromView::TableList(from_views(cc.from@, cc.computed_tables@, cc.from@.len() as int))
        },
        constraints: wheres_view(cc.wheres.0@, cc.wheres.0@.len() as int),
        order,
        limit: if cc.empty_because is Some {
            LimitView::Fixed(0)
        } else {
            limit
        },
    }
}

/// `SELECT 1 LIMIT 0`: the query that matches nothing, whatever the store.
pub open spec fn nothing_view() -> SelectQueryView {
    SelectQueryView {
        distinct: false,
        projection: ProjectionView::One,
        from: FromView::Nothing,
        constraints: seq![],
        order: seq![],
        limit: LimitView::Fixed(0),
    }
}

/// The query that gives one row if the clauses match the store and none if
/// they do not.
pub open spec fn exists_view(cc: ConjoiningClauses) -> SelectQueryView {
    if cc.empty_because is Some {
        nothing_view()
    } else {
        select_of(ProjectionView::One, cc, false, seq![], LimitView::Fixed(1))
    }
}

impl QueryValue {
    /// The expression that this value denotes.
    pub fn into_expression(self) -> (r: ColumnOrExpression)
        ensures
            r@ == query_value_view(self),
    {
        match self {
            QueryValue::Column(qa) => ColumnOrExpression::Column(qa),
            QueryValue::Entid(e) => ColumnOrExpression::Entid(e),
            QueryValue::TypedValue(tv) => ColumnOrExpression::Value(tv),
            QueryValue::PrimitiveLong(n) => ColumnOrExpression::Value(TypedValue::Long(n)),
        }
    }
}

impl QualifiedAlias {
    /// This column as an expression.
    pub fn to_column(self) -> (r: ColumnOrExpression)
        ensures
            r == ColumnOrExpression::Column(self),
    {
        ColumnOrExpression::Column(self)
    }
}

impl ColumnConstraint {
    /// The SQL constraint that this constraint denotes.
    ///
    /// A bare integer in a query may stand for a ref, an instant, a long or a
    /// double. Booleans are stored as 0 and 1, so for those two integers the
    /// constraint also excludes rows whose type tag is the boolean tag.
    pub fn to_constraint(self) -> (r: Constraint)
        requires
            constraint_wf(ColumnConstraintOrAlternation::Constraint(self)),
        ensures
            r@ == column_constraint_view(self),
        decreases self, 0int,
    {
        match self {
            ColumnConstraint::Equals(qa, QueryValue::Entid(entid)) => Constraint::equal(
                qa.to_column(),
                ColumnOrExpression::Entid(entid),
            ),
            ColumnConstraint::Equals(qa, QueryValue::TypedValue(tv)) => Constraint::equal(
                qa.to_column(),
                ColumnOrExpression::Value(tv),
            ),
            ColumnConstraint::Equals(left, QueryValue::Column(right)) => Constraint::equal(
                left.to_column(),
                right.to_column(),
            ),
            ColumnConstraint::Equals(qa, QueryValue::PrimitiveLong(value)) => {
                let tag_column = qa.for_type_tag().to_column();
                let value_column = qa.to_column();
                let must_exclude_boolean = ValueType::Boolean.accommodates_integer(value);
                if must_exclude_boolean {
                    let mut constraints: Vec<Constraint> = Vec::new();
                    constraints.push(
                        Constraint::equal(
                            value_column,
                            ColumnOrExpression::Value(TypedValue::Long(value)),
                        ),
                    );
                    constraints.push(
                        Constraint::not_equal(
                            tag_column,
                            ColumnOrExpression::Integer(ValueType::Boolean.value_type_tag()),
                        ),
                    );
                    let r = Constraint::And { constraints };
                    proof {
                        lemma_and_view(r);
                        assert(constraint_views(constraints@) =~= primitive_long_view(
                            qa,
                            value as int,
                        )->And_0);
                    }
                    r
                } else {
                    Constraint::equal(value_column, ColumnOrExpression::Value(TypedValue::Long(value)))
                }
            },
            ColumnConstraint::NumericInequality { operator, left, right } => {
                Constraint::Infix {
                    op: Op(operator.to_sql_operator()),
                    left: left.into_expression(),
                    right: right.into_expression(),
                }
            },
            ColumnConstraint::HasType(table, value_type) => {
                let column = QualifiedAlias::new(table, Column::Fixed(DatomsColumn::ValueTypeTag)).to_column();
                Constraint::equal(column, ColumnOrExpression::Integer(value_type.value_type_tag()))
            },
            ColumnConstraint::NotExists(computed_table) => {
                let subquery = table_for_computed(computed_table, String::new());
                Constraint::NotExists { subquery }
            },
        }
    }
}

impl ColumnConstraintOrAlternation {
    /// The SQL constraint that this constraint or alternation denotes.
    pub fn to_constraint(self) -> (r: Constraint)
        requires
            constraint_wf(self),
        ensures
            r@ == where_view(self),
        decreases self, 1int,
    {
        match self {
            ColumnConstraintOrAlternation::Alternation(alt) => alt.to_constraint(),
            ColumnConstraintOrAlternation::Constraint(c) => c.to_constraint(),
        }
    }
}

fn wheres_to_constraints(cs: Vec<ColumnConstraintOrAlternation>) -> (r: Vec<Constraint>)
    requires
        wheres_wf(cs@, cs@.len() as int),
    ensures
        constraint_views(r@) == wheres_view(cs@, cs@.len() as int),
    decreases cs, 0int,
{
    let n = cs.len();
    let ghost all = cs;
    let mut items = ConsumableVec::with_vec(cs);
    let mut out: Vec<Constraint> = Vec::new();
    let mut i: usize = 0;
    while i < n
        invariant
            i <= n == all@.len(),
            all == cs,
            items@.len() == n,
            wheres_wf(all@, all@.len() as int),
            forall|j: int| i <= j < n ==> #[trigger] items@[j] == Some(all@[j]),
            out@.len() == i,
            constraint_views(out@) == wheres_view(all@, i as int),
        decreases n - i,
    {
        let c = items.take_dangerously(i);
        proof {
            lemma_wheres_wf_at(all@, all@.len() as int, i as int);
            assert(decreases_to!(all => all[i as int]));
        }
        let ghost before = constraint_views(out@);
        let k = c.to_constraint();
        out.push(k);
        assert(constraint_views(out@) =~= before.push(k@));
        i += 1;
    }
    out
}

impl ColumnIntersection {
    /// The conjunction of what the members denote.
    pub fn to_constraint(self) -> (r: Constraint)
        requires
            wheres_wf(self.0@, self.0@.len() as int),
        ensures
            r@ == ConstraintView::And(wheres_view(self.0@, self.0@.len() as int)),
        decreases self, 0int,
    {
        let r = Constraint::And { constraints: wheres_to_constraints(self.0) };
        proof {
            lemma_and_view(r);
        }
        r
    }
}

impl ColumnAlternation {
    /// The disjunction of what the alternates denote.
    pub fn to_constraint(self) -> (r: Constraint)
        requires
            alternates_wf(self.0@, self.0@.len() as int),
        ensures
            r@ == ConstraintView::Or(alternates_view(self.0@, self.0@.len() as int)),
        decreases self, 0int,
    {
        let n = self.0.len();
        let ghost all = self.0;
        let mut items = ConsumableVec::with_vec(self.0);
        let mut out: Vec<Constraint> = Vec::new();
        let mut i: usize = 0;
        while i < n
            invariant
                i <= n == all@.len(),
                all == self.0,
                items@.len() == n,
                alternates_wf(all@, all@.len() as int),
                forall|j: int| i <= j < n ==> #[trigger] items@[j] == Some(all@[j]),
                out@.len() == i,
                constraint_views(out@) == alternates_view(all@, i as int),
            decreases n - i,
        {
            let c = items.take_dangerously(i);
            proof {
                lemma_alternates_wf_at(all@, all@.len() as int, i as int);
                assert(decreases_to!(self => self.0));
                assert(decreases_to!(all => all[i as int]));
            }
            let ghost before = constraint_views(out@);
            let k = c.to_constraint();
            out.push(k);
            assert(constraint_views(out@) =~= before.push(k@));
            i += 1;
        }
        let r = Constraint::Or { constraints: out };
        proof {
            lemma_or_view(r);
        }
        r
    }
}

/// Every one of the first `n` constraints is well formed.
pub proof fn lemma_wheres_wf_at(cs: Seq<ColumnConstraintOrAlternation>, n: int, i: int)
    requires
        0 <= i < n <= cs.len(),
        wheres_wf(cs, n),
    ensures
        constraint_wf(cs[i]),
    decreases n,
{
    if i < n - 1 {
        lemma_wheres_wf_at(cs, n - 1, i);
    }
}

/// Every one of the first `n` alternates is well formed.
pub proof fn lemma_alternates_wf_at(cs: Seq<ColumnIntersection>, n: int, i: int)
    requires
        0 <= i < n <= cs.len(),
        alternates_wf(cs, n),
    ensures
        wheres_wf(cs[i].0@, cs[i].0@.len() as int),
    decreases n,
{
    if i < n - 1 {
        lemma_alternates_wf_at(cs, n - 1, i);
    }
}

/// Every one of the first `n` computed tables is well formed.
pub proof fn lemma_tables_wf_at(ts: Seq<ComputedTable>, n: int, i: int)
    requires
        0 <= i < n <= ts.len(),
        tables_wf(ts, n),
    ensures
        table_wf(ts[i]),
    decreases n,
{
    if i < n - 1 {
        lemma_tables_wf_at(ts, n - 1, i);
    }
}

/// Every one of the first `n` arms is well formed and binds what the union
/// projects.
pub proof fn lemma_arms_wf_at(projection: Seq<Variable>, types: Seq<Variable>, arms: Seq<ConjoiningClauses>, n: int, i: int)
    requires
        0 <= i < n <= arms.len(),
        arms_wf(projection, types, arms, n),
    ensures
        clauses_wf(arms[i]),
        vars_projectable(arms[i], projection, types, projection.len() as int),
    decreases n,
{
    if i < n - 1 {
        lemma_arms_wf_at(projection, types, arms, n - 1, i);
    }
}

/// Every one of the first `n` variables is bound, and typed where asked.
pub proof fn lemma_projectable_at(cc: ConjoiningClauses, vars: Seq<Variable>, types: Seq<Variable>, n: int, i: int)
    requires
        0 <= i < n <= vars.len(),
        vars_projectable(cc, vars, types, n),
    ensures
        cc.is_bound(vars[i]@),
        names_contain(types, vars[i]@) ==> cc.is_typed(vars[i]@),
    decreases n,
{
    if i < n - 1 {
        lemma_projectable_at(cc, vars, types, n - 1, i);
    }
}

/// The column that `cc` projects for `var`, and the type that it knows `var`
/// to have.
pub fn projected_column_for_var(var: &Variable, cc: &ConjoiningClauses) -> (r: (ProjectedColumn, Option<ValueType>))
    requires
        cc.is_bound(var@),
    ensures
        r.0@ == projected_column_view(*var, *cc),
        r.1 == projected_type(*var, *cc),
{
    let name = VariableColumn::Variable(var.clone()).column_name();
    match cc.bound_value(var) {
        Some(value) => {
            let tag = value.value_type();
            (ProjectedColumn(ColumnOrExpression::Value(value.clone()), name), Some(tag))
        },
        None => {
            let qa = match cc.first_column(var) {
                Some(qa) => qa.clone(),
                None => {
                    // Not reached: a variable without a value has a column.
                    QualifiedAlias(String::new(), Column::Fixed(DatomsColumn::Entity))
                },
            };
            let known = cc.known_type(var);
            (ProjectedColumn(ColumnOrExpression::Column(qa), name), known)
        },
    }
}

fn arm_projection(projection: &Vec<Variable>, type_extraction: &Vec<Variable>, cc: &ConjoiningClauses) -> (r: Vec<ProjectedColumn>)
    requires
        vars_projectable(*cc, projection@, type_extraction@, projection@.len() as int),
    ensures
        projected_views(r@) == arm_columns(projection@, type_extraction@, *cc, projection@.len() as int),
{
    let mut columns: Vec<ProjectedColumn> = Vec::new();
    let mut i: usize = 0;
    assert(projected_views(columns@) =~= arm_columns(projection@, type_extraction@, *cc, 0));
    while i < projection.len()
        invariant
            i <= projection@.len(),
            vars_projectable(*cc, projection@, type_extraction@, projection@.len() as int),
            projected_views(columns@) == arm_columns(projection@, type_extraction@, *cc, i as int),
        decreases projection@.len() - i,
    {
        let var = &projection[i];
        proof {
            lemma_projectable_at(*cc, projection@, type_extraction@, projection@.len() as int, i as int);
        }
        let (projected_column, known) = projected_column_for_var(var, cc);
        let ghost before = projected_views(columns@);
        columns.push(projected_column);
        assert(projected_views(columns@) =~= before.push(projected_column@));
        if contains_var(type_extraction, var) {
            let expression = match known {
                Some(t) => ColumnOrExpression::Integer(t.value_type_tag()),
                None => match cc.extracted_type(var) {
                    Some(extract) => ColumnOrExpression::Column(extract.clone()),
                    None => ColumnOrExpression::Integer(0),
                },
            };
            let type_column = VariableColumn::VariableTypeTag(var.clone());
            let proj = ProjectedColumn(expression, type_column.column_name());
            let ghost mid = projected_views(columns@);
            columns.push(proj);
            assert(projected_views(columns@) =~= mid.push(proj@));
        }
        i += 1;
    }
    columns
}

/// The table or subquery that a computed table denotes. Every arm of a union
/// projects the same variables, in the same order and under the same names.
pub fn table_for_computed(computed: ComputedTable, alias: TableAlias) -> (r: TableOrSubquery)
    requires
        table_wf(computed),
    ensures
        r@ == computed_view(computed, alias@),
    decreases computed, 1int,
{
    match computed {
        ComputedTable::Union { projection, type_extraction, arms } => {
            let n = arms.len();
            let ghost all = arms;
            let mut items = ConsumableVec::with_vec(arms);
            let mut queries: Vec<SelectQuery> = Vec::new();
            let mut i: usize = 0;
            while i < n
                invariant
                    i <= n == all@.len(),
                    computed is Union,
                    computed->Union_arms == all,
                    items@.len() == n,
                    arms_wf(projection@, type_extraction@, all@, all@.len() as int),
                    forall|j: int| i <= j < n ==> #[trigger] items@[j] == Some(all@[j]),
                    queries@.len() == i,
                    select_views(queries@) == arms_view(projection@, type_extraction@, all@, i as int),
                decreases n - i,
            {
                let cc = items.take_dangerously(i);
                proof {
                    lemma_arms_wf_at(projection@, type_extraction@, all@, all@.len() as int, i as int);
                    assert(decreases_to!(computed => computed->Union_arms));
                    assert(decreases_to!(all => all[i as int]));
                }
                let columns = arm_projection(&projection, &type_extraction, &cc);
                let ghost before = select_views(queries@);
                let q = cc_to_select_query(
                    Projection::Columns(columns),
                    cc,
                    false,
                    Vec::new(),
                    Limit::Unlimited,
                );
                queries.push(q);
                proof {
                    assert(order_by_views(Seq::<OrderBy>::empty()) =~= Seq::<OrderByView>::empty());
                    assert(select_views(queries@) =~= before.push(q@));
                }
                i += 1;
            }
            let r = TableOrSubquery::Union(queries, alias);
            proof {
                lemma_union_view(r);
            }
            r
        },
        ComputedTable::Subquery(subquery) => {
            let q = cc_to_select_query(Projection::One, subquery, false, Vec::new(), Limit::Unlimited);
            proof {
                assert(order_by_views(Seq::<OrderBy>::empty()) =~= Seq::<OrderByView>::empty());
            }
            TableOrSubquery::Subquery(Box::new(q))
        },
    }
}

/// The query that selects `projection` from the rows that `cc` matches. This
/// query always reads the store; a caller that wants to avoid that asks
/// first whether `cc` is known to be empty.
pub fn cc_to_select_query(
    projection: Projection,
    cc: ConjoiningClauses,
    distinct: bool,
    order: Vec<OrderBy>,
    limit: Limit,
) -> (r: SelectQuery)
    requires
        clauses_wf(cc),
    ensures
        r@ == select_of(projection@, cc, distinct, order_by_views(order@), limit@),
        cc.empty_because is Some ==> r.limit == Limit::Fixed(0),
        r.distinct == distinct,
    decreases cc, 0int,
{
    let ghost cc0 = cc;
    let ConjoiningClauses {
        empty_because,
        alias_counter: _,
        from,
        computed_tables,
        wheres,
        column_bindings: _,
        input_variables: _,
        value_bindings: _,
        known_types: _,
        extracted_types: _,
    } = cc;
    let from_clause = if from.len() == 0 {
        FromClause::Nothing
    } else {
        let ghost tables = computed_tables;
        let mut computed = ConsumableVec::with_vec(computed_tables);
        let mut out: Vec<TableOrSubquery> = Vec::new();
        let mut i: usize = 0;
        while i < from.len()
            invariant
                i <= from@.len(),
                cc0 == cc,
                tables == cc0.computed_tables,
                from == cc0.from,
                from_ok(from@, tables@.len() as int),
                tables_wf(tables@, tables@.len() as int),
                computed@.len() == tables@.len(),
                forall|k: int|
                    0 <= k < tables@.len() ==> (#[trigger] computed@[k] == Some(tables@[k])
                        || exists|j: int|
                        0 <= j < i && #[trigger] from@[j].0 == DatomsTable::Computed(k as usize)),
                out@.len() == i,
                table_views(out@) == from_views(from@, tables@, i as int),
            decreases from@.len() - i,
        {
            let ghost before = table_views(out@);
            let t = match from[i].0 {
                DatomsTable::Computed(k) => {
                    proof {
                        assert(computed@[k as int] == Some(tables@[k as int])) by {
                            if computed@[k as int] != Some(tables@[k as int]) {
                                let j = choose|j: int|
                                    0 <= j < i && #[trigger] from@[j].0 == DatomsTable::Computed(k);
                                assert(from@[i as int].0 == from@[j].0);
                            }
                        }
                        lemma_tables_wf_at(tables@, tables@.len() as int, k as int);
                        assert(decreases_to!(cc0 => cc0.computed_tables));
                        assert(decreases_to!(tables => tables[k as int]));
                    }
                    let comp = computed.take_dangerously(k);
                    table_for_computed(comp, from[i].1.clone())
                },
                _ => TableOrSubquery::Table(from[i].clone()),
            };
            out.push(t);
            assert(table_views(out@) =~= before.push(t@));
            i += 1;
        }
        let f = FromClause::TableList(TableList(out));
        proof {
            lemma_table_list_view(f);
        }
        f
    };
    let limit = if empty_because.is_some() {
        Limit::Fixed(0)
    } else {
        limit
    };
    proof {
        assert(decreases_to!(cc0 => cc0.wheres));
        assert(decreases_to!(cc0.wheres => cc0.wheres.0));
    }
    let constraints = wheres_to_constraints(wheres.0);
    let r = SelectQuery { distinct, projection, from: from_clause, constraints, order, limit };
    proof {
        lemma_select_view(r);
    }
    r
}

/// The query that projects `1` if `cc` matches the store, and gives no row
/// if it does not.
pub fn cc_to_exists(cc: ConjoiningClauses) -> (r: SelectQuery)
    requires
        clauses_wf(cc),
    ensures
        r@ == exists_view(cc),
        cc.empty_because is Some ==> r.limit == Limit::Fixed(0),
        !r.distinct,
{
    if cc.is_known_empty() {
        // A plain query that gives no row.
        let r = SelectQuery {
            distinct: false,
            projection: Projection::One,
            from: FromClause::Nothing,
            constraints: Vec::new(),
            order: Vec::new(),
            limit: Limit::Fixed(0),
        };
        proof {
            lemma_select_view(r);
            assert(r@.constraints =~= Seq::<ConstraintView>::empty());
            assert(r@.order =~= Seq::<OrderByView>::empty());
        }
        r
    } else {
        let r = cc_to_select_query(Projection::One, cc, false, Vec::new(), Limit::Fixed(1));
        proof {
            assert(order_by_views(Seq::<OrderBy>::empty()) =~= Seq::<OrderByView>::empty());
        }
        r
    }
}

/// A `SELECT` and the projector of its rows.
pub struct ProjectedSelect {
    pub query: SelectQuery,
    pub projector: crate::projector::Projector,
}

/// The ordering of a query as a list.
pub open spec fn order_of(order: Option<Vec<OrderBy>>) -> Seq<OrderByView> {
    match order {
        Some(os) => order_by_views(os@),
        None => seq![],
    }
}

/// Turns an algebrized query into a `SELECT` and the projector of its rows.
///
/// With the limit 1 the rows are not made distinct, and a query that is
/// known to be empty gets the limit 0.
pub fn query_to_select(query: crate::algebrizer::AlgebraicQuery) -> (r: ProjectedSelect)
    requires
        query.wf(),
    ensures
        r.query@ == select_of(
            crate::projector::projection_of(query),
            query.cc,
            crate::projector::distinct_of(query),
            order_of(query.order),
            query.limit@,
        ),
        query.limit == Limit::Fixed(1) ==> !r.query.distinct,
        query.cc.known_empty() ==> r.query.limit == Limit::Fixed(0),
        r.projector.shape == crate::projector::shape_of(query.find_spec),
{
    let projection = crate::projector::query_projection(&query);
    let crate::projector::CombinedProjection { sql_projection, datalog_projector, distinct } = projection;
    let crate::algebrizer::AlgebraicQuery {
        default_source: _,
        find_spec: _,
        has_aggregates: _,
        with: _,
        order,
        limit,
        cc,
    } = query;
    let order = match order {
        Some(os) => os,
        None => {
            let none: Vec<OrderBy> = Vec::new();
            assert(order_by_views(none@) =~= Seq::<OrderByView>::empty());
            none
        },
    };
    ProjectedSelect {
        query: cc_to_select_query(sql_projection, cc, distinct, order, limit),
        projector: datalog_projector,
    }
}

/// The names under which columns are projected.
pub open spec fn column_names(cols: Seq<ProjectedColumnView>) -> Seq<Seq<char>> {
    Seq::new(cols.len(), |i: int| cols[i].name)
}

/// Any two arms of a union project the same names in the same order: each
/// variable of the union under its own name, followed by the name of its
/// type tag where the union extracts its type.
pub proof fn lemma_arms_project_alike(projection: Seq<Variable>, types: Seq<Variable>, a: ConjoiningClauses, b: ConjoiningClauses, n: int)
    requires
        0 <= n <= projection.len(),
    ensures
        column_names(arm_columns(projection, types, a, n)) == column_names(
            arm_columns(projection, types, b, n),
        ),
    decreases n,
{
    if n > 0 {
        lemma_arms_project_alike(projection, types, a, b, n - 1);
        let var = projection[n - 1];
        let before_a = arm_columns(projection, types, a, n - 1);
        let before_b = arm_columns(projection, types, b, n - 1);
        let next_a = before_a.push(projected_column_view(var, a));
        let next_b = before_b.push(projected_column_view(var, b));
        assert(column_names(next_a) =~= column_names(before_a).push(var@));
        assert(column_names(next_b) =~= column_names(before_b).push(var@));
        if names_contain(types, var@) {
            let tag = variable_column_name(VariableColumn::VariableTypeTag(var));
            assert(column_names(next_a.push(projected_tag_view(var, a))) =~= column_names(next_a).push(tag));
            assert(column_names(next_b.push(projected_tag_view(var, b))) =~= column_names(next_b).push(tag));
        }
    } else {
        assert(column_names(arm_columns(projection, types, a, n)) =~= column_names(
            arm_columns(projection, types, b, n),
        ));
    }
}

/// A bare 0 or 1 in the value place is compared together with the type tag:
/// the constraint is the conjunction of `column = n` and
/// `value_type_tag <> 1`, the tag of booleans.
pub proof fn lemma_boolean_guard(qa: QualifiedAlias, n: i64)
    requires
        n == 0 || n == 1,
    ensures
        column_constraint_view(ColumnConstraint::Equals(qa, QueryValue::PrimitiveLong(n)))
            == ConstraintView::And(
            seq![
                equal_view(qualified_view(qa), ColumnOrExpressionView::Value(TypedValueView::Long(n as int))),
                ConstraintView::Infix {
                    op: "<>"@,
                    left: tag_column_view(qa.0@),
                    right: ColumnOrExpressionView::Integer(1),
                },
            ],
        ),
{
}

/// Any other bare integer is compared as it stands.
pub proof fn lemma_no_guard(qa: QualifiedAlias, n: i64)
    requires
        n != 0 && n != 1,
    ensures
        column_constraint_view(ColumnConstraint::Equals(qa, QueryValue::PrimitiveLong(n))) == equal_view(
            qualified_view(qa),
            ColumnOrExpressionView::Value(TypedValueView::Long(n as int)),
        ),
{
}

/// Clauses that are known to be empty select with the limit 0, whatever is
/// projected and whatever limit is asked for; and asked whether they match,
/// they give `SELECT 1 LIMIT 0`.
pub proof fn lemma_known_empty_selects_nothing(projection: ProjectionView, cc: ConjoiningClauses, distinct: bool, order: Seq<OrderByView>, limit: LimitView)
    requires
        cc.empty_because is Some,
    ensures
        select_of(projection, cc, distinct, order, limit).limit == LimitView::Fixed(0),
        exists_view(cc) == nothing_view(),
{
}

} // verus!
