//! The projection of a query: the columns that its `SELECT` projects, and how
//! the columns of a row become the typed values of a result.

use vstd::prelude::*;
use crate::algebrizer::{AlgebraicQuery, find_spec_variables, find_variables};
use crate::clauses::{ConjoiningClauses, vars_projectable};
use crate::query::{FindSpec, Limit, Variable, names_contain};
use crate::query_sql::{
    ColumnOrExpression, ProjectedColumn, ProjectedColumnView, Projection, ProjectionView,
    projected_views,
};
use crate::translate::{
    lemma_projectable_at, projected_column_for_var, projected_column_view, projected_tag_view,
    projected_type,
};
use crate::codec::{decoded, from_sql_value_pair};
use crate::relresult::RelResult;
use crate::sql::{Value, ValueView};
use crate::types::{ColumnName, VariableColumn};
use crate::values::{TypedValue, TypedValueView, ValueType, tag_of};

verus! {

/// Where a value is found in a row: in one column when its type is known,
/// and else in a column for the value and one for its type tag.
#[derive(Clone, Copy, Debug, PartialEq, Eq)]
pub enum TypedIndex {
    Known(usize, ValueType),
    Unknown(usize, usize),
}

/// The shape of a query's result.
#[derive(Clone, Copy, Debug, PartialEq, Eq, Structural)]
pub enum ResultShape {
    /// The first value of the first row.
    Scalar,
    /// The first row.
    Tuple,
    /// The first value of every row.
    Coll,
    /// Every row.
    Rel,
}

/// How the rows of a query become its result.
#[derive(Debug, PartialEq, Eq)]
pub struct Projector {
    pub shape: ResultShape,
    /// Whether the query is known to give no rows, so that its result is
    /// the empty one whatever the rows.
    pub constant: bool,
    /// Where each returned value is found in a row.
    pub templates: Vec<TypedIndex>,
}

/// The columns of a query and the projector of its rows.
pub struct CombinedProjection {
    pub sql_projection: Projection,
    pub datalog_projector: Projector,
    pub distinct: bool,
}

/// The columns that the first `n` variables project: each variable under its
/// own name, followed by its type tag where its type is not known.
pub open spec fn element_columns(vars: Seq<Variable>, cc: ConjoiningClauses, n: int) -> Seq<ProjectedColumnView>
    decreases n,
{
    if n <= 0 || n > vars.len() {
        seq![]
    } else {
        let var = vars[n - 1];
        let before = element_columns(vars, cc, n - 1).push(projected_column_view(var, cc));
        if projected_type(var, cc) is None {
            before.push(projected_tag_view(var, cc))
        } else {
            before
        }
    }
}

/// The shape of the result of a find specification.
pub open spec fn shape_of(spec: FindSpec) -> ResultShape {
    match spec {
        FindSpec::FindRel(_) => ResultShape::Rel,
        FindSpec::FindColl(_) => ResultShape::Coll,
        FindSpec::FindTuple(_) => ResultShape::Tuple,
        FindSpec::FindScalar(_) => ResultShape::Scalar,
    }
}

/// What a query projects: `1` if it is known to be empty, and else the
/// columns of the variables it returns, then those of the variables it
/// carries along.
pub open spec fn projection_of(query: AlgebraicQuery) -> ProjectionView {
    if query.cc.known_empty() {
        ProjectionView::One
    } else {
        ProjectionView::Columns(
            element_columns(
                find_variables(query.find_spec),
                query.cc,
                find_variables(query.find_spec).len() as int,
            ) + element_columns(query.with@, query.cc, query.with@.len() as int),
        )
    }
}

/// Whether a query's rows must be made distinct: those of a relation or a
/// collection, unless the limit is 1 or the query is known to be empty.
pub open spec fn distinct_of(query: AlgebraicQuery) -> bool {
    &&& !query.cc.known_empty()
    &&& (query.find_spec is FindRel || query.find_spec is FindColl)
    &&& query.limit != Limit::Fixed(1)
}

fn project_elements(vars: &Vec<Variable>, cc: &ConjoiningClauses, cols: &mut Vec<ProjectedColumn>, templates: &mut Vec<TypedIndex>)
    requires
        vars_projectable(*cc, vars@, vars@, vars@.len() as int),
    ensures
        projected_views(final(cols)@) == projected_views(old(cols)@) + element_columns(
            vars@,
            *cc,
            vars@.len() as int,
        ),
{
    let ghost base = projected_views(cols@);
    let mut i: usize = 0;
    assert(base + element_columns(vars@, *cc, 0) =~= base);
    while i < vars.len()
        invariant
            i <= vars@.len(),
            vars_projectable(*cc, vars@, vars@, vars@.len() as int),
            projected_views(cols@) == base + element_columns(vars@, *cc, i as int),
        decreases vars@.len() - i,
    {
        let var = &vars[i];
        proof {
            lemma_projectable_at(*cc, vars@, vars@, vars@.len() as int, i as int);
            assert(names_contain(vars@, vars@[i as int]@));
        }
        let (projected_column, known) = projected_column_for_var(var, cc);
        let ghost before = projected_views(cols@);
        let index = cols.len();
        cols.push(projected_column);
        assert(projected_views(cols@) =~= before.push(projected_column@));
        match known {
            Some(t) => {
                templates.push(TypedIndex::Known(index, t));
            },
            None => {
                let type_index = cols.len();
                let expression = match cc.extracted_type(var) {
                    Some(extract) => ColumnOrExpression::Column(extract.clone()),
                    None => ColumnOrExpression::Integer(0),
                };
                let tag_name = VariableColumn::VariableTypeTag(var.clone()).column_name();
                let proj = ProjectedColumn(expression, tag_name);
                let ghost mid = projected_views(cols@);
                cols.push(proj);
                assert(projected_views(cols@) =~= mid.push(proj@));
                templates.push(TypedIndex::Unknown(index, type_index));
            },
        }
        proof {
            assert(projected_views(cols@) =~= base + element_columns(vars@, *cc, i + 1));
        }
        i += 1;
    }
}

/// The columns that `query` projects, the projector of its rows, and whether
/// its rows must be made distinct.
pub fn query_projection(query: &AlgebraicQuery) -> (r: CombinedProjection)
    requires
        query.wf(),
    ensures
        r.sql_projection@ == projection_of(*query),
        r.distinct == distinct_of(*query),
        r.datalog_projector.shape == shape_of(query.find_spec),
        r.datalog_projector.constant == query.cc.known_empty(),
{
    let shape = match &query.find_spec {
        FindSpec::FindRel(_) => ResultShape::Rel,
        FindSpec::FindColl(_) => ResultShape::Coll,
        FindSpec::FindTuple(_) => ResultShape::Tuple,
        FindSpec::FindScalar(_) => ResultShape::Scalar,
    };
    if query.is_known_empty() {
        return CombinedProjection {
            sql_projection: Projection::One,
            datalog_projector: Projector { shape, constant: true, templates: Vec::new() },
            distinct: false,
        };
    }
    let found = find_spec_variables(&query.find_spec);
    let mut cols: Vec<ProjectedColumn> = Vec::new();
    let mut templates: Vec<TypedIndex> = Vec::new();
    assert(projected_views(cols@) =~= Seq::<ProjectedColumnView>::empty());
    project_elements(&found, &query.cc, &mut cols, &mut templates);
    let mut unused: Vec<TypedIndex> = Vec::new();
    project_elements(&query.with, &query.cc, &mut cols, &mut unused);
    proof {
        let first = element_columns(found@, query.cc, found@.len() as int);
        assert(Seq::<ProjectedColumnView>::empty() + first =~= first);
    }
    let limited_to_one = match &query.limit {
        Limit::Fixed(n) => *n == 1,
        _ => false,
    };
    let distinct = match shape {
        ResultShape::Rel => !limited_to_one,
        ResultShape::Coll => !limited_to_one,
        _ => false,
    };
    CombinedProjection {
        sql_projection: Projection::Columns(cols),
        datalog_projector: Projector { shape, constant: false, templates },
        distinct,
    }
}

/// The result of a query.
#[derive(Debug, PartialEq, Eq)]
pub enum QueryResults {
    Scalar(Option<TypedValue>),
    Tuple(Option<Vec<TypedValue>>),
    Coll(Vec<TypedValue>),
    Rel(RelResult<TypedValue>),
}

/// A row could not be read: it is too short, or a value and its tag do not
/// go together.
#[derive(Clone, Copy, Debug, PartialEq, Eq)]
pub struct ProjectorError;

/// The views of a list of typed values.
pub open spec fn typed_views(vs: Seq<TypedValue>) -> Seq<TypedValueView> {
    Seq::new(vs.len(), |i: int| vs[i]@)
}

/// The views of a row.
pub open spec fn row_view(row: Seq<Value>) -> Seq<ValueView> {
    Seq::new(row.len(), |i: int| row[i]@)
}

/// A result as mathematical data.
pub enum ResultsView {
    Scalar(Option<TypedValueView>),
    Tuple(Option<Seq<TypedValueView>>),
    Coll(Seq<TypedValueView>),
    Rel { width: int, values: Seq<TypedValueView> },
}

impl View for QueryResults {
    type V = ResultsView;

    open spec fn view(&self) -> ResultsView {
        match self {
            QueryResults::Scalar(v) => ResultsView::Scalar(
                match v {
                    Some(x) => Some(x@),
                    None => None,
                },
            ),
            QueryResults::Tuple(v) => ResultsView::Tuple(
                match v {
                    Some(xs) => Some(typed_views(xs@)),
                    None => None,
                },
            ),
            QueryResults::Coll(xs) => ResultsView::Coll(typed_views(xs@)),
            QueryResults::Rel(r) => ResultsView::Rel { width: r.width as int, values: typed_views(r.values@) },
        }
    }
}

/// The typed value that a row holds at an index: the value decoded with
/// the tag of its known type, or with the tag that the row holds for it.
pub open spec fn value_at(row: Seq<ValueView>, index: TypedIndex) -> Option<TypedValueView> {
    match index {
        TypedIndex::Known(i, t) => if i < row.len() {
            decoded(row[i as int], tag_of(t))
        } else {
            None
        },
        TypedIndex::Unknown(i, j) => if i < row.len() && j < row.len() {
            match row[j as int] {
                ValueView::Integer(tag) => if i32::MIN <= tag <= i32::MAX {
                    decoded(row[i as int], tag)
                } else {
                    None
                },
                _ => None,
            }
        } else {
            None
        },
    }
}

/// The typed values that a row holds at the first `n` indices, if it holds
/// one at each.
pub open spec fn row_values(row: Seq<ValueView>, templates: Seq<TypedIndex>, n: int) -> Option<Seq<TypedValueView>>
    decreases n,
{
    if n <= 0 || n > templates.len() {
        Some(seq![])
    } else {
        match row_values(row, templates, n - 1) {
            Some(before) => match value_at(row, templates[n - 1]) {
                Some(v) => Some(before.push(v)),
                None => None,
            },
            None => None,
        }
    }
}

/// The typed values of the first `n` rows, one row after the other, where
/// each row holds the first `width` of the indices.
pub open spec fn rows_values(rows: Seq<Vec<Value>>, templates: Seq<TypedIndex>, width: int, n: int) -> Option<Seq<TypedValueView>>
    decreases n,
{
    if n <= 0 || n > rows.len() {
        Some(seq![])
    } else {
        match rows_values(rows, templates, width, n - 1) {
            Some(before) => match row_values(row_view(rows[n - 1]@), templates, width) {
                Some(vs) => Some(before + vs),
                None => None,
            },
            None => None,
        }
    }
}

/// The result with no rows.
pub open spec fn empty_results(shape: ResultShape, width: int) -> ResultsView {
    match shape {
        ResultShape::Scalar => ResultsView::Scalar(None),
        ResultShape::Tuple => ResultsView::Tuple(None),
        ResultShape::Coll => ResultsView::Coll(seq![]),
        ResultShape::Rel => ResultsView::Rel { width, values: seq![] },
    }
}

/// The result that the rows give, or `None` where a row cannot be read. A
/// scalar and a tuple read the first row only; a scalar and a collection
/// read the first index only.
pub open spec fn projected(projector: Projector, rows: Seq<Vec<Value>>) -> Option<ResultsView> {
    let templates = projector.templates@;
    let width = templates.len() as int;
    if projector.constant || rows.len() == 0 {
        Some(empty_results(projector.shape, width))
    } else {
        match projector.shape {
            ResultShape::Scalar => if width == 0 {
                None
            } else {
                match value_at(row_view(rows[0]@), templates[0]) {
                    Some(v) => Some(ResultsView::Scalar(Some(v))),
                    None => None,
                }
            },
            ResultShape::Tuple => match row_values(row_view(rows[0]@), templates, width) {
                Some(vs) => Some(ResultsView::Tuple(Some(vs))),
                None => None,
            },
            ResultShape::Coll => if width == 0 {
                None
            } else {
                match rows_values(rows, templates, 1, rows.len() as int) {
                    Some(vs) => Some(ResultsView::Coll(vs)),
                    None => None,
                }
            },
            ResultShape::Rel => match rows_values(rows, templates, width, rows.len() as int) {
                Some(vs) => Some(ResultsView::Rel { width, values: vs }),
                None => None,
            },
        }
    }
}

fn read_value(row: &Vec<Value>, index: TypedIndex) -> (r: Option<TypedValue>)
    ensures
        r is Some <==> value_at(row_view(row@), index) is Some,
        r is Some ==> r->0@ == value_at(row_view(row@), index)->0,
{
    match index {
        TypedIndex::Known(i, t) => {
            if i < row.len() {
                from_sql_value_pair(&row[i], t.value_type_tag())
            } else {
                None
            }
        },
        TypedIndex::Unknown(i, j) => {
            if i < row.len() && j < row.len() {
                match &row[j] {
                    Value::Integer(tag) => {
                        if -2147483648 <= *tag && *tag <= 2147483647 {
                            from_sql_value_pair(&row[i], *tag as i32)
                        } else {
                            None
                        }
                    },
                    _ => None,
                }
            } else {
                None
            }
        },
    }
}

/// Once a row lacks a value at one of the first `n` indices, it lacks one
/// among the first `m`.
pub proof fn lemma_row_values_none(row: Seq<ValueView>, templates: Seq<TypedIndex>, n: int, m: int)
    requires
        0 <= n <= m <= templates.len(),
        row_values(row, templates, n) is None,
    ensures
        row_values(row, templates, m) is None,
    decreases m - n,
{
    if n < m {
        lemma_row_values_none(row, templates, n, m - 1);
    }
}

/// Once one of the first `n` rows cannot be read, the first `m` cannot.
pub proof fn lemma_rows_values_none(rows: Seq<Vec<Value>>, templates: Seq<TypedIndex>, width: int, n: int, m: int)
    requires
        0 <= n <= m <= rows.len(),
        rows_values(rows, templates, width, n) is None,
    ensures
        rows_values(rows, templates, width, m) is None,
    decreases m - n,
{
    if n < m {
        lemma_rows_values_none(rows, templates, width, n, m - 1);
    }
}

fn read_row(row: &Vec<Value>, templates: &Vec<TypedIndex>, width: usize, out: &mut Vec<TypedValue>) -> (r: bool)
    requires
        width <= templates@.len(),
    ensures
        r <==> row_values(row_view(row@), templates@, width as int) is Some,
        r ==> typed_views(final(out)@) == typed_views(old(out)@) + row_values(
            row_view(row@),
            templates@,
            width as int,
        )->0,
{
    let ghost base = typed_views(out@);
    let mut i: usize = 0;
    assert(base + Seq::<TypedValueView>::empty() =~= base);
    while i < width
        invariant
            i <= width <= templates@.len(),
            row_values(row_view(row@), templates@, i as int) is Some,
            typed_views(out@) == base + row_values(row_view(row@), templates@, i as int)->0,
        decreases width - i,
    {
        match read_value(row, templates[i]) {
            Some(v) => {
                let ghost before = typed_views(out@);
                out.push(v);
                assert(typed_views(out@) =~= before.push(v@));
                assert(typed_views(out@) =~= base + row_values(row_view(row@), templates@, i + 1)->0);
            },
            None => {
                proof {
                    assert(row_values(row_view(row@), templates@, i + 1) is None);
                    lemma_row_values_none(row_view(row@), templates@, i + 1, width as int);
                }
                return false;
            },
        }
        i += 1;
    }
    true
}

fn read_rows(rows: &Vec<Vec<Value>>, templates: &Vec<TypedIndex>, width: usize) -> (r: Option<Vec<TypedValue>>)
    requires
        width <= templates@.len(),
    ensures
        r is Some <==> rows_values(rows@, templates@, width as int, rows@.len() as int) is Some,
        r is Some ==> typed_views(r->0@) == rows_values(rows@, templates@, width as int, rows@.len() as int)->0,
{
    let mut out: Vec<TypedValue> = Vec::new();
    let mut i: usize = 0;
    assert(typed_views(out@) =~= Seq::<TypedValueView>::empty());
    while i < rows.len()
        invariant
            i <= rows@.len(),
            width <= templates@.len(),
            rows_values(rows@, templates@, width as int, i as int) is Some,
            typed_views(out@) == rows_values(rows@, templates@, width as int, i as int)->0,
        decreases rows@.len() - i,
    {
        if !read_row(&rows[i], templates, width, &mut out) {
            proof {
                assert(rows_values(rows@, templates@, width as int, i + 1) is None);
                lemma_rows_values_none(rows@, templates@, width as int, i + 1, rows@.len() as int);
            }
            return None;
        }
        i += 1;
    }
    Some(out)
}

impl Projector {
    /// The result that `rows` give. A row that is too short for the
    /// projector, or that holds a value that does not go with its tag, is an
    /// error.
    pub fn project(&self, rows: &Vec<Vec<Value>>) -> (r: Result<QueryResults, ProjectorError>)
        ensures
            match projected(*self, rows@) {
                Some(results) => r is Ok && r->Ok_0@ == results,
                None => r is Err,
            },
    {
        let width = self.templates.len();
        if self.constant || rows.len() == 0 {
            let r = match self.shape {
                ResultShape::Scalar => QueryResults::Scalar(None),
                ResultShape::Tuple => QueryResults::Tuple(None),
                ResultShape::Coll => {
                    let none: Vec<TypedValue> = Vec::new();
                    assert(typed_views(none@) =~= Seq::<TypedValueView>::empty());
                    QueryResults::Coll(none)
                },
                ResultShape::Rel => {
                    let none: RelResult<TypedValue> = RelResult::empty(width);
                    assert(typed_views(none.values@) =~= Seq::<TypedValueView>::empty());
                    QueryResults::Rel(none)
                },
            };
            return Ok(r);
        }
        match self.shape {
            ResultShape::Scalar => {
                if width == 0 {
                    return Err(ProjectorError);
                }
                match read_value(&rows[0], self.templates[0]) {
                    Some(v) => Ok(QueryResults::Scalar(Some(v))),
                    None => Err(ProjectorError),
                }
            },
            ResultShape::Tuple => {
                let mut out: Vec<TypedValue> = Vec::new();
                assert(typed_views(out@) =~= Seq::<TypedValueView>::empty());
                if read_row(&rows[0], &self.templates, width, &mut out) {
                    proof {
                        let vs = row_values(row_view(rows@[0]@), self.templates@, width as int)->0;
                        assert(Seq::<TypedValueView>::empty() + vs =~= vs);
                    }
                    Ok(QueryResults::Tuple(Some(out)))
                } else {
                    Err(ProjectorError)
                }
            },
            ResultShape::Coll => {
                if width == 0 {
                    return Err(ProjectorError);
                }
                match read_rows(rows, &self.templates, 1) {
                    Some(values) => Ok(QueryResults::Coll(values)),
                    None => Err(ProjectorError),
                }
            },
            ResultShape::Rel => match read_rows(rows, &self.templates, width) {
                Some(values) => Ok(QueryResults::Rel(RelResult { width, values })),
                None => Err(ProjectorError),
            },
        }
    }
}

} // verus!
