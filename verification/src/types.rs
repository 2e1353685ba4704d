//! The algebrizer's vocabulary: tables and columns, qualified aliases,
//! column constraints and their intersections and alternations, the reasons
//! a query is known to be empty, and sets of value types.

use vstd::prelude::*;
use crate::clauses::ConjoiningClauses;
use crate::query::{Direction, Order, Variable};
use crate::symbols::NamespacedKeyword;
use crate::text::owned;
use crate::values::{Entid, TypedValue, ValueType};

pub use crate::type_set::{
    ValueTypeBits, ValueTypeSet, least_member, lemma_unit_type, single_type,
};

verus! {

/// The fixed tables and views of the store, and tables computed inside the
/// query, which are held by the enclosing clauses and named by their index.
#[derive(Clone, Copy, Debug, PartialEq, Eq, Structural)]
pub enum DatomsTable {
    /// The non-fulltext datoms table.
    Datoms,
    /// The virtual table that maps ids to strings.
    FulltextValues,
    /// The fulltext-datoms view.
    FulltextDatoms,
    /// Fulltext and non-fulltext datoms.
    AllDatoms,
    /// A computed table.
    Computed(usize),
}

/// The SQL name of a table; computed tables share the stem `c`.
pub open spec fn table_name(t: DatomsTable) -> Seq<char> {
    match t {
        DatomsTable::Datoms => "datoms"@,
        DatomsTable::FulltextValues => "fulltext_values"@,
        DatomsTable::FulltextDatoms => "fulltext_datoms"@,
        DatomsTable::AllDatoms => "all_datoms"@,
        DatomsTable::Computed(_) => "c"@,
    }
}

impl DatomsTable {
    /// The table's name in the store.
    pub fn name(&self) -> (r: &'static str)
        ensures
            r@ == table_name(*self),
    {
        match *self {
            DatomsTable::Datoms => "datoms",
            DatomsTable::FulltextValues => "fulltext_values",
            DatomsTable::FulltextDatoms => "fulltext_datoms",
            DatomsTable::AllDatoms => "all_datoms",
            DatomsTable::Computed(_) => "c",
        }
    }
}

/// A source of rows that is not a named table.
#[derive(Debug, PartialEq, Eq)]
pub enum ComputedTable {
    /// The rows that the clauses match; used under `NOT EXISTS`.
    Subquery(ConjoiningClauses),
    /// The union of the rows of each arm, projected onto `projection`; the
    /// variables of `type_extraction` also project their type tag.
    Union {
        projection: Vec<Variable>,
        type_extraction: Vec<Variable>,
        arms: Vec<ConjoiningClauses>,
    },
}

/// Anything that names a column.
pub trait ColumnName {
    spec fn column_name_text(&self) -> Seq<char>;

    fn column_name(&self) -> (r: String)
        ensures
            r@ == self.column_name_text(),
    ;
}

/// One of the named columns of the datoms tables.
#[derive(Clone, Copy, Debug, PartialEq, Eq, Structural)]
pub enum DatomsColumn {
    Entity,
    Attribute,
    Value,
    Tx,
    ValueTypeTag,
}

/// The SQL name of a datoms column.
pub open spec fn datoms_column_name(c: DatomsColumn) -> Seq<char> {
    match c {
        DatomsColumn::Entity => "e"@,
        DatomsColumn::Attribute => "a"@,
        DatomsColumn::Value => "v"@,
        DatomsColumn::Tx => "tx"@,
        DatomsColumn::ValueTypeTag => "value_type_tag"@,
    }
}

impl DatomsColumn {
    /// The column's name in the store.
    pub fn as_str(&self) -> (r: &'static str)
        ensures
            r@ == datoms_column_name(*self),
    {
        match *self {
            DatomsColumn::Entity => "e",
            DatomsColumn::Attribute => "a",
            DatomsColumn::Value => "v",
            DatomsColumn::Tx => "tx",
            DatomsColumn::ValueTypeTag => "value_type_tag",
        }
    }
}

impl ColumnName for DatomsColumn {
    open spec fn column_name_text(&self) -> Seq<char> {
        datoms_column_name(*self)
    }

    fn column_name(&self) -> (r: String) {
        owned(self.as_str())
    }
}

/// A column of a computed table: a variable, or the type tag of one.
#[derive(Debug, PartialEq, Eq)]
pub enum VariableColumn {
    Variable(Variable),
    VariableTypeTag(Variable),
}

/// The SQL name of a variable's column, or of its type tag's.
pub open spec fn variable_column_name(c: VariableColumn) -> Seq<char> {
    match c {
        VariableColumn::Variable(v) => v@,
        VariableColumn::VariableTypeTag(v) => v@ + "_value_type_tag"@,
    }
}

impl Clone for VariableColumn {
    fn clone(&self) -> (r: Self)
        ensures
            r == *self,
    {
        match self {
            VariableColumn::Variable(v) => VariableColumn::Variable(v.clone()),
            VariableColumn::VariableTypeTag(v) => VariableColumn::VariableTypeTag(v.clone()),
        }
    }
}

impl ColumnName for VariableColumn {
    open spec fn column_name_text(&self) -> Seq<char> {
        variable_column_name(*self)
    }

    fn column_name(&self) -> (r: String) {
        match self {
            VariableColumn::Variable(v) => v.to_string(),
            VariableColumn::VariableTypeTag(v) => {
                let mut out = v.to_string();
                out.push_str("_value_type_tag");
                out
            },
        }
    }
}

/// A column of a table in the query.
#[derive(Debug, PartialEq, Eq)]
pub enum Column {
    Fixed(DatomsColumn),
    Variable(VariableColumn),
}

/// The SQL name of a column.
pub open spec fn column_text(c: Column) -> Seq<char> {
    match c {
        Column::Fixed(d) => datoms_column_name(d),
        Column::Variable(v) => variable_column_name(v),
    }
}

impl Clone for Column {
    fn clone(&self) -> (r: Self)
        ensures
            r == *self,
    {
        match self {
            Column::Fixed(d) => Column::Fixed(*d),
            Column::Variable(v) => Column::Variable(v.clone()),
        }
    }
}

impl ColumnName for Column {
    open spec fn column_name_text(&self) -> Seq<char> {
        column_text(*self)
    }

    fn column_name(&self) -> (r: String) {
        match self {
            Column::Fixed(d) => d.column_name(),
            Column::Variable(v) => v.column_name(),
        }
    }
}

/// The name by which one use of a table is known in a query, such as
/// `datoms12`.
pub type TableAlias = String;

/// A table and the alias of one use of it.
#[derive(Debug, PartialEq, Eq)]
pub struct SourceAlias(pub DatomsTable, pub TableAlias);

impl Clone for SourceAlias {
    fn clone(&self) -> (r: Self)
        ensures
            r == *self,
    {
        SourceAlias(self.0, self.1.clone())
    }
}

/// One column of one aliased table.
#[derive(Debug, PartialEq, Eq)]
pub struct QualifiedAlias(pub TableAlias, pub Column);

impl Clone for QualifiedAlias {
    fn clone(&self) -> (r: Self)
        ensures
            r == *self,
    {
        QualifiedAlias(self.0.clone(), self.1.clone())
    }
}

impl QualifiedAlias {
    /// The column `column` of the table known as `table`.
    pub fn new(table: TableAlias, column: Column) -> (r: QualifiedAlias)
        ensures
            r == QualifiedAlias(table, column),
    {
        QualifiedAlias(table, column)
    }

    /// The type-tag column of the same table.
    pub fn for_type_tag(&self) -> (r: QualifiedAlias)
        ensures
            r == QualifiedAlias(self.0, Column::Fixed(DatomsColumn::ValueTypeTag)),
    {
        QualifiedAlias(self.0.clone(), Column::Fixed(DatomsColumn::ValueTypeTag))
    }
}

/// What a column is compared with.
#[derive(Debug, PartialEq, Eq)]
pub enum QueryValue {
    Column(QualifiedAlias),
    Entid(Entid),
    TypedValue(TypedValue),
    /// A bare integer in the value place. It may be a ref, an instant, a long
    /// or a double, but never a boolean.
    PrimitiveLong(i64),
}

impl Clone for QueryValue {
    fn clone(&self) -> (r: Self)
        ensures
            r == *self,
    {
        match self {
            QueryValue::Column(qa) => QueryValue::Column(qa.clone()),
            QueryValue::Entid(e) => QueryValue::Entid(*e),
            QueryValue::TypedValue(v) => QueryValue::TypedValue(v.clone()),
            QueryValue::PrimitiveLong(n) => QueryValue::PrimitiveLong(*n),
        }
    }
}

/// An entry of the `ORDER BY` list: a variable or its type tag.
#[derive(Debug, PartialEq, Eq)]
pub struct OrderBy(pub Direction, pub VariableColumn);

impl OrderBy {
    /// The entry that orders by the variable of `item`.
    pub fn from_order(item: Order) -> (r: OrderBy)
        ensures
            r == OrderBy(item.0, VariableColumn::Variable(item.1)),
    {
        let Order(direction, variable) = item;
        OrderBy(direction, VariableColumn::Variable(variable))
    }
}

/// The numeric inequalities. Datalog and SQL spell them differently.
#[derive(Clone, Copy, Debug, PartialEq, Eq, Structural)]
pub enum NumericComparison {
    LessThan,
    LessThanOrEquals,
    GreaterThan,
    GreaterThanOrEquals,
    NotEquals,
}

/// The SQL spelling of a comparison.
pub open spec fn sql_operator(c: NumericComparison) -> Seq<char> {
    match c {
        NumericComparison::LessThan => "<"@,
        NumericComparison::LessThanOrEquals => "<="@,
        NumericComparison::GreaterThan => ">"@,
        NumericComparison::GreaterThanOrEquals => ">="@,
        NumericComparison::NotEquals => "<>"@,
    }
}

/// The comparison that a Datalog operator spells.
pub open spec fn datalog_operator(s: Seq<char>) -> Option<NumericComparison> {
    if s == "<"@ {
        Some(NumericComparison::LessThan)
    } else if s == "<="@ {
        Some(NumericComparison::LessThanOrEquals)
    } else if s == ">"@ {
        Some(NumericComparison::GreaterThan)
    } else if s == ">="@ {
        Some(NumericComparison::GreaterThanOrEquals)
    } else if s == "!="@ {
        Some(NumericComparison::NotEquals)
    } else {
        None
    }
}

impl NumericComparison {
    /// The comparison as SQL writes it.
    pub fn to_sql_operator(self) -> (r: &'static str)
        ensures
            r@ == sql_operator(self),
    {
        match self {
            NumericComparison::LessThan => "<",
            NumericComparison::LessThanOrEquals => "<=",
            NumericComparison::GreaterThan => ">",
            NumericComparison::GreaterThanOrEquals => ">=",
            NumericComparison::NotEquals => "<>",
        }
    }

    /// The comparison that a query writes as `s`, if it is one.
    pub fn from_datalog_operator(s: &str) -> (r: Option<NumericComparison>)
        ensures
            r == datalog_operator(s@),
    {
        if s.eq("<") {
            Some(NumericComparison::LessThan)
        } else if s.eq("<=") {
            Some(NumericComparison::LessThanOrEquals)
        } else if s.eq(">") {
            Some(NumericComparison::GreaterThan)
        } else if s.eq(">=") {
            Some(NumericComparison::GreaterThanOrEquals)
        } else if s.eq("!=") {
            Some(NumericComparison::NotEquals)
        } else {
            None
        }
    }
}

/// A constraint on the columns of the query's tables.
#[derive(Debug, PartialEq, Eq)]
pub enum ColumnConstraint {
    Equals(QualifiedAlias, QueryValue),
    NumericInequality { operator: NumericComparison, left: QueryValue, right: QueryValue },
    HasType(TableAlias, ValueType),
    NotExists(ComputedTable),
}

/// A constraint, or a choice among intersections of constraints.
#[derive(Debug, PartialEq, Eq)]
pub enum ColumnConstraintOrAlternation {
    Constraint(ColumnConstraint),
    Alternation(ColumnAlternation),
}

impl ColumnConstraintOrAlternation {
    /// The constraint as a member of an intersection.
    pub fn from_constraint(thing: ColumnConstraint) -> (r: Self)
        ensures
            r == ColumnConstraintOrAlternation::Constraint(thing),
    {
        ColumnConstraintOrAlternation::Constraint(thing)
    }
}

/// Satisfied when every member is; the empty intersection always is.
#[derive(Debug, PartialEq, Eq)]
pub struct ColumnIntersection(pub Vec<ColumnConstraintOrAlternation>);

/// Satisfied when some member is; the empty alternation never is.
#[derive(Debug, PartialEq, Eq)]
pub struct ColumnAlternation(pub Vec<ColumnIntersection>);

impl Default for ColumnIntersection {
    fn default() -> (r: Self)
        ensures
            r.0@.len() == 0,
    {
        ColumnIntersection(Vec::new())
    }
}

impl ColumnIntersection {
    /// The intersection of the given constraints, in their order.
    pub fn from_constraints(thing: Vec<ColumnConstraint>) -> (r: Self)
        ensures
            r.0@.len() == thing@.len(),
            forall|i: int|
                0 <= i < thing@.len() ==> #[trigger] r.0@[i]
                    == ColumnConstraintOrAlternation::Constraint(thing@[i]),
    {
        let mut thing = thing;
        let ghost all = thing@;
        let mut rev: Vec<ColumnConstraintOrAlternation> = Vec::new();
        while thing.len() > 0
            invariant
                thing@.len() + rev@.len() == all.len(),
                thing@ == all.subrange(0, thing@.len() as int),
                forall|j: int|
                    0 <= j < rev@.len() ==> #[trigger] rev@[j]
                        == ColumnConstraintOrAlternation::Constraint(all[all.len() - 1 - j]),
            decreases thing@.len(),
        {
            match thing.pop() {
                Some(c) => {
                    rev.push(ColumnConstraintOrAlternation::Constraint(c));
                    assert(thing@ =~= all.subrange(0, thing@.len() as int));
                },
                None => {},
            }
        }
        let mut out: Vec<ColumnConstraintOrAlternation> = Vec::new();
        let ghost rall = rev@;
        while rev.len() > 0
            invariant
                rev@.len() + out@.len() == all.len(),
                rall.len() == all.len(),
                rev@ == rall.subrange(0, rev@.len() as int),
                forall|j: int|
                    0 <= j < rall.len() ==> #[trigger] rall[j]
                        == ColumnConstraintOrAlternation::Constraint(all[all.len() - 1 - j]),
                forall|j: int|
                    0 <= j < out@.len() ==> #[trigger] out@[j]
                        == ColumnConstraintOrAlternation::Constraint(all[j]),
            decreases rev@.len(),
        {
            match rev.pop() {
                Some(c) => {
                    out.push(c);
                    assert(rev@ =~= rall.subrange(0, rev@.len() as int));
                },
                None => {},
            }
        }
        ColumnIntersection(out)
    }

    /// The number of members.
    pub fn len(&self) -> (r: usize)
        ensures
            r == self.0@.len(),
    {
        self.0.len()
    }

    /// Whether there is no member.
    pub fn is_empty(&self) -> (r: bool)
        ensures
            r == (self.0@.len() == 0),
    {
        self.0.len() == 0
    }

    /// Adds a member at the end.
    pub fn add(&mut self, constraint: ColumnConstraintOrAlternation)
        ensures
            final(self).0@ == old(self).0@.push(constraint),
    {
        self.0.push(constraint);
    }

    /// Adds a constraint at the end.
    pub fn add_intersection(&mut self, constraint: ColumnConstraint)
        ensures
            final(self).0@ == old(self).0@.push(ColumnConstraintOrAlternation::Constraint(constraint)),
    {
        self.add(ColumnConstraintOrAlternation::Constraint(constraint));
    }

    /// Moves every member of `other` to the end of this intersection.
    pub fn append(&mut self, other: &mut Self)
        ensures
            final(self).0@ == old(self).0@ + old(other).0@,
            final(other).0@.len() == 0,
    {
        self.0.append(&mut other.0);
    }
}

impl Default for ColumnAlternation {
    fn default() -> (r: Self)
        ensures
            r.0@.len() == 0,
    {
        ColumnAlternation(Vec::new())
    }
}

impl ColumnAlternation {
    /// Adds an alternate at the end.
    pub fn add_alternate(&mut self, intersection: ColumnIntersection)
        ensures
            final(self).0@ == old(self).0@.push(intersection),
    {
        self.0.push(intersection);
    }
}

/// Why a query is known to give no rows.
#[derive(Debug, PartialEq, Eq)]
pub enum EmptyBecause {
    /// The variable, the types it already has, and the type asked of it.
    TypeMismatch(Variable, ValueTypeSet, ValueType),
    NoValidTypes(Variable),
    NonNumericArgument,
    NonInstantArgument,
    NonStringFulltextValue,
    UnresolvedIdent(NamespacedKeyword),
    InvalidAttributeIdent(NamespacedKeyword),
    InvalidAttributeEntid(Entid),
    InvalidBinding(Column, TypedValue),
    ValueTypeMismatch(ValueType, TypedValue),
    AttributeLookupFailed,
}

impl Clone for EmptyBecause {
    fn clone(&self) -> (r: Self)
        ensures
            r == *self,
    {
        match self {
            EmptyBecause::TypeMismatch(v, s, t) => EmptyBecause::TypeMismatch(v.clone(), *s, *t),
            EmptyBecause::NoValidTypes(v) => EmptyBecause::NoValidTypes(v.clone()),
            EmptyBecause::NonNumericArgument => EmptyBecause::NonNumericArgument,
            EmptyBecause::NonInstantArgument => EmptyBecause::NonInstantArgument,
            EmptyBecause::NonStringFulltextValue => EmptyBecause::NonStringFulltextValue,
            EmptyBecause::UnresolvedIdent(k) => EmptyBecause::UnresolvedIdent(k.clone()),
            EmptyBecause::InvalidAttributeIdent(k) => EmptyBecause::InvalidAttributeIdent(k.clone()),
            EmptyBecause::InvalidAttributeEntid(e) => EmptyBecause::InvalidAttributeEntid(*e),
            EmptyBecause::InvalidBinding(c, v) => EmptyBecause::InvalidBinding(c.clone(), v.clone()),
            EmptyBecause::ValueTypeMismatch(t, v) => EmptyBecause::ValueTypeMismatch(*t, v.clone()),
            EmptyBecause::AttributeLookupFailed => EmptyBecause::AttributeLookupFailed,
        }
    }
}

/// A reason as mathematical data: the set of types of a mismatch is the set
/// it stands for.
pub enum ReasonView {
    TypeMismatch(Variable, Set<ValueType>, ValueType),
    NoValidTypes(Variable),
    NonNumericArgument,
    NonInstantArgument,
    NonStringFulltextValue,
    UnresolvedIdent(NamespacedKeyword),
    InvalidAttributeIdent(NamespacedKeyword),
    InvalidAttributeEntid(Entid),
    InvalidBinding(Column, TypedValue),
    ValueTypeMismatch(ValueType, TypedValue),
    AttributeLookupFailed,
}

impl View for EmptyBecause {
    type V = ReasonView;

    open spec fn view(&self) -> ReasonView {
        match self {
            EmptyBecause::TypeMismatch(v, s, t) => ReasonView::TypeMismatch(*v, s@, *t),
            EmptyBecause::NoValidTypes(v) => ReasonView::NoValidTypes(*v),
            EmptyBecause::NonNumericArgument => ReasonView::NonNumericArgument,
            EmptyBecause::NonInstantArgument => ReasonView::NonInstantArgument,
            EmptyBecause::NonStringFulltextValue => ReasonView::NonStringFulltextValue,
            EmptyBecause::UnresolvedIdent(k) => ReasonView::UnresolvedIdent(*k),
            EmptyBecause::InvalidAttributeIdent(k) => ReasonView::InvalidAttributeIdent(*k),
            EmptyBecause::InvalidAttributeEntid(e) => ReasonView::InvalidAttributeEntid(*e),
            EmptyBecause::InvalidBinding(c, v) => ReasonView::InvalidBinding(*c, *v),
            EmptyBecause::ValueTypeMismatch(t, v) => ReasonView::ValueTypeMismatch(*t, *v),
            EmptyBecause::AttributeLookupFailed => ReasonView::AttributeLookupFailed,
        }
    }
}

} // verus!
