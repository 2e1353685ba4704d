//! The reasons for which a query is known to be empty, and the columns and
//! constraints of a query, in words.

use vstd::prelude::*;
use crate::symbols::keyword_text;
use crate::text::{int_decimal, push_i64};
use crate::type_set::ValueTypeSet;
use crate::types::{
    Column, ColumnConstraint, ColumnName, ComputedTable, EmptyBecause, NumericComparison,
    QualifiedAlias, QueryValue, VariableColumn, column_text,
};
use crate::values::{TypedValue, ValueType};

verus! {

/// The name of a value type.
pub open spec fn type_name_text(t: ValueType) -> Seq<char> {
    match t {
        ValueType::Ref => "Ref"@,
        ValueType::Boolean => "Boolean"@,
        ValueType::Instant => "Instant"@,
        ValueType::Long => "Long"@,
        ValueType::Double => "Double"@,
        ValueType::String => "String"@,
        ValueType::Keyword => "Keyword"@,
        ValueType::Uuid => "Uuid"@,
    }
}

/// The name of a value type.
pub fn name_of_type(t: ValueType) -> (r: &'static str)
    ensures
        r@ == type_name_text(t),
{
    match t {
        ValueType::Ref => "Ref",
        ValueType::Boolean => "Boolean",
        ValueType::Instant => "Instant",
        ValueType::Long => "Long",
        ValueType::Double => "Double",
        ValueType::String => "String",
        ValueType::Keyword => "Keyword",
        ValueType::Uuid => "Uuid",
    }
}

/// A typed value in words: numbers as they are written, a string between
/// quotes, a keyword with its colon, and a UUID by its kind alone.
pub open spec fn value_text(v: TypedValue) -> Seq<char> {
    match v {
        TypedValue::Ref(e) => int_decimal(e as int),
        TypedValue::Boolean(b) => if b {
            "true"@
        } else {
            "false"@
        },
        TypedValue::Instant(t) => int_decimal(t as int),
        TypedValue::Long(n) => int_decimal(n as int),
        TypedValue::Double(d) => d@,
        TypedValue::String(s) => seq!['"'] + s@ + seq!['"'],
        TypedValue::Keyword(k) => keyword_text(k@),
        TypedValue::Uuid(_) => "#uuid"@,
    }
}

fn push_value(out: &mut String, v: &TypedValue)
    ensures
        final(out)@ == old(out)@ + value_text(*v),
{
    match v {
        TypedValue::Ref(e) => {
            push_i64(out, *e);
        },
        TypedValue::Boolean(b) => {
            if *b {
                out.push_str("true");
            } else {
                out.push_str("false");
            }
        },
        TypedValue::Instant(t) => {
            push_i64(out, *t);
        },
        TypedValue::Long(n) => {
            push_i64(out, *n);
        },
        TypedValue::Double(d) => {
            out.push_str(d.literal.as_str());
        },
        TypedValue::String(s) => {
            out.push('"');
            out.push_str(s.as_str());
            out.push('"');
            assert(out@ =~= old(out)@ + (seq!['"'] + s@ + seq!['"']));
        },
        TypedValue::Keyword(k) => {
            let t = k.to_string();
            out.push_str(t.as_str());
        },
        TypedValue::Uuid(_) => {
            out.push_str("#uuid");
        },
    }
}

/// The types of a set, each followed by a space, in the fixed order of
/// types.
pub open spec fn set_text(s: Set<ValueType>) -> Seq<char> {
    member_text(s, ValueType::Ref) + member_text(s, ValueType::Boolean) + member_text(
        s,
        ValueType::Instant,
    ) + member_text(s, ValueType::Long) + member_text(s, ValueType::Double) + member_text(
        s,
        ValueType::String,
    ) + member_text(s, ValueType::Keyword) + member_text(s, ValueType::Uuid)
}

/// The name of `t` and a space, if `t` is in the set.
pub open spec fn member_text(s: Set<ValueType>, t: ValueType) -> Seq<char> {
    if s.contains(t) {
        type_name_text(t) + seq![' ']
    } else {
        seq![]
    }
}

fn push_member(out: &mut String, s: &ValueTypeSet, t: ValueType)
    ensures
        final(out)@ == old(out)@ + member_text(s@, t),
{
    if s.contains(t) {
        out.push_str(name_of_type(t));
        out.push(' ');
        assert(out@ =~= old(out)@ + (type_name_text(t) + seq![' ']));
    } else {
        assert(out@ =~= old(out)@ + Seq::<char>::empty());
    }
}

fn push_set(out: &mut String, s: &ValueTypeSet)
    ensures
        final(out)@ == old(out)@ + set_text(s@),
{
    push_member(out, s, ValueType::Ref);
    push_member(out, s, ValueType::Boolean);
    push_member(out, s, ValueType::Instant);
    push_member(out, s, ValueType::Long);
    push_member(out, s, ValueType::Double);
    push_member(out, s, ValueType::String);
    push_member(out, s, ValueType::Keyword);
    push_member(out, s, ValueType::Uuid);
    assert(out@ =~= old(out)@ + set_text(s@));
}

/// A reason in words.
pub open spec fn reason_text(e: EmptyBecause) -> Seq<char> {
    match e {
        EmptyBecause::TypeMismatch(var, existing, desired) => "Type mismatch: "@ + var@ + " can't be "@
            + type_name_text(desired) + ", because it's already one of: "@ + set_text(existing@),
        EmptyBecause::NoValidTypes(var) => "Type mismatch: "@ + var@ + " has no valid types"@,
        EmptyBecause::NonNumericArgument => "Non-numeric argument in numeric place"@,
        EmptyBecause::NonInstantArgument => "Non-instant argument in instant place"@,
        EmptyBecause::NonStringFulltextValue => "Non-string argument for fulltext attribute"@,
        EmptyBecause::UnresolvedIdent(kw) => "Couldn't resolve keyword "@ + keyword_text(kw@),
        EmptyBecause::InvalidAttributeIdent(kw) => keyword_text(kw@) + " does not name an attribute"@,
        EmptyBecause::InvalidAttributeEntid(entid) => int_decimal(entid as int) + " is not an attribute"@,
        EmptyBecause::InvalidBinding(column, tv) => value_text(tv) + " cannot name column "@ + column_text(
            column,
        ),
        EmptyBecause::ValueTypeMismatch(value_type, typed_value) => "Type mismatch: "@ + value_text(
            typed_value,
        ) + " doesn't match attribute type "@ + type_name_text(value_type),
        EmptyBecause::AttributeLookupFailed => "Attribute lookup failed"@,
    }
}

impl EmptyBecause {
    /// The reason in words.
    pub fn to_string(&self) -> (r: String)
        ensures
            r@ == reason_text(*self),
    {
        let mut out = String::new();
        match self {
            EmptyBecause::TypeMismatch(var, existing, desired) => {
                out.push_str("Type mismatch: ");
                out.push_str(var.as_str());
                out.push_str(" can't be ");
                out.push_str(name_of_type(*desired));
                out.push_str(", because it's already one of: ");
                push_set(&mut out, existing);
            },
            EmptyBecause::NoValidTypes(var) => {
                out.push_str("Type mismatch: ");
                out.push_str(var.as_str());
                out.push_str(" has no valid types");
            },
            EmptyBecause::NonNumericArgument => {
                out.push_str("Non-numeric argument in numeric place");
            },
            EmptyBecause::NonInstantArgument => {
                out.push_str("Non-instant argument in instant place");
            },
            EmptyBecause::NonStringFulltextValue => {
                out.push_str("Non-string argument for fulltext attribute");
            },
            EmptyBecause::UnresolvedIdent(kw) => {
                out.push_str("Couldn't resolve keyword ");
                let t = kw.to_string();
                out.push_str(t.as_str());
            },
            EmptyBecause::InvalidAttributeIdent(kw) => {
                let t = kw.to_string();
                out.push_str(t.as_str());
                out.push_str(" does not name an attribute");
            },
            EmptyBecause::InvalidAttributeEntid(entid) => {
                push_i64(&mut out, *entid);
                out.push_str(" is not an attribute");
            },
            EmptyBecause::InvalidBinding(column, tv) => {
                push_value(&mut out, tv);
                out.push_str(" cannot name column ");
                let c = column.column_name();
                out.push_str(c.as_str());
            },
            EmptyBecause::ValueTypeMismatch(value_type, typed_value) => {
                out.push_str("Type mismatch: ");
                push_value(&mut out, typed_value);
                out.push_str(" doesn't match attribute type ");
                out.push_str(name_of_type(*value_type));
            },
            EmptyBecause::AttributeLookupFailed => {
                out.push_str("Attribute lookup failed");
            },
        }
        assert(out@ =~= reason_text(*self));
        out
    }
}

/// A qualified column in words: the alias, a dot, and the column's name.
pub open spec fn alias_words(qa: QualifiedAlias) -> Seq<char> {
    qa.0@ + seq!['.'] + column_text(qa.1)
}

/// What a column is compared with, in words.
pub open spec fn query_value_text(v: QueryValue) -> Seq<char> {
    match v {
        QueryValue::Column(qa) => alias_words(qa),
        QueryValue::Entid(e) => "entity("@ + int_decimal(e as int) + seq![')'],
        QueryValue::TypedValue(tv) => "value("@ + value_text(tv) + seq![')'],
        QueryValue::PrimitiveLong(n) => "primitive("@ + int_decimal(n as int) + seq![')'],
    }
}

impl QualifiedAlias {
    /// The column in words.
    pub fn to_string(&self) -> (r: String)
        ensures
            r@ == alias_words(*self),
    {
        let mut out = self.0.clone();
        out.push('.');
        let c = self.1.column_name();
        out.push_str(c.as_str());
        assert(out@ =~= alias_words(*self));
        out
    }
}

impl QueryValue {
    /// The value in words.
    pub fn to_string(&self) -> (r: String)
        ensures
            r@ == query_value_text(*self),
    {
        let mut out = String::new();
        match self {
            QueryValue::Column(qa) => {
                let t = qa.to_string();
                out.push_str(t.as_str());
            },
            QueryValue::Entid(e) => {
                out.push_str("entity(");
                push_i64(&mut out, *e);
                out.push(')');
            },
            QueryValue::TypedValue(tv) => {
                out.push_str("value(");
                push_value(&mut out, tv);
                out.push(')');
            },
            QueryValue::PrimitiveLong(n) => {
                out.push_str("primitive(");
                push_i64(&mut out, *n);
                out.push(')');
            },
        }
        assert(out@ =~= query_value_text(*self));
        out
    }
}

impl VariableColumn {
    /// The column's name: the variable's, or the variable's with the
    /// ending of a type tag.
    pub fn to_string(&self) -> (r: String)
        ensures
            r@ == column_text(Column::Variable(*self)),
    {
        self.column_name()
    }
}

impl Column {
    /// The column's name.
    pub fn to_string(&self) -> (r: String)
        ensures
            r@ == column_text(*self),
    {
        self.column_name()
    }
}

/// A comparison as a query writes it.
pub open spec fn comparison_text(c: NumericComparison) -> Seq<char> {
    match c {
        NumericComparison::LessThan => "<"@,
        NumericComparison::LessThanOrEquals => "<="@,
        NumericComparison::GreaterThan => ">"@,
        NumericComparison::GreaterThanOrEquals => ">="@,
        NumericComparison::NotEquals => "!="@,
    }
}

impl NumericComparison {
    /// The comparison as a query writes it.
    pub fn to_string(&self) -> (r: String)
        ensures
            r@ == comparison_text(*self),
    {
        let mut out = String::new();
        match self {
            NumericComparison::LessThan => {
                out.push_str("<");
            },
            NumericComparison::LessThanOrEquals => {
                out.push_str("<=");
            },
            NumericComparison::GreaterThan => {
                out.push_str(">");
            },
            NumericComparison::GreaterThanOrEquals => {
                out.push_str(">=");
            },
            NumericComparison::NotEquals => {
                out.push_str("!=");
            },
        }
        assert(out@ =~= comparison_text(*self));
        out
    }
}

/// A constraint in words: the two sides of an equation or a comparison
/// around its sign, the type that a table's values must have, or the kind of
/// table of which no row may exist.
pub open spec fn constraint_text(c: ColumnConstraint) -> Seq<char> {
    match c {
        ColumnConstraint::Equals(qa, v) => alias_words(qa) + " = "@ + query_value_text(v),
        ColumnConstraint::NumericInequality { operator, left, right } => query_value_text(left) + " "@
            + comparison_text(operator) + " "@ + query_value_text(right),
        ColumnConstraint::HasType(table, t) => table@ + ".value_type_tag = "@ + type_name_text(t),
        ColumnConstraint::NotExists(ComputedTable::Subquery(_)) => "NOT EXISTS subquery"@,
        ColumnConstraint::NotExists(ComputedTable::Union { .. }) => "NOT EXISTS union"@,
    }
}

impl ColumnConstraint {
    /// The constraint in words.
    pub fn to_string(&self) -> (r: String)
        ensures
            r@ == constraint_text(*self),
    {
        let mut out = String::new();
        match self {
            ColumnConstraint::Equals(qa, v) => {
                let a = qa.to_string();
                let b = v.to_string();
                out.push_str(a.as_str());
                out.push_str(" = ");
                out.push_str(b.as_str());
            },
            ColumnConstraint::NumericInequality { operator, left, right } => {
                let a = left.to_string();
                let o = operator.to_string();
                let b = right.to_string();
                out.push_str(a.as_str());
                out.push_str(" ");
                out.push_str(o.as_str());
                out.push_str(" ");
                out.push_str(b.as_str());
            },
            ColumnConstraint::HasType(table, t) => {
                out.push_str(table.as_str());
                out.push_str(".value_type_tag = ");
                out.push_str(name_of_type(*t));
            },
            ColumnConstraint::NotExists(ComputedTable::Subquery(_)) => {
                out.push_str("NOT EXISTS subquery");
            },
            ColumnConstraint::NotExists(ComputedTable::Union { .. }) => {
                out.push_str("NOT EXISTS union");
            },
        }
        assert(out@ =~= constraint_text(*self));
        out
    }
}

} // verus!
