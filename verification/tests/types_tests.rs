use mentat::query::{Direction, Order, Variable};
use mentat::type_set::{ValueTypeBits, ValueTypeSet};
use mentat::types::{
    Column, ColumnAlternation, ColumnConstraint, ColumnConstraintOrAlternation,
    ColumnIntersection, ColumnName, DatomsColumn, DatomsTable, NumericComparison, OrderBy,
    QualifiedAlias, QueryValue, VariableColumn,
};
use mentat::values::{Double, TypedValue, ValueType};

const ALL: [ValueType; 8] = [
    ValueType::Ref,
    ValueType::Boolean,
    ValueType::Instant,
    ValueType::Long,
    ValueType::Double,
    ValueType::String,
    ValueType::Keyword,
    ValueType::Uuid,
];

#[test]
fn tables_and_columns_have_names() {
    assert_eq!(DatomsTable::Datoms.name(), "datoms");
    assert_eq!(DatomsTable::FulltextValues.name(), "fulltext_values");
    assert_eq!(DatomsTable::FulltextDatoms.name(), "fulltext_datoms");
    assert_eq!(DatomsTable::AllDatoms.name(), "all_datoms");
    assert_eq!(DatomsTable::Computed(3).name(), "c");
    assert_eq!(DatomsColumn::Entity.as_str(), "e");
    assert_eq!(DatomsColumn::Attribute.as_str(), "a");
    assert_eq!(DatomsColumn::Value.as_str(), "v");
    assert_eq!(DatomsColumn::Tx.as_str(), "tx");
    assert_eq!(DatomsColumn::ValueTypeTag.as_str(), "value_type_tag");
    assert_eq!(DatomsColumn::Value.column_name(), "v");
    let x = Variable::from_valid_name("?x");
    assert_eq!(VariableColumn::Variable(x.clone()).column_name(), "?x");
    assert_eq!(VariableColumn::VariableTypeTag(x.clone()).column_name(), "?x_value_type_tag");
    assert_eq!(Column::Variable(VariableColumn::Variable(x.clone())).column_name(), "?x");
    assert_eq!(
        QualifiedAlias::new("t".to_string(), Column::Fixed(DatomsColumn::Value)).for_type_tag(),
        QualifiedAlias("t".to_string(), Column::Fixed(DatomsColumn::ValueTypeTag))
    );
    assert_eq!(
        OrderBy::from_order(Order(Direction::Descending, x.clone())),
        OrderBy(Direction::Descending, VariableColumn::Variable(x))
    );
}

#[test]
fn comparisons_are_spelled_in_datalog_and_in_sql() {
    let both = [
        ("<", "<", NumericComparison::LessThan),
        ("<=", "<=", NumericComparison::LessThanOrEquals),
        (">", ">", NumericComparison::GreaterThan),
        (">=", ">=", NumericComparison::GreaterThanOrEquals),
        ("!=", "<>", NumericComparison::NotEquals),
    ];
    for (datalog, sql, op) in both {
        assert_eq!(NumericComparison::from_datalog_operator(datalog), Some(op));
        assert_eq!(op.to_sql_operator(), sql);
    }
    assert_eq!(NumericComparison::from_datalog_operator("<>"), None);
    assert_eq!(NumericComparison::from_datalog_operator("="), None);
    assert_eq!(NumericComparison::from_datalog_operator(""), None);
}

#[test]
fn tags_are_distinct_and_come_back() {
    assert_eq!(ValueType::Ref.value_type_tag(), 0);
    assert_eq!(ValueType::Boolean.value_type_tag(), 1);
    assert_eq!(ValueType::Instant.value_type_tag(), 4);
    assert_eq!(ValueType::Double.value_type_tag(), 5);
    assert_eq!(ValueType::String.value_type_tag(), 10);
    assert_eq!(ValueType::Uuid.value_type_tag(), 11);
    assert_eq!(ValueType::Keyword.value_type_tag(), 13);
    for a in ALL {
        assert_eq!(ValueType::from_value_type_tag(a.value_type_tag()), Some(a));
        for b in ALL {
            assert_eq!(a.value_type_tag() == b.value_type_tag(), a == b);
        }
    }
    assert_eq!(ValueType::from_value_type_tag(2), None);
    assert_eq!(ValueType::from_value_type_tag(-1), None);
}

#[test]
fn booleans_are_zero_and_one() {
    assert!(ValueType::Boolean.accommodates_integer(0));
    assert!(ValueType::Boolean.accommodates_integer(1));
    assert!(!ValueType::Boolean.accommodates_integer(2));
    assert!(!ValueType::Boolean.accommodates_integer(-1));
    assert!(ValueType::Ref.accommodates_integer(0));
    assert!(!ValueType::Ref.accommodates_integer(-1));
    assert!(ValueType::Long.accommodates_integer(i64::MIN));
    assert!(!ValueType::String.accommodates_integer(1));
    assert!(ValueType::Long.is_numeric() && ValueType::Double.is_numeric());
    assert!(!ValueType::Ref.is_numeric());
}

fn members(s: &ValueTypeSet) -> Vec<ValueType> {
    ALL.iter().cloned().filter(|t| s.contains(*t)).collect()
}

#[test]
fn sets_of_types() {
    let none = ValueTypeSet::Empty;
    let any = ValueTypeSet::Any;
    let long = ValueTypeSet::unit(ValueType::Long);
    let string = ValueTypeSet::unit(ValueType::String);
    let numeric = ValueTypeSet::of_numeric_types();

    assert_eq!(ValueTypeSet::default(), any);
    assert_eq!(members(&numeric), vec![ValueType::Long, ValueType::Double]);
    assert_eq!(members(&any).len(), 8);
    assert!(none.is_none() && !any.is_none() && !long.is_none());
    assert!(long.is_unit() && !numeric.is_unit() && !any.is_unit());
    assert_eq!(long.unit_type(), Some(ValueType::Long));
    assert_eq!(numeric.unit_type(), None);

    assert_eq!(none.exemplar(), None);
    assert_eq!(any.exemplar(), Some(ValueType::Ref));
    assert_eq!(string.exemplar(), Some(ValueType::String));
    assert_eq!(numeric.exemplar(), Some(ValueType::Long));

    assert_eq!(none.union(&long), long);
    assert_eq!(long.union(&none), long);
    assert_eq!(long.union(&any), any);
    assert_eq!(long.union(&long), long);
    assert_eq!(long.union(&numeric), numeric);
    assert_eq!(numeric.union(&long), numeric);
    assert_eq!(members(&long.union(&string)), vec![ValueType::Long, ValueType::String]);
    assert_eq!(members(&numeric.union(&string)), vec![ValueType::Long, ValueType::Double, ValueType::String]);
    assert_eq!(long.union(&ValueTypeSet::unit(ValueType::Double)), numeric);

    assert_eq!(none.intersection(&any), none);
    assert_eq!(any.intersection(&numeric), numeric);
    assert_eq!(numeric.intersection(&any), numeric);
    assert_eq!(long.intersection(&numeric), long);
    assert_eq!(numeric.intersection(&long), long);
    assert_eq!(string.intersection(&numeric), none);
    assert_eq!(long.intersection(&string), none);
    let long_or_string = long.union(&string);
    assert_eq!(numeric.intersection(&long_or_string), long);
    assert_eq!(numeric.intersection(&string.union(&ValueTypeSet::unit(ValueType::Ref))), none);
    assert_eq!(numeric.intersection(&numeric), numeric);

    // Every pair of sets: union and intersection hold what they should.
    let sets = [none, any, long, string, numeric, long_or_string];
    for a in sets {
        for b in sets {
            let u = a.union(&b);
            let i = a.intersection(&b);
            for t in ALL {
                assert_eq!(u.contains(t), a.contains(t) || b.contains(t));
                assert_eq!(i.contains(t), a.contains(t) && b.contains(t));
            }
        }
    }
}

#[test]
fn bits_count_their_members() {
    let mut b = ValueTypeBits::new();
    assert_eq!(b.len(), 0);
    assert_eq!(b.first(), None);
    b = b.with(ValueType::Uuid);
    b = b.with(ValueType::Boolean);
    b = b.with(ValueType::Uuid);
    assert_eq!(b.len(), 2);
    assert_eq!(b.first(), Some(ValueType::Boolean));
    assert_eq!(b.union(&ValueTypeBits::both(ValueType::Ref, ValueType::Uuid)).len(), 3);
    assert_eq!(b.intersection(&ValueTypeBits::both(ValueType::Ref, ValueType::Uuid)).len(), 1);
}

#[test]
fn intersections_and_alternations_collect_constraints() {
    let c = |n: i64| {
        ColumnConstraint::Equals(
            QualifiedAlias("t".to_string(), Column::Fixed(DatomsColumn::Value)),
            QueryValue::PrimitiveLong(n),
        )
    };
    let mut i = ColumnIntersection::default();
    assert!(i.is_empty());
    i.add_intersection(c(1));
    i.add(ColumnConstraintOrAlternation::from_constraint(c(2)));
    assert_eq!(i.len(), 2);
    let mut other = ColumnIntersection::from_constraints(vec![c(3), c(4)]);
    i.append(&mut other);
    assert!(other.is_empty());
    assert_eq!(
        i,
        ColumnIntersection(vec![
            ColumnConstraintOrAlternation::Constraint(c(1)),
            ColumnConstraintOrAlternation::Constraint(c(2)),
            ColumnConstraintOrAlternation::Constraint(c(3)),
            ColumnConstraintOrAlternation::Constraint(c(4)),
        ])
    );
    let mut a = ColumnAlternation::default();
    a.add_alternate(ColumnIntersection::from_constraints(vec![c(5)]));
    assert_eq!(a.0.len(), 1);
}

#[test]
fn float_literals() {
    for ok in ["9.95", "-1.5", "+0.25", "1e3", "1.5E-3", "12.0e+7"] {
        assert!(Double::from_literal(ok).is_some(), "{}", ok);
    }
    for bad in ["", "1", "-", ".5", "1.", "1e", "1.5e+", "1.5x", "abc", "1..2", "--1.0"] {
        assert!(Double::from_literal(bad).is_none(), "{}", bad);
    }
    assert_eq!(TypedValue::Double(Double::from_literal("9.95").unwrap()).value_type(), ValueType::Double);
}
