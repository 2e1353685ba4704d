use mentat::algebrizer::{algebrize, validate_and_simplify_order, AlgebraicQuery};
use mentat::alternation::OrShape;
use mentat::clauses::ConjoiningClauses;
use mentat::parse::parse_find_string;
use mentat::query::{Direction, OrJoin, Order, UnifyVars, Variable, WhereClause};
use mentat::resolve::AlgebrizerError;
use mentat::symbols::{NamespacedKeyword, PlainSymbol};
use mentat::types::{
    Column, ColumnConstraint, ColumnConstraintOrAlternation, ComputedTable, DatomsTable, EmptyBecause,
    OrderBy, QualifiedAlias, SourceAlias, VariableColumn,
};
use mentat::unions::{first_unready_arm, union_types_of};
use mentat::values::{Attribute, Schema, ValueType};

fn schema() -> Schema {
    let mut schema = Schema::default();
    let attrs = [
        ("name", 65, ValueType::String),
        ("parent", 67, ValueType::Ref),
        ("age", 68, ValueType::Long),
        ("alive", 69, ValueType::Boolean),
    ];
    for (name, entid, value_type) in attrs {
        schema.associate_ident(NamespacedKeyword::new("foo", name), entid);
        schema.add_attribute(entid, Attribute { value_type, ..Default::default() });
    }
    schema
}

fn var(name: &str) -> Variable {
    Variable(PlainSymbol::new(name))
}

fn alg(query: &str) -> Result<AlgebraicQuery, AlgebrizerError> {
    algebrize(&schema(), parse_find_string(query).expect("parse failed"))
}

fn or_of(query: &str) -> OrJoin {
    let mut parsed = parse_find_string(query).expect("parse failed");
    match parsed.where_clauses.remove(0) {
        WhereClause::OrJoin(o) => o,
        other => panic!("no or: {:?}", other),
    }
}

fn shape(query: &str) -> OrShape {
    ConjoiningClauses::default().deconstruct_or_join(&schema(), &or_of(query))
}

#[test]
fn an_or_takes_the_simplest_form_that_fits() {
    let none = OrJoin { unify_vars: UnifyVars::Implicit, clauses: Vec::new() };
    assert!(matches!(
        ConjoiningClauses::default().deconstruct_or_join(&schema(), &none),
        OrShape::KnownSuccess
    ));
    assert!(matches!(shape("[:find ?x :where (or [?x :foo/age 5])]"), OrShape::Unit));
    match shape("[:find ?x :where (or [?x :foo/age 5] [?x :foo/name \"a\"])]") {
        OrShape::Simple(flags, first) => {
            assert_eq!(flags, vec![true, true]);
            assert_eq!(first, 0);
        },
        _ => panic!("not simple"),
    }
    // An arm that cannot match is left out, and the next one stands first.
    match shape("[:find ?x :where (or [?x :no/such 5] [?x :foo/age 5] [?x :foo/age 6])]") {
        OrShape::Simple(flags, first) => {
            assert_eq!(flags, vec![false, true, true]);
            assert_eq!(first, 1);
        },
        _ => panic!("not simple"),
    }
    // Where no arm can match, the reason is that of the last arm.
    match shape("[:find ?x :where (or [?x :no/such 5] [?x :no/other 5])]") {
        OrShape::KnownEmpty(reason) => {
            assert_eq!(reason, EmptyBecause::InvalidAttributeIdent(NamespacedKeyword::new("no", "other")));
        },
        _ => panic!("not empty"),
    }
    // Another shape, an arm of several clauses, or variables left out of
    // the join need a union.
    assert!(matches!(shape("[:find ?x :where (or [?x :foo/age 5] [?x :foo/age _])]"), OrShape::Complex));
    assert!(matches!(
        shape("[:find ?x :where (or [?x :foo/age 5] (and [?x :foo/age 6] [?x :foo/name _]))]"),
        OrShape::Complex
    ));
    assert!(matches!(
        shape("[:find ?x :where (or-join [?x] [?x :foo/age ?y] [?x :foo/parent ?y])]"),
        OrShape::Complex
    ));
}

#[test]
fn a_simple_or_reads_one_table() {
    let q = alg("[:find ?x :where (or [?x :foo/age 5] [?x :foo/name \"a\"])]").unwrap();
    assert_eq!(q.cc.from, vec![SourceAlias(DatomsTable::Datoms, "datoms00".to_string())]);
    assert!(q.cc.computed_tables.is_empty());
    assert_eq!(q.cc.wheres.0.len(), 1);
    match &q.cc.wheres.0[0] {
        ColumnConstraintOrAlternation::Alternation(alternation) => {
            assert_eq!(alternation.0.len(), 2);
            assert_eq!(alternation.0[0].0.len(), 2);
            assert_eq!(
                alternation.0[0].0[0],
                ColumnConstraintOrAlternation::Constraint(ColumnConstraint::Equals(
                    QualifiedAlias("datoms00".to_string(), Column::Fixed(mentat::types::DatomsColumn::Attribute)),
                    mentat::types::QueryValue::Entid(68),
                ))
            );
        },
        other => panic!("no alternation: {:?}", other),
    }
    assert_eq!(q.cc.alias_counter, 1);
    // With one arm left, its constraints stand as they are.
    let one = alg("[:find ?x :where (or [?x :no/such 5] [?x :foo/age 5] [?x :no/other 6])]").unwrap();
    assert_eq!(one.cc.wheres.0.len(), 2);
    assert!(one.cc.wheres.0.iter().all(|c| matches!(c, ColumnConstraintOrAlternation::Constraint(_))));
    assert_eq!(one.cc.from.len(), 1);
}

#[test]
fn a_union_projects_the_tags_of_variables_of_several_types() {
    let q = alg("[:find ?x ?y :where (or [?x :foo/age ?y] (and [?x :foo/name ?y] [?x :foo/alive true]))]").unwrap();
    assert_eq!(q.cc.computed_tables.len(), 1);
    match &q.cc.computed_tables[0] {
        ComputedTable::Union { projection, type_extraction, arms } => {
            assert_eq!(projection, &vec![var("?x"), var("?y")]);
            assert_eq!(type_extraction, &vec![var("?y")]);
            assert_eq!(arms.len(), 2);
            assert_eq!(arms[0].from.len(), 1);
            assert_eq!(arms[1].from.len(), 2);
            // The arms number their aliases one after the other.
            assert_eq!(arms[0].from[0].1, "datoms00");
            assert_eq!(arms[1].from[0].1, "datoms01");
            assert_eq!(arms[1].from[1].1, "datoms02");
            let types = union_types_of(arms, projection);
            assert_eq!(types.tagged, vec![var("?y")]);
            assert_eq!(types.types.len(), 2);
            assert_eq!(first_unready_arm(arms, projection, &types.tagged), None);
            // No arm binds a variable that the `or` does not mention.
            assert_eq!(first_unready_arm(arms, &vec![var("?x"), var("?z")], &Vec::new()), Some(1));
        },
        other => panic!("no union: {:?}", other),
    }
    assert_eq!(q.cc.from, vec![SourceAlias(DatomsTable::Computed(0), "c00".to_string())]);
    assert_eq!(q.cc.alias_counter, 3);
    assert_eq!(
        q.cc.extracted_types,
        vec![(
            var("?y"),
            QualifiedAlias(
                "c00".to_string(),
                Column::Variable(VariableColumn::VariableTypeTag(var("?y")))
            )
        )]
    );
    // Where the arms agree on one type, no tag is projected.
    let same = alg("[:find ?x ?y :where (or [?x :foo/age ?y] (and [?x :foo/age ?y] [?x :foo/alive true]))]").unwrap();
    match &same.cc.computed_tables[0] {
        ComputedTable::Union { type_extraction, .. } => assert!(type_extraction.is_empty()),
        other => panic!("no union: {:?}", other),
    }
}

#[test]
fn an_arm_must_bind_what_the_or_joins_on() {
    assert_eq!(
        alg("[:find ?x :where (or-join [?x ?y] [?x :foo/age ?y] (and [?x :foo/age 5] [?x :foo/alive true]))]"),
        Err(AlgebrizerError::UnboundVariable(PlainSymbol::new("?y")))
    );
    // An arm that fails is the failure of the `or`.
    assert_eq!(
        alg("[:find ?x :where (or [?x :foo/age 5] (and [?x :foo/age ?y] [(frob ?y 1)]))]"),
        Err(AlgebrizerError::UnknownFunction(PlainSymbol::new("frob")))
    );
}

#[test]
fn a_not_needs_its_variables_bound_and_names_the_first_that_is_not() {
    assert_eq!(
        alg("[:find ?x :where [?x :foo/age 5] (not-join [?b ?a] [?a :foo/parent ?b])]"),
        Err(AlgebrizerError::UnboundVariable(PlainSymbol::new("?a")))
    );
    assert_eq!(
        alg("[:find ?x :where [?x :foo/age 5] (not [?x :foo/parent ?b])]"),
        Err(AlgebrizerError::UnboundVariable(PlainSymbol::new("?b")))
    );
    let q = alg("[:find ?x :where [?x :foo/age 5] (not [?x :foo/alive true])]").unwrap();
    assert_eq!(q.cc.from.len(), 1);
    assert_eq!(q.cc.alias_counter, 2);
    match q.cc.wheres.0.last() {
        Some(ColumnConstraintOrAlternation::Constraint(ColumnConstraint::NotExists(ComputedTable::Subquery(
            inner,
        )))) => {
            assert_eq!(inner.from, vec![SourceAlias(DatomsTable::Datoms, "datoms01".to_string())]);
            // The variable starts from its column outside, and the two
            // columns are set equal inside.
            assert_eq!(inner.column_bindings.len(), 1);
            assert_eq!(inner.column_bindings[0].1.len(), 2);
            assert_eq!(inner.column_bindings[0].1[0].0, "datoms00");
            assert_eq!(inner.column_bindings[0].1[1].0, "datoms01");
        },
        other => panic!("no subquery: {:?}", other),
    }
    // Clauses that cannot match add no constraint, but use up their aliases.
    let none = alg("[:find ?x :where [?x :foo/age 5] (not [?x :no/such true])]").unwrap();
    assert_eq!(none.cc.wheres.0.len(), 2);
    assert_eq!(none.cc.empty_because, None);
}

#[test]
fn orderings_name_what_must_be_projected() {
    let q = alg("[:find ?x :where [?x :foo/age ?y] [?x _ ?v] :order ?y (desc ?v)]").unwrap();
    assert_eq!(
        q.order,
        Some(vec![
            OrderBy(Direction::Ascending, VariableColumn::Variable(var("?y"))),
            OrderBy(Direction::Descending, VariableColumn::VariableTypeTag(var("?v"))),
            OrderBy(Direction::Descending, VariableColumn::Variable(var("?v"))),
        ])
    );
    assert_eq!(q.with, vec![var("?v"), var("?y")]);
    // What is returned is not carried along a second time.
    let q = alg("[:find ?x ?y :with ?y ?v :where [?x :foo/age ?y] [?x _ ?v] :order ?x]").unwrap();
    assert_eq!(q.with, vec![var("?v")]);
    assert_eq!(q.order, Some(vec![OrderBy(Direction::Ascending, VariableColumn::Variable(var("?x")))]));
    // Without entries there is no ordering.
    let plain = alg("[:find ?x :where [?x :foo/age ?y]]").unwrap();
    assert_eq!(plain.order, None);
    let simplified = validate_and_simplify_order(&plain.cc, Some(Vec::new())).unwrap();
    assert_eq!(simplified.order, None);
    assert!(simplified.vars.is_empty());
    let failed = validate_and_simplify_order(
        &plain.cc,
        Some(vec![Order(Direction::Ascending, var("?y")), Order(Direction::Ascending, var("?q"))]),
    );
    assert!(matches!(failed, Err(AlgebrizerError::UnboundVariable(s)) if s == PlainSymbol::new("?q")));
}
