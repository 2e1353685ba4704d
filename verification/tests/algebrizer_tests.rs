use mentat::algebrizer::{algebrize, algebrize_with_inputs, AlgebraicQuery, QueryInputs};
use mentat::parse::parse_find_string;
use mentat::query::{Limit, Variable};
use mentat::resolve::{AlgebrizerError, ArgumentKind};
use mentat::symbols::{NamespacedKeyword, PlainSymbol};
use mentat::translate::{cc_to_exists, query_to_select};
use mentat::types::{Column, DatomsColumn, EmptyBecause, QualifiedAlias, QueryValue};
use mentat::type_set::ValueTypeSet;
use mentat::values::{Attribute, Schema, TypedValue, ValueType};

fn schema() -> Schema {
    let mut schema = Schema::default();
    let attrs = [
        ("name", 65, ValueType::String, false),
        ("description", 66, ValueType::String, true),
        ("parent", 67, ValueType::Ref, false),
        ("age", 68, ValueType::Long, false),
        ("alive", 69, ValueType::Boolean, false),
    ];
    for (name, entid, value_type, fulltext) in attrs {
        schema.associate_ident(NamespacedKeyword::new("foo", name), entid);
        schema.add_attribute(entid, Attribute { value_type, fulltext, ..Default::default() });
    }
    // An ident that names no attribute.
    schema.associate_ident(NamespacedKeyword::new("foo", "nothing"), 70);
    schema
}

fn alg(query: &str) -> Result<AlgebraicQuery, AlgebrizerError> {
    algebrize(&schema(), parse_find_string(query).expect("parse failed"))
}

fn sql(query: &str) -> String {
    query_to_select(alg(query).expect("algebrize failed")).query.to_sql_query().unwrap().sql
}

fn reason(query: &str) -> Option<EmptyBecause> {
    alg(query).expect("algebrize failed").cc.empty_because
}

#[test]
fn predicates_fail_on_arguments_of_the_wrong_kind() {
    assert_eq!(
        alg("[:find ?x :where [?x :foo/age ?y] [(< ?y \"ten\")]]"),
        Err(AlgebrizerError::InvalidArgument(PlainSymbol::new("<"), ArgumentKind::Numeric, 1))
    );
    assert_eq!(
        alg("[:find ?x :where [?x :foo/age ?y] [(< :foo/age ?y)]]"),
        Err(AlgebrizerError::InvalidArgument(PlainSymbol::new("<"), ArgumentKind::Numeric, 0))
    );
    assert_eq!(
        alg("[:find ?x :where [?x :foo/age ?y] [(< ?z 5)]]"),
        Err(AlgebrizerError::UnboundVariable(PlainSymbol::new("?z")))
    );
    assert_eq!(
        alg("[:find ?x :where [?x :foo/age ?y] [(< ?y 5 6)]]"),
        Err(AlgebrizerError::InvalidNumberOfArguments(PlainSymbol::new("<"), 3, 2))
    );
    assert_eq!(
        alg("[:find ?x :where [?x :foo/age ?y] [(frob ?y 5)]]"),
        Err(AlgebrizerError::UnknownFunction(PlainSymbol::new("frob")))
    );
    assert_eq!(ArgumentKind::Numeric.name(), "numeric");
    assert_eq!(ArgumentKind::Instant.name(), "instant");
}

#[test]
fn unbound_variables_are_errors() {
    assert_eq!(alg("[:find ?z :where [?x :foo/age ?y]]"), Err(AlgebrizerError::UnboundVariable(PlainSymbol::new("?z"))));
    assert_eq!(
        alg("[:find ?x :with ?w :where [?x :foo/age ?y]]"),
        Err(AlgebrizerError::UnboundVariable(PlainSymbol::new("?w")))
    );
    assert_eq!(
        alg("[:find ?x :where [?x :foo/age ?y] :order ?q]"),
        Err(AlgebrizerError::UnboundVariable(PlainSymbol::new("?q")))
    );
    assert_eq!(
        alg("[:find ?x :where [?x :foo/age ?y] (not [?z :foo/age 5])]"),
        Err(AlgebrizerError::UnboundVariable(PlainSymbol::new("?z")))
    );
    assert_eq!(
        alg("[:find ?x :where [?x :foo/age 1] (or-join [?x ?y] [?x :foo/age 5] (and [?x :foo/age ?y] [?x :foo/name \"a\"]))]"),
        Err(AlgebrizerError::UnboundVariable(PlainSymbol::new("?y")))
    );
}

#[test]
fn queries_known_to_be_empty_say_why() {
    assert_eq!(reason("[:find ?x :where [?x :foo/age ?y]]"), None);
    assert_eq!(reason("[:find ?x :where [?x :no/such 5]]"), Some(EmptyBecause::AttributeLookupFailed));
    assert_eq!(reason("[:find ?x :where [?x :foo/nothing 5]]"), Some(EmptyBecause::AttributeLookupFailed));
    assert_eq!(reason("[:find ?x :where [?x 12345 5]]"), Some(EmptyBecause::AttributeLookupFailed));
    assert_eq!(
        reason("[:find ?x :where [?x :foo/parent :no/such]]"),
        Some(EmptyBecause::UnresolvedIdent(NamespacedKeyword::new("no", "such")))
    );
    assert_eq!(
        reason("[:find ?x :where [:no/such :foo/age ?x]]"),
        Some(EmptyBecause::UnresolvedIdent(NamespacedKeyword::new("no", "such")))
    );
    assert_eq!(
        reason("[:find ?x :where [?x :foo/age \"old\"]]"),
        Some(EmptyBecause::ValueTypeMismatch(ValueType::Long, TypedValue::typed_string("old")))
    );
    assert_eq!(
        reason("[:find ?x :where [?x :foo/age ?v] [?x :foo/name ?v]]"),
        Some(EmptyBecause::TypeMismatch(
            Variable::from_valid_name("?v"),
            ValueTypeSet::unit(ValueType::Long),
            ValueType::String
        ))
    );
    assert_eq!(
        reason("[:find ?x :where [?x :foo/name ?v] [(> ?v 5)]]"),
        Some(EmptyBecause::TypeMismatch(
            Variable::from_valid_name("?v"),
            ValueTypeSet::unit(ValueType::String),
            ValueType::Long
        ))
    );
    assert_eq!(reason("[:find ?x :where [?x :foo/description 5]]"), Some(EmptyBecause::AttributeLookupFailed));
    // The first reason is the one kept.
    assert_eq!(
        reason("[:find ?x :where [?x :foo/parent :no/such] [?x :foo/age \"old\"]]"),
        Some(EmptyBecause::UnresolvedIdent(NamespacedKeyword::new("no", "such")))
    );
    // An `or` is empty only if every arm is.
    assert_eq!(reason("[:find ?x :where (or [?x :no/such 5] [?x :foo/age 5])]"), None);
    // Of the reasons of the arms, the last is kept.
    assert_eq!(
        reason("[:find ?x :where (or [?x :no/such 5] [?x :no/other 5])]"),
        Some(EmptyBecause::InvalidAttributeIdent(NamespacedKeyword::new("no", "other")))
    );
}

#[test]
fn known_empty_queries_select_nothing() {
    for q in [
        "[:find ?x :where [?x :no/such 5]]",
        "[:find [?x ...] :where [?x :foo/age \"old\"]]",
        "[:find ?x . :where [?x :foo/parent :no/such]]",
        "[:find ?x :where [?x :foo/age ?v] [?x :foo/name ?v] :limit 10]",
    ] {
        let query = alg(q).expect("algebrize failed");
        assert!(query.is_known_empty());
        let text = query_to_select(query).query.to_sql_query().unwrap().sql;
        assert!(text.starts_with("SELECT 1"), "{}", text);
        assert!(text.ends_with(" LIMIT 0"), "{}", text);
        assert!(!text.contains("DISTINCT"));
    }
    let query = alg("[:find ?x :where [?x :no/such 5]]").unwrap();
    assert_eq!(cc_to_exists(query.cc).to_sql_query().unwrap().sql, "SELECT 1 LIMIT 0");
    let query = alg("[:find ?x :where [?x :foo/age 5]]").unwrap();
    assert_eq!(
        cc_to_exists(query.cc).to_sql_query().unwrap().sql,
        "SELECT 1 FROM `datoms` AS `datoms00` WHERE `datoms00`.a = 68 AND `datoms00`.v = 5 LIMIT 1"
    );
}

#[test]
fn a_limit_of_one_needs_no_distinct() {
    assert!(sql("[:find ?x :where [?x :foo/age 5]]").starts_with("SELECT DISTINCT "));
    assert!(sql("[:find [?x ...] :where [?x :foo/age 5] :limit 2]").starts_with("SELECT DISTINCT "));
    for q in [
        "[:find ?x :where [?x :foo/age 5] :limit 1]",
        "[:find [?x ...] :where [?x :foo/age 5] :limit 1]",
        "[:find ?x . :where [?x :foo/age 5]]",
        "[:find [?x] :where [?x :foo/age 5]]",
    ] {
        let text = sql(q);
        assert!(!text.contains("DISTINCT"), "{}", text);
        assert!(text.ends_with(" LIMIT 1"), "{}", text);
    }
}

#[test]
fn limits_from_inputs() {
    let parse = || parse_find_string("[:find ?x :in ?n :where [?x :foo/age 5] :limit ?n]").unwrap();
    let with = |v: TypedValue| {
        let inputs = QueryInputs::with_value_sequence(vec![(Variable::from_valid_name("?n"), v)]);
        algebrize_with_inputs(&schema(), parse(), 0, inputs)
    };
    assert_eq!(with(TypedValue::Long(3)).unwrap().limit, Limit::Fixed(3));
    assert_eq!(with(TypedValue::Long(0)), Err(AlgebrizerError::InvalidLimit(TypedValue::Long(0))));
    assert_eq!(with(TypedValue::Long(-4)), Err(AlgebrizerError::InvalidLimit(TypedValue::Long(-4))));
    assert_eq!(
        algebrize(&schema(), parse()).unwrap().limit,
        Limit::Variable(Variable::from_valid_name("?n"))
    );
    // A later value for a variable replaces an earlier one.
    let inputs = QueryInputs::with_value_sequence(vec![
        (Variable::from_valid_name("?n"), TypedValue::Long(3)),
        (Variable::from_valid_name("?n"), TypedValue::Long(8)),
    ]);
    assert_eq!(algebrize_with_inputs(&schema(), parse(), 0, inputs).unwrap().limit, Limit::Fixed(8));
}

#[test]
fn apply_limit_never_raises_a_limit() {
    let mut q = alg("[:find ?x :where [?x :foo/age 5]]").unwrap();
    assert_eq!(q.limit, Limit::Unlimited);
    q.apply_limit(None);
    assert_eq!(q.limit, Limit::Unlimited);
    q.apply_limit(Some(10));
    assert_eq!(q.limit, Limit::Fixed(10));
    q.apply_limit(Some(20));
    assert_eq!(q.limit, Limit::Fixed(10));
    q.apply_limit(None);
    assert_eq!(q.limit, Limit::Fixed(10));
    q.apply_limit(Some(4));
    assert_eq!(q.limit, Limit::Fixed(4));
    q.apply_limit(Some(4));
    assert_eq!(q.limit, Limit::Fixed(4));
}

#[test]
fn inputs_are_put_in_place_of_their_variables() {
    let parsed = parse_find_string("[:find ?x :in ?name ?who :where [?who :foo/name ?name] [?x :foo/parent ?who]]").unwrap();
    let inputs = QueryInputs::with_value_sequence(vec![
        (Variable::from_valid_name("?name"), TypedValue::typed_string("Ann")),
        (Variable::from_valid_name("?who"), TypedValue::Ref(7)),
        (Variable::from_valid_name("?other"), TypedValue::Long(1)),
    ]);
    let query = algebrize_with_inputs(&schema(), parsed, 0, inputs).unwrap();
    let select = query_to_select(query);
    let q = select.query.to_sql_query().unwrap();
    assert_eq!(
        q.sql,
        "SELECT DISTINCT `datoms01`.e AS `?x` FROM `datoms` AS `datoms00`, `datoms` AS `datoms01` \
         WHERE `datoms00`.e = 7 AND `datoms00`.a = 65 AND `datoms00`.v = $v0 \
         AND `datoms01`.a = 67 AND `datoms01`.v = 7"
    );
}

#[test]
fn backward_patterns_are_forward_patterns_turned_round() {
    assert_eq!(
        sql("[:find ?x ?y :where [?x :foo/_parent ?y]]"),
        sql("[:find ?x ?y :where [?y :foo/parent ?x]]")
    );
    assert_eq!(
        sql("[:find ?x ?y :where [?y :foo/parent ?x]]"),
        "SELECT DISTINCT `datoms00`.v AS `?x`, `datoms00`.e AS `?y` FROM `datoms` AS `datoms00` WHERE `datoms00`.a = 67"
    );
}

#[test]
fn aliases_are_numbered_from_the_counter() {
    let parsed = parse_find_string("[:find ?x :where [?x :foo/age 5] [?x :foo/name _]]").unwrap();
    let query = mentat::algebrizer::algebrize_with_counter(&schema(), parsed, 9).unwrap();
    let text = query_to_select(query).query.to_sql_query().unwrap().sql;
    assert_eq!(
        text,
        "SELECT DISTINCT `datoms09`.e AS `?x` FROM `datoms` AS `datoms09`, `datoms` AS `datoms10` \
         WHERE `datoms09`.a = 68 AND `datoms09`.v = 5 AND `datoms10`.a = 65 AND `datoms09`.e = `datoms10`.e"
    );
}

#[test]
fn fulltext_attributes_read_all_datoms() {
    assert_eq!(
        sql("[:find ?x :where [?x :foo/description \"hello\"]]"),
        "SELECT DISTINCT `all_datoms00`.e AS `?x` FROM `all_datoms` AS `all_datoms00` \
         WHERE `all_datoms00`.a = 66 AND `all_datoms00`.v = $v0"
    );
    assert_eq!(
        sql("[:find ?x :where [?x :foo/description _]]"),
        "SELECT DISTINCT `datoms00`.e AS `?x` FROM `datoms` AS `datoms00` WHERE `datoms00`.a = 66"
    );
}

#[test]
fn reasons_and_values_in_words() {
    assert_eq!(EmptyBecause::AttributeLookupFailed.to_string(), "Attribute lookup failed");
    assert_eq!(EmptyBecause::NonNumericArgument.to_string(), "Non-numeric argument in numeric place");
    assert_eq!(EmptyBecause::NonInstantArgument.to_string(), "Non-instant argument in instant place");
    assert_eq!(EmptyBecause::NonStringFulltextValue.to_string(), "Non-string argument for fulltext attribute");
    assert_eq!(
        EmptyBecause::UnresolvedIdent(NamespacedKeyword::new("no", "such")).to_string(),
        "Couldn't resolve keyword :no/such"
    );
    assert_eq!(
        EmptyBecause::InvalidAttributeIdent(NamespacedKeyword::new("no", "such")).to_string(),
        ":no/such does not name an attribute"
    );
    assert_eq!(EmptyBecause::InvalidAttributeEntid(-5).to_string(), "-5 is not an attribute");
    assert_eq!(
        EmptyBecause::NoValidTypes(Variable::from_valid_name("?x")).to_string(),
        "Type mismatch: ?x has no valid types"
    );
    assert_eq!(
        EmptyBecause::TypeMismatch(Variable::from_valid_name("?x"), ValueTypeSet::of_numeric_types(), ValueType::String)
            .to_string(),
        "Type mismatch: ?x can't be String, because it's already one of: Long Double "
    );
    assert_eq!(
        EmptyBecause::InvalidBinding(Column::Fixed(DatomsColumn::Attribute), TypedValue::Boolean(true)).to_string(),
        "true cannot name column a"
    );
    assert_eq!(
        EmptyBecause::ValueTypeMismatch(ValueType::Long, TypedValue::typed_string("old")).to_string(),
        "Type mismatch: \"old\" doesn't match attribute type Long"
    );
    let qa = QualifiedAlias("datoms00".to_string(), Column::Fixed(DatomsColumn::Value));
    assert_eq!(qa.to_string(), "datoms00.v");
    assert_eq!(QueryValue::Column(qa).to_string(), "datoms00.v");
    assert_eq!(QueryValue::Entid(5).to_string(), "entity(5)");
    assert_eq!(QueryValue::PrimitiveLong(-1).to_string(), "primitive(-1)");
    assert_eq!(
        QueryValue::TypedValue(TypedValue::typed_ns_keyword("a", "b")).to_string(),
        "value(:a/b)"
    );
}
