use mentat::explain::name_of_type;
use mentat::fragment::{QueryBuilder, QueryFragment};
use mentat::projector::QueryResults;
use mentat::pull::PullError;
use mentat::query::Variable;
use mentat::query_sql::{ColumnOrExpression, Constraint, Op};
use mentat::relresult::RelResult;
use mentat::repl::{
    db_name, format_time, help_command, opens_another, parse_namespaced_keyword, plan_lines,
    print_results, typed_value_as_string, uuid_to_string, QueryPlanStep,
};
use mentat::sql::SQLiteQueryBuilder;
use mentat::symbols::{NamespacedKeyword, PlainSymbol};
use mentat::types::{
    Column, ColumnConstraint, DatomsColumn, NumericComparison, QualifiedAlias, QueryValue,
    VariableColumn,
};
use mentat::values::{Double, TypedValue, Uuid, ValueType};

fn var(name: &str) -> Variable {
    Variable(PlainSymbol::new(name))
}

#[test]
fn a_store_without_a_path_is_in_memory() {
    assert_eq!(db_name(""), "in-memory db");
    assert_eq!(db_name("/tmp/store.db"), "/tmp/store.db");
    assert!(opens_another("", ""));
    assert!(opens_another("", "a.db"));
    assert!(opens_another("a.db", "b.db"));
    assert!(!opens_another("a.db", "a.db"));
}

#[test]
fn keywords_are_read_from_arguments() {
    assert_eq!(parse_namespaced_keyword(":foo/bar"), Some(NamespacedKeyword::new("foo", "bar")));
    assert_eq!(parse_namespaced_keyword(":foo.baz/bar"), Some(NamespacedKeyword::new("foo.baz", "bar")));
    assert_eq!(parse_namespaced_keyword("foo/bar"), None);
    assert_eq!(parse_namespaced_keyword(":foo"), None);
    assert_eq!(parse_namespaced_keyword(":foo/bar/baz"), None);
    assert_eq!(parse_namespaced_keyword(""), None);
}

#[test]
fn elapsed_times_are_shown_in_the_smallest_unit_that_stays_short() {
    let t = format_time(Some(999), Some(0), 0, 0);
    assert_eq!((t.number.as_str(), t.unit), ("999", "ns"));
    let t = format_time(Some(1_500_000), Some(1_500), 1, 0);
    assert_eq!((t.number.as_str(), t.unit), ("1500.1500", "µs"));
    let t = format_time(Some(20_000_000), Some(20_000), 20, 0);
    assert_eq!((t.number.as_str(), t.unit), ("20.20", "ms"));
    let t = format_time(Some(6_000_000_000), Some(6_000_000), 6_000, 6);
    assert_eq!((t.number.as_str(), t.unit), ("6.6000", "s"));
    // A time too long for its nanoseconds to be counted.
    let t = format_time(None, Some(5_000), 5, 0);
    assert_eq!((t.number.as_str(), t.unit), ("5000.0", "µs"));
    let t = format_time(None, None, 4_999, 4);
    assert_eq!((t.number.as_str(), t.unit), ("4999.0", "ms"));
}

#[test]
fn values_are_shown_by_their_type() {
    assert_eq!(typed_value_as_string(&TypedValue::Boolean(true)), "true");
    assert_eq!(typed_value_as_string(&TypedValue::Boolean(false)), "false");
    assert_eq!(typed_value_as_string(&TypedValue::Long(-12)), "-12");
    assert_eq!(typed_value_as_string(&TypedValue::Ref(65)), "65");
    assert_eq!(typed_value_as_string(&TypedValue::String("a \"b\"".to_string())), "\"a \\\"b\\\"\"");
    assert_eq!(
        typed_value_as_string(&TypedValue::Keyword(NamespacedKeyword::new("foo", "bar"))),
        ":foo/bar"
    );
    assert_eq!(
        typed_value_as_string(&TypedValue::Double(Double::from_literal("1.5").unwrap())),
        "1.5"
    );
    assert_eq!(typed_value_as_string(&TypedValue::Instant(0)), "1970-01-01 00:00:00 UTC");
    assert_eq!(
        typed_value_as_string(&TypedValue::Instant(1_493_399_581_314_000)),
        "2017-04-28 17:13:01.314 UTC"
    );
    // An instant beyond the dates that can be written is shown as its number.
    assert_eq!(typed_value_as_string(&TypedValue::Instant(i64::MAX)), "9223372036854775807");
}

#[test]
fn identifiers_are_shown_in_groups_of_hexadecimal_digits() {
    let bytes: [u8; 16] = [
        0x4c, 0xb3, 0xf8, 0x28, 0x75, 0x2d, 0x49, 0x7a, 0x90, 0xc9, 0xb1, 0xfd, 0x51, 0x6d, 0x5b, 0x0c,
    ];
    let u = Uuid { bytes };
    assert_eq!(uuid_to_string(&u), "4cb3f828-752d-497a-90c9-b1fd516d5b0c");
    assert_eq!(uuid_to_string(&u), uuid::Uuid::from_bytes(bytes).to_string());
    assert_eq!(typed_value_as_string(&TypedValue::Uuid(u)), "4cb3f828-752d-497a-90c9-b1fd516d5b0c");
    assert_eq!(uuid_to_string(&Uuid { bytes: [0; 16] }), "00000000-0000-0000-0000-000000000000");
}

#[test]
fn results_are_shown_as_a_table() {
    let columns = vec![var("?x"), var("?name")];
    let rel = QueryResults::Rel(RelResult {
        width: 2,
        values: vec![
            TypedValue::Ref(1),
            TypedValue::String("a".to_string()),
            TypedValue::Ref(2),
            TypedValue::String("b".to_string()),
        ],
    });
    assert_eq!(
        print_results(&columns, &rel),
        "| ?x\t| ?name\t|\n---\t---\t\n| 1\t| \"a\"\t|\n| 2\t| \"b\"\t|\n---\t---\t\n"
    );
    let tuple = QueryResults::Tuple(Some(vec![TypedValue::Ref(1), TypedValue::Boolean(true)]));
    assert_eq!(print_results(&columns, &tuple), "| ?x\t| ?name\t|\n---\t---\t\n| 1\t| true\t|\n---\t---\t\n");
    assert_eq!(
        print_results(&columns, &QueryResults::Tuple(None)),
        "| ?x\t| ?name\t|\n---\t---\t\n---\t---\t\n"
    );
    let one = vec![var("?x")];
    assert_eq!(
        print_results(&one, &QueryResults::Scalar(Some(TypedValue::Long(5)))),
        "| ?x\t|\n---\t\n| 5\t |\n---\t\n"
    );
    assert_eq!(print_results(&one, &QueryResults::Scalar(None)), "| ?x\t|\n---\t\n---\t\n");
    assert_eq!(
        print_results(&one, &QueryResults::Coll(vec![TypedValue::Long(5), TypedValue::Long(6)])),
        "| ?x\t|\n---\t\n| 5\t|\n| 6\t|\n---\t\n"
    );
    // A relation without columns has no rows, and a last row may be short.
    let none = QueryResults::Rel(RelResult { width: 0, values: vec![TypedValue::Ref(1)] });
    assert_eq!(print_results(&one, &none), "| ?x\t|\n---\t\n---\t\n");
    let short = QueryResults::Rel(RelResult {
        width: 2,
        values: vec![TypedValue::Ref(1), TypedValue::Ref(2), TypedValue::Ref(3)],
    });
    assert_eq!(print_results(&one, &short), "| ?x\t|\n---\t\n| 1\t| 2\t|\n| 3\t|\n---\t\n");
}

#[test]
fn the_steps_of_a_plan_are_aligned() {
    let steps = vec![
        QueryPlanStep { select_id: 0, order: 0, from: 0, detail: "SCAN TABLE datoms".to_string() },
        QueryPlanStep { select_id: 12, order: 3, from: 100, detail: "SEARCH".to_string() },
        QueryPlanStep { select_id: -1, order: 0, from: 7, detail: String::new() },
    ];
    assert_eq!(plan_lines(&steps), vec!["   0|0|  0|SCAN TABLE datoms", "  12|3|100|SEARCH", "  -1|0|  7|"]);
    assert_eq!(plan_lines(&Vec::new()), Vec::<String>::new());
    // Numbers under zero are as wide as zero at least.
    let low = vec![QueryPlanStep { select_id: -10, order: -1, from: -1, detail: "x".to_string() }];
    assert_eq!(plan_lines(&low), vec!["  -10|-1|-1|x"]);
}

#[test]
fn pull_errors_in_words() {
    assert_eq!(PullError::UnnamedAttribute(65).to_string(), "attribute 65 has no name");
    assert_eq!(PullError::RepeatedDbId.to_string(), ":db/id repeated");
}

#[test]
fn columns_and_constraints_in_words() {
    let x = Variable(PlainSymbol::new("?x"));
    assert_eq!(VariableColumn::Variable(Variable(PlainSymbol::new("?x"))).to_string(), "?x");
    assert_eq!(VariableColumn::VariableTypeTag(x).to_string(), "?x_value_type_tag");
    assert_eq!(Column::Fixed(DatomsColumn::Entity).to_string(), "e");
    assert_eq!(Column::Fixed(DatomsColumn::ValueTypeTag).to_string(), "value_type_tag");
    assert_eq!(NumericComparison::LessThan.to_string(), "<");
    assert_eq!(NumericComparison::LessThanOrEquals.to_string(), "<=");
    assert_eq!(NumericComparison::GreaterThan.to_string(), ">");
    assert_eq!(NumericComparison::GreaterThanOrEquals.to_string(), ">=");
    assert_eq!(NumericComparison::NotEquals.to_string(), "!=");
    let v = QualifiedAlias("datoms00".to_string(), Column::Fixed(DatomsColumn::Value));
    assert_eq!(
        ColumnConstraint::Equals(v, QueryValue::Entid(65)).to_string(),
        "datoms00.v = entity(65)"
    );
    assert_eq!(
        ColumnConstraint::NumericInequality {
            operator: NumericComparison::NotEquals,
            left: QueryValue::Column(QualifiedAlias("datoms01".to_string(), Column::Fixed(DatomsColumn::Value))),
            right: QueryValue::PrimitiveLong(5),
        }
        .to_string(),
        "datoms01.v != primitive(5)"
    );
    assert_eq!(
        ColumnConstraint::HasType("datoms00".to_string(), ValueType::Boolean).to_string(),
        format!("datoms00.value_type_tag = {}", name_of_type(ValueType::Boolean))
    );
}

fn written<F: QueryFragment>(fragment: &F) -> String {
    let mut out = SQLiteQueryBuilder::new();
    QueryFragment::push_sql(fragment, &mut out).unwrap();
    QueryBuilder::finish(out).sql
}

fn built<B: QueryBuilder>(mut builder: B) -> String {
    builder.push_sql("SELECT ");
    builder.push_identifier("a`b").unwrap();
    builder.push_sql(" WHERE ");
    builder.push_typed_value(&TypedValue::Long(5)).unwrap();
    builder.push_sql(" = ");
    builder.push_bind_param("five").unwrap();
    assert!(builder.push_bind_param("not okay").is_err());
    builder.finish().sql
}

#[test]
fn fragments_are_written_to_builders() {
    assert_eq!(written(&Op("=")), "=");
    assert_eq!(written(&ColumnOrExpression::Entid(65)), "65");
    assert_eq!(
        written(&Constraint::equal(ColumnOrExpression::Integer(1), ColumnOrExpression::Long(2))),
        "1 = 2"
    );
    assert_eq!(built(SQLiteQueryBuilder::new()), "SELECT `a``b` WHERE 5 = $five");
}

#[test]
fn help_for_all_commands_or_for_those_asked_for() {
    let all = help_command(&Vec::new()).unwrap();
    assert_eq!(all.lines().count(), 9);
    assert!(all.starts_with(".help\tShow this message.\n.open\tOpen a database at path.\n"));
    assert!(all.ends_with(".read\tTransact the contents of a file against the current open database.\n\n"));
    assert_eq!(
        help_command(&vec![".q".to_string(), "close".to_string()]),
        Ok(".q\tShortcut for `.query`. Execute a query against the current open database.\n\
            .close\tClose the current database.\n\n"
            .to_string())
    );
    assert_eq!(
        help_command(&vec!["open".to_string(), ".frob".to_string(), "nope".to_string()]),
        Err("Unrecognised command frob".to_string())
    );
    assert_eq!(help_command(&vec![".".to_string()]), Err("Unrecognised command ".to_string()));
}
