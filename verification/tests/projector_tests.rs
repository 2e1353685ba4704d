use mentat::algebrizer::algebrize;
use mentat::codec::{from_sql_value_pair, to_sql_value_pair};
use mentat::parse::parse_find_string;
use mentat::projector::{ProjectorError, QueryResults, ResultShape, TypedIndex};
use mentat::relresult::RelResult;
use mentat::sql::Value;
use mentat::symbols::NamespacedKeyword;
use mentat::translate::query_to_select;
use mentat::values::{Attribute, Double, Schema, TypedValue, Uuid, ValueType};

fn schema() -> Schema {
    let mut schema = Schema::default();
    schema.associate_ident(NamespacedKeyword::new("foo", "age"), 68);
    schema.add_attribute(68, Attribute { value_type: ValueType::Long, ..Default::default() });
    schema
}

#[test]
fn values_come_back_from_their_stored_form() {
    let values = vec![
        TypedValue::Ref(100),
        TypedValue::Boolean(true),
        TypedValue::Boolean(false),
        TypedValue::Instant(1_493_399_581_314_000),
        TypedValue::Long(-7),
        TypedValue::Double(Double::from_literal("9.95").unwrap()),
        TypedValue::typed_string("hello"),
        TypedValue::typed_ns_keyword("foo", "bar/baz"),
        TypedValue::Uuid(Uuid { bytes: [7; 16] }),
    ];
    for v in values {
        let (stored, tag) = to_sql_value_pair(&v);
        assert_eq!(tag, v.value_type().value_type_tag());
        assert_eq!(from_sql_value_pair(&stored, tag), Some(v));
    }
    assert_eq!(to_sql_value_pair(&TypedValue::Boolean(true)), (Value::Integer(1), 1));
    assert_eq!(to_sql_value_pair(&TypedValue::typed_ns_keyword("a", "b")), (Value::Text(":a/b".to_string()), 13));
    assert_eq!(to_sql_value_pair(&TypedValue::Uuid(Uuid { bytes: [7; 16] })), (Value::Blob(vec![7; 16]), 11));
}

#[test]
fn stored_forms_that_stand_for_nothing() {
    assert_eq!(from_sql_value_pair(&Value::Integer(2), 1), None);
    assert_eq!(from_sql_value_pair(&Value::Text("x".to_string()), 0), None);
    assert_eq!(from_sql_value_pair(&Value::Integer(1), 10), None);
    assert_eq!(from_sql_value_pair(&Value::Integer(1), 3), None);
    assert_eq!(from_sql_value_pair(&Value::Null, 5), None);
    assert_eq!(from_sql_value_pair(&Value::Blob(vec![1, 2, 3]), 11), None);
    assert_eq!(from_sql_value_pair(&Value::Text("foo/bar".to_string()), 13), None);
    assert_eq!(from_sql_value_pair(&Value::Text(":foo".to_string()), 13), None);
    assert_eq!(from_sql_value_pair(&Value::Text(":/bar".to_string()), 13), None);
    assert_eq!(from_sql_value_pair(&Value::Text(":foo/".to_string()), 13), None);
    // A double that was stored as an integer.
    assert_eq!(
        from_sql_value_pair(&Value::Integer(-3), 5),
        Some(TypedValue::Double(Double::from_literal("-3.0").unwrap()))
    );
}

fn rows() -> Vec<Vec<Value>> {
    vec![
        vec![Value::Integer(10), Value::Integer(41), Value::Integer(6)],
        vec![Value::Integer(11), Value::Text("x".to_string()), Value::Integer(10)],
    ]
}

#[test]
fn rows_become_results_of_each_shape() {
    let project = |q: &str, rows: &Vec<Vec<Value>>| {
        let query = algebrize(&schema(), parse_find_string(q).unwrap()).unwrap();
        query_to_select(query).projector.project(rows)
    };
    let rel = "[:find ?x ?v :where [?x _ ?v]]";
    let select = query_to_select(algebrize(&schema(), parse_find_string(rel).unwrap()).unwrap());
    assert_eq!(select.projector.shape, ResultShape::Rel);
    assert_eq!(
        select.projector.templates,
        vec![TypedIndex::Known(0, ValueType::Ref), TypedIndex::Unknown(1, 2)]
    );
    assert_eq!(
        project(rel, &rows()),
        Ok(QueryResults::Rel(RelResult {
            width: 2,
            values: vec![
                TypedValue::Ref(10),
                TypedValue::Long(41),
                TypedValue::Ref(11),
                TypedValue::typed_string("x")
            ]
        }))
    );
    assert_eq!(
        project("[:find [?x ?v] :where [?x _ ?v]]", &rows()),
        Ok(QueryResults::Tuple(Some(vec![TypedValue::Ref(10), TypedValue::Long(41)])))
    );
    assert_eq!(
        project("[:find [?x ...] :where [?x _ ?v]]", &rows()),
        Ok(QueryResults::Coll(vec![TypedValue::Ref(10), TypedValue::Ref(11)]))
    );
    assert_eq!(
        project("[:find ?x . :where [?x _ ?v]]", &rows()),
        Ok(QueryResults::Scalar(Some(TypedValue::Ref(10))))
    );
    let none: Vec<Vec<Value>> = vec![];
    assert_eq!(project("[:find ?x . :where [?x _ ?v]]", &none), Ok(QueryResults::Scalar(None)));
    assert_eq!(project("[:find [?x ?v] :where [?x _ ?v]]", &none), Ok(QueryResults::Tuple(None)));
    assert_eq!(project("[:find [?x ...] :where [?x _ ?v]]", &none), Ok(QueryResults::Coll(vec![])));
    assert_eq!(project(rel, &none), Ok(QueryResults::Rel(RelResult::empty(2))));

    // A row that is too short, or a value that does not go with its tag.
    assert_eq!(project(rel, &vec![vec![Value::Integer(10)]]), Err(ProjectorError));
    assert_eq!(
        project(rel, &vec![vec![Value::Integer(10), Value::Integer(5), Value::Integer(10)]]),
        Err(ProjectorError)
    );
    assert_eq!(
        project(rel, &vec![vec![Value::Integer(10), Value::Integer(5), Value::Text("6".to_string())]]),
        Err(ProjectorError)
    );

    // A query that is known to be empty gives the empty result whatever the rows.
    assert_eq!(project("[:find ?x ?v :where [?x :no/such ?v]]", &rows()), Ok(QueryResults::Rel(RelResult::empty(0))));
    assert_eq!(project("[:find ?x . :where [?x :no/such ?v]]", &rows()), Ok(QueryResults::Scalar(None)));
}
