use mentat::query::{Direction, Limit, Variable};
use mentat::query_sql::{
    ColumnOrExpression, Constraint, FromClause, Join, JoinOp, Op, ProjectedColumn, Projection,
    SelectQuery, TableList, TableOrSubquery,
};
use mentat::sql::{str_lt, SQLError, SQLQuery, SQLiteQueryBuilder, Value};
use mentat::symbols::NamespacedKeyword;
use mentat::types::{
    Column, DatomsColumn, DatomsTable, OrderBy, QualifiedAlias, SourceAlias, VariableColumn,
};
use mentat::values::{Double, TypedValue, Uuid};

fn string_arg(s: &str) -> Value {
    Value::Text(s.to_string())
}

#[test]
fn test_sql() {
    let mut s = SQLiteQueryBuilder::new();
    s.push_sql("SELECT ");
    s.push_identifier("foo").unwrap();
    s.push_sql(" WHERE ");
    s.push_identifier("bar").unwrap();
    s.push_sql(" = ");
    s.push_static_arg(string_arg("frobnicate"));
    s.push_sql(" OR ");
    s.push_static_arg(string_arg("swoogle"));
    let q = s.finish();

    assert_eq!(q.sql.as_str(), "SELECT `foo` WHERE `bar` = $v0 OR $v1");
    assert_eq!(
        q.args,
        vec![("$v0".to_string(), string_arg("frobnicate")), ("$v1".to_string(), string_arg("swoogle"))]
    );
}

#[test]
fn test_end_to_end() {
    // [:find ?x :where [?x 65537 ?v] [?x 65536 ?v]]
    let datoms00 = "datoms00".to_string();
    let datoms01 = "datoms01".to_string();
    let eq = Op("=");
    let source_aliases = vec![
        TableOrSubquery::Table(SourceAlias(DatomsTable::Datoms, datoms00.clone())),
        TableOrSubquery::Table(SourceAlias(DatomsTable::Datoms, datoms01.clone())),
    ];
    let query = SelectQuery {
        distinct: false,
        projection: Projection::Columns(vec![ProjectedColumn(
            ColumnOrExpression::Column(QualifiedAlias(datoms00.clone(), Column::Fixed(DatomsColumn::Entity))),
            "x".to_string(),
        )]),
        from: FromClause::TableList(TableList(source_aliases)),
        constraints: vec![
            Constraint::Infix {
                op: eq.clone(),
                left: ColumnOrExpression::Column(QualifiedAlias(datoms01.clone(), Column::Fixed(DatomsColumn::Value))),
                right: ColumnOrExpression::Column(QualifiedAlias(datoms00.clone(), Column::Fixed(DatomsColumn::Value))),
            },
            Constraint::Infix {
                op: eq.clone(),
                left: ColumnOrExpression::Column(QualifiedAlias(datoms00.clone(), Column::Fixed(DatomsColumn::Attribute))),
                right: ColumnOrExpression::Entid(65537),
            },
            Constraint::Infix {
                op: eq.clone(),
                left: ColumnOrExpression::Column(QualifiedAlias(datoms01.clone(), Column::Fixed(DatomsColumn::Attribute))),
                right: ColumnOrExpression::Entid(65536),
            },
        ],
        order: vec![],
        limit: Limit::Unlimited,
    };

    let SQLQuery { sql, args } = query.to_sql_query().unwrap();
    assert_eq!("SELECT `datoms00`.e AS `x` FROM `datoms` AS `datoms00`, `datoms` AS `datoms01` WHERE `datoms01`.v = `datoms00`.v AND `datoms00`.a = 65537 AND `datoms01`.a = 65536", sql);
    assert!(args.is_empty());
}

#[test]
fn identifiers_double_their_backticks() {
    let mut s = SQLiteQueryBuilder::new();
    s.push_identifier("a`b``c").unwrap();
    assert_eq!(s.finish().sql, "`a``b````c`");
}

#[test]
fn equal_strings_and_uuids_share_a_parameter() {
    let mut s = SQLiteQueryBuilder::new();
    let u = Uuid { bytes: [1, 2, 3, 4, 5, 6, 7, 8, 9, 10, 11, 12, 13, 14, 15, 16] };
    let other = Uuid { bytes: [0; 16] };
    for v in [
        TypedValue::typed_string("a"),
        TypedValue::Uuid(u),
        TypedValue::typed_string("b"),
        TypedValue::typed_string("a"),
        TypedValue::Uuid(u),
        TypedValue::Uuid(other),
        TypedValue::typed_string("b"),
    ] {
        s.push_typed_value(&v).unwrap();
        s.push_sql(" ");
    }
    let q = s.finish();
    assert_eq!(q.sql, "$v0 $v1 $v2 $v0 $v1 $v3 $v2 ");
    assert_eq!(
        q.args,
        vec![
            ("$v0".to_string(), string_arg("a")),
            ("$v1".to_string(), Value::Blob(u.bytes.to_vec())),
            ("$v2".to_string(), string_arg("b")),
            ("$v3".to_string(), Value::Blob(vec![0; 16])),
        ]
    );
}

#[test]
fn keywords_get_parameters_of_their_own() {
    let mut s = SQLiteQueryBuilder::new();
    let kw = TypedValue::Keyword(NamespacedKeyword::new("foo", "bar"));
    s.push_typed_value(&kw).unwrap();
    s.push_sql(", ");
    s.push_typed_value(&kw).unwrap();
    s.push_sql(", ");
    // A string with the same text is another value.
    s.push_typed_value(&TypedValue::typed_string(":foo/bar")).unwrap();
    let q = s.finish();
    assert_eq!(q.sql, "$v0, $v1, $v2");
    assert_eq!(
        q.args,
        vec![
            ("$v0".to_string(), string_arg(":foo/bar")),
            ("$v1".to_string(), string_arg(":foo/bar")),
            ("$v2".to_string(), string_arg(":foo/bar")),
        ]
    );
}

#[test]
fn literals_are_written_into_the_text() {
    let mut s = SQLiteQueryBuilder::new();
    for v in [
        TypedValue::Ref(65536),
        TypedValue::Boolean(true),
        TypedValue::Boolean(false),
        TypedValue::Long(-42),
        TypedValue::Long(i64::MIN),
        TypedValue::Long(i64::MAX),
        TypedValue::Double(Double::from_literal("-1.5e3").unwrap()),
        TypedValue::Instant(1_493_399_581_314_000),
    ] {
        s.push_typed_value(&v).unwrap();
        s.push_sql(" ");
    }
    let q = s.finish();
    assert_eq!(
        q.sql,
        "65536 1 0 -42 -9223372036854775808 9223372036854775807 -1.5e3 1493399581314000 "
    );
    assert!(q.args.is_empty());
}

#[test]
fn parameters_are_ordered_by_name() {
    let mut s = SQLiteQueryBuilder::new();
    for i in 0..12 {
        s.push_typed_value(&TypedValue::typed_string(&format!("s{}", i))).unwrap();
    }
    let names: Vec<String> = s.finish().args.into_iter().map(|(n, _)| n).collect();
    assert_eq!(
        names,
        vec!["$v0", "$v1", "$v10", "$v11", "$v2", "$v3", "$v4", "$v5", "$v6", "$v7", "$v8", "$v9"]
    );
    assert!(str_lt("$v1", "$v10"));
    assert!(str_lt("$v10", "$v2"));
    assert!(!str_lt("$v2", "$v2"));
    assert!(!str_lt("b", "a"));
}

#[test]
fn bind_parameters_are_checked() {
    let mut s = SQLiteQueryBuilder::new();
    assert_eq!(s.push_bind_param("foo-bar"), Err(SQLError::InvalidParameterName("foo-bar".to_string())));
    assert_eq!(s.push_bind_param("v12"), Err(SQLError::BindParamCouldBeGenerated("v12".to_string())));
    assert_eq!(s.push_bind_param("v"), Err(SQLError::BindParamCouldBeGenerated("v".to_string())));
    assert_eq!(s.push_bind_param("v1x"), Ok(()));
    s.push_sql(" ");
    assert_eq!(s.push_bind_param("limit_9"), Ok(()));
    assert_eq!(s.finish().sql, "$v1x $limit_9");

    let mut t = SQLiteQueryBuilder::with_prefix("$x".to_string());
    assert_eq!(t.push_bind_param("v12"), Ok(()));
    assert_eq!(t.push_bind_param("x12"), Err(SQLError::BindParamCouldBeGenerated("x12".to_string())));
    t.push_typed_value(&TypedValue::typed_string("a")).unwrap();
    assert_eq!(t.finish().sql, "$v12$x0");
}

fn column(table: &str, column: DatomsColumn) -> ColumnOrExpression {
    ColumnOrExpression::Column(QualifiedAlias(table.to_string(), Column::Fixed(column)))
}

fn plain_select(constraints: Vec<Constraint>) -> SelectQuery {
    SelectQuery {
        distinct: false,
        projection: Projection::One,
        from: FromClause::Nothing,
        constraints,
        order: vec![],
        limit: Limit::Unlimited,
    }
}

#[test]
fn constraints_are_written_with_their_connectives() {
    let a = || Constraint::equal(column("t", DatomsColumn::Entity), ColumnOrExpression::Integer(1));
    let b = || Constraint::not_equal(column("t", DatomsColumn::Tx), ColumnOrExpression::Long(2));
    let q = plain_select(vec![
        Constraint::And { constraints: vec![] },
        Constraint::Or { constraints: vec![] },
        Constraint::And { constraints: vec![a(), b()] },
        Constraint::Or { constraints: vec![a(), Constraint::And { constraints: vec![b()] }] },
        Constraint::In {
            left: column("t", DatomsColumn::Attribute),
            list: vec![ColumnOrExpression::Entid(7), ColumnOrExpression::Entid(8)],
        },
        Constraint::NotExists { subquery: TableOrSubquery::Subquery(Box::new(plain_select(vec![a()]))) },
    ]);
    assert_eq!(
        q.to_sql_query().unwrap().sql,
        "SELECT 1 WHERE 1 AND 0 AND (`t`.e = 1 AND `t`.tx <> 2) AND (`t`.e = 1 OR (`t`.tx <> 2)) \
         AND `t`.a IN (7, 8) AND NOT EXISTS (SELECT 1 WHERE `t`.e = 1)"
    );
}

#[test]
fn from_order_and_limit_are_written() {
    let q = SelectQuery {
        distinct: true,
        projection: Projection::Star,
        from: FromClause::Join(Join {
            left: TableOrSubquery::Table(SourceAlias(DatomsTable::AllDatoms, "a".to_string())),
            op: JoinOp::Inner,
            right: TableOrSubquery::Union(vec![plain_select(vec![]), plain_select(vec![])], "c00".to_string()),
        }),
        constraints: vec![],
        order: vec![
            OrderBy(Direction::Descending, VariableColumn::VariableTypeTag(Variable::from_valid_name("?y"))),
            OrderBy(Direction::Ascending, VariableColumn::Variable(Variable::from_valid_name("?y"))),
        ],
        limit: Limit::Variable(Variable::from_valid_name("?how-many")),
    };
    assert_eq!(
        q.to_sql_query().unwrap().sql,
        "SELECT DISTINCT * FROM `all_datoms` AS `a` JOIN (SELECT 1 UNION SELECT 1) AS `c00` \
         ORDER BY `?y_value_type_tag` DESC, `?y` ASC LIMIT $ihow_many"
    );

    // An empty table list writes no FROM at all.
    let mut none = plain_select(vec![]);
    none.from = FromClause::TableList(TableList(vec![]));
    none.limit = Limit::Fixed(0);
    assert_eq!(none.to_sql_query().unwrap().sql, "SELECT 1 LIMIT 0");
}

#[test]
fn a_limit_variable_that_looks_generated_is_refused() {
    let mut q = plain_select(vec![]);
    // `?` and the name `0` give the bind parameter `i0`, which is fine; but
    // with the prefix `$i` it could be taken for a generated one.
    q.limit = Limit::Variable(Variable::from_valid_name("?0"));
    assert_eq!(q.to_sql_query().unwrap().sql, "SELECT 1 LIMIT $i0");
    let mut b = SQLiteQueryBuilder::with_prefix("$i".to_string());
    assert_eq!(q.push_sql(&mut b), Err(SQLError::BindParamCouldBeGenerated("i0".to_string())));
}
