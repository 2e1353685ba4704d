use mentat::edn::Value;
use mentat::parse::{parse_find_string, Find, ParseError, Query, Where};
use mentat::query::{
    Direction, Element, FindSpec, FnArg, Limit, NonIntegerConstant, NotJoin, OrJoin,
    OrWhereClause, Order, Pattern, PatternNonValuePlace, PatternValuePlace, Predicate, SrcVar,
    UnifyVars, Variable, WhereClause,
};
use mentat::reader;
use mentat::symbols::{Keyword, NamespacedKeyword, PlainSymbol};
use mentat::values::Double;

fn variable(x: PlainSymbol) -> Variable {
    Variable(x)
}

fn ident_kw(kw: NamespacedKeyword) -> PatternNonValuePlace {
    PatternNonValuePlace::Ident(kw)
}

fn ident(ns: &str, name: &str) -> PatternNonValuePlace {
    ident_kw(NamespacedKeyword::new(ns, name))
}

fn float(literal: &str) -> Double {
    Double::from_literal(literal).expect("a float literal")
}

#[test]
fn test_pattern_mixed() {
    let e = PlainSymbol::new("_");
    let a = NamespacedKeyword::new("foo", "bar");
    let v = float("99.9");
    let tx = PlainSymbol::new("?tx");
    let input = Value::Vector(vec![
        Value::PlainSymbol(e.clone()),
        Value::NamespacedKeyword(a.clone()),
        Value::Float(v.clone()),
        Value::PlainSymbol(tx.clone()),
    ]);
    assert_eq!(
        Where::pattern(&input),
        Ok(WhereClause::Pattern(Pattern {
            source: None,
            entity: PatternNonValuePlace::Placeholder,
            attribute: ident_kw(a),
            value: PatternValuePlace::Constant(NonIntegerConstant::Float(v)),
            tx: PatternNonValuePlace::Variable(variable(tx)),
        }))
    );
}

#[test]
fn test_pattern_vars() {
    let s = PlainSymbol::new("$x");
    let e = PlainSymbol::new("?e");
    let a = PlainSymbol::new("?a");
    let v = PlainSymbol::new("?v");
    let tx = PlainSymbol::new("?tx");
    let input = Value::Vector(vec![
        Value::PlainSymbol(s.clone()),
        Value::PlainSymbol(e.clone()),
        Value::PlainSymbol(a.clone()),
        Value::PlainSymbol(v.clone()),
        Value::PlainSymbol(tx.clone()),
    ]);
    assert_eq!(
        Where::pattern(&input),
        Ok(WhereClause::Pattern(Pattern {
            source: Some(SrcVar::NamedSrc("x".to_string())),
            entity: PatternNonValuePlace::Variable(variable(e)),
            attribute: PatternNonValuePlace::Variable(variable(a)),
            value: PatternValuePlace::Variable(variable(v)),
            tx: PatternNonValuePlace::Variable(variable(tx)),
        }))
    );
}

#[test]
fn test_pattern_reversed_invalid() {
    let e = PlainSymbol::new("_");
    let a = NamespacedKeyword::new("foo", "_bar");
    let v = float("99.9");
    let tx = PlainSymbol::new("?tx");
    let input = Value::Vector(vec![
        Value::PlainSymbol(e.clone()),
        Value::NamespacedKeyword(a.clone()),
        Value::Float(v.clone()),
        Value::PlainSymbol(tx.clone()),
    ]);
    let result = Where::pattern(&input);
    assert!(matches!(result, Err(_)), "Expected a parse error.");
}

#[test]
fn test_pattern_reversed() {
    let e = PlainSymbol::new("_");
    let a = NamespacedKeyword::new("foo", "_bar");
    let v = PlainSymbol::new("?v");
    let tx = PlainSymbol::new("?tx");
    let input = Value::Vector(vec![
        Value::PlainSymbol(e.clone()),
        Value::NamespacedKeyword(a.clone()),
        Value::PlainSymbol(v.clone()),
        Value::PlainSymbol(tx.clone()),
    ]);

    // The attribute is no longer reversed, and the entity and value have
    // switched places.
    assert_eq!(
        Where::pattern(&input),
        Ok(WhereClause::Pattern(Pattern {
            source: None,
            entity: PatternNonValuePlace::Variable(variable(v)),
            attribute: ident("foo", "bar"),
            value: PatternValuePlace::Placeholder,
            tx: PatternNonValuePlace::Variable(variable(tx)),
        }))
    );
}

#[test]
fn test_rule_vars() {
    let e = PlainSymbol::new("?e");
    let input = Value::Vector(vec![Value::PlainSymbol(e.clone())]);
    assert_eq!(Where::rule_vars(&input), Ok(vec![variable(e.clone())]));
}

#[test]
fn test_repeated_vars() {
    let e = PlainSymbol::new("?e");
    let f = PlainSymbol::new("?f");
    let input = vec![Value::PlainSymbol(e.clone()), Value::PlainSymbol(f.clone())];
    assert_eq!(Find::vars(&input), Ok(vec![variable(e.clone()), variable(f.clone())]));

    let g = PlainSymbol::new("?g");
    let input = vec![Value::PlainSymbol(g.clone()), Value::PlainSymbol(g.clone())];
    assert_eq!(Find::vars(&input), Err(ParseError::DuplicateVariableError));
}

#[test]
fn test_or() {
    let oj = PlainSymbol::new("or");
    let e = PlainSymbol::new("?e");
    let a = PlainSymbol::new("?a");
    let v = PlainSymbol::new("?v");
    let input = Value::List(vec![
        Value::PlainSymbol(oj),
        Value::Vector(vec![
            Value::PlainSymbol(e.clone()),
            Value::PlainSymbol(a.clone()),
            Value::PlainSymbol(v.clone()),
        ]),
    ]);
    assert_eq!(
        Where::or_clause(&input),
        Ok(WhereClause::OrJoin(OrJoin::new(
            UnifyVars::Implicit,
            vec![OrWhereClause::Clause(WhereClause::Pattern(Pattern {
                source: None,
                entity: PatternNonValuePlace::Variable(variable(e)),
                attribute: PatternNonValuePlace::Variable(variable(a)),
                value: PatternValuePlace::Variable(variable(v)),
                tx: PatternNonValuePlace::Placeholder,
            }))]
        )))
    );
}

#[test]
fn test_or_join() {
    let oj = PlainSymbol::new("or-join");
    let e = PlainSymbol::new("?e");
    let a = PlainSymbol::new("?a");
    let v = PlainSymbol::new("?v");
    let input = Value::List(vec![
        Value::PlainSymbol(oj),
        Value::Vector(vec![Value::PlainSymbol(e.clone())]),
        Value::Vector(vec![
            Value::PlainSymbol(e.clone()),
            Value::PlainSymbol(a.clone()),
            Value::PlainSymbol(v.clone()),
        ]),
    ]);
    assert_eq!(
        Where::or_join_clause(&input),
        Ok(WhereClause::OrJoin(OrJoin::new(
            UnifyVars::Explicit(vec![variable(e.clone())]),
            vec![OrWhereClause::Clause(WhereClause::Pattern(Pattern {
                source: None,
                entity: PatternNonValuePlace::Variable(variable(e)),
                attribute: PatternNonValuePlace::Variable(variable(a)),
                value: PatternValuePlace::Variable(variable(v)),
                tx: PatternNonValuePlace::Placeholder,
            }))]
        )))
    );
}

#[test]
fn parse_test_not() {
    let e = PlainSymbol::new("?e");
    let a = PlainSymbol::new("?a");
    let v = PlainSymbol::new("?v");

    let input = reader::value("(not [?e ?a ?v])").expect("to be able to parse input");
    assert_eq!(
        Where::not_clause(&input),
        Ok(WhereClause::NotJoin(NotJoin {
            unify_vars: UnifyVars::Implicit,
            clauses: vec![WhereClause::Pattern(Pattern {
                source: None,
                entity: PatternNonValuePlace::Variable(variable(e)),
                attribute: PatternNonValuePlace::Variable(variable(a)),
                value: PatternValuePlace::Variable(variable(v)),
                tx: PatternNonValuePlace::Placeholder,
            })],
        }))
    );
}

#[test]
fn parse_test_not_join() {
    let e = PlainSymbol::new("?e");
    let a = PlainSymbol::new("?a");
    let v = PlainSymbol::new("?v");

    let input = reader::value("(not-join [?e] [?e ?a ?v])").expect("to be able to parse input");
    assert_eq!(
        Where::not_join_clause(&input),
        Ok(WhereClause::NotJoin(NotJoin {
            unify_vars: UnifyVars::Explicit(vec![variable(e.clone())]),
            clauses: vec![WhereClause::Pattern(Pattern {
                source: None,
                entity: PatternNonValuePlace::Variable(variable(e)),
                attribute: PatternNonValuePlace::Variable(variable(a)),
                value: PatternValuePlace::Variable(variable(v)),
                tx: PatternNonValuePlace::Placeholder,
            })],
        }))
    );
}

#[test]
fn test_find_sp_variable() {
    let sym = PlainSymbol::new("?x");
    let input = Value::Vector(vec![Value::PlainSymbol(sym.clone())]);
    let items = input.as_vector().expect("a vector");
    assert_eq!(items.len(), 1);
    assert_eq!(Query::variable(&items[0]), Ok(variable(sym)));
}

#[test]
fn test_find_scalar() {
    let sym = PlainSymbol::new("?x");
    let period = PlainSymbol::new(".");
    let input = Value::Vector(vec![
        Value::PlainSymbol(sym.clone()),
        Value::PlainSymbol(period.clone()),
    ]);
    let items = input.as_vector().expect("a vector");
    assert_eq!(
        Find::find_scalar(items),
        Ok(FindSpec::FindScalar(Element::Variable(variable(sym))))
    );
}

#[test]
fn test_find_coll() {
    let sym = PlainSymbol::new("?x");
    let period = PlainSymbol::new("...");
    let input = Value::Vector(vec![
        Value::PlainSymbol(sym.clone()),
        Value::PlainSymbol(period.clone()),
    ]);
    assert_eq!(
        Find::find_coll(&input),
        Ok(FindSpec::FindColl(Element::Variable(variable(sym))))
    );
}

#[test]
fn test_find_rel() {
    let vx = PlainSymbol::new("?x");
    let vy = PlainSymbol::new("?y");
    let input = Value::Vector(vec![Value::PlainSymbol(vx.clone()), Value::PlainSymbol(vy.clone())]);
    let items = input.as_vector().expect("a vector");
    assert_eq!(
        Find::find_rel(items),
        Ok(FindSpec::FindRel(vec![
            Element::Variable(variable(vx)),
            Element::Variable(variable(vy))
        ]))
    );
}

#[test]
fn test_find_tuple() {
    let vx = PlainSymbol::new("?x");
    let vy = PlainSymbol::new("?y");
    let input = Value::Vector(vec![Value::PlainSymbol(vx.clone()), Value::PlainSymbol(vy.clone())]);
    assert_eq!(
        Find::find_tuple(&input),
        Ok(FindSpec::FindTuple(vec![
            Element::Variable(variable(vx)),
            Element::Variable(variable(vy))
        ]))
    );
}

#[test]
fn test_natural_numbers() {
    let text = Value::Text("foo".to_string());
    let neg = Value::Integer(-10);
    let zero = Value::Integer(0);
    let pos = Value::Integer(5);

    assert_eq!(Query::natural_number(&text), Err(ParseError::InvalidLimit(Value::Text("foo".to_string()))));
    assert_eq!(Query::natural_number(&neg), Err(ParseError::InvalidLimit(Value::Integer(-10))));
    assert_eq!(Query::natural_number(&zero), Err(ParseError::InvalidLimit(Value::Integer(0))));
    assert_eq!(None, Query::natural_number(&pos).err());
    assert_eq!(Query::natural_number(&pos), Ok(5));
}

#[test]
fn test_fn_arg_collections() {
    let vx = PlainSymbol::new("?x");
    let vy = PlainSymbol::new("?y");
    let input = Value::Vector(vec![Value::Vector(vec![
        Value::PlainSymbol(vx.clone()),
        Value::PlainSymbol(vy.clone()),
    ])]);
    let items = input.as_vector().expect("a vector");
    assert_eq!(items.len(), 1);
    assert_eq!(
        Query::fn_arg(&items[0]),
        Ok(FnArg::Vector(vec![FnArg::Variable(variable(vx)), FnArg::Variable(variable(vy))]))
    );
}

#[test]
fn can_parse_predicates() {
    let s = "[:find [?x ...] :where [?x _ ?y] [(< ?y 10)]]";
    let p = parse_find_string(s).unwrap();

    assert_eq!(p.find_spec, FindSpec::FindColl(Element::Variable(Variable::from_valid_name("?x"))));
    assert_eq!(
        p.where_clauses,
        vec![
            WhereClause::Pattern(Pattern {
                source: None,
                entity: PatternNonValuePlace::Variable(Variable::from_valid_name("?x")),
                attribute: PatternNonValuePlace::Placeholder,
                value: PatternValuePlace::Variable(Variable::from_valid_name("?y")),
                tx: PatternNonValuePlace::Placeholder,
            }),
            WhereClause::Pred(Predicate {
                operator: PlainSymbol::new("<"),
                args: vec![FnArg::Variable(Variable::from_valid_name("?y")), FnArg::EntidOrInteger(10)]
            }),
        ]
    );
}

fn x_pattern(value: i64) -> OrWhereClause {
    OrWhereClause::Clause(WhereClause::Pattern(Pattern {
        source: None,
        entity: PatternNonValuePlace::Variable(Variable::from_valid_name("?x")),
        attribute: PatternNonValuePlace::Placeholder,
        value: PatternValuePlace::EntidOrInteger(value),
        tx: PatternNonValuePlace::Placeholder,
    }))
}

#[test]
fn can_parse_simple_or() {
    let s = "[:find ?x . :where (or [?x _ 10] [?x _ 15])]";
    let p = parse_find_string(s).unwrap();

    assert_eq!(p.find_spec, FindSpec::FindScalar(Element::Variable(Variable::from_valid_name("?x"))));
    assert_eq!(
        p.where_clauses,
        vec![WhereClause::OrJoin(OrJoin::new(UnifyVars::Implicit, vec![x_pattern(10), x_pattern(15)]))]
    );
}

#[test]
fn can_parse_unit_or_join() {
    let s = "[:find ?x . :where (or-join [?x] [?x _ 15])]";
    let p = parse_find_string(s).expect("to be able to parse find");

    assert_eq!(p.find_spec, FindSpec::FindScalar(Element::Variable(Variable::from_valid_name("?x"))));
    assert_eq!(
        p.where_clauses,
        vec![WhereClause::OrJoin(OrJoin::new(
            UnifyVars::Explicit(vec![Variable::from_valid_name("?x")]),
            vec![x_pattern(15)]
        ))]
    );
}

#[test]
fn can_parse_simple_or_join() {
    let s = "[:find ?x . :where (or-join [?x] [?x _ 10] [?x _ 15])]";
    let p = parse_find_string(s).unwrap();

    assert_eq!(p.find_spec, FindSpec::FindScalar(Element::Variable(Variable::from_valid_name("?x"))));
    assert_eq!(
        p.where_clauses,
        vec![WhereClause::OrJoin(OrJoin::new(
            UnifyVars::Explicit(vec![Variable::from_valid_name("?x")]),
            vec![x_pattern(10), x_pattern(15)]
        ))]
    );
}

fn xy_pattern(name: &str) -> OrWhereClause {
    OrWhereClause::Clause(WhereClause::Pattern(Pattern {
        source: None,
        entity: PatternNonValuePlace::Variable(Variable::from_valid_name("?x")),
        attribute: ident("foo", name),
        value: PatternValuePlace::Variable(Variable::from_valid_name("?y")),
        tx: PatternNonValuePlace::Placeholder,
    }))
}

#[test]
fn can_parse_simple_or_and_join() {
    let s = "[:find ?x . :where (or [?x _ 10] (and (or [?x :foo/bar ?y] [?x :foo/baz ?y]) [(< ?y 1)]))]";
    let p = parse_find_string(s).unwrap();

    assert_eq!(p.find_spec, FindSpec::FindScalar(Element::Variable(Variable::from_valid_name("?x"))));
    assert_eq!(
        p.where_clauses,
        vec![WhereClause::OrJoin(OrJoin::new(
            UnifyVars::Implicit,
            vec![
                x_pattern(10),
                OrWhereClause::And(vec![
                    WhereClause::OrJoin(OrJoin::new(
                        UnifyVars::Implicit,
                        vec![xy_pattern("bar"), xy_pattern("baz")]
                    )),
                    WhereClause::Pred(Predicate {
                        operator: PlainSymbol::new("<"),
                        args: vec![FnArg::Variable(Variable::from_valid_name("?y")), FnArg::EntidOrInteger(1)]
                    }),
                ])
            ]
        ))]
    );
}

#[test]
fn can_parse_order_by() {
    let invalid = "[:find ?x :where [?x :foo/baz ?y] :order]";
    assert!(parse_find_string(invalid).is_err());

    // Defaults to ascending.
    let default = "[:find ?x :where [?x :foo/baz ?y] :order ?y]";
    assert_eq!(
        parse_find_string(default).unwrap().order,
        Some(vec![Order(Direction::Ascending, Variable::from_valid_name("?y"))])
    );

    let ascending = "[:find ?x :where [?x :foo/baz ?y] :order (asc ?y)]";
    assert_eq!(
        parse_find_string(ascending).unwrap().order,
        Some(vec![Order(Direction::Ascending, Variable::from_valid_name("?y"))])
    );

    let descending = "[:find ?x :where [?x :foo/baz ?y] :order (desc ?y)]";
    assert_eq!(
        parse_find_string(descending).unwrap().order,
        Some(vec![Order(Direction::Descending, Variable::from_valid_name("?y"))])
    );

    let mixed = "[:find ?x :where [?x :foo/baz ?y] :order (desc ?y) (asc ?x)]";
    assert_eq!(
        parse_find_string(mixed).unwrap().order,
        Some(vec![
            Order(Direction::Descending, Variable::from_valid_name("?y")),
            Order(Direction::Ascending, Variable::from_valid_name("?x"))
        ])
    );
}

#[test]
fn query_errors_are_structured() {
    assert_eq!(parse_find_string("[:find ?x"), Err(ParseError::EdnParseError(reader::EdnParseError)));
    assert_eq!(
        parse_find_string("[:where [?x _ _]]"),
        Err(ParseError::MissingFieldError(Keyword::new("find")))
    );
    assert_eq!(parse_find_string("[:find ?x]"), Err(ParseError::MissingFieldError(Keyword::new("where"))));
    assert_eq!(parse_find_string("[:find ?x . ?y :where [?x _ _]]"), Err(ParseError::FindParseError));
    assert_eq!(parse_find_string("[:find ?x :where [?x]]"), Err(ParseError::WhereParseError));
    assert_eq!(
        parse_find_string("[:find ?x :in ?a ?a :where [?x _ _]]"),
        Err(ParseError::DuplicateVariableError)
    );
    assert_eq!(
        parse_find_string("[:find ?x :with ?a 5 :where [?x _ _]]"),
        Err(ParseError::NotAVariableError(Value::Integer(5)))
    );
    assert_eq!(
        parse_find_string("[:find ?x :where [?x _ _] :limit 0]"),
        Err(ParseError::InvalidLimit(Value::Integer(0)))
    );
    assert_eq!(
        parse_find_string("[:find ?x :where [?x _ _] :limit ?n]"),
        Err(ParseError::UnknownLimitVar(PlainSymbol::new("?n")))
    );
    assert_eq!(
        parse_find_string("[:find ?x :in ?n :where [?x _ _] :limit ?n]").unwrap().limit,
        Limit::Variable(Variable::from_valid_name("?n"))
    );
    assert_eq!(parse_find_string("[:find ?x :where [?x _ _] :limit 7]").unwrap().limit, Limit::Fixed(7));
    assert_eq!(parse_find_string("42"), Err(ParseError::InvalidInputError(Value::Integer(42))));
    assert!(matches!(
        parse_find_string("[:find ?x :find ?y :where [?x _ _]]"),
        Err(ParseError::InvalidInputError(_))
    ));
    assert!(matches!(
        parse_find_string("[:find ?x :frobnicate ?y :where [?x _ _]]"),
        Err(ParseError::InvalidInputError(_))
    ));
}

#[test]
fn map_form_reads_like_the_vector_form() {
    let as_map = parse_find_string("{:find [?x ?y] :where [[?x :foo/bar ?y]] :limit 3}").unwrap();
    let as_vector = parse_find_string("[:find ?x ?y :where [?x :foo/bar ?y] :limit 3]").unwrap();
    assert_eq!(as_map, as_vector);
}
