use mentat::edn::Value;
use mentat::reader::{value, EdnParseError};
use mentat::symbols::{Keyword, NamespacedKeyword, NamespacedSymbol, PlainSymbol};
use mentat::values::{Double, Uuid};

fn sym(s: &str) -> Value {
    Value::PlainSymbol(PlainSymbol::new(s))
}

#[test]
fn atoms() {
    assert_eq!(value("nil"), Ok(Value::Nil));
    assert_eq!(value("true"), Ok(Value::Boolean(true)));
    assert_eq!(value("false"), Ok(Value::Boolean(false)));
    assert_eq!(value("0"), Ok(Value::Integer(0)));
    assert_eq!(value("-17"), Ok(Value::Integer(-17)));
    assert_eq!(value("+17"), Ok(Value::Integer(17)));
    assert_eq!(value("0042"), Ok(Value::Integer(42)));
    assert_eq!(value("9223372036854775807"), Ok(Value::Integer(i64::MAX)));
    assert_eq!(value("-9223372036854775808"), Ok(Value::Integer(i64::MIN)));
    assert_eq!(value("9223372036854775808"), Err(EdnParseError));
    assert_eq!(value("-9223372036854775809"), Err(EdnParseError));
    assert_eq!(value("99999999999999999999999999"), Err(EdnParseError));
    assert_eq!(value("9.95"), Ok(Value::Float(Double::from_literal("9.95").unwrap())));
    assert_eq!(value("-1e3"), Ok(Value::Float(Double::from_literal("-1e3").unwrap())));
    assert_eq!(value("12abc"), Err(EdnParseError));
    assert_eq!(value("-1x"), Err(EdnParseError));
    assert_eq!(value("?x"), Ok(sym("?x")));
    assert_eq!(value("..."), Ok(sym("...")));
    assert_eq!(value("."), Ok(sym(".")));
    assert_eq!(value("-"), Ok(sym("-")));
    assert_eq!(value("/"), Ok(sym("/")));
    assert_eq!(value(">="), Ok(sym(">=")));
    assert_eq!(value("or-join"), Ok(sym("or-join")));
    assert_eq!(value("foo/bar"), Ok(Value::NamespacedSymbol(NamespacedSymbol::new("foo", "bar"))));
    assert_eq!(value(":find"), Ok(Value::Keyword(Keyword::new("find"))));
    assert_eq!(value(":foo/bar"), Ok(Value::NamespacedKeyword(NamespacedKeyword::new("foo", "bar"))));
    assert_eq!(value(":foo/_bar"), Ok(Value::NamespacedKeyword(NamespacedKeyword::new("foo", "_bar"))));
    assert_eq!(value(":"), Err(EdnParseError));
    assert_eq!(value(""), Err(EdnParseError));
    assert_eq!(value("   "), Err(EdnParseError));
    assert_eq!(value("1 2"), Err(EdnParseError));
}

#[test]
fn strings() {
    assert_eq!(value(r#""yyy""#), Ok(Value::Text("yyy".to_string())));
    assert_eq!(value(r#""""#), Ok(Value::Text("".to_string())));
    assert_eq!(value(r#""a\"b\\c\nd\te\rf""#), Ok(Value::Text("a\"b\\c\nd\te\rf".to_string())));
    assert_eq!(value(r#""http://foo.com/ ; not a comment""#), Ok(Value::Text("http://foo.com/ ; not a comment".to_string())));
    assert_eq!(value(r#""open"#), Err(EdnParseError));
    assert_eq!(value(r#""bad \q escape""#), Err(EdnParseError));
    assert_eq!(value("\"é ☃\""), Ok(Value::Text("é ☃".to_string())));
}

#[test]
fn collections() {
    assert_eq!(value("[]"), Ok(Value::Vector(vec![])));
    assert_eq!(value("()"), Ok(Value::List(vec![])));
    assert_eq!(value("{}"), Ok(Value::Mapping(vec![])));
    assert_eq!(value("#{}"), Ok(Value::SetOf(vec![])));
    assert_eq!(
        value(" [1, (2 [3]) ,, {:a ?b} #{x}] ; trailing comment"),
        Ok(Value::Vector(vec![
            Value::Integer(1),
            Value::List(vec![Value::Integer(2), Value::Vector(vec![Value::Integer(3)])]),
            Value::Mapping(vec![Value::Keyword(Keyword::new("a")), sym("?b")]),
            Value::SetOf(vec![sym("x")]),
        ]))
    );
    assert_eq!(
        value("[1 ; one\n 2 ; two\n]"),
        Ok(Value::Vector(vec![Value::Integer(1), Value::Integer(2)]))
    );
    assert_eq!(value("[?x"), Err(EdnParseError));
    assert_eq!(value("[?x)"), Err(EdnParseError));
    assert_eq!(value("]"), Err(EdnParseError));
    assert_eq!(value("[1]]"), Err(EdnParseError));
}

#[test]
fn tagged_values() {
    assert_eq!(
        value(r#"#uuid "550e8400-e29b-41d4-a716-446655440000""#),
        Ok(Value::Uuid(Uuid {
            bytes: [0x55, 0x0e, 0x84, 0x00, 0xe2, 0x9b, 0x41, 0xd4, 0xa7, 0x16, 0x44, 0x66, 0x55, 0x44, 0x00, 0x00]
        }))
    );
    assert_eq!(value(r#"#uuid "not a uuid""#), Err(EdnParseError));
    assert_eq!(value(r#"#inst "1970-01-01T00:00:01.000444Z""#), Ok(Value::Instant(1_000_444)));
    assert_eq!(value(r#"#inst "2017-04-28T20:23:05.187+01:00""#), Ok(Value::Instant(1_493_407_385_187_000)));
    assert_eq!(value(r#"#inst "yesterday""#), Err(EdnParseError));
    assert_eq!(value(r#"#frob "x""#), Err(EdnParseError));
    assert_eq!(value("#uuid 5"), Err(EdnParseError));
}

#[test]
fn values_are_copied_whole() {
    let v = value("[:find [?x ...] :where (or [?x :a/b \"c\"] [?x _ 1.5])]").unwrap();
    assert_eq!(v.clone(), v);
    assert!(v.as_vector().is_some());
    assert!(v.as_seq().is_some());
    assert!(Value::Integer(1).as_seq().is_none());
    assert!(value("(a)").unwrap().as_vector().is_none());
    assert!(value("or").unwrap().is_symbol("or"));
    assert!(!value("or").unwrap().is_symbol("and"));
}
