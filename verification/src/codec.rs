//! The storage encoding of typed values: each value is stored as a plain
//! value and the tag of its type.

use vstd::prelude::*;
use crate::reader::{qualified_of, slash_at};
use crate::sql::{Value, ValueView};
use crate::symbols::{NamespacedKeyword, Qualified, keyword_text};
use crate::text::{chars_to_string, int_decimal, push_i64, str_to_chars};
use crate::values::{Double, TypedValue, TypedValueView, Uuid, ValueType, tag_of, type_of_tag};

verus! {

/// A stored value and its type tag.
pub struct Stored {
    pub value: ValueView,
    pub tag: int,
}

/// The stored form of a typed value. Booleans are 0 and 1; instants are
/// microseconds; a keyword is its text, colon and all; a UUID is its bytes.
pub open spec fn encoded(v: TypedValueView) -> Stored {
    match v {
        TypedValueView::Ref(e) => Stored { value: ValueView::Integer(e), tag: tag_of(ValueType::Ref) },
        TypedValueView::Boolean(b) => Stored {
            value: ValueView::Integer(
                if b {
                    1
                } else {
                    0
                },
            ),
            tag: tag_of(ValueType::Boolean),
        },
        TypedValueView::Instant(t) => Stored { value: ValueView::Integer(t), tag: tag_of(ValueType::Instant) },
        TypedValueView::Long(n) => Stored { value: ValueView::Integer(n), tag: tag_of(ValueType::Long) },
        TypedValueView::Double(d) => Stored { value: ValueView::Real(d), tag: tag_of(ValueType::Double) },
        TypedValueView::String(s) => Stored { value: ValueView::Text(s), tag: tag_of(ValueType::String) },
        TypedValueView::Keyword(k) => Stored {
            value: ValueView::Text(keyword_text(k)),
            tag: tag_of(ValueType::Keyword),
        },
        TypedValueView::Uuid(u) => Stored { value: ValueView::Blob(u), tag: tag_of(ValueType::Uuid) },
    }
}

/// The keyword that a text writes: a colon, a namespace, a slash and a
/// name, with the namespace ending at the first slash.
pub open spec fn keyword_of_text(s: Seq<char>) -> Option<Qualified> {
    if s.len() > 0 && s[0] == ':' {
        qualified_of(s.subrange(1, s.len() as int))
    } else {
        None
    }
}

/// Whether `n` is within the integers that are stored.
pub open spec fn fits(n: int) -> bool {
    i64::MIN <= n <= i64::MAX
}

/// The typed value that a stored value and a tag stand for, if they stand
/// for one. A double that was stored as an integer is read as that integer
/// with a fraction of zero.
pub open spec fn decoded(value: ValueView, tag: int) -> Option<TypedValueView> {
    match (type_of_tag(tag), value) {
        (Some(ValueType::Ref), ValueView::Integer(x)) => Some(TypedValueView::Ref(x)),
        (Some(ValueType::Boolean), ValueView::Integer(x)) => if x == 0 {
            Some(TypedValueView::Boolean(false))
        } else if x == 1 {
            Some(TypedValueView::Boolean(true))
        } else {
            None
        },
        (Some(ValueType::Instant), ValueView::Integer(x)) => Some(TypedValueView::Instant(x)),
        (Some(ValueType::Long), ValueView::Integer(x)) => Some(TypedValueView::Long(x)),
        (Some(ValueType::Double), ValueView::Real(d)) => Some(TypedValueView::Double(d)),
        (Some(ValueType::Double), ValueView::Integer(x)) => Some(
            TypedValueView::Double(int_decimal(x) + ".0"@),
        ),
        (Some(ValueType::String), ValueView::Text(s)) => Some(TypedValueView::String(s)),
        (Some(ValueType::Uuid), ValueView::Blob(b)) => if b.len() == 16 {
            Some(TypedValueView::Uuid(b))
        } else {
            None
        },
        (Some(ValueType::Keyword), ValueView::Text(s)) => match keyword_of_text(s) {
            Some(k) => Some(TypedValueView::Keyword(k)),
            None => None,
        },
        _ => None,
    }
}

/// Whether a typed value comes back from its stored form: the parts of a
/// keyword are not empty and its namespace holds no slash, and a UUID has
/// sixteen bytes.
pub open spec fn storable(v: TypedValueView) -> bool {
    match v {
        TypedValueView::Keyword(k) => k.namespace.len() > 0 && k.name.len() > 0 && !k.namespace.contains(
            '/',
        ),
        TypedValueView::Uuid(u) => u.len() == 16,
        _ => true,
    }
}

/// The first slash of a text that begins with a namespace without slashes
/// and a slash is the one after the namespace.
pub proof fn lemma_first_slash(namespace: Seq<char>, rest: Seq<char>, from: int)
    requires
        !namespace.contains('/'),
        0 <= from <= namespace.len(),
    ensures
        crate::reader::slash_position(namespace + seq!['/'] + rest, from) == namespace.len(),
    decreases namespace.len() - from,
{
    let t = namespace + seq!['/'] + rest;
    if from < namespace.len() {
        assert(t[from] == namespace[from]);
        assert(namespace.contains(namespace[from]));
        lemma_first_slash(namespace, rest, from + 1);
    } else {
        assert(t[from] == '/');
    }
}

/// Every storable value comes back from its stored form.
pub proof fn lemma_codec_round_trip(v: TypedValueView)
    requires
        storable(v),
    ensures
        decoded(encoded(v).value, encoded(v).tag) == Some(v),
{
    match v {
        TypedValueView::Keyword(k) => {
            let text = keyword_text(k);
            let body = text.subrange(1, text.len() as int);
            assert(text[0] == ':');
            assert(body =~= k.namespace + seq!['/'] + k.name);
            lemma_first_slash(k.namespace, k.name, 0);
            let i = k.namespace.len() as int;
            assert(body.subrange(0, i) =~= k.namespace);
            assert(body.subrange(i + 1, body.len() as int) =~= k.name);
        },
        _ => {},
    }
}

/// The stored form of `v`: the value and the tag of its type.
pub fn to_sql_value_pair(v: &TypedValue) -> (r: (Value, i32))
    ensures
        r.0@ == encoded(v@).value,
        r.1 as int == encoded(v@).tag,
{
    match v {
        TypedValue::Ref(e) => (Value::Integer(*e), 0),
        TypedValue::Boolean(b) => (
            Value::Integer(
                if *b {
                    1
                } else {
                    0
                },
            ),
            1,
        ),
        TypedValue::Instant(t) => (Value::Integer(*t), 4),
        TypedValue::Long(n) => (Value::Integer(*n), 6),
        TypedValue::Double(d) => (Value::Real(d.clone()), 5),
        TypedValue::String(s) => (Value::Text(s.clone()), 10),
        TypedValue::Keyword(k) => (Value::Text(k.to_string()), 13),
        TypedValue::Uuid(u) => (Value::Blob(u.to_vec()), 11),
    }
}

fn keyword_from_text(text: &str) -> (r: Option<NamespacedKeyword>)
    ensures
        r is Some <==> keyword_of_text(text@) is Some,
        r is Some ==> r->0@ == keyword_of_text(text@)->0,
{
    let chars = str_to_chars(text);
    if chars.len() == 0 || chars[0] != ':' {
        return None;
    }
    let mut body: Vec<char> = Vec::new();
    let mut i: usize = 1;
    while i < chars.len()
        invariant
            1 <= i <= chars@.len(),
            body@ == chars@.subrange(1, i as int),
        decreases chars@.len() - i,
    {
        body.push(chars[i]);
        assert(body@ =~= chars@.subrange(1, i + 1));
        i += 1;
    }
    let k = slash_at(&body);
    if 0 < k && k < body.len() - 1 {
        let namespace = chars_to_string(&body, 0, k);
        let name = chars_to_string(&body, k + 1, body.len());
        Some(NamespacedKeyword { namespace, name })
    } else {
        None
    }
}

/// The typed value that `value` and `tag` stand for.
pub fn from_sql_value_pair(value: &Value, tag: i32) -> (r: Option<TypedValue>)
    ensures
        r is Some <==> decoded(value@, tag as int) is Some,
        r is Some ==> r->0@ == decoded(value@, tag as int)->0,
{
    match ValueType::from_value_type_tag(tag) {
        Some(ValueType::Ref) => match value {
            Value::Integer(x) => Some(TypedValue::Ref(*x)),
            _ => None,
        },
        Some(ValueType::Boolean) => match value {
            Value::Integer(x) => if *x == 0 {
                Some(TypedValue::Boolean(false))
            } else if *x == 1 {
                Some(TypedValue::Boolean(true))
            } else {
                None
            },
            _ => None,
        },
        Some(ValueType::Instant) => match value {
            Value::Integer(x) => Some(TypedValue::Instant(*x)),
            _ => None,
        },
        Some(ValueType::Long) => match value {
            Value::Integer(x) => Some(TypedValue::Long(*x)),
            _ => None,
        },
        Some(ValueType::Double) => match value {
            Value::Real(d) => Some(TypedValue::Double(d.clone())),
            Value::Integer(x) => {
                let mut literal = String::new();
                push_i64(&mut literal, *x);
                literal.push_str(".0");
                assert(literal@ =~= int_decimal(*x as int) + ".0"@);
                Some(TypedValue::Double(Double { literal }))
            },
            _ => None,
        },
        Some(ValueType::String) => match value {
            Value::Text(s) => Some(TypedValue::String(s.clone())),
            _ => None,
        },
        Some(ValueType::Uuid) => match value {
            Value::Blob(b) => match Uuid::from_vec(b) {
                Some(u) => Some(TypedValue::Uuid(u)),
                None => None,
            },
            _ => None,
        },
        Some(ValueType::Keyword) => match value {
            Value::Text(s) => match keyword_from_text(s.as_str()) {
                Some(k) => Some(TypedValue::Keyword(k)),
                None => None,
            },
            _ => None,
        },
        None => None,
    }
}

} // verus!
