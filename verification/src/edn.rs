//! Values of the surface syntax: atoms, and vectors, lists, sets and maps of
//! values.

use vstd::prelude::*;
use crate::symbols::{Keyword, NamespacedKeyword, NamespacedSymbol, PlainSymbol, Qualified};
use crate::values::{Double, Uuid};

verus! {

/// A value as it is read.
#[derive(Debug, PartialEq, Eq, Hash, PartialOrd, Ord)]
pub enum Value {
    Nil,
    Boolean(bool),
    Integer(i64),
    /// Microseconds since the epoch.
    Instant(i64),
    Float(Double),
    Text(String),
    Uuid(Uuid),
    PlainSymbol(PlainSymbol),
    NamespacedSymbol(NamespacedSymbol),
    Keyword(Keyword),
    NamespacedKeyword(NamespacedKeyword),
    Vector(Vec<Value>),
    List(Vec<Value>),
    /// A set, with its members in the order in which they were written.
    SetOf(Vec<Value>),
    /// A map, as its keys and values in turn: key, value, key, value, ….
    Mapping(Vec<Value>),
}

/// A value as mathematical data.
pub enum ValueView {
    Nil,
    Boolean(bool),
    Integer(int),
    Instant(int),
    Float(Seq<char>),
    Text(Seq<char>),
    Uuid(Seq<u8>),
    PlainSymbol(Seq<char>),
    NamespacedSymbol(Qualified),
    Keyword(Seq<char>),
    NamespacedKeyword(Qualified),
    Vector(Seq<ValueView>),
    List(Seq<ValueView>),
    SetOf(Seq<ValueView>),
    Mapping(Seq<ValueView>),
}

/// The view of a value.
pub open spec fn value_view(v: Value) -> ValueView
    decreases v, 0int,
{
    match v {
        Value::Nil => ValueView::Nil,
        Value::Boolean(b) => ValueView::Boolean(b),
        Value::Integer(n) => ValueView::Integer(n as int),
        Value::Instant(t) => ValueView::Instant(t as int),
        Value::Float(d) => ValueView::Float(d@),
        Value::Text(s) => ValueView::Text(s@),
        Value::Uuid(u) => ValueView::Uuid(u@),
        Value::PlainSymbol(s) => ValueView::PlainSymbol(s@),
        Value::NamespacedSymbol(s) => ValueView::NamespacedSymbol(s@),
        Value::Keyword(k) => ValueView::Keyword(k@),
        Value::NamespacedKeyword(k) => ValueView::NamespacedKeyword(k@),
        Value::Vector(vs) => ValueView::Vector(values_view(vs@, vs@.len() as int)),
        Value::List(vs) => ValueView::List(values_view(vs@, vs@.len() as int)),
        Value::SetOf(vs) => ValueView::SetOf(values_view(vs@, vs@.len() as int)),
        Value::Mapping(vs) => ValueView::Mapping(values_view(vs@, vs@.len() as int)),
    }
}

/// The views of the first `n` values.
pub open spec fn values_view(vs: Seq<Value>, n: int) -> Seq<ValueView>
    decreases vs, n,
{
    if n <= 0 || n > vs.len() {
        seq![]
    } else {
        values_view(vs, n - 1).push(value_view(vs[n - 1]))
    }
}

impl View for Value {
    type V = ValueView;

    open spec fn view(&self) -> ValueView {
        value_view(*self)
    }
}

/// The views of a list of values.
pub open spec fn value_views(vs: Seq<Value>) -> Seq<ValueView> {
    Seq::new(vs.len(), |i: int| vs[i]@)
}

/// The views of the first `n` values, one by one.
pub proof fn lemma_values_view(vs: Seq<Value>, n: int)
    requires
        0 <= n <= vs.len(),
    ensures
        values_view(vs, n) == value_views(vs).subrange(0, n),
    decreases n,
{
    if n > 0 {
        lemma_values_view(vs, n - 1);
    }
    assert(values_view(vs, n) =~= value_views(vs).subrange(0, n));
}

/// The views of all the values of a list.
pub proof fn lemma_all_values_view(vs: Seq<Value>)
    ensures
        values_view(vs, vs.len() as int) == value_views(vs),
{
    lemma_values_view(vs, vs.len() as int);
    assert(value_views(vs).subrange(0, vs.len() as int) =~= value_views(vs));
}

/// Copies of the values, in order.
pub fn clone_values(vs: &Vec<Value>) -> (r: Vec<Value>)
    ensures
        value_views(r@) == value_views(vs@),
    decreases vs, 0int,
{
    let mut out: Vec<Value> = Vec::new();
    let mut i: usize = 0;
    while i < vs.len()
        invariant
            i <= vs@.len(),
            out@.len() == i,
            forall|j: int| 0 <= j < i ==> #[trigger] out@[j]@ == vs@[j]@,
        decreases vs@.len() - i,
    {
        assert(decreases_to!(vs => vs[i as int]));
        out.push(vs[i].clone());
        i += 1;
    }
    assert(value_views(out@) =~= value_views(vs@));
    out
}

impl Clone for Value {
    fn clone(&self) -> (r: Self)
        ensures
            r@ == self@,
        decreases self, 1int,
    {
        match self {
            Value::Nil => Value::Nil,
            Value::Boolean(b) => Value::Boolean(*b),
            Value::Integer(n) => Value::Integer(*n),
            Value::Instant(t) => Value::Instant(*t),
            Value::Float(d) => Value::Float(d.clone()),
            Value::Text(s) => Value::Text(s.clone()),
            Value::Uuid(u) => Value::Uuid(*u),
            Value::PlainSymbol(s) => Value::PlainSymbol(s.clone()),
            Value::NamespacedSymbol(s) => Value::NamespacedSymbol(s.clone()),
            Value::Keyword(k) => Value::Keyword(k.clone()),
            Value::NamespacedKeyword(k) => Value::NamespacedKeyword(k.clone()),
            Value::Vector(vs) => {
                let out = clone_values(vs);
                proof {
                    lemma_all_values_view(vs@);
                    lemma_all_values_view(out@);
                }
                Value::Vector(out)
            },
            Value::List(vs) => {
                let out = clone_values(vs);
                proof {
                    lemma_all_values_view(vs@);
                    lemma_all_values_view(out@);
                }
                Value::List(out)
            },
            Value::SetOf(vs) => {
                let out = clone_values(vs);
                proof {
                    lemma_all_values_view(vs@);
                    lemma_all_values_view(out@);
                }
                Value::SetOf(out)
            },
            Value::Mapping(vs) => {
                let out = clone_values(vs);
                proof {
                    lemma_all_values_view(vs@);
                    lemma_all_values_view(out@);
                }
                Value::Mapping(out)
            },
        }
    }
}

impl Value {
    /// The members of a vector or a list.
    pub fn as_seq(&self) -> (r: Option<&Vec<Value>>)
        ensures
            r is Some <==> (self is Vector || self is List),
            r is Some ==> value_views(r->0@) == seq_items(self@)->0,
            r is Some ==> (*self == Value::Vector(*r->0) || *self == Value::List(*r->0)),
    {
        match self {
            Value::Vector(vs) => {
                proof {
                    lemma_all_values_view(vs@);
                }
                Some(vs)
            },
            Value::List(vs) => {
                proof {
                    lemma_all_values_view(vs@);
                }
                Some(vs)
            },
            _ => None,
        }
    }

    /// The members of a vector.
    pub fn as_vector(&self) -> (r: Option<&Vec<Value>>)
        ensures
            r is Some <==> self is Vector,
            r is Some ==> value_views(r->0@) == self@->Vector_0,
            r is Some ==> *self == Value::Vector(*r->0),
    {
        match self {
            Value::Vector(vs) => {
                proof {
                    lemma_all_values_view(vs@);
                }
                Some(vs)
            },
            _ => None,
        }
    }

    /// Whether this is the plain symbol `name`.
    pub fn is_symbol(&self, name: &str) -> (r: bool)
        ensures
            r == (self@ == ValueView::PlainSymbol(name@)),
    {
        match self {
            Value::PlainSymbol(s) => s.0.as_str().eq(name),
            _ => false,
        }
    }
}

/// The members of a vector or a list.
pub open spec fn seq_items(v: ValueView) -> Option<Seq<ValueView>> {
    match v {
        ValueView::Vector(items) => Some(items),
        ValueView::List(items) => Some(items),
        _ => None,
    }
}

} // verus!
