//! Sets of value types.

use vstd::prelude::*;
use crate::flags::{count_flags, flags_set};
use crate::values::ValueType;

verus! {

/// A set of value types, as one flag for each type.
#[derive(Clone, Copy, Debug, PartialEq, Eq, Structural, Hash)]
pub struct ValueTypeBits {
    pub has_ref: bool,
    pub has_boolean: bool,
    pub has_instant: bool,
    pub has_long: bool,
    pub has_double: bool,
    pub has_string: bool,
    pub has_keyword: bool,
    pub has_uuid: bool,
}

impl ValueTypeBits {
    /// Whether the flag of `t` is set.
    pub open spec fn has(self, t: ValueType) -> bool {
        match t {
            ValueType::Ref => self.has_ref,
            ValueType::Boolean => self.has_boolean,
            ValueType::Instant => self.has_instant,
            ValueType::Long => self.has_long,
            ValueType::Double => self.has_double,
            ValueType::String => self.has_string,
            ValueType::Keyword => self.has_keyword,
            ValueType::Uuid => self.has_uuid,
        }
    }

    /// The number of types in the set.
    pub open spec fn count(self) -> nat {
        flags_set(
            self.has_ref,
            self.has_boolean,
            self.has_instant,
            self.has_long,
            self.has_double,
            self.has_string,
            self.has_keyword,
            self.has_uuid,
        )
    }

    /// The empty set.
    pub fn new() -> (r: ValueTypeBits)
        ensures
            r == ValueTypeBits::of(|u: ValueType| false),
    {
        ValueTypeBits {
            has_ref: false,
            has_boolean: false,
            has_instant: false,
            has_long: false,
            has_double: false,
            has_string: false,
            has_keyword: false,
            has_uuid: false,
        }
    }

    /// The set of the types `t` for which `f(t)` holds.
    pub open spec fn of(f: spec_fn(ValueType) -> bool) -> ValueTypeBits {
        ValueTypeBits {
            has_ref: f(ValueType::Ref),
            has_boolean: f(ValueType::Boolean),
            has_instant: f(ValueType::Instant),
            has_long: f(ValueType::Long),
            has_double: f(ValueType::Double),
            has_string: f(ValueType::String),
            has_keyword: f(ValueType::Keyword),
            has_uuid: f(ValueType::Uuid),
        }
    }

    /// This set with `t` added.
    pub fn with(&self, t: ValueType) -> (r: ValueTypeBits)
        ensures
            r == ValueTypeBits::of(|u: ValueType| self.has(u) || u == t),
    {
        let mut o = *self;
        match t {
            ValueType::Ref => { o.has_ref = true; },
            ValueType::Boolean => { o.has_boolean = true; },
            ValueType::Instant => { o.has_instant = true; },
            ValueType::Long => { o.has_long = true; },
            ValueType::Double => { o.has_double = true; },
            ValueType::String => { o.has_string = true; },
            ValueType::Keyword => { o.has_keyword = true; },
            ValueType::Uuid => { o.has_uuid = true; },
        }
        o
    }

    /// The set of `x` and `y`.
    pub fn both(x: ValueType, y: ValueType) -> (r: ValueTypeBits)
        ensures
            r == ValueTypeBits::of(|u: ValueType| u == x || u == y),
    {
        ValueTypeBits::new().with(x).with(y)
    }

    /// Whether the flag of `t` is set.
    pub fn contains(&self, t: ValueType) -> (r: bool)
        ensures
            r == self.has(t),
    {
        match t {
            ValueType::Ref => self.has_ref,
            ValueType::Boolean => self.has_boolean,
            ValueType::Instant => self.has_instant,
            ValueType::Long => self.has_long,
            ValueType::Double => self.has_double,
            ValueType::String => self.has_string,
            ValueType::Keyword => self.has_keyword,
            ValueType::Uuid => self.has_uuid,
        }
    }

    /// The flags that are set here or in `other`.
    pub fn union(&self, other: &ValueTypeBits) -> (r: ValueTypeBits)
        ensures
            r == ValueTypeBits::of(|u: ValueType| self.has(u) || other.has(u)),
    {
        ValueTypeBits {
            has_ref: self.has_ref || other.has_ref,
            has_boolean: self.has_boolean || other.has_boolean,
            has_instant: self.has_instant || other.has_instant,
            has_long: self.has_long || other.has_long,
            has_double: self.has_double || other.has_double,
            has_string: self.has_string || other.has_string,
            has_keyword: self.has_keyword || other.has_keyword,
            has_uuid: self.has_uuid || other.has_uuid,
        }
    }

    /// The flags that are set here and in `other`.
    pub fn intersection(&self, other: &ValueTypeBits) -> (r: ValueTypeBits)
        ensures
            r == ValueTypeBits::of(|u: ValueType| self.has(u) && other.has(u)),
    {
        ValueTypeBits {
            has_ref: self.has_ref && other.has_ref,
            has_boolean: self.has_boolean && other.has_boolean,
            has_instant: self.has_instant && other.has_instant,
            has_long: self.has_long && other.has_long,
            has_double: self.has_double && other.has_double,
            has_string: self.has_string && other.has_string,
            has_keyword: self.has_keyword && other.has_keyword,
            has_uuid: self.has_uuid && other.has_uuid,
        }
    }

    /// The number of flags that are set.
    pub fn len(&self) -> (r: usize)
        ensures
            r == self.count(),
    {
        count_flags(
            self.has_ref,
            self.has_boolean,
            self.has_instant,
            self.has_long,
            self.has_double,
            self.has_string,
            self.has_keyword,
            self.has_uuid,
        )
    }

    /// The first type of the set, in the fixed order of types.
    pub fn first(&self) -> (r: Option<ValueType>)
        ensures
            r == least_member(Set::new(|t: ValueType| self.has(t))),
    {
        if self.has_ref {
            Some(ValueType::Ref)
        } else if self.has_boolean {
            Some(ValueType::Boolean)
        } else if self.has_instant {
            Some(ValueType::Instant)
        } else if self.has_long {
            Some(ValueType::Long)
        } else if self.has_double {
            Some(ValueType::Double)
        } else if self.has_string {
            Some(ValueType::String)
        } else if self.has_keyword {
            Some(ValueType::Keyword)
        } else if self.has_uuid {
            Some(ValueType::Uuid)
        } else {
            None
        }
    }
}

impl View for ValueTypeBits {
    type V = Set<ValueType>;

    open spec fn view(&self) -> Set<ValueType> {
        Set::new(|t: ValueType| self.has(t))
    }
}

/// The member of `s` that comes first in the fixed order of types.
pub open spec fn least_member(s: Set<ValueType>) -> Option<ValueType> {
    if s.contains(ValueType::Ref) {
        Some(ValueType::Ref)
    } else if s.contains(ValueType::Boolean) {
        Some(ValueType::Boolean)
    } else if s.contains(ValueType::Instant) {
        Some(ValueType::Instant)
    } else if s.contains(ValueType::Long) {
        Some(ValueType::Long)
    } else if s.contains(ValueType::Double) {
        Some(ValueType::Double)
    } else if s.contains(ValueType::String) {
        Some(ValueType::String)
    } else if s.contains(ValueType::Keyword) {
        Some(ValueType::Keyword)
    } else if s.contains(ValueType::Uuid) {
        Some(ValueType::Uuid)
    } else {
        None
    }
}

/// A set of value types.
#[derive(Clone, Copy, Debug, PartialEq, Eq, Structural)]
pub enum ValueTypeSet {
    /// No type.
    Empty,
    /// Every type.
    Any,
    /// One type.
    One(ValueType),
    /// At least two types.
    Many(ValueTypeBits),
}

impl View for ValueTypeSet {
    type V = Set<ValueType>;

    open spec fn view(&self) -> Set<ValueType> {
        match self {
            ValueTypeSet::Empty => Set::empty(),
            ValueTypeSet::Any => Set::full(),
            ValueTypeSet::One(t) => set![*t],
            ValueTypeSet::Many(b) => b@,
        }
    }
}

impl Default for ValueTypeSet {
    fn default() -> (r: ValueTypeSet)
        ensures
            r == ValueTypeSet::Any,
    {
        ValueTypeSet::Any
    }
}

/// A set made from a predicate holds the types of which the predicate
/// holds.
pub proof fn lemma_of_has(f: spec_fn(ValueType) -> bool)
    ensures
        forall|t: ValueType| #[trigger] ValueTypeBits::of(f).has(t) == f(t),
{
    assert forall|t: ValueType| #[trigger] ValueTypeBits::of(f).has(t) == f(t) by {
        match t {
            ValueType::Ref => {},
            ValueType::Boolean => {},
            ValueType::Instant => {},
            ValueType::Long => {},
            ValueType::Double => {},
            ValueType::String => {},
            ValueType::Keyword => {},
            ValueType::Uuid => {},
        }
    }
}

/// A set with no flag set has no member.
pub proof fn lemma_count_zero(b: ValueTypeBits)
    requires
        b.count() == 0,
    ensures
        b@ =~= Set::<ValueType>::empty(),
{
    assert forall|t: ValueType| !b.has(t) by {
        match t {
            ValueType::Ref => {},
            ValueType::Boolean => {},
            ValueType::Instant => {},
            ValueType::Long => {},
            ValueType::Double => {},
            ValueType::String => {},
            ValueType::Keyword => {},
            ValueType::Uuid => {},
        }
    }
}

/// A set with one flag set holds its least member and nothing else.
pub proof fn lemma_count_one(b: ValueTypeBits)
    requires
        b.count() == 1,
    ensures
        least_member(b@) is Some,
        b@ =~= set![least_member(b@)->0],
{
    let t = least_member(b@)->0;
    assert(least_member(b@) is Some);
    assert forall|u: ValueType| b.has(u) == (u == t) by {
        match u {
            ValueType::Ref => {},
            ValueType::Boolean => {},
            ValueType::Instant => {},
            ValueType::Long => {},
            ValueType::Double => {},
            ValueType::String => {},
            ValueType::Keyword => {},
            ValueType::Uuid => {},
        }
    }
}

/// A set that holds all the members of another has as many flags set or
/// more.
pub proof fn lemma_count_super(a: ValueTypeBits, b: ValueTypeBits)
    requires
        forall|t: ValueType| a.has(t) ==> b.has(t),
    ensures
        a.count() <= b.count(),
{
    assert(a.has(ValueType::Ref) ==> b.has(ValueType::Ref));
    assert(a.has(ValueType::Boolean) ==> b.has(ValueType::Boolean));
    assert(a.has(ValueType::Instant) ==> b.has(ValueType::Instant));
    assert(a.has(ValueType::Long) ==> b.has(ValueType::Long));
    assert(a.has(ValueType::Double) ==> b.has(ValueType::Double));
    assert(a.has(ValueType::String) ==> b.has(ValueType::String));
    assert(a.has(ValueType::Keyword) ==> b.has(ValueType::Keyword));
    assert(a.has(ValueType::Uuid) ==> b.has(ValueType::Uuid));
}

/// The set of two different types has two flags set.
pub proof fn lemma_count_two(b: ValueTypeBits, x: ValueType, y: ValueType)
    requires
        x != y,
        forall|t: ValueType| b.has(t) == (t == x || t == y),
    ensures
        b.count() == 2,
{
    assert(b.has(ValueType::Ref) == (ValueType::Ref == x || ValueType::Ref == y));
    assert(b.has(ValueType::Boolean) == (ValueType::Boolean == x || ValueType::Boolean == y));
    assert(b.has(ValueType::Instant) == (ValueType::Instant == x || ValueType::Instant == y));
    assert(b.has(ValueType::Long) == (ValueType::Long == x || ValueType::Long == y));
    assert(b.has(ValueType::Double) == (ValueType::Double == x || ValueType::Double == y));
    assert(b.has(ValueType::String) == (ValueType::String == x || ValueType::String == y));
    assert(b.has(ValueType::Keyword) == (ValueType::Keyword == x || ValueType::Keyword == y));
    assert(b.has(ValueType::Uuid) == (ValueType::Uuid == x || ValueType::Uuid == y));
}

fn union_of_two(o: ValueType, t: ValueType) -> (r: ValueTypeSet)
    requires
        o != t,
    ensures
        r@ == set![t].union(set![o]),
        r.wf(),
{
    let bits = ValueTypeBits::both(o, t);
    proof {
        lemma_of_has(|u: ValueType| u == o || u == t);
        lemma_count_two(bits, o, t);
        assert(bits@ =~= set![t].union(set![o]));
    }
    ValueTypeSet::Many(bits)
}

fn union_of_bits_and_one(os: ValueTypeBits, t: ValueType) -> (r: ValueTypeSet)
    requires
        os.count() >= 2,
    ensures
        r@ == os@.union(set![t]),
        r.wf(),
{
    let bits = os.with(t);
    proof {
        lemma_of_has(|u: ValueType| os.has(u) || u == t);
        lemma_count_super(os, bits);
        assert(bits@ =~= os@.union(set![t]));
    }
    ValueTypeSet::Many(bits)
}

fn union_of_many(ts: ValueTypeBits, os: ValueTypeBits) -> (r: ValueTypeSet)
    requires
        ts.count() >= 2,
    ensures
        r@ == ts@.union(os@),
        r.wf(),
{
    let bits = os.union(&ts);
    proof {
        lemma_of_has(|u: ValueType| os.has(u) || ts.has(u));
        lemma_count_super(ts, bits);
        assert(bits@ =~= ts@.union(os@));
    }
    ValueTypeSet::Many(bits)
}

fn union_with_one(s: ValueTypeSet, t: ValueType) -> (r: ValueTypeSet)
    requires
        s.wf(),
    ensures
        r@ == set![t].union(s@),
        r.wf(),
{
    if s.contains(t) {
        assert(s@ =~= set![t].union(s@));
        s
    } else {
        match s {
            ValueTypeSet::Empty => {
                assert(set![t] =~= set![t].union(s@));
                ValueTypeSet::One(t)
            },
            ValueTypeSet::Any => ValueTypeSet::Any,
            ValueTypeSet::One(o) => union_of_two(o, t),
            ValueTypeSet::Many(os) => {
                let r = union_of_bits_and_one(os, t);
                assert(r@ =~= set![t].union(s@));
                r
            },
        }
    }
}

impl ValueTypeSet {
    /// `Many` holds at least two types.
    pub open spec fn wf(&self) -> bool {
        self matches ValueTypeSet::Many(b) ==> b.count() >= 2
    }

    /// The set of `t` alone.
    pub fn unit(t: ValueType) -> (r: ValueTypeSet)
        ensures
            r == ValueTypeSet::One(t),
            r@ == set![t],
            r.wf(),
    {
        ValueTypeSet::One(t)
    }

    /// The set of `Double` and `Long`.
    pub fn of_numeric_types() -> (r: ValueTypeSet)
        ensures
            r@ == set![ValueType::Double, ValueType::Long],
            r.wf(),
    {
        let mut numeric_types = ValueTypeBits::new();
        numeric_types = numeric_types.with(ValueType::Double);
        numeric_types = numeric_types.with(ValueType::Long);
        let r = ValueTypeSet::Many(numeric_types);
        assert(r@ =~= set![ValueType::Double, ValueType::Long]);
        r
    }

    /// The set of the types that are in this set or in `other`.
    pub fn union(&self, other: &ValueTypeSet) -> (r: ValueTypeSet)
        requires
            self.wf(),
            other.wf(),
        ensures
            r@ == self@.union(other@),
            r.wf(),
    {
        match *self {
            ValueTypeSet::Empty => {
                assert(other@ =~= self@.union(other@));
                *other
            },
            ValueTypeSet::Any => {
                assert(self@ =~= self@.union(other@));
                ValueTypeSet::Any
            },
            ValueTypeSet::One(t) => union_with_one(*other, t),
            ValueTypeSet::Many(ts) => match *other {
                ValueTypeSet::Empty => {
                    assert(self@ =~= self@.union(other@));
                    *self
                },
                ValueTypeSet::Any => {
                    assert(other@ =~= self@.union(other@));
                    ValueTypeSet::Any
                },
                ValueTypeSet::One(o) => {
                    let r = union_with_one(*self, o);
                    assert(r@ =~= self@.union(other@));
                    r
                },
                ValueTypeSet::Many(os) => union_of_many(ts, os),
            },
        }
    }

    /// The set of the types that are in this set and in `other`.
    pub fn intersection(&self, other: &ValueTypeSet) -> (r: ValueTypeSet)
        requires
            self.wf(),
            other.wf(),
        ensures
            r@ == self@.intersect(other@),
            r.wf(),
    {
        match (*self, *other) {
            (ValueTypeSet::Empty, _) => {
                assert(self@ =~= self@.intersect(other@));
                ValueTypeSet::Empty
            },
            (_, ValueTypeSet::Empty) => {
                assert(other@ =~= self@.intersect(other@));
                ValueTypeSet::Empty
            },
            (s, ValueTypeSet::Any) => {
                assert(s@ =~= self@.intersect(other@));
                s
            },
            (ValueTypeSet::Any, s) => {
                assert(s@ =~= self@.intersect(other@));
                s
            },
            (ValueTypeSet::One(t), s) => if s.contains(t) {
                assert(self@ =~= self@.intersect(other@));
                ValueTypeSet::One(t)
            } else {
                assert(Set::<ValueType>::empty() =~= self@.intersect(other@));
                ValueTypeSet::Empty
            },
            (s, ValueTypeSet::One(t)) => if s.contains(t) {
                assert(other@ =~= self@.intersect(other@));
                ValueTypeSet::One(t)
            } else {
                assert(Set::<ValueType>::empty() =~= self@.intersect(other@));
                ValueTypeSet::Empty
            },
            (ValueTypeSet::Many(left), ValueTypeSet::Many(right)) => {
                let result = left.intersection(&right);
                proof {
                    lemma_of_has(|u: ValueType| left.has(u) && right.has(u));
                    assert(result@ =~= self@.intersect(other@));
                }
                let n = result.len();
                if n == 0 {
                    proof {
                        lemma_count_zero(result);
                    }
                    ValueTypeSet::Empty
                } else if n == 1 {
                    proof {
                        lemma_count_one(result);
                    }
                    match result.first() {
                        Some(t) => ValueTypeSet::One(t),
                        None => ValueTypeSet::Empty,
                    }
                } else {
                    ValueTypeSet::Many(result)
                }
            },
        }
    }

    /// Some type of the set: the first in the fixed order of types.
    pub fn exemplar(&self) -> (r: Option<ValueType>)
        ensures
            r == least_member(self@),
    {
        match self {
            ValueTypeSet::Empty => None,
            ValueTypeSet::Any => Some(ValueType::Ref),
            ValueTypeSet::One(t) => Some(*t),
            ValueTypeSet::Many(s) => s.first(),
        }
    }

    /// Whether `vt` is in the set.
    pub fn contains(&self, vt: ValueType) -> (r: bool)
        ensures
            r == self@.contains(vt),
    {
        match self {
            ValueTypeSet::Empty => false,
            ValueTypeSet::Any => true,
            ValueTypeSet::One(t) => *t == vt,
            ValueTypeSet::Many(s) => s.contains(vt),
        }
    }

    /// Whether the set holds no type.
    pub fn is_none(&self) -> (r: bool)
        ensures
            r == (self is Empty),
            self.wf() ==> r == (self@ =~= Set::empty()),
    {
        proof {
            if self.wf() {
                match *self {
                    ValueTypeSet::Empty => {},
                    ValueTypeSet::Any => {
                        assert(self@.contains(ValueType::Ref));
                    },
                    ValueTypeSet::One(t) => {
                        assert(self@.contains(t));
                    },
                    ValueTypeSet::Many(b) => {
                        assert(b@.contains(least_member(b@)->0));
                    },
                }
            }
        }
        match self {
            ValueTypeSet::Empty => true,
            _ => false,
        }
    }

    /// Whether the set is held as one single type.
    pub fn is_unit(&self) -> (r: bool)
        ensures
            r == (self is One),
    {
        match self {
            ValueTypeSet::One(_) => true,
            _ => false,
        }
    }

    /// The single type of the set, if it is held as one.
    pub fn unit_type(&self) -> (r: Option<ValueType>)
        ensures
            r == (match *self {
                ValueTypeSet::One(t) => Some(t),
                _ => None,
            }),
    {
        match self {
            ValueTypeSet::One(t) => Some(*t),
            _ => None,
        }
    }
}

/// The single member of a set of types, where it has exactly one.
pub open spec fn single_type(s: Set<ValueType>) -> Option<ValueType> {
    match least_member(s) {
        Some(t) => if s =~= set![t] {
            Some(t)
        } else {
            None
        },
        None => None,
    }
}

/// A well-formed set is held as one type exactly when it has one member.
pub proof fn lemma_unit_type(vs: ValueTypeSet)
    requires
        vs.wf(),
    ensures
        single_type(vs@) == (match vs {
            ValueTypeSet::One(t) => Some(t),
            _ => None,
        }),
{
    match vs {
        ValueTypeSet::Empty => {},
        ValueTypeSet::Any => {
            assert(vs@.contains(ValueType::Boolean));
            assert(!set![ValueType::Ref].contains(ValueType::Boolean));
        },
        ValueTypeSet::One(t) => {
            assert(vs@.contains(t));
        },
        ValueTypeSet::Many(b) => {
            match least_member(b@) {
                Some(t) => {
                    // Another member than the least one is in the set.
                    let other = ValueTypeBits { ..b };
                    assert(exists|u: ValueType| u != t && b.has(u)) by {
                        if b.has_uuid && t != ValueType::Uuid {
                            assert(b.has(ValueType::Uuid));
                        } else if b.has_keyword && t != ValueType::Keyword {
                            assert(b.has(ValueType::Keyword));
                        } else if b.has_string && t != ValueType::String {
                            assert(b.has(ValueType::String));
                        } else if b.has_double && t != ValueType::Double {
                            assert(b.has(ValueType::Double));
                        } else if b.has_long && t != ValueType::Long {
                            assert(b.has(ValueType::Long));
                        } else if b.has_instant && t != ValueType::Instant {
                            assert(b.has(ValueType::Instant));
                        } else if b.has_boolean && t != ValueType::Boolean {
                            assert(b.has(ValueType::Boolean));
                        } else {
                            assert(b.has(ValueType::Ref) && t != ValueType::Ref);
                        }
                    }
                    let u = choose|u: ValueType| u != t && b.has(u);
                    assert(b@.contains(u));
                    assert(!set![t].contains(u));
                },
                None => {},
            }
        },
    }
}

} // verus!
