//! Typed values, value types and their storage tags, attributes and the schema.

use vstd::prelude::*;
use crate::symbols::{NamespacedKeyword, Qualified};
use crate::text::chars_to_string;

verus! {

/// An entity identifier.
pub type Entid = i64;

/// The closed set of value types.
#[derive(Clone, Copy, Debug, PartialEq, Eq, Structural, Hash, PartialOrd, Ord)]
pub enum ValueType {
    Ref,
    Boolean,
    Instant,
    Long,
    Double,
    String,
    Keyword,
    Uuid,
}

/// The storage tag of each value type. Tags are pairwise distinct.
pub open spec fn tag_of(t: ValueType) -> int {
    match t {
        ValueType::Ref => 0,
        ValueType::Boolean => 1,
        ValueType::Instant => 4,
        ValueType::Double => 5,
        ValueType::Long => 6,
        ValueType::String => 10,
        ValueType::Uuid => 11,
        ValueType::Keyword => 13,
    }
}

/// The value type that a storage tag stands for, if any.
pub open spec fn type_of_tag(tag: int) -> Option<ValueType> {
    if tag == 0 {
        Some(ValueType::Ref)
    } else if tag == 1 {
        Some(ValueType::Boolean)
    } else if tag == 4 {
        Some(ValueType::Instant)
    } else if tag == 5 {
        Some(ValueType::Double)
    } else if tag == 6 {
        Some(ValueType::Long)
    } else if tag == 10 {
        Some(ValueType::String)
    } else if tag == 11 {
        Some(ValueType::Uuid)
    } else if tag == 13 {
        Some(ValueType::Keyword)
    } else {
        None
    }
}

/// Whether a bare integer can be the stored form of a value of type `t`.
pub open spec fn accommodates(t: ValueType, n: int) -> bool {
    match t {
        ValueType::Ref => n >= 0,
        ValueType::Boolean => n == 0 || n == 1,
        ValueType::Instant => true,
        ValueType::Long => true,
        ValueType::Double => true,
        ValueType::String => false,
        ValueType::Keyword => false,
        ValueType::Uuid => false,
    }
}

/// The position of a value type in the fixed order of types.
pub open spec fn type_index(t: ValueType) -> int {
    match t {
        ValueType::Ref => 0,
        ValueType::Boolean => 1,
        ValueType::Instant => 2,
        ValueType::Long => 3,
        ValueType::Double => 4,
        ValueType::String => 5,
        ValueType::Keyword => 6,
        ValueType::Uuid => 7,
    }
}

impl ValueType {
    /// The tag stored beside a value of this type.
    pub fn value_type_tag(self) -> (r: i32)
        ensures
            r == tag_of(self),
    {
        match self {
            ValueType::Ref => 0,
            ValueType::Boolean => 1,
            ValueType::Instant => 4,
            ValueType::Double => 5,
            ValueType::Long => 6,
            ValueType::String => 10,
            ValueType::Uuid => 11,
            ValueType::Keyword => 13,
        }
    }

    /// The type that the tag `tag` stands for.
    pub fn from_value_type_tag(tag: i32) -> (r: Option<ValueType>)
        ensures
            r == type_of_tag(tag as int),
    {
        if tag == 0 {
            Some(ValueType::Ref)
        } else if tag == 1 {
            Some(ValueType::Boolean)
        } else if tag == 4 {
            Some(ValueType::Instant)
        } else if tag == 5 {
            Some(ValueType::Double)
        } else if tag == 6 {
            Some(ValueType::Long)
        } else if tag == 10 {
            Some(ValueType::String)
        } else if tag == 11 {
            Some(ValueType::Uuid)
        } else if tag == 13 {
            Some(ValueType::Keyword)
        } else {
            None
        }
    }

    /// Whether the bare integer `n` can be the stored form of a value of this
    /// type. Booleans are stored as 0 and 1, refs are never negative.
    pub fn accommodates_integer(self, n: i64) -> (r: bool)
        ensures
            r == accommodates(self, n as int),
    {
        match self {
            ValueType::Ref => n >= 0,
            ValueType::Boolean => n == 0 || n == 1,
            ValueType::Instant => true,
            ValueType::Long => true,
            ValueType::Double => true,
            ValueType::String => false,
            ValueType::Keyword => false,
            ValueType::Uuid => false,
        }
    }

    /// Whether values of this type are numbers.
    pub fn is_numeric(self) -> (r: bool)
        ensures
            r == (self == ValueType::Long || self == ValueType::Double),
    {
        match self {
            ValueType::Long => true,
            ValueType::Double => true,
            _ => false,
        }
    }
}

/// Every type is found again from its tag.
pub proof fn lemma_tag_round_trip(t: ValueType)
    ensures
        type_of_tag(tag_of(t)) == Some(t),
{
}

/// Two types with the same tag are the same type.
pub proof fn lemma_tags_distinct(a: ValueType, b: ValueType)
    requires
        tag_of(a) == tag_of(b),
    ensures
        a == b,
{
}

/// A double-precision number, held as its decimal literal: an optional sign,
/// digits, a point, digits, and an optional exponent.
#[derive(Debug, PartialEq, Eq, Hash, PartialOrd, Ord)]
pub struct Double {
    pub literal: String,
}

/// Whether `c` is a decimal digit.
pub open spec fn is_digit(c: char) -> bool {
    '0' <= c <= '9'
}

/// The length of the longest run of digits of `s` that starts at `i`.
pub open spec fn digit_run(s: Seq<char>, i: int) -> int
    decreases s.len() - i,
{
    if 0 <= i < s.len() && is_digit(s[i]) {
        1 + digit_run(s, i + 1)
    } else {
        0
    }
}

/// The position after an optional sign at `i`.
pub open spec fn after_sign(s: Seq<char>, i: int) -> int {
    if 0 <= i < s.len() && (s[i] == '-' || s[i] == '+') {
        i + 1
    } else {
        i
    }
}

/// Whether `s` is a floating-point literal: sign, digits, then a fraction or
/// an exponent or both.
pub open spec fn is_float_literal(s: Seq<char>) -> bool {
    let a = after_sign(s, 0);
    let n1 = digit_run(s, a);
    let b = a + n1;
    let has_frac = b < s.len() && s[b] == '.';
    let n2 = if has_frac { digit_run(s, b + 1) } else { 0 };
    let c = if has_frac { b + 1 + n2 } else { b };
    let has_exp = c < s.len() && (s[c] == 'e' || s[c] == 'E');
    let d = if has_exp { after_sign(s, c + 1) } else { c };
    let n3 = if has_exp { digit_run(s, d) } else { 0 };
    let e = d + n3;
    &&& n1 > 0
    &&& has_frac ==> n2 > 0
    &&& has_exp ==> n3 > 0
    &&& has_frac || has_exp
    &&& e == s.len()
}

/// The position after a sign at `i`, or `i` where there is none.
pub fn skip_sign(s: &Vec<char>, i: usize) -> (r: usize)
    requires
        i <= s@.len(),
    ensures
        r == after_sign(s@, i as int),
        i <= r <= s@.len(),
{
    if i < s.len() && (s[i] == '-' || s[i] == '+') {
        i + 1
    } else {
        i
    }
}

/// The position after the digits that begin at `i`.
pub fn skip_digits(s: &Vec<char>, i: usize) -> (r: usize)
    requires
        i <= s@.len(),
    ensures
        r - i == digit_run(s@, i as int),
        i <= r <= s@.len(),
{
    let mut j: usize = i;
    while j < s.len() && '0' <= s[j] && s[j] <= '9'
        invariant
            i <= j <= s@.len(),
            digit_run(s@, i as int) == (j - i) + digit_run(s@, j as int),
        decreases s@.len() - j,
    {
        j += 1;
    }
    j
}

/// Whether the characters form a floating-point literal.
pub fn chars_are_float(s: &Vec<char>) -> (r: bool)
    ensures
        r == is_float_literal(s@),
{
    let a = skip_sign(s, 0);
    let b = skip_digits(s, a);
    let has_frac = b < s.len() && s[b] == '.';
    let c = if has_frac { skip_digits(s, b + 1) } else { b };
    let has_exp = c < s.len() && (s[c] == 'e' || s[c] == 'E');
    let d = if has_exp { skip_sign(s, c + 1) } else { c };
    let e = if has_exp { skip_digits(s, d) } else { d };
    b > a && (!has_frac || c > b + 1) && (!has_exp || e > d) && (has_frac || has_exp) && e == s.len()
}

impl View for Double {
    type V = Seq<char>;

    open spec fn view(&self) -> Seq<char> {
        self.literal@
    }
}

impl Clone for Double {
    fn clone(&self) -> (r: Self)
        ensures
            r == *self,
    {
        Double { literal: self.literal.clone() }
    }
}

impl Double {
    /// The literal is a number.
    pub open spec fn wf(&self) -> bool {
        is_float_literal(self@)
    }

    /// The number written by `chars`, or `None` if they are no float literal.
    pub fn from_chars(chars: &Vec<char>) -> (r: Option<Double>)
        ensures
            r is Some <==> is_float_literal(chars@),
            r is Some ==> r->0@ == chars@ && r->0.wf(),
    {
        if chars_are_float(chars) {
            let literal = chars_to_string(chars, 0, chars.len());
            assert(literal@ =~= chars@);
            Some(Double { literal })
        } else {
            None
        }
    }

    /// The number written by `literal`, or `None` if it is no float literal.
    pub fn from_literal(literal: &str) -> (r: Option<Double>)
        ensures
            r is Some <==> is_float_literal(literal@),
            r is Some ==> r->0@ == literal@ && r->0.wf(),
    {
        let chars = crate::text::str_to_chars(literal);
        Double::from_chars(&chars)
    }
}

/// A universally unique identifier: sixteen bytes.
#[derive(Clone, Copy, Debug, PartialEq, Eq, Hash, PartialOrd, Ord)]
pub struct Uuid {
    pub bytes: [u8; 16],
}

impl View for Uuid {
    type V = Seq<u8>;

    open spec fn view(&self) -> Seq<u8> {
        self.bytes@
    }
}

impl Uuid {
    /// The identifier with the given bytes, which must be sixteen.
    pub fn from_vec(bytes: &Vec<u8>) -> (r: Option<Uuid>)
        ensures
            r is Some <==> bytes@.len() == 16,
            r is Some ==> r->0@ == bytes@,
    {
        if bytes.len() != 16 {
            return None;
        }
        let u = Uuid {
            bytes: [
                bytes[0],
                bytes[1],
                bytes[2],
                bytes[3],
                bytes[4],
                bytes[5],
                bytes[6],
                bytes[7],
                bytes[8],
                bytes[9],
                bytes[10],
                bytes[11],
                bytes[12],
                bytes[13],
                bytes[14],
                bytes[15],
            ],
        };
        assert(u@ =~= bytes@);
        Some(u)
    }

    /// The sixteen bytes as a vector.
    pub fn to_vec(&self) -> (r: Vec<u8>)
        ensures
            r@ == self@,
    {
        let mut out: Vec<u8> = Vec::new();
        let mut i: usize = 0;
        while i < 16
            invariant
                i <= 16,
                out@ == self.bytes@.subrange(0, i as int),
            decreases 16 - i,
        {
            out.push(self.bytes[i]);
            assert(out@ =~= self.bytes@.subrange(0, i + 1));
            i += 1;
        }
        assert(out@ =~= self.bytes@);
        out
    }
}

/// A value with its type.
#[derive(Debug, PartialEq, Eq, Hash, PartialOrd, Ord)]
pub enum TypedValue {
    Ref(Entid),
    Boolean(bool),
    /// Microseconds since the epoch.
    Instant(i64),
    Long(i64),
    Double(Double),
    String(String),
    Keyword(NamespacedKeyword),
    Uuid(Uuid),
}

impl Clone for TypedValue {
    fn clone(&self) -> (r: Self)
        ensures
            r == *self,
    {
        match self {
            TypedValue::Ref(e) => TypedValue::Ref(*e),
            TypedValue::Boolean(b) => TypedValue::Boolean(*b),
            TypedValue::Instant(t) => TypedValue::Instant(*t),
            TypedValue::Long(n) => TypedValue::Long(*n),
            TypedValue::Double(d) => TypedValue::Double(d.clone()),
            TypedValue::String(s) => TypedValue::String(s.clone()),
            TypedValue::Keyword(k) => TypedValue::Keyword(k.clone()),
            TypedValue::Uuid(u) => TypedValue::Uuid(*u),
        }
    }
}

/// A typed value as mathematical data.
pub enum TypedValueView {
    Ref(int),
    Boolean(bool),
    Instant(int),
    Long(int),
    Double(Seq<char>),
    String(Seq<char>),
    Keyword(Qualified),
    Uuid(Seq<u8>),
}

impl View for TypedValue {
    type V = TypedValueView;

    open spec fn view(&self) -> TypedValueView {
        match self {
            TypedValue::Ref(e) => TypedValueView::Ref(*e as int),
            TypedValue::Boolean(b) => TypedValueView::Boolean(*b),
            TypedValue::Instant(t) => TypedValueView::Instant(*t as int),
            TypedValue::Long(n) => TypedValueView::Long(*n as int),
            TypedValue::Double(d) => TypedValueView::Double(d@),
            TypedValue::String(s) => TypedValueView::String(s@),
            TypedValue::Keyword(k) => TypedValueView::Keyword(k@),
            TypedValue::Uuid(u) => TypedValueView::Uuid(u@),
        }
    }
}

/// The type of a typed value.
pub open spec fn type_of_value(v: TypedValue) -> ValueType {
    match v {
        TypedValue::Ref(_) => ValueType::Ref,
        TypedValue::Boolean(_) => ValueType::Boolean,
        TypedValue::Instant(_) => ValueType::Instant,
        TypedValue::Long(_) => ValueType::Long,
        TypedValue::Double(_) => ValueType::Double,
        TypedValue::String(_) => ValueType::String,
        TypedValue::Keyword(_) => ValueType::Keyword,
        TypedValue::Uuid(_) => ValueType::Uuid,
    }
}

impl TypedValue {
    /// The type of this value.
    pub fn value_type(&self) -> (r: ValueType)
        ensures
            r == type_of_value(*self),
    {
        match self {
            TypedValue::Ref(_) => ValueType::Ref,
            TypedValue::Boolean(_) => ValueType::Boolean,
            TypedValue::Instant(_) => ValueType::Instant,
            TypedValue::Long(_) => ValueType::Long,
            TypedValue::Double(_) => ValueType::Double,
            TypedValue::String(_) => ValueType::String,
            TypedValue::Keyword(_) => ValueType::Keyword,
            TypedValue::Uuid(_) => ValueType::Uuid,
        }
    }

    /// Whether this value has type `t`.
    pub fn matches_type(&self, t: ValueType) -> (r: bool)
        ensures
            r == (type_of_value(*self) == t),
    {
        self.value_type() == t
    }

    /// A string value holding the text of `s`.
    pub fn typed_string(s: &str) -> (r: TypedValue)
        ensures
            r is String,
            r->String_0@ == s@,
    {
        TypedValue::String(crate::text::owned(s))
    }

    /// A keyword value `:namespace/name`.
    pub fn typed_ns_keyword(namespace: &str, name: &str) -> (r: TypedValue)
        requires
            namespace@.len() > 0,
            name@.len() > 0,
        ensures
            r is Keyword,
            r->Keyword_0@ == (Qualified { namespace: namespace@, name: name@ }),
    {
        TypedValue::Keyword(NamespacedKeyword::new(namespace, name))
    }
}

/// Whether an attribute's values identify their entity.
#[derive(Clone, Copy, Debug, PartialEq, Eq, Structural, Hash, PartialOrd, Ord)]
pub enum Unique {
    Value,
    Identity,
}

/// What the schema records of an attribute.
#[derive(Clone, Copy, Debug, PartialEq, Eq, Hash, PartialOrd, Ord)]
pub struct Attribute {
    pub value_type: ValueType,
    pub multival: bool,
    pub unique: Option<Unique>,
    pub index: bool,
    pub fulltext: bool,
    pub component: bool,
}

impl Default for Attribute {
    /// A ref-typed attribute of cardinality one with every flag off.
    fn default() -> (r: Attribute)
        ensures
            r == (Attribute {
                value_type: ValueType::Ref,
                multival: false,
                unique: None,
                index: false,
                fulltext: false,
                component: false,
            }),
    {
        Attribute {
            value_type: ValueType::Ref,
            multival: false,
            unique: None,
            index: false,
            fulltext: false,
            component: false,
        }
    }
}

impl Attribute {
    /// The default attribute with value type `value_type`.
    pub fn of_type(value_type: ValueType) -> (r: Attribute)
        ensures
            r == (Attribute {
                value_type,
                multival: false,
                unique: None,
                index: false,
                fulltext: false,
                component: false,
            }),
    {
        Attribute {
            value_type,
            multival: false,
            unique: None,
            index: false,
            fulltext: false,
            component: false,
        }
    }
}

/// The two-way mapping between idents and entids, and the attribute of each
/// entid that names one. In each list a later entry replaces an earlier one
/// with the same key.
#[derive(Debug, PartialEq, Eq)]
pub struct Schema {
    pub entid_map: Vec<(Entid, NamespacedKeyword)>,
    pub ident_map: Vec<(NamespacedKeyword, Entid)>,
    pub schema_map: Vec<(Entid, Attribute)>,
}

/// The entid that the latest entry for `ident` gives.
pub open spec fn entid_of(idents: Seq<(NamespacedKeyword, Entid)>, ident: Qualified) -> Option<Entid>
    decreases idents.len(),
{
    if idents.len() == 0 {
        None
    } else if idents.last().0@ == ident {
        Some(idents.last().1)
    } else {
        entid_of(idents.drop_last(), ident)
    }
}

/// The ident that the latest entry for `entid` gives.
pub open spec fn ident_of(entids: Seq<(Entid, NamespacedKeyword)>, entid: Entid) -> Option<Qualified>
    decreases entids.len(),
{
    if entids.len() == 0 {
        None
    } else if entids.last().0 == entid {
        Some(entids.last().1@)
    } else {
        ident_of(entids.drop_last(), entid)
    }
}

/// The attribute that the latest entry for `entid` gives.
pub open spec fn attribute_of(attrs: Seq<(Entid, Attribute)>, entid: Entid) -> Option<Attribute>
    decreases attrs.len(),
{
    if attrs.len() == 0 {
        None
    } else if attrs.last().0 == entid {
        Some(attrs.last().1)
    } else {
        attribute_of(attrs.drop_last(), entid)
    }
}

/// Whether two keywords have the same namespace and name.
pub fn same_keyword(a: &NamespacedKeyword, b: &NamespacedKeyword) -> (r: bool)
    ensures
        r == (a@ == b@),
{
    a.namespace == b.namespace && a.name == b.name
}

impl Default for Schema {
    fn default() -> (r: Schema)
        ensures
            r.entid_map@.len() == 0,
            r.ident_map@.len() == 0,
            r.schema_map@.len() == 0,
    {
        Schema { entid_map: Vec::new(), ident_map: Vec::new(), schema_map: Vec::new() }
    }
}

impl Schema {
    /// Records that `ident` names `entid`, in both directions.
    pub fn associate_ident(&mut self, ident: NamespacedKeyword, entid: Entid)
        ensures
            final(self).ident_map@ == old(self).ident_map@.push((ident, entid)),
            final(self).entid_map@.len() == old(self).entid_map@.len() + 1,
            final(self).entid_map@.drop_last() == old(self).entid_map@,
            final(self).entid_map@.last().0 == entid,
            final(self).entid_map@.last().1@ == ident@,
            final(self).schema_map == old(self).schema_map,
    {
        self.entid_map.push((entid, ident.clone()));
        self.ident_map.push((ident, entid));
        assert(self.entid_map@.drop_last() =~= old(self).entid_map@);
    }

    /// Records `attribute` as the definition of `entid`.
    pub fn add_attribute(&mut self, entid: Entid, attribute: Attribute)
        ensures
            final(self).schema_map@ == old(self).schema_map@.push((entid, attribute)),
            final(self).ident_map == old(self).ident_map,
            final(self).entid_map == old(self).entid_map,
    {
        self.schema_map.push((entid, attribute));
    }

    /// The entid that `ident` names.
    pub fn get_entid(&self, ident: &NamespacedKeyword) -> (r: Option<Entid>)
        ensures
            r == entid_of(self.ident_map@, ident@),
    {
        let mut i: usize = self.ident_map.len();
        assert(self.ident_map@.subrange(0, i as int) =~= self.ident_map@);
        while i > 0
            invariant
                i <= self.ident_map@.len(),
                entid_of(self.ident_map@, ident@) == entid_of(self.ident_map@.subrange(0, i as int), ident@),
            decreases i,
        {
            let ghost prefix = self.ident_map@.subrange(0, i as int);
            assert(prefix.drop_last() =~= self.ident_map@.subrange(0, i - 1));
            if same_keyword(&self.ident_map[i - 1].0, ident) {
                return Some(self.ident_map[i - 1].1);
            }
            i -= 1;
        }
        None
    }

    /// The ident that names `entid`.
    pub fn get_ident(&self, entid: Entid) -> (r: Option<&NamespacedKeyword>)
        ensures
            r is Some <==> ident_of(self.entid_map@, entid) is Some,
            r is Some ==> r->0@ == ident_of(self.entid_map@, entid)->0,
    {
        let mut i: usize = self.entid_map.len();
        assert(self.entid_map@.subrange(0, i as int) =~= self.entid_map@);
        while i > 0
            invariant
                i <= self.entid_map@.len(),
                ident_of(self.entid_map@, entid) == ident_of(self.entid_map@.subrange(0, i as int), entid),
            decreases i,
        {
            let ghost prefix = self.entid_map@.subrange(0, i as int);
            assert(prefix.drop_last() =~= self.entid_map@.subrange(0, i - 1));
            if self.entid_map[i - 1].0 == entid {
                return Some(&self.entid_map[i - 1].1);
            }
            i -= 1;
        }
        None
    }

    /// The attribute that `entid` is defined as.
    pub fn attribute_for_entid(&self, entid: Entid) -> (r: Option<Attribute>)
        ensures
            r == attribute_of(self.schema_map@, entid),
    {
        let mut i: usize = self.schema_map.len();
        assert(self.schema_map@.subrange(0, i as int) =~= self.schema_map@);
        while i > 0
            invariant
                i <= self.schema_map@.len(),
                attribute_of(self.schema_map@, entid) == attribute_of(self.schema_map@.subrange(0, i as int), entid),
            decreases i,
        {
            let ghost prefix = self.schema_map@.subrange(0, i as int);
            assert(prefix.drop_last() =~= self.schema_map@.subrange(0, i - 1));
            if self.schema_map[i - 1].0 == entid {
                return Some(self.schema_map[i - 1].1);
            }
            i -= 1;
        }
        None
    }

    /// The entid and the attribute that `ident` names, if it names one.
    pub fn attribute_for_ident(&self, ident: &NamespacedKeyword) -> (r: Option<(Entid, Attribute)>)
        ensures
            r == schema_attribute(*self, ident@),
    {
        match self.get_entid(ident) {
            Some(e) => match self.attribute_for_entid(e) {
                Some(a) => Some((e, a)),
                None => None,
            },
            None => None,
        }
    }
}

/// The entid and the attribute that `ident` names in `schema`.
pub open spec fn schema_attribute(schema: Schema, ident: Qualified) -> Option<(Entid, Attribute)> {
    match entid_of(schema.ident_map@, ident) {
        Some(e) => match attribute_of(schema.schema_map@, e) {
            Some(a) => Some((e, a)),
            None => None,
        },
        None => None,
    }
}

} // verus!
