//! Symbols and keywords of the surface syntax.
//!
//! A plain symbol is a non-empty name; a variable is a plain symbol that begins
//! with `?` and a source variable one that begins with `$`. A keyword prints
//! with a leading colon and may carry a namespace. A namespaced keyword whose
//! name begins with `_` is read backward: `[?x :ns/_attr ?y]` means
//! `[?y :ns/attr ?x]`.

use vstd::prelude::*;
use vstd::string::StrSliceExecFns;
use crate::text::owned;

verus! {

/// A symbol without a namespace.
#[derive(Debug, PartialEq, Eq, Hash, PartialOrd, Ord)]
pub struct PlainSymbol(pub String);

/// A symbol with a namespace, printed `namespace/name`.
#[derive(Debug, PartialEq, Eq, Hash, PartialOrd, Ord)]
pub struct NamespacedSymbol {
    pub namespace: String,
    pub name: String,
}

/// A keyword without a namespace, printed `:name`.
#[derive(Debug, PartialEq, Eq, Hash, PartialOrd, Ord)]
pub struct Keyword(pub String);

/// A keyword with a namespace, printed `:namespace/name`.
#[derive(Debug, PartialEq, Eq, Hash, PartialOrd, Ord)]
pub struct NamespacedKeyword {
    pub namespace: String,
    pub name: String,
}

/// A namespace and a name, as mathematical text.
pub struct Qualified {
    pub namespace: Seq<char>,
    pub name: Seq<char>,
}

/// Whether `s` begins with the character `c`.
pub open spec fn starts_with_char(s: Seq<char>, c: char) -> bool {
    s.len() > 0 && s[0] == c
}

/// The name of a symbol without a leading `?` or `$`.
pub open spec fn plain_name_of(s: Seq<char>) -> Seq<char> {
    if starts_with_char(s, '?') || starts_with_char(s, '$') {
        s.subrange(1, s.len() as int)
    } else {
        s
    }
}

/// Whether a qualified name is to be read backward.
pub open spec fn is_backward_name(q: Qualified) -> bool {
    starts_with_char(q.name, '_')
}

/// The same namespace with the name's direction flipped: a leading `_` is
/// removed if there is one, and added otherwise.
pub open spec fn reversed(q: Qualified) -> Qualified {
    if starts_with_char(q.name, '_') {
        Qualified { namespace: q.namespace, name: q.name.subrange(1, q.name.len() as int) }
    } else {
        Qualified { namespace: q.namespace, name: seq!['_'] + q.name }
    }
}

/// The printed form of a namespaced symbol.
pub open spec fn symbol_text(q: Qualified) -> Seq<char> {
    q.namespace + seq!['/'] + q.name
}

/// The printed form of a namespaced keyword.
pub open spec fn keyword_text(q: Qualified) -> Seq<char> {
    seq![':'] + q.namespace + seq!['/'] + q.name
}

fn begins_with(s: &str, c: char) -> (r: bool)
    ensures
        r == starts_with_char(s@, c),
{
    if s.is_empty() {
        false
    } else {
        s.get_char(0) == c
    }
}

fn without_first(s: &str) -> (r: &str)
    requires
        s@.len() > 0,
    ensures
        r@ == s@.subrange(1, s@.len() as int),
{
    let n = s.unicode_len();
    s.substring_char(1, n)
}

impl View for PlainSymbol {
    type V = Seq<char>;

    open spec fn view(&self) -> Seq<char> {
        self.0@
    }
}

impl Clone for PlainSymbol {
    fn clone(&self) -> (r: Self)
        ensures
            r == *self,
    {
        PlainSymbol(self.0.clone())
    }
}

impl PlainSymbol {
    /// A symbol named `name`, which must not be empty.
    pub fn new(name: &str) -> (r: Self)
        requires
            name@.len() > 0,
        ensures
            r@ == name@,
    {
        PlainSymbol(owned(name))
    }

    /// The name of the symbol without any leading `?` or `$`.
    pub fn plain_name(&self) -> (r: &str)
        ensures
            r@ == plain_name_of(self@),
    {
        if self.is_src_symbol() || self.is_var_symbol() {
            without_first(self.0.as_str())
        } else {
            self.0.as_str()
        }
    }

    /// Whether the symbol names a variable.
    pub fn is_var_symbol(&self) -> (r: bool)
        ensures
            r == starts_with_char(self@, '?'),
    {
        begins_with(self.0.as_str(), '?')
    }

    /// Whether the symbol names a source.
    pub fn is_src_symbol(&self) -> (r: bool)
        ensures
            r == starts_with_char(self@, '$'),
    {
        begins_with(self.0.as_str(), '$')
    }

    /// The printed form: the name itself.
    pub fn to_string(&self) -> (r: String)
        ensures
            r@ == self@,
    {
        self.0.clone()
    }
}

impl View for Keyword {
    type V = Seq<char>;

    open spec fn view(&self) -> Seq<char> {
        self.0@
    }
}

impl Clone for Keyword {
    fn clone(&self) -> (r: Self)
        ensures
            r == *self,
    {
        Keyword(self.0.clone())
    }
}

impl Keyword {
    /// A keyword named `name`, which must not be empty.
    pub fn new(name: &str) -> (r: Self)
        requires
            name@.len() > 0,
        ensures
            r@ == name@,
    {
        Keyword(owned(name))
    }

    /// The printed form: a colon, then the name.
    pub fn to_string(&self) -> (r: String)
        ensures
            r@ == seq![':'] + self@,
    {
        let mut out = String::new();
        out.push(':');
        out.push_str(self.0.as_str());
        assert(out@ =~= seq![':'] + self@);
        out
    }
}

impl View for NamespacedSymbol {
    type V = Qualified;

    open spec fn view(&self) -> Qualified {
        Qualified { namespace: self.namespace@, name: self.name@ }
    }
}

impl Clone for NamespacedSymbol {
    fn clone(&self) -> (r: Self)
        ensures
            r == *self,
    {
        NamespacedSymbol { namespace: self.namespace.clone(), name: self.name.clone() }
    }
}

impl NamespacedSymbol {
    /// Both parts are present.
    pub open spec fn wf(&self) -> bool {
        self.namespace@.len() > 0 && self.name@.len() > 0
    }

    /// A symbol `namespace/name`; neither part may be empty.
    pub fn new(namespace: &str, name: &str) -> (r: Self)
        requires
            namespace@.len() > 0,
            name@.len() > 0,
        ensures
            r@ == (Qualified { namespace: namespace@, name: name@ }),
            r.wf(),
    {
        NamespacedSymbol { namespace: owned(namespace), name: owned(name) }
    }

    /// The part after the slash.
    pub fn name(&self) -> (r: &str)
        ensures
            r@ == self@.name,
    {
        self.name.as_str()
    }

    /// The part before the slash.
    pub fn namespace(&self) -> (r: &str)
        ensures
            r@ == self@.namespace,
    {
        self.namespace.as_str()
    }

    /// The namespace and the name, in that order.
    pub fn components(&self) -> (r: (&str, &str))
        ensures
            r.0@ == self@.namespace,
            r.1@ == self@.name,
    {
        (self.namespace.as_str(), self.name.as_str())
    }

    /// The printed form `namespace/name`.
    pub fn to_string(&self) -> (r: String)
        ensures
            r@ == symbol_text(self@),
    {
        let mut out = String::new();
        out.push_str(self.namespace.as_str());
        out.push('/');
        out.push_str(self.name.as_str());
        assert(out@ =~= symbol_text(self@));
        out
    }
}

impl View for NamespacedKeyword {
    type V = Qualified;

    open spec fn view(&self) -> Qualified {
        Qualified { namespace: self.namespace@, name: self.name@ }
    }
}

impl Clone for NamespacedKeyword {
    fn clone(&self) -> (r: Self)
        ensures
            r == *self,
    {
        NamespacedKeyword { namespace: self.namespace.clone(), name: self.name.clone() }
    }
}

impl NamespacedKeyword {
    /// Both parts are present.
    pub open spec fn wf(&self) -> bool {
        self.namespace@.len() > 0 && self.name@.len() > 0
    }

    /// A keyword `:namespace/name`; neither part may be empty.
    pub fn new(namespace: &str, name: &str) -> (r: Self)
        requires
            namespace@.len() > 0,
            name@.len() > 0,
        ensures
            r@ == (Qualified { namespace: namespace@, name: name@ }),
            r.wf(),
    {
        NamespacedKeyword { namespace: owned(namespace), name: owned(name) }
    }

    /// The part after the slash.
    pub fn name(&self) -> (r: &str)
        ensures
            r@ == self@.name,
    {
        self.name.as_str()
    }

    /// The part before the slash.
    pub fn namespace(&self) -> (r: &str)
        ensures
            r@ == self@.namespace,
    {
        self.namespace.as_str()
    }

    /// The namespace and the name, in that order.
    pub fn components(&self) -> (r: (&str, &str))
        ensures
            r.0@ == self@.namespace,
            r.1@ == self@.name,
    {
        (self.namespace.as_str(), self.name.as_str())
    }

    /// Whether the keyword is to be read backward: its name begins with `_`.
    pub fn is_backward(&self) -> (r: bool)
        ensures
            r == is_backward_name(self@),
    {
        begins_with(self.name.as_str(), '_')
    }

    /// Whether the keyword is to be read forward.
    pub fn is_forward(&self) -> (r: bool)
        ensures
            r == !is_backward_name(self@),
    {
        !self.is_backward()
    }

    /// The keyword with the same namespace and the opposite direction. The
    /// keyword whose name is the single character `_` has no forward form.
    pub fn to_reversed(&self) -> (r: NamespacedKeyword)
        requires
            self.wf(),
            self@.name != seq!['_'],
        ensures
            r@ == reversed(self@),
            r.wf(),
    {
        if begins_with(self.name.as_str(), '_') {
            let rest = without_first(self.name.as_str());
            assert(rest@.len() > 0) by {
                if self@.name.len() == 1 {
                    assert(self@.name =~= seq!['_']);
                }
            }
            NamespacedKeyword { namespace: self.namespace.clone(), name: owned(rest) }
        } else {
            let mut name = String::new();
            name.push('_');
            name.push_str(self.name.as_str());
            assert(name@ =~= seq!['_'] + self@.name);
            NamespacedKeyword { namespace: self.namespace.clone(), name }
        }
    }

    /// The forward form of a backward keyword, and `None` for a forward one.
    pub fn unreversed(&self) -> (r: Option<NamespacedKeyword>)
        requires
            self.wf(),
            self@.name != seq!['_'],
        ensures
            is_backward_name(self@) ==> r is Some && r->0@ == reversed(self@) && r->0.wf(),
            !is_backward_name(self@) ==> r is None,
    {
        if self.is_backward() {
            Some(self.to_reversed())
        } else {
            None
        }
    }

    /// The printed form `:namespace/name`.
    pub fn to_string(&self) -> (r: String)
        ensures
            r@ == keyword_text(self@),
    {
        let mut out = String::new();
        out.push(':');
        out.push_str(self.namespace.as_str());
        out.push('/');
        out.push_str(self.name.as_str());
        assert(out@ =~= keyword_text(self@));
        out
    }
}

/// Reversing twice gives the keyword back, for every name that reversal maps
/// to a forward name or from one: that is, every name but those that begin
/// with two underscores.
pub proof fn lemma_reverse_twice(q: Qualified)
    requires
        !(q.name.len() >= 2 && q.name[0] == '_' && q.name[1] == '_'),
    ensures
        reversed(reversed(q)) == q,
{
    if starts_with_char(q.name, '_') {
        let r = reversed(q);
        assert(!starts_with_char(r.name, '_'));
        assert(seq!['_'] + r.name =~= q.name);
    } else {
        let r = reversed(q);
        assert(starts_with_char(r.name, '_'));
        assert(r.name.subrange(1, r.name.len() as int) =~= q.name);
    }
}

/// Reversal flips the direction of every name that does not begin with two
/// underscores.
pub proof fn lemma_reverse_flips(q: Qualified)
    requires
        !(q.name.len() >= 2 && q.name[0] == '_' && q.name[1] == '_'),
    ensures
        is_backward_name(reversed(q)) == !is_backward_name(q),
{
}

} // verus!
