//! The SQL builder: it accumulates the text of a statement and the values of
//! its named parameters.
//!
//! Numbers, booleans and instants are written into the text. Strings and
//! UUIDs become named parameters, and equal values share one parameter.
//! Keywords become text parameters of their own. Generated parameter names
//! are the builder's prefix followed by a running number.

use vstd::prelude::*;
use crate::symbols::keyword_text;
use crate::text::{nat_decimal, int_decimal, push_i64, push_u64, str_to_chars};
use crate::values::{Double, TypedValue, TypedValueView, is_digit};

verus! {

/// A value as the relational engine holds it.
#[derive(Debug, PartialEq, Eq)]
pub enum Value {
    Null,
    Integer(i64),
    Real(Double),
    Text(String),
    Blob(Vec<u8>),
}

/// `Value` as mathematical data: each text and each blob as a sequence.
pub enum ValueView {
    Null,
    Integer(int),
    Real(Seq<char>),
    Text(Seq<char>),
    Blob(Seq<u8>),
}

impl View for Value {
    type V = ValueView;

    open spec fn view(&self) -> ValueView {
        match self {
            Value::Null => ValueView::Null,
            Value::Integer(n) => ValueView::Integer(*n as int),
            Value::Real(d) => ValueView::Real(d@),
            Value::Text(s) => ValueView::Text(s@),
            Value::Blob(b) => ValueView::Blob(b@),
        }
    }
}

/// What went wrong while a statement was built.
#[derive(Debug, PartialEq, Eq)]
pub enum SQLError {
    /// A bind parameter's name holds a character that is neither
    /// alphanumeric nor an underscore.
    InvalidParameterName(String),
    /// A bind parameter's placeholder could be mistaken for a generated one.
    BindParamCouldBeGenerated(String),
}

/// What writing to a builder gives: nothing, or why it was refused.
pub type BuildQueryResult = Result<(), SQLError>;

/// A finished statement: its text, and its parameters ordered by name.
#[derive(Debug, PartialEq, Eq)]
pub struct SQLQuery {
    pub sql: String,
    pub args: Vec<(String, Value)>,
}

/// One named parameter. An interned parameter is shared by every use of its
/// value.
pub struct Arg {
    pub name: String,
    pub value: Value,
    pub interned: bool,
}

/// A parameter as mathematical data: its name, its value, and whether it
/// was generated for a value.
pub struct ArgView {
    pub name: Seq<char>,
    pub value: ValueView,
    pub interned: bool,
}

impl View for Arg {
    type V = ArgView;

    open spec fn view(&self) -> ArgView {
        ArgView { name: self.name@, value: self.value@, interned: self.interned }
    }
}

/// The views of a list of parameters.
pub open spec fn arg_views(args: Seq<Arg>) -> Seq<ArgView> {
    Seq::new(args.len(), |i: int| args[i]@)
}

/// The state of a builder as mathematical data.
pub struct BuilderView {
    pub sql: Seq<char>,
    pub prefix: Seq<char>,
    pub args: Seq<ArgView>,
}

/// Whether the standard library counts `c` as alphanumeric.
pub uninterp spec fn is_alphanumeric_char(c: char) -> bool;

/// `char::is_alphanumeric` is a function of the character alone: it looks the
/// character up in the Unicode tables for letters and numbers.
pub assume_specification[ char::is_alphanumeric ](c: char) -> (r: bool)
    ensures
        r == is_alphanumeric_char(c),
;

/// The text with every backtick doubled.
pub open spec fn double_backticks(s: Seq<char>) -> Seq<char>
    decreases s.len(),
{
    if s.len() == 0 {
        seq![]
    } else if s.last() == '`' {
        double_backticks(s.drop_last()) + seq!['`', '`']
    } else {
        double_backticks(s.drop_last()).push(s.last())
    }
}

/// An identifier in backticks, with embedded backticks doubled.
pub open spec fn quoted_identifier(s: Seq<char>) -> Seq<char> {
    seq!['`'] + double_backticks(s) + seq!['`']
}

/// The name of the next generated parameter.
pub open spec fn next_name(st: BuilderView) -> Seq<char> {
    st.prefix + nat_decimal(st.args.len())
}

/// The name of the first interned parameter that holds `value`.
pub open spec fn interned_name(args: Seq<ArgView>, value: ValueView) -> Option<Seq<char>>
    decreases args.len(),
{
    if args.len() == 0 {
        None
    } else {
        match interned_name(args.drop_last(), value) {
            Some(name) => Some(name),
            None => if args.last().interned && args.last().value == value {
                Some(args.last().name)
            } else {
                None
            },
        }
    }
}

/// The state after `text` has been appended.
pub open spec fn with_sql(st: BuilderView, text: Seq<char>) -> BuilderView {
    BuilderView { sql: st.sql + text, ..st }
}

/// The state after a parameter of its own has been made for `value`.
pub open spec fn with_static_arg(st: BuilderView, value: ValueView) -> BuilderView {
    BuilderView {
        sql: st.sql + next_name(st),
        prefix: st.prefix,
        args: st.args.push(ArgView { name: next_name(st), value, interned: false }),
    }
}

/// The state after `value` has been written as a shared parameter: the one
/// that already holds it, or else a new one.
pub open spec fn with_interned_arg(st: BuilderView, value: ValueView) -> BuilderView {
    match interned_name(st.args, value) {
        Some(name) => with_sql(st, name),
        None => BuilderView {
            sql: st.sql + next_name(st),
            prefix: st.prefix,
            args: st.args.push(ArgView { name: next_name(st), value, interned: true }),
        },
    }
}

/// The state after a typed value has been written.
pub open spec fn with_typed_value(st: BuilderView, v: TypedValueView) -> BuilderView {
    match v {
        TypedValueView::Ref(e) => with_sql(st, int_decimal(e)),
        TypedValueView::Boolean(b) => with_sql(
            st,
            if b {
                seq!['1']
            } else {
                seq!['0']
            },
        ),
        TypedValueView::Long(n) => with_sql(st, int_decimal(n)),
        TypedValueView::Double(d) => with_sql(st, d),
        TypedValueView::Instant(t) => with_sql(st, int_decimal(t)),
        TypedValueView::Uuid(u) => with_interned_arg(st, ValueView::Blob(u)),
        TypedValueView::String(s) => with_interned_arg(st, ValueView::Text(s)),
        TypedValueView::Keyword(k) => with_static_arg(st, ValueView::Text(keyword_text(k))),
    }
}

/// Whether every character of `s` from `from` on satisfies `p`.
pub open spec fn all_from(s: Seq<char>, from: int, p: spec_fn(char) -> bool) -> bool {
    forall|i: int| from <= i < s.len() ==> p(#[trigger] s[i])
}

/// Whether a bind parameter's name is made of alphanumerics and underscores.
pub open spec fn valid_parameter_name(name: Seq<char>) -> bool {
    all_from(name, 0, |c: char| is_alphanumeric_char(c) || c == '_')
}

/// Whether the placeholder `$name` is the prefix followed by digits only, as
/// generated names are.
pub open spec fn could_be_generated(prefix: Seq<char>, name: Seq<char>) -> bool {
    let placeholder = seq!['$'] + name;
    &&& prefix.len() <= placeholder.len()
    &&& placeholder.subrange(0, prefix.len() as int) == prefix
    &&& all_from(placeholder, prefix.len() as int, |c: char| is_digit(c))
}

/// The outcome of writing the bind parameter `name`.
pub open spec fn bind_param_error(prefix: Seq<char>, name: Seq<char>) -> Option<SQLErrorKind> {
    if !valid_parameter_name(name) {
        Some(SQLErrorKind::InvalidParameterName)
    } else if could_be_generated(prefix, name) {
        Some(SQLErrorKind::BindParamCouldBeGenerated)
    } else {
        None
    }
}

/// The kinds of build error.
pub enum SQLErrorKind {
    InvalidParameterName,
    BindParamCouldBeGenerated,
}

/// Whether `e` is the error of kind `kind` for the name `name`.
pub open spec fn is_error(e: SQLError, kind: SQLErrorKind, name: Seq<char>) -> bool {
    match kind {
        SQLErrorKind::InvalidParameterName => e matches SQLError::InvalidParameterName(n) && n@
            == name,
        SQLErrorKind::BindParamCouldBeGenerated => e matches SQLError::BindParamCouldBeGenerated(n)
            && n@ == name,
    }
}

/// Whether `a` comes before `b` when texts are ordered character by
/// character, a text before its extensions.
pub open spec fn lex_lt(a: Seq<char>, b: Seq<char>) -> bool
    decreases a.len(),
{
    if b.len() == 0 {
        false
    } else if a.len() == 0 {
        true
    } else if a[0] != b[0] {
        a[0] < b[0]
    } else {
        lex_lt(a.drop_first(), b.drop_first())
    }
}

/// `s`, which is ordered by name, with `x` put after every parameter whose
/// name does not come after its own.
pub open spec fn insert_by_name(s: Seq<ArgView>, x: ArgView) -> Seq<ArgView>
    decreases s.len(),
{
    if s.len() > 0 && lex_lt(x.name, s.last().name) {
        insert_by_name(s.drop_last(), x).push(s.last())
    } else {
        s.push(x)
    }
}

/// The parameters ordered by name; parameters of one name keep their order.
pub open spec fn sorted_by_name(s: Seq<ArgView>) -> Seq<ArgView>
    decreases s.len(),
{
    if s.len() == 0 {
        seq![]
    } else {
        insert_by_name(sorted_by_name(s.drop_last()), s.last())
    }
}

/// Whether each parameter's name comes no later than its successor's.
pub open spec fn ordered_by_name(s: Seq<ArgView>) -> bool {
    forall|i: int, j: int| 0 <= i < j < s.len() ==> !lex_lt(#[trigger] s[j].name, #[trigger] s[i].name)
}

/// The name and the value of each parameter.
pub open spec fn named_values(s: Seq<ArgView>) -> Seq<(Seq<char>, ValueView)> {
    Seq::new(s.len(), |i: int| (s[i].name, s[i].value))
}

/// The views of a statement's parameters.
pub open spec fn query_args(args: Seq<(String, Value)>) -> Seq<(Seq<char>, ValueView)> {
    Seq::new(args.len(), |i: int| (args[i].0@, args[i].1@))
}

fn chars_lt(a: &Vec<char>, b: &Vec<char>) -> (r: bool)
    ensures
        r == lex_lt(a@, b@),
{
    let mut i: usize = 0;
    proof {
        assert(a@.subrange(0, a@.len() as int) =~= a@);
        assert(b@.subrange(0, b@.len() as int) =~= b@);
    }
    while i < a.len() && i < b.len()
        invariant
            i <= a@.len(),
            i <= b@.len(),
            lex_lt(a@, b@) == lex_lt(a@.subrange(i as int, a@.len() as int), b@.subrange(i as int, b@.len() as int)),
        decreases a@.len() - i,
    {
        let ghost ra = a@.subrange(i as int, a@.len() as int);
        let ghost rb = b@.subrange(i as int, b@.len() as int);
        assert(ra.drop_first() =~= a@.subrange(i + 1, a@.len() as int));
        assert(rb.drop_first() =~= b@.subrange(i + 1, b@.len() as int));
        assert(ra[0] == a@[i as int] && rb[0] == b@[i as int]);
        if a[i] != b[i] {
            return a[i] < b[i];
        }
        i += 1;
    }
    proof {
        assert(a@.subrange(0, a@.len() as int) =~= a@);
        assert(b@.subrange(0, b@.len() as int) =~= b@);
    }
    i < b.len()
}

/// Whether `a` comes before `b`, character by character.
pub fn str_lt(a: &str, b: &str) -> (r: bool)
    ensures
        r == lex_lt(a@, b@),
{
    let ca = str_to_chars(a);
    let cb = str_to_chars(b);
    proof {
        assert(ca@.subrange(0, ca@.len() as int) =~= ca@);
        assert(cb@.subrange(0, cb@.len() as int) =~= cb@);
    }
    chars_lt(&ca, &cb)
}

fn insert_arg(v: &mut Vec<Arg>, x: Arg)
    ensures
        arg_views(final(v)@) == insert_by_name(arg_views(old(v)@), x@),
    decreases old(v)@.len(),
{
    let n = v.len();
    let ghost before = arg_views(v@);
    if n > 0 && str_lt(x.name.as_str(), v[n - 1].name.as_str()) {
        match v.pop() {
            Some(last) => {
                assert(arg_views(v@) =~= before.drop_last());
                insert_arg(v, x);
                let ghost mid = arg_views(v@);
                v.push(last);
                assert(arg_views(v@) =~= mid.push(before.last()));
            },
            None => {},
        }
    } else {
        v.push(x);
        assert(arg_views(v@) =~= before.push(x@));
    }
}

fn sort_args(args: Vec<Arg>) -> (r: Vec<Arg>)
    ensures
        arg_views(r@) == sorted_by_name(arg_views(args@)),
{
    let mut args = args;
    sort_in_place(&mut args);
    args
}

fn sort_in_place(v: &mut Vec<Arg>)
    ensures
        arg_views(final(v)@) == sorted_by_name(arg_views(old(v)@)),
    decreases old(v)@.len(),
{
    let ghost before = arg_views(v@);
    match v.pop() {
        Some(last) => {
            assert(arg_views(v@) =~= before.drop_last());
            sort_in_place(v);
            insert_arg(v, last);
        },
        None => {
            assert(arg_views(v@) =~= Seq::<ArgView>::empty());
        },
    }
}

/// A builder that follows SQLite's rules for quoting and parameters.
pub struct SQLiteQueryBuilder {
    pub sql: String,
    arg_prefix: String,
    args: Vec<Arg>,
}

impl View for SQLiteQueryBuilder {
    type V = BuilderView;

    closed spec fn view(&self) -> BuilderView {
        BuilderView { sql: self.sql@, prefix: self.arg_prefix@, args: arg_views(self.args@) }
    }
}

fn all_valid(chars: &Vec<char>) -> (r: bool)
    ensures
        r == valid_parameter_name(chars@),
{
    let mut i: usize = 0;
    while i < chars.len()
        invariant
            i <= chars@.len(),
            forall|j: int| 0 <= j < i ==> is_alphanumeric_char(#[trigger] chars@[j]) || chars@[j] == '_',
        decreases chars@.len() - i,
    {
        let c = chars[i];
        if !(c.is_alphanumeric() || c == '_') {
            return false;
        }
        i += 1;
    }
    true
}

fn begins_with_chars(s: &Vec<char>, p: &Vec<char>) -> (r: bool)
    ensures
        r == (p@.len() <= s@.len() && s@.subrange(0, p@.len() as int) == p@),
{
    if p.len() > s.len() {
        return false;
    }
    let mut k: usize = 0;
    while k < p.len()
        invariant
            k <= p@.len() <= s@.len(),
            forall|j: int| 0 <= j < k ==> s@[j] == p@[j],
        decreases p@.len() - k,
    {
        if s[k] != p[k] {
            assert(s@.subrange(0, p@.len() as int)[k as int] != p@[k as int]);
            return false;
        }
        k += 1;
    }
    assert(s@.subrange(0, p@.len() as int) =~= p@);
    true
}

fn all_digits_from(s: &Vec<char>, from: usize) -> (r: bool)
    requires
        from <= s@.len(),
    ensures
        r == all_from(s@, from as int, |c: char| is_digit(c)),
{
    let mut m: usize = from;
    while m < s.len()
        invariant
            from <= m <= s@.len(),
            forall|j: int| from <= j < m ==> is_digit(#[trigger] s@[j]),
        decreases s@.len() - m,
    {
        let c = s[m];
        if !('0' <= c && c <= '9') {
            return false;
        }
        m += 1;
    }
    true
}

fn same_bytes(a: &Vec<u8>, b: &Vec<u8>) -> (r: bool)
    ensures
        r == (a@ == b@),
{
    if a.len() != b.len() {
        return false;
    }
    let mut i: usize = 0;
    while i < a.len()
        invariant
            a@.len() == b@.len(),
            i <= a@.len(),
            forall|j: int| 0 <= j < i ==> a@[j] == b@[j],
        decreases a@.len() - i,
    {
        if a[i] != b[i] {
            return false;
        }
        i += 1;
    }
    assert(a@ =~= b@);
    true
}

fn same_value(a: &Value, b: &Value) -> (r: bool)
    ensures
        r == (a@ == b@),
{
    match (a, b) {
        (Value::Null, Value::Null) => true,
        (Value::Integer(x), Value::Integer(y)) => *x == *y,
        (Value::Real(x), Value::Real(y)) => x.literal == y.literal,
        (Value::Text(x), Value::Text(y)) => *x == *y,
        (Value::Blob(x), Value::Blob(y)) => same_bytes(x, y),
        _ => false,
    }
}

impl SQLiteQueryBuilder {
    /// The state of a new builder.
    pub open spec fn new_view() -> BuilderView {
        BuilderView { sql: seq![], prefix: seq!['$', 'v'], args: seq![] }
    }

    /// A builder whose generated parameters are named `$v0`, `$v1`, ….
    pub fn new() -> (r: Self)
        ensures
            r@ == Self::new_view(),
    {
        let mut prefix = String::new();
        prefix.push('$');
        prefix.push('v');
        assert(prefix@ =~= seq!['$', 'v']);
        SQLiteQueryBuilder::with_prefix(prefix)
    }

    /// A builder whose generated parameters are named `prefix0`, `prefix1`, ….
    pub fn with_prefix(prefix: String) -> (r: Self)
        ensures
            r@ == (BuilderView { sql: seq![], prefix: prefix@, args: seq![] }),
    {
        let r = SQLiteQueryBuilder { sql: String::new(), arg_prefix: prefix, args: Vec::new() };
        assert(r@.args =~= seq![]);
        r
    }

    fn next_argument_name(&self) -> (r: String)
        ensures
            r@ == next_name(self@),
    {
        let mut arg = self.arg_prefix.clone();
        push_u64(&mut arg, self.args.len() as u64);
        arg
    }

    fn find_interned(&self, value: &Value) -> (r: Option<usize>)
        ensures
            r is Some <==> interned_name(self@.args, value@) is Some,
            r is Some ==> r->0 < self.args@.len() && self.args@[r->0 as int].name@ == interned_name(
                self@.args,
                value@,
            )->0,
    {
        let mut i: usize = 0;
        let ghost all = arg_views(self.args@);
        assert(all.subrange(0, 0) =~= Seq::<ArgView>::empty());
        while i < self.args.len()
            invariant
                i <= self.args@.len(),
                all == arg_views(self.args@),
                interned_name(all.subrange(0, i as int), value@) is None,
            decreases self.args@.len() - i,
        {
            let ghost next = all.subrange(0, i + 1);
            assert(next.drop_last() =~= all.subrange(0, i as int));
            assert(next.last() == self.args@[i as int]@);
            if self.args[i].interned && same_value(&self.args[i].value, value) {
                proof {
                    lemma_interned_prefix(all, i + 1, value@);
                }
                return Some(i);
            }
            i += 1;
        }
        assert(all.subrange(0, i as int) =~= all);
        None
    }

    /// Writes `sql` as it stands.
    pub fn push_sql(&mut self, sql: &str)
        ensures
            final(self)@ == with_sql(old(self)@, sql@),
    {
        self.sql.push_str(sql);
    }

    /// Writes the decimal form of `n`.
    pub fn push_int(&mut self, n: i64)
        ensures
            final(self)@ == with_sql(old(self)@, int_decimal(n as int)),
    {
        push_i64(&mut self.sql, n);
    }

    /// Writes the decimal form of `n`.
    pub fn push_nat(&mut self, n: u64)
        ensures
            final(self)@ == with_sql(old(self)@, nat_decimal(n as nat)),
    {
        push_u64(&mut self.sql, n);
    }

    /// Writes the single character `c`.
    pub fn push_char(&mut self, c: char)
        ensures
            final(self)@ == with_sql(old(self)@, seq![c]),
    {
        self.sql.push(c);
        assert(self.sql@ =~= old(self).sql@ + seq![c]);
    }

    /// Writes `identifier` between backticks, doubling its own backticks.
    pub fn push_identifier(&mut self, identifier: &str) -> (r: BuildQueryResult)
        ensures
            r is Ok,
            final(self)@ == with_sql(old(self)@, quoted_identifier(identifier@)),
    {
        let chars = str_to_chars(identifier);
        self.sql.push('`');
        let mut i: usize = 0;
        assert(chars@.subrange(0, 0) =~= Seq::<char>::empty());
        while i < chars.len()
            invariant
                i <= chars@.len(),
                self.arg_prefix == old(self).arg_prefix,
                self.args == old(self).args,
                self.sql@ == old(self).sql@ + seq!['`'] + double_backticks(chars@.subrange(0, i as int)),
            decreases chars@.len() - i,
        {
            let ghost next = chars@.subrange(0, i + 1);
            assert(next.drop_last() =~= chars@.subrange(0, i as int));
            let c = chars[i];
            if c == '`' {
                self.sql.push('`');
                self.sql.push('`');
                assert(self.sql@ =~= old(self).sql@ + seq!['`'] + double_backticks(next));
            } else {
                self.sql.push(c);
                assert(self.sql@ =~= old(self).sql@ + seq!['`'] + double_backticks(next));
            }
            i += 1;
        }
        assert(chars@.subrange(0, i as int) =~= chars@);
        self.sql.push('`');
        assert(self.sql@ =~= old(self).sql@ + quoted_identifier(identifier@));
        Ok(())
    }

    /// Makes a parameter of its own for `val` and writes its name.
    pub fn push_static_arg(&mut self, val: Value)
        ensures
            final(self)@ == with_static_arg(old(self)@, val@),
    {
        let arg = self.next_argument_name();
        self.push_named_arg(arg.as_str());
        let ghost before = arg_views(self.args@);
        let entry = Arg { name: arg, value: val, interned: false };
        self.args.push(entry);
        assert(arg_views(self.args@) =~= before.push(entry@));
    }

    fn push_interned_arg(&mut self, val: Value)
        ensures
            final(self)@ == with_interned_arg(old(self)@, val@),
    {
        match self.find_interned(&val) {
            Some(i) => {
                let name = self.args[i].name.clone();
                self.push_named_arg(name.as_str());
            },
            None => {
                let arg = self.next_argument_name();
                self.push_named_arg(arg.as_str());
                let ghost before = arg_views(self.args@);
                let entry = Arg { name: arg, value: val, interned: true };
                self.args.push(entry);
                assert(arg_views(self.args@) =~= before.push(entry@));
            },
        }
    }

    fn push_named_arg(&mut self, arg: &str)
        ensures
            final(self)@ == with_sql(old(self)@, arg@),
    {
        self.push_sql(arg);
    }

    /// Writes a typed value: a number, a boolean or an instant as a literal,
    /// a string or a UUID as a shared parameter, a keyword as a parameter of
    /// its own.
    pub fn push_typed_value(&mut self, value: &TypedValue) -> (r: BuildQueryResult)
        ensures
            r is Ok,
            final(self)@ == with_typed_value(old(self)@, value@),
    {
        match value {
            TypedValue::Ref(entid) => {
                push_i64(&mut self.sql, *entid);
            },
            TypedValue::Boolean(v) => {
                if *v {
                    self.push_char('1');
                } else {
                    self.push_char('0');
                }
            },
            TypedValue::Long(v) => {
                push_i64(&mut self.sql, *v);
            },
            TypedValue::Double(d) => {
                self.push_sql(d.literal.as_str());
            },
            TypedValue::Instant(micros) => {
                push_i64(&mut self.sql, *micros);
            },
            TypedValue::Uuid(u) => {
                self.push_interned_arg(Value::Blob(u.to_vec()));
            },
            TypedValue::String(s) => {
                self.push_interned_arg(Value::Text(s.clone()));
            },
            TypedValue::Keyword(k) => {
                self.push_static_arg(Value::Text(k.to_string()));
            },
        }
        Ok(())
    }

    /// Writes the placeholder `$name` for a parameter that the caller binds.
    /// The name must be made of alphanumerics and underscores, and the
    /// placeholder must not look like a generated one.
    pub fn push_bind_param(&mut self, name: &str) -> (r: BuildQueryResult)
        ensures
            match bind_param_error(old(self)@.prefix, name@) {
                Some(kind) => r is Err && is_error(r->Err_0, kind, name@) && final(self)@ == old(
                    self,
                )@,
                None => r is Ok && final(self)@ == with_sql(old(self)@, seq!['$'] + name@),
            },
    {
        let chars = str_to_chars(name);
        if !all_valid(&chars) {
            return Err(SQLError::InvalidParameterName(crate::text::owned(name)));
        }
        let prefix = str_to_chars(self.arg_prefix.as_str());
        let mut placeholder: Vec<char> = Vec::new();
        placeholder.push('$');
        let mut i: usize = 0;
        while i < chars.len()
            invariant
                i <= chars@.len(),
                placeholder@ == seq!['$'] + chars@.subrange(0, i as int),
            decreases chars@.len() - i,
        {
            placeholder.push(chars[i]);
            assert(placeholder@ =~= seq!['$'] + chars@.subrange(0, i + 1));
            i += 1;
        }
        assert(placeholder@ =~= seq!['$'] + name@);
        if begins_with_chars(&placeholder, &prefix) && all_digits_from(&placeholder, prefix.len()) {
            return Err(SQLError::BindParamCouldBeGenerated(crate::text::owned(name)));
        }
        self.push_char('$');
        self.push_sql(name);
        assert(self@.sql =~= old(self)@.sql + (seq!['$'] + name@));
        Ok(())
    }

    /// The statement and its parameters, ordered by name: `$v0` before `$v1`
    /// before `$v10`.
    pub fn finish(self) -> (r: SQLQuery)
        ensures
            r.sql@ == self@.sql,
            query_args(r.args@) == named_values(sorted_by_name(self@.args)),
    {
        let sql = self.sql;
        let mut sorted = sort_args(self.args);
        let ghost target = arg_views(sorted@);
        // Hand the parameters over in order.
        let mut rev: Vec<(String, Value)> = Vec::new();
        while sorted.len() > 0
            invariant
                sorted@.len() + rev@.len() == target.len(),
                arg_views(sorted@) == target.subrange(0, sorted@.len() as int),
                forall|j: int|
                    0 <= j < rev@.len() ==> (#[trigger] rev@[j]).0@ == target[target.len() - 1 - j].name
                        && rev@[j].1@ == target[target.len() - 1 - j].value,
            decreases sorted@.len(),
        {
            let ghost before = arg_views(sorted@);
            match sorted.pop() {
                Some(a) => {
                    assert(a@ == before.last());
                    rev.push((a.name, a.value));
                    assert(arg_views(sorted@) =~= target.subrange(0, sorted@.len() as int));
                },
                None => {},
            }
        }
        let mut args: Vec<(String, Value)> = Vec::new();
        let ghost rall = rev@;
        while rev.len() > 0
            invariant
                rev@.len() + args@.len() == target.len(),
                rall.len() == target.len(),
                rev@ == rall.subrange(0, rev@.len() as int),
                forall|j: int|
                    0 <= j < rall.len() ==> (#[trigger] rall[j]).0@ == target[target.len() - 1 - j].name
                        && rall[j].1@ == target[target.len() - 1 - j].value,
                forall|j: int|
                    0 <= j < args@.len() ==> (#[trigger] args@[j]).0@ == target[j].name && args@[j].1@
                        == target[j].value,
            decreases rev@.len(),
        {
            match rev.pop() {
                Some(a) => {
                    args.push(a);
                    assert(rev@ =~= rall.subrange(0, rev@.len() as int));
                },
                None => {},
            }
        }
        assert(query_args(args@) =~= named_values(target));
        SQLQuery { sql, args }
    }
}

/// Writing two texts one after the other writes their concatenation.
pub proof fn lemma_with_sql_twice(st: BuilderView, a: Seq<char>, b: Seq<char>)
    ensures
        with_sql(with_sql(st, a), b) == with_sql(st, a + b),
{
    assert((st.sql + a) + b =~= st.sql + (a + b));
}

/// A parameter found among the first `n` is found among all, under the same
/// name.
pub proof fn lemma_interned_prefix(args: Seq<ArgView>, n: int, value: ValueView)
    requires
        0 <= n <= args.len(),
        interned_name(args.subrange(0, n), value) is Some,
    ensures
        interned_name(args, value) == interned_name(args.subrange(0, n), value),
    decreases args.len() - n,
{
    if n < args.len() {
        let next = args.subrange(0, n + 1);
        assert(next.drop_last() =~= args.subrange(0, n));
        lemma_interned_prefix(args, n + 1, value);
    } else {
        assert(args.subrange(0, n) =~= args);
    }
}

/// Whether no value is held by two shared parameters.
pub open spec fn distinct_interned(args: Seq<ArgView>) -> bool {
    forall|i: int, j: int|
        0 <= i < j < args.len() ==> !((#[trigger] args[i]).interned && (#[trigger] args[j]).interned
            && args[i].value == args[j].value)
}

/// Whether some shared parameter holds `value`.
pub open spec fn is_interned(args: Seq<ArgView>, value: ValueView) -> bool {
    exists|i: int| 0 <= i < args.len() && (#[trigger] args[i]).interned && args[i].value == value
}

/// The values that shared parameters hold.
pub open spec fn interned_values(args: Seq<ArgView>) -> Set<ValueView> {
    Set::new(|v: ValueView| is_interned(args, v))
}

/// The number of shared parameters.
pub open spec fn interned_count(args: Seq<ArgView>) -> nat
    decreases args.len(),
{
    if args.len() == 0 {
        0
    } else {
        interned_count(args.drop_last()) + (if args.last().interned {
            1nat
        } else {
            0nat
        })
    }
}

/// A value has a shared parameter's name exactly when some shared parameter
/// holds it.
pub proof fn lemma_interned_name(args: Seq<ArgView>, value: ValueView)
    ensures
        interned_name(args, value) is Some <==> is_interned(args, value),
    decreases args.len(),
{
    if args.len() > 0 {
        lemma_interned_name(args.drop_last(), value);
        if is_interned(args, value) {
            let i = choose|i: int| 0 <= i < args.len() && (#[trigger] args[i]).interned && args[i].value == value;
            if i < args.len() - 1 {
                assert(args.drop_last()[i] == args[i]);
                assert(is_interned(args.drop_last(), value));
            }
        }
        if is_interned(args.drop_last(), value) {
            let i = choose|i: int|
                0 <= i < args.drop_last().len() && (#[trigger] args.drop_last()[i]).interned
                    && args.drop_last()[i].value == value;
            assert(args[i] == args.drop_last()[i]);
        }
        if interned_name(args, value) is Some && !(interned_name(args.drop_last(), value) is Some) {
            assert(args[args.len() - 1].interned && args[args.len() - 1].value == value);
        }
    }
}

/// Writing a value as a shared parameter keeps the shared parameters
/// distinct. A value that a shared parameter holds gets no new parameter;
/// any other value gets exactly one, and is held from then on.
pub proof fn lemma_shared_parameter(st: BuilderView, value: ValueView)
    requires
        distinct_interned(st.args),
    ensures
        distinct_interned(with_interned_arg(st, value).args),
        is_interned(with_interned_arg(st, value).args, value),
        is_interned(st.args, value) ==> with_interned_arg(st, value).args == st.args,
        !is_interned(st.args, value) ==> interned_count(with_interned_arg(st, value).args)
            == interned_count(st.args) + 1,
        forall|v: ValueView|
            is_interned(with_interned_arg(st, value).args, v) <==> (v == value || is_interned(st.args, v)),
{
    lemma_interned_name(st.args, value);
    let after = with_interned_arg(st, value).args;
    if interned_name(st.args, value) is None {
        let x = ArgView { name: next_name(st), value, interned: true };
        assert(after == st.args.push(x));
        assert(after.drop_last() =~= st.args);
        assert(after[after.len() - 1] == x);
        assert(is_interned(after, value));
        assert forall|i: int, j: int| 0 <= i < j < after.len() implies !((#[trigger] after[i]).interned && (
        #[trigger] after[j]).interned && after[i].value == after[j].value) by {
            if j < st.args.len() {
                assert(after[i] == st.args[i]);
                assert(after[j] == st.args[j]);
            } else {
                assert(after[i] == st.args[i]);
                if after[i].interned && after[i].value == value {
                    assert(is_interned(st.args, value));
                }
            }
        }
        assert forall|v: ValueView| is_interned(after, v) <==> (v == value || is_interned(st.args, v)) by {
            if is_interned(after, v) {
                let i = choose|i: int| 0 <= i < after.len() && (#[trigger] after[i]).interned && after[i].value == v;
                if i < st.args.len() {
                    assert(after[i] == st.args[i]);
                }
            }
            if is_interned(st.args, v) {
                let i = choose|i: int|
                    0 <= i < st.args.len() && (#[trigger] st.args[i]).interned && st.args[i].value == v;
                assert(after[i] == st.args[i]);
            }
        }
    }
}

/// Where shared parameters are distinct, there are as many of them as there
/// are values that they hold.
pub proof fn lemma_one_parameter_per_value(args: Seq<ArgView>)
    requires
        distinct_interned(args),
    ensures
        interned_values(args).finite(),
        interned_values(args).len() == interned_count(args),
    decreases args.len(),
{
    if args.len() == 0 {
        assert(interned_values(args) =~= Set::<ValueView>::empty());
    } else {
        let rest = args.drop_last();
        let last = args.last();
        assert forall|i: int, j: int| 0 <= i < j < rest.len() implies !((#[trigger] rest[i]).interned && (
        #[trigger] rest[j]).interned && rest[i].value == rest[j].value) by {
            assert(rest[i] == args[i]);
            assert(rest[j] == args[j]);
        }
        lemma_one_parameter_per_value(rest);
        if last.interned {
            assert(!is_interned(rest, last.value)) by {
                if is_interned(rest, last.value) {
                    let i = choose|i: int|
                        0 <= i < rest.len() && (#[trigger] rest[i]).interned && rest[i].value == last.value;
                    assert(rest[i] == args[i]);
                    assert(args[args.len() - 1] == last);
                }
            }
            assert(interned_values(args) =~= interned_values(rest).insert(last.value)) by {
                assert forall|v: ValueView| interned_values(args).contains(v) == interned_values(rest).insert(
                    last.value,
                ).contains(v) by {
                    if is_interned(args, v) {
                        let i = choose|i: int|
                            0 <= i < args.len() && (#[trigger] args[i]).interned && args[i].value == v;
                        if i < rest.len() {
                            assert(rest[i] == args[i]);
                        }
                    }
                    if is_interned(rest, v) {
                        let i = choose|i: int|
                            0 <= i < rest.len() && (#[trigger] rest[i]).interned && rest[i].value == v;
                        assert(args[i] == rest[i]);
                    }
                    if v == last.value {
                        assert(args[args.len() - 1].interned && args[args.len() - 1].value == v);
                    }
                }
            }
        } else {
            assert(interned_values(args) =~= interned_values(rest)) by {
                assert forall|v: ValueView| interned_values(args).contains(v) == interned_values(rest).contains(
                    v,
                ) by {
                    if is_interned(args, v) {
                        let i = choose|i: int|
                            0 <= i < args.len() && (#[trigger] args[i]).interned && args[i].value == v;
                        assert(rest[i] == args[i]);
                    }
                    if is_interned(rest, v) {
                        let i = choose|i: int|
                            0 <= i < rest.len() && (#[trigger] rest[i]).interned && rest[i].value == v;
                        assert(args[i] == rest[i]);
                    }
                }
            }
        }
    }
}

/// Writing a typed value keeps the shared parameters distinct, and only a
/// string or a UUID can add one.
pub proof fn lemma_typed_value_parameters(st: BuilderView, v: TypedValueView)
    requires
        distinct_interned(st.args),
    ensures
        distinct_interned(with_typed_value(st, v).args),
{
    match v {
        TypedValueView::Uuid(u) => {
            lemma_shared_parameter(st, ValueView::Blob(u));
        },
        TypedValueView::String(s) => {
            lemma_shared_parameter(st, ValueView::Text(s));
        },
        TypedValueView::Keyword(k) => {
            let after = with_typed_value(st, v).args;
            assert forall|i: int, j: int| 0 <= i < j < after.len() implies !((#[trigger] after[i]).interned && (
            #[trigger] after[j]).interned && after[i].value == after[j].value) by {
                assert(after[i] == st.args[i]);
                if j < st.args.len() {
                    assert(after[j] == st.args[j]);
                }
            }
        },
        _ => {},
    }
}

/// No text comes before itself.
pub proof fn lemma_lex_irreflexive(a: Seq<char>)
    ensures
        !lex_lt(a, a),
    decreases a.len(),
{
    if a.len() > 0 {
        lemma_lex_irreflexive(a.drop_first());
    }
}

/// Of two different texts, one comes before the other.
pub proof fn lemma_lex_total(a: Seq<char>, b: Seq<char>)
    ensures
        lex_lt(a, b) || lex_lt(b, a) || a == b,
    decreases a.len(),
{
    if a.len() > 0 && b.len() > 0 && a[0] == b[0] {
        lemma_lex_total(a.drop_first(), b.drop_first());
        if a.drop_first() == b.drop_first() {
            assert(a.len() == b.len()) by {
                assert(a.drop_first().len() == b.drop_first().len());
            }
            assert forall|i: int| 0 <= i < a.len() implies a[i] == b[i] by {
                if i > 0 {
                    assert(a[i] == a.drop_first()[i - 1]);
                    assert(b[i] == b.drop_first()[i - 1]);
                }
            }
            assert(a =~= b);
        }
    } else if a.len() == 0 && b.len() == 0 {
        assert(a =~= b);
    }
}

/// If one text comes before another, the other does not come before it.
pub proof fn lemma_lex_asymmetric(a: Seq<char>, b: Seq<char>)
    requires
        lex_lt(a, b),
    ensures
        !lex_lt(b, a),
    decreases a.len(),
{
    if a.len() > 0 && b.len() > 0 && a[0] == b[0] {
        lemma_lex_asymmetric(a.drop_first(), b.drop_first());
    }
}

/// The order of texts is transitive.
pub proof fn lemma_lex_transitive(a: Seq<char>, b: Seq<char>, c: Seq<char>)
    requires
        lex_lt(a, b),
        lex_lt(b, c),
    ensures
        lex_lt(a, c),
    decreases a.len(),
{
    if a.len() > 0 && b.len() > 0 && c.len() > 0 && a[0] == b[0] && b[0] == c[0] {
        lemma_lex_transitive(a.drop_first(), b.drop_first(), c.drop_first());
    }
}

/// If `b` does not come before `a` and `c` does not come before `b`, then
/// `c` does not come before `a`.
pub proof fn lemma_lex_not_before(a: Seq<char>, b: Seq<char>, c: Seq<char>)
    requires
        !lex_lt(b, a),
        !lex_lt(c, b),
    ensures
        !lex_lt(c, a),
{
    lemma_lex_total(a, b);
    lemma_lex_total(b, c);
    if lex_lt(c, a) {
        if a == b {
        } else if b == c {
        } else {
            lemma_lex_transitive(c, a, b);
        }
    }
}

/// Every parameter of a list with `x` inserted is `x` or a parameter of the
/// list, and the list has grown by one.
pub proof fn lemma_insert_members(s: Seq<ArgView>, x: ArgView)
    ensures
        insert_by_name(s, x).len() == s.len() + 1,
        forall|i: int|
            0 <= i < insert_by_name(s, x).len() ==> (#[trigger] insert_by_name(s, x)[i]) == x || s.contains(
                insert_by_name(s, x)[i],
            ),
        insert_by_name(s, x).to_multiset() == s.to_multiset().insert(x),
    decreases s.len(),
{
    broadcast use vstd::seq_lib::group_to_multiset_ensures;

    let r = insert_by_name(s, x);
    if s.len() > 0 && lex_lt(x.name, s.last().name) {
        let inner = insert_by_name(s.drop_last(), x);
        lemma_insert_members(s.drop_last(), x);
        assert(r == inner.push(s.last()));
        assert forall|i: int| 0 <= i < r.len() implies (#[trigger] r[i]) == x || s.contains(r[i]) by {
            if i < inner.len() {
                assert(r[i] == inner[i]);
                if inner[i] != x {
                    let k = choose|k: int| 0 <= k < s.drop_last().len() && s.drop_last()[k] == inner[i];
                    assert(s[k] == inner[i]);
                }
            } else {
                assert(r[i] == s[s.len() - 1]);
            }
        }
        assert(s =~= s.drop_last().push(s.last()));
        assert(s.to_multiset() == s.drop_last().to_multiset().insert(s.last()));
        assert(r.to_multiset() =~= s.to_multiset().insert(x));
    } else {
        assert forall|i: int| 0 <= i < r.len() implies (#[trigger] r[i]) == x || s.contains(r[i]) by {
            if i < s.len() {
                assert(r[i] == s[i]);
            }
        }
    }
}

/// A list that is ordered by name stays so when a parameter is inserted.
pub proof fn lemma_insert_ordered(s: Seq<ArgView>, x: ArgView)
    requires
        ordered_by_name(s),
    ensures
        ordered_by_name(insert_by_name(s, x)),
    decreases s.len(),
{
    let r = insert_by_name(s, x);
    if s.len() > 0 && lex_lt(x.name, s.last().name) {
        let rest = s.drop_last();
        let inner = insert_by_name(rest, x);
        assert forall|i: int, j: int| 0 <= i < j < rest.len() implies !lex_lt(
            (#[trigger] rest[j]).name,
            (#[trigger] rest[i]).name,
        ) by {
            assert(rest[i] == s[i] && rest[j] == s[j]);
        }
        lemma_insert_ordered(rest, x);
        lemma_insert_members(rest, x);
        assert forall|i: int, j: int| 0 <= i < j < r.len() implies !lex_lt(
            (#[trigger] r[j]).name,
            (#[trigger] r[i]).name,
        ) by {
            if j < inner.len() {
                assert(r[i] == inner[i] && r[j] == inner[j]);
            } else {
                assert(r[j] == s.last());
                assert(r[i] == inner[i]);
                if inner[i] == x {
                    lemma_lex_asymmetric(x.name, s.last().name);
                } else {
                    let k = choose|k: int| 0 <= k < rest.len() && rest[k] == inner[i];
                    assert(s[k] == inner[i]);
                    assert(s[s.len() - 1] == s.last());
                }
            }
        }
    } else {
        assert forall|i: int, j: int| 0 <= i < j < r.len() implies !lex_lt(
            (#[trigger] r[j]).name,
            (#[trigger] r[i]).name,
        ) by {
            if j < s.len() {
                assert(r[i] == s[i] && r[j] == s[j]);
            } else {
                assert(r[j] == x);
                assert(r[i] == s[i]);
                if s.len() > 0 {
                    // x does not come before the last, and the last not
                    // before any other.
                    if i < s.len() - 1 {
                        assert(!lex_lt(s[s.len() - 1].name, s[i].name));
                    } else {
                        lemma_lex_irreflexive(s[i].name);
                    }
                    lemma_lex_not_before(s[i].name, s.last().name, x.name);
                }
            }
        }
    }
}

/// The parameters of a finished statement are ordered by name, and they are
/// the parameters that were written, each as often as it was written.
pub proof fn lemma_sorted_by_name(s: Seq<ArgView>)
    ensures
        ordered_by_name(sorted_by_name(s)),
        sorted_by_name(s).to_multiset() == s.to_multiset(),
        sorted_by_name(s).len() == s.len(),
    decreases s.len(),
{
    broadcast use vstd::seq_lib::group_to_multiset_ensures;

    if s.len() > 0 {
        lemma_sorted_by_name(s.drop_last());
        lemma_insert_ordered(sorted_by_name(s.drop_last()), s.last());
        lemma_insert_members(sorted_by_name(s.drop_last()), s.last());
        assert(s =~= s.drop_last().push(s.last()));
        assert(s.to_multiset() == s.drop_last().to_multiset().insert(s.last()));
    }
}

} // verus!
