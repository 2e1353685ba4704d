//! The reader: from text to a value of the surface syntax.
//!
//! Whitespace and commas separate values, and a semicolon starts a comment
//! that runs to the end of its line. Atoms are `nil`, `true`, `false`,
//! integers, floating-point numbers, strings, keywords and symbols.
//! Collections are vectors `[…]`, lists `(…)`, maps `{…}` and sets `#{…}`.
//! `#uuid "…"` and `#inst "…"` read a UUID and an instant.

use vstd::prelude::*;
use crate::edn::{Value, ValueView, lemma_all_values_view, value_views};
use crate::symbols::{Keyword, NamespacedKeyword, NamespacedSymbol, PlainSymbol, Qualified};
use crate::text::{chars_to_string, str_to_chars};
use crate::values::{
    Double, Uuid, after_sign, digit_run, is_digit, is_float_literal, skip_digits, skip_sign,
};

verus! {

/// The text is no value of the surface syntax.
#[derive(Clone, Copy, Debug, PartialEq, Eq)]
pub struct EdnParseError;

/// The sixteen bytes of the UUID that a text writes, in any of the forms
/// that the `uuid` crate reads.
pub uninterp spec fn uuid_bytes(text: Seq<char>) -> Option<Seq<u8>>;

/// `uuid::Uuid::parse_str` reads hexadecimal digits with optional hyphens,
/// in the simple, hyphenated, URN and braced forms; what it reads depends on
/// the text alone. The bytes are those of `Uuid::as_bytes`.
#[verifier::external_body]
fn parse_uuid(text: &str) -> (r: Option<Uuid>)
    ensures
        r is Some <==> uuid_bytes(text@) is Some,
        r is Some ==> r->0@ == uuid_bytes(text@)->0,
{
    match uuid::Uuid::parse_str(text) {
        Ok(u) => Some(Uuid { bytes: *u.as_bytes() }),
        Err(_) => None,
    }
}

/// The microseconds since the epoch of the instant that a text writes in
/// the format of RFC 3339.
pub uninterp spec fn instant_micros(text: Seq<char>) -> Option<int>;

/// `chrono::DateTime::parse_from_rfc3339` reads a date and time with its
/// offset; what it reads depends on the text alone. The number is that of
/// `DateTime::timestamp_micros`.
#[verifier::external_body]
fn parse_instant(text: &str) -> (r: Option<i64>)
    ensures
        r is Some <==> instant_micros(text@) is Some,
        r is Some ==> r->0 as int == instant_micros(text@)->0,
{
    match chrono::DateTime::parse_from_rfc3339(text) {
        Ok(dt) => Some(dt.timestamp_micros()),
        Err(_) => None,
    }
}

/// Whether `c` separates values.
pub open spec fn is_ws(c: char) -> bool {
    c == ' ' || c == '\t' || c == '\n' || c == '\r' || c == ','
}

/// Whether `c` can stand in a symbol or a keyword.
pub open spec fn is_symbol_char(c: char) -> bool {
    ('a' <= c <= 'z') || ('A' <= c <= 'Z') || ('0' <= c <= '9') || c == '.' || c == '*' || c == '+'
        || c == '!' || c == '-' || c == '_' || c == '?' || c == '$' || c == '%' || c == '&' || c
        == '=' || c == '<' || c == '>' || c == '/'
}

/// The position of the end of the line that holds `pos`.
pub open spec fn line_end(s: Seq<char>, pos: int) -> int
    decreases s.len() - pos,
{
    if pos < 0 || pos >= s.len() {
        s.len() as int
    } else if s[pos] == '\n' {
        pos
    } else {
        line_end(s, pos + 1)
    }
}

/// The position of the first character at or after `pos` that is neither a
/// separator nor part of a comment.
pub open spec fn skip_ws(s: Seq<char>, pos: int) -> int
    decreases s.len() - pos,
{
    if pos < 0 || pos >= s.len() {
        pos
    } else if is_ws(s[pos]) {
        skip_ws(s, pos + 1)
    } else if s[pos] == ';' {
        let e = line_end(s, pos + 1);
        if pos < e <= s.len() {
            skip_ws(s, e)
        } else {
            pos
        }
    } else {
        pos
    }
}

/// The position after the symbol characters that start at `pos`.
pub open spec fn token_end(s: Seq<char>, pos: int) -> int
    decreases s.len() - pos,
{
    if pos < 0 || pos >= s.len() {
        pos
    } else if is_symbol_char(s[pos]) {
        token_end(s, pos + 1)
    } else {
        pos
    }
}

/// The number that decimal digits write.
pub open spec fn digits_value(s: Seq<char>) -> int
    decreases s.len(),
{
    if s.len() == 0 {
        0
    } else {
        digits_value(s.drop_last()) * 10 + (s.last() as int - '0' as int)
    }
}

/// Whether `t` is an integer literal: an optional sign and digits.
pub open spec fn is_int_literal(t: Seq<char>) -> bool {
    let a = after_sign(t, 0);
    a < t.len() && digit_run(t, a) == t.len() - a
}

/// The number that an integer literal writes.
pub open spec fn int_literal_value(t: Seq<char>) -> int {
    let a = after_sign(t, 0);
    let magnitude = digits_value(t.subrange(a, t.len() as int));
    if t[0] == '-' {
        -magnitude
    } else {
        magnitude
    }
}

/// The position of the first `/` of `t`, or its length.
pub open spec fn slash_position(t: Seq<char>, from: int) -> int
    decreases t.len() - from,
{
    if from < 0 || from >= t.len() {
        t.len() as int
    } else if t[from] == '/' {
        from
    } else {
        slash_position(t, from + 1)
    }
}

/// The namespace and name of `t`, where `t` has both: something before its
/// first `/` and something after.
pub open spec fn qualified_of(t: Seq<char>) -> Option<Qualified> {
    let i = slash_position(t, 0);
    if 0 < i && i < t.len() - 1 {
        Some(Qualified { namespace: t.subrange(0, i), name: t.subrange(i + 1, t.len() as int) })
    } else {
        None
    }
}

/// Whether `t` starts as a number does: with a digit, or a sign and a digit.
pub open spec fn starts_like_number(t: Seq<char>) -> bool {
    let a = after_sign(t, 0);
    a < t.len() && is_digit(t[a])
}

/// The atom that the token `t` writes.
pub open spec fn atom_of(t: Seq<char>) -> Option<ValueView> {
    if t.len() == 0 {
        None
    } else if t == "nil"@ {
        Some(ValueView::Nil)
    } else if t == "true"@ {
        Some(ValueView::Boolean(true))
    } else if t == "false"@ {
        Some(ValueView::Boolean(false))
    } else if is_int_literal(t) {
        let n = int_literal_value(t);
        if i64::MIN <= n <= i64::MAX {
            Some(ValueView::Integer(n))
        } else {
            None
        }
    } else if is_float_literal(t) {
        Some(ValueView::Float(t))
    } else if starts_like_number(t) {
        None
    } else {
        match qualified_of(t) {
            Some(q) => Some(ValueView::NamespacedSymbol(q)),
            None => Some(ValueView::PlainSymbol(t)),
        }
    }
}

/// The keyword that the token `t` writes after its colon.
pub open spec fn keyword_of(t: Seq<char>) -> Option<ValueView> {
    if t.len() == 0 {
        None
    } else {
        match qualified_of(t) {
            Some(q) => Some(ValueView::NamespacedKeyword(q)),
            None => Some(ValueView::Keyword(t)),
        }
    }
}

/// The character that an escape in a string stands for.
pub open spec fn unescaped(c: char) -> Option<char> {
    if c == '"' {
        Some('"')
    } else if c == '\\' {
        Some('\\')
    } else if c == 'n' {
        Some('\n')
    } else if c == 't' {
        Some('\t')
    } else if c == 'r' {
        Some('\r')
    } else {
        None
    }
}

/// The rest of a string from `pos`, after the characters `acc`: the text of
/// the string, and the position after its closing quote.
pub open spec fn string_body(s: Seq<char>, pos: int, acc: Seq<char>) -> Option<(Seq<char>, int)>
    decreases s.len() - pos,
{
    if pos < 0 || pos >= s.len() {
        None
    } else if s[pos] == '"' {
        Some((acc, pos + 1))
    } else if s[pos] == '\\' {
        if pos + 1 < s.len() && unescaped(s[pos + 1]) is Some {
            string_body(s, pos + 2, acc.push(unescaped(s[pos + 1])->0))
        } else {
            None
        }
    } else {
        string_body(s, pos + 1, acc.push(s[pos]))
    }
}

/// The string that starts at `pos` with a quote.
pub open spec fn read_string(s: Seq<char>, pos: int) -> Option<(Seq<char>, int)> {
    if 0 <= pos < s.len() && s[pos] == '"' {
        string_body(s, pos + 1, seq![])
    } else {
        None
    }
}

/// The value that a tag and its string write.
pub open spec fn tagged_of(tag: Seq<char>, text: Seq<char>) -> Option<ValueView> {
    if tag == "uuid"@ {
        match uuid_bytes(text) {
            Some(b) => Some(ValueView::Uuid(b)),
            None => None,
        }
    } else if tag == "inst"@ {
        match instant_micros(text) {
            Some(m) => if i64::MIN <= m <= i64::MAX {
                Some(ValueView::Instant(m))
            } else {
                None
            },
            None => None,
        }
    } else {
        None
    }
}

/// The value that starts at or after `pos`, and the position after it.
pub open spec fn read_value(s: Seq<char>, pos: int) -> Option<(ValueView, int)>
    decreases s.len() - pos, 1int,
{
    let p = skip_ws(s, pos);
    if pos < 0 || p < pos || p >= s.len() {
        None
    } else if s[p] == '[' {
        match read_items(s, p + 1, ']', seq![]) {
            Some((items, e)) => Some((ValueView::Vector(items), e)),
            None => None,
        }
    } else if s[p] == '(' {
        match read_items(s, p + 1, ')', seq![]) {
            Some((items, e)) => Some((ValueView::List(items), e)),
            None => None,
        }
    } else if s[p] == '{' {
        match read_items(s, p + 1, '}', seq![]) {
            Some((items, e)) => Some((ValueView::Mapping(items), e)),
            None => None,
        }
    } else if s[p] == '#' {
        if p + 1 < s.len() && s[p + 1] == '{' {
            match read_items(s, p + 2, '}', seq![]) {
                Some((items, e)) => Some((ValueView::SetOf(items), e)),
                None => None,
            }
        } else {
            let e = token_end(s, p + 1);
            if e < p + 1 {
                None
            } else {
                match read_string(s, skip_ws(s, e)) {
                    Some((text, e2)) => match tagged_of(s.subrange(p + 1, e), text) {
                        Some(v) => Some((v, e2)),
                        None => None,
                    },
                    None => None,
                }
            }
        }
    } else if s[p] == '"' {
        match read_string(s, p) {
            Some((text, e)) => Some((ValueView::Text(text), e)),
            None => None,
        }
    } else if s[p] == ':' {
        let e = token_end(s, p + 1);
        if e < p + 1 {
            None
        } else {
            match keyword_of(s.subrange(p + 1, e)) {
                Some(k) => Some((k, e)),
                None => None,
            }
        }
    } else {
        let e = token_end(s, p);
        if e <= p {
            None
        } else {
            match atom_of(s.subrange(p, e)) {
                Some(a) => Some((a, e)),
                None => None,
            }
        }
    }
}

/// The members of a collection from `pos` up to the closing character, after
/// the members `acc`, and the position after the closing character.
pub open spec fn read_items(s: Seq<char>, pos: int, close: char, acc: Seq<ValueView>) -> Option<(Seq<ValueView>, int)>
    decreases s.len() - pos, 2int,
{
    let p = skip_ws(s, pos);
    if pos < 0 || p < pos || p >= s.len() {
        None
    } else if s[p] == close {
        Some((acc, p + 1))
    } else {
        match read_value(s, p) {
            Some((v, e)) => if p < e <= s.len() {
                read_items(s, e, close, acc.push(v))
            } else {
                None
            },
            None => None,
        }
    }
}

/// The value that a text writes: one value, and nothing after it but
/// separators and comments.
pub open spec fn read(s: Seq<char>) -> Option<ValueView> {
    match read_value(s, 0) {
        Some((v, e)) => if skip_ws(s, e) >= s.len() {
            Some(v)
        } else {
            None
        },
        None => None,
    }
}

fn line_end_at(s: &Vec<char>, pos: usize) -> (r: usize)
    requires
        pos <= s@.len(),
    ensures
        r == line_end(s@, pos as int),
        pos <= r <= s@.len(),
{
    let mut i: usize = pos;
    while i < s.len() && s[i] != '\n'
        invariant
            pos <= i <= s@.len(),
            line_end(s@, pos as int) == line_end(s@, i as int),
        decreases s@.len() - i,
    {
        i += 1;
    }
    i
}

fn skip_ws_at(s: &Vec<char>, pos: usize) -> (r: usize)
    requires
        pos <= s@.len(),
    ensures
        r == skip_ws(s@, pos as int),
        pos <= r <= s@.len(),
{
    let mut i: usize = pos;
    while i < s.len()
        invariant
            pos <= i <= s@.len(),
            skip_ws(s@, pos as int) == skip_ws(s@, i as int),
        decreases s@.len() - i,
    {
        let c = s[i];
        if c == ' ' || c == '\t' || c == '\n' || c == '\r' || c == ',' {
            i += 1;
        } else if c == ';' {
            i = line_end_at(s, i + 1);
        } else {
            return i;
        }
    }
    i
}

fn symbol_char(c: char) -> (r: bool)
    ensures
        r == is_symbol_char(c),
{
    ('a' <= c && c <= 'z') || ('A' <= c && c <= 'Z') || ('0' <= c && c <= '9') || c == '.' || c
        == '*' || c == '+' || c == '!' || c == '-' || c == '_' || c == '?' || c == '$' || c == '%'
        || c == '&' || c == '=' || c == '<' || c == '>' || c == '/'
}

fn token_end_at(s: &Vec<char>, pos: usize) -> (r: usize)
    requires
        pos <= s@.len(),
    ensures
        r == token_end(s@, pos as int),
        pos <= r <= s@.len(),
{
    let mut i: usize = pos;
    while i < s.len() && symbol_char(s[i])
        invariant
            pos <= i <= s@.len(),
            token_end(s@, pos as int) == token_end(s@, i as int),
        decreases s@.len() - i,
    {
        i += 1;
    }
    i
}

fn slice_of(s: &Vec<char>, from: usize, to: usize) -> (r: Vec<char>)
    requires
        from <= to <= s@.len(),
    ensures
        r@ == s@.subrange(from as int, to as int),
{
    let mut out: Vec<char> = Vec::new();
    let mut i: usize = from;
    while i < to
        invariant
            from <= i <= to <= s@.len(),
            out@ == s@.subrange(from as int, i as int),
        decreases to - i,
    {
        out.push(s[i]);
        assert(out@ =~= s@.subrange(from as int, i + 1));
        i += 1;
    }
    out
}

/// Every character of a run of digits is a digit.
pub proof fn lemma_digit_run(s: Seq<char>, i: int, j: int)
    requires
        0 <= i <= j < i + digit_run(s, i),
    ensures
        j < s.len(),
        is_digit(s[j]),
    decreases j - i,
{
    if i < j {
        lemma_digit_run(s, i + 1, j);
    }
}

/// More digits do not write a smaller number.
pub proof fn lemma_digits_grow(s: Seq<char>, i: int, j: int)
    requires
        0 <= i <= j <= s.len(),
        forall|k: int| 0 <= k < s.len() ==> is_digit(#[trigger] s[k]),
    ensures
        0 <= digits_value(s.subrange(0, i)) <= digits_value(s.subrange(0, j)),
    decreases j,
{
    if j == 0 {
        assert(s.subrange(0, 0) =~= Seq::<char>::empty());
    } else if i < j {
        lemma_digits_grow(s, i, j - 1);
        let t = s.subrange(0, j);
        assert(t.drop_last() =~= s.subrange(0, j - 1));
        assert(t.last() == s[j - 1]);
    } else {
        if j > 0 {
            lemma_digits_grow(s, i - 1, j - 1);
            let t = s.subrange(0, j);
            assert(t.drop_last() =~= s.subrange(0, j - 1));
            assert(t.last() == s[j - 1]);
        }
    }
}

fn int_of(t: &Vec<char>) -> (r: Option<i64>)
    requires
        is_int_literal(t@),
    ensures
        r is Some <==> i64::MIN <= int_literal_value(t@) <= i64::MAX,
        r is Some ==> r->0 as int == int_literal_value(t@),
{
    let a = skip_sign(t, 0);
    let negative = t[0] == '-';
    let ghost digits = t@.subrange(a as int, t@.len() as int);
    proof {
        assert forall|k: int| 0 <= k < digits.len() implies is_digit(#[trigger] digits[k]) by {
            lemma_digit_run(t@, a as int, a + k);
        }
        assert(digits.subrange(0, 0) =~= Seq::<char>::empty());
    }
    let mut mag: u64 = 0;
    let mut i: usize = a;
    while i < t.len()
        invariant
            a <= i <= t@.len(),
            a == after_sign(t@, 0),
            digits == t@.subrange(a as int, t@.len() as int),
            forall|k: int| 0 <= k < digits.len() ==> is_digit(#[trigger] digits[k]),
            mag == digits_value(digits.subrange(0, i - a)),
        decreases t@.len() - i,
    {
        let c = t[i];
        assert(c == digits[i - a]);
        let d: u64 = (c as u32 - '0' as u32) as u64;
        let ghost next = digits.subrange(0, i - a + 1);
        proof {
            assert(next.drop_last() =~= digits.subrange(0, i - a));
            assert(next.last() == c);
        }
        assert(digits_value(next) == mag * 10 + d);
        if mag > (u64::MAX - d) / 10 {
            proof {
                assert(mag * 10 + d > u64::MAX);
                lemma_digits_grow(digits, i - a + 1, digits.len() as int);
                assert(digits.subrange(0, digits.len() as int) =~= digits);
            }
            return None;
        }
        mag = mag * 10 + d;
        i += 1;
    }
    proof {
        assert(digits.subrange(0, i - a) =~= digits);
    }
    if negative {
        if mag <= 9223372036854775807u64 {
            Some(-(mag as i64))
        } else if mag == 9223372036854775808u64 {
            Some(i64::MIN)
        } else {
            None
        }
    } else {
        if mag <= 9223372036854775807u64 {
            Some(mag as i64)
        } else {
            None
        }
    }
}

fn is_int(t: &Vec<char>) -> (r: bool)
    ensures
        r == is_int_literal(t@),
{
    let a = skip_sign(t, 0);
    let b = skip_digits(t, a);
    a < t.len() && b == t.len()
}

/// The position of the first slash; the length of the text where there is
/// none.
pub fn slash_at(t: &Vec<char>) -> (r: usize)
    ensures
        r == slash_position(t@, 0),
        r <= t@.len(),
{
    let mut i: usize = 0;
    while i < t.len() && t[i] != '/'
        invariant
            i <= t@.len(),
            slash_position(t@, 0) == slash_position(t@, i as int),
        decreases t@.len() - i,
    {
        i += 1;
    }
    i
}

fn same_text(t: &Vec<char>, lit: &str) -> (r: bool)
    ensures
        r == (t@ == lit@),
{
    let s = chars_to_string(t, 0, t.len());
    assert(s@ =~= t@);
    s.as_str().eq(lit)
}

fn atom(t: &Vec<char>) -> (r: Option<Value>)
    ensures
        match atom_of(t@) {
            Some(v) => r is Some && r->0@ == v,
            None => r is None,
        },
{
    if t.len() == 0 {
        return None;
    }
    if same_text(t, "nil") {
        return Some(Value::Nil);
    }
    if same_text(t, "true") {
        return Some(Value::Boolean(true));
    }
    if same_text(t, "false") {
        return Some(Value::Boolean(false));
    }
    if is_int(t) {
        return match int_of(t) {
            Some(n) => Some(Value::Integer(n)),
            None => None,
        };
    }
    match Double::from_chars(t) {
        Some(d) => {
            return Some(Value::Float(d));
        },
        None => {},
    }
    let a = skip_sign(t, 0);
    if a < t.len() && '0' <= t[a] && t[a] <= '9' {
        return None;
    }
    let i = slash_at(t);
    if 0 < i && i < t.len() - 1 {
        let namespace = chars_to_string(t, 0, i);
        let name = chars_to_string(t, i + 1, t.len());
        Some(Value::NamespacedSymbol(NamespacedSymbol { namespace, name }))
    } else {
        let name = chars_to_string(t, 0, t.len());
        assert(name@ =~= t@);
        Some(Value::PlainSymbol(PlainSymbol(name)))
    }
}

fn keyword(t: &Vec<char>) -> (r: Option<Value>)
    ensures
        match keyword_of(t@) {
            Some(v) => r is Some && r->0@ == v,
            None => r is None,
        },
{
    if t.len() == 0 {
        return None;
    }
    let i = slash_at(t);
    if 0 < i && i < t.len() - 1 {
        let namespace = chars_to_string(t, 0, i);
        let name = chars_to_string(t, i + 1, t.len());
        Some(Value::NamespacedKeyword(NamespacedKeyword { namespace, name }))
    } else {
        let name = chars_to_string(t, 0, t.len());
        assert(name@ =~= t@);
        Some(Value::Keyword(Keyword(name)))
    }
}

fn unescape(c: char) -> (r: Option<char>)
    ensures
        r == unescaped(c),
{
    if c == '"' {
        Some('"')
    } else if c == '\\' {
        Some('\\')
    } else if c == 'n' {
        Some('\n')
    } else if c == 't' {
        Some('\t')
    } else if c == 'r' {
        Some('\r')
    } else {
        None
    }
}

fn read_string_at(s: &Vec<char>, pos: usize) -> (r: Option<(String, usize)>)
    requires
        pos <= s@.len(),
    ensures
        match read_string(s@, pos as int) {
            Some((text, e)) => r is Some && (r->0).0@ == text && (r->0).1 == e && pos < e <= s@.len(),
            None => r is None,
        },
{
    if !(pos < s.len() && s[pos] == '"') {
        return None;
    }
    let mut out = String::new();
    let mut i: usize = pos + 1;
    while i < s.len()
        invariant
            pos < i <= s@.len(),
            s@[pos as int] == '"',
            string_body(s@, pos + 1, seq![]) == string_body(s@, i as int, out@),
        decreases s@.len() - i,
    {
        let c = s[i];
        if c == '"' {
            return Some((out, i + 1));
        } else if c == '\\' {
            if i + 1 < s.len() {
                match unescape(s[i + 1]) {
                    Some(ch) => {
                        out.push(ch);
                        i += 2;
                    },
                    None => {
                        return None;
                    },
                }
            } else {
                return None;
            }
        } else {
            out.push(c);
            i += 1;
        }
    }
    None
}

fn tagged(tag: &Vec<char>, text: &str) -> (r: Option<Value>)
    ensures
        match tagged_of(tag@, text@) {
            Some(v) => r is Some && r->0@ == v,
            None => r is None,
        },
{
    if same_text(tag, "uuid") {
        match parse_uuid(text) {
            Some(u) => Some(Value::Uuid(u)),
            None => None,
        }
    } else if same_text(tag, "inst") {
        match parse_instant(text) {
            Some(m) => Some(Value::Instant(m)),
            None => None,
        }
    } else {
        None
    }
}

fn read_value_at(s: &Vec<char>, pos: usize) -> (r: Option<(Value, usize)>)
    requires
        pos <= s@.len(),
    ensures
        match read_value(s@, pos as int) {
            Some((v, e)) => r is Some && (r->0).0@ == v && (r->0).1 == e && pos < e <= s@.len(),
            None => r is None,
        },
    decreases s@.len() - pos, 1int,
{
    let p = skip_ws_at(s, pos);
    if p >= s.len() {
        return None;
    }
    let c = s[p];
    if c == '[' {
        match read_items_at(s, p + 1, ']') {
            Some((items, e)) => {
                proof {
                    lemma_all_values_view(items@);
                }
                Some((Value::Vector(items), e))
            },
            None => None,
        }
    } else if c == '(' {
        match read_items_at(s, p + 1, ')') {
            Some((items, e)) => {
                proof {
                    lemma_all_values_view(items@);
                }
                Some((Value::List(items), e))
            },
            None => None,
        }
    } else if c == '{' {
        match read_items_at(s, p + 1, '}') {
            Some((items, e)) => {
                proof {
                    lemma_all_values_view(items@);
                }
                Some((Value::Mapping(items), e))
            },
            None => None,
        }
    } else if c == '#' {
        if p + 1 < s.len() && s[p + 1] == '{' {
            match read_items_at(s, p + 2, '}') {
                Some((items, e)) => {
                    proof {
                        lemma_all_values_view(items@);
                    }
                    Some((Value::SetOf(items), e))
                },
                None => None,
            }
        } else {
            let e = token_end_at(s, p + 1);
            let tag = slice_of(s, p + 1, e);
            let q = skip_ws_at(s, e);
            match read_string_at(s, q) {
                Some((text, e2)) => match tagged(&tag, text.as_str()) {
                    Some(v) => Some((v, e2)),
                    None => None,
                },
                None => None,
            }
        }
    } else if c == '"' {
        match read_string_at(s, p) {
            Some((text, e)) => Some((Value::Text(text), e)),
            None => None,
        }
    } else if c == ':' {
        let e = token_end_at(s, p + 1);
        let t = slice_of(s, p + 1, e);
        match keyword(&t) {
            Some(k) => Some((k, e)),
            None => None,
        }
    } else {
        let e = token_end_at(s, p);
        if e <= p {
            return None;
        }
        let t = slice_of(s, p, e);
        match atom(&t) {
            Some(a) => Some((a, e)),
            None => None,
        }
    }
}

fn read_items_at(s: &Vec<char>, pos: usize, close: char) -> (r: Option<(Vec<Value>, usize)>)
    requires
        pos <= s@.len(),
    ensures
        match read_items(s@, pos as int, close, seq![]) {
            Some((items, e)) => r is Some && value_views((r->0).0@) == items && (r->0).1 == e && pos < e
                <= s@.len(),
            None => r is None,
        },
    decreases s@.len() - pos, 2int,
{
    let mut out: Vec<Value> = Vec::new();
    let mut i: usize = pos;
    assert(value_views(out@) =~= Seq::<ValueView>::empty());
    loop
        invariant
            pos <= i <= s@.len(),
            read_items(s@, pos as int, close, seq![]) == read_items(s@, i as int, close, value_views(out@)),
        decreases s@.len() - i,
    {
        let p = skip_ws_at(s, i);
        if p >= s.len() {
            return None;
        }
        if s[p] == close {
            return Some((out, p + 1));
        }
        match read_value_at(s, p) {
            Some((v, e)) => {
                let ghost before = value_views(out@);
                out.push(v);
                assert(value_views(out@) =~= before.push(v@));
                i = e;
            },
            None => {
                return None;
            },
        }
    }
}

/// The value that `text` writes.
pub fn value(text: &str) -> (r: Result<Value, EdnParseError>)
    ensures
        match read(text@) {
            Some(v) => r is Ok && r->Ok_0@ == v,
            None => r is Err,
        },
{
    let chars = str_to_chars(text);
    match read_value_at(&chars, 0) {
        Some((v, e)) => {
            if skip_ws_at(&chars, e) >= chars.len() {
                Ok(v)
            } else {
                Err(EdnParseError)
            }
        },
        None => Err(EdnParseError),
    }
}

} // verus!
