//! What the interactive prompt computes before it prints: the name of the
//! store, keywords read from arguments, elapsed times, help, and values,
//! results and plans as text.

use vstd::prelude::*;
use crate::command::{debug_string, debug_text};
use crate::projector::QueryResults;
use crate::query::Variable;
use crate::relresult::RelResult;
use crate::symbols::{NamespacedKeyword, Qualified, keyword_text};
use crate::text::{chars_to_string, int_decimal, push_i64, str_to_chars};
use crate::values::{TypedValue, Uuid};

verus! {

/// The name under which the store at `path` is shown: a store without a
/// path is in memory.
pub open spec fn db_name_text(path: Seq<char>) -> Seq<char> {
    if path.len() == 0 {
        "in-memory db"@
    } else {
        path
    }
}

/// The name under which the store at `path` is shown.
pub fn db_name(path: &str) -> (r: String)
    ensures
        r@ == db_name_text(path@),
{
    let mut out = String::new();
    if path.unicode_len() == 0 {
        out.push_str("in-memory db");
    } else {
        out.push_str(path);
    }
    assert(out@ =~= db_name_text(path@));
    out
}

/// Whether a store is to be opened at `path` while the one at `current` is
/// open: always from a store in memory, and otherwise where the path is
/// another.
pub fn opens_another(current: &str, path: &str) -> (r: bool)
    ensures
        r == (current@.len() == 0 || path@ != current@),
{
    current.unicode_len() == 0 || !path.eq(current)
}

/// Whether `c` parts a keyword.
pub open spec fn is_separator(c: char) -> bool {
    c == ':' || c == '/'
}

/// The position of the first separator at or after `from`; the length of
/// the text where there is none.
pub open spec fn next_separator(s: Seq<char>, from: int) -> int
    decreases s.len() - from,
{
    if from < 0 || from >= s.len() {
        s.len() as int
    } else if is_separator(s[from]) {
        from
    } else {
        next_separator(s, from + 1)
    }
}

/// The parts of a keyword written as `:namespace/name`: the text must
/// begin with a separator and hold exactly one more, and the parts are what
/// stands between them and after them.
pub open spec fn keyword_parts(input: Seq<char>) -> Option<Qualified> {
    let second = next_separator(input, 1);
    if input.len() > 0 && is_separator(input[0]) && second < input.len() && next_separator(input, second + 1)
        == input.len() {
        Some(
            Qualified {
                namespace: input.subrange(1, second),
                name: input.subrange(second + 1, input.len() as int),
            },
        )
    } else {
        None
    }
}

fn separator_from(s: &Vec<char>, from: usize) -> (r: usize)
    requires
        from <= s@.len(),
    ensures
        r == next_separator(s@, from as int),
        from <= r <= s@.len(),
{
    let mut i: usize = from;
    while i < s.len() && s[i] != ':' && s[i] != '/'
        invariant
            from <= i <= s@.len(),
            next_separator(s@, from as int) == next_separator(s@, i as int),
        decreases s@.len() - i,
    {
        i += 1;
    }
    i
}

/// Reads a keyword written as `:namespace/name`. Neither part may be
/// empty.
pub fn parse_namespaced_keyword(input: &str) -> (r: Option<NamespacedKeyword>)
    requires
        keyword_parts(input@) matches Some(q) ==> q.namespace.len() > 0 && q.name.len() > 0,
    ensures
        r is Some <==> keyword_parts(input@) is Some,
        r is Some ==> r->0@ == keyword_parts(input@)->0,
{
    let chars = str_to_chars(input);
    if chars.len() == 0 || (chars[0] != ':' && chars[0] != '/') {
        return None;
    }
    let second = separator_from(&chars, 1);
    if second >= chars.len() {
        return None;
    }
    let third = separator_from(&chars, second + 1);
    if third < chars.len() {
        return None;
    }
    let namespace = chars_to_string(&chars, 1, second);
    let name = chars_to_string(&chars, second + 1, chars.len());
    Some(NamespacedKeyword::new(namespace.as_str(), name.as_str()))
}

/// A thousandth of `n`, rounded towards zero.
pub open spec fn thousandth(n: int) -> int {
    if n >= 0 {
        n / 1000
    } else {
        -((-n) / 1000)
    }
}

fn thousandth_of(n: i64) -> (r: i64)
    ensures
        r == thousandth(n as int),
{
    if n >= 0 {
        n / 1000
    } else if n == i64::MIN {
        -9223372036854775
    } else {
        -((-n) / 1000)
    }
}

/// An elapsed time as a number and its unit.
pub struct ElapsedView {
    pub number: Seq<char>,
    pub unit: Seq<char>,
}

/// How an elapsed time is shown, given its length in nanoseconds and in
/// microseconds, where those fit, and in milliseconds and seconds: in the
/// smallest unit in which the number stays short. Under a thousand
/// nanoseconds it is shown in nanoseconds; under ten thousand microseconds
/// in microseconds; under five thousand milliseconds in milliseconds; and
/// else in seconds. After the point stands the next smaller unit.
pub open spec fn elapsed_text(nanos: Option<i64>, micros: Option<i64>, millis: i64, seconds: i64) -> ElapsedView {
    if nanos is Some && nanos->0 < 1000 {
        ElapsedView { number: int_decimal(nanos->0 as int), unit: "ns"@ }
    } else if micros is Some && micros->0 < 10000 {
        ElapsedView {
            number: int_decimal(micros->0 as int) + "."@ + int_decimal(
                thousandth(
                    match nanos {
                        Some(n) => n as int,
                        None => 0,
                    },
                ),
            ),
            unit: "µs"@,
        }
    } else if millis < 5000 {
        ElapsedView {
            number: int_decimal(millis as int) + "."@ + int_decimal(
                thousandth(
                    match micros {
                        Some(m) => m as int,
                        None => 0,
                    },
                ),
            ),
            unit: "ms"@,
        }
    } else {
        ElapsedView { number: int_decimal(seconds as int) + "."@ + int_decimal(millis as int), unit: "s"@ }
    }
}

/// An elapsed time as a number and its unit.
pub struct Elapsed {
    pub number: String,
    pub unit: &'static str,
}

/// How an elapsed time is shown.
pub fn format_time(nanos: Option<i64>, micros: Option<i64>, millis: i64, seconds: i64) -> (r: Elapsed)
    ensures
        r.number@ == elapsed_text(nanos, micros, millis, seconds).number,
        r.unit@ == elapsed_text(nanos, micros, millis, seconds).unit,
{
    let mut number = String::new();
    match nanos {
        Some(n) => {
            if n < 1000 {
                push_i64(&mut number, n);
                assert(number@ =~= int_decimal(n as int));
                return Elapsed { number, unit: "ns" };
            }
        },
        None => {},
    }
    match micros {
        Some(m) => {
            if m < 10000 {
                let ns = match nanos {
                    Some(n) => thousandth_of(n),
                    None => 0,
                };
                push_i64(&mut number, m);
                number.push_str(".");
                push_i64(&mut number, ns);
                assert(number@ =~= elapsed_text(nanos, micros, millis, seconds).number);
                return Elapsed { number, unit: "µs" };
            }
        },
        None => {},
    }
    if millis < 5000 {
        let us = match micros {
            Some(m) => thousandth_of(m),
            None => 0,
        };
        push_i64(&mut number, millis);
        number.push_str(".");
        push_i64(&mut number, us);
        assert(number@ =~= elapsed_text(nanos, micros, millis, seconds).number);
        return Elapsed { number, unit: "ms" };
    }
    push_i64(&mut number, seconds);
    number.push_str(".");
    push_i64(&mut number, millis);
    assert(number@ =~= elapsed_text(nanos, micros, millis, seconds).number);
    Elapsed { number, unit: "s" }
}

/// The text that `chrono` shows for the instant so many microseconds after
/// the epoch, in UTC; nothing where the instant is out of the range of its
/// dates.
pub uninterp spec fn instant_shown(micros: int) -> Option<Seq<char>>;

/// `chrono::DateTime::from_timestamp_micros` makes the instant in UTC, or
/// nothing where it is out of range; `Display` then writes its date, its
/// time and `UTC`. Both depend on the number alone.
#[verifier::external_body]
fn show_instant(micros: i64) -> (r: Option<String>)
    ensures
        r is Some <==> instant_shown(micros as int) is Some,
        r is Some ==> r->0@ == instant_shown(micros as int)->0,
{
    match chrono::DateTime::from_timestamp_micros(micros) {
        Some(t) => Some(t.to_string()),
        None => None,
    }
}

/// The hexadecimal digit for a number under sixteen, in lower case.
pub open spec fn hex_digit(n: int) -> char {
    seq!['0', '1', '2', '3', '4', '5', '6', '7', '8', '9', 'a', 'b', 'c', 'd', 'e', 'f'][n]
}

/// The first `n` bytes in hexadecimal, two digits each, with a hyphen
/// before the fifth, the seventh, the ninth and the eleventh byte.
pub open spec fn hyphenated(bytes: Seq<u8>, n: int) -> Seq<char>
    decreases n,
{
    if n <= 0 || n > bytes.len() {
        seq![]
    } else {
        let before = hyphenated(bytes, n - 1);
        let parted = if n == 5 || n == 7 || n == 9 || n == 11 {
            before.push('-')
        } else {
            before
        };
        parted.push(hex_digit(bytes[n - 1] as int / 16)).push(hex_digit(bytes[n - 1] as int % 16))
    }
}

fn hex_char(n: u8) -> (r: char)
    requires
        n < 16,
    ensures
        r == hex_digit(n as int),
{
    match n {
        0 => '0',
        1 => '1',
        2 => '2',
        3 => '3',
        4 => '4',
        5 => '5',
        6 => '6',
        7 => '7',
        8 => '8',
        9 => '9',
        10 => 'a',
        11 => 'b',
        12 => 'c',
        13 => 'd',
        14 => 'e',
        _ => 'f',
    }
}

/// The identifier in its usual form: thirty-two hexadecimal digits in
/// groups of eight, four, four, four and twelve.
pub fn uuid_to_string(u: &Uuid) -> (r: String)
    ensures
        r@ == hyphenated(u@, 16),
{
    let mut out = String::new();
    let mut i: usize = 0;
    while i < 16
        invariant
            i <= 16,
            u@.len() == 16,
            out@ == hyphenated(u@, i as int),
        decreases 16 - i,
    {
        if i == 4 || i == 6 || i == 8 || i == 10 {
            out.push('-');
        }
        let b = u.bytes[i];
        out.push(hex_char(b / 16));
        out.push(hex_char(b % 16));
        i += 1;
    }
    out
}

/// A value as the prompt shows it: numbers in decimal, a keyword with its
/// colon, a string in quotes with its special characters escaped, an
/// instant as its date and time in UTC, or as its number of microseconds
/// where it has no date.
pub open spec fn shown_value(v: TypedValue) -> Seq<char> {
    match v {
        TypedValue::Boolean(b) => if b {
            "true"@
        } else {
            "false"@
        },
        TypedValue::Double(d) => d.literal@,
        TypedValue::Instant(t) => match instant_shown(t as int) {
            Some(s) => s,
            None => int_decimal(t as int),
        },
        TypedValue::Keyword(k) => keyword_text(k@),
        TypedValue::Long(n) => int_decimal(n as int),
        TypedValue::Ref(e) => int_decimal(e as int),
        TypedValue::String(s) => debug_text(s@),
        TypedValue::Uuid(u) => hyphenated(u@, 16),
    }
}

/// A value as the prompt shows it.
pub fn typed_value_as_string(value: &TypedValue) -> (r: String)
    ensures
        r@ == shown_value(*value),
{
    match value {
        TypedValue::Boolean(b) => {
            let mut out = String::new();
            if *b {
                out.push_str("true");
            } else {
                out.push_str("false");
            }
            assert(out@ =~= shown_value(*value));
            out
        },
        TypedValue::Double(d) => d.literal.clone(),
        TypedValue::Instant(t) => match show_instant(*t) {
            Some(s) => s,
            None => crate::text::i64_to_string(*t),
        },
        TypedValue::Keyword(k) => k.to_string(),
        TypedValue::Long(n) => crate::text::i64_to_string(*n),
        TypedValue::Ref(e) => crate::text::i64_to_string(*e),
        TypedValue::String(s) => debug_string(s.as_str()),
        TypedValue::Uuid(u) => uuid_to_string(u),
    }
}

/// The first `n` values, each as a cell of a table: a bar, the value, and
/// a tabulator.
pub open spec fn cells_text(values: Seq<TypedValue>, n: int) -> Seq<char>
    decreases n,
{
    if n <= 0 || n > values.len() {
        seq![]
    } else {
        cells_text(values, n - 1) + "| "@ + shown_value(values[n - 1]) + "\t"@
    }
}

/// The first `n` values, each as a row of its own.
pub open spec fn column_text(values: Seq<TypedValue>, n: int) -> Seq<char>
    decreases n,
{
    if n <= 0 || n > values.len() {
        seq![]
    } else {
        column_text(values, n - 1) + "| "@ + shown_value(values[n - 1]) + "\t|\n"@
    }
}

/// The rows of a relation from the value at `from` on: each row holds
/// `width` values, and the last one those that are left.
pub open spec fn rows_text(values: Seq<TypedValue>, width: int, from: int) -> Seq<char>
    decreases values.len() - from,
{
    if width <= 0 || from < 0 || from >= values.len() {
        seq![]
    } else {
        let to = if from + width <= values.len() {
            from + width
        } else {
            values.len() as int
        };
        cells_text(values.subrange(from, to), to - from) + "|\n"@ + rows_text(values, width, to)
    }
}

/// The names of the first `n` columns, each as a cell.
pub open spec fn header_text(columns: Seq<Variable>, n: int) -> Seq<char>
    decreases n,
{
    if n <= 0 || n > columns.len() {
        seq![]
    } else {
        header_text(columns, n - 1) + "| "@ + columns[n - 1]@ + "\t"@
    }
}

/// A rule under or over `n` columns.
pub open spec fn rule_text(n: int) -> Seq<char>
    decreases n,
{
    if n <= 0 {
        seq![]
    } else {
        rule_text(n - 1) + "---\t"@
    }
}

/// The rows of a result.
pub open spec fn body_text(results: QueryResults) -> Seq<char> {
    match results {
        QueryResults::Scalar(Some(v)) => "| "@ + shown_value(v) + "\t |\n"@,
        QueryResults::Scalar(None) => seq![],
        QueryResults::Tuple(Some(vals)) => cells_text(vals@, vals@.len() as int) + "|\n"@,
        QueryResults::Tuple(None) => seq![],
        QueryResults::Coll(vals) => column_text(vals@, vals@.len() as int),
        QueryResults::Rel(rel) => rows_text(rel.values@, rel.width as int, 0),
    }
}

/// A result as a table whose cells end in tabulators: the names of the
/// columns, a rule, the rows, and a rule.
pub open spec fn results_text(columns: Seq<Variable>, results: QueryResults) -> Seq<char> {
    header_text(columns, columns.len() as int) + "|\n"@ + rule_text(columns.len() as int) + "\n"@ + body_text(
        results,
    ) + rule_text(columns.len() as int) + "\n"@
}

fn push_cells(out: &mut String, values: &Vec<TypedValue>, from: usize, to: usize)
    requires
        from <= to <= values@.len(),
    ensures
        final(out)@ == old(out)@ + cells_text(values@.subrange(from as int, to as int), to - from),
{
    let ghost row = values@.subrange(from as int, to as int);
    let mut i: usize = from;
    assert(out@ =~= old(out)@ + cells_text(row, 0));
    while i < to
        invariant
            from <= i <= to <= values@.len(),
            row == values@.subrange(from as int, to as int),
            out@ == old(out)@ + cells_text(row, i - from),
        decreases to - i,
    {
        let text = typed_value_as_string(&values[i]);
        out.push_str("| ");
        out.push_str(text.as_str());
        out.push_str("\t");
        proof {
            assert(row[i - from] == values@[i as int]);
            assert(out@ =~= old(out)@ + cells_text(row, i + 1 - from));
        }
        i += 1;
    }
}

fn push_column(out: &mut String, values: &Vec<TypedValue>)
    ensures
        final(out)@ == old(out)@ + column_text(values@, values@.len() as int),
{
    let mut i: usize = 0;
    assert(out@ =~= old(out)@ + column_text(values@, 0));
    while i < values.len()
        invariant
            i <= values@.len(),
            out@ == old(out)@ + column_text(values@, i as int),
        decreases values@.len() - i,
    {
        let text = typed_value_as_string(&values[i]);
        out.push_str("| ");
        out.push_str(text.as_str());
        out.push_str("\t|\n");
        assert(out@ =~= old(out)@ + column_text(values@, i + 1));
        i += 1;
    }
}

fn push_rows(out: &mut String, rel: &RelResult<TypedValue>)
    ensures
        final(out)@ == old(out)@ + rows_text(rel.values@, rel.width as int, 0),
{
    let n = rel.values.len();
    if rel.width == 0 {
        assert(out@ =~= old(out)@ + rows_text(rel.values@, rel.width as int, 0));
        return ;
    }
    let mut from: usize = 0;
    let ghost mut done: Seq<char> = seq![];
    assert(out@ =~= old(out)@ + done);
    while from < n
        invariant
            from <= n == rel.values@.len(),
            rel.width > 0,
            out@ == old(out)@ + done,
            done + rows_text(rel.values@, rel.width as int, from as int) == rows_text(
                rel.values@,
                rel.width as int,
                0,
            ),
        decreases n - from,
    {
        let to = if rel.width <= n - from {
            from + rel.width
        } else {
            n
        };
        push_cells(out, &rel.values, from, to);
        out.push_str("|\n");
        proof {
            let row = cells_text(rel.values@.subrange(from as int, to as int), to - from) + "|\n"@;
            assert(rows_text(rel.values@, rel.width as int, from as int) == row + rows_text(
                rel.values@,
                rel.width as int,
                to as int,
            ));
            assert((done + row) + rows_text(rel.values@, rel.width as int, to as int) =~= done + (row
                + rows_text(rel.values@, rel.width as int, to as int)));
            assert(out@ =~= old(out)@ + (done + row));
            done = done + row;
        }
        from = to;
    }
    assert(done + Seq::<char>::empty() =~= done);
}

fn push_header(out: &mut String, columns: &Vec<Variable>)
    ensures
        final(out)@ == old(out)@ + header_text(columns@, columns@.len() as int),
{
    let mut i: usize = 0;
    assert(out@ =~= old(out)@ + header_text(columns@, 0));
    while i < columns.len()
        invariant
            i <= columns@.len(),
            out@ == old(out)@ + header_text(columns@, i as int),
        decreases columns@.len() - i,
    {
        out.push_str("| ");
        out.push_str(columns[i].as_str());
        out.push_str("\t");
        assert(out@ =~= old(out)@ + header_text(columns@, i + 1));
        i += 1;
    }
}

fn push_rule(out: &mut String, n: usize)
    ensures
        final(out)@ == old(out)@ + rule_text(n as int),
{
    let mut i: usize = 0;
    assert(out@ =~= old(out)@ + rule_text(0));
    while i < n
        invariant
            i <= n,
            out@ == old(out)@ + rule_text(i as int),
        decreases n - i,
    {
        out.push_str("---\t");
        assert(out@ =~= old(out)@ + rule_text(i + 1));
        i += 1;
    }
}

fn push_body(out: &mut String, results: &QueryResults)
    ensures
        final(out)@ == old(out)@ + body_text(*results),
{
    match results {
        QueryResults::Scalar(Some(v)) => {
            let text = typed_value_as_string(v);
            out.push_str("| ");
            out.push_str(text.as_str());
            out.push_str("\t |\n");
            assert(out@ =~= old(out)@ + body_text(*results));
        },
        QueryResults::Scalar(None) => {
            assert(out@ =~= old(out)@ + body_text(*results));
        },
        QueryResults::Tuple(Some(vals)) => {
            push_cells(out, vals, 0, vals.len());
            out.push_str("|\n");
            assert(vals@.subrange(0, vals@.len() as int) =~= vals@);
            assert(out@ =~= old(out)@ + body_text(*results));
        },
        QueryResults::Tuple(None) => {
            assert(out@ =~= old(out)@ + body_text(*results));
        },
        QueryResults::Coll(vals) => {
            push_column(out, vals);
        },
        QueryResults::Rel(rel) => {
            push_rows(out, rel);
        },
    }
}

/// A result as a table whose cells end in tabulators, under the names of
/// the variables that the query returns.
pub fn print_results(columns: &Vec<Variable>, results: &QueryResults) -> (r: String)
    ensures
        r@ == results_text(columns@, *results),
{
    let mut out = String::new();
    push_header(&mut out, columns);
    out.push_str("|\n");
    push_rule(&mut out, columns.len());
    out.push_str("\n");
    push_body(&mut out, results);
    push_rule(&mut out, columns.len());
    out.push_str("\n");
    assert(out@ =~= results_text(columns@, *results));
    out
}

/// One step of the plan by which the store carries out a statement.
#[derive(Debug, PartialEq, Eq)]
pub struct QueryPlanStep {
    pub select_id: i32,
    pub order: i32,
    pub from: i32,
    pub detail: String,
}

/// The largest of the first `n` numbers, and at least zero.
pub open spec fn largest(values: Seq<int>, n: int) -> int
    decreases n,
{
    if n <= 0 || n > values.len() {
        0
    } else if values[n - 1] > largest(values, n - 1) {
        values[n - 1]
    } else {
        largest(values, n - 1)
    }
}

/// The numbers of the statements to which the steps belong.
pub open spec fn select_ids(steps: Seq<QueryPlanStep>) -> Seq<int> {
    Seq::new(steps.len(), |i: int| steps[i].select_id as int)
}

/// The places of the steps in the order of the plan.
pub open spec fn orders(steps: Seq<QueryPlanStep>) -> Seq<int> {
    Seq::new(steps.len(), |i: int| steps[i].order as int)
}

/// The numbers of the tables that the steps read.
pub open spec fn froms(steps: Seq<QueryPlanStep>) -> Seq<int> {
    Seq::new(steps.len(), |i: int| steps[i].from as int)
}

/// So many spaces.
pub open spec fn spaces(n: int) -> Seq<char>
    decreases n,
{
    if n <= 0 {
        seq![]
    } else {
        spaces(n - 1).push(' ')
    }
}

/// The number `n` in decimal, with spaces before it where it is shorter
/// than `width`.
pub open spec fn padded(n: int, width: int) -> Seq<char> {
    spaces(width - int_decimal(n).len()) + int_decimal(n)
}

/// The line for one step of a plan whose largest numbers are `sel`, `ord`
/// and `from`: the three numbers of the step, each as wide as the largest of
/// its kind, and the detail, with bars between them.
pub open spec fn plan_line(step: QueryPlanStep, sel: int, ord: int, from: int) -> Seq<char> {
    "  "@ + padded(step.select_id as int, int_decimal(sel).len() as int) + "|"@ + padded(
        step.order as int,
        int_decimal(ord).len() as int,
    ) + "|"@ + padded(step.from as int, int_decimal(from).len() as int) + "|"@ + step.detail@
}

fn push_padded(out: &mut String, n: i32, width: usize)
    ensures
        final(out)@ == old(out)@ + padded(n as int, width as int),
{
    let text = crate::text::i64_to_string(n as i64);
    let len = text.as_str().unicode_len();
    let mut i: usize = len;
    assert(out@ =~= old(out)@ + spaces(0));
    while i < width
        invariant
            len <= i || i == len,
            i <= width || i == len,
            out@ == old(out)@ + spaces(i - len),
        decreases width - i,
    {
        out.push(' ');
        assert(out@ =~= old(out)@ + spaces(i + 1 - len));
        i += 1;
    }
    out.push_str(text.as_str());
    assert(out@ =~= old(out)@ + padded(n as int, width as int));
}

fn width_of(n: i32) -> (r: usize)
    ensures
        r == int_decimal(n as int).len(),
{
    crate::text::i64_to_string(n as i64).as_str().unicode_len()
}

/// The lines that show a plan, one for each step, with the numbers of each
/// kind aligned to the right.
pub fn plan_lines(steps: &Vec<QueryPlanStep>) -> (r: Vec<String>)
    ensures
        r@.len() == steps@.len(),
        forall|i: int|
            0 <= i < steps@.len() ==> (#[trigger] r@[i])@ == plan_line(
                steps@[i],
                largest(select_ids(steps@), steps@.len() as int),
                largest(orders(steps@), steps@.len() as int),
                largest(froms(steps@), steps@.len() as int),
            ),
{
    let mut sel: i32 = 0;
    let mut ord: i32 = 0;
    let mut from: i32 = 0;
    let mut i: usize = 0;
    while i < steps.len()
        invariant
            i <= steps@.len(),
            sel == largest(select_ids(steps@), i as int),
            ord == largest(orders(steps@), i as int),
            from == largest(froms(steps@), i as int),
        decreases steps@.len() - i,
    {
        if steps[i].select_id > sel {
            sel = steps[i].select_id;
        }
        if steps[i].order > ord {
            ord = steps[i].order;
        }
        if steps[i].from > from {
            from = steps[i].from;
        }
        i += 1;
    }
    let sel_width = width_of(sel);
    let ord_width = width_of(ord);
    let from_width = width_of(from);
    let mut lines: Vec<String> = Vec::new();
    let mut k: usize = 0;
    while k < steps.len()
        invariant
            k <= steps@.len(),
            lines@.len() == k,
            sel_width == int_decimal(sel as int).len(),
            ord_width == int_decimal(ord as int).len(),
            from_width == int_decimal(from as int).len(),
            forall|j: int| 0 <= j < k ==> (#[trigger] lines@[j])@ == plan_line(steps@[j], sel as int, ord as int, from as int),
        decreases steps@.len() - k,
    {
        let mut line = String::new();
        line.push_str("  ");
        push_padded(&mut line, steps[k].select_id, sel_width);
        line.push_str("|");
        push_padded(&mut line, steps[k].order, ord_width);
        line.push_str("|");
        push_padded(&mut line, steps[k].from, from_width);
        line.push_str("|");
        line.push_str(steps[k].detail.as_str());
        assert(line@ =~= plan_line(steps@[k as int], sel as int, ord as int, from as int));
        lines.push(line);
        k += 1;
    }
    lines
}

/// What the prompt says of the command named `name`, if it knows it.
pub open spec fn help_message(name: Seq<char>) -> Option<Seq<char>> {
    if name == "help"@ {
        Some("Show this message."@)
    } else if name == "open"@ {
        Some("Open a database at path."@)
    } else if name == "close"@ {
        Some("Close the current database."@)
    } else if name == "query"@ {
        Some("Execute a query against the current open database."@)
    } else if name == "q"@ {
        Some("Shortcut for `.query`. Execute a query against the current open database."@)
    } else if name == "transact"@ {
        Some("Execute a transact against the current open database."@)
    } else if name == "t"@ {
        Some("Shortcut for `.transact`. Execute a transact against the current open database."@)
    } else if name == "read"@ {
        Some("Transact the contents of a file against the current open database."@)
    } else {
        None
    }
}

/// The line of help for a command: a dot, the name, a tabulator, and what
/// the prompt says of it.
pub open spec fn help_line(name: Seq<char>, message: Seq<char>) -> Seq<char> {
    "."@ + name + "\t"@ + message + "\n"@
}

/// Help for every command.
pub open spec fn all_help() -> Seq<char> {
    help_line("help"@, help_message("help"@)->0) + help_line("open"@, help_message("open"@)->0) + help_line(
        "close"@,
        help_message("close"@)->0,
    ) + help_line("query"@, help_message("query"@)->0) + help_line("q"@, help_message("q"@)->0) + help_line(
        "transact"@,
        help_message("transact"@)->0,
    ) + help_line("t"@, help_message("t"@)->0) + help_line("read"@, help_message("read"@)->0)
}

/// The name that an argument of `.help` gives: the argument without a dot
/// before it.
pub open spec fn asked_name(arg: Seq<char>) -> Seq<char> {
    if arg.len() > 0 && arg[0] == '.' {
        arg.subrange(1, arg.len() as int)
    } else {
        arg
    }
}

/// Help for the commands that the first `n` arguments name, or the first
/// name among them that is no command.
pub open spec fn chosen_help(args: Seq<Seq<char>>, n: int) -> Result<Seq<char>, Seq<char>>
    decreases n,
{
    if n <= 0 || n > args.len() {
        Ok(seq![])
    } else {
        match chosen_help(args, n - 1) {
            Err(name) => Err(name),
            Ok(text) => match help_message(asked_name(args[n - 1])) {
                Some(message) => Ok(text + help_line(asked_name(args[n - 1]), message)),
                None => Err(asked_name(args[n - 1])),
            },
        }
    }
}

/// What `.help` prints: help for every command where it has no argument,
/// and else for the commands that its arguments name, with an empty line
/// after it; or the complaint about the first argument that names no
/// command.
pub open spec fn help_text(args: Seq<Seq<char>>) -> Result<Seq<char>, Seq<char>> {
    if args.len() == 0 {
        Ok(all_help() + "\n"@)
    } else {
        match chosen_help(args, args.len() as int) {
            Ok(text) => Ok(text + "\n"@),
            Err(name) => Err("Unrecognised command "@ + name),
        }
    }
}

fn message_for(name: &str) -> (r: Option<&'static str>)
    ensures
        r is Some <==> help_message(name@) is Some,
        r is Some ==> r->0@ == help_message(name@)->0,
{
    if name.eq("help") {
        Some("Show this message.")
    } else if name.eq("open") {
        Some("Open a database at path.")
    } else if name.eq("close") {
        Some("Close the current database.")
    } else if name.eq("query") {
        Some("Execute a query against the current open database.")
    } else if name.eq("q") {
        Some("Shortcut for `.query`. Execute a query against the current open database.")
    } else if name.eq("transact") {
        Some("Execute a transact against the current open database.")
    } else if name.eq("t") {
        Some("Shortcut for `.transact`. Execute a transact against the current open database.")
    } else if name.eq("read") {
        Some("Transact the contents of a file against the current open database.")
    } else {
        None
    }
}

fn push_help_line(out: &mut String, name: &str)
    requires
        help_message(name@) is Some,
    ensures
        final(out)@ == old(out)@ + help_line(name@, help_message(name@)->0),
{
    match message_for(name) {
        Some(message) => {
            out.push_str(".");
            out.push_str(name);
            out.push_str("\t");
            out.push_str(message);
            out.push_str("\n");
            assert(out@ =~= old(out)@ + help_line(name@, help_message(name@)->0));
        },
        None => {},
    }
}

/// What `.help` prints for the arguments `args`, none of which may be
/// empty; or the complaint about an argument that names no command.
pub fn help_command(args: &Vec<String>) -> (r: Result<String, String>)
    requires
        forall|i: int| 0 <= i < args@.len() ==> (#[trigger] args@[i])@.len() > 0,
    ensures
        match help_text(crate::command::texts(args@)) {
            Ok(text) => r is Ok && r->Ok_0@ == text,
            Err(message) => r is Err && r->Err_0@ == message,
        },
{
    let mut out = String::new();
    if args.len() == 0 {
        push_help_line(&mut out, "help");
        push_help_line(&mut out, "open");
        push_help_line(&mut out, "close");
        push_help_line(&mut out, "query");
        push_help_line(&mut out, "q");
        push_help_line(&mut out, "transact");
        push_help_line(&mut out, "t");
        push_help_line(&mut out, "read");
        out.push_str("\n");
        assert(out@ =~= all_help() + "\n"@);
        return Ok(out);
    }
    let ghost all = crate::command::texts(args@);
    let mut i: usize = 0;
    assert(out@ =~= Seq::<char>::empty());
    while i < args.len()
        invariant
            i <= args@.len(),
            all == crate::command::texts(args@),
            forall|j: int| 0 <= j < args@.len() ==> (#[trigger] args@[j])@.len() > 0,
            chosen_help(all, i as int) == Ok::<Seq<char>, Seq<char>>(out@),
        decreases args@.len() - i,
    {
        let chars = str_to_chars(args[i].as_str());
        assert(args@[i as int]@.len() > 0);
        let name = if chars[0] == '.' {
            chars_to_string(&chars, 1, chars.len())
        } else {
            chars_to_string(&chars, 0, chars.len())
        };
        assert(name@ =~= asked_name(all[i as int]));
        match message_for(name.as_str()) {
            Some(_) => {
                push_help_line(&mut out, name.as_str());
            },
            None => {
                let mut message = String::new();
                message.push_str("Unrecognised command ");
                message.push_str(name.as_str());
                proof {
                    lemma_help_error_stays(all, i + 1, all.len() as int);
                    assert(message@ =~= "Unrecognised command "@ + name@);
                }
                return Err(message);
            },
        }
        i += 1;
    }
    out.push_str("\n");
    Ok(out)
}

/// The first name that is no command among the first `k` arguments is the
/// first among more.
pub proof fn lemma_help_error_stays(args: Seq<Seq<char>>, k: int, n: int)
    requires
        0 <= k <= n <= args.len(),
        chosen_help(args, k) is Err,
    ensures
        chosen_help(args, n) == chosen_help(args, k),
    decreases n - k,
{
    if k < n {
        lemma_help_error_stays(args, k, n - 1);
    }
}

} // verus!
