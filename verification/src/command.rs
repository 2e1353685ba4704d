//! The commands of the interactive prompt.

use vstd::prelude::*;
use crate::reader::{EdnParseError, read};
use crate::text::{chars_to_string, owned, str_to_chars};

verus! {

/// A command, as it was entered.
#[derive(Debug, PartialEq, Eq)]
pub enum Command {
    Transact(String),
    Query(String),
    Help(Vec<String>),
    Open(String),
    Read(Vec<String>),
    Close,
}

impl Clone for Command {
    fn clone(&self) -> (r: Self)
        ensures
            r.shown() == self.shown(),
    {
        match self {
            Command::Transact(s) => Command::Transact(s.clone()),
            Command::Query(s) => Command::Query(s.clone()),
            Command::Help(args) => {
                let c = clone_strings(args);
                Command::Help(c)
            },
            Command::Open(s) => Command::Open(s.clone()),
            Command::Read(args) => {
                let c = clone_strings(args);
                Command::Read(c)
            },
            Command::Close => Command::Close,
        }
    }
}

/// The texts of a list of strings.
pub open spec fn texts(args: Seq<String>) -> Seq<Seq<char>> {
    Seq::new(args.len(), |i: int| args[i]@)
}

fn clone_strings(args: &Vec<String>) -> (r: Vec<String>)
    ensures
        texts(r@) == texts(args@),
{
    let mut out: Vec<String> = Vec::new();
    let mut i: usize = 0;
    while i < args.len()
        invariant
            i <= args@.len(),
            out@.len() == i,
            forall|j: int| 0 <= j < i ==> #[trigger] out@[j]@ == args@[j]@,
        decreases args@.len() - i,
    {
        out.push(args[i].clone());
        i += 1;
    }
    assert(texts(out@) =~= texts(args@));
    out
}

/// The text that the standard library's `Debug` gives for a list of strings.
pub uninterp spec fn debug_list_text(args: Seq<Seq<char>>) -> Seq<char>;

/// `Debug` for a vector of strings writes the strings, each in quotes and
/// with its special characters escaped, between brackets and separated by
/// commas; the text depends on the strings alone.
#[verifier::external_body]
fn debug_list(args: &Vec<String>) -> (r: String)
    ensures
        r@ == debug_list_text(texts(args@)),
{
    format!("{:?}", args)
}

impl Command {
    /// The command as the prompt shows it: a dot, the command's long name,
    /// and its arguments.
    pub open spec fn shown(&self) -> Seq<char> {
        match self {
            Command::Query(args) => ".query "@ + args@,
            Command::Transact(args) => ".transact "@ + args@,
            Command::Help(args) => ".help "@ + debug_list_text(texts(args@)),
            Command::Open(args) => ".open "@ + args@,
            Command::Close => ".close"@,
            Command::Read(args) => ".read "@ + debug_list_text(texts(args@)),
        }
    }

    /// Whether the command needs no more input. A query or a transaction is
    /// complete once its argument reads as a value; every other command is
    /// complete as it stands. With an incomplete command comes the reader's
    /// error.
    pub fn is_complete(&self) -> (r: (bool, Option<EdnParseError>))
        ensures
            r.0 == match *self {
                Command::Query(args) => read(args@) is Some,
                Command::Transact(args) => read(args@) is Some,
                _ => true,
            },
            r.1 is Some <==> !r.0,
    {
        match self {
            Command::Query(args) => match crate::reader::value(args.as_str()) {
                Ok(_) => (true, None),
                Err(e) => (false, Some(e)),
            },
            Command::Transact(args) => match crate::reader::value(args.as_str()) {
                Ok(_) => (true, None),
                Err(e) => (false, Some(e)),
            },
            Command::Help(_) => (true, None),
            Command::Open(_) => (true, None),
            Command::Close => (true, None),
            Command::Read(_) => (true, None),
        }
    }

    /// The command as the prompt shows it.
    pub fn output(&self) -> (r: String)
        ensures
            r@ == self.shown(),
    {
        let mut out = String::new();
        match self {
            Command::Query(args) => {
                out.push_str(".query ");
                out.push_str(args.as_str());
            },
            Command::Transact(args) => {
                out.push_str(".transact ");
                out.push_str(args.as_str());
            },
            Command::Help(args) => {
                out.push_str(".help ");
                let d = debug_list(args);
                out.push_str(d.as_str());
            },
            Command::Open(args) => {
                out.push_str(".open ");
                out.push_str(args.as_str());
            },
            Command::Close => {
                out.push_str(".close");
            },
            Command::Read(args) => {
                out.push_str(".read ");
                let d = debug_list(args);
                out.push_str(d.as_str());
            },
        }
        assert(out@ =~= self.shown());
        out
    }
}

/// Why a line is no command.
#[derive(Debug, PartialEq, Eq)]
pub enum CommandError {
    CommandParse(String),
}

impl CommandError {
    /// The message of the error.
    pub fn to_string(&self) -> (r: String)
        ensures
            r@ == self->CommandParse_0@,
    {
        match self {
            CommandError::CommandParse(message) => message.clone(),
        }
    }
}

/// Whether the standard library counts `c` as whitespace.
pub uninterp spec fn is_whitespace_char(c: char) -> bool;

/// `char::is_whitespace` is a function of the character alone: it looks the
/// character up in the Unicode table of white space.
pub assume_specification[ char::is_whitespace ](c: char) -> (r: bool)
    ensures
        r == is_whitespace_char(c),
;

/// The text that the standard library's `Debug` gives for a string.
pub uninterp spec fn debug_text(s: Seq<char>) -> Seq<char>;

/// `Debug` for a string writes the string in quotes with its special
/// characters escaped; the text depends on the string alone.
#[verifier::external_body]
pub(crate) fn debug_string(s: &str) -> (r: String)
    ensures
        r@ == debug_text(s@),
{
    format!("{:?}", s)
}

/// The position of the first character at or after `pos` that is no
/// whitespace.
pub open spec fn skip_space(s: Seq<char>, pos: int) -> int
    decreases s.len() - pos,
{
    if pos < 0 || pos >= s.len() {
        pos
    } else if is_whitespace_char(s[pos]) {
        skip_space(s, pos + 1)
    } else {
        pos
    }
}

/// The position of the first whitespace at or after `pos`, or the end.
pub open spec fn word_end(s: Seq<char>, pos: int) -> int
    decreases s.len() - pos,
{
    if pos < 0 || pos >= s.len() {
        pos
    } else if is_whitespace_char(s[pos]) {
        pos
    } else {
        word_end(s, pos + 1)
    }
}

/// The words from `pos` on, after the words `acc`: words are separated by
/// whitespace, and the list ends where no word begins.
pub open spec fn arguments(s: Seq<char>, pos: int, acc: Seq<Seq<char>>) -> Seq<Seq<char>>
    decreases s.len() - pos,
{
    let e = word_end(s, pos);
    let n = skip_space(s, e);
    if pos < 0 || pos >= s.len() || e <= pos || e > s.len() {
        acc
    } else if n <= e || n > s.len() {
        acc.push(s.subrange(pos, e))
    } else {
        arguments(s, n, acc.push(s.subrange(pos, e)))
    }
}

/// Whether `s` holds the text `lit` at `pos`.
pub open spec fn holds_at(s: Seq<char>, pos: int, lit: Seq<char>) -> bool {
    0 <= pos && pos + lit.len() <= s.len() && s.subrange(pos, pos + lit.len()) == lit
}

/// The argument of a query or a transaction: what follows, from the first
/// character that is no whitespace, if that is `[` or `{`.
pub open spec fn edn_argument(s: Seq<char>, pos: int) -> Option<Seq<char>> {
    let p = skip_space(s, pos);
    if 0 <= p < s.len() && (s[p] == '[' || s[p] == '{') {
        Some(s.subrange(p, s.len() as int))
    } else {
        None
    }
}

/// The text without the character `c`.
pub open spec fn without_char(s: Seq<char>, c: char) -> Seq<char>
    decreases s.len(),
{
    if s.len() == 0 {
        seq![]
    } else if s.last() == c {
        without_char(s.drop_last(), c)
    } else {
        without_char(s.drop_last(), c).push(s.last())
    }
}

/// Whether an argument of `.read` begins with a quote.
pub open spec fn is_quoted(arg: Seq<char>) -> bool {
    arg.len() > 0 && (arg[0] == '"' || arg[0] == '\'')
}

/// The file that an argument of `.read` names: the argument itself, or
/// without its quotes if it begins and ends with the same quote. `None` for
/// an argument that begins with a quote and does not end with it.
pub open spec fn file_of(arg: Seq<char>) -> Option<Seq<char>> {
    if is_quoted(arg) {
        if arg.last() == arg[0] {
            Some(without_char(arg, arg[0]))
        } else {
            None
        }
    } else {
        Some(arg)
    }
}

/// The files that the first `n` arguments name, or the first argument that
/// names none.
pub open spec fn files_of(args: Seq<Seq<char>>, n: int) -> Result<Seq<Seq<char>>, Seq<char>>
    decreases n,
{
    if n <= 0 || n > args.len() {
        Ok(seq![])
    } else {
        match files_of(args, n - 1) {
            Ok(before) => match file_of(args[n - 1]) {
                Some(f) => Ok(before.push(f)),
                None => Err(args[n - 1]),
            },
            Err(bad) => Err(bad),
        }
    }
}

/// A command as mathematical data.
pub enum CommandView {
    Transact(Seq<char>),
    Query(Seq<char>),
    Help(Seq<Seq<char>>),
    Open(Seq<char>),
    Read(Seq<Seq<char>>),
    Close,
}

impl View for Command {
    type V = CommandView;

    open spec fn view(&self) -> CommandView {
        match self {
            Command::Transact(s) => CommandView::Transact(s@),
            Command::Query(s) => CommandView::Query(s@),
            Command::Help(args) => CommandView::Help(texts(args@)),
            Command::Open(s) => CommandView::Open(s@),
            Command::Read(args) => CommandView::Read(texts(args@)),
            Command::Close => CommandView::Close,
        }
    }
}

/// The message for a line that is no command.
pub open spec fn invalid_command(s: Seq<char>) -> Seq<char> {
    "Invalid command "@ + debug_text(s)
}

/// The `.read` command with the given arguments, or the message of the
/// error.
pub open spec fn read_spec(args: Seq<Seq<char>>) -> Result<CommandView, Seq<char>> {
    match files_of(args, args.len() as int) {
        Err(bad) => Err("Unrecognized argument "@ + bad),
        Ok(files) => if args.len() == 0 {
            Err("Missing required argument"@)
        } else {
            Ok(CommandView::Read(files))
        },
    }
}

/// The command that follows the dot at `q - 1`, or the message of the
/// error.
pub open spec fn command_after_dot(s: Seq<char>, q: int) -> Result<CommandView, Seq<char>> {
    if holds_at(s, q, "help"@) {
        Ok(CommandView::Help(arguments(s, skip_space(s, q + 4), seq![])))
    } else if holds_at(s, q, "open"@) {
        let args = arguments(s, skip_space(s, q + 4), seq![]);
        if args.len() < 1 {
            Err("Missing required argument"@)
        } else if args.len() > 1 {
            Err("Unrecognized argument "@ + debug_text(args[1]))
        } else {
            Ok(CommandView::Open(args[0]))
        }
    } else if holds_at(s, q, "close"@) {
        let args = arguments(s, q + 5, seq![]);
        if args.len() > 0 {
            Err("Unrecognized argument "@ + debug_text(args[0]))
        } else if skip_space(s, q + 5) >= s.len() {
            Ok(CommandView::Close)
        } else {
            Err(invalid_command(s))
        }
    } else if holds_at(s, q, "query"@) {
        match edn_argument(s, q + 5) {
            Some(rest) => Ok(CommandView::Query(rest)),
            None => Err(invalid_command(s)),
        }
    } else if holds_at(s, q, "q"@) {
        match edn_argument(s, q + 1) {
            Some(rest) => Ok(CommandView::Query(rest)),
            None => Err(invalid_command(s)),
        }
    } else if holds_at(s, q, "transact"@) {
        match edn_argument(s, q + 8) {
            Some(rest) => Ok(CommandView::Transact(rest)),
            None => Err(invalid_command(s)),
        }
    } else if holds_at(s, q, "t"@) {
        match edn_argument(s, q + 1) {
            Some(rest) => Ok(CommandView::Transact(rest)),
            None => Err(invalid_command(s)),
        }
    } else if holds_at(s, q, "read"@) {
        read_spec(arguments(s, skip_space(s, q + 4), seq![]))
    } else {
        Err(invalid_command(s))
    }
}

/// The command that a line writes, or the message of the error: whitespace,
/// a dot, the name of the command, and its arguments.
pub open spec fn command_spec(s: Seq<char>) -> Result<CommandView, Seq<char>> {
    let p = skip_space(s, 0);
    if 0 <= p < s.len() && s[p] == '.' {
        command_after_dot(s, p + 1)
    } else {
        Err(invalid_command(s))
    }
}

fn skip_space_at(s: &Vec<char>, pos: usize) -> (r: usize)
    requires
        pos <= s@.len(),
    ensures
        r == skip_space(s@, pos as int),
        pos <= r <= s@.len(),
{
    let mut i: usize = pos;
    while i < s.len() && s[i].is_whitespace()
        invariant
            pos <= i <= s@.len(),
            skip_space(s@, pos as int) == skip_space(s@, i as int),
        decreases s@.len() - i,
    {
        i += 1;
    }
    i
}

fn word_end_at(s: &Vec<char>, pos: usize) -> (r: usize)
    requires
        pos <= s@.len(),
    ensures
        r == word_end(s@, pos as int),
        pos <= r <= s@.len(),
{
    let mut i: usize = pos;
    while i < s.len() && !s[i].is_whitespace()
        invariant
            pos <= i <= s@.len(),
            word_end(s@, pos as int) == word_end(s@, i as int),
        decreases s@.len() - i,
    {
        i += 1;
    }
    i
}

fn arguments_at(s: &Vec<char>, pos: usize) -> (r: Vec<String>)
    requires
        pos <= s@.len(),
    ensures
        texts(r@) == arguments(s@, pos as int, seq![]),
{
    let mut out: Vec<String> = Vec::new();
    let mut i: usize = pos;
    assert(texts(out@) =~= Seq::<Seq<char>>::empty());
    loop
        invariant
            pos <= i <= s@.len(),
            arguments(s@, pos as int, seq![]) == arguments(s@, i as int, texts(out@)),
        decreases s@.len() - i,
    {
        if i >= s.len() {
            return out;
        }
        let e = word_end_at(s, i);
        if e <= i {
            return out;
        }
        let word = chars_to_string(s, i, e);
        let ghost before = texts(out@);
        out.push(word);
        assert(texts(out@) =~= before.push(s@.subrange(i as int, e as int)));
        let n = skip_space_at(s, e);
        if n <= e {
            return out;
        }
        i = n;
    }
}

fn holds(s: &Vec<char>, pos: usize, lit: &str) -> (r: bool)
    requires
        pos <= s@.len(),
    ensures
        r == holds_at(s@, pos as int, lit@),
{
    let l = str_to_chars(lit);
    if l.len() > s.len() - pos {
        return false;
    }
    let mut i: usize = 0;
    while i < l.len()
        invariant
            i <= l@.len(),
            l@ == lit@,
            s@.len() <= usize::MAX,
            pos + l@.len() <= s@.len(),
            forall|j: int| 0 <= j < i ==> s@[pos + j] == l@[j],
        decreases l@.len() - i,
    {
        if s[pos + i] != l[i] {
            assert(s@.subrange(pos as int, pos + l@.len())[i as int] != l@[i as int]);
            return false;
        }
        i += 1;
    }
    assert(s@.subrange(pos as int, pos + l@.len()) =~= l@);
    true
}

fn edn_argument_at(s: &Vec<char>, pos: usize) -> (r: Option<String>)
    requires
        pos <= s@.len(),
    ensures
        r is Some <==> edn_argument(s@, pos as int) is Some,
        r is Some ==> r->0@ == edn_argument(s@, pos as int)->0,
{
    let p = skip_space_at(s, pos);
    if p < s.len() && (s[p] == '[' || s[p] == '{') {
        Some(chars_to_string(s, p, s.len()))
    } else {
        None
    }
}

fn strip_char(arg: &Vec<char>, c: char) -> (r: String)
    ensures
        r@ == without_char(arg@, c),
{
    let mut out = String::new();
    let mut i: usize = 0;
    assert(arg@.subrange(0, 0) =~= Seq::<char>::empty());
    while i < arg.len()
        invariant
            i <= arg@.len(),
            out@ == without_char(arg@.subrange(0, i as int), c),
        decreases arg@.len() - i,
    {
        let ghost next = arg@.subrange(0, i + 1);
        assert(next.drop_last() =~= arg@.subrange(0, i as int));
        assert(next.last() == arg@[i as int]);
        if arg[i] != c {
            out.push(arg[i]);
        }
        i += 1;
    }
    assert(arg@.subrange(0, i as int) =~= arg@);
    out
}

fn file_for(arg: &String) -> (r: Option<String>)
    ensures
        r is Some <==> file_of(arg@) is Some,
        r is Some ==> r->0@ == file_of(arg@)->0,
{
    let chars = str_to_chars(arg.as_str());
    if chars.len() > 0 && (chars[0] == '"' || chars[0] == '\'') {
        let separator = chars[0];
        if chars[chars.len() - 1] == separator {
            Some(strip_char(&chars, separator))
        } else {
            None
        }
    } else {
        Some(arg.clone())
    }
}

fn invalid(s: &str) -> (r: CommandError)
    ensures
        r->CommandParse_0@ == invalid_command(s@),
{
    let mut message = owned("Invalid command ");
    let d = debug_string(s);
    message.push_str(d.as_str());
    CommandError::CommandParse(message)
}

fn unrecognized(arg: &str, quoted: bool) -> (r: CommandError)
    ensures
        r->CommandParse_0@ == "Unrecognized argument "@ + (if quoted {
            debug_text(arg@)
        } else {
            arg@
        }),
{
    let mut message = owned("Unrecognized argument ");
    if quoted {
        let d = debug_string(arg);
        message.push_str(d.as_str());
    } else {
        message.push_str(arg);
    }
    CommandError::CommandParse(message)
}

fn read_command(args: Vec<String>) -> (r: Result<Command, CommandError>)
    ensures
        command_is(r, read_spec(texts(args@))),
{
    let mut files: Vec<String> = Vec::new();
    let mut i: usize = 0;
    assert(texts(files@) =~= Seq::<Seq<char>>::empty());
    while i < args.len()
        invariant
            i <= args@.len(),
            files_of(texts(args@), i as int) == Ok::<Seq<Seq<char>>, Seq<char>>(texts(files@)),
        decreases args@.len() - i,
    {
        assert(texts(args@)[i as int] == args@[i as int]@);
        match file_for(&args[i]) {
            Some(f) => {
                let ghost before = texts(files@);
                files.push(f);
                assert(texts(files@) =~= before.push(f@));
            },
            None => {
                proof {
                    lemma_files_error(texts(args@), i + 1, args@.len() as int);
                }
                return Err(unrecognized(args[i].as_str(), false));
            },
        }
        i += 1;
    }
    if args.len() == 0 {
        return Err(CommandError::CommandParse(owned("Missing required argument")));
    }
    Ok(Command::Read(files))
}

/// Whether `r` is the command or the error that `expected` gives.
pub open spec fn command_is(r: Result<Command, CommandError>, expected: Result<CommandView, Seq<char>>) -> bool {
    match expected {
        Ok(c) => r is Ok && r->Ok_0@ == c,
        Err(message) => r is Err && r->Err_0->CommandParse_0@ == message,
    }
}

/// The command that the line `s` writes.
///
/// A line is whitespace, a dot, the name of a command and its arguments:
/// `.help` with any words; `.open` with one word; `.close` with none;
/// `.query` or `.q`, and `.transact` or `.t`, with what follows from the
/// first `[` or `{`; and `.read` with one file or more, each of which may
/// stand in quotes.
pub fn command(s: &str) -> (r: Result<Command, CommandError>)
    ensures
        command_is(r, command_spec(s@)),
{
    let chars = str_to_chars(s);
    let p = skip_space_at(&chars, 0);
    if !(p < chars.len() && chars[p] == '.') {
        return Err(invalid(s));
    }
    let q = p + 1;
    if holds(&chars, q, "help") {
        proof {
            reveal_strlit("help");
        }
        let a = skip_space_at(&chars, q + 4);
        return Ok(Command::Help(arguments_at(&chars, a)));
    }
    if holds(&chars, q, "open") {
        proof {
            reveal_strlit("open");
        }
        let a = skip_space_at(&chars, q + 4);
        let mut args = arguments_at(&chars, a);
        if args.len() < 1 {
            return Err(CommandError::CommandParse(owned("Missing required argument")));
        }
        if args.len() > 1 {
            return Err(unrecognized(args[1].as_str(), true));
        }
        return match args.pop() {
            Some(arg) => Ok(Command::Open(arg)),
            None => Err(invalid(s)),
        };
    }
    if holds(&chars, q, "close") {
        proof {
            reveal_strlit("close");
        }
        let args = arguments_at(&chars, q + 5);
        if args.len() > 0 {
            return Err(unrecognized(args[0].as_str(), true));
        }
        if skip_space_at(&chars, q + 5) >= chars.len() {
            return Ok(Command::Close);
        }
        return Err(invalid(s));
    }
    if holds(&chars, q, "query") {
        proof {
            reveal_strlit("query");
        }
        return match edn_argument_at(&chars, q + 5) {
            Some(rest) => Ok(Command::Query(rest)),
            None => Err(invalid(s)),
        };
    }
    if holds(&chars, q, "q") {
        proof {
            reveal_strlit("q");
        }
        return match edn_argument_at(&chars, q + 1) {
            Some(rest) => Ok(Command::Query(rest)),
            None => Err(invalid(s)),
        };
    }
    if holds(&chars, q, "transact") {
        proof {
            reveal_strlit("transact");
        }
        return match edn_argument_at(&chars, q + 8) {
            Some(rest) => Ok(Command::Transact(rest)),
            None => Err(invalid(s)),
        };
    }
    if holds(&chars, q, "t") {
        proof {
            reveal_strlit("t");
        }
        return match edn_argument_at(&chars, q + 1) {
            Some(rest) => Ok(Command::Transact(rest)),
            None => Err(invalid(s)),
        };
    }
    if holds(&chars, q, "read") {
        proof {
            reveal_strlit("read");
        }
        let a = skip_space_at(&chars, q + 4);
        let args = arguments_at(&chars, a);
        return read_command(args);
    }
    Err(invalid(s))
}

/// Once one of the first `n` arguments names no file, the first bad
/// argument among the first `m` is the same.
pub proof fn lemma_files_error(args: Seq<Seq<char>>, n: int, m: int)
    requires
        0 <= n <= m <= args.len(),
        files_of(args, n) is Err,
    ensures
        files_of(args, m) == files_of(args, n),
    decreases m - n,
{
    if n < m {
        lemma_files_error(args, n, m - 1);
    }
}

} // verus!
