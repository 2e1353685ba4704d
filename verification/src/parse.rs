//! The query parser: from a value of the surface syntax to a query.
//!
//! A query is a vector `[:find … :in … :where … :with … :order … :limit …]`,
//! or a map with the same keys. `:find` takes one of four forms: `?x .` for a
//! scalar, `[?x ...]` for a collection, `[?x ?y]` for a tuple and `?x ?y` for
//! a relation. A clause of `:where` is tried as a pattern, an `or-join`, an
//! `or`, a `not-join`, a `not` and a predicate, in that order.

use vstd::prelude::*;
use vstd::string::StrSliceExecFns;
use crate::edn::{Value, ValueView, clone_values, lemma_all_values_view, seq_items, value_views};
use crate::query::{
    Direction, Element, FindQuery, FindQueryView, FindSpec, FindSpecView, FnArg, FnArgView, Limit,
    LimitView, NonIntegerConstant, NonIntegerConstantView, NotJoin, OrJoin, OrWhereClause,
    OrWhereClauseView, Order, OrderView, Pattern, PatternNonValuePlace, PatternNonValuePlaceView,
    PatternValuePlace, PatternValuePlaceView, PatternView, Predicate, PredicateView, SrcVar,
    SrcVarView, UnifyVars, UnifyVarsView, Variable, WhereClause, WhereClauseView, clause_views,
    element_names, fn_arg_views, lemma_all_arms_view, lemma_all_clauses_view, names_of,
    or_clause_views, order_views, pattern_of,
};
use crate::reader::{EdnParseError, read};
use crate::symbols::{Keyword, PlainSymbol, starts_with_char};

verus! {

/// The variable that a value names.
pub open spec fn variable_of(v: ValueView) -> Option<Seq<char>> {
    match v {
        ValueView::PlainSymbol(s) => if starts_with_char(s, '?') {
            Some(s)
        } else {
            None
        },
        _ => None,
    }
}

/// The source that a value names: `$` is the default source, `$x` the source
/// named `x`.
pub open spec fn source_var_of(v: ValueView) -> Option<SrcVarView> {
    match v {
        ValueView::PlainSymbol(s) => if starts_with_char(s, '$') {
            if s.len() == 1 {
                Some(SrcVarView::DefaultSrc)
            } else {
                Some(SrcVarView::NamedSrc(s.subrange(1, s.len() as int)))
            }
        } else {
            None
        },
        _ => None,
    }
}

/// The constant that a value is, if it is one and no integer.
pub open spec fn constant_of(v: ValueView) -> Option<NonIntegerConstantView> {
    match v {
        ValueView::Boolean(b) => Some(NonIntegerConstantView::Boolean(b)),
        ValueView::Float(d) => Some(NonIntegerConstantView::Float(d)),
        ValueView::Text(s) => Some(NonIntegerConstantView::Text(s)),
        ValueView::Instant(t) => Some(NonIntegerConstantView::Instant(t)),
        ValueView::Uuid(u) => Some(NonIntegerConstantView::Uuid(u)),
        _ => None,
    }
}

/// Whether a value is the placeholder `_`.
pub open spec fn is_placeholder(v: ValueView) -> bool {
    v == ValueView::PlainSymbol(seq!['_'])
}

/// What a value stands for in the entity, attribute or transaction place.
pub open spec fn non_value_place_spec(v: ValueView) -> Option<PatternNonValuePlaceView> {
    if is_placeholder(v) {
        Some(PatternNonValuePlaceView::Placeholder)
    } else {
        match v {
            ValueView::Integer(n) => if n >= 0 {
                Some(PatternNonValuePlaceView::Entid(n))
            } else {
                None
            },
            ValueView::PlainSymbol(s) => match variable_of(v) {
                Some(name) => Some(PatternNonValuePlaceView::Variable(name)),
                None => None,
            },
            ValueView::NamespacedKeyword(k) => Some(PatternNonValuePlaceView::Ident(k)),
            _ => None,
        }
    }
}

/// What a value stands for in the value place.
pub open spec fn value_place_spec(v: ValueView) -> Option<PatternValuePlaceView> {
    if is_placeholder(v) {
        Some(PatternValuePlaceView::Placeholder)
    } else {
        match v {
            ValueView::Integer(n) => Some(PatternValuePlaceView::EntidOrInteger(n)),
            ValueView::PlainSymbol(s) => match variable_of(v) {
                Some(name) => Some(PatternValuePlaceView::Variable(name)),
                None => None,
            },
            ValueView::NamespacedKeyword(k) => Some(PatternValuePlaceView::IdentOrKeyword(k)),
            _ => match constant_of(v) {
                Some(c) => Some(PatternValuePlaceView::Constant(c)),
                None => None,
            },
        }
    }
}

/// The argument that a value is: a variable, a source, an integer, a
/// keyword, a constant, or a vector of arguments.
pub open spec fn fn_arg_spec(v: ValueView) -> Option<FnArgView>
    decreases v, 0int,
{
    match v {
        ValueView::Integer(n) => Some(FnArgView::EntidOrInteger(n)),
        ValueView::PlainSymbol(s) => match variable_of(v) {
            Some(name) => Some(FnArgView::Variable(name)),
            None => match source_var_of(v) {
                Some(src) => Some(FnArgView::SrcVar(src)),
                None => None,
            },
        },
        ValueView::NamespacedKeyword(k) => Some(FnArgView::IdentOrKeyword(k)),
        ValueView::Vector(items) => match fn_args_spec(items, 0, items.len() as int) {
            Some(args) => Some(FnArgView::Vector(args)),
            None => None,
        },
        _ => match constant_of(v) {
            Some(c) => Some(FnArgView::Constant(c)),
            None => None,
        },
    }
}

/// The arguments that the values from `lo` up to `hi` are, if each is one.
pub open spec fn fn_args_spec(items: Seq<ValueView>, lo: int, hi: int) -> Option<Seq<FnArgView>>
    decreases items, hi - lo,
{
    if hi <= lo || lo < 0 || hi > items.len() {
        Some(seq![])
    } else {
        match fn_args_spec(items, lo, hi - 1) {
            Some(before) => match fn_arg_spec(items[hi - 1]) {
                Some(a) => Some(before.push(a)),
                None => None,
            },
            None => None,
        }
    }
}

/// The direction that a value names.
pub open spec fn direction_of(v: ValueView) -> Option<Direction> {
    if v == ValueView::PlainSymbol("asc"@) {
        Some(Direction::Ascending)
    } else if v == ValueView::PlainSymbol("desc"@) {
        Some(Direction::Descending)
    } else {
        None
    }
}

/// The order entry that a value is: `(asc ?x)`, `(desc ?x)`, or `?x`, which
/// is ascending.
pub open spec fn order_spec(v: ValueView) -> Option<OrderView> {
    match seq_items(v) {
        Some(items) => if items.len() == 2 && direction_of(items[0]) is Some && variable_of(
            items[1],
        ) is Some {
            Some(OrderView { direction: direction_of(items[0])->0, variable: variable_of(items[1])->0 })
        } else {
            None
        },
        None => match variable_of(v) {
            Some(name) => Some(OrderView { direction: Direction::Ascending, variable: name }),
            None => None,
        },
    }
}

/// The natural number that a value is: an integer above zero.
pub open spec fn natural_number_spec(v: ValueView) -> Option<int> {
    match v {
        ValueView::Integer(n) => if n > 0 {
            Some(n)
        } else {
            None
        },
        _ => None,
    }
}

/// Whether every value is a variable.
pub open spec fn all_variables(items: Seq<ValueView>) -> bool {
    forall|i: int| 0 <= i < items.len() ==> variable_of(#[trigger] items[i]) is Some
}

/// The names of the variables that the values are.
pub open spec fn variable_names(items: Seq<ValueView>) -> Seq<Seq<char>> {
    Seq::new(items.len(), |i: int| variable_of(items[i])->0)
}

/// The variables of a rule: a vector or list of one variable or more.
pub open spec fn rule_vars_spec(v: ValueView) -> Option<Seq<Seq<char>>> {
    match seq_items(v) {
        Some(items) => if items.len() >= 1 && all_variables(items) {
            Some(variable_names(items))
        } else {
            None
        },
        None => None,
    }
}

/// The places of a pattern, in the members of its vector: an optional
/// source, the entity, the attribute, and optionally the value and the
/// transaction.
pub open spec fn pattern_spec(v: ValueView) -> Option<PatternView> {
    match v {
        ValueView::Vector(items) => {
            let source = if items.len() > 0 {
                source_var_of(items[0])
            } else {
                None
            };
            let k: int = if source is Some {
                1
            } else {
                0
            };
            let n = items.len() - k;
            if n < 2 || n > 4 {
                None
            } else {
                let e = non_value_place_spec(items[k]);
                let a = non_value_place_spec(items[k + 1]);
                let val = if n >= 3 {
                    value_place_spec(items[k + 2])
                } else {
                    Some(PatternValuePlaceView::Placeholder)
                };
                let tx = if n == 4 {
                    non_value_place_spec(items[k + 3])
                } else {
                    Some(PatternNonValuePlaceView::Placeholder)
                };
                if e is Some && a is Some && val is Some && tx is Some {
                    pattern_of(source, e->0, a->0, val->0, tx->0)
                } else {
                    None
                }
            }
        },
        _ => None,
    }
}

/// The predicate `[(operator args…)]`: a vector of one member, which is a
/// list or vector of a symbol and its arguments.
pub open spec fn pred_spec(v: ValueView) -> Option<PredicateView> {
    match v {
        ValueView::Vector(outer) => if outer.len() == 1 {
            match seq_items(outer[0]) {
                Some(items) => if items.len() >= 1 && items[0] is PlainSymbol {
                    match fn_args_spec(items, 1, items.len() as int) {
                        Some(args) => Some(PredicateView { operator: items[0]->PlainSymbol_0, args }),
                        None => None,
                    }
                } else {
                    None
                },
                None => None,
            }
        } else {
            None
        },
        _ => None,
    }
}

/// Whether a value is the plain symbol written `name`.
pub open spec fn is_named(v: ValueView, name: Seq<char>) -> bool {
    v == ValueView::PlainSymbol(name)
}

/// The clause that a list or vector with the given members is, where it is
/// an `or-join`, an `or`, a `not-join` or a `not`.
pub open spec fn seq_clause_spec(items: Seq<ValueView>) -> Option<WhereClauseView>
    decreases items, items.len() + 1,
{
    if items.len() >= 3 && is_named(items[0], "or-join"@) && rule_vars_spec(items[1]) is Some
        && arms_spec(items, 2, items.len() as int) is Some {
        Some(
            WhereClauseView::OrJoin {
                unify_vars: UnifyVarsView::Explicit(rule_vars_spec(items[1])->0),
                arms: arms_spec(items, 2, items.len() as int)->0,
            },
        )
    } else if items.len() >= 2 && is_named(items[0], "or"@) && arms_spec(
        items,
        1,
        items.len() as int,
    ) is Some {
        Some(
            WhereClauseView::OrJoin {
                unify_vars: UnifyVarsView::Implicit,
                arms: arms_spec(items, 1, items.len() as int)->0,
            },
        )
    } else if items.len() >= 3 && is_named(items[0], "not-join"@) && rule_vars_spec(items[1]) is Some
        && clauses_spec(items, 2, items.len() as int) is Some {
        Some(
            WhereClauseView::NotJoin {
                unify_vars: UnifyVarsView::Explicit(rule_vars_spec(items[1])->0),
                clauses: clauses_spec(items, 2, items.len() as int)->0,
            },
        )
    } else if items.len() >= 2 && is_named(items[0], "not"@) && clauses_spec(
        items,
        1,
        items.len() as int,
    ) is Some {
        Some(
            WhereClauseView::NotJoin {
                unify_vars: UnifyVarsView::Implicit,
                clauses: clauses_spec(items, 1, items.len() as int)->0,
            },
        )
    } else {
        None
    }
}

/// The clause that a value is.
pub open spec fn clause_spec(v: ValueView) -> Option<WhereClauseView>
    decreases v, 0int,
{
    match pattern_spec(v) {
        Some(p) => Some(WhereClauseView::Pattern(p)),
        None => {
            let joined = match v {
                ValueView::Vector(items) => seq_clause_spec(items),
                ValueView::List(items) => seq_clause_spec(items),
                _ => None,
            };
            match joined {
                Some(c) => Some(c),
                None => match pred_spec(v) {
                    Some(p) => Some(WhereClauseView::Pred(p)),
                    None => None,
                },
            }
        },
    }
}

/// The clauses that the values from `lo` up to `hi` are, if each is one.
pub open spec fn clauses_spec(items: Seq<ValueView>, lo: int, hi: int) -> Option<Seq<WhereClauseView>>
    decreases items, hi - lo,
{
    if hi <= lo || lo < 0 || hi > items.len() {
        Some(seq![])
    } else {
        match clauses_spec(items, lo, hi - 1) {
            Some(before) => match clause_spec(items[hi - 1]) {
                Some(c) => Some(before.push(c)),
                None => None,
            },
            None => None,
        }
    }
}

/// The arm of an `or` that a value is: a clause, or `(and clause…)`.
pub open spec fn arm_spec(v: ValueView) -> Option<OrWhereClauseView>
    decreases v, 1int,
{
    match clause_spec(v) {
        Some(c) => Some(OrWhereClauseView::Clause(c)),
        None => {
            let conj = match v {
                ValueView::Vector(items) => and_spec(items),
                ValueView::List(items) => and_spec(items),
                _ => None,
            };
            match conj {
                Some(cs) => Some(OrWhereClauseView::And(cs)),
                None => None,
            }
        },
    }
}

/// The clauses of `(and clause…)`, given the members of the list.
pub open spec fn and_spec(items: Seq<ValueView>) -> Option<Seq<WhereClauseView>>
    decreases items, items.len() + 1,
{
    if items.len() >= 2 && is_named(items[0], "and"@) {
        clauses_spec(items, 1, items.len() as int)
    } else {
        None
    }
}

/// The arms that the values from `lo` up to `hi` are, if each is one.
pub open spec fn arms_spec(items: Seq<ValueView>, lo: int, hi: int) -> Option<Seq<OrWhereClauseView>>
    decreases items, hi - lo,
{
    if hi <= lo || lo < 0 || hi > items.len() {
        Some(seq![])
    } else {
        match arms_spec(items, lo, hi - 1) {
            Some(before) => match arm_spec(items[hi - 1]) {
                Some(c) => Some(before.push(c)),
                None => None,
            },
            None => None,
        }
    }
}

/// The find specification that the values after `:find` are. The four forms
/// are tried in the order scalar, collection, tuple, relation; the first that
/// fits the first values must fit them all.
pub open spec fn find_spec_spec(items: Seq<ValueView>) -> Option<FindSpecView> {
    if items.len() >= 2 && variable_of(items[0]) is Some && is_named(items[1], seq!['.']) {
        if items.len() == 2 {
            Some(FindSpecView::FindScalar(variable_of(items[0])->0))
        } else {
            None
        }
    } else if items.len() >= 1 && find_coll_spec(items[0]) is Some {
        if items.len() == 1 {
            find_coll_spec(items[0])
        } else {
            None
        }
    } else if items.len() >= 1 && find_tuple_spec(items[0]) is Some {
        if items.len() == 1 {
            find_tuple_spec(items[0])
        } else {
            None
        }
    } else if items.len() >= 1 && all_variables(items) {
        Some(FindSpecView::FindRel(variable_names(items)))
    } else {
        None
    }
}

/// The collection form `[?x ...]`.
pub open spec fn find_coll_spec(v: ValueView) -> Option<FindSpecView> {
    match v {
        ValueView::Vector(items) => if items.len() == 2 && variable_of(items[0]) is Some && is_named(
            items[1],
            "..."@,
        ) {
            Some(FindSpecView::FindColl(variable_of(items[0])->0))
        } else {
            None
        },
        _ => None,
    }
}

/// The tuple form `[?x ?y]`.
pub open spec fn find_tuple_spec(v: ValueView) -> Option<FindSpecView> {
    match v {
        ValueView::Vector(items) => if items.len() >= 1 && all_variables(items) {
            Some(FindSpecView::FindTuple(variable_names(items)))
        } else {
            None
        },
        _ => None,
    }
}

/// Whether no name occurs twice.
pub open spec fn distinct_names(names: Seq<Seq<char>>) -> bool {
    forall|i: int, j: int| 0 <= i < j < names.len() ==> names[i] != names[j]
}

/// The position of the first value that is no variable.
pub open spec fn first_non_variable(items: Seq<ValueView>) -> int
    decreases items.len(),
{
    if items.len() == 0 {
        0
    } else if variable_of(items[0]) is None {
        0
    } else {
        1 + first_non_variable(items.drop_first())
    }
}

/// An error of the parser as mathematical data.
pub enum ParseErrorView {
    EdnParseError,
    DuplicateVariableError,
    NotAVariableError(ValueView),
    FindParseError,
    WhereParseError,
    WithParseError,
    InvalidInputError(ValueView),
    MissingFieldError(Seq<char>),
    UnknownLimitVar(Seq<char>),
    InvalidLimit(ValueView),
}

/// The set of variables that the values after `:in` or `:with` are: each
/// must be a variable, and none may occur twice.
pub open spec fn vars_spec(items: Seq<ValueView>) -> Result<Seq<Seq<char>>, ParseErrorView> {
    if !all_variables(items) {
        Err(ParseErrorView::NotAVariableError(items[first_non_variable(items)]))
    } else if !distinct_names(variable_names(items)) {
        Err(ParseErrorView::DuplicateVariableError)
    } else {
        Ok(variable_names(items))
    }
}

/// The limit that the values after `:limit` are: one variable, or one
/// natural number.
pub open spec fn limit_spec(items: Seq<ValueView>) -> Result<LimitView, ParseErrorView> {
    if items.len() != 1 {
        Err(ParseErrorView::InvalidLimit(ValueView::Vector(items)))
    } else {
        match variable_of(items[0]) {
            Some(name) => Ok(LimitView::Variable(name)),
            None => match natural_number_spec(items[0]) {
                Some(n) => Ok(LimitView::Fixed(n)),
                None => Err(ParseErrorView::InvalidLimit(items[0])),
            },
        }
    }
}

/// Whether every value is an order entry.
pub open spec fn all_orders(items: Seq<ValueView>) -> bool {
    forall|i: int| 0 <= i < items.len() ==> order_spec(#[trigger] items[i]) is Some
}

/// The order entries that the values after `:order` are: one or more.
pub open spec fn orders_spec(items: Seq<ValueView>) -> Option<Seq<OrderView>> {
    if items.len() >= 1 && all_orders(items) {
        Some(Seq::new(items.len(), |i: int| order_spec(items[i])->0))
    } else {
        None
    }
}

/// Whether `name` is one of the keys of a query.
pub open spec fn is_query_key(name: Seq<char>) -> bool {
    name == "find"@ || name == "in"@ || name == "limit"@ || name == "order"@ || name == "where"@
        || name == "with"@
}

/// Whether the values are the sections of a query: the first is a key, every
/// keyword among them is a key, and no key occurs twice.
pub open spec fn sections_ok(items: Seq<ValueView>) -> bool {
    &&& items.len() > 0
    &&& items[0] is Keyword
    &&& forall|i: int|
        0 <= i < items.len() && (#[trigger] items[i]) is Keyword ==> is_query_key(
            items[i]->Keyword_0,
        )
    &&& forall|i: int, j: int|
        0 <= i < j < items.len() && (#[trigger] items[i]) is Keyword && (#[trigger] items[j]) is Keyword
            ==> items[i] != items[j]
}

/// The position of the key `name` at or after `from`.
pub open spec fn key_position(items: Seq<ValueView>, name: Seq<char>, from: int) -> Option<int>
    decreases items.len() - from,
{
    if from < 0 || from >= items.len() {
        None
    } else if items[from] == ValueView::Keyword(name) {
        Some(from)
    } else {
        key_position(items, name, from + 1)
    }
}

/// The position of the first keyword at or after `from`, or the end.
pub open spec fn section_end(items: Seq<ValueView>, from: int) -> int
    decreases items.len() - from,
{
    if from < 0 || from >= items.len() {
        items.len() as int
    } else if items[from] is Keyword {
        from
    } else {
        section_end(items, from + 1)
    }
}

/// The values that follow the key `name`, up to the next key.
pub open spec fn section(items: Seq<ValueView>, name: Seq<char>) -> Option<Seq<ValueView>> {
    match key_position(items, name, 0) {
        Some(i) => Some(items.subrange(i + 1, section_end(items, i + 1))),
        None => None,
    }
}

/// The members of a map written as the sections of a vector: each key, then
/// the members of its value if that is a vector, and else its value.
pub open spec fn flattened(pairs: Seq<ValueView>, n: int) -> Seq<ValueView>
    decreases n,
{
    if n <= 0 || 2 * n > pairs.len() {
        seq![]
    } else {
        let before = flattened(pairs, n - 1).push(pairs[2 * n - 2]);
        match pairs[2 * n - 1] {
            ValueView::Vector(items) => before + items,
            other => before.push(other),
        }
    }
}

/// The sections of a query: the members of a vector, or a map flattened.
pub open spec fn query_items(v: ValueView) -> Option<Seq<ValueView>> {
    match v {
        ValueView::Vector(items) => Some(items),
        ValueView::Mapping(pairs) => if pairs.len() % 2 == 0 {
            Some(flattened(pairs, pairs.len() as int / 2))
        } else {
            None
        },
        _ => None,
    }
}

/// The query that a value is, or why it is none. The sections are read in
/// the order `:find`, `:in`, `:limit`, `:order`, `:where`, `:with`, and the
/// first error ends the reading; a limit variable must be among `:in`.
pub open spec fn query_spec(v: ValueView) -> Result<FindQueryView, ParseErrorView> {
    match query_items(v) {
        None => Err(ParseErrorView::InvalidInputError(v)),
        Some(items) => if !sections_ok(items) {
            Err(ParseErrorView::InvalidInputError(v))
        } else {
            match section(items, "find"@) {
                None => Err(ParseErrorView::MissingFieldError("find"@)),
                Some(find_items) => match find_spec_spec(find_items) {
                    None => Err(ParseErrorView::FindParseError),
                    Some(find_spec) => query_after_find(items, find_spec),
                },
            }
        },
    }
}

/// The rest of the reading, once `:find` is read.
pub open spec fn query_after_find(items: Seq<ValueView>, find_spec: FindSpecView) -> Result<FindQueryView, ParseErrorView> {
    let in_vars = match section(items, "in"@) {
        Some(s) => vars_spec(s),
        None => Ok(seq![]),
    };
    let limit = match section(items, "limit"@) {
        Some(s) => limit_spec(s),
        None => Ok(LimitView::Unlimited),
    };
    let order = match section(items, "order"@) {
        Some(s) => match orders_spec(s) {
            Some(os) => Ok(Some(os)),
            None => Err(ParseErrorView::FindParseError),
        },
        None => Ok(None),
    };
    let wheres = match section(items, "where"@) {
        Some(s) => if s.len() >= 1 && clauses_spec(s, 0, s.len() as int) is Some {
            Ok(clauses_spec(s, 0, s.len() as int)->0)
        } else {
            Err(ParseErrorView::WhereParseError)
        },
        None => Err(ParseErrorView::MissingFieldError("where"@)),
    };
    let with = match section(items, "with"@) {
        Some(s) => vars_spec(s),
        None => Ok(seq![]),
    };
    if in_vars is Err {
        Err(in_vars->Err_0)
    } else if limit is Err {
        Err(limit->Err_0)
    } else if order is Err {
        Err(order->Err_0)
    } else if wheres is Err {
        Err(wheres->Err_0)
    } else if with is Err {
        Err(with->Err_0)
    } else if limit->Ok_0 is Variable && !in_vars->Ok_0.contains(limit->Ok_0->Variable_0) {
        Err(ParseErrorView::UnknownLimitVar(limit->Ok_0->Variable_0))
    } else {
        Ok(
            FindQueryView {
                find_spec,
                with: with->Ok_0,
                in_vars: in_vars->Ok_0,
                limit: limit->Ok_0,
                where_clauses: wheres->Ok_0,
                order: order->Ok_0,
            },
        )
    }
}

/// What went wrong while a query was parsed.
#[derive(Debug, PartialEq, Eq)]
pub enum ParseError {
    /// The text is no value of the surface syntax.
    EdnParseError(EdnParseError),
    /// A variable occurs twice in `:in` or in `:with`.
    DuplicateVariableError,
    NotAVariableError(Value),
    FindParseError,
    WhereParseError,
    WithParseError,
    InvalidInputError(Value),
    MissingFieldError(Keyword),
    /// The variable of `:limit` is not among those of `:in`.
    UnknownLimitVar(PlainSymbol),
    /// The limit is no natural number.
    InvalidLimit(Value),
}

impl View for ParseError {
    type V = ParseErrorView;

    open spec fn view(&self) -> ParseErrorView {
        match self {
            ParseError::EdnParseError(_) => ParseErrorView::EdnParseError,
            ParseError::DuplicateVariableError => ParseErrorView::DuplicateVariableError,
            ParseError::NotAVariableError(v) => ParseErrorView::NotAVariableError(v@),
            ParseError::FindParseError => ParseErrorView::FindParseError,
            ParseError::WhereParseError => ParseErrorView::WhereParseError,
            ParseError::WithParseError => ParseErrorView::WithParseError,
            ParseError::InvalidInputError(v) => ParseErrorView::InvalidInputError(v@),
            ParseError::MissingFieldError(k) => ParseErrorView::MissingFieldError(k@),
            ParseError::UnknownLimitVar(s) => ParseErrorView::UnknownLimitVar(s@),
            ParseError::InvalidLimit(v) => ParseErrorView::InvalidLimit(v@),
        }
    }
}

/// Whether `r` is the value `expected`, or else the error `e`.
pub open spec fn parsed<T: View>(r: Result<T, ParseError>, expected: Option<T::V>, e: ParseErrorView) -> bool {
    match expected {
        Some(x) => r is Ok && r->Ok_0@ == x,
        None => r is Err && r->Err_0@ == e,
    }
}

/// Whether `r` is the value `expected`, where there is one.
pub open spec fn found<T: View>(r: Option<T>, expected: Option<T::V>) -> bool {
    match expected {
        Some(x) => r is Some && r->0@ == x,
        None => r is None,
    }
}

fn variable_opt(v: &Value) -> (r: Option<Variable>)
    ensures
        found(r, variable_of(v@)),
        r is Some ==> r->0.wf(),
{
    match v {
        Value::PlainSymbol(s) => Variable::from_symbol(s),
        _ => None,
    }
}

fn source_var_opt(v: &Value) -> (r: Option<SrcVar>)
    ensures
        found(r, source_var_of(v@)),
{
    match v {
        Value::PlainSymbol(s) => {
            if s.is_src_symbol() {
                let name = s.plain_name();
                if name.is_empty() {
                    assert(s@.len() == 1) by {
                        assert(s@.subrange(1, s@.len() as int).len() == 0);
                    }
                    Some(SrcVar::DefaultSrc)
                } else {
                    Some(SrcVar::NamedSrc(crate::text::owned(name)))
                }
            } else {
                None
            }
        },
        _ => None,
    }
}

fn constant_opt(v: &Value) -> (r: Option<NonIntegerConstant>)
    ensures
        found(r, constant_of(v@)),
{
    match v {
        Value::Boolean(b) => Some(NonIntegerConstant::Boolean(*b)),
        Value::Float(d) => Some(NonIntegerConstant::Float(d.clone())),
        Value::Text(s) => Some(NonIntegerConstant::Text(s.clone())),
        Value::Instant(t) => Some(NonIntegerConstant::Instant(*t)),
        Value::Uuid(u) => Some(NonIntegerConstant::Uuid(*u)),
        _ => None,
    }
}

fn is_underscore(v: &Value) -> (r: bool)
    ensures
        r == is_placeholder(v@),
{
    match v {
        Value::PlainSymbol(s) => {
            let t = s.0.as_str();
            let r = t.unicode_len() == 1 && t.get_char(0) == '_';
            proof {
                if r {
                    assert(s@ =~= seq!['_']);
                }
            }
            r
        },
        _ => false,
    }
}

fn non_value_place_opt(v: &Value) -> (r: Option<PatternNonValuePlace>)
    ensures
        found(r, non_value_place_spec(v@)),
{
    if is_underscore(v) {
        return Some(PatternNonValuePlace::Placeholder);
    }
    match v {
        Value::Integer(n) => if *n >= 0 {
            Some(PatternNonValuePlace::Entid(*n))
        } else {
            None
        },
        Value::PlainSymbol(_) => match variable_opt(v) {
            Some(var) => Some(PatternNonValuePlace::Variable(var)),
            None => None,
        },
        Value::NamespacedKeyword(k) => Some(PatternNonValuePlace::Ident(k.clone())),
        _ => None,
    }
}

fn value_place_opt(v: &Value) -> (r: Option<PatternValuePlace>)
    ensures
        found(r, value_place_spec(v@)),
{
    if is_underscore(v) {
        return Some(PatternValuePlace::Placeholder);
    }
    match v {
        Value::Integer(n) => Some(PatternValuePlace::EntidOrInteger(*n)),
        Value::PlainSymbol(_) => match variable_opt(v) {
            Some(var) => Some(PatternValuePlace::Variable(var)),
            None => None,
        },
        Value::NamespacedKeyword(k) => Some(PatternValuePlace::IdentOrKeyword(k.clone())),
        _ => match constant_opt(v) {
            Some(c) => Some(PatternValuePlace::Constant(c)),
            None => None,
        },
    }
}

/// Once some value before `mid` is no argument, the values up to `hi` are
/// not all arguments.
pub proof fn lemma_fn_args_none(items: Seq<ValueView>, lo: int, mid: int, hi: int)
    requires
        0 <= lo <= mid <= hi <= items.len(),
        fn_args_spec(items, lo, mid) is None,
    ensures
        fn_args_spec(items, lo, hi) is None,
    decreases hi - mid,
{
    if mid < hi {
        lemma_fn_args_none(items, lo, mid, hi - 1);
    }
}

fn fn_arg_opt(v: &Value) -> (r: Option<FnArg>)
    ensures
        found(r, fn_arg_spec(v@)),
    decreases v, 1int,
{
    match v {
        Value::Integer(n) => Some(FnArg::EntidOrInteger(*n)),
        Value::PlainSymbol(_) => match variable_opt(v) {
            Some(var) => Some(FnArg::Variable(var)),
            None => match source_var_opt(v) {
                Some(src) => Some(FnArg::SrcVar(src)),
                None => None,
            },
        },
        Value::NamespacedKeyword(k) => Some(FnArg::IdentOrKeyword(k.clone())),
        Value::Vector(items) => {
            proof {
                lemma_all_values_view(items@);
            }
            match fn_args_opt(items, 0) {
                Some(args) => {
                    let r = FnArg::Vector(args);
                    assert(r@->Vector_0 =~= fn_arg_views(args@));
                    Some(r)
                },
                None => None,
            }
        },
        _ => match constant_opt(v) {
            Some(c) => Some(FnArg::Constant(c)),
            None => None,
        },
    }
}

fn fn_args_opt(items: &Vec<Value>, lo: usize) -> (r: Option<Vec<FnArg>>)
    requires
        lo <= items@.len(),
    ensures
        match fn_args_spec(value_views(items@), lo as int, items@.len() as int) {
            Some(args) => r is Some && fn_arg_views(r->0@) == args,
            None => r is None,
        },
    decreases items, 0int,
{
    let ghost views = value_views(items@);
    let mut out: Vec<FnArg> = Vec::new();
    let mut i: usize = lo;
    assert(fn_arg_views(out@) =~= Seq::<FnArgView>::empty());
    while i < items.len()
        invariant
            lo <= i <= items@.len(),
            views == value_views(items@),
            fn_args_spec(views, lo as int, i as int) == Some(fn_arg_views(out@)),
        decreases items@.len() - i,
    {
        assert(decreases_to!(items => items[i as int]));
        match fn_arg_opt(&items[i]) {
            Some(a) => {
                let ghost before = fn_arg_views(out@);
                out.push(a);
                assert(fn_arg_views(out@) =~= before.push(a@));
            },
            None => {
                proof {
                    assert(fn_args_spec(views, lo as int, i + 1) is None);
                    lemma_fn_args_none(views, lo as int, i + 1, items@.len() as int);
                }
                return None;
            },
        }
        i += 1;
    }
    Some(out)
}

fn direction_opt(v: &Value) -> (r: Option<Direction>)
    ensures
        r == direction_of(v@),
{
    if v.is_symbol("asc") {
        Some(Direction::Ascending)
    } else if v.is_symbol("desc") {
        Some(Direction::Descending)
    } else {
        None
    }
}

fn order_opt(v: &Value) -> (r: Option<Order>)
    ensures
        found(r, order_spec(v@)),
{
    match v.as_seq() {
        Some(items) => {
            if items.len() == 2 {
                assert(value_views(items@)[0] == items@[0]@);
                assert(value_views(items@)[1] == items@[1]@);
                match direction_opt(&items[0]) {
                    Some(d) => match variable_opt(&items[1]) {
                        Some(var) => Some(Order(d, var)),
                        None => None,
                    },
                    None => None,
                }
            } else {
                None
            }
        },
        None => match variable_opt(v) {
            Some(var) => Some(Order(Direction::Ascending, var)),
            None => None,
        },
    }
}

fn natural_opt(v: &Value) -> (r: Option<u64>)
    ensures
        match natural_number_spec(v@) {
            Some(n) => r == Some(n as u64) && n == r->0 as int,
            None => r is None,
        },
{
    match v {
        Value::Integer(x) => if *x > 0 {
            Some(*x as u64)
        } else {
            None
        },
        _ => None,
    }
}

/// The position of the first value that is no variable is in range, where
/// some value is none.
pub proof fn lemma_first_non_variable(items: Seq<ValueView>)
    ensures
        0 <= first_non_variable(items) <= items.len(),
        forall|j: int| 0 <= j < first_non_variable(items) ==> variable_of(#[trigger] items[j]) is Some,
        first_non_variable(items) < items.len() ==> variable_of(items[first_non_variable(items)]) is None,
    decreases items.len(),
{
    if items.len() > 0 && variable_of(items[0]) is Some {
        let rest = items.drop_first();
        lemma_first_non_variable(rest);
        assert forall|j: int| 0 <= j < first_non_variable(items) implies variable_of(
            #[trigger] items[j],
        ) is Some by {
            if j > 0 {
                assert(items[j] == rest[j - 1]);
            }
        }
        if first_non_variable(items) < items.len() {
            assert(items[first_non_variable(items)] == rest[first_non_variable(rest)]);
        }
    }
}

/// The variables that the values are, or the position of the first value
/// that is none.
fn variables_of(items: &Vec<Value>) -> (r: Result<Vec<Variable>, usize>)
    ensures
        r is Ok <==> all_variables(value_views(items@)),
        r is Ok ==> names_of(r->Ok_0@) == variable_names(value_views(items@)),
        r is Err ==> r->Err_0 < items@.len() && r->Err_0 == first_non_variable(value_views(items@)),
{
    let ghost views = value_views(items@);
    let mut out: Vec<Variable> = Vec::new();
    let mut i: usize = 0;
    while i < items.len()
        invariant
            i <= items@.len(),
            views == value_views(items@),
            out@.len() == i,
            forall|j: int| 0 <= j < i ==> variable_of(#[trigger] views[j]) == Some(out@[j]@),
        decreases items@.len() - i,
    {
        assert(views[i as int] == items@[i as int]@);
        match variable_opt(&items[i]) {
            Some(var) => {
                out.push(var);
            },
            None => {
                proof {
                    lemma_first_non_variable(views);
                    let k = first_non_variable(views);
                    if k < i {
                        assert(variable_of(views[k]) is Some);
                    }
                    if k > i {
                        assert(variable_of(views[i as int]) is Some);
                    }
                }
                return Err(i);
            },
        }
        i += 1;
    }
    assert(names_of(out@) =~= variable_names(views));
    Ok(out)
}

fn rule_vars_opt(v: &Value) -> (r: Option<Vec<Variable>>)
    ensures
        match rule_vars_spec(v@) {
            Some(names) => r is Some && names_of(r->0@) == names,
            None => r is None,
        },
{
    match v.as_seq() {
        Some(items) => {
            if items.len() >= 1 {
                match variables_of(items) {
                    Ok(vars) => Some(vars),
                    Err(_) => None,
                }
            } else {
                None
            }
        },
        None => None,
    }
}

fn pattern_opt(v: &Value) -> (r: Option<Pattern>)
    ensures
        found(r, pattern_spec(v@)),
{
    match v.as_vector() {
        Some(items) => {
            let ghost views = value_views(items@);
            let source = if items.len() > 0 {
                assert(views[0] == items@[0]@);
                source_var_opt(&items[0])
            } else {
                None
            };
            let k: usize = if source.is_some() {
                1
            } else {
                0
            };
            let n = items.len() - k;
            if n < 2 || n > 4 {
                return None;
            }
            assert(views[k as int] == items@[k as int]@);
            assert(views[k + 1] == items@[k + 1]@);
            let e = non_value_place_opt(&items[k]);
            let a = non_value_place_opt(&items[k + 1]);
            let val = if n >= 3 {
                assert(views[k + 2] == items@[k + 2]@);
                value_place_opt(&items[k + 2])
            } else {
                Some(PatternValuePlace::Placeholder)
            };
            let tx = if n == 4 {
                assert(views[k + 3] == items@[k + 3]@);
                non_value_place_opt(&items[k + 3])
            } else {
                Some(PatternNonValuePlace::Placeholder)
            };
            match (e, a, val, tx) {
                (Some(e), Some(a), Some(val), Some(tx)) => Pattern::new(source, e, a, val, tx),
                _ => None,
            }
        },
        None => None,
    }
}

fn pred_opt(v: &Value) -> (r: Option<Predicate>)
    ensures
        found(r, pred_spec(v@)),
{
    match v.as_vector() {
        Some(outer) => {
            if outer.len() != 1 {
                return None;
            }
            assert(value_views(outer@)[0] == outer@[0]@);
            match outer[0].as_seq() {
                Some(items) => {
                    if items.len() < 1 {
                        return None;
                    }
                    assert(value_views(items@)[0] == items@[0]@);
                    match &items[0] {
                        Value::PlainSymbol(op) => match fn_args_opt(items, 1) {
                            Some(args) => Some(Predicate { operator: op.clone(), args }),
                            None => None,
                        },
                        _ => None,
                    }
                },
                None => None,
            }
        },
        None => None,
    }
}

/// Once some value before `mid` is no clause, the values up to `hi` are not
/// all clauses.
pub proof fn lemma_clauses_none(items: Seq<ValueView>, lo: int, mid: int, hi: int)
    requires
        0 <= lo <= mid <= hi <= items.len(),
        clauses_spec(items, lo, mid) is None,
    ensures
        clauses_spec(items, lo, hi) is None,
    decreases hi - mid,
{
    if mid < hi {
        lemma_clauses_none(items, lo, mid, hi - 1);
    }
}

/// Once some value before `mid` is no arm, the values up to `hi` are not all
/// arms.
pub proof fn lemma_arms_none(items: Seq<ValueView>, lo: int, mid: int, hi: int)
    requires
        0 <= lo <= mid <= hi <= items.len(),
        arms_spec(items, lo, mid) is None,
    ensures
        arms_spec(items, lo, hi) is None,
    decreases hi - mid,
{
    if mid < hi {
        lemma_arms_none(items, lo, mid, hi - 1);
    }
}

fn clauses_opt(items: &Vec<Value>, lo: usize) -> (r: Option<Vec<WhereClause>>)
    requires
        lo <= items@.len(),
    ensures
        match clauses_spec(value_views(items@), lo as int, items@.len() as int) {
            Some(cs) => r is Some && clause_views(r->0@) == cs,
            None => r is None,
        },
    decreases items, 0int,
{
    let ghost views = value_views(items@);
    let mut out: Vec<WhereClause> = Vec::new();
    let mut i: usize = lo;
    assert(clause_views(out@) =~= Seq::<WhereClauseView>::empty());
    while i < items.len()
        invariant
            lo <= i <= items@.len(),
            views == value_views(items@),
            clauses_spec(views, lo as int, i as int) == Some(clause_views(out@)),
        decreases items@.len() - i,
    {
        assert(decreases_to!(items => items[i as int]));
        match clause_opt(&items[i]) {
            Some(c) => {
                let ghost before = clause_views(out@);
                out.push(c);
                assert(clause_views(out@) =~= before.push(c@));
            },
            None => {
                proof {
                    assert(clauses_spec(views, lo as int, i + 1) is None);
                    lemma_clauses_none(views, lo as int, i + 1, items@.len() as int);
                }
                return None;
            },
        }
        i += 1;
    }
    Some(out)
}

fn arms_opt(items: &Vec<Value>, lo: usize) -> (r: Option<Vec<OrWhereClause>>)
    requires
        lo <= items@.len(),
    ensures
        match arms_spec(value_views(items@), lo as int, items@.len() as int) {
            Some(cs) => r is Some && or_clause_views(r->0@) == cs,
            None => r is None,
        },
    decreases items, 0int,
{
    let ghost views = value_views(items@);
    let mut out: Vec<OrWhereClause> = Vec::new();
    let mut i: usize = lo;
    assert(or_clause_views(out@) =~= Seq::<OrWhereClauseView>::empty());
    while i < items.len()
        invariant
            lo <= i <= items@.len(),
            views == value_views(items@),
            arms_spec(views, lo as int, i as int) == Some(or_clause_views(out@)),
        decreases items@.len() - i,
    {
        assert(decreases_to!(items => items[i as int]));
        match arm_opt(&items[i]) {
            Some(c) => {
                let ghost before = or_clause_views(out@);
                out.push(c);
                assert(or_clause_views(out@) =~= before.push(c@));
            },
            None => {
                proof {
                    assert(arms_spec(views, lo as int, i + 1) is None);
                    lemma_arms_none(views, lo as int, i + 1, items@.len() as int);
                }
                return None;
            },
        }
        i += 1;
    }
    Some(out)
}

fn or_join_opt(items: &Vec<Value>) -> (r: Option<WhereClause>)
    ensures
        r is Some ==> r->0@ is OrJoin && r->0@->OrJoin_unify_vars is Explicit,
        ({
            let views = value_views(items@);
            if views.len() >= 3 && is_named(views[0], "or-join"@) && rule_vars_spec(views[1]) is Some
                && arms_spec(views, 2, views.len() as int) is Some {
                r is Some && r->0@ == (WhereClauseView::OrJoin {
                    unify_vars: UnifyVarsView::Explicit(rule_vars_spec(views[1])->0),
                    arms: arms_spec(views, 2, views.len() as int)->0,
                })
            } else {
                r is None
            }
        }),
    decreases items, 1int,
{
    if items.len() < 3 {
        return None;
    }
    assert(value_views(items@)[0] == items@[0]@);
    assert(value_views(items@)[1] == items@[1]@);
    if !items[0].is_symbol("or-join") {
        return None;
    }
    match rule_vars_opt(&items[1]) {
        Some(vars) => match arms_opt(items, 2) {
            Some(arms) => {
                let r = WhereClause::OrJoin(OrJoin::new(UnifyVars::Explicit(vars), arms));
                proof {
                    lemma_all_arms_view(arms@);
                }
                Some(r)
            },
            None => None,
        },
        None => None,
    }
}

fn or_opt(items: &Vec<Value>) -> (r: Option<WhereClause>)
    ensures
        ({
            let views = value_views(items@);
            if views.len() >= 2 && is_named(views[0], "or"@) && arms_spec(views, 1, views.len() as int) is Some {
                r is Some && r->0@ == (WhereClauseView::OrJoin {
                    unify_vars: UnifyVarsView::Implicit,
                    arms: arms_spec(views, 1, views.len() as int)->0,
                })
            } else {
                r is None
            }
        }),
    decreases items, 1int,
{
    if items.len() < 2 {
        return None;
    }
    assert(value_views(items@)[0] == items@[0]@);
    if !items[0].is_symbol("or") {
        return None;
    }
    match arms_opt(items, 1) {
        Some(arms) => {
            let r = WhereClause::OrJoin(OrJoin::new(UnifyVars::Implicit, arms));
            proof {
                lemma_all_arms_view(arms@);
            }
            Some(r)
        },
        None => None,
    }
}

fn not_join_opt(items: &Vec<Value>) -> (r: Option<WhereClause>)
    ensures
        ({
            let views = value_views(items@);
            if views.len() >= 3 && is_named(views[0], "not-join"@) && rule_vars_spec(views[1]) is Some
                && clauses_spec(views, 2, views.len() as int) is Some {
                r is Some && r->0@ == (WhereClauseView::NotJoin {
                    unify_vars: UnifyVarsView::Explicit(rule_vars_spec(views[1])->0),
                    clauses: clauses_spec(views, 2, views.len() as int)->0,
                })
            } else {
                r is None
            }
        }),
    decreases items, 1int,
{
    if items.len() < 3 {
        return None;
    }
    assert(value_views(items@)[0] == items@[0]@);
    assert(value_views(items@)[1] == items@[1]@);
    if !items[0].is_symbol("not-join") {
        return None;
    }
    match rule_vars_opt(&items[1]) {
        Some(vars) => match clauses_opt(items, 2) {
            Some(clauses) => {
                let r = WhereClause::NotJoin(NotJoin { unify_vars: UnifyVars::Explicit(vars), clauses });
                proof {
                    lemma_all_clauses_view(clauses@);
                }
                Some(r)
            },
            None => None,
        },
        None => None,
    }
}

fn not_opt(items: &Vec<Value>) -> (r: Option<WhereClause>)
    ensures
        ({
            let views = value_views(items@);
            if views.len() >= 2 && is_named(views[0], "not"@) && clauses_spec(views, 1, views.len() as int) is Some {
                r is Some && r->0@ == (WhereClauseView::NotJoin {
                    unify_vars: UnifyVarsView::Implicit,
                    clauses: clauses_spec(views, 1, views.len() as int)->0,
                })
            } else {
                r is None
            }
        }),
    decreases items, 1int,
{
    if items.len() < 2 {
        return None;
    }
    assert(value_views(items@)[0] == items@[0]@);
    if !items[0].is_symbol("not") {
        return None;
    }
    match clauses_opt(items, 1) {
        Some(clauses) => {
            let r = WhereClause::NotJoin(NotJoin { unify_vars: UnifyVars::Implicit, clauses });
            proof {
                lemma_all_clauses_view(clauses@);
            }
            Some(r)
        },
        None => None,
    }
}

fn seq_clause_opt(items: &Vec<Value>) -> (r: Option<WhereClause>)
    ensures
        found(r, seq_clause_spec(value_views(items@))),
    decreases items, 2int,
{
    match or_join_opt(items) {
        Some(c) => {
            return Some(c);
        },
        None => {},
    }
    match or_opt(items) {
        Some(c) => {
            return Some(c);
        },
        None => {},
    }
    match not_join_opt(items) {
        Some(c) => {
            return Some(c);
        },
        None => {},
    }
    not_opt(items)
}

fn clause_opt(v: &Value) -> (r: Option<WhereClause>)
    ensures
        found(r, clause_spec(v@)),
    decreases v, 0int,
{
    match pattern_opt(v) {
        Some(p) => {
            return Some(WhereClause::Pattern(p));
        },
        None => {},
    }
    let joined = match v {
        Value::Vector(items) => {
            proof {
                lemma_all_values_view(items@);
            }
            seq_clause_opt(items)
        },
        Value::List(items) => {
            proof {
                lemma_all_values_view(items@);
            }
            seq_clause_opt(items)
        },
        _ => None,
    };
    match joined {
        Some(c) => Some(c),
        None => match pred_opt(v) {
            Some(p) => Some(WhereClause::Pred(p)),
            None => None,
        },
    }
}

fn and_opt(items: &Vec<Value>) -> (r: Option<Vec<WhereClause>>)
    ensures
        match and_spec(value_views(items@)) {
            Some(cs) => r is Some && clause_views(r->0@) == cs,
            None => r is None,
        },
    decreases items, 1int,
{
    if items.len() < 2 {
        return None;
    }
    assert(value_views(items@)[0] == items@[0]@);
    if !items[0].is_symbol("and") {
        return None;
    }
    clauses_opt(items, 1)
}

fn arm_opt(v: &Value) -> (r: Option<OrWhereClause>)
    ensures
        found(r, arm_spec(v@)),
    decreases v, 1int,
{
    match clause_opt(v) {
        Some(c) => {
            return Some(OrWhereClause::Clause(c));
        },
        None => {},
    }
    let conj = match v {
        Value::Vector(items) => {
            proof {
                lemma_all_values_view(items@);
            }
            and_opt(items)
        },
        Value::List(items) => {
            proof {
                lemma_all_values_view(items@);
            }
            and_opt(items)
        },
        _ => None,
    };
    match conj {
        Some(cs) => {
            let r = OrWhereClause::And(cs);
            proof {
                lemma_all_clauses_view(cs@);
            }
            Some(r)
        },
        None => None,
    }
}

fn find_coll_opt(v: &Value) -> (r: Option<FindSpec>)
    ensures
        found(r, find_coll_spec(v@)),
{
    match v.as_vector() {
        Some(items) => {
            if items.len() != 2 {
                return None;
            }
            assert(value_views(items@)[0] == items@[0]@);
            assert(value_views(items@)[1] == items@[1]@);
            match variable_opt(&items[0]) {
                Some(var) => if items[1].is_symbol("...") {
                    Some(FindSpec::FindColl(Element::Variable(var)))
                } else {
                    None
                },
                None => None,
            }
        },
        None => None,
    }
}

fn elements_opt(items: &Vec<Value>) -> (r: Option<Vec<Element>>)
    ensures
        r is Some <==> items@.len() >= 1 && all_variables(value_views(items@)),
        r is Some ==> element_names(r->0@) == variable_names(value_views(items@)),
{
    if items.len() < 1 {
        return None;
    }
    match variables_of(items) {
        Ok(vars) => {
            let ghost names = names_of(vars@);
            let n = vars.len();
            let mut taken = crate::translate::ConsumableVec::with_vec(vars);
            let mut out: Vec<Element> = Vec::new();
            let mut i: usize = 0;
            while i < n
                invariant
                    i <= n == names.len(),
                    taken@.len() == n,
                    forall|j: int| i <= j < n ==> (#[trigger] taken@[j]) is Some && taken@[j]->0@ == names[j],
                    out@.len() == i,
                    forall|j: int| 0 <= j < i ==> (#[trigger] out@[j])@ == names[j],
                decreases n - i,
            {
                let var = taken.take_dangerously(i);
                out.push(Element::Variable(var));
                i += 1;
            }
            assert(element_names(out@) =~= names);
            Some(out)
        },
        Err(_) => None,
    }
}

fn find_tuple_opt(v: &Value) -> (r: Option<FindSpec>)
    ensures
        found(r, find_tuple_spec(v@)),
{
    match v.as_vector() {
        Some(items) => match elements_opt(items) {
            Some(es) => Some(FindSpec::FindTuple(es)),
            None => None,
        },
        None => None,
    }
}

fn find_spec_opt(items: &Vec<Value>) -> (r: Option<FindSpec>)
    ensures
        found(r, find_spec_spec(value_views(items@))),
{
    let ghost views = value_views(items@);
    if items.len() >= 2 {
        assert(views[0] == items@[0]@);
        assert(views[1] == items@[1]@);
        match variable_opt(&items[0]) {
            Some(var) => {
                if items[1].is_symbol(".") {
                    proof {
                        reveal_strlit(".");
                        assert("."@ =~= seq!['.']);
                    }
                    if items.len() == 2 {
                        return Some(FindSpec::FindScalar(Element::Variable(var)));
                    } else {
                        return None;
                    }
                }
                proof {
                    reveal_strlit(".");
                    assert("."@ =~= seq!['.']);
                }
            },
            None => {},
        }
    }
    if items.len() >= 1 {
        assert(views[0] == items@[0]@);
        match find_coll_opt(&items[0]) {
            Some(spec) => {
                if items.len() == 1 {
                    return Some(spec);
                } else {
                    return None;
                }
            },
            None => {},
        }
        match find_tuple_opt(&items[0]) {
            Some(spec) => {
                if items.len() == 1 {
                    return Some(spec);
                } else {
                    return None;
                }
            },
            None => {},
        }
    }
    match elements_opt(items) {
        Some(es) => Some(FindSpec::FindRel(es)),
        None => None,
    }
}

fn has_duplicate(vars: &Vec<Variable>) -> (r: bool)
    ensures
        r == !distinct_names(names_of(vars@)),
{
    let ghost names = names_of(vars@);
    let mut j: usize = 0;
    while j < vars.len()
        invariant
            j <= vars@.len(),
            names == names_of(vars@),
            forall|a: int, b: int| 0 <= a < b < j ==> names[a] != names[b],
        decreases vars@.len() - j,
    {
        let mut i: usize = 0;
        while i < j
            invariant
                i <= j < vars@.len(),
                names == names_of(vars@),
                forall|a: int| 0 <= a < i ==> names[a] != names[j as int],
            decreases j - i,
        {
            if vars[i].same(&vars[j]) {
                assert(names[i as int] == names[j as int]);
                return true;
            }
            i += 1;
        }
        j += 1;
    }
    false
}

fn vars_of(items: &Vec<Value>) -> (r: Result<Vec<Variable>, ParseError>)
    ensures
        match vars_spec(value_views(items@)) {
            Ok(names) => r is Ok && names_of(r->Ok_0@) == names,
            Err(e) => r is Err && r->Err_0@ == e,
        },
{
    match variables_of(items) {
        Ok(vars) => {
            if has_duplicate(&vars) {
                Err(ParseError::DuplicateVariableError)
            } else {
                Ok(vars)
            }
        },
        Err(i) => {
            assert(value_views(items@)[i as int] == items@[i as int]@);
            Err(ParseError::NotAVariableError(items[i].clone()))
        },
    }
}

fn limit_of(items: &Vec<Value>) -> (r: Result<Limit, ParseError>)
    ensures
        match limit_spec(value_views(items@)) {
            Ok(l) => r is Ok && r->Ok_0@ == l,
            Err(e) => r is Err && r->Err_0@ == e,
        },
{
    if items.len() != 1 {
        let copies = clone_values(items);
        proof {
            lemma_all_values_view(copies@);
        }
        let all = Value::Vector(copies);
        return Err(ParseError::InvalidLimit(all));
    }
    assert(value_views(items@)[0] == items@[0]@);
    match variable_opt(&items[0]) {
        Some(var) => Ok(Limit::Variable(var)),
        None => match natural_opt(&items[0]) {
            Some(n) => Ok(Limit::Fixed(n)),
            None => Err(ParseError::InvalidLimit(items[0].clone())),
        },
    }
}

fn orders_opt(items: &Vec<Value>) -> (r: Option<Vec<Order>>)
    ensures
        match orders_spec(value_views(items@)) {
            Some(os) => r is Some && order_views(r->0@) == os,
            None => r is None,
        },
{
    if items.len() < 1 {
        return None;
    }
    let ghost views = value_views(items@);
    let mut out: Vec<Order> = Vec::new();
    let mut i: usize = 0;
    while i < items.len()
        invariant
            i <= items@.len(),
            views == value_views(items@),
            out@.len() == i,
            forall|j: int| 0 <= j < i ==> order_spec(#[trigger] views[j]) == Some(out@[j]@),
        decreases items@.len() - i,
    {
        assert(views[i as int] == items@[i as int]@);
        match order_opt(&items[i]) {
            Some(o) => {
                out.push(o);
            },
            None => {
                return None;
            },
        }
        i += 1;
    }
    assert(order_views(out@) =~= orders_spec(views)->0);
    Some(out)
}

fn flatten_pairs(pairs: &Vec<Value>) -> (r: Vec<Value>)
    requires
        pairs@.len() % 2 == 0,
    ensures
        value_views(r@) == flattened(value_views(pairs@), pairs@.len() as int / 2),
{
    let ghost views = value_views(pairs@);
    let mut out: Vec<Value> = Vec::new();
    let mut n: usize = 0;
    let half = pairs.len() / 2;
    assert(value_views(out@) =~= flattened(views, 0));
    while n < half
        invariant
            n <= half,
            pairs@.len() <= usize::MAX,
            half == pairs@.len() as int / 2,
            pairs@.len() % 2 == 0,
            views == value_views(pairs@),
            value_views(out@) == flattened(views, n as int),
        decreases half - n,
    {
        assert(2 * n + 1 < pairs@.len());
        assert(views[2 * n as int] == pairs@[2 * n as int]@);
        assert(views[2 * n + 1] == pairs@[2 * n + 1]@);
        let ghost before = value_views(out@);
        let key = pairs[2 * n].clone();
        out.push(key);
        assert(value_views(out@) =~= before.push(key@));
        match &pairs[2 * n + 1] {
            Value::Vector(items) => {
                proof {
                    lemma_all_values_view(items@);
                }
                let ghost mid = value_views(out@);
                let mut i: usize = 0;
                assert(value_views(items@).subrange(0, 0) =~= Seq::<ValueView>::empty());
                assert(mid + Seq::<ValueView>::empty() =~= mid);
                while i < items.len()
                    invariant
                        i <= items@.len(),
                        value_views(out@) == mid + value_views(items@).subrange(0, i as int),
                    decreases items@.len() - i,
                {
                    let ghost sofar = value_views(out@);
                    let c = items[i].clone();
                    out.push(c);
                    assert(value_views(out@) =~= sofar.push(c@));
                    assert(value_views(out@) =~= mid + value_views(items@).subrange(0, i + 1));
                    i += 1;
                }
                assert(value_views(items@).subrange(0, i as int) =~= value_views(items@));
            },
            other => {
                let ghost mid = value_views(out@);
                let c = other.clone();
                out.push(c);
                assert(value_views(out@) =~= mid.push(c@));
            },
        }
        n += 1;
    }
    out
}

fn query_items_of(v: &Value) -> (r: Option<Vec<Value>>)
    ensures
        match query_items(v@) {
            Some(items) => r is Some && value_views(r->0@) == items,
            None => r is None,
        },
{
    match v {
        Value::Vector(items) => {
            proof {
                lemma_all_values_view(items@);
            }
            Some(clone_values(items))
        },
        Value::Mapping(pairs) => {
            proof {
                lemma_all_values_view(pairs@);
            }
            if pairs.len() % 2 == 0 {
                Some(flatten_pairs(pairs))
            } else {
                None
            }
        },
        _ => None,
    }
}

fn is_key_name(name: &str) -> (r: bool)
    ensures
        r == is_query_key(name@),
{
    name.eq("find") || name.eq("in") || name.eq("limit") || name.eq("order") || name.eq("where")
        || name.eq("with")
}

fn same_key(a: &Value, b: &Value) -> (r: bool)
    requires
        a is Keyword,
        b is Keyword,
    ensures
        r == (a@ == b@),
{
    match (a, b) {
        (Value::Keyword(x), Value::Keyword(y)) => x.0 == y.0,
        _ => false,
    }
}

fn sections_valid(items: &Vec<Value>) -> (r: bool)
    ensures
        r == sections_ok(value_views(items@)),
{
    let ghost views = value_views(items@);
    if items.len() == 0 {
        return false;
    }
    assert(views[0] == items@[0]@);
    match &items[0] {
        Value::Keyword(_) => {},
        _ => {
            return false;
        },
    }
    let mut j: usize = 0;
    while j < items.len()
        invariant
            j <= items@.len(),
            views == value_views(items@),
            forall|a: int| 0 <= a < j && (#[trigger] views[a]) is Keyword ==> is_query_key(views[a]->Keyword_0),
            forall|a: int, b: int|
                0 <= a < b < j && (#[trigger] views[a]) is Keyword && (#[trigger] views[b]) is Keyword
                    ==> views[a] != views[b],
        decreases items@.len() - j,
    {
        assert(views[j as int] == items@[j as int]@);
        match &items[j] {
            Value::Keyword(k) => {
                if !is_key_name(k.0.as_str()) {
                    return false;
                }
                let mut i: usize = 0;
                while i < j
                    invariant
                        i <= j < items@.len(),
                        views == value_views(items@),
                        items@[j as int] is Keyword,
                        forall|a: int| 0 <= a < i && (#[trigger] views[a]) is Keyword ==> views[a] != views[j as int],
                    decreases j - i,
                {
                    assert(views[i as int] == items@[i as int]@);
                    assert(views[j as int] == items@[j as int]@);
                    match &items[i] {
                        Value::Keyword(_) => {
                            if same_key(&items[i], &items[j]) {
                                return false;
                            }
                        },
                        _ => {},
                    }
                    i += 1;
                }
            },
            _ => {},
        }
        j += 1;
    }
    true
}

fn find_key(items: &Vec<Value>, name: &str) -> (r: Option<usize>)
    ensures
        match key_position(value_views(items@), name@, 0) {
            Some(i) => r is Some && r->0 as int == i && i < items@.len(),
            None => r is None,
        },
{
    let ghost views = value_views(items@);
    let mut i: usize = 0;
    while i < items.len()
        invariant
            i <= items@.len(),
            views == value_views(items@),
            key_position(views, name@, 0) == key_position(views, name@, i as int),
        decreases items@.len() - i,
    {
        assert(views[i as int] == items@[i as int]@);
        match &items[i] {
            Value::Keyword(k) => {
                if k.0.as_str().eq(name) {
                    return Some(i);
                }
            },
            _ => {},
        }
        i += 1;
    }
    None
}

fn section_of(items: &Vec<Value>, name: &str) -> (r: Option<Vec<Value>>)
    ensures
        match section(value_views(items@), name@) {
            Some(s) => r is Some && value_views(r->0@) == s,
            None => r is None,
        },
{
    let ghost views = value_views(items@);
    match find_key(items, name) {
        Some(k) => {
            assert(k < items.len());
            let mut out: Vec<Value> = Vec::new();
            let mut i: usize = k + 1;
            assert(value_views(out@) =~= views.subrange(k + 1, k + 1));
            while i < items.len()
                invariant
                    k < i <= items@.len(),
                    views == value_views(items@),
                    key_position(views, name@, 0) == Some(k as int),
                    section_end(views, k + 1) == section_end(views, i as int),
                    value_views(out@) == views.subrange(k + 1, i as int),
                decreases items@.len() - i,
            {
                assert(views[i as int] == items@[i as int]@);
                match &items[i] {
                    Value::Keyword(_) => {
                        assert(section_end(views, i as int) == i);
                        return Some(out);
                    },
                    _ => {},
                }
                assert(section_end(views, i as int) == section_end(views, i + 1));
                let ghost before = value_views(out@);
                let c = items[i].clone();
                out.push(c);
                assert(value_views(out@) =~= before.push(c@));
                assert(value_views(out@) =~= views.subrange(k + 1, i + 1));
                i += 1;
            }
            Some(out)
        },
        None => None,
    }
}

fn names_include(vars: &Vec<Variable>, v: &Variable) -> (r: bool)
    ensures
        r == names_of(vars@).contains(v@),
{
    let ghost names = names_of(vars@);
    let mut i: usize = 0;
    while i < vars.len()
        invariant
            i <= vars@.len(),
            names == names_of(vars@),
            forall|j: int| 0 <= j < i ==> names[j] != v@,
        decreases vars@.len() - i,
    {
        if vars[i].same(v) {
            assert(names[i as int] == v@);
            return true;
        }
        i += 1;
    }
    false
}

/// The query that `v` is.
pub fn parse_find(v: &Value) -> (r: Result<FindQuery, ParseError>)
    ensures
        match query_spec(v@) {
            Ok(q) => r is Ok && r->Ok_0@ == q,
            Err(e) => r is Err && r->Err_0@ == e,
        },
{
    let items = match query_items_of(v) {
        Some(items) => items,
        None => {
            return Err(ParseError::InvalidInputError(v.clone()));
        },
    };
    if !sections_valid(&items) {
        return Err(ParseError::InvalidInputError(v.clone()));
    }
    let find_spec = match section_of(&items, "find") {
        None => {
            return Err(ParseError::MissingFieldError(Keyword(crate::text::owned("find"))));
        },
        Some(s) => match find_spec_opt(&s) {
            Some(spec) => spec,
            None => {
                return Err(ParseError::FindParseError);
            },
        },
    };
    let in_vars = match section_of(&items, "in") {
        Some(s) => match vars_of(&s) {
            Ok(vars) => vars,
            Err(e) => {
                return Err(e);
            },
        },
        None => {
            let none: Vec<Variable> = Vec::new();
            assert(names_of(none@) =~= Seq::<Seq<char>>::empty());
            none
        },
    };
    let limit = match section_of(&items, "limit") {
        Some(s) => match limit_of(&s) {
            Ok(l) => l,
            Err(e) => {
                return Err(e);
            },
        },
        None => Limit::Unlimited,
    };
    let order = match section_of(&items, "order") {
        Some(s) => match orders_opt(&s) {
            Some(os) => Some(os),
            None => {
                return Err(ParseError::FindParseError);
            },
        },
        None => None,
    };
    let where_clauses = match section_of(&items, "where") {
        Some(s) => {
            if s.len() < 1 {
                return Err(ParseError::WhereParseError);
            }
            match clauses_opt(&s, 0) {
                Some(cs) => cs,
                None => {
                    return Err(ParseError::WhereParseError);
                },
            }
        },
        None => {
            return Err(ParseError::MissingFieldError(Keyword(crate::text::owned("where"))));
        },
    };
    let with = match section_of(&items, "with") {
        Some(s) => match vars_of(&s) {
            Ok(vars) => vars,
            Err(e) => {
                return Err(e);
            },
        },
        None => {
            let none: Vec<Variable> = Vec::new();
            assert(names_of(none@) =~= Seq::<Seq<char>>::empty());
            none
        },
    };
    match &limit {
        Limit::Variable(var) => {
            if !names_include(&in_vars, var) {
                return Err(ParseError::UnknownLimitVar(var.name()));
            }
        },
        _ => {},
    }
    Ok(
        FindQuery {
            find_spec,
            default_source: SrcVar::DefaultSrc,
            with,
            in_vars,
            in_sources: Vec::new(),
            limit,
            where_clauses,
            order,
        },
    )
}

/// The `or-join` that a value is.
pub open spec fn or_join_clause_spec(v: ValueView) -> Option<WhereClauseView> {
    match seq_items(v) {
        Some(items) => if items.len() >= 3 && is_named(items[0], "or-join"@) && rule_vars_spec(
            items[1],
        ) is Some && arms_spec(items, 2, items.len() as int) is Some {
            Some(
                WhereClauseView::OrJoin {
                    unify_vars: UnifyVarsView::Explicit(rule_vars_spec(items[1])->0),
                    arms: arms_spec(items, 2, items.len() as int)->0,
                },
            )
        } else {
            None
        },
        None => None,
    }
}

/// The `or` that a value is.
pub open spec fn or_clause_spec(v: ValueView) -> Option<WhereClauseView> {
    match seq_items(v) {
        Some(items) => if items.len() >= 2 && is_named(items[0], "or"@) && arms_spec(
            items,
            1,
            items.len() as int,
        ) is Some {
            Some(
                WhereClauseView::OrJoin {
                    unify_vars: UnifyVarsView::Implicit,
                    arms: arms_spec(items, 1, items.len() as int)->0,
                },
            )
        } else {
            None
        },
        None => None,
    }
}

/// The `not-join` that a value is.
pub open spec fn not_join_clause_spec(v: ValueView) -> Option<WhereClauseView> {
    match seq_items(v) {
        Some(items) => if items.len() >= 3 && is_named(items[0], "not-join"@) && rule_vars_spec(
            items[1],
        ) is Some && clauses_spec(items, 2, items.len() as int) is Some {
            Some(
                WhereClauseView::NotJoin {
                    unify_vars: UnifyVarsView::Explicit(rule_vars_spec(items[1])->0),
                    clauses: clauses_spec(items, 2, items.len() as int)->0,
                },
            )
        } else {
            None
        },
        None => None,
    }
}

/// The `not` that a value is.
pub open spec fn not_clause_spec(v: ValueView) -> Option<WhereClauseView> {
    match seq_items(v) {
        Some(items) => if items.len() >= 2 && is_named(items[0], "not"@) && clauses_spec(
            items,
            1,
            items.len() as int,
        ) is Some {
            Some(
                WhereClauseView::NotJoin {
                    unify_vars: UnifyVarsView::Implicit,
                    clauses: clauses_spec(items, 1, items.len() as int)->0,
                },
            )
        } else {
            None
        },
        None => None,
    }
}

/// The `(and clause…)` that a value is.
pub open spec fn or_and_clause_spec(v: ValueView) -> Option<OrWhereClauseView> {
    match seq_items(v) {
        Some(items) => match and_spec(items) {
            Some(cs) => Some(OrWhereClauseView::And(cs)),
            None => None,
        },
        None => None,
    }
}

/// The scalar form `?x .`.
pub open spec fn find_scalar_spec(items: Seq<ValueView>) -> Option<FindSpecView> {
    if items.len() == 2 && variable_of(items[0]) is Some && is_named(items[1], seq!['.']) {
        Some(FindSpecView::FindScalar(variable_of(items[0])->0))
    } else {
        None
    }
}

/// The parsers of what is common to the sections of a query.
pub struct Query;

/// The parsers of the clauses of `:where`.
pub struct Where;

/// The parsers of `:find` and of the query as a whole.
pub struct Find;

impl Query {
    /// The variable that `v` names.
    pub fn variable(v: &Value) -> (r: Result<Variable, ParseError>)
        ensures
            parsed(r, variable_of(v@), ParseErrorView::NotAVariableError(v@)),
    {
        match variable_opt(v) {
            Some(var) => Ok(var),
            None => Err(ParseError::NotAVariableError(v.clone())),
        }
    }

    /// The source that `v` names.
    pub fn source_var(v: &Value) -> (r: Result<SrcVar, ParseError>)
        ensures
            parsed(r, source_var_of(v@), ParseErrorView::InvalidInputError(v@)),
    {
        match source_var_opt(v) {
            Some(src) => Ok(src),
            None => Err(ParseError::InvalidInputError(v.clone())),
        }
    }

    /// The name of a predicate: any plain symbol.
    pub fn predicate_fn(v: &Value) -> (r: Result<PlainSymbol, ParseError>)
        ensures
            parsed(
                r,
                if v@ is PlainSymbol {
                    Some(v@->PlainSymbol_0)
                } else {
                    None
                },
                ParseErrorView::InvalidInputError(v@),
            ),
    {
        match v {
            Value::PlainSymbol(s) => Ok(s.clone()),
            _ => Err(ParseError::InvalidInputError(v.clone())),
        }
    }

    /// The argument that `v` is.
    pub fn fn_arg(v: &Value) -> (r: Result<FnArg, ParseError>)
        ensures
            parsed(r, fn_arg_spec(v@), ParseErrorView::InvalidInputError(v@)),
    {
        match fn_arg_opt(v) {
            Some(a) => Ok(a),
            None => Err(ParseError::InvalidInputError(v.clone())),
        }
    }

    /// The arguments that the values are.
    pub fn arguments(items: &Vec<Value>) -> (r: Result<Vec<FnArg>, ParseError>)
        ensures
            match fn_args_spec(value_views(items@), 0, items@.len() as int) {
                Some(args) => r is Ok && fn_arg_views(r->Ok_0@) == args,
                None => r is Err && r->Err_0 is WhereParseError,
            },
    {
        match fn_args_opt(items, 0) {
            Some(args) => Ok(args),
            None => Err(ParseError::WhereParseError),
        }
    }

    /// The direction that `v` names: `asc` or `desc`.
    pub fn direction(v: &Value) -> (r: Result<Direction, ParseError>)
        ensures
            match direction_of(v@) {
                Some(d) => r == Ok::<Direction, ParseError>(d),
                None => r is Err && r->Err_0@ == ParseErrorView::InvalidInputError(v@),
            },
    {
        match direction_opt(v) {
            Some(d) => Ok(d),
            None => Err(ParseError::InvalidInputError(v.clone())),
        }
    }

    /// The order entry that `v` is.
    pub fn order(v: &Value) -> (r: Result<Order, ParseError>)
        ensures
            parsed(r, order_spec(v@), ParseErrorView::InvalidInputError(v@)),
    {
        match order_opt(v) {
            Some(o) => Ok(o),
            None => Err(ParseError::InvalidInputError(v.clone())),
        }
    }

    /// The natural number that `v` is. Zero, negative integers and values
    /// that are no integers are refused.
    pub fn natural_number(v: &Value) -> (r: Result<u64, ParseError>)
        ensures
            match natural_number_spec(v@) {
                Some(n) => r is Ok && r->Ok_0 as int == n,
                None => r is Err && r->Err_0@ == ParseErrorView::InvalidLimit(v@),
            },
    {
        match natural_opt(v) {
            Some(n) => Ok(n),
            None => Err(ParseError::InvalidLimit(v.clone())),
        }
    }
}

impl Where {
    /// The value place of a pattern: a variable, nothing, or a constant.
    pub fn pattern_value_place(v: &Value) -> (r: Result<PatternValuePlace, ParseError>)
        ensures
            parsed(r, value_place_spec(v@), ParseErrorView::WhereParseError),
    {
        match value_place_opt(v) {
            Some(p) => Ok(p),
            None => Err(ParseError::WhereParseError),
        }
    }

    /// The entity, attribute or transaction place of a pattern: a variable,
    /// nothing, an entity id, or a keyword.
    pub fn pattern_non_value_place(v: &Value) -> (r: Result<PatternNonValuePlace, ParseError>)
        ensures
            parsed(r, non_value_place_spec(v@), ParseErrorView::WhereParseError),
    {
        match non_value_place_opt(v) {
            Some(p) => Ok(p),
            None => Err(ParseError::WhereParseError),
        }
    }

    /// The variables of a rule: a vector or list of one variable or more.
    pub fn rule_vars(v: &Value) -> (r: Result<Vec<Variable>, ParseError>)
        ensures
            match rule_vars_spec(v@) {
                Some(names) => r is Ok && names_of(r->Ok_0@) == names,
                None => r is Err && r->Err_0 is WhereParseError,
            },
    {
        match rule_vars_opt(v) {
            Some(vars) => Ok(vars),
            None => Err(ParseError::WhereParseError),
        }
    }

    /// An arm of an `or` that is a single clause.
    pub fn or_pattern_clause(v: &Value) -> (r: Result<OrWhereClause, ParseError>)
        ensures
            parsed(
                r,
                match clause_spec(v@) {
                    Some(c) => Some(OrWhereClauseView::Clause(c)),
                    None => None,
                },
                ParseErrorView::WhereParseError,
            ),
    {
        match clause_opt(v) {
            Some(c) => Ok(OrWhereClause::Clause(c)),
            None => Err(ParseError::WhereParseError),
        }
    }

    /// An arm of an `or` that is `(and clause…)`.
    pub fn or_and_clause(v: &Value) -> (r: Result<OrWhereClause, ParseError>)
        ensures
            parsed(r, or_and_clause_spec(v@), ParseErrorView::WhereParseError),
    {
        match v.as_seq() {
            Some(items) => match and_opt(items) {
                Some(cs) => {
                    let r = OrWhereClause::And(cs);
                    proof {
                        lemma_all_clauses_view(cs@);
                    }
                    Ok(r)
                },
                None => Err(ParseError::WhereParseError),
            },
            None => Err(ParseError::WhereParseError),
        }
    }

    /// An arm of an `or`: a clause, or `(and clause…)`.
    pub fn or_where_clause(v: &Value) -> (r: Result<OrWhereClause, ParseError>)
        ensures
            parsed(r, arm_spec(v@), ParseErrorView::WhereParseError),
    {
        match arm_opt(v) {
            Some(c) => Ok(c),
            None => Err(ParseError::WhereParseError),
        }
    }

    /// `(or arm…)`.
    pub fn or_clause(v: &Value) -> (r: Result<WhereClause, ParseError>)
        ensures
            parsed(r, or_clause_spec(v@), ParseErrorView::WhereParseError),
    {
        match v.as_seq() {
            Some(items) => match or_opt(items) {
                Some(c) => Ok(c),
                None => Err(ParseError::WhereParseError),
            },
            None => Err(ParseError::WhereParseError),
        }
    }

    /// `(or-join [vars] arm…)`.
    pub fn or_join_clause(v: &Value) -> (r: Result<WhereClause, ParseError>)
        ensures
            parsed(r, or_join_clause_spec(v@), ParseErrorView::WhereParseError),
    {
        match v.as_seq() {
            Some(items) => match or_join_opt(items) {
                Some(c) => Ok(c),
                None => Err(ParseError::WhereParseError),
            },
            None => Err(ParseError::WhereParseError),
        }
    }

    /// `(not clause…)`.
    pub fn not_clause(v: &Value) -> (r: Result<WhereClause, ParseError>)
        ensures
            parsed(r, not_clause_spec(v@), ParseErrorView::WhereParseError),
    {
        match v.as_seq() {
            Some(items) => match not_opt(items) {
                Some(c) => Ok(c),
                None => Err(ParseError::WhereParseError),
            },
            None => Err(ParseError::WhereParseError),
        }
    }

    /// `(not-join [vars] clause…)`.
    pub fn not_join_clause(v: &Value) -> (r: Result<WhereClause, ParseError>)
        ensures
            parsed(r, not_join_clause_spec(v@), ParseErrorView::WhereParseError),
    {
        match v.as_seq() {
            Some(items) => match not_join_opt(items) {
                Some(c) => Ok(c),
                None => Err(ParseError::WhereParseError),
            },
            None => Err(ParseError::WhereParseError),
        }
    }

    /// A predicate `[(operator args…)]`.
    pub fn pred(v: &Value) -> (r: Result<WhereClause, ParseError>)
        ensures
            parsed(
                r,
                match pred_spec(v@) {
                    Some(p) => Some(WhereClauseView::Pred(p)),
                    None => None,
                },
                ParseErrorView::WhereParseError,
            ),
    {
        match pred_opt(v) {
            Some(p) => Ok(WhereClause::Pred(p)),
            None => Err(ParseError::WhereParseError),
        }
    }

    /// A pattern `[source? entity attribute value? tx?]`. A backward
    /// attribute turns the pattern round; that fails where the value is a
    /// constant.
    pub fn pattern(v: &Value) -> (r: Result<WhereClause, ParseError>)
        ensures
            parsed(
                r,
                match pattern_spec(v@) {
                    Some(p) => Some(WhereClauseView::Pattern(p)),
                    None => None,
                },
                ParseErrorView::WhereParseError,
            ),
    {
        match pattern_opt(v) {
            Some(p) => Ok(WhereClause::Pattern(p)),
            None => Err(ParseError::WhereParseError),
        }
    }

    /// A clause: a pattern, an `or-join`, an `or`, a `not-join`, a `not`, or
    /// a predicate, tried in that order.
    pub fn clause(v: &Value) -> (r: Result<WhereClause, ParseError>)
        ensures
            parsed(r, clause_spec(v@), ParseErrorView::WhereParseError),
    {
        match clause_opt(v) {
            Some(c) => Ok(c),
            None => Err(ParseError::WhereParseError),
        }
    }

    /// One clause or more.
    pub fn clauses(items: &Vec<Value>) -> (r: Result<Vec<WhereClause>, ParseError>)
        ensures
            match clauses_spec(value_views(items@), 0, items@.len() as int) {
                Some(cs) => if items@.len() >= 1 {
                    r is Ok && clause_views(r->Ok_0@) == cs
                } else {
                    r is Err && r->Err_0 is WhereParseError
                },
                None => r is Err && r->Err_0 is WhereParseError,
            },
    {
        if items.len() < 1 {
            return Err(ParseError::WhereParseError);
        }
        match clauses_opt(items, 0) {
            Some(cs) => Ok(cs),
            None => Err(ParseError::WhereParseError),
        }
    }
}

impl Find {
    /// The scalar form `?x .`.
    pub fn find_scalar(items: &Vec<Value>) -> (r: Result<FindSpec, ParseError>)
        ensures
            parsed(r, find_scalar_spec(value_views(items@)), ParseErrorView::FindParseError),
    {
        if items.len() != 2 {
            return Err(ParseError::FindParseError);
        }
        assert(value_views(items@)[0] == items@[0]@);
        assert(value_views(items@)[1] == items@[1]@);
        proof {
            reveal_strlit(".");
            assert("."@ =~= seq!['.']);
        }
        match variable_opt(&items[0]) {
            Some(var) => if items[1].is_symbol(".") {
                Ok(FindSpec::FindScalar(Element::Variable(var)))
            } else {
                Err(ParseError::FindParseError)
            },
            None => Err(ParseError::FindParseError),
        }
    }

    /// The collection form `[?x ...]`.
    pub fn find_coll(v: &Value) -> (r: Result<FindSpec, ParseError>)
        ensures
            parsed(r, find_coll_spec(v@), ParseErrorView::FindParseError),
    {
        match find_coll_opt(v) {
            Some(spec) => Ok(spec),
            None => Err(ParseError::FindParseError),
        }
    }

    /// One variable or more, as elements.
    pub fn elements(items: &Vec<Value>) -> (r: Result<Vec<Element>, ParseError>)
        ensures
            r is Ok <==> items@.len() >= 1 && all_variables(value_views(items@)),
            r is Ok ==> element_names(r->Ok_0@) == variable_names(value_views(items@)),
            r is Err ==> r->Err_0 is FindParseError,
    {
        match elements_opt(items) {
            Some(es) => Ok(es),
            None => Err(ParseError::FindParseError),
        }
    }

    /// The relation form `?x ?y`.
    pub fn find_rel(items: &Vec<Value>) -> (r: Result<FindSpec, ParseError>)
        ensures
            r is Ok <==> items@.len() >= 1 && all_variables(value_views(items@)),
            r is Ok ==> r->Ok_0@ == FindSpecView::FindRel(variable_names(value_views(items@))),
            r is Err ==> r->Err_0 is FindParseError,
    {
        match elements_opt(items) {
            Some(es) => Ok(FindSpec::FindRel(es)),
            None => Err(ParseError::FindParseError),
        }
    }

    /// The tuple form `[?x ?y]`.
    pub fn find_tuple(v: &Value) -> (r: Result<FindSpec, ParseError>)
        ensures
            parsed(r, find_tuple_spec(v@), ParseErrorView::FindParseError),
    {
        match find_tuple_opt(v) {
            Some(spec) => Ok(spec),
            None => Err(ParseError::FindParseError),
        }
    }

    /// The find specification that the values after `:find` are.
    pub fn spec(items: &Vec<Value>) -> (r: Result<FindSpec, ParseError>)
        ensures
            parsed(r, find_spec_spec(value_views(items@)), ParseErrorView::FindParseError),
    {
        match find_spec_opt(items) {
            Some(spec) => Ok(spec),
            None => Err(ParseError::FindParseError),
        }
    }

    /// The set of variables that the values are. A value that is no variable
    /// is refused, and so is a variable that occurs twice.
    pub fn vars(items: &Vec<Value>) -> (r: Result<Vec<Variable>, ParseError>)
        ensures
            match vars_spec(value_views(items@)) {
                Ok(names) => r is Ok && names_of(r->Ok_0@) == names,
                Err(e) => r is Err && r->Err_0@ == e,
            },
    {
        vars_of(items)
    }

    /// The query that `v` is.
    pub fn query(v: &Value) -> (r: Result<FindQuery, ParseError>)
        ensures
            match query_spec(v@) {
                Ok(q) => r is Ok && r->Ok_0@ == q,
                Err(e) => r is Err && r->Err_0@ == e,
            },
    {
        parse_find(v)
    }
}

/// The query that a text writes, or why it writes none.
pub open spec fn find_string_spec(text: Seq<char>) -> Result<FindQueryView, ParseErrorView> {
    match read(text) {
        Some(v) => query_spec(v),
        None => Err(ParseErrorView::EdnParseError),
    }
}

/// Reads `string` as a value and parses that value as a query.
pub fn parse_find_string(string: &str) -> (r: Result<FindQuery, ParseError>)
    ensures
        match find_string_spec(string@) {
            Ok(q) => r is Ok && r->Ok_0@ == q,
            Err(e) => r is Err && r->Err_0@ == e,
        },
{
    match crate::reader::value(string) {
        Ok(expr) => parse_find(&expr),
        Err(e) => Err(ParseError::EdnParseError(e)),
    }
}

} // verus!
