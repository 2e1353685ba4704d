//! The abstract query: find specifications, patterns, predicates, `or` and
//! `not` clauses, ordering and limits.

use vstd::prelude::*;
use vstd::string::StrSliceExecFns;
use crate::symbols::{NamespacedKeyword, PlainSymbol, Qualified, starts_with_char};
use crate::values::{Double, Uuid};

verus! {

/// A variable: a plain symbol that begins with `?`.
#[derive(Debug, PartialEq, Eq, Hash, PartialOrd, Ord)]
pub struct Variable(pub PlainSymbol);

impl View for Variable {
    type V = Seq<char>;

    open spec fn view(&self) -> Seq<char> {
        self.0@
    }
}

impl Clone for Variable {
    fn clone(&self) -> (r: Self)
        ensures
            r == *self,
    {
        Variable(self.0.clone())
    }
}

impl Variable {
    /// The name begins with `?`.
    pub open spec fn wf(&self) -> bool {
        starts_with_char(self@, '?')
    }

    /// The variable named `name`, which must begin with `?`.
    pub fn from_valid_name(name: &str) -> (r: Variable)
        requires
            starts_with_char(name@, '?'),
        ensures
            r@ == name@,
            r.wf(),
    {
        Variable(PlainSymbol::new(name))
    }

    /// The variable that `symbol` names, if it names one.
    pub fn from_symbol(symbol: &PlainSymbol) -> (r: Option<Variable>)
        ensures
            r is Some <==> starts_with_char(symbol@, '?'),
            r is Some ==> r->0@ == symbol@ && r->0.wf(),
    {
        if symbol.is_var_symbol() {
            Some(Variable(symbol.clone()))
        } else {
            None
        }
    }

    /// The name, with its leading `?`.
    pub fn as_str(&self) -> (r: &str)
        ensures
            r@ == self@,
    {
        self.0.0.as_str()
    }

    /// The name, with its leading `?`.
    pub fn to_string(&self) -> (r: String)
        ensures
            r@ == self@,
    {
        self.0.0.clone()
    }

    /// The symbol that names the variable.
    pub fn name(&self) -> (r: PlainSymbol)
        ensures
            r@ == self@,
    {
        self.0.clone()
    }

    /// Whether the two variables have the same name.
    pub fn same(&self, other: &Variable) -> (r: bool)
        ensures
            r == (self@ == other@),
    {
        self.0.0 == other.0.0
    }
}

/// Whether `v` occurs in `vars`.
pub open spec fn names_contain(vars: Seq<Variable>, v: Seq<char>) -> bool {
    exists|i: int| 0 <= i < vars.len() && #[trigger] vars[i]@ == v
}

/// The position of the first occurrence of `v` in `vars`.
pub fn position_of(vars: &Vec<Variable>, v: &Variable) -> (r: Option<usize>)
    ensures
        r is Some <==> names_contain(vars@, v@),
        r is Some ==> r->0 < vars@.len() && vars@[r->0 as int]@ == v@ && forall|j: int|
            0 <= j < r->0 ==> #[trigger] vars@[j]@ != v@,
{
    let mut i: usize = 0;
    while i < vars.len()
        invariant
            i <= vars@.len(),
            forall|j: int| 0 <= j < i ==> #[trigger] vars@[j]@ != v@,
        decreases vars@.len() - i,
    {
        if vars[i].same(v) {
            return Some(i);
        }
        i += 1;
    }
    None
}

/// Whether `v` occurs in `vars`.
pub fn contains_var(vars: &Vec<Variable>, v: &Variable) -> (r: bool)
    ensures
        r == names_contain(vars@, v@),
{
    position_of(vars, v).is_some()
}

/// A source of facts.
#[derive(Debug, PartialEq, Eq, Hash, PartialOrd, Ord)]
pub enum SrcVar {
    DefaultSrc,
    NamedSrc(String),
}

/// `SrcVar` as mathematical data: each text and each list as a sequence.
pub enum SrcVarView {
    DefaultSrc,
    NamedSrc(Seq<char>),
}

impl View for SrcVar {
    type V = SrcVarView;

    open spec fn view(&self) -> SrcVarView {
        match self {
            SrcVar::DefaultSrc => SrcVarView::DefaultSrc,
            SrcVar::NamedSrc(s) => SrcVarView::NamedSrc(s@),
        }
    }
}

impl Clone for SrcVar {
    fn clone(&self) -> (r: Self)
        ensures
            r == *self,
    {
        match self {
            SrcVar::DefaultSrc => SrcVar::DefaultSrc,
            SrcVar::NamedSrc(s) => SrcVar::NamedSrc(s.clone()),
        }
    }
}

/// A constant that is not a bare integer.
#[derive(Debug, PartialEq, Eq, Hash, PartialOrd, Ord)]
pub enum NonIntegerConstant {
    Boolean(bool),
    Float(Double),
    Text(String),
    /// Microseconds since the epoch.
    Instant(i64),
    Uuid(Uuid),
}

/// `NonIntegerConstant` as mathematical data: each text and each list as a sequence.
pub enum NonIntegerConstantView {
    Boolean(bool),
    Float(Seq<char>),
    Text(Seq<char>),
    Instant(int),
    Uuid(Seq<u8>),
}

impl View for NonIntegerConstant {
    type V = NonIntegerConstantView;

    open spec fn view(&self) -> NonIntegerConstantView {
        match self {
            NonIntegerConstant::Boolean(b) => NonIntegerConstantView::Boolean(*b),
            NonIntegerConstant::Float(d) => NonIntegerConstantView::Float(d@),
            NonIntegerConstant::Text(s) => NonIntegerConstantView::Text(s@),
            NonIntegerConstant::Instant(t) => NonIntegerConstantView::Instant(*t as int),
            NonIntegerConstant::Uuid(u) => NonIntegerConstantView::Uuid(u@),
        }
    }
}

impl Clone for NonIntegerConstant {
    fn clone(&self) -> (r: Self)
        ensures
            r == *self,
    {
        match self {
            NonIntegerConstant::Boolean(b) => NonIntegerConstant::Boolean(*b),
            NonIntegerConstant::Float(d) => NonIntegerConstant::Float(d.clone()),
            NonIntegerConstant::Text(s) => NonIntegerConstant::Text(s.clone()),
            NonIntegerConstant::Instant(t) => NonIntegerConstant::Instant(*t),
            NonIntegerConstant::Uuid(u) => NonIntegerConstant::Uuid(*u),
        }
    }
}

/// An argument of a predicate.
#[derive(Debug, PartialEq, Eq, Hash, PartialOrd, Ord)]
pub enum FnArg {
    Variable(Variable),
    SrcVar(SrcVar),
    EntidOrInteger(i64),
    IdentOrKeyword(NamespacedKeyword),
    Constant(NonIntegerConstant),
    Vector(Vec<FnArg>),
}

/// `FnArg` as mathematical data: each text and each list as a sequence.
pub enum FnArgView {
    Variable(Seq<char>),
    SrcVar(SrcVarView),
    EntidOrInteger(int),
    IdentOrKeyword(Qualified),
    Constant(NonIntegerConstantView),
    Vector(Seq<FnArgView>),
}

impl View for FnArg {
    type V = FnArgView;

    open spec fn view(&self) -> FnArgView
        decreases self,
    {
        match self {
            FnArg::Variable(v) => FnArgView::Variable(v@),
            FnArg::SrcVar(s) => FnArgView::SrcVar(s@),
            FnArg::EntidOrInteger(n) => FnArgView::EntidOrInteger(*n as int),
            FnArg::IdentOrKeyword(k) => FnArgView::IdentOrKeyword(k@),
            FnArg::Constant(c) => FnArgView::Constant(c@),
            FnArg::Vector(args) => FnArgView::Vector(
                Seq::new(
                    args@.len(),
                    |i: int|
                        if 0 <= i < args@.len() {
                            args@[i]@
                        } else {
                            FnArgView::EntidOrInteger(0)
                        },
                ),
            ),
        }
    }
}

/// The views of a list of arguments.
pub open spec fn fn_arg_views(args: Seq<FnArg>) -> Seq<FnArgView> {
    Seq::new(args.len(), |i: int| args[i]@)
}

/// The entity, attribute or transaction place of a pattern.
#[derive(Debug, PartialEq, Eq, Hash, PartialOrd, Ord)]
pub enum PatternNonValuePlace {
    Placeholder,
    Variable(Variable),
    Entid(i64),
    Ident(NamespacedKeyword),
}

/// `PatternNonValuePlace` as mathematical data: each text and each list as a sequence.
pub enum PatternNonValuePlaceView {
    Placeholder,
    Variable(Seq<char>),
    Entid(int),
    Ident(Qualified),
}

impl View for PatternNonValuePlace {
    type V = PatternNonValuePlaceView;

    open spec fn view(&self) -> PatternNonValuePlaceView {
        match self {
            PatternNonValuePlace::Placeholder => PatternNonValuePlaceView::Placeholder,
            PatternNonValuePlace::Variable(v) => PatternNonValuePlaceView::Variable(v@),
            PatternNonValuePlace::Entid(n) => PatternNonValuePlaceView::Entid(*n as int),
            PatternNonValuePlace::Ident(k) => PatternNonValuePlaceView::Ident(k@),
        }
    }
}

impl Clone for PatternNonValuePlace {
    fn clone(&self) -> (r: Self)
        ensures
            r == *self,
    {
        match self {
            PatternNonValuePlace::Placeholder => PatternNonValuePlace::Placeholder,
            PatternNonValuePlace::Variable(v) => PatternNonValuePlace::Variable(v.clone()),
            PatternNonValuePlace::Entid(n) => PatternNonValuePlace::Entid(*n),
            PatternNonValuePlace::Ident(k) => PatternNonValuePlace::Ident(k.clone()),
        }
    }
}

/// The value place of a pattern.
#[derive(Debug, PartialEq, Eq, Hash, PartialOrd, Ord)]
pub enum PatternValuePlace {
    Placeholder,
    Variable(Variable),
    EntidOrInteger(i64),
    IdentOrKeyword(NamespacedKeyword),
    Constant(NonIntegerConstant),
}

/// `PatternValuePlace` as mathematical data: each text and each list as a sequence.
pub enum PatternValuePlaceView {
    Placeholder,
    Variable(Seq<char>),
    EntidOrInteger(int),
    IdentOrKeyword(Qualified),
    Constant(NonIntegerConstantView),
}

impl View for PatternValuePlace {
    type V = PatternValuePlaceView;

    open spec fn view(&self) -> PatternValuePlaceView {
        match self {
            PatternValuePlace::Placeholder => PatternValuePlaceView::Placeholder,
            PatternValuePlace::Variable(v) => PatternValuePlaceView::Variable(v@),
            PatternValuePlace::EntidOrInteger(n) => PatternValuePlaceView::EntidOrInteger(*n as int),
            PatternValuePlace::IdentOrKeyword(k) => PatternValuePlaceView::IdentOrKeyword(k@),
            PatternValuePlace::Constant(c) => PatternValuePlaceView::Constant(c@),
        }
    }
}

impl Clone for PatternValuePlace {
    fn clone(&self) -> (r: Self)
        ensures
            r == *self,
    {
        match self {
            PatternValuePlace::Placeholder => PatternValuePlace::Placeholder,
            PatternValuePlace::Variable(v) => PatternValuePlace::Variable(v.clone()),
            PatternValuePlace::EntidOrInteger(n) => PatternValuePlace::EntidOrInteger(*n),
            PatternValuePlace::IdentOrKeyword(k) => PatternValuePlace::IdentOrKeyword(k.clone()),
            PatternValuePlace::Constant(c) => PatternValuePlace::Constant(c.clone()),
        }
    }
}

/// The value place that stands where a non-value place stood, when a
/// backward pattern is turned round.
pub open spec fn value_place_of(p: PatternNonValuePlaceView) -> PatternValuePlaceView {
    match p {
        PatternNonValuePlaceView::Placeholder => PatternValuePlaceView::Placeholder,
        PatternNonValuePlaceView::Variable(v) => PatternValuePlaceView::Variable(v),
        PatternNonValuePlaceView::Entid(n) => PatternValuePlaceView::EntidOrInteger(n),
        PatternNonValuePlaceView::Ident(k) => PatternValuePlaceView::IdentOrKeyword(k),
    }
}

/// The non-value place that stands where a value place stood, when a backward
/// pattern is turned round. A constant cannot name an entity.
pub open spec fn non_value_place_of(p: PatternValuePlaceView) -> Option<PatternNonValuePlaceView> {
    match p {
        PatternValuePlaceView::Placeholder => Some(PatternNonValuePlaceView::Placeholder),
        PatternValuePlaceView::Variable(v) => Some(PatternNonValuePlaceView::Variable(v)),
        PatternValuePlaceView::EntidOrInteger(n) => if n >= 0 {
            Some(PatternNonValuePlaceView::Entid(n))
        } else {
            None
        },
        PatternValuePlaceView::IdentOrKeyword(k) => Some(PatternNonValuePlaceView::Ident(k)),
        PatternValuePlaceView::Constant(_) => None,
    }
}

impl PatternNonValuePlace {
    /// This place, moved to the value position.
    pub fn into_pattern_value_place(self) -> (r: PatternValuePlace)
        ensures
            r@ == value_place_of(self@),
    {
        match self {
            PatternNonValuePlace::Placeholder => PatternValuePlace::Placeholder,
            PatternNonValuePlace::Variable(v) => PatternValuePlace::Variable(v),
            PatternNonValuePlace::Entid(n) => PatternValuePlace::EntidOrInteger(n),
            PatternNonValuePlace::Ident(k) => PatternValuePlace::IdentOrKeyword(k),
        }
    }
}

impl PatternValuePlace {
    /// This place, moved to a non-value position, where that can be done.
    pub fn into_pattern_non_value_place(self) -> (r: Option<PatternNonValuePlace>)
        ensures
            r is Some <==> non_value_place_of(self@) is Some,
            r is Some ==> r->0@ == non_value_place_of(self@)->0,
    {
        match self {
            PatternValuePlace::Placeholder => Some(PatternNonValuePlace::Placeholder),
            PatternValuePlace::Variable(v) => Some(PatternNonValuePlace::Variable(v)),
            PatternValuePlace::EntidOrInteger(n) => if n >= 0 {
                Some(PatternNonValuePlace::Entid(n))
            } else {
                None
            },
            PatternValuePlace::IdentOrKeyword(k) => Some(PatternNonValuePlace::Ident(k)),
            PatternValuePlace::Constant(_) => None,
        }
    }
}

/// A pattern `[source entity attribute value tx]`. Its attribute is never a
/// backward keyword: a backward pattern is turned round when it is built.
#[derive(Debug, PartialEq, Eq, Hash, PartialOrd, Ord)]
pub struct Pattern {
    pub source: Option<SrcVar>,
    pub entity: PatternNonValuePlace,
    pub attribute: PatternNonValuePlace,
    pub value: PatternValuePlace,
    pub tx: PatternNonValuePlace,
}

/// `Pattern` as mathematical data: each text and each list as a sequence.
pub struct PatternView {
    pub source: Option<SrcVarView>,
    pub entity: PatternNonValuePlaceView,
    pub attribute: PatternNonValuePlaceView,
    pub value: PatternValuePlaceView,
    pub tx: PatternNonValuePlaceView,
}

/// The view of a source, where there is one.
pub open spec fn source_view(source: Option<SrcVar>) -> Option<SrcVarView> {
    match source {
        Some(s) => Some(s@),
        None => None,
    }
}

impl View for Pattern {
    type V = PatternView;

    open spec fn view(&self) -> PatternView {
        PatternView {
            source: source_view(self.source),
            entity: self.entity@,
            attribute: self.attribute@,
            value: self.value@,
            tx: self.tx@,
        }
    }
}

/// Whether the attribute place holds a well-formed backward keyword that has
/// a forward form.
pub open spec fn is_backward_attribute(a: PatternNonValuePlaceView) -> bool {
    a matches PatternNonValuePlaceView::Ident(k) && starts_with_char(k.name, '_')
}

/// The pattern that the five places denote. A forward attribute leaves them
/// where they are. A backward attribute swaps entity and value and is itself
/// reversed; that has no meaning, and gives `None`, when the value cannot
/// stand in the entity place, or when nothing is left of the attribute once
/// it is reversed.
pub open spec fn pattern_of(
    source: Option<SrcVarView>,
    entity: PatternNonValuePlaceView,
    attribute: PatternNonValuePlaceView,
    value: PatternValuePlaceView,
    tx: PatternNonValuePlaceView,
) -> Option<PatternView> {
    if is_backward_attribute(attribute) {
        let k = attribute->Ident_0;
        if k.namespace.len() == 0 || k.name.len() == 1 {
            None
        } else {
            match non_value_place_of(value) {
                Some(new_entity) => Some(
                    PatternView {
                        source,
                        entity: new_entity,
                        attribute: PatternNonValuePlaceView::Ident(crate::symbols::reversed(k)),
                        value: value_place_of(entity),
                        tx,
                    },
                ),
                None => None,
            }
        }
    } else {
        Some(PatternView { source, entity, attribute, value, tx })
    }
}

impl Pattern {
    /// The pattern with the given places, turned round if its attribute is a
    /// backward keyword; `None` if it is backward and cannot be turned round.
    pub fn new(
        source: Option<SrcVar>,
        entity: PatternNonValuePlace,
        attribute: PatternNonValuePlace,
        value: PatternValuePlace,
        tx: PatternNonValuePlace,
    ) -> (r: Option<Pattern>)
        ensures
            r is Some <==> pattern_of(source_view(source), entity@, attribute@, value@, tx@) is Some,
            r is Some ==> r->0@ == pattern_of(source_view(source), entity@, attribute@, value@, tx@)->0,
    {
        let backward = match &attribute {
            PatternNonValuePlace::Ident(k) => k.is_backward(),
            _ => false,
        };
        if backward {
            let forward = match &attribute {
                PatternNonValuePlace::Ident(k) => {
                    if k.namespace.as_str().is_empty() || k.name.as_str().unicode_len() == 1 {
                        return None;
                    }
                    assert(k@.name != seq!['_']) by {
                        assert(seq!['_'].len() == 1);
                    }
                    k.to_reversed()
                },
                _ => {
                    return None;
                },
            };
            match value.into_pattern_non_value_place() {
                Some(new_entity) => Some(
                    Pattern {
                        source,
                        entity: new_entity,
                        attribute: PatternNonValuePlace::Ident(forward),
                        value: entity.into_pattern_value_place(),
                        tx,
                    },
                ),
                None => None,
            }
        } else {
            Some(Pattern { source, entity, attribute, value, tx })
        }
    }
}

/// A backward pattern over two variables is the forward pattern with entity
/// and value exchanged: `[?x :ns/_a ?y]` and `[?y :ns/a ?x]` are one pattern.
pub proof fn lemma_pattern_reversal(
    source: Option<SrcVarView>,
    x: Seq<char>,
    y: Seq<char>,
    namespace: Seq<char>,
    name: Seq<char>,
    tx: PatternNonValuePlaceView,
)
    requires
        !starts_with_char(name, '_'),
        namespace.len() > 0,
        name.len() > 0,
    ensures
        pattern_of(
            source,
            PatternNonValuePlaceView::Variable(x),
            PatternNonValuePlaceView::Ident(Qualified { namespace, name: seq!['_'] + name }),
            PatternValuePlaceView::Variable(y),
            tx,
        ) == pattern_of(
            source,
            PatternNonValuePlaceView::Variable(y),
            PatternNonValuePlaceView::Ident(Qualified { namespace, name }),
            PatternValuePlaceView::Variable(x),
            tx,
        ),
{
    let backward = Qualified { namespace, name: seq!['_'] + name };
    assert(starts_with_char(backward.name, '_'));
    assert(backward.name.subrange(1, backward.name.len() as int) =~= name);
}

/// A predicate `(operator args…)`.
#[derive(Debug, PartialEq, Eq, Hash, PartialOrd, Ord)]
pub struct Predicate {
    pub operator: PlainSymbol,
    pub args: Vec<FnArg>,
}

/// `Predicate` as mathematical data: each text and each list as a sequence.
pub struct PredicateView {
    pub operator: Seq<char>,
    pub args: Seq<FnArgView>,
}

impl View for Predicate {
    type V = PredicateView;

    open spec fn view(&self) -> PredicateView {
        PredicateView { operator: self.operator@, args: fn_arg_views(self.args@) }
    }
}

/// The variables on which a clause joins with what surrounds it.
#[derive(Debug, PartialEq, Eq, Hash, PartialOrd, Ord)]
pub enum UnifyVars {
    /// Every variable that the clause mentions.
    Implicit,
    /// The variables listed.
    Explicit(Vec<Variable>),
}

/// `UnifyVars` as mathematical data: each text and each list as a sequence.
pub enum UnifyVarsView {
    Implicit,
    Explicit(Seq<Seq<char>>),
}

/// The names of a list of variables.
pub open spec fn names_of(vars: Seq<Variable>) -> Seq<Seq<char>> {
    Seq::new(vars.len(), |i: int| vars[i]@)
}

impl View for UnifyVars {
    type V = UnifyVarsView;

    open spec fn view(&self) -> UnifyVarsView {
        match self {
            UnifyVars::Implicit => UnifyVarsView::Implicit,
            UnifyVars::Explicit(vars) => UnifyVarsView::Explicit(names_of(vars@)),
        }
    }
}

/// One arm of an `or`.
#[derive(Debug, PartialEq, Eq, Hash, PartialOrd, Ord)]
pub enum OrWhereClause {
    Clause(WhereClause),
    And(Vec<WhereClause>),
}

/// An `or` or `or-join` clause.
#[derive(Debug, PartialEq, Eq, Hash, PartialOrd, Ord)]
pub struct OrJoin {
    pub unify_vars: UnifyVars,
    pub clauses: Vec<OrWhereClause>,
}

/// A `not` or `not-join` clause.
#[derive(Debug, PartialEq, Eq, Hash, PartialOrd, Ord)]
pub struct NotJoin {
    pub unify_vars: UnifyVars,
    pub clauses: Vec<WhereClause>,
}

/// A clause of `:where`.
#[derive(Debug, PartialEq, Eq, Hash, PartialOrd, Ord)]
pub enum WhereClause {
    NotJoin(NotJoin),
    OrJoin(OrJoin),
    Pred(Predicate),
    Pattern(Pattern),
}

/// `OrWhereClause` as mathematical data: each text and each list as a sequence.
pub enum OrWhereClauseView {
    Clause(WhereClauseView),
    And(Seq<WhereClauseView>),
}

/// `WhereClause` as mathematical data: each text and each list as a sequence.
pub enum WhereClauseView {
    NotJoin { unify_vars: UnifyVarsView, clauses: Seq<WhereClauseView> },
    OrJoin { unify_vars: UnifyVarsView, arms: Seq<OrWhereClauseView> },
    Pred(PredicateView),
    Pattern(PatternView),
}

/// The view of a clause.
pub open spec fn clause_view(c: WhereClause) -> WhereClauseView
    decreases c, 0int,
{
    match c {
        WhereClause::NotJoin(n) => WhereClauseView::NotJoin {
            unify_vars: n.unify_vars@,
            clauses: clauses_view(n.clauses@, n.clauses@.len() as int),
        },
        WhereClause::OrJoin(o) => WhereClauseView::OrJoin {
            unify_vars: o.unify_vars@,
            arms: arms_view(o.clauses@, o.clauses@.len() as int),
        },
        WhereClause::Pred(p) => WhereClauseView::Pred(p@),
        WhereClause::Pattern(p) => WhereClauseView::Pattern(p@),
    }
}

/// The views of the first `n` clauses.
pub open spec fn clauses_view(cs: Seq<WhereClause>, n: int) -> Seq<WhereClauseView>
    decreases cs, n,
{
    if n <= 0 || n > cs.len() {
        seq![]
    } else {
        clauses_view(cs, n - 1).push(clause_view(cs[n - 1]))
    }
}

/// The view of an arm of an `or`.
pub open spec fn arm_view(c: OrWhereClause) -> OrWhereClauseView
    decreases c, 0int,
{
    match c {
        OrWhereClause::Clause(c) => OrWhereClauseView::Clause(clause_view(c)),
        OrWhereClause::And(cs) => OrWhereClauseView::And(clauses_view(cs@, cs@.len() as int)),
    }
}

/// The views of the first `n` arms.
pub open spec fn arms_view(cs: Seq<OrWhereClause>, n: int) -> Seq<OrWhereClauseView>
    decreases cs, n,
{
    if n <= 0 || n > cs.len() {
        seq![]
    } else {
        arms_view(cs, n - 1).push(arm_view(cs[n - 1]))
    }
}

impl View for WhereClause {
    type V = WhereClauseView;

    open spec fn view(&self) -> WhereClauseView {
        clause_view(*self)
    }
}

impl View for OrWhereClause {
    type V = OrWhereClauseView;

    open spec fn view(&self) -> OrWhereClauseView {
        arm_view(*self)
    }
}

/// The views of the first `n` clauses, one by one.
pub proof fn lemma_clauses_view(cs: Seq<WhereClause>, n: int)
    requires
        0 <= n <= cs.len(),
    ensures
        clauses_view(cs, n) == clause_views(cs).subrange(0, n),
    decreases n,
{
    if n > 0 {
        lemma_clauses_view(cs, n - 1);
    }
    assert(clauses_view(cs, n) =~= clause_views(cs).subrange(0, n));
}

/// The views of all the clauses of a list.
pub proof fn lemma_all_clauses_view(cs: Seq<WhereClause>)
    ensures
        clauses_view(cs, cs.len() as int) == clause_views(cs),
{
    lemma_clauses_view(cs, cs.len() as int);
    assert(clause_views(cs).subrange(0, cs.len() as int) =~= clause_views(cs));
}

/// The views of the first `n` arms, one by one.
pub proof fn lemma_arms_view(cs: Seq<OrWhereClause>, n: int)
    requires
        0 <= n <= cs.len(),
    ensures
        arms_view(cs, n) == or_clause_views(cs).subrange(0, n),
    decreases n,
{
    if n > 0 {
        lemma_arms_view(cs, n - 1);
    }
    assert(arms_view(cs, n) =~= or_clause_views(cs).subrange(0, n));
}

/// The views of all the arms of a list.
pub proof fn lemma_all_arms_view(cs: Seq<OrWhereClause>)
    ensures
        arms_view(cs, cs.len() as int) == or_clause_views(cs),
{
    lemma_arms_view(cs, cs.len() as int);
    assert(or_clause_views(cs).subrange(0, cs.len() as int) =~= or_clause_views(cs));
}

/// The views of a list of clauses.
pub open spec fn clause_views(cs: Seq<WhereClause>) -> Seq<WhereClauseView> {
    Seq::new(cs.len(), |i: int| cs[i]@)
}

/// The views of a list of `or` arms.
pub open spec fn or_clause_views(cs: Seq<OrWhereClause>) -> Seq<OrWhereClauseView> {
    Seq::new(cs.len(), |i: int| cs[i]@)
}

impl OrJoin {
    /// An `or` with the given variables and arms.
    pub fn new(unify_vars: UnifyVars, clauses: Vec<OrWhereClause>) -> (r: OrJoin)
        ensures
            r.unify_vars == unify_vars,
            r.clauses == clauses,
    {
        OrJoin { unify_vars, clauses }
    }
}

/// One element of a find specification.
#[derive(Debug, PartialEq, Eq, Hash, PartialOrd, Ord)]
pub enum Element {
    Variable(Variable),
}

impl View for Element {
    type V = Seq<char>;

    open spec fn view(&self) -> Seq<char> {
        match self {
            Element::Variable(v) => v@,
        }
    }
}

/// The names of a list of elements.
pub open spec fn element_names(es: Seq<Element>) -> Seq<Seq<char>> {
    Seq::new(es.len(), |i: int| es[i]@)
}

/// What a query returns.
#[derive(Debug, PartialEq, Eq, Hash, PartialOrd, Ord)]
pub enum FindSpec {
    /// All rows, all columns: `?x ?y ?z`.
    FindRel(Vec<Element>),
    /// All rows, first column: `[?x ...]`.
    FindColl(Element),
    /// First row, all columns: `[?x ?y ?z]`.
    FindTuple(Vec<Element>),
    /// First row, first column: `?x .`.
    FindScalar(Element),
}

/// `FindSpec` as mathematical data: each text and each list as a sequence.
pub enum FindSpecView {
    FindRel(Seq<Seq<char>>),
    FindColl(Seq<char>),
    FindTuple(Seq<Seq<char>>),
    FindScalar(Seq<char>),
}

impl View for FindSpec {
    type V = FindSpecView;

    open spec fn view(&self) -> FindSpecView {
        match self {
            FindSpec::FindRel(es) => FindSpecView::FindRel(element_names(es@)),
            FindSpec::FindColl(e) => FindSpecView::FindColl(e@),
            FindSpec::FindTuple(es) => FindSpecView::FindTuple(element_names(es@)),
            FindSpec::FindScalar(e) => FindSpecView::FindScalar(e@),
        }
    }
}

impl FindSpec {
    /// Whether the query returns at most one row.
    pub fn is_unit_limited(&self) -> (r: bool)
        ensures
            r == (self is FindTuple || self is FindScalar),
    {
        match self {
            FindSpec::FindScalar(_) => true,
            FindSpec::FindTuple(_) => true,
            FindSpec::FindRel(_) => false,
            FindSpec::FindColl(_) => false,
        }
    }

    /// Whether the query asks for exactly one column.
    pub fn expected_column_count(&self) -> (r: usize)
        ensures
            r == match *self {
                FindSpec::FindRel(es) => es@.len(),
                FindSpec::FindTuple(es) => es@.len(),
                FindSpec::FindColl(_) => 1,
                FindSpec::FindScalar(_) => 1,
            },
    {
        match self {
            FindSpec::FindRel(es) => es.len(),
            FindSpec::FindTuple(es) => es.len(),
            FindSpec::FindColl(_) => 1,
            FindSpec::FindScalar(_) => 1,
        }
    }
}

/// The direction of an ordering.
#[derive(Clone, Copy, Debug, PartialEq, Eq, Structural, Hash, PartialOrd, Ord)]
pub enum Direction {
    Ascending,
    Descending,
}

/// One entry of `:order`.
#[derive(Debug, PartialEq, Eq, Hash, PartialOrd, Ord)]
pub struct Order(pub Direction, pub Variable);

/// `Order` as mathematical data: each text and each list as a sequence.
pub struct OrderView {
    pub direction: Direction,
    pub variable: Seq<char>,
}

impl View for Order {
    type V = OrderView;

    open spec fn view(&self) -> OrderView {
        OrderView { direction: self.0, variable: self.1@ }
    }
}

/// The views of a list of order entries.
pub open spec fn order_views(os: Seq<Order>) -> Seq<OrderView> {
    Seq::new(os.len(), |i: int| os[i]@)
}

/// The limit of a query.
#[derive(Debug, PartialEq, Eq, Hash, PartialOrd, Ord)]
pub enum Limit {
    Unlimited,
    Fixed(u64),
    Variable(Variable),
}

/// `Limit` as mathematical data: each text and each list as a sequence.
pub enum LimitView {
    Unlimited,
    Fixed(int),
    Variable(Seq<char>),
}

impl View for Limit {
    type V = LimitView;

    open spec fn view(&self) -> LimitView {
        match self {
            Limit::Unlimited => LimitView::Unlimited,
            Limit::Fixed(n) => LimitView::Fixed(*n as int),
            Limit::Variable(v) => LimitView::Variable(v@),
        }
    }
}

/// A parsed query.
#[derive(Debug, PartialEq, Eq)]
pub struct FindQuery {
    pub find_spec: FindSpec,
    pub default_source: SrcVar,
    pub with: Vec<Variable>,
    pub in_vars: Vec<Variable>,
    pub in_sources: Vec<SrcVar>,
    pub limit: Limit,
    pub where_clauses: Vec<WhereClause>,
    pub order: Option<Vec<Order>>,
}

/// `FindQuery` as mathematical data: each text and each list as a sequence.
pub struct FindQueryView {
    pub find_spec: FindSpecView,
    pub with: Seq<Seq<char>>,
    pub in_vars: Seq<Seq<char>>,
    pub limit: LimitView,
    pub where_clauses: Seq<WhereClauseView>,
    pub order: Option<Seq<OrderView>>,
}

impl View for FindQuery {
    type V = FindQueryView;

    open spec fn view(&self) -> FindQueryView {
        FindQueryView {
            find_spec: self.find_spec@,
            with: names_of(self.with@),
            in_vars: names_of(self.in_vars@),
            limit: self.limit@,
            where_clauses: clause_views(self.where_clauses@),
            order: match self.order {
                Some(os) => Some(order_views(os@)),
                None => None,
            },
        }
    }
}

} // verus!
