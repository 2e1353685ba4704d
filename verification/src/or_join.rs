//! `or`, `or-join`, `not` and `not-join`: clauses whose arms are algebrized
//! into clauses of their own.
//!
//! An `or` whose arms are patterns on one table, with the same variables in
//! the same places, becomes an alternation of constraints on one table
//! alias. Any other `or` becomes a computed table: the union of its arms,
//! each of which projects the same variables. A `not` becomes a constraint
//! that no row of its clauses exists.

use vstd::prelude::*;
use crate::clauses::{
    ConjoiningClauses, alternates_wf, arms_wf, binding_views, clauses_wf, from_ok, grows,
    lemma_grows_twice, lemma_wheres_wf_push, same_but_wheres, tables_wf, types_wf, vars_projectable,
    wheres_wf, with_empty, with_where,
};
use crate::alternation::{OrShape, ShapeView, or_shape, patterns_applied};
use crate::expand::{is_settled, with_expansion};
use crate::types::ReasonView;
use crate::unions::{first_unready, first_unready_arm, tagged, union_joined, union_types_of};
use crate::pattern::pattern_applied;
use crate::resolve::{applied, predicate_applied};
use crate::query::{
    NotJoin, OrJoin, OrWhereClause, Pattern, UnifyVars, Variable, WhereClause, contains_var,
    names_contain,
};
use crate::resolve::AlgebrizerError;
use crate::sql::{lemma_lex_asymmetric, lemma_lex_irreflexive, lex_lt};
use crate::variables::{
    add_all, add_clauses_variables, clause_variables, common_variables, name_set, shared_variables,
    sorted_names,
};
use crate::translate::ConsumableVec;
use crate::types::{
    ColumnConstraint, ColumnConstraintOrAlternation, ColumnIntersection, ComputedTable, DatomsTable,
    EmptyBecause, QualifiedAlias, SourceAlias, ValueTypeSet,
};
use crate::values::{Schema, TypedValue};

verus! {

impl Default for ConjoiningClauses {
    /// Clauses that read no table and constrain nothing.
    fn default() -> (r: ConjoiningClauses)
        ensures
            r.empty_because is None,
            r.alias_counter == 0,
            r.from@.len() == 0,
            r.computed_tables@.len() == 0,
            r.wheres.0@.len() == 0,
            r.column_bindings@.len() == 0,
            r.input_variables@.len() == 0,
            r.value_bindings@.len() == 0,
            r.known_types@.len() == 0,
            r.extracted_types@.len() == 0,
            r.ok(),
    {
        ConjoiningClauses {
            empty_because: None,
            alias_counter: 0,
            from: Vec::new(),
            computed_tables: Vec::new(),
            wheres: ColumnIntersection(Vec::new()),
            column_bindings: Vec::new(),
            input_variables: Vec::new(),
            value_bindings: Vec::new(),
            known_types: Vec::new(),
            extracted_types: Vec::new(),
        }
    }
}

/// Two well-formed lists of constraints make a well-formed list.
pub proof fn lemma_wheres_wf_concat(a: Seq<ColumnConstraintOrAlternation>, b: Seq<ColumnConstraintOrAlternation>, n: int)
    requires
        wheres_wf(a, a.len() as int),
        wheres_wf(b, b.len() as int),
        0 <= n <= b.len(),
    ensures
        wheres_wf(a + b.subrange(0, n), a.len() + n),
    decreases n,
{
    if n == 0 {
        assert(a + b.subrange(0, 0) =~= a);
    } else {
        lemma_wheres_wf_concat(a, b, n - 1);
        crate::translate::lemma_wheres_wf_at(b, b.len() as int, n - 1);
        lemma_wheres_wf_push(a + b.subrange(0, n - 1), b[n - 1]);
        assert(a + b.subrange(0, n) =~= (a + b.subrange(0, n - 1)).push(b[n - 1]));
    }
}

/// Alternates that are each well formed make a well-formed alternation.
pub proof fn lemma_alternates_wf(alts: Seq<ColumnIntersection>, n: int)
    requires
        0 <= n <= alts.len(),
        forall|j: int| 0 <= j < alts.len() ==> wheres_wf((#[trigger] alts[j]).0@, alts[j].0@.len() as int),
    ensures
        alternates_wf(alts, n),
    decreases n,
{
    if n > 0 {
        lemma_alternates_wf(alts, n - 1);
    }
}

/// The first `n` computed tables of a longer list are well formed or not as
/// they are in the list itself.
pub proof fn lemma_tables_wf_prefix(ts: Seq<ComputedTable>, t: ComputedTable, n: int)
    requires
        0 <= n <= ts.len(),
    ensures
        tables_wf(ts.push(t), n) == tables_wf(ts, n),
    decreases n,
{
    if n > 0 {
        lemma_tables_wf_prefix(ts, t, n - 1);
        assert(ts.push(t)[n - 1] == ts[n - 1]);
    }
}

/// Arms that are each well formed and bind what the union projects make a
/// well-formed union.
pub proof fn lemma_arms_wf(projection: Seq<Variable>, types: Seq<Variable>, arms: Seq<ConjoiningClauses>, n: int)
    requires
        0 <= n <= arms.len(),
        forall|j: int|
            0 <= j < arms.len() ==> clauses_wf(#[trigger] arms[j]) && vars_projectable(
                arms[j],
                projection,
                types,
                projection.len() as int,
            ),
    ensures
        arms_wf(projection, types, arms, n),
    decreases n,
{
    if n > 0 {
        lemma_arms_wf(projection, types, arms, n - 1);
    }
}

/// The tables of a list stay in order when a computed table is added and
/// the list names it.
pub proof fn lemma_from_push_computed(from: Seq<SourceAlias>, alias: SourceAlias, tables: int)
    requires
        from_ok(from, tables),
        0 <= tables <= usize::MAX,
        alias.0 == DatomsTable::Computed(tables as usize),
    ensures
        from_ok(from.push(alias), tables + 1),
{
    let next = from.push(alias);
    assert forall|j: int| 0 <= j < next.len() implies ((#[trigger] next[j]).0 matches DatomsTable::Computed(
        i,
    ) ==> i < tables + 1) by {
        if j < from.len() {
            assert(next[j] == from[j]);
        }
    }
    assert forall|j: int, k: int| 0 <= j < k < next.len() implies !((#[trigger] next[j]).0 is Computed
        && (#[trigger] next[k]).0 == next[j].0) by {
        assert(next[j] == from[j]);
        if k < from.len() {
            assert(next[k] == from[k]);
        }
    }
}

pub(crate) fn clone_reason(reason: &Option<EmptyBecause>) -> (r: Option<EmptyBecause>)
    ensures
        r == *reason,
{
    match reason {
        Some(e) => Some(e.clone()),
        None => None,
    }
}

fn clone_variables(vars: &Vec<Variable>) -> (r: Vec<Variable>)
    ensures
        r@ == vars@,
{
    let mut out: Vec<Variable> = Vec::new();
    let mut i: usize = 0;
    while i < vars.len()
        invariant
            i <= vars@.len(),
            out@ == vars@.subrange(0, i as int),
        decreases vars@.len() - i,
    {
        out.push(vars[i].clone());
        assert(out@ =~= vars@.subrange(0, i + 1));
        i += 1;
    }
    assert(out@ =~= vars@);
    out
}

/// Of the first `n` variables of `all`, those that `vars` names.
pub open spec fn kept_names(all: Seq<Variable>, vars: Seq<Variable>, n: int) -> Seq<Variable>
    decreases n,
{
    if n <= 0 || n > all.len() {
        seq![]
    } else if names_contain(vars, all[n - 1]@) {
        kept_names(all, vars, n - 1).push(all[n - 1])
    } else {
        kept_names(all, vars, n - 1)
    }
}

/// Of the first `n` entries of `all`, those for a variable that `vars`
/// names, or each of them where `every` is set.
pub open spec fn kept<T>(all: Seq<(Variable, T)>, vars: Seq<Variable>, every: bool, n: int) -> Seq<(Variable, T)>
    decreases n,
{
    if n <= 0 || n > all.len() {
        seq![]
    } else if every || names_contain(vars, all[n - 1].0@) {
        kept(all, vars, every, n - 1).push(all[n - 1])
    } else {
        kept(all, vars, every, n - 1)
    }
}

fn kept_variables(all: &Vec<Variable>, vars: &Vec<Variable>) -> (r: Vec<Variable>)
    ensures
        r@ == kept_names(all@, vars@, all@.len() as int),
{
    let mut out: Vec<Variable> = Vec::new();
    let mut i: usize = 0;
    while i < all.len()
        invariant
            i <= all@.len(),
            out@ == kept_names(all@, vars@, i as int),
        decreases all@.len() - i,
    {
        if contains_var(vars, &all[i]) {
            out.push(all[i].clone());
        }
        i += 1;
    }
    out
}

pub(crate) fn kept_values(all: &Vec<(Variable, TypedValue)>, vars: &Vec<Variable>, every: bool) -> (r: Vec<(Variable, TypedValue)>)
    ensures
        r@ == kept(all@, vars@, every, all@.len() as int),
{
    let mut out: Vec<(Variable, TypedValue)> = Vec::new();
    let mut i: usize = 0;
    while i < all.len()
        invariant
            i <= all@.len(),
            out@ == kept(all@, vars@, every, i as int),
        decreases all@.len() - i,
    {
        if every || contains_var(vars, &all[i].0) {
            out.push((all[i].0.clone(), all[i].1.clone()));
        }
        i += 1;
    }
    out
}

fn kept_types(all: &Vec<(Variable, ValueTypeSet)>, vars: &Vec<Variable>, every: bool) -> (r: Vec<(Variable, ValueTypeSet)>)
    requires
        types_wf(all@),
    ensures
        types_wf(r@),
        r@ == kept(all@, vars@, every, all@.len() as int),
{
    let mut out: Vec<(Variable, ValueTypeSet)> = Vec::new();
    let mut i: usize = 0;
    while i < all.len()
        invariant
            i <= all@.len(),
            types_wf(all@),
            types_wf(out@),
            out@ == kept(all@, vars@, every, i as int),
        decreases all@.len() - i,
    {
        if every || contains_var(vars, &all[i].0) {
            out.push((all[i].0.clone(), all[i].1));
        }
        i += 1;
    }
    out
}

fn kept_extracted(all: &Vec<(Variable, QualifiedAlias)>, vars: &Vec<Variable>, every: bool) -> (r: Vec<(Variable, QualifiedAlias)>)
    ensures
        r@ == kept(all@, vars@, every, all@.len() as int),
{
    let mut out: Vec<(Variable, QualifiedAlias)> = Vec::new();
    let mut i: usize = 0;
    while i < all.len()
        invariant
            i <= all@.len(),
            out@ == kept(all@, vars@, every, i as int),
        decreases all@.len() - i,
    {
        if every || contains_var(vars, &all[i].0) {
            out.push((all[i].0.clone(), all[i].1.clone()));
        }
        i += 1;
    }
    out
}

/// Whether `c` reads no table and constrains nothing.
pub open spec fn is_blank(c: ConjoiningClauses) -> bool {
    &&& c.from@.len() == 0
    &&& c.computed_tables@.len() == 0
    &&& c.wheres.0@.len() == 0
}

/// Whether `r` starts from what `cc` knows of the variables `vars`, or of
/// every variable where `every` is set: it reads no table and constrains
/// nothing; it has the running number of aliases and the reason for being
/// empty; and of the inputs, values and types of `cc` it has those of the
/// variables, in their order.
pub open spec fn starts_from(r: ConjoiningClauses, cc: ConjoiningClauses, vars: Seq<Variable>, every: bool) -> bool {
    &&& is_blank(r)
    &&& r.alias_counter == cc.alias_counter
    &&& r.empty_because == cc.empty_because
    &&& r.input_variables@ == if every {
        cc.input_variables@
    } else {
        kept_names(cc.input_variables@, vars, cc.input_variables@.len() as int)
    }
    &&& r.value_bindings@ == kept(cc.value_bindings@, vars, every, cc.value_bindings@.len() as int)
    &&& r.known_types@ == kept(cc.known_types@, vars, every, cc.known_types@.len() as int)
    &&& r.extracted_types@ == kept(cc.extracted_types@, vars, every, cc.extracted_types@.len() as int)
}

impl ConjoiningClauses {
    /// Clauses that start from what these clauses know of the variables
    /// `vars`: their values, their types, and whether they are inputs. They
    /// share the running number of aliases and the reason for being empty.
    pub fn use_as_template(&self, vars: &Vec<Variable>) -> (r: ConjoiningClauses)
        requires
            types_wf(self.known_types@),
        ensures
            r.ok(),
            starts_from(r, *self, vars@, false),
            r.column_bindings@.len() == 0,
    {
        ConjoiningClauses {
            empty_because: clone_reason(&self.empty_because),
            alias_counter: self.alias_counter,
            from: Vec::new(),
            computed_tables: Vec::new(),
            wheres: ColumnIntersection(Vec::new()),
            column_bindings: Vec::new(),
            input_variables: kept_variables(&self.input_variables, vars),
            value_bindings: kept_values(&self.value_bindings, vars, false),
            known_types: kept_types(&self.known_types, vars, false),
            extracted_types: kept_extracted(&self.extracted_types, vars, false),
        }
    }

    /// Clauses that know what this template knows, to be filled by one arm.
    pub fn make_receptacle(&self) -> (r: ConjoiningClauses)
        requires
            types_wf(self.known_types@),
        ensures
            r.ok(),
            starts_from(r, *self, self.input_variables@, true),
            r.column_bindings@.len() == 0,
    {
        let all = clone_variables(&self.input_variables);
        ConjoiningClauses {
            empty_because: clone_reason(&self.empty_because),
            alias_counter: self.alias_counter,
            from: Vec::new(),
            computed_tables: Vec::new(),
            wheres: ColumnIntersection(Vec::new()),
            column_bindings: Vec::new(),
            input_variables: clone_variables(&self.input_variables),
            value_bindings: kept_values(&self.value_bindings, &all, true),
            known_types: kept_types(&self.known_types, &all, true),
            extracted_types: kept_extracted(&self.extracted_types, &all, true),
        }
    }
}

/// The variables on which an `or` joins with what surrounds it: those that
/// an `or-join` lists, and those that every arm of an `or` mentions.
pub open spec fn projected_names(or_join: OrJoin) -> Set<Seq<char>> {
    match or_join.unify_vars {
        UnifyVars::Explicit(vars) => name_set(vars@),
        UnifyVars::Implicit => shared_variables(or_join.clauses@, or_join.clauses@.len() as int),
    }
}

/// Whether `name` is the first, in the order of names, of the variables
/// named `names` that `cc` does not bind.
pub open spec fn first_unbound_name(cc: ConjoiningClauses, names: Set<Seq<char>>, name: Seq<char>) -> bool {
    &&& names.contains(name)
    &&& !cc.is_bound(name)
    &&& forall|w: Seq<char>| names.contains(w) && !cc.is_bound(w) ==> !lex_lt(w, name)
}

/// The columns from which the clauses of a `not` start: for each of the
/// first `n` variables of `vars` that has a column and no value, its first
/// column.
pub open spec fn joined_columns(cc: ConjoiningClauses, vars: Seq<Variable>, n: int) -> Seq<
    (Variable, Seq<QualifiedAlias>),
>
    decreases n,
{
    if n <= 0 || n > vars.len() {
        seq![]
    } else if cc.value_of(vars[n - 1]@) is None && cc.column_of(vars[n - 1]@) is Some {
        joined_columns(cc, vars, n - 1).push((vars[n - 1], seq![cc.column_of(vars[n - 1]@)->0]))
    } else {
        joined_columns(cc, vars, n - 1)
    }
}

/// Whether `after` and `r` are what applying `clause` to `before` gives.
/// A pattern and a predicate have one outcome, which is stated; an `or` and
/// a `not` are described by `or_applied` and `not_applied`.
pub open spec fn clause_applied(
    before: ConjoiningClauses,
    schema: Schema,
    clause: WhereClause,
    after: ConjoiningClauses,
    r: Result<(), AlgebrizerError>,
) -> bool
    decreases clause, 0int,
{
    &&& after.ok()
    &&& grows(before, after)
    &&& match clause {
        WhereClause::Pattern(p) => r is Ok && pattern_applied(before@, schema, p, after@),
        WhereClause::Pred(p) => applied(r, after@, predicate_applied(before, p)),
        WhereClause::OrJoin(o) => or_applied(before, schema, o, after, r),
        WhereClause::NotJoin(n) => not_applied(before, schema, n, after, r),
    }
}

/// Where the work so far has failed with `first` and left `mid`, that is
/// what the whole work leaves.
pub open spec fn error_ends(
    mid: ConjoiningClauses,
    first: Result<(), AlgebrizerError>,
    after: ConjoiningClauses,
    r: Result<(), AlgebrizerError>,
) -> bool {
    first is Err ==> after == mid && r == first
}

/// What a `not` leaves once its own clauses were applied with the result
/// `first` and left `inner`. An error there is the error, and nothing
/// changes. Clauses that cannot match leave only the running number of
/// aliases changed. Any others become the constraint that no row of them
/// exists.
pub open spec fn not_concluded(
    before: ConjoiningClauses,
    inner: ConjoiningClauses,
    first: Result<(), AlgebrizerError>,
    after: ConjoiningClauses,
    r: Result<(), AlgebrizerError>,
) -> bool {
    match first {
        Err(_) => r == first && after == before,
        Ok(_) => r is Ok && if inner.known_empty() {
            after == (ConjoiningClauses { alias_counter: inner.alias_counter, ..before })
        } else {
            not_exists_added(before, inner, after)
        },
    }
}

/// Whether `after` and `r` are what applying the first `n` of `clauses` to
/// `before` gives: each clause is applied to what the clause before it
/// left, and the first error ends the work.
pub open spec fn applied_in_turn(
    before: ConjoiningClauses,
    schema: Schema,
    clauses: Seq<WhereClause>,
    n: int,
    after: ConjoiningClauses,
    r: Result<(), AlgebrizerError>,
) -> bool
    decreases clauses, n,
{
    if n <= 0 || n > clauses.len() {
        after == before && r is Ok
    } else {
        exists|mid: ConjoiningClauses, first: Result<(), AlgebrizerError>|
            {
                &&& applied_in_turn(before, schema, clauses, n - 1, mid, first)
                &&& #[trigger] error_ends(mid, first, after, r)
                &&& first is Ok ==> clause_applied(mid, schema, clauses[n - 1], after, r)
            }
    }
}

/// Whether `after` and `r` are what applying the arm `arm` of an `or` to
/// `before` gives.
pub open spec fn arm_applied(
    before: ConjoiningClauses,
    schema: Schema,
    arm: OrWhereClause,
    after: ConjoiningClauses,
    r: Result<(), AlgebrizerError>,
) -> bool
    decreases arm, 1int,
{
    match arm {
        OrWhereClause::Clause(c) => clause_applied(before, schema, c, after, r),
        OrWhereClause::And(cs) => applied_in_turn(before, schema, cs@, cs@.len() as int, after, r),
    }
}

/// What the arms of an `or` have come to: the clauses of the arms that
/// can match, the running number of aliases, the reason for which the last
/// arm that cannot match is empty, and the error, if an arm failed.
pub struct Gathered {
    pub arms: Vec<ConjoiningClauses>,
    pub counter: usize,
    pub reason: Option<EmptyBecause>,
    pub error: Option<AlgebrizerError>,
}

/// `Gathered` as mathematical data: each text and each list as a sequence.
pub struct GatheredView {
    pub arms: Seq<ConjoiningClauses>,
    pub counter: usize,
    pub reason: Option<EmptyBecause>,
    pub error: Option<AlgebrizerError>,
}

impl View for Gathered {
    type V = GatheredView;

    open spec fn view(&self) -> GatheredView {
        GatheredView { arms: self.arms@, counter: self.counter, reason: self.reason, error: self.error }
    }
}

/// Whether `start` is what an arm starts from: what `template` knows, with
/// aliases numbered from `counter`.
pub open spec fn is_receptacle(start: ConjoiningClauses, template: ConjoiningClauses, counter: usize) -> bool {
    &&& starts_from(
        ConjoiningClauses { alias_counter: template.alias_counter, ..start },
        template,
        template.input_variables@,
        true,
    )
    &&& start.column_bindings@.len() == 0
    &&& start.alias_counter == counter
}

/// Whether `out` is `before` with one more arm, which started from `start`
/// and was applied with the result `ra`, leaving `inner`. After an error
/// nothing changes. An arm that fails is the error. An arm that cannot
/// match leaves its reason; any other is settled and added. Either moves the
/// running number of aliases on.
pub open spec fn arm_gathered(
    template: ConjoiningClauses,
    before: GatheredView,
    start: ConjoiningClauses,
    inner: ConjoiningClauses,
    ra: Result<(), AlgebrizerError>,
    out: GatheredView,
) -> bool {
    match before.error {
        Some(_) => out == before,
        None => is_receptacle(start, template, before.counter) && match ra {
            Err(e) => out == (GatheredView { error: Some(e), ..before }),
            Ok(_) => if inner.known_empty() {
                out == (GatheredView { counter: inner.alias_counter, reason: inner.empty_because, ..before })
            } else {
                exists|settled: ConjoiningClauses| #[trigger]
                    is_settled(inner, settled) && out == (GatheredView {
                        counter: inner.alias_counter,
                        arms: before.arms.push(settled),
                        ..before
                    })
            },
        },
    }
}

/// Whether `out` is what the first `n` arms of an `or` come to, each
/// applied to clauses of its own that start from `template`, with aliases
/// numbered from `counter` on.
pub open spec fn arms_gathered(
    template: ConjoiningClauses,
    schema: Schema,
    arms: Seq<OrWhereClause>,
    n: int,
    counter: usize,
    out: GatheredView,
) -> bool
    decreases arms, n,
{
    if n <= 0 || n > arms.len() {
        out.arms.len() == 0 && out.counter == counter && out.reason is None && out.error is None
    } else {
        exists|before: GatheredView, start: ConjoiningClauses, inner: ConjoiningClauses, ra: Result<(), AlgebrizerError>|
            {
                &&& arms_gathered(template, schema, arms, n - 1, counter, before)
                &&& #[trigger] arm_gathered(template, before, start, inner, ra, out)
                &&& before.error is None ==> arm_applied(start, schema, arms[n - 1], inner, ra)
            }
    }
}

/// Whether `after` and `r` are what an `or` comes to once its arms are
/// gathered as `g`. The error of an arm is the error, and nothing changes.
/// Where no arm can match, the clauses are empty for the reason of the last
/// arm. Where an arm cannot project a variable, the first such variable of
/// the first such arm is the error. Otherwise the union of the arms is
/// joined to the clauses.
pub open spec fn union_concluded(
    before: ConjoiningClauses,
    schema: Schema,
    projected: Seq<Variable>,
    g: GatheredView,
    after: ConjoiningClauses,
    r: Result<(), AlgebrizerError>,
) -> bool {
    let base = ConjoiningClauses { alias_counter: g.counter, ..before };
    match g.error {
        Some(e) => r == Err::<(), AlgebrizerError>(e) && after == before,
        None => if g.arms.len() == 0 {
            &&& r is Ok
            &&& after@ == with_empty(
                base@,
                match g.reason {
                    Some(e) => e@,
                    None => ReasonView::AttributeLookupFailed,
                },
            )
            &&& same_but_wheres(base, after)
            &&& after.wheres == before.wheres
        } else {
            let marked = tagged(g.arms, projected, projected.len() as int);
            match first_unready(g.arms, projected, marked, g.arms.len() as int) {
                Some(found) => r matches Err(AlgebrizerError::UnboundVariable(s)) && s@ == projected[found.1]@
                    && after == base,
                None => r is Ok && union_joined(base, schema, projected, g.arms, after),
            }
        },
    }
}

/// Whether `after` and `r` are what applying an `or` as a union to
/// `before` gives: its arms are gathered, each from what `before` knows of
/// the variables on which the `or` joins, and the union is concluded from
/// them.
pub open spec fn union_applied(
    before: ConjoiningClauses,
    schema: Schema,
    or_join: OrJoin,
    after: ConjoiningClauses,
    r: Result<(), AlgebrizerError>,
) -> bool
    decreases or_join, 1int,
{
    exists|projected: Seq<Variable>, template: ConjoiningClauses, g: GatheredView|
        {
            &&& sorted_names(projected)
            &&& name_set(projected) == projected_names(or_join)
            &&& #[trigger] starts_from(template, before, projected, false)
            &&& template.column_bindings@.len() == 0
            &&& arms_gathered(
                template,
                schema,
                or_join.clauses@,
                or_join.clauses@.len() as int,
                before.alias_counter,
                g,
            )
            &&& #[trigger] union_concluded(before, schema, projected, g, after, r)
        }
}

/// Whether `after` and `r` are what applying an `or` to `before` gives,
/// by the form that the `or` takes. One that always succeeds changes
/// nothing; one that is empty makes the clauses empty; one with a single arm
/// is that arm; a simple one is the patterns that can match; and any other
/// is a union.
pub open spec fn or_applied(
    before: ConjoiningClauses,
    schema: Schema,
    or_join: OrJoin,
    after: ConjoiningClauses,
    r: Result<(), AlgebrizerError>,
) -> bool
    decreases or_join, 2int,
{
    match or_shape(before, schema, or_join) {
        ShapeView::KnownSuccess => r is Ok && after == before,
        ShapeView::KnownEmpty(reason) => {
            &&& r is Ok
            &&& after@ == with_empty(before@, reason)
            &&& same_but_wheres(before, after)
            &&& after.wheres == before.wheres
        },
        ShapeView::Unit => if or_join.clauses@.len() > 0 {
            arm_applied(before, schema, or_join.clauses@[0], after, r)
        } else {
            false
        },
        ShapeView::Simple(flags, _) => r is Ok && patterns_applied(before, schema, or_join, flags, after),
        ShapeView::Complex => union_applied(before, schema, or_join, after, r),
    }
}

/// Whether `after` and `r` are what applying a `not` to `before` gives.
///
/// Where a variable on which the `not` joins is unbound, the first such
/// variable is the error, and nothing changes. Otherwise the clauses of the
/// `not` are applied to clauses of their own, which start from what `before`
/// knows of those variables and from the first column of each that has no
/// value. An error there is the error, and nothing changes. Clauses that
/// cannot match leave only the running number of aliases changed. Any
/// others have the columns of each variable set equal, and the constraint
/// that no row of them exists is added.
pub open spec fn not_applied(
    before: ConjoiningClauses,
    schema: Schema,
    not_join: NotJoin,
    after: ConjoiningClauses,
    r: Result<(), AlgebrizerError>,
) -> bool
    decreases not_join, 1int,
{
    let names = clause_variables(WhereClause::NotJoin(not_join));
    if exists|v: Seq<char>| names.contains(v) && !before.is_bound(v) {
        &&& r matches Err(AlgebrizerError::UnboundVariable(s))
        &&& first_unbound_name(before, names, s@)
        &&& after == before
    } else {
        exists|unified: Seq<Variable>, start: ConjoiningClauses, inner: ConjoiningClauses, first: Result<(), AlgebrizerError>|
            {
                &&& sorted_names(unified)
                &&& name_set(unified) == names
                &&& #[trigger] starts_from(start, before, unified, false)
                &&& binding_views(start.column_bindings@) == joined_columns(before, unified, unified.len() as int)
                &&& applied_in_turn(start, schema, not_join.clauses@, not_join.clauses@.len() as int, inner, first)
                &&& #[trigger] not_concluded(before, inner, first, after, r)
            }
    }
}

/// A `not` whose variables are all bound is applied once its clauses are.
pub proof fn lemma_not_applied(
    before: ConjoiningClauses,
    schema: Schema,
    not_join: NotJoin,
    unified: Seq<Variable>,
    start: ConjoiningClauses,
    inner: ConjoiningClauses,
    first: Result<(), AlgebrizerError>,
    after: ConjoiningClauses,
    r: Result<(), AlgebrizerError>,
)
    requires
        forall|v: Seq<char>| clause_variables(WhereClause::NotJoin(not_join)).contains(v) ==> before.is_bound(v),
        sorted_names(unified),
        name_set(unified) == clause_variables(WhereClause::NotJoin(not_join)),
        starts_from(start, before, unified, false),
        binding_views(start.column_bindings@) == joined_columns(before, unified, unified.len() as int),
        applied_in_turn(start, schema, not_join.clauses@, not_join.clauses@.len() as int, inner, first),
        not_concluded(before, inner, first, after, r),
    ensures
        not_applied(before, schema, not_join, after, r),
{
}

/// Whether `after` is `before` with the running number of aliases of
/// `inner`, and with the constraint that no row exists of `inner` once the
/// columns of each of its variables are set equal.
pub open spec fn not_exists_added(before: ConjoiningClauses, inner: ConjoiningClauses, after: ConjoiningClauses) -> bool {
    exists|expanded: ConjoiningClauses|
        {
            &&& expanded@ == with_expansion(inner@)
            &&& #[trigger] with_where(
                (ConjoiningClauses { alias_counter: inner.alias_counter, ..before })@,
                ColumnConstraint::NotExists(ComputedTable::Subquery(expanded)),
            ) == after@
            &&& same_but_wheres(ConjoiningClauses { alias_counter: inner.alias_counter, ..before }, after)
            &&& after.empty_because == before.empty_because
        }
}

fn sorted_variables(vars: &Vec<Variable>) -> (r: Vec<Variable>)
    ensures
        sorted_names(r@),
        name_set(r@) == name_set(vars@),
{
    let mut out: Vec<Variable> = Vec::new();
    assert(name_set(out@) =~= Set::<Seq<char>>::empty());
    add_all(&mut out, vars);
    assert(name_set(out@) =~= name_set(vars@));
    out
}

/// The clauses applied in turn are one more once the next one is applied to
/// what the others left, or once one of the others has failed.
pub proof fn lemma_one_more(
    before: ConjoiningClauses,
    schema: Schema,
    clauses: Seq<WhereClause>,
    n: int,
    mid: ConjoiningClauses,
    first: Result<(), AlgebrizerError>,
    after: ConjoiningClauses,
    r: Result<(), AlgebrizerError>,
)
    requires
        0 < n <= clauses.len(),
        applied_in_turn(before, schema, clauses, n - 1, mid, first),
        error_ends(mid, first, after, r),
        first is Ok ==> clause_applied(mid, schema, clauses[n - 1], after, r),
    ensures
        applied_in_turn(before, schema, clauses, n, after, r),
{
}

/// The arms gathered are one more once the next arm is gathered after the
/// others.
pub proof fn lemma_one_more_arm(
    template: ConjoiningClauses,
    schema: Schema,
    arms: Seq<OrWhereClause>,
    n: int,
    counter: usize,
    before: GatheredView,
    start: ConjoiningClauses,
    inner: ConjoiningClauses,
    ra: Result<(), AlgebrizerError>,
    out: GatheredView,
)
    requires
        0 < n <= arms.len(),
        arms_gathered(template, schema, arms, n - 1, counter, before),
        arm_gathered(template, before, start, inner, ra, out),
        before.error is None ==> arm_applied(start, schema, arms[n - 1], inner, ra),
    ensures
        arms_gathered(template, schema, arms, n, counter, out),
{
}

/// Once an arm has failed, the arms after it change nothing.
pub proof fn lemma_arm_error_ends(
    template: ConjoiningClauses,
    schema: Schema,
    arms: Seq<OrWhereClause>,
    k: int,
    n: int,
    counter: usize,
    out: GatheredView,
)
    requires
        0 <= k <= n <= arms.len(),
        out.error is Some,
        arms_gathered(template, schema, arms, k, counter, out),
    ensures
        arms_gathered(template, schema, arms, n, counter, out),
    decreases n - k,
{
    if k < n {
        lemma_one_more_arm(template, schema, arms, k + 1, counter, out, template, template, Ok(()), out);
        lemma_arm_error_ends(template, schema, arms, k + 1, n, counter, out);
    }
}

/// Once a clause has failed, the clauses after it change nothing.
pub proof fn lemma_error_ends(
    before: ConjoiningClauses,
    schema: Schema,
    clauses: Seq<WhereClause>,
    k: int,
    n: int,
    after: ConjoiningClauses,
    r: Result<(), AlgebrizerError>,
)
    requires
        0 <= k <= n <= clauses.len(),
        r is Err,
        applied_in_turn(before, schema, clauses, k, after, r),
    ensures
        applied_in_turn(before, schema, clauses, n, after, r),
    decreases n - k,
{
    if k < n {
        lemma_one_more(before, schema, clauses, k + 1, after, r, after, r);
        lemma_error_ends(before, schema, clauses, k + 1, n, after, r);
    }
}

impl ConjoiningClauses {
    /// Applies one clause of `:where`.
    ///
    /// A pattern adds its table, bindings and constraints; a predicate adds
    /// its constraint, or fails; an `or` and a `not` are algebrized as the
    /// module describes. The clauses stay well formed whatever the clause.
    pub fn apply_clause(&mut self, schema: &Schema, clause: WhereClause) -> (r: Result<(), AlgebrizerError>)
        requires
            old(self).ok(),
        ensures
            final(self).ok(),
            grows(*old(self), *final(self)),
            clause_applied(*old(self), *schema, clause, *final(self), r),
        decreases clause, 0int,
    {
        match clause {
            WhereClause::Pattern(p) => {
                self.apply_pattern(schema, p);
                Ok(())
            },
            WhereClause::Pred(p) => self.apply_predicate(p),
            WhereClause::OrJoin(o) => self.apply_or_join(schema, o),
            WhereClause::NotJoin(n) => self.apply_not_join(schema, n),
        }
    }

    /// Applies the clauses in turn; the first error ends the work.
    pub fn apply_clauses(&mut self, schema: &Schema, clauses: Vec<WhereClause>) -> (r: Result<(), AlgebrizerError>)
        requires
            old(self).ok(),
        ensures
            final(self).ok(),
            grows(*old(self), *final(self)),
            applied_in_turn(*old(self), *schema, clauses@, clauses@.len() as int, *final(self), r),
        decreases clauses, 0int,
    {
        let n = clauses.len();
        let ghost all = clauses;
        let mut items = ConsumableVec::with_vec(clauses);
        let mut last: Result<(), AlgebrizerError> = Ok(());
        let mut i: usize = 0;
        while i < n
            invariant
                i <= n == all@.len(),
                all == clauses,
                items@.len() == n,
                forall|j: int| i <= j < n ==> #[trigger] items@[j] == Some(all@[j]),
                self.ok(),
                grows(*old(self), *self),
                last is Ok,
                applied_in_turn(*old(self), *schema, all@, i as int, *self, last),
            decreases n - i,
        {
            let clause = items.take_dangerously(i);
            proof {
                assert(decreases_to!(all => all[i as int]));
            }
            let ghost before = *self;
            let r = self.apply_clause(schema, clause);
            proof {
                lemma_grows_twice(*old(self), before, *self);
                lemma_one_more(*old(self), *schema, all@, i + 1, before, last, *self, r);
            }
            if r.is_err() {
                proof {
                    lemma_error_ends(*old(self), *schema, all@, i + 1, n as int, *self, r);
                }
                return r;
            }
            last = r;
            i += 1;
        }
        last
    }

    fn apply_or_where_clause(&mut self, schema: &Schema, clause: OrWhereClause) -> (r: Result<(), AlgebrizerError>)
        requires
            old(self).ok(),
        ensures
            final(self).ok(),
            grows(*old(self), *final(self)),
            arm_applied(*old(self), *schema, clause, *final(self), r),
        decreases clause, 0int,
    {
        match clause {
            OrWhereClause::Clause(c) => self.apply_clause(schema, c),
            OrWhereClause::And(cs) => self.apply_clauses(schema, cs),
        }
    }

    /// Applies an `or` or an `or-join`. Without arms it does nothing; with
    /// one arm that joins on all its variables it is that arm.
    pub fn apply_or_join(&mut self, schema: &Schema, or_join: OrJoin) -> (r: Result<(), AlgebrizerError>)
        requires
            old(self).ok(),
        ensures
            final(self).ok(),
            grows(*old(self), *final(self)),
            or_applied(*old(self), *schema, or_join, *final(self), r),
        decreases or_join, 2int,
    {
        match self.deconstruct_or_join(schema, &or_join) {
            OrShape::KnownSuccess => Ok(()),
            OrShape::KnownEmpty(reason) => {
                self.mark_known_empty(reason);
                Ok(())
            },
            OrShape::Unit => {
                let OrJoin { unify_vars: _, clauses } = or_join;
                let mut clauses = clauses;
                proof {
                    assert(decreases_to!(or_join => or_join.clauses));
                    assert(decreases_to!(or_join.clauses => or_join.clauses[0]));
                }
                match clauses.pop() {
                    Some(clause) => self.apply_or_where_clause(schema, clause),
                    None => Ok(()),
                }
            },
            OrShape::Simple(flags, _) => {
                self.apply_or_patterns(schema, or_join, flags);
                Ok(())
            },
            OrShape::Complex => self.apply_complex_or_join(schema, or_join),
        }
    }

    /// Applies each arm of an `or` to clauses of its own, which start from
    /// `template`, and gathers the clauses of the arms that can match.
    pub fn gather_arms(template: &ConjoiningClauses, schema: &Schema, clauses: Vec<OrWhereClause>, counter: usize) -> (r: Gathered)
        requires
            template.ok(),
        ensures
            arms_gathered(*template, *schema, clauses@, clauses@.len() as int, counter, r@),
            forall|j: int| 0 <= j < r.arms@.len() ==> (#[trigger] r.arms@[j]).ok() && !r.arms@[j].known_empty(),
            template.known_empty() ==> r.arms@.len() == 0,
        decreases clauses, 0int,
    {
        let n = clauses.len();
        let ghost all = clauses;
        let mut items = ConsumableVec::with_vec(clauses);
        let mut acc: Vec<ConjoiningClauses> = Vec::new();
        let mut reason: Option<EmptyBecause> = None;
        let mut next = counter;
        let mut i: usize = 0;
        while i < n
            invariant
                i <= n == all@.len(),
                all == clauses,
                items@.len() == n,
                forall|j: int| i <= j < n ==> #[trigger] items@[j] == Some(all@[j]),
                template.ok(),
                template.known_empty() ==> acc@.len() == 0,
                forall|j: int| 0 <= j < acc@.len() ==> (#[trigger] acc@[j]).ok() && !acc@[j].known_empty(),
                arms_gathered(
                    *template,
                    *schema,
                    all@,
                    i as int,
                    counter,
                    GatheredView { arms: acc@, counter: next, reason, error: None },
                ),
            decreases n - i,
        {
            let ghost before = GatheredView { arms: acc@, counter: next, reason, error: None };
            let mut receptacle = template.make_receptacle();
            receptacle.alias_counter = next;
            let ghost start = receptacle;
            let arm = items.take_dangerously(i);
            proof {
                assert(decreases_to!(all => all[i as int]));
                assert(is_receptacle(start, *template, next));
            }
            let ra = receptacle.apply_or_where_clause(schema, arm);
            let ghost inner = receptacle;
            match ra {
                Ok(_) => {},
                Err(e) => {
                    let ghost out = GatheredView { arms: acc@, counter: next, reason, error: Some(e) };
                    proof {
                        lemma_one_more_arm(*template, *schema, all@, i + 1, counter, before, start, inner, ra, out);
                        lemma_arm_error_ends(*template, *schema, all@, i + 1, n as int, counter, out);
                    }
                    return Gathered { arms: acc, counter: next, reason, error: Some(e) };
                },
            }
            next = receptacle.alias_counter;
            if receptacle.is_known_empty() {
                reason = clone_reason(&receptacle.empty_because);
            } else {
                receptacle.expand_column_bindings();
                receptacle.prune_extracted_types();
                assert(is_settled(inner, receptacle));
                acc.push(receptacle);
            }
            proof {
                let out = GatheredView { arms: acc@, counter: next, reason, error: None };
                lemma_one_more_arm(*template, *schema, all@, i + 1, counter, before, start, inner, ra, out);
            }
            i += 1;
        }
        Gathered { arms: acc, counter: next, reason, error: None }
    }

    /// Applies an `or` as a union: each arm is algebrized into clauses of
    /// its own, the arms that can match become the arms of a computed table,
    /// and the table's columns are bound to the variables on which the `or`
    /// joins. Every arm must bind each of those variables.
    pub fn apply_complex_or_join(&mut self, schema: &Schema, or_join: OrJoin) -> (r: Result<(), AlgebrizerError>)
        requires
            old(self).ok(),
        ensures
            final(self).ok(),
            grows(*old(self), *final(self)),
            union_applied(*old(self), *schema, or_join, *final(self), r),
        decreases or_join, 1int,
    {
        let projected: Vec<Variable> = match &or_join.unify_vars {
            UnifyVars::Implicit => common_variables(&or_join.clauses),
            UnifyVars::Explicit(vars) => sorted_variables(vars),
        };
        assert(sorted_names(projected@) && name_set(projected@) == projected_names(or_join));
        let OrJoin { unify_vars: _, clauses } = or_join;
        let template = self.use_as_template(&projected);
        proof {
            assert(decreases_to!(or_join => or_join.clauses));
        }
        let gathered = ConjoiningClauses::gather_arms(&template, schema, clauses, self.alias_counter);
        let ghost g = gathered@;
        let Gathered { arms, counter, reason, error } = gathered;
        match error {
            Some(e) => {
                assert(union_concluded(*old(self), *schema, projected@, g, *self, Err(e)));
                return Err(e);
            },
            None => {},
        }
        self.alias_counter = counter;
        if arms.len() == 0 {
            match reason {
                Some(e) => {
                    self.mark_known_empty(e);
                },
                None => {
                    self.mark_known_empty(EmptyBecause::AttributeLookupFailed);
                },
            }
            assert(union_concluded(*old(self), *schema, projected@, g, *self, Ok(())));
            return Ok(());
        }
        let types = union_types_of(&arms, &projected);
        match first_unready_arm(&arms, &projected, &types.tagged) {
            Some(k) => {
                let r = Err(AlgebrizerError::UnboundVariable(projected[k].name()));
                assert(union_concluded(*old(self), *schema, projected@, g, *self, r));
                return r;
            },
            None => {},
        }
        self.join_union(schema, &projected, types, arms);
        assert(union_concluded(*old(self), *schema, projected@, g, *self, Ok(())));
        Ok(())
    }

    /// Applies a `not` or a `not-join`: its clauses are algebrized into
    /// clauses of their own, which start from the value or the first column
    /// of each variable on which the `not` joins, and the constraint is added
    /// that no row of those clauses exists. Each of those variables must be
    /// bound already. Clauses that cannot match add no constraint.
    pub fn apply_not_join(&mut self, schema: &Schema, not_join: NotJoin) -> (r: Result<(), AlgebrizerError>)
        requires
            old(self).ok(),
        ensures
            final(self).ok(),
            grows(*old(self), *final(self)),
            not_applied(*old(self), *schema, not_join, *final(self), r),
        decreases not_join, 1int,
    {
        let unified: Vec<Variable> = match &not_join.unify_vars {
            UnifyVars::Implicit => {
                let mut all: Vec<Variable> = Vec::new();
                assert(name_set(all@) =~= Set::<Seq<char>>::empty());
                add_clauses_variables(&mut all, &not_join.clauses);
                assert(name_set(all@) =~= clause_variables(WhereClause::NotJoin(not_join)));
                all
            },
            UnifyVars::Explicit(vars) => sorted_variables(vars),
        };
        let ghost names = clause_variables(WhereClause::NotJoin(not_join));
        assert(sorted_names(unified@) && name_set(unified@) == names);
        let NotJoin { unify_vars: _, clauses } = not_join;
        let mut template = self.use_as_template(&unified);
        let mut i: usize = 0;
        while i < unified.len()
            invariant
                i <= unified@.len(),
                *self == *old(self),
                self.ok(),
                template.ok(),
                starts_from(template, *self, unified@, false),
                binding_views(template.column_bindings@) == joined_columns(*self, unified@, i as int),
                sorted_names(unified@),
                name_set(unified@) == names,
                names == clause_variables(WhereClause::NotJoin(not_join)),
                forall|j: int| 0 <= j < i ==> self.is_bound((#[trigger] unified@[j])@),
            decreases unified@.len() - i,
        {
            let var = &unified[i];
            // A variable with a value has it in the template already.
            if self.bound_value(var).is_none() {
                match self.first_column(var) {
                    Some(col) => {
                        let mut cols: Vec<QualifiedAlias> = Vec::new();
                        cols.push(col.clone());
                        template.column_bindings.push((var.clone(), cols));
                        assert(binding_views(template.column_bindings@) =~= joined_columns(
                            *self,
                            unified@,
                            i + 1,
                        ));
                    },
                    None => {
                        proof {
                            let name = unified@[i as int]@;
                            assert(names_contain(unified@, name));
                            assert forall|w: Seq<char>| names.contains(w) && !self.is_bound(w) implies !lex_lt(
                                w,
                                name,
                            ) by {
                                let k = choose|k: int| 0 <= k < unified@.len() && #[trigger] unified@[k]@ == w;
                                if k > i {
                                    lemma_lex_asymmetric(name, w);
                                } else if k == i {
                                    lemma_lex_irreflexive(name);
                                }
                            }
                        }
                        return Err(AlgebrizerError::UnboundVariable(var.name()));
                    },
                }
            }
            i += 1;
        }
        proof {
            assert(decreases_to!(not_join => not_join.clauses));
            assert forall|v: Seq<char>| names.contains(v) implies self.is_bound(v) by {
                let k = choose|k: int| 0 <= k < unified@.len() && #[trigger] unified@[k]@ == v;
            }
        }
        let ghost start = template;
        let first = template.apply_clauses(schema, clauses);
        let ghost inner = template;
        match first {
            Ok(_) => {},
            Err(e) => {
                proof {
                    lemma_not_applied(*old(self), *schema, not_join, unified@, start, inner, first, *self, first);
                }
                return Err(e);
            },
        }
        self.alias_counter = template.alias_counter;
        if template.is_known_empty() {
            proof {
                lemma_not_applied(*old(self), *schema, not_join, unified@, start, inner, first, *self, Ok(()));
            }
            return Ok(());
        }
        template.expand_column_bindings();
        let ghost expanded = template;
        self.add_where(ColumnConstraint::NotExists(ComputedTable::Subquery(template)));
        proof {
            assert(with_where(
                (ConjoiningClauses { alias_counter: inner.alias_counter, ..*old(self) })@,
                ColumnConstraint::NotExists(ComputedTable::Subquery(expanded)),
            ) == self@);
            assert(not_exists_added(*old(self), inner, *self));
            lemma_not_applied(*old(self), *schema, not_join, unified@, start, inner, first, *self, Ok(()));
        }
        Ok(())
    }
}

} // verus!
