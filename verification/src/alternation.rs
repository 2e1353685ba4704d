//! An `or` whose arms are patterns of one shape on one table: it needs no
//! union, since its arms differ in their constraints alone.

use vstd::prelude::*;
use crate::clauses::{
    ClausesState, ConjoiningClauses, assoc_set, binding_views, extends, find_var, grows,
    lemma_binding_views_index, lemma_first_index, lemma_type_views_index, lemma_wheres_wf_push,
    lookup, reason_view, set_var, type_views, types_wf, wheres_wf, with_empty,
};
use crate::or_join::{
    clone_reason, is_receptacle, kept, lemma_alternates_wf, lemma_wheres_wf_concat, starts_from,
};
use crate::pattern::{
    after_alias, lemma_from_push, next_alias, pattern_applied, table_for, with_column,
    with_pattern_for_alias,
};
use crate::query::{
    OrJoin, OrWhereClause, Pattern, PatternNonValuePlace, PatternValuePlace, Variable, WhereClause,
};
use crate::translate::ConsumableVec;
use crate::types::{
    ColumnAlternation, ColumnConstraintOrAlternation, ColumnIntersection, DatomsTable, EmptyBecause,
    QualifiedAlias, ReasonView, SourceAlias, TableAlias, ValueTypeSet,
};
use crate::unions::narrowed_all;
use crate::values::{Schema, ValueType};
use crate::variables::{
    arms_variables, fully_unified, is_fully_unified, mentioned_variables, name_set, sorted_names,
};

verus! {

/// Whether two places hold the same variable, or both nothing, or both an
/// entity.
pub open spec fn places_alike(left: PatternNonValuePlace, right: PatternNonValuePlace) -> bool {
    match left {
        PatternNonValuePlace::Variable(a) => right matches PatternNonValuePlace::Variable(b) && a@ == b@,
        PatternNonValuePlace::Placeholder => right is Placeholder,
        _ => right is Entid || right is Ident,
    }
}

/// Whether two value places hold the same variable, or both nothing, or
/// both a constant.
pub open spec fn values_alike(left: PatternValuePlace, right: PatternValuePlace) -> bool {
    match left {
        PatternValuePlace::Variable(a) => right matches PatternValuePlace::Variable(b) && a@ == b@,
        PatternValuePlace::Placeholder => right is Placeholder,
        _ => !(right is Variable) && !(right is Placeholder),
    }
}

/// Whether two patterns have the same variables in the same places, and
/// constants in the same places.
pub open spec fn shapes_alike(template: Pattern, p: Pattern) -> bool {
    &&& places_alike(template.entity, p.entity)
    &&& places_alike(template.attribute, p.attribute)
    &&& values_alike(template.value, p.value)
    &&& places_alike(template.tx, p.tx)
}

fn simply_matches_place(left: &PatternNonValuePlace, right: &PatternNonValuePlace) -> (r: bool)
    ensures
        r == places_alike(*left, *right),
{
    match (left, right) {
        (PatternNonValuePlace::Variable(a), PatternNonValuePlace::Variable(b)) => a.same(b),
        (PatternNonValuePlace::Placeholder, PatternNonValuePlace::Placeholder) => true,
        (PatternNonValuePlace::Entid(_), PatternNonValuePlace::Entid(_)) => true,
        (PatternNonValuePlace::Entid(_), PatternNonValuePlace::Ident(_)) => true,
        (PatternNonValuePlace::Ident(_), PatternNonValuePlace::Ident(_)) => true,
        (PatternNonValuePlace::Ident(_), PatternNonValuePlace::Entid(_)) => true,
        _ => false,
    }
}

fn simply_matches_value_place(left: &PatternValuePlace, right: &PatternValuePlace) -> (r: bool)
    ensures
        r == values_alike(*left, *right),
{
    match (left, right) {
        (PatternValuePlace::Variable(a), PatternValuePlace::Variable(b)) => a.same(b),
        (PatternValuePlace::Placeholder, PatternValuePlace::Placeholder) => true,
        (PatternValuePlace::Variable(_), _) => false,
        (_, PatternValuePlace::Variable(_)) => false,
        (PatternValuePlace::Placeholder, _) => false,
        (_, PatternValuePlace::Placeholder) => false,
        _ => true,
    }
}

fn same_shape(template: &Pattern, p: &Pattern) -> (r: bool)
    ensures
        r == shapes_alike(*template, *p),
{
    simply_matches_place(&template.entity, &p.entity) && simply_matches_place(
        &template.attribute,
        &p.attribute,
    ) && simply_matches_value_place(&template.value, &p.value) && simply_matches_place(
        &template.tx,
        &p.tx,
    )
}

/// How an `or` is to be algebrized.
pub enum OrShape {
    /// It has no arm, and so constrains nothing.
    KnownSuccess,
    /// None of its arms can match.
    KnownEmpty(EmptyBecause),
    /// It has one arm, which joins on all its variables.
    Unit,
    /// Its arms are patterns on one table with the same variables in the
    /// same places; the flags say which of them can match, and the number
    /// is the position of the first that can.
    Simple(Vec<bool>, usize),
    /// Anything else.
    Complex,
}

/// `OrShape` as mathematical data.
pub enum ShapeView {
    KnownSuccess,
    KnownEmpty(ReasonView),
    Unit,
    Simple(Seq<bool>, int),
    Complex,
}

impl View for OrShape {
    type V = ShapeView;

    open spec fn view(&self) -> ShapeView {
        match self {
            OrShape::KnownSuccess => ShapeView::KnownSuccess,
            OrShape::KnownEmpty(e) => ShapeView::KnownEmpty(e@),
            OrShape::Unit => ShapeView::Unit,
            OrShape::Simple(flags, first) => ShapeView::Simple(flags@, *first as int),
            OrShape::Complex => ShapeView::Complex,
        }
    }
}

/// What is known of the arms looked at so far: whether one of them rules
/// out the simple form; the first pattern that can match, and its table;
/// which arms can match; and why the last arm that cannot match is empty.
pub struct ArmsSoFar {
    pub complex: bool,
    pub template: Option<int>,
    pub table: Option<DatomsTable>,
    pub flags: Seq<bool>,
    pub reason: Option<ReasonView>,
}

/// The pattern that the arm at `i` is, if it is one.
pub open spec fn pattern_at(arms: Seq<OrWhereClause>, i: int) -> Option<Pattern> {
    if 0 <= i < arms.len() {
        match arms[i] {
            OrWhereClause::Clause(WhereClause::Pattern(p)) => Some(p),
            _ => None,
        }
    } else {
        None
    }
}

/// What is known after the first `n` arms. An arm that is no pattern rules
/// out the simple form, and so does a pattern that can match but reads
/// another table than the first such pattern, or has another shape.
pub open spec fn arms_so_far(cc: ConjoiningClauses, schema: Schema, arms: Seq<OrWhereClause>, n: int) -> ArmsSoFar
    decreases n,
{
    if n <= 0 || n > arms.len() {
        ArmsSoFar { complex: false, template: None, table: None, flags: seq![], reason: None }
    } else {
        let before = arms_so_far(cc, schema, arms, n - 1);
        if before.complex {
            before
        } else {
            match pattern_at(arms, n - 1) {
                None => ArmsSoFar { complex: true, ..before },
                Some(p) => match table_for(cc@, schema, p.attribute, p.value) {
                    Err(e) => ArmsSoFar { flags: before.flags.push(false), reason: Some(e), ..before },
                    Ok(table) => {
                        let shaped = match before.template {
                            Some(t) => pattern_at(arms, t) matches Some(first) && shapes_alike(first, p),
                            None => true,
                        };
                        let tabled = match before.table {
                            Some(expected) => expected == table,
                            None => true,
                        };
                        if shaped && tabled {
                            ArmsSoFar {
                                flags: before.flags.push(true),
                                template: match before.template {
                                    Some(t) => Some(t),
                                    None => Some(n - 1),
                                },
                                table: Some(table),
                                ..before
                            }
                        } else {
                            ArmsSoFar { complex: true, ..before }
                        }
                    },
                },
            }
        }
    }
}

/// How an `or` is to be algebrized. One that does not join on every
/// variable it mentions takes the general form. Of the others, one without
/// arms always succeeds, and one with a single arm is that arm. With more
/// arms it is simple where every arm is a pattern and the patterns that can
/// match have one shape and read one table; it is empty where no pattern
/// can match; and it takes the general form otherwise.
pub open spec fn or_shape(cc: ConjoiningClauses, schema: Schema, or_join: OrJoin) -> ShapeView {
    if !fully_unified(or_join) {
        ShapeView::Complex
    } else if or_join.clauses@.len() == 0 {
        ShapeView::KnownSuccess
    } else if or_join.clauses@.len() == 1 {
        ShapeView::Unit
    } else {
        let all = arms_so_far(cc, schema, or_join.clauses@, or_join.clauses@.len() as int);
        if all.complex {
            ShapeView::Complex
        } else {
            match all.template {
                Some(t) => ShapeView::Simple(all.flags, t),
                None => ShapeView::KnownEmpty(
                    match all.reason {
                        Some(e) => e,
                        None => ReasonView::AttributeLookupFailed,
                    },
                ),
            }
        }
    }
}

/// The flags tell the patterns that can match, and the template is one of
/// them.
pub proof fn lemma_arms_so_far(cc: ConjoiningClauses, schema: Schema, arms: Seq<OrWhereClause>, n: int)
    requires
        0 <= n <= arms.len(),
    ensures
        ({
            let s = arms_so_far(cc, schema, arms, n);
            &&& !s.complex ==> s.flags.len() == n
            &&& !s.complex ==> forall|j: int| 0 <= j < n && #[trigger] s.flags[j] ==> pattern_at(arms, j) is Some
            &&& !s.complex ==> (s.template matches Some(t) ==> 0 <= t < n && s.flags[t])
        }),
    decreases n,
{
    if n > 0 {
        lemma_arms_so_far(cc, schema, arms, n - 1);
    }
}

/// Once an arm has ruled out the simple form, it stays ruled out.
pub proof fn lemma_complex_stays(cc: ConjoiningClauses, schema: Schema, arms: Seq<OrWhereClause>, k: int, n: int)
    requires
        0 <= k <= n <= arms.len(),
        arms_so_far(cc, schema, arms, k).complex,
    ensures
        arms_so_far(cc, schema, arms, n).complex,
    decreases n - k,
{
    if k < n {
        lemma_complex_stays(cc, schema, arms, k, n - 1);
    }
}

impl ConjoiningClauses {
    /// Decides how `or_join` is to be algebrized.
    pub fn deconstruct_or_join(&self, schema: &Schema, or_join: &OrJoin) -> (r: OrShape)
        requires
            types_wf(self.known_types@),
        ensures
            r@ == or_shape(*self, *schema, *or_join),
            r matches OrShape::Simple(flags, first) ==> flags@.len() == or_join.clauses@.len() && first
                < flags@.len() && flags@[first as int] && forall|i: int|
                0 <= i < flags@.len() && #[trigger] flags@[i] ==> pattern_at(or_join.clauses@, i) is Some,
    {
        if !is_fully_unified(or_join) {
            return OrShape::Complex;
        }
        let n = or_join.clauses.len();
        if n == 0 {
            return OrShape::KnownSuccess;
        }
        if n == 1 {
            return OrShape::Unit;
        }
        let ghost arms = or_join.clauses@;
        let mut flags: Vec<bool> = Vec::new();
        let mut template_index: Option<usize> = None;
        let mut expected_table: Option<DatomsTable> = None;
        let mut empty_because: Option<EmptyBecause> = None;
        let mut i: usize = 0;
        while i < n
            invariant
                i <= n == or_join.clauses@.len(),
                n >= 2,
                arms == or_join.clauses@,
                fully_unified(*or_join),
                types_wf(self.known_types@),
                arms_so_far(*self, *schema, arms, i as int) == (ArmsSoFar {
                    complex: false,
                    template: match template_index {
                        Some(t) => Some(t as int),
                        None => None,
                    },
                    table: expected_table,
                    flags: flags@,
                    reason: match empty_because {
                        Some(e) => Some(e@),
                        None => None,
                    },
                }),
            decreases n - i,
        {
            proof {
                lemma_arms_so_far(*self, *schema, arms, i as int);
            }
            match &or_join.clauses[i] {
                OrWhereClause::Clause(WhereClause::Pattern(p)) => {
                    match self.table_for_places(schema, &p.attribute, &p.value) {
                        Err(e) => {
                            empty_because = Some(e);
                            flags.push(false);
                        },
                        Ok(table) => {
                            let shape_ok = match template_index {
                                Some(t) => match &or_join.clauses[t] {
                                    OrWhereClause::Clause(WhereClause::Pattern(template)) => same_shape(
                                        template,
                                        p,
                                    ),
                                    _ => false,
                                },
                                None => true,
                            };
                            let table_ok = match expected_table {
                                Some(expected) => expected == table,
                                None => true,
                            };
                            if shape_ok && table_ok {
                                expected_table = Some(table);
                                if template_index.is_none() {
                                    template_index = Some(i);
                                }
                                flags.push(true);
                            } else {
                                proof {
                                    lemma_complex_stays(*self, *schema, arms, i + 1, n as int);
                                }
                                return OrShape::Complex;
                            }
                        },
                    }
                },
                _ => {
                    proof {
                        lemma_complex_stays(*self, *schema, arms, i + 1, n as int);
                    }
                    return OrShape::Complex;
                },
            }
            i += 1;
        }
        proof {
            lemma_arms_so_far(*self, *schema, arms, n as int);
        }
        match template_index {
            Some(t) => OrShape::Simple(flags, t),
            None => match empty_because {
                Some(e) => OrShape::KnownEmpty(e),
                None => OrShape::KnownEmpty(EmptyBecause::AttributeLookupFailed),
            },
        }
    }
}

/// The patterns among the first `n` arms that the flags mark.
pub open spec fn flagged(arms: Seq<OrWhereClause>, flags: Seq<bool>, n: int) -> Seq<Pattern>
    decreases n,
{
    if n <= 0 || n > arms.len() || n > flags.len() {
        seq![]
    } else if flags[n - 1] && pattern_at(arms, n - 1) is Some {
        flagged(arms, flags, n - 1).push(pattern_at(arms, n - 1)->0)
    } else {
        flagged(arms, flags, n - 1)
    }
}

/// What the clauses of an arm start from: what `template` knows, and
/// nothing else.
pub open spec fn receptacle_state(template: ConjoiningClauses) -> ClausesState {
    ClausesState {
        empty_because: reason_view(template.empty_because),
        counter: template.alias_counter as int,
        from: seq![],
        computed: seq![],
        wheres: seq![],
        bindings: seq![],
        inputs: template.input_variables@,
        values: kept(
            template.value_bindings@,
            template.input_variables@,
            true,
            template.value_bindings@.len() as int,
        ),
        types: type_views(
            kept(template.known_types@, template.input_variables@, true, template.known_types@.len() as int),
        ),
        extracted: kept(
            template.extracted_types@,
            template.input_variables@,
            true,
            template.extracted_types@.len() as int,
        ),
    }
}

/// Clauses that start from a template are in the state that the template
/// gives.
pub proof fn lemma_receptacle_state(r: ConjoiningClauses, template: ConjoiningClauses)
    requires
        is_receptacle(r, template, template.alias_counter),
    ensures
        r@ == receptacle_state(template),
{
    assert(r@.from =~= seq![]);
    assert(r@.computed =~= seq![]);
    assert(r@.wheres =~= seq![]);
    assert(r@.bindings =~= seq![]);
}

/// Whether `arms` are the clauses of the patterns, each applied to the
/// table `alias` from the state `start`.
pub open spec fn arms_of(start: ClausesState, schema: Schema, patterns: Seq<Pattern>, alias: TableAlias, arms: Seq<ConjoiningClauses>) -> bool {
    &&& arms.len() == patterns.len()
    &&& forall|i: int|
        0 <= i < arms.len() ==> (#[trigger] arms[i])@ == with_pattern_for_alias(start, schema, patterns[i], alias)
}

/// The clauses of each pattern, applied to the table `alias` from what
/// `template` knows.
fn pattern_arms(template: &ConjoiningClauses, schema: &Schema, patterns: &Vec<Pattern>, alias: &SourceAlias) -> (r: Vec<ConjoiningClauses>)
    requires
        template.ok(),
    ensures
        arms_of(receptacle_state(*template), *schema, patterns@, alias.1, r@),
        forall|i: int| 0 <= i < r@.len() ==> (#[trigger] r@[i]).ok(),
{
    let mut out: Vec<ConjoiningClauses> = Vec::new();
    let mut i: usize = 0;
    while i < patterns.len()
        invariant
            i <= patterns@.len(),
            template.ok(),
            out@.len() == i,
            forall|j: int|
                0 <= j < i ==> (#[trigger] out@[j])@ == with_pattern_for_alias(
                    receptacle_state(*template),
                    *schema,
                    patterns@[j],
                    alias.1,
                ),
            forall|j: int| 0 <= j < i ==> (#[trigger] out@[j]).ok(),
        decreases patterns@.len() - i,
    {
        let mut receptacle = template.make_receptacle();
        proof {
            assert(is_receptacle(receptacle, *template, template.alias_counter));
            lemma_receptacle_state(receptacle, *template);
        }
        receptacle.apply_pattern_clause_for_alias(schema, &patterns[i], alias);
        out.push(receptacle);
        i += 1;
    }
    out
}

/// Among the first `n` arms, the first that can match.
pub open spec fn first_matching(arms: Seq<ConjoiningClauses>, n: int) -> Option<int>
    decreases n,
{
    if n <= 0 || n > arms.len() {
        None
    } else {
        match first_matching(arms, n - 1) {
            Some(k) => Some(k),
            None => if arms[n - 1].known_empty() {
                None
            } else {
                Some(n - 1)
            },
        }
    }
}

/// The arm that `first_matching` finds is in range and can match. Where it
/// finds none, no arm can match.
pub proof fn lemma_first_matching(arms: Seq<ConjoiningClauses>, n: int)
    requires
        0 <= n <= arms.len(),
    ensures
        match first_matching(arms, n) {
            Some(k) => 0 <= k < n && !arms[k].known_empty(),
            None => forall|j: int| 0 <= j < n ==> (#[trigger] arms[j]).known_empty(),
        },
    decreases n,
{
    if n > 0 {
        lemma_first_matching(arms, n - 1);
    }
}

/// The first arm among the first `k` that can match is the first among
/// more.
pub proof fn lemma_matching_stays(arms: Seq<ConjoiningClauses>, k: int, n: int)
    requires
        0 <= k <= n <= arms.len(),
        first_matching(arms, k) is Some,
    ensures
        first_matching(arms, n) == first_matching(arms, k),
    decreases n - k,
{
    if k < n {
        lemma_matching_stays(arms, k, n - 1);
    }
}

fn first_match(arms: &Vec<ConjoiningClauses>) -> (r: Option<usize>)
    ensures
        r is Some <==> first_matching(arms@, arms@.len() as int) is Some,
        r is Some ==> r->0 < arms@.len() && r->0 as int == first_matching(arms@, arms@.len() as int)->0,
{
    let mut i: usize = 0;
    while i < arms.len()
        invariant
            i <= arms@.len(),
            first_matching(arms@, i as int) is None,
        decreases arms@.len() - i,
    {
        if !arms[i].is_known_empty() {
            proof {
                lemma_matching_stays(arms@, i + 1, arms@.len() as int);
            }
            return Some(i);
        }
        i += 1;
    }
    None
}

/// The bindings once the first `n` of `cols` are added to the columns of
/// `var`.
pub open spec fn with_columns(m: Seq<(Variable, Seq<QualifiedAlias>)>, var: Variable, cols: Seq<QualifiedAlias>, n: int) -> Seq<
    (Variable, Seq<QualifiedAlias>),
>
    decreases n,
{
    if n <= 0 || n > cols.len() {
        m
    } else {
        with_column(with_columns(m, var, cols, n - 1), var, cols[n - 1])
    }
}

/// The bindings once the columns of the first `n` variables of `from` are
/// added.
pub open spec fn adopted_columns(m: Seq<(Variable, Seq<QualifiedAlias>)>, from: Seq<(Variable, Seq<QualifiedAlias>)>, n: int) -> Seq<
    (Variable, Seq<QualifiedAlias>),
>
    decreases n,
{
    if n <= 0 || n > from.len() {
        m
    } else {
        with_columns(adopted_columns(m, from, n - 1), from[n - 1].0, from[n - 1].1, from[n - 1].1.len() as int)
    }
}

/// The type-tag columns once those of the first `n` variables of `from` are
/// added, but for the variables that have one already.
pub open spec fn adopted_tags(m: Seq<(Variable, QualifiedAlias)>, from: Seq<(Variable, QualifiedAlias)>, n: int) -> Seq<
    (Variable, QualifiedAlias),
>
    decreases n,
{
    if n <= 0 || n > from.len() {
        m
    } else {
        let before = adopted_tags(m, from, n - 1);
        if lookup(before, from[n - 1].0@) is None {
            before.push(from[n - 1])
        } else {
            before
        }
    }
}

/// The state once the columns and the type-tag columns of `arm` are added:
/// the arms of a simple `or` bind the same variables to the same columns,
/// so those of one arm stand for all.
pub open spec fn adopted_state(st: ClausesState, arm: ConjoiningClauses) -> ClausesState {
    ClausesState {
        bindings: adopted_columns(
            st.bindings,
            binding_views(arm.column_bindings@),
            arm.column_bindings@.len() as int,
        ),
        extracted: adopted_tags(st.extracted, arm.extracted_types@, arm.extracted_types@.len() as int),
        ..st
    }
}

fn add_column(bindings: &mut Vec<(Variable, Vec<QualifiedAlias>)>, var: &Variable, qa: QualifiedAlias)
    ensures
        binding_views(final(bindings)@) == with_column(binding_views(old(bindings)@), *var, qa),
{
    proof {
        lemma_binding_views_index(bindings@, var@);
        lemma_first_index(bindings@, var@);
    }
    match find_var(bindings, var) {
        Some(i) => {
            let (key, mut cols) = bindings.remove(i);
            cols.push(qa);
            bindings.insert(i, (key, cols));
            assert(binding_views(bindings@) =~= with_column(binding_views(old(bindings)@), *var, qa));
        },
        None => {
            let mut cols: Vec<QualifiedAlias> = Vec::new();
            cols.push(qa);
            bindings.push((var.clone(), cols));
            assert(binding_views(bindings@) =~= with_column(binding_views(old(bindings)@), *var, qa));
        },
    }
}

impl ConjoiningClauses {
    /// Adds the columns and the type-tag columns of `arm` to these clauses.
    fn adopt(&mut self, arm: &ConjoiningClauses)
        ensures
            final(self)@ == adopted_state(old(self)@, *arm),
            final(self).alias_counter == old(self).alias_counter,
            final(self).from == old(self).from,
            final(self).computed_tables == old(self).computed_tables,
            final(self).wheres == old(self).wheres,
            final(self).input_variables == old(self).input_variables,
            final(self).value_bindings == old(self).value_bindings,
            final(self).known_types == old(self).known_types,
            final(self).empty_because == old(self).empty_because,
    {
        let ghost from = binding_views(arm.column_bindings@);
        let ghost first = binding_views(self.column_bindings@);
        let mut v: usize = 0;
        while v < arm.column_bindings.len()
            invariant
                v <= arm.column_bindings@.len(),
                from == binding_views(arm.column_bindings@),
                binding_views(self.column_bindings@) == adopted_columns(first, from, v as int),
                self.alias_counter == old(self).alias_counter,
                self.from == old(self).from,
                self.computed_tables == old(self).computed_tables,
                self.wheres == old(self).wheres,
                self.input_variables == old(self).input_variables,
                self.value_bindings == old(self).value_bindings,
                self.known_types == old(self).known_types,
                self.empty_because == old(self).empty_because,
                self.extracted_types == old(self).extracted_types,
            decreases arm.column_bindings@.len() - v,
        {
            let ghost start = binding_views(self.column_bindings@);
            let mut c: usize = 0;
            while c < arm.column_bindings[v].1.len()
                invariant
                    v < arm.column_bindings@.len(),
                    c <= arm.column_bindings@[v as int].1@.len(),
                    from == binding_views(arm.column_bindings@),
                    binding_views(self.column_bindings@) == with_columns(
                        start,
                        from[v as int].0,
                        from[v as int].1,
                        c as int,
                    ),
                    self.alias_counter == old(self).alias_counter,
                    self.from == old(self).from,
                    self.computed_tables == old(self).computed_tables,
                    self.wheres == old(self).wheres,
                    self.input_variables == old(self).input_variables,
                    self.value_bindings == old(self).value_bindings,
                    self.known_types == old(self).known_types,
                    self.empty_because == old(self).empty_because,
                    self.extracted_types == old(self).extracted_types,
                decreases arm.column_bindings@[v as int].1@.len() - c,
            {
                add_column(
                    &mut self.column_bindings,
                    &arm.column_bindings[v].0,
                    arm.column_bindings[v].1[c].clone(),
                );
                c += 1;
            }
            v += 1;
        }
        let ghost tags = self.extracted_types@;
        let mut x: usize = 0;
        while x < arm.extracted_types.len()
            invariant
                x <= arm.extracted_types@.len(),
                self.extracted_types@ == adopted_tags(tags, arm.extracted_types@, x as int),
                binding_views(self.column_bindings@) == adopted_columns(
                    first,
                    from,
                    arm.column_bindings@.len() as int,
                ),
                self.alias_counter == old(self).alias_counter,
                self.from == old(self).from,
                self.computed_tables == old(self).computed_tables,
                self.wheres == old(self).wheres,
                self.input_variables == old(self).input_variables,
                self.value_bindings == old(self).value_bindings,
                self.known_types == old(self).known_types,
                self.empty_because == old(self).empty_because,
            decreases arm.extracted_types@.len() - x,
        {
            if find_var(&self.extracted_types, &arm.extracted_types[x].0).is_none() {
                self.extracted_types.push((arm.extracted_types[x].0.clone(), arm.extracted_types[x].1.clone()));
            }
            x += 1;
        }
    }
}

/// What is known of types once the first `n` entries of `types` are taken
/// in: a variable can have each type that it could have before, and each
/// that the entry gives it.
pub open spec fn broadened(folded: Seq<(Variable, Set<ValueType>)>, types: Seq<(Variable, Set<ValueType>)>, n: int) -> Seq<
    (Variable, Set<ValueType>),
>
    decreases n,
{
    if n <= 0 || n > types.len() {
        folded
    } else {
        let before = broadened(folded, types, n - 1);
        assoc_set(
            before,
            types[n - 1].0,
            match lookup(before, types[n - 1].0@) {
                Some(s) => s.union(types[n - 1].1),
                None => types[n - 1].1,
            },
        )
    }
}

/// What the first `n` arms together know of types: what each arm that can
/// match knows, taken in one after the other.
pub open spec fn folded_types(arms: Seq<ConjoiningClauses>, n: int) -> Seq<(Variable, Set<ValueType>)>
    decreases n,
{
    if n <= 0 || n > arms.len() {
        seq![]
    } else if arms[n - 1].known_empty() {
        folded_types(arms, n - 1)
    } else {
        broadened(
            folded_types(arms, n - 1),
            type_views(arms[n - 1].known_types@),
            arms[n - 1].known_types@.len() as int,
        )
    }
}

/// Setting an entry of a map of sets sets the entry of the map of what the
/// sets stand for.
pub proof fn lemma_type_views_set(m: Seq<(Variable, ValueTypeSet)>, var: Variable, value: ValueTypeSet)
    ensures
        type_views(assoc_set(m, var, value)) == assoc_set(type_views(m), var, value@),
{
    lemma_type_views_index(m, var@);
    lemma_first_index(m, var@);
    assert(type_views(assoc_set(m, var, value)) =~= assoc_set(type_views(m), var, value@));
}

fn broaden_types(folded: &mut Vec<(Variable, ValueTypeSet)>, types: &Vec<(Variable, ValueTypeSet)>)
    requires
        types_wf(old(folded)@),
        types_wf(types@),
    ensures
        types_wf(final(folded)@),
        type_views(final(folded)@) == broadened(type_views(old(folded)@), type_views(types@), types@.len() as int),
{
    let mut i: usize = 0;
    while i < types.len()
        invariant
            i <= types@.len(),
            types_wf(types@),
            types_wf(folded@),
            type_views(folded@) == broadened(type_views(old(folded)@), type_views(types@), i as int),
        decreases types@.len() - i,
    {
        let ghost before = folded@;
        proof {
            lemma_type_views_index(folded@, types@[i as int].0@);
            lemma_first_index(folded@, types@[i as int].0@);
        }
        let both = match find_var(folded, &types[i].0) {
            Some(k) => folded[k].1.union(&types[i].1),
            None => types[i].1,
        };
        set_var(folded, types[i].0.clone(), both);
        proof {
            lemma_type_views_set(before, types@[i as int].0, both);
            assert forall|j: int| 0 <= j < folded@.len() implies (#[trigger] folded@[j]).1.wf() by {
                if j < before.len() && folded@[j] == before[j] {
                    assert(before[j].1.wf());
                }
            }
        }
        i += 1;
    }
}

fn fold_types(arms: &Vec<ConjoiningClauses>) -> (r: Vec<(Variable, ValueTypeSet)>)
    requires
        forall|j: int| 0 <= j < arms@.len() ==> types_wf((#[trigger] arms@[j]).known_types@),
    ensures
        types_wf(r@),
        type_views(r@) == folded_types(arms@, arms@.len() as int),
{
    let mut folded: Vec<(Variable, ValueTypeSet)> = Vec::new();
    assert(type_views(folded@) =~= folded_types(arms@, 0));
    let mut i: usize = 0;
    while i < arms.len()
        invariant
            i <= arms@.len(),
            types_wf(folded@),
            type_views(folded@) == folded_types(arms@, i as int),
            forall|j: int| 0 <= j < arms@.len() ==> types_wf((#[trigger] arms@[j]).known_types@),
        decreases arms@.len() - i,
    {
        if !arms[i].is_known_empty() {
            assert(types_wf(arms@[i as int].known_types@));
            broaden_types(&mut folded, &arms[i].known_types);
        }
        i += 1;
    }
    folded
}

/// The constraints of the arms among the first `n` that can match.
pub open spec fn alternates_of(arms: Seq<ConjoiningClauses>, n: int) -> Seq<ColumnIntersection>
    decreases n,
{
    if n <= 0 || n > arms.len() {
        seq![]
    } else if arms[n - 1].known_empty() {
        alternates_of(arms, n - 1)
    } else {
        alternates_of(arms, n - 1).push(arms[n - 1].wheres)
    }
}

fn take_alternates(arms: Vec<ConjoiningClauses>) -> (r: Vec<ColumnIntersection>)
    requires
        forall|j: int| 0 <= j < arms@.len() ==> (#[trigger] arms@[j]).ok(),
    ensures
        r@ == alternates_of(arms@, arms@.len() as int),
        forall|j: int| 0 <= j < r@.len() ==> wheres_wf((#[trigger] r@[j]).0@, r@[j].0@.len() as int),
{
    let n = arms.len();
    let ghost all = arms@;
    let mut items = ConsumableVec::with_vec(arms);
    let mut out: Vec<ColumnIntersection> = Vec::new();
    let mut i: usize = 0;
    while i < n
        invariant
            i <= n == all.len(),
            items@.len() == n,
            forall|j: int| i <= j < n ==> #[trigger] items@[j] == Some(all[j]),
            forall|j: int| 0 <= j < all.len() ==> (#[trigger] all[j]).ok(),
            out@ == alternates_of(all, i as int),
            forall|j: int| 0 <= j < out@.len() ==> wheres_wf((#[trigger] out@[j]).0@, out@[j].0@.len() as int),
        decreases n - i,
    {
        let arm = items.take_dangerously(i);
        assert(arm == all[i as int]);
        assert(all[i as int].ok());
        if !arm.is_known_empty() {
            let ConjoiningClauses {
                empty_because: _,
                alias_counter: _,
                from: _,
                computed_tables: _,
                wheres,
                column_bindings: _,
                input_variables: _,
                value_bindings: _,
                known_types: _,
                extracted_types: _,
            } = arm;
            out.push(wheres);
        }
        i += 1;
    }
    out
}

/// The reason for which the first arm is empty.
pub open spec fn first_reason(arms: Seq<ConjoiningClauses>) -> ReasonView {
    if arms.len() > 0 && arms[0].empty_because is Some {
        arms[0].empty_because->0@
    } else {
        ReasonView::AttributeLookupFailed
    }
}

/// Whether `after` is `st` with the arms of a simple `or` joined to it:
/// `st` has given out the alias `alias` for `table`, and `arms` are the
/// clauses of the patterns on that alias.
///
/// Where no arm can match, the clauses are empty for the reason of the
/// first arm. Otherwise the columns of the first arm that can match are
/// added; the constraints of the arms that can match are added as they are
/// where there is one such arm, and as the alternation `alternation` where
/// there are more; what the arms know of types is taken in; and the table
/// is the next one read.
pub open spec fn alternation_joined(
    st: ClausesState,
    table: DatomsTable,
    alias: TableAlias,
    arms: Seq<ConjoiningClauses>,
    alternation: ColumnAlternation,
    after: ClausesState,
) -> bool {
    match first_matching(arms, arms.len() as int) {
        None => after == with_empty(st, first_reason(arms)),
        Some(k) => {
            let alternates = alternates_of(arms, arms.len() as int);
            let adopted = adopted_state(st, arms[k]);
            let constrained = ClausesState {
                wheres: if alternates.len() == 1 {
                    adopted.wheres + alternates[0].0@
                } else {
                    adopted.wheres.push(ColumnConstraintOrAlternation::Alternation(alternation))
                },
                ..adopted
            };
            let types = folded_types(arms, arms.len() as int);
            let narrowed = narrowed_all(constrained, types, types.len() as int);
            &&& alternates.len() != 1 ==> alternation.0@ == alternates
            &&& after == (ClausesState { from: narrowed.from.push(SourceAlias(table, alias)), ..narrowed })
        },
    }
}

/// Whether `after` is what applying a simple `or` with the arms `patterns`
/// to `before` gives. `mentioned` are the variables that the arms mention.
///
/// Clauses that are known to be empty stay as they are. Where the first
/// pattern reads no table, the clauses are empty. Otherwise the table gets
/// one alias, each pattern is applied to it from what `before` knows of the
/// variables, and the arms are joined.
pub open spec fn simple_applied(
    before: ConjoiningClauses,
    schema: Schema,
    patterns: Seq<Pattern>,
    mentioned: Seq<Variable>,
    after: ConjoiningClauses,
) -> bool {
    if before.known_empty() {
        after == before
    } else {
        match table_for(before@, schema, patterns[0].attribute, patterns[0].value) {
            Err(_) => after@ == with_empty(before@, ReasonView::AttributeLookupFailed),
            Ok(table) => exists|template: ConjoiningClauses, alias: TableAlias, arms: Seq<ConjoiningClauses>, alternation: ColumnAlternation|
                {
                    &&& #[trigger] starts_from(template, before, mentioned, false)
                    &&& template.column_bindings@.len() == 0
                    &&& alias@ == next_alias(before@, table)
                    &&& arms_of(receptacle_state(template), schema, patterns, alias, arms)
                    &&& #[trigger] alternation_joined(
                        after_alias(before@, table),
                        table,
                        alias,
                        arms,
                        alternation,
                        after@,
                    )
                },
        }
    }
}

/// Whether `after` is what applying the patterns that `flags` marks among
/// the arms of `or_join` gives: nothing changes where none is marked; one
/// pattern is applied as it stands; and more are applied as a simple `or`.
pub open spec fn patterns_applied(
    before: ConjoiningClauses,
    schema: Schema,
    or_join: OrJoin,
    flags: Seq<bool>,
    after: ConjoiningClauses,
) -> bool {
    let patterns = flagged(or_join.clauses@, flags, or_join.clauses@.len() as int);
    if patterns.len() == 0 {
        after == before
    } else if patterns.len() == 1 {
        pattern_applied(before@, schema, patterns[0], after@)
    } else {
        exists|mentioned: Seq<Variable>|
            {
                &&& sorted_names(mentioned)
                &&& name_set(mentioned) == arms_variables(or_join.clauses@, or_join.clauses@.len() as int)
                &&& #[trigger] simple_applied(before, schema, patterns, mentioned, after)
            }
    }
}

impl ConjoiningClauses {
    /// Applies an `or` whose arms are the given patterns, all on one table
    /// and of one shape: the table gets one alias, and the constraints of
    /// the arms that can match become an alternation. If no arm can match,
    /// the clauses are empty.
    pub fn apply_simple_or_join(&mut self, schema: &Schema, patterns: Vec<Pattern>, mentioned_vars: Vec<Variable>)
        requires
            old(self).ok(),
            patterns@.len() >= 1,
        ensures
            final(self).ok(),
            grows(*old(self), *final(self)),
            simple_applied(*old(self), *schema, patterns@, mentioned_vars@, *final(self)),
    {
        if self.is_known_empty() {
            return ;
        }
        let template = self.use_as_template(&mentioned_vars);
        let source_alias = match self.alias_table(schema, &patterns[0]) {
            Some(a) => a,
            None => {
                self.mark_known_empty(EmptyBecause::AttributeLookupFailed);
                return ;
            },
        };
        let ghost table = source_alias.0;
        let ghost st = self@;
        let arms = pattern_arms(&template, schema, &patterns, &source_alias);
        let ghost all = arms@;
        proof {
            lemma_first_matching(all, all.len() as int);
        }
        let k = match first_match(&arms) {
            Some(k) => k,
            None => {
                match clone_reason(&arms[0].empty_because) {
                    Some(e) => {
                        self.mark_known_empty(e);
                    },
                    None => {
                        self.mark_known_empty(EmptyBecause::AttributeLookupFailed);
                    },
                }
                proof {
                    let any: ColumnAlternation = arbitrary();
                    assert(alternation_joined(st, table, source_alias.1, all, any, self@));
                }
                return ;
            },
        };
        self.adopt(&arms[k]);
        assert forall|j: int| 0 <= j < arms@.len() implies types_wf((#[trigger] arms@[j]).known_types@) by {
            assert(arms@[j].ok());
        }
        let folded = fold_types(&arms);
        let mut alternates = take_alternates(arms);
        let ghost witness = ColumnAlternation(alternates);
        if alternates.len() == 1 {
            match alternates.pop() {
                Some(only) => {
                    let mut only = only;
                    proof {
                        lemma_wheres_wf_concat(self.wheres.0@, only.0@, only.0@.len() as int);
                        assert(only.0@.subrange(0, only.0@.len() as int) =~= only.0@);
                    }
                    self.wheres.append(&mut only);
                },
                None => {},
            }
        } else {
            proof {
                lemma_alternates_wf(alternates@, alternates@.len() as int);
                lemma_wheres_wf_push(
                    self.wheres.0@,
                    ColumnConstraintOrAlternation::Alternation(ColumnAlternation(alternates)),
                );
            }
            self.wheres.add(ColumnConstraintOrAlternation::Alternation(ColumnAlternation(alternates)));
        }
        let ghost constrained = self@;
        let mut i: usize = 0;
        while i < folded.len()
            invariant
                i <= folded@.len(),
                types_wf(folded@),
                self.ok(),
                extends(*old(self), *self),
                self.from == old(self).from,
                self.computed_tables == old(self).computed_tables,
                !(source_alias.0 is Computed),
                self@ == narrowed_all(constrained, type_views(folded@), i as int),
            decreases folded@.len() - i,
        {
            self.narrow_types_for_var(folded[i].0.clone(), folded[i].1);
            i += 1;
        }
        proof {
            lemma_from_push(self.from@, source_alias, self.computed_tables@.len() as int);
        }
        self.from.push(source_alias);
        proof {
            assert(alternation_joined(st, table, source_alias.1, all, witness, self@));
        }
    }

    /// Applies an `or` whose arms are patterns of one shape on one table;
    /// `flags` marks the arms that can match.
    pub fn apply_or_patterns(&mut self, schema: &Schema, or_join: OrJoin, flags: Vec<bool>)
        requires
            old(self).ok(),
            flags@.len() == or_join.clauses@.len(),
            forall|i: int| 0 <= i < flags@.len() && #[trigger] flags@[i] ==> pattern_at(or_join.clauses@, i) is Some,
        ensures
            final(self).ok(),
            grows(*old(self), *final(self)),
            patterns_applied(*old(self), *schema, or_join, flags@, *final(self)),
    {
        let mentioned = mentioned_variables(&or_join.clauses);
        let OrJoin { unify_vars: _, clauses } = or_join;
        let n = clauses.len();
        let ghost all = clauses@;
        let mut items = ConsumableVec::with_vec(clauses);
        let mut patterns: Vec<Pattern> = Vec::new();
        let mut i: usize = 0;
        while i < n
            invariant
                i <= n == all.len(),
                flags@.len() == n,
                items@.len() == n,
                forall|j: int| i <= j < n ==> #[trigger] items@[j] == Some(all[j]),
                patterns@ == flagged(all, flags@, i as int),
            decreases n - i,
        {
            let arm = items.take_dangerously(i);
            if flags[i] {
                match arm {
                    OrWhereClause::Clause(WhereClause::Pattern(p)) => {
                        patterns.push(p);
                    },
                    _ => {},
                }
            }
            i += 1;
        }
        if patterns.len() == 0 {
            return ;
        }
        if patterns.len() == 1 {
            match patterns.pop() {
                Some(p) => {
                    self.apply_pattern(schema, p);
                },
                None => {},
            }
            return ;
        }
        self.apply_simple_or_join(schema, patterns, mentioned);
    }
}

} // verus!
