//! Conjoining clauses: the algebrizer's working state for one conjunction.

use vstd::prelude::*;
use crate::query::{Variable, names_contain};
use crate::symbols::NamespacedKeyword;
use crate::text::nat_decimal;
use crate::types::{
    Column, ColumnConstraint, ColumnConstraintOrAlternation, ColumnIntersection, ComputedTable,
    DatomsColumn, DatomsTable, EmptyBecause, QualifiedAlias, QueryValue, ReasonView, SourceAlias,
    TableAlias, ValueTypeSet, least_member, table_name,
};
use crate::values::{Entid, Schema, TypedValue, ValueType, entid_of};

verus! {

/// A conjunction of patterns and constraints, with what is known of the
/// types and values of its variables.
#[derive(Debug, PartialEq, Eq)]
pub struct ConjoiningClauses {
    /// Why the conjunction is known to match nothing, once that is known.
    pub empty_because: Option<EmptyBecause>,
    /// The number of the next table alias.
    pub alias_counter: usize,
    /// The tables that the conjunction reads, each with its alias.
    pub from: Vec<SourceAlias>,
    /// Sub-plans, which `from` refers to by index.
    pub computed_tables: Vec<ComputedTable>,
    /// The constraints, all of which must hold.
    pub wheres: ColumnIntersection,
    /// For each bound variable, the columns it is unified with.
    pub column_bindings: Vec<(Variable, Vec<QualifiedAlias>)>,
    /// The variables of `:in`.
    pub input_variables: Vec<Variable>,
    /// The values given for input variables.
    pub value_bindings: Vec<(Variable, TypedValue)>,
    /// What is known of each variable's type.
    pub known_types: Vec<(Variable, ValueTypeSet)>,
    /// For each variable whose type must be read from a row, the column that
    /// holds its type tag.
    pub extracted_types: Vec<(Variable, QualifiedAlias)>,
}

/// The position of the first entry for the variable named `v`.
pub open spec fn first_index<T>(m: Seq<(Variable, T)>, v: Seq<char>) -> Option<int>
    decreases m.len(),
{
    if m.len() == 0 {
        None
    } else {
        match first_index(m.drop_last(), v) {
            Some(i) => Some(i),
            None => if m.last().0@ == v {
                Some(m.len() - 1)
            } else {
                None
            },
        }
    }
}

/// What the first entry for the variable named `v` holds.
pub open spec fn lookup<T>(m: Seq<(Variable, T)>, v: Seq<char>) -> Option<T> {
    match first_index(m, v) {
        Some(i) => Some(m[i].1),
        None => None,
    }
}

/// The first index that `first_index` finds is in range and names `v`, and
/// no earlier entry does.
pub proof fn lemma_first_index<T>(m: Seq<(Variable, T)>, v: Seq<char>)
    ensures
        match first_index(m, v) {
            Some(i) => 0 <= i < m.len() && m[i].0@ == v && forall|j: int|
                0 <= j < i ==> (#[trigger] m[j]).0@ != v,
            None => forall|j: int| 0 <= j < m.len() ==> (#[trigger] m[j]).0@ != v,
        },
    decreases m.len(),
{
    if m.len() > 0 {
        lemma_first_index(m.drop_last(), v);
        match first_index(m.drop_last(), v) {
            Some(i) => {
                assert forall|j: int| 0 <= j < i implies (#[trigger] m[j]).0@ != v by {
                    assert(m[j] == m.drop_last()[j]);
                }
            },
            None => {
                assert forall|j: int| 0 <= j < m.len() - 1 implies (#[trigger] m[j]).0@ != v by {
                    assert(m[j] == m.drop_last()[j]);
                }
            },
        }
    }
}

/// An entry found among the first `n` is the one found among all.
pub proof fn lemma_first_index_prefix<T>(m: Seq<(Variable, T)>, n: int, v: Seq<char>)
    requires
        0 <= n <= m.len(),
        first_index(m.subrange(0, n), v) is Some,
    ensures
        first_index(m, v) == first_index(m.subrange(0, n), v),
    decreases m.len() - n,
{
    if n < m.len() {
        let next = m.subrange(0, n + 1);
        assert(next.drop_last() =~= m.subrange(0, n));
        lemma_first_index_prefix(m, n + 1, v);
    } else {
        assert(m.subrange(0, n) =~= m);
    }
}

/// The position of the first entry for `v`.
pub fn find_var<T>(m: &Vec<(Variable, T)>, v: &Variable) -> (r: Option<usize>)
    ensures
        r is Some <==> first_index(m@, v@) is Some,
        r is Some ==> r->0 < m@.len() && r->0 as int == first_index(m@, v@)->0,
{
    let mut i: usize = 0;
    assert(m@.subrange(0, 0) =~= Seq::<(Variable, T)>::empty());
    while i < m.len()
        invariant
            i <= m@.len(),
            first_index(m@.subrange(0, i as int), v@) is None,
        decreases m@.len() - i,
    {
        let ghost next = m@.subrange(0, i + 1);
        assert(next.drop_last() =~= m@.subrange(0, i as int));
        assert(next.last() == m@[i as int]);
        if m[i].0.same(v) {
            proof {
                lemma_first_index_prefix(m@, i + 1, v@);
            }
            return Some(i);
        }
        i += 1;
    }
    assert(m@.subrange(0, i as int) =~= m@);
    None
}

/// The tables of `from` that are computed name distinct computed tables that
/// exist.
pub open spec fn from_ok(from: Seq<SourceAlias>, tables: int) -> bool {
    &&& forall|j: int|
        0 <= j < from.len() ==> ((#[trigger] from[j]).0 matches DatomsTable::Computed(i) ==> i
            < tables)
    &&& forall|j: int, k: int|
        0 <= j < k < from.len() ==> !((#[trigger] from[j]).0 is Computed && (#[trigger] from[k]).0
            == from[j].0)
}

/// The single type that `s` is held as, if it is held as one.
pub open spec fn unit_of(s: ValueTypeSet) -> Option<ValueType> {
    match s {
        ValueTypeSet::One(t) => Some(t),
        _ => None,
    }
}

impl ConjoiningClauses {
    /// The value bound to the variable named `v`.
    pub open spec fn value_of(&self, v: Seq<char>) -> Option<TypedValue> {
        lookup(self.value_bindings@, v)
    }

    /// The first column that the variable named `v` is bound to.
    pub open spec fn column_of(&self, v: Seq<char>) -> Option<QualifiedAlias> {
        match lookup(self.column_bindings@, v) {
            Some(cols) => if cols@.len() > 0 {
                Some(cols@[0])
            } else {
                None
            },
            None => None,
        }
    }

    /// What is known of the type of the variable named `v`: every type can
    /// be, where nothing is recorded.
    pub open spec fn type_set_of(&self, v: Seq<char>) -> ValueTypeSet {
        match lookup(self.known_types@, v) {
            Some(s) => s,
            None => ValueTypeSet::Any,
        }
    }

    /// The type of the variable named `v`, where it is known to be one type.
    pub open spec fn type_of(&self, v: Seq<char>) -> Option<ValueType> {
        unit_of(self.type_set_of(v))
    }

    /// The column that holds the type tag of the variable named `v`.
    pub open spec fn extracted_type_of(&self, v: Seq<char>) -> Option<QualifiedAlias> {
        lookup(self.extracted_types@, v)
    }

    /// Whether the variable named `v` can be projected: it has a value or a
    /// column.
    pub open spec fn is_bound(&self, v: Seq<char>) -> bool {
        self.value_of(v) is Some || self.column_of(v) is Some
    }

    /// Whether the type of the variable named `v` can be projected: it is
    /// known, or a column holds its tag.
    pub open spec fn is_typed(&self, v: Seq<char>) -> bool {
        self.value_of(v) is Some || self.type_of(v) is Some || self.extracted_type_of(v) is Some
    }

    /// Whether the conjunction is known to match nothing.
    pub open spec fn known_empty(&self) -> bool {
        self.empty_because is Some
    }

    /// The conjunction can be turned into a query: its computed tables are
    /// there, each once, and are themselves well formed.
    pub open spec fn wf(&self) -> bool {
        clauses_wf(*self)
    }

    /// Whether the conjunction is known to match nothing.
    pub fn is_known_empty(&self) -> (r: bool)
        ensures
            r == self.known_empty(),
    {
        self.empty_because.is_some()
    }

    /// The value bound to `var`.
    pub fn bound_value(&self, var: &Variable) -> (r: Option<&TypedValue>)
        ensures
            r is Some <==> self.value_of(var@) is Some,
            r is Some ==> *r->0 == self.value_of(var@)->0,
    {
        match find_var(&self.value_bindings, var) {
            Some(i) => Some(&self.value_bindings[i].1),
            None => None,
        }
    }

    /// The first column that `var` is bound to.
    pub fn first_column(&self, var: &Variable) -> (r: Option<&QualifiedAlias>)
        ensures
            r is Some <==> self.column_of(var@) is Some,
            r is Some ==> *r->0 == self.column_of(var@)->0,
    {
        match find_var(&self.column_bindings, var) {
            Some(i) => {
                if self.column_bindings[i].1.len() > 0 {
                    Some(&self.column_bindings[i].1[0])
                } else {
                    None
                }
            },
            None => None,
        }
    }

    /// What is known of the type of `var`.
    pub fn known_type_set(&self, var: &Variable) -> (r: ValueTypeSet)
        ensures
            r == self.type_set_of(var@),
    {
        match find_var(&self.known_types, var) {
            Some(i) => self.known_types[i].1,
            None => ValueTypeSet::Any,
        }
    }

    /// The type of `var`, where it is known to be one type.
    pub fn known_type(&self, var: &Variable) -> (r: Option<ValueType>)
        ensures
            r == self.type_of(var@),
    {
        self.known_type_set(var).unit_type()
    }

    /// The column that holds the type tag of `var`.
    pub fn extracted_type(&self, var: &Variable) -> (r: Option<&QualifiedAlias>)
        ensures
            r is Some <==> self.extracted_type_of(var@) is Some,
            r is Some ==> *r->0 == self.extracted_type_of(var@)->0,
    {
        match find_var(&self.extracted_types, var) {
            Some(i) => Some(&self.extracted_types[i].1),
            None => None,
        }
    }
}

/// Whether each of the first `n` variables is bound in `cc`, and typed where
/// `types` lists it.
pub open spec fn vars_projectable(cc: ConjoiningClauses, vars: Seq<Variable>, types: Seq<Variable>, n: int) -> bool
    decreases n,
{
    if n <= 0 || n > vars.len() {
        true
    } else {
        &&& vars_projectable(cc, vars, types, n - 1)
        &&& cc.is_bound(vars[n - 1]@)
        &&& crate::query::names_contain(types, vars[n - 1]@) ==> cc.is_typed(vars[n - 1]@)
    }
}

/// Whether a conjunction is well formed.
pub open spec fn clauses_wf(cc: ConjoiningClauses) -> bool
    decreases cc, 0int,
{
    &&& from_ok(cc.from@, cc.computed_tables@.len() as int)
    &&& tables_wf(cc.computed_tables@, cc.computed_tables@.len() as int)
    &&& wheres_wf(cc.wheres.0@, cc.wheres.0@.len() as int)
}

/// Whether a computed table is well formed: its clauses are, and every arm of
/// a union binds what the union projects.
pub open spec fn table_wf(t: ComputedTable) -> bool
    decreases t, 0int,
{
    match t {
        ComputedTable::Subquery(cc) => clauses_wf(cc),
        ComputedTable::Union { projection, type_extraction, arms } => arms_wf(
            projection@,
            type_extraction@,
            arms@,
            arms@.len() as int,
        ),
    }
}

/// Whether the first `n` computed tables are well formed.
pub open spec fn tables_wf(ts: Seq<ComputedTable>, n: int) -> bool
    decreases ts, n,
{
    if n <= 0 || n > ts.len() {
        true
    } else {
        tables_wf(ts, n - 1) && table_wf(ts[n - 1])
    }
}

/// Whether the first `n` arms of a union are well formed and bind what the
/// union projects.
pub open spec fn arms_wf(projection: Seq<Variable>, types: Seq<Variable>, arms: Seq<ConjoiningClauses>, n: int) -> bool
    decreases arms, n,
{
    if n <= 0 || n > arms.len() {
        true
    } else {
        &&& arms_wf(projection, types, arms, n - 1)
        &&& clauses_wf(arms[n - 1])
        &&& vars_projectable(arms[n - 1], projection, types, projection.len() as int)
    }
}

/// Whether a constraint is well formed.
pub open spec fn constraint_wf(c: ColumnConstraintOrAlternation) -> bool
    decreases c, 0int,
{
    match c {
        ColumnConstraintOrAlternation::Constraint(ColumnConstraint::NotExists(t)) => table_wf(t),
        ColumnConstraintOrAlternation::Constraint(_) => true,
        ColumnConstraintOrAlternation::Alternation(alt) => alternates_wf(alt.0@, alt.0@.len() as int),
    }
}

/// Whether the first `n` constraints are well formed.
pub open spec fn wheres_wf(cs: Seq<ColumnConstraintOrAlternation>, n: int) -> bool
    decreases cs, n,
{
    if n <= 0 || n > cs.len() {
        true
    } else {
        wheres_wf(cs, n - 1) && constraint_wf(cs[n - 1])
    }
}

/// Whether the first `n` alternates are well formed.
pub open spec fn alternates_wf(cs: Seq<ColumnIntersection>, n: int) -> bool
    decreases cs, n,
{
    if n <= 0 || n > cs.len() {
        true
    } else {
        alternates_wf(cs, n - 1) && wheres_wf(cs[n - 1].0@, cs[n - 1].0@.len() as int)
    }
}

/// Conjoining clauses as mathematical data: each list as a sequence, and
/// each set of types as the set it stands for.
pub struct ClausesState {
    pub empty_because: Option<ReasonView>,
    pub counter: int,
    pub from: Seq<SourceAlias>,
    pub computed: Seq<ComputedTable>,
    pub wheres: Seq<ColumnConstraintOrAlternation>,
    pub bindings: Seq<(Variable, Seq<QualifiedAlias>)>,
    pub inputs: Seq<Variable>,
    pub values: Seq<(Variable, TypedValue)>,
    pub types: Seq<(Variable, Set<ValueType>)>,
    pub extracted: Seq<(Variable, QualifiedAlias)>,
}

/// The column bindings with each list of columns as a sequence.
pub open spec fn binding_views(m: Seq<(Variable, Vec<QualifiedAlias>)>) -> Seq<(Variable, Seq<QualifiedAlias>)> {
    Seq::new(m.len(), |i: int| (m[i].0, m[i].1@))
}

/// The known types with each set as the set it stands for.
pub open spec fn type_views(m: Seq<(Variable, ValueTypeSet)>) -> Seq<(Variable, Set<ValueType>)> {
    Seq::new(m.len(), |i: int| (m[i].0, m[i].1@))
}

/// The reason as mathematical data, where there is one.
pub open spec fn reason_view(r: Option<EmptyBecause>) -> Option<ReasonView> {
    match r {
        Some(e) => Some(e@),
        None => None,
    }
}

impl View for ConjoiningClauses {
    type V = ClausesState;

    open spec fn view(&self) -> ClausesState {
        ClausesState {
            empty_because: reason_view(self.empty_because),
            counter: self.alias_counter as int,
            from: self.from@,
            computed: self.computed_tables@,
            wheres: self.wheres.0@,
            bindings: binding_views(self.column_bindings@),
            inputs: self.input_variables@,
            values: self.value_bindings@,
            types: type_views(self.known_types@),
            extracted: self.extracted_types@,
        }
    }
}

/// A map with the entry for `var` set to `value`: the first entry for the
/// variable is replaced, and where there is none, one is added at the end.
pub open spec fn assoc_set<T>(m: Seq<(Variable, T)>, var: Variable, value: T) -> Seq<(Variable, T)> {
    match first_index(m, var@) {
        Some(i) => m.update(i, (m[i].0, value)),
        None => m.push((var, value)),
    }
}

/// Sets the entry for `var` to `value`.
pub fn set_var<T>(m: &mut Vec<(Variable, T)>, var: Variable, value: T)
    ensures
        final(m)@ == assoc_set(old(m)@, var, value),
{
    proof {
        lemma_first_index(m@, var@);
    }
    match find_var(m, &var) {
        Some(i) => {
            let (key, _) = m.remove(i);
            m.insert(i, (key, value));
            assert(m@ =~= old(m)@.update(i as int, (old(m)@[i as int].0, value)));
        },
        None => {
            m.push((var, value));
        },
    }
}

/// The alias of the use numbered `n` of a table: the table's name, then the
/// number in two digits or more.
pub open spec fn alias_text(table: DatomsTable, n: nat) -> Seq<char> {
    table_name(table) + (if n < 10 {
        seq!['0']
    } else {
        seq![]
    }) + nat_decimal(n)
}

/// The number after `n`; after the greatest number comes zero.
pub open spec fn next_counter(n: int) -> int {
    if n < usize::MAX {
        n + 1
    } else {
        0
    }
}

/// The state once the conjunction is known to be empty because of `why`.
/// The first reason given is the one kept.
pub open spec fn with_empty(st: ClausesState, why: ReasonView) -> ClausesState {
    if st.empty_because is Some {
        st
    } else {
        ClausesState { empty_because: Some(why), ..st }
    }
}

/// The state with one more constraint.
pub open spec fn with_where(st: ClausesState, c: ColumnConstraint) -> ClausesState {
    ClausesState { wheres: st.wheres.push(ColumnConstraintOrAlternation::Constraint(c)), ..st }
}

/// What is known of the types of the variable named `v`, as a set: every
/// type can be, where nothing is recorded.
pub open spec fn types_of(st: ClausesState, v: Seq<char>) -> Set<ValueType> {
    match lookup(st.types, v) {
        Some(s) => s,
        None => Set::full(),
    }
}

/// Whether the variable named `v` is known to have one single type.
pub open spec fn single_known(st: ClausesState, v: Seq<char>) -> bool {
    crate::types::single_type(types_of(st, v)) is Some
}

/// The reason given when `var`, known to have one of `existing`, is asked to
/// have one of `types` and cannot.
pub open spec fn mismatch(var: Variable, existing: Set<ValueType>, types: Set<ValueType>) -> ReasonView {
    match least_member(types) {
        Some(t) => ReasonView::TypeMismatch(var, existing, t),
        None => ReasonView::NoValidTypes(var),
    }
}

/// The state once the variable `var` is known to have one of `types`: what
/// was known of it is intersected with `types`. If no type is left for it,
/// the conjunction is empty.
pub open spec fn with_narrowed(st: ClausesState, var: Variable, types: Set<ValueType>) -> ClausesState {
    match first_index(st.types, var@) {
        None => ClausesState { types: st.types.push((var, types)), ..st },
        Some(i) => {
            let existing = st.types[i].1;
            let narrowed = ClausesState {
                types: st.types.update(i, (st.types[i].0, types.intersect(existing))),
                ..st
            };
            if types.intersect(existing) =~= Set::<ValueType>::empty() {
                with_empty(narrowed, mismatch(var, existing, types))
            } else {
                narrowed
            }
        },
    }
}

/// Every recorded set of types is well formed.
pub open spec fn types_wf(m: Seq<(Variable, ValueTypeSet)>) -> bool {
    forall|i: int| 0 <= i < m.len() ==> (#[trigger] m[i]).1.wf()
}

/// The first `n` constraints of a longer list are well formed or not as they
/// are in the list itself.
pub proof fn lemma_wheres_wf_prefix(cs: Seq<ColumnConstraintOrAlternation>, c: ColumnConstraintOrAlternation, n: int)
    requires
        0 <= n <= cs.len(),
    ensures
        wheres_wf(cs.push(c), n) == wheres_wf(cs, n),
    decreases n,
{
    if n > 0 {
        lemma_wheres_wf_prefix(cs, c, n - 1);
        assert(cs.push(c)[n - 1] == cs[n - 1]);
    }
}

/// A well-formed list stays so when a well-formed constraint is added.
pub proof fn lemma_wheres_wf_push(cs: Seq<ColumnConstraintOrAlternation>, c: ColumnConstraintOrAlternation)
    requires
        wheres_wf(cs, cs.len() as int),
        constraint_wf(c),
    ensures
        wheres_wf(cs.push(c), cs.len() as int + 1),
{
    lemma_wheres_wf_prefix(cs, c, cs.len() as int);
    assert(cs.push(c)[cs.len() as int] == c);
}

/// Whether `a` and `b` differ at most in the reason for being empty and in
/// their constraints.
pub open spec fn same_but_wheres(a: ConjoiningClauses, b: ConjoiningClauses) -> bool {
    &&& a.alias_counter == b.alias_counter
    &&& a.from == b.from
    &&& a.computed_tables == b.computed_tables
    &&& a.column_bindings == b.column_bindings
    &&& a.input_variables == b.input_variables
    &&& a.value_bindings == b.value_bindings
    &&& a.known_types == b.known_types
    &&& a.extracted_types == b.extracted_types
}

/// Whether `a` begins `b`.
pub open spec fn begins<T>(a: Seq<T>, b: Seq<T>) -> bool {
    &&& a.len() <= b.len()
    &&& forall|i: int| 0 <= i < a.len() ==> (#[trigger] b[i]) == a[i]
}

/// Whether `b` keeps what `a` holds: the tables, the computed tables and
/// the constraints of `a` begin those of `b`, the inputs are the same, and
/// the reason for which `a` is empty is that of `b`.
pub open spec fn extends(a: ConjoiningClauses, b: ConjoiningClauses) -> bool {
    &&& begins(a.from@, b.from@)
    &&& begins(a.computed_tables@, b.computed_tables@)
    &&& begins(a.wheres.0@, b.wheres.0@)
    &&& a.input_variables == b.input_variables
    &&& a.value_bindings == b.value_bindings
    &&& a.empty_because is Some ==> b.empty_because == a.empty_because
}

/// Whether `b` can be `a` after more clauses: `b` keeps what `a` holds, and
/// clauses that are known to be empty get no new constraints and no new
/// computed tables.
pub open spec fn grows(a: ConjoiningClauses, b: ConjoiningClauses) -> bool {
    &&& extends(a, b)
    &&& a.empty_because is Some ==> {
        &&& b.wheres.0@ == a.wheres.0@
        &&& b.computed_tables@ == a.computed_tables@
    }
}

/// Whether `a` and `b` differ at most in the reason for being empty and in
/// what is known of types.
pub open spec fn same_but_types(a: ConjoiningClauses, b: ConjoiningClauses) -> bool {
    &&& a.alias_counter == b.alias_counter
    &&& a.from == b.from
    &&& a.computed_tables == b.computed_tables
    &&& a.wheres == b.wheres
    &&& a.column_bindings == b.column_bindings
    &&& a.input_variables == b.input_variables
    &&& a.value_bindings == b.value_bindings
    &&& a.extracted_types == b.extracted_types
}

impl ConjoiningClauses {
    /// The clauses can be worked on: they are well formed, and so is every
    /// recorded set of types.
    pub open spec fn ok(&self) -> bool {
        self.wf() && types_wf(self.known_types@)
    }

    /// Records why the conjunction is empty, unless a reason is recorded
    /// already.
    pub fn mark_known_empty(&mut self, why: EmptyBecause)
        ensures
            final(self)@ == with_empty(old(self)@, why@),
            same_but_wheres(*old(self), *final(self)),
            extends(*old(self), *final(self)),
            final(self).wheres == old(self).wheres,
    {
        if self.empty_because.is_some() {
            return ;
        }
        self.empty_because = Some(why);
    }

    /// Adds a constraint.
    pub fn add_where(&mut self, c: ColumnConstraint)
        requires
            constraint_wf(ColumnConstraintOrAlternation::Constraint(c)),
        ensures
            final(self)@ == with_where(old(self)@, c),
            same_but_wheres(*old(self), *final(self)),
            extends(*old(self), *final(self)),
            old(self).wf() ==> final(self).wf(),
    {
        proof {
            if self.wf() {
                lemma_wheres_wf_push(self.wheres.0@, ColumnConstraintOrAlternation::Constraint(c));
            }
        }
        self.wheres.add_intersection(c);
    }

    /// Says that a column holds the constant `constant`.
    pub fn constrain_column_to_constant(&mut self, table: TableAlias, column: Column, constant: TypedValue)
        ensures
            final(self)@ == with_where(
                old(self)@,
                ColumnConstraint::Equals(QualifiedAlias(table, column), QueryValue::TypedValue(constant)),
            ),
            same_but_wheres(*old(self), *final(self)),
            extends(*old(self), *final(self)),
            old(self).wf() ==> final(self).wf(),
    {
        self.add_where(
            ColumnConstraint::Equals(QualifiedAlias(table, column), QueryValue::TypedValue(constant)),
        );
    }

    /// Says that a column holds the entity `entity`.
    pub fn constrain_column_to_entity(&mut self, table: TableAlias, column: Column, entity: Entid)
        ensures
            final(self)@ == with_where(
                old(self)@,
                ColumnConstraint::Equals(QualifiedAlias(table, column), QueryValue::Entid(entity)),
            ),
            same_but_wheres(*old(self), *final(self)),
            extends(*old(self), *final(self)),
            old(self).wf() ==> final(self).wf(),
    {
        self.add_where(ColumnConstraint::Equals(QualifiedAlias(table, column), QueryValue::Entid(entity)));
    }

    /// Says that the attribute column of a table holds `attribute`.
    pub fn constrain_attribute(&mut self, table: TableAlias, attribute: Entid)
        ensures
            final(self)@ == with_where(
                old(self)@,
                ColumnConstraint::Equals(
                    QualifiedAlias(table, Column::Fixed(DatomsColumn::Attribute)),
                    QueryValue::Entid(attribute),
                ),
            ),
            same_but_wheres(*old(self), *final(self)),
            extends(*old(self), *final(self)),
            old(self).wf() ==> final(self).wf(),
    {
        self.add_where(
            ColumnConstraint::Equals(
                QualifiedAlias(table, Column::Fixed(DatomsColumn::Attribute)),
                QueryValue::Entid(attribute),
            ),
        );
    }

    /// Says that the value column of a table holds the bare integer
    /// `value`, whatever its type.
    pub fn constrain_value_to_numeric(&mut self, table: TableAlias, value: i64)
        ensures
            final(self)@ == with_where(
                old(self)@,
                ColumnConstraint::Equals(
                    QualifiedAlias(table, Column::Fixed(DatomsColumn::Value)),
                    QueryValue::PrimitiveLong(value),
                ),
            ),
            same_but_wheres(*old(self), *final(self)),
            extends(*old(self), *final(self)),
            old(self).wf() ==> final(self).wf(),
    {
        self.add_where(
            ColumnConstraint::Equals(
                QualifiedAlias(table, Column::Fixed(DatomsColumn::Value)),
                QueryValue::PrimitiveLong(value),
            ),
        );
    }

    /// Narrows what is known of the type of `var` to `types`.
    pub fn narrow_types_for_var(&mut self, var: Variable, types: ValueTypeSet)
        requires
            types.wf(),
            types_wf(old(self).known_types@),
        ensures
            final(self)@ == with_narrowed(old(self)@, var, types@),
            types_wf(final(self).known_types@),
            same_but_types(*old(self), *final(self)),
            extends(*old(self), *final(self)),
            old(self).wf() ==> final(self).wf(),
    {
        proof {
            lemma_first_index(self.known_types@, var@);
            lemma_first_index(type_views(self.known_types@), var@);
            lemma_type_views_index(self.known_types@, var@);
        }
        match find_var(&self.known_types, &var) {
            None => {
                let ghost before = type_views(self.known_types@);
                self.known_types.push((var, types));
                assert(type_views(self.known_types@) =~= before.push((var, types@)));
            },
            Some(i) => {
                let existing = self.known_types[i].1;
                let intersected = types.intersection(&existing);
                let ghost before = type_views(self.known_types@);
                let ghost stored = self.known_types@;
                let (key, _) = self.known_types.remove(i);
                self.known_types.insert(i, (key, intersected));
                assert(self.known_types@ =~= stored.update(i as int, (stored[i as int].0, intersected)));
                assert(type_views(self.known_types@) =~= before.update(
                    i as int,
                    (before[i as int].0, types@.intersect(existing@)),
                ));
                if intersected.is_none() {
                    let why = match types.exemplar() {
                        Some(t) => EmptyBecause::TypeMismatch(var, existing, t),
                        None => EmptyBecause::NoValidTypes(var),
                    };
                    self.mark_known_empty(why);
                }
            },
        }
    }

    /// Says that `var` has the type `this_type`.
    pub fn constrain_var_to_type(&mut self, var: Variable, this_type: ValueType)
        requires
            types_wf(old(self).known_types@),
        ensures
            final(self)@ == with_narrowed(old(self)@, var, set![this_type]),
            types_wf(final(self).known_types@),
            same_but_types(*old(self), *final(self)),
            extends(*old(self), *final(self)),
            old(self).wf() ==> final(self).wf(),
    {
        self.narrow_types_for_var(var, ValueTypeSet::unit(this_type));
    }

    /// Says that `variable` is a number.
    pub fn constrain_var_to_numeric(&mut self, variable: Variable)
        requires
            types_wf(old(self).known_types@),
        ensures
            final(self)@ == with_narrowed(old(self)@, variable, set![ValueType::Double, ValueType::Long]),
            types_wf(final(self).known_types@),
            same_but_types(*old(self), *final(self)),
            extends(*old(self), *final(self)),
            old(self).wf() ==> final(self).wf(),
    {
        self.narrow_types_for_var(variable, ValueTypeSet::of_numeric_types());
    }

    /// Says that `variable` is a long.
    pub fn constrain_var_to_long(&mut self, variable: Variable)
        requires
            types_wf(old(self).known_types@),
        ensures
            final(self)@ == with_narrowed(old(self)@, variable, set![ValueType::Long]),
            types_wf(final(self).known_types@),
            same_but_types(*old(self), *final(self)),
            extends(*old(self), *final(self)),
            old(self).wf() ==> final(self).wf(),
    {
        self.narrow_types_for_var(variable, ValueTypeSet::unit(ValueType::Long));
    }

    /// The entid that `ident` names in `schema`.
    pub fn entid_for_ident(&self, schema: &Schema, ident: &NamespacedKeyword) -> (r: Option<Entid>)
        ensures
            r == entid_of(schema.ident_map@, ident@),
    {
        schema.get_entid(ident)
    }
}

/// The first entry for a variable is at the same place in a map of sets and
/// in the map of what the sets stand for.
pub proof fn lemma_type_views_index(m: Seq<(Variable, ValueTypeSet)>, v: Seq<char>)
    ensures
        first_index(type_views(m), v) == first_index(m, v),
    decreases m.len(),
{
    if m.len() > 0 {
        lemma_type_views_index(m.drop_last(), v);
        assert(type_views(m).drop_last() =~= type_views(m.drop_last()));
    }
}

/// The first entry for a variable is at the same place in the column
/// bindings and in their view.
pub proof fn lemma_binding_views_index(m: Seq<(Variable, Vec<QualifiedAlias>)>, v: Seq<char>)
    ensures
        first_index(binding_views(m), v) == first_index(m, v),
    decreases m.len(),
{
    if m.len() > 0 {
        lemma_binding_views_index(m.drop_last(), v);
        assert(binding_views(m).drop_last() =~= binding_views(m.drop_last()));
    }
}

/// What a map gives for a name after an entry is set: the new value for
/// the name of the entry, and what it gave before for every other name.
pub proof fn lemma_assoc_set<T>(m: Seq<(Variable, T)>, var: Variable, value: T, v: Seq<char>)
    ensures
        lookup(assoc_set(m, var, value), v) == if v == var@ {
            Some(value)
        } else {
            lookup(m, v)
        },
{
    let after = assoc_set(m, var, value);
    lemma_first_index(m, var@);
    lemma_first_index(m, v);
    lemma_first_index(after, v);
    match first_index(m, var@) {
        Some(i) => {
            assert(after.len() == m.len());
            assert forall|j: int| 0 <= j < m.len() implies (#[trigger] after[j]).0@ == m[j].0@ by {}
            match first_index(after, v) {
                Some(a) => {
                    match first_index(m, v) {
                        Some(b) => {
                            if a < b {
                                assert(m[a].0@ == after[a].0@);
                            } else if b < a {
                                assert(after[b].0@ == m[b].0@);
                            }
                        },
                        None => {
                            assert(m[a].0@ == after[a].0@);
                        },
                    }
                },
                None => {
                    match first_index(m, v) {
                        Some(b) => {
                            assert(after[b].0@ == m[b].0@);
                        },
                        None => {},
                    }
                },
            }
        },
        None => {
            assert(after.drop_last() =~= m);
            assert(after.last() == (var, value));
        },
    }
}

/// What grows from what has grown has grown from the start.
pub proof fn lemma_grows_twice(a: ConjoiningClauses, b: ConjoiningClauses, c: ConjoiningClauses)
    requires
        grows(a, b),
        grows(b, c),
    ensures
        grows(a, c),
{
    assert forall|i: int| 0 <= i < a.from@.len() implies (#[trigger] c.from@[i]) == a.from@[i] by {
        assert(b.from@[i] == a.from@[i]);
    }
    assert forall|i: int| 0 <= i < a.computed_tables@.len() implies (#[trigger] c.computed_tables@[i])
        == a.computed_tables@[i] by {
        assert(b.computed_tables@[i] == a.computed_tables@[i]);
    }
    assert forall|i: int| 0 <= i < a.wheres.0@.len() implies (#[trigger] c.wheres.0@[i]) == a.wheres.0@[i] by {
        assert(b.wheres.0@[i] == a.wheres.0@[i]);
    }
}

} // verus!
