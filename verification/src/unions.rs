//! The union that an `or` becomes: what its arms know of the types of the
//! variables it projects, whether each arm can project them, and how the
//! union is joined to the clauses around it.

use vstd::prelude::*;
use crate::clauses::{
    ClausesState, ConjoiningClauses, assoc_set, clauses_wf, extends, find_var, from_ok,
    lemma_first_index, set_var, type_views, types_wf, vars_projectable, with_narrowed,
};
use crate::or_join::{lemma_arms_wf, lemma_from_push_computed, lemma_tables_wf_prefix};
use crate::pattern::with_binding;
use crate::query::{Variable, contains_var, names_contain};
use crate::type_set::{lemma_unit_type, single_type};
use crate::types::{
    Column, ComputedTable, DatomsTable, QualifiedAlias, SourceAlias, TableAlias, ValueTypeSet,
    VariableColumn,
};
use crate::values::{Schema, ValueType, type_of_value};

verus! {

/// What the arm `arm` knows of the type of the variable named `v`: the type
/// of its value, or else the types recorded for it.
pub open spec fn arm_types(arm: ConjoiningClauses, v: Seq<char>) -> Set<ValueType> {
    match arm.value_of(v) {
        Some(value) => set![type_of_value(value)],
        None => arm.type_set_of(v)@,
    }
}

/// What the first `n` arms together know of the type of the variable named
/// `v`: it has one of these types in some arm.
pub open spec fn joint_types(arms: Seq<ConjoiningClauses>, v: Seq<char>, n: int) -> Set<ValueType>
    decreases n,
{
    if n <= 0 || n > arms.len() {
        Set::empty()
    } else {
        joint_types(arms, v, n - 1).union(arm_types(arms[n - 1], v))
    }
}

/// For each projected variable, what the arms together know of its type.
pub open spec fn union_types(arms: Seq<ConjoiningClauses>, projected: Seq<Variable>) -> Seq<
    (Variable, Set<ValueType>),
> {
    Seq::new(projected.len(), |i: int| (projected[i], joint_types(arms, projected[i]@, arms.len() as int)))
}

/// Whether the type of the variable named `v` must be read from each row
/// of the union: the arms do not agree on one single type.
pub open spec fn needs_tag(arms: Seq<ConjoiningClauses>, v: Seq<char>) -> bool {
    single_type(joint_types(arms, v, arms.len() as int)) is None
}

/// Of the first `n` projected variables, those whose type must be read from
/// each row.
pub open spec fn tagged(arms: Seq<ConjoiningClauses>, projected: Seq<Variable>, n: int) -> Seq<Variable>
    decreases n,
{
    if n <= 0 || n > projected.len() {
        seq![]
    } else if needs_tag(arms, projected[n - 1]@) {
        tagged(arms, projected, n - 1).push(projected[n - 1])
    } else {
        tagged(arms, projected, n - 1)
    }
}

/// What `arm` knows of the type of `var`.
fn arm_type(arm: &ConjoiningClauses, var: &Variable) -> (r: ValueTypeSet)
    requires
        types_wf(arm.known_types@),
    ensures
        r.wf(),
        r@ == arm_types(*arm, var@),
{
    proof {
        lemma_first_index(arm.known_types@, var@);
    }
    match arm.bound_value(var) {
        Some(value) => ValueTypeSet::unit(value.value_type()),
        None => match find_var(&arm.known_types, var) {
            Some(i) => arm.known_types[i].1,
            None => ValueTypeSet::Any,
        },
    }
}

/// What the arms together know of the type of `var`.
fn joint_type(arms: &Vec<ConjoiningClauses>, var: &Variable) -> (r: ValueTypeSet)
    requires
        forall|j: int| 0 <= j < arms@.len() ==> types_wf((#[trigger] arms@[j]).known_types@),
    ensures
        r.wf(),
        r@ == joint_types(arms@, var@, arms@.len() as int),
{
    let mut types = ValueTypeSet::Empty;
    let mut a: usize = 0;
    assert(types@ =~= joint_types(arms@, var@, 0));
    while a < arms.len()
        invariant
            a <= arms@.len(),
            types.wf(),
            types@ == joint_types(arms@, var@, a as int),
            forall|j: int| 0 <= j < arms@.len() ==> types_wf((#[trigger] arms@[j]).known_types@),
        decreases arms@.len() - a,
    {
        assert(types_wf(arms@[a as int].known_types@));
        let here = arm_type(&arms[a], var);
        types = types.union(&here);
        a += 1;
    }
    types
}

/// The types of the projected variables, and the variables whose type must
/// be read from each row.
pub struct UnionTypes {
    pub types: Vec<(Variable, ValueTypeSet)>,
    pub tagged: Vec<Variable>,
}

/// What the arms together know of the types of the projected variables.
pub fn union_types_of(arms: &Vec<ConjoiningClauses>, projected: &Vec<Variable>) -> (r: UnionTypes)
    requires
        forall|j: int| 0 <= j < arms@.len() ==> types_wf((#[trigger] arms@[j]).known_types@),
    ensures
        types_wf(r.types@),
        type_views(r.types@) == union_types(arms@, projected@),
        r.tagged@ == tagged(arms@, projected@, projected@.len() as int),
{
    let mut types: Vec<(Variable, ValueTypeSet)> = Vec::new();
    let mut marked: Vec<Variable> = Vec::new();
    let mut v: usize = 0;
    while v < projected.len()
        invariant
            v <= projected@.len(),
            types@.len() == v,
            types_wf(types@),
            forall|j: int|
                0 <= j < v ==> (#[trigger] types@[j]).0 == projected@[j] && types@[j].1@ == joint_types(
                    arms@,
                    projected@[j]@,
                    arms@.len() as int,
                ),
            marked@ == tagged(arms@, projected@, v as int),
            forall|j: int| 0 <= j < arms@.len() ==> types_wf((#[trigger] arms@[j]).known_types@),
        decreases projected@.len() - v,
    {
        let joint = joint_type(arms, &projected[v]);
        proof {
            lemma_unit_type(joint);
        }
        if !joint.is_unit() {
            marked.push(projected[v].clone());
        }
        types.push((projected[v].clone(), joint));
        v += 1;
    }
    assert(type_views(types@) =~= union_types(arms@, projected@));
    UnionTypes { types, tagged: marked }
}

/// Whether `arm` cannot project the variable named `v`: it does not bind
/// it, or cannot give its type though `types` asks for it.
pub open spec fn lacking(arm: ConjoiningClauses, types: Seq<Variable>, v: Seq<char>) -> bool {
    !arm.is_bound(v) || (names_contain(types, v) && !arm.is_typed(v))
}

/// Among the first `n` variables of `projection`, the first that `arm`
/// cannot project.
pub open spec fn first_lacking(arm: ConjoiningClauses, projection: Seq<Variable>, types: Seq<Variable>, n: int) -> Option<
    int,
>
    decreases n,
{
    if n <= 0 || n > projection.len() {
        None
    } else {
        match first_lacking(arm, projection, types, n - 1) {
            Some(k) => Some(k),
            None => if lacking(arm, types, projection[n - 1]@) {
                Some(n - 1)
            } else {
                None
            },
        }
    }
}

/// Among the first `n` arms, the first that cannot project a variable, and
/// the variable's place.
pub open spec fn first_unready(
    arms: Seq<ConjoiningClauses>,
    projection: Seq<Variable>,
    types: Seq<Variable>,
    n: int,
) -> Option<(int, int)>
    decreases n,
{
    if n <= 0 || n > arms.len() {
        None
    } else {
        match first_unready(arms, projection, types, n - 1) {
            Some(found) => Some(found),
            None => match first_lacking(arms[n - 1], projection, types, projection.len() as int) {
                Some(k) => Some((n - 1, k)),
                None => None,
            },
        }
    }
}

/// The variable that `first_lacking` finds is in range. Where it finds
/// none, the arm can project each variable.
pub proof fn lemma_first_lacking(arm: ConjoiningClauses, projection: Seq<Variable>, types: Seq<Variable>, n: int)
    requires
        0 <= n <= projection.len(),
    ensures
        match first_lacking(arm, projection, types, n) {
            Some(k) => 0 <= k < n,
            None => vars_projectable(arm, projection, types, n),
        },
    decreases n,
{
    if n > 0 {
        lemma_first_lacking(arm, projection, types, n - 1);
    }
}

/// The first variable that `first_lacking` finds among the first `k` is the
/// first among more.
pub proof fn lemma_lacking_stays(arm: ConjoiningClauses, projection: Seq<Variable>, types: Seq<Variable>, k: int, n: int)
    requires
        0 <= k <= n <= projection.len(),
        first_lacking(arm, projection, types, k) is Some,
    ensures
        first_lacking(arm, projection, types, n) == first_lacking(arm, projection, types, k),
    decreases n - k,
{
    if k < n {
        lemma_lacking_stays(arm, projection, types, k, n - 1);
    }
}

/// The first arm that `first_unready` finds among the first `k` is the first
/// among more.
pub proof fn lemma_unready_stays(
    arms: Seq<ConjoiningClauses>,
    projection: Seq<Variable>,
    types: Seq<Variable>,
    k: int,
    n: int,
)
    requires
        0 <= k <= n <= arms.len(),
        first_unready(arms, projection, types, k) is Some,
    ensures
        first_unready(arms, projection, types, n) == first_unready(arms, projection, types, k),
    decreases n - k,
{
    if k < n {
        lemma_unready_stays(arms, projection, types, k, n - 1);
    }
}

/// The first variable of `projection` that `arm` cannot project.
fn first_unprojectable(arm: &ConjoiningClauses, projection: &Vec<Variable>, types: &Vec<Variable>) -> (r: Option<usize>)
    ensures
        r is Some <==> first_lacking(*arm, projection@, types@, projection@.len() as int) is Some,
        r is Some ==> r->0 < projection@.len() && r->0 as int == first_lacking(
            *arm,
            projection@,
            types@,
            projection@.len() as int,
        )->0,
        r is None ==> vars_projectable(*arm, projection@, types@, projection@.len() as int),
{
    let mut i: usize = 0;
    while i < projection.len()
        invariant
            i <= projection@.len(),
            first_lacking(*arm, projection@, types@, i as int) is None,
        decreases projection@.len() - i,
    {
        let var = &projection[i];
        let bound = arm.bound_value(var).is_some() || arm.first_column(var).is_some();
        let typed = arm.bound_value(var).is_some() || arm.known_type(var).is_some() || arm.extracted_type(
            var,
        ).is_some();
        if !bound || (contains_var(types, var) && !typed) {
            proof {
                lemma_lacking_stays(*arm, projection@, types@, i + 1, projection@.len() as int);
            }
            return Some(i);
        }
        i += 1;
    }
    proof {
        lemma_first_lacking(*arm, projection@, types@, projection@.len() as int);
    }
    None
}

/// The place of the first variable that some arm cannot project; none
/// where every arm can project each variable.
pub fn first_unready_arm(arms: &Vec<ConjoiningClauses>, projection: &Vec<Variable>, types: &Vec<Variable>) -> (r: Option<usize>)
    ensures
        r is Some <==> first_unready(arms@, projection@, types@, arms@.len() as int) is Some,
        r is Some ==> r->0 < projection@.len() && r->0 as int == (first_unready(
            arms@,
            projection@,
            types@,
            arms@.len() as int,
        )->0).1,
        r is None ==> forall|j: int|
            0 <= j < arms@.len() ==> vars_projectable(
                #[trigger] arms@[j],
                projection@,
                types@,
                projection@.len() as int,
            ),
{
    let mut a: usize = 0;
    while a < arms.len()
        invariant
            a <= arms@.len(),
            first_unready(arms@, projection@, types@, a as int) is None,
            forall|j: int|
                0 <= j < a ==> vars_projectable(
                    #[trigger] arms@[j],
                    projection@,
                    types@,
                    projection@.len() as int,
                ),
        decreases arms@.len() - a,
    {
        match first_unprojectable(&arms[a], projection, types) {
            Some(k) => {
                proof {
                    lemma_unready_stays(arms@, projection@, types@, a + 1, arms@.len() as int);
                }
                return Some(k);
            },
            None => {},
        }
        a += 1;
    }
    None
}

/// The state once the column of each of the first `n` projected variables
/// in the table `alias` is bound to the variable.
pub open spec fn bound_all(st: ClausesState, schema: Schema, alias: TableAlias, projected: Seq<Variable>, n: int) -> ClausesState
    decreases n,
{
    if n <= 0 || n > projected.len() {
        st
    } else {
        with_binding(
            bound_all(st, schema, alias, projected, n - 1),
            schema,
            alias,
            Column::Variable(VariableColumn::Variable(projected[n - 1])),
            projected[n - 1],
        )
    }
}

/// The state once each of the first `n` variables is known to have one of
/// the types listed for it.
pub open spec fn narrowed_all(st: ClausesState, types: Seq<(Variable, Set<ValueType>)>, n: int) -> ClausesState
    decreases n,
{
    if n <= 0 || n > types.len() {
        st
    } else {
        with_narrowed(narrowed_all(st, types, n - 1), types[n - 1].0, types[n - 1].1)
    }
}

/// The state once the type of each of the first `n` variables is read from
/// its type-tag column in the table `alias`.
pub open spec fn tagged_all(st: ClausesState, alias: TableAlias, marked: Seq<Variable>, n: int) -> ClausesState
    decreases n,
{
    if n <= 0 || n > marked.len() {
        st
    } else {
        let before = tagged_all(st, alias, marked, n - 1);
        ClausesState {
            extracted: assoc_set(
                before.extracted,
                marked[n - 1],
                QualifiedAlias(alias, Column::Variable(VariableColumn::VariableTypeTag(marked[n - 1]))),
            ),
            ..before
        }
    }
}

/// Whether `t` is the union of `arms` that projects `projection` and the
/// type tags of `types`.
pub open spec fn is_union(t: ComputedTable, projection: Seq<Variable>, types: Seq<Variable>, arms: Seq<ConjoiningClauses>) -> bool {
    &&& t matches ComputedTable::Union { projection: p, type_extraction: x, arms: a }
    &&& p@ == projection
    &&& x@ == types
    &&& a@ == arms
}

/// The state once the union `t` is joined to `st` under the alias `alias`:
/// the union is the next computed table; the column of each projected
/// variable is bound to the variable; each variable has one of the types
/// that the arms give it; the type of each variable in `marked` is read
/// from its type-tag column; and the union is the next table read.
pub open spec fn joined_state(
    st: ClausesState,
    schema: Schema,
    t: ComputedTable,
    alias: TableAlias,
    projected: Seq<Variable>,
    types: Seq<(Variable, Set<ValueType>)>,
    marked: Seq<Variable>,
) -> ClausesState {
    let with_table = ClausesState { computed: st.computed.push(t), ..st };
    let bound = bound_all(with_table, schema, alias, projected, projected.len() as int);
    let narrowed = narrowed_all(bound, types, types.len() as int);
    let read = tagged_all(narrowed, alias, marked, marked.len() as int);
    ClausesState {
        from: read.from.push(SourceAlias(DatomsTable::Computed(st.computed.len() as usize), alias)),
        ..read
    }
}

/// Whether `after` is `before` with the union of `arms` joined to it: the
/// union projects `projected` and the type tags of the variables on whose
/// type the arms do not agree, and its alias is that of its place among the
/// computed tables.
pub open spec fn union_joined(
    before: ConjoiningClauses,
    schema: Schema,
    projected: Seq<Variable>,
    arms: Seq<ConjoiningClauses>,
    after: ConjoiningClauses,
) -> bool {
    let marked = tagged(arms, projected, projected.len() as int);
    let index = before.computed_tables@.len();
    exists|t: ComputedTable, alias: TableAlias|
        {
            &&& is_union(t, projected, marked, arms)
            &&& alias@ == crate::clauses::alias_text(DatomsTable::Computed(index as usize), index)
            &&& #[trigger] joined_state(before@, schema, t, alias, projected, union_types(arms, projected), marked)
                == after@
        }
}

impl ConjoiningClauses {
    /// Joins the union of `arms` to these clauses.
    pub fn join_union(&mut self, schema: &Schema, projected: &Vec<Variable>, types: UnionTypes, arms: Vec<ConjoiningClauses>)
        requires
            old(self).ok(),
            types_wf(types.types@),
            type_views(types.types@) == union_types(arms@, projected@),
            types.tagged@ == tagged(arms@, projected@, projected@.len() as int),
            forall|j: int|
                0 <= j < arms@.len() ==> clauses_wf(#[trigger] arms@[j]) && vars_projectable(
                    arms@[j],
                    projected@,
                    types.tagged@,
                    projected@.len() as int,
                ),
        ensures
            final(self).ok(),
            extends(*old(self), *final(self)),
            union_joined(*old(self), *schema, projected@, arms@, *final(self)),
    {
        let UnionTypes { types: unions, tagged: type_needed } = types;
        let index = self.computed_tables.len();
        let mut projection: Vec<Variable> = Vec::new();
        let mut i: usize = 0;
        while i < projected.len()
            invariant
                i <= projected@.len(),
                projection@ == projected@.subrange(0, i as int),
            decreases projected@.len() - i,
        {
            projection.push(projected[i].clone());
            assert(projection@ =~= projected@.subrange(0, i + 1));
            i += 1;
        }
        assert(projection@ =~= projected@);
        let mut type_extraction: Vec<Variable> = Vec::new();
        let mut x: usize = 0;
        while x < type_needed.len()
            invariant
                x <= type_needed@.len(),
                type_extraction@ == type_needed@.subrange(0, x as int),
            decreases type_needed@.len() - x,
        {
            type_extraction.push(type_needed[x].clone());
            assert(type_extraction@ =~= type_needed@.subrange(0, x + 1));
            x += 1;
        }
        assert(type_extraction@ =~= type_needed@);
        proof {
            lemma_arms_wf(projection@, type_extraction@, arms@, arms@.len() as int);
        }
        let union = ComputedTable::Union { projection, type_extraction, arms };
        proof {
            lemma_tables_wf_prefix(self.computed_tables@, union, self.computed_tables@.len() as int);
        }
        self.computed_tables.push(union);
        let table = DatomsTable::Computed(index);
        let alias = self.next_alias_for_table(table);
        let ghost start = self@;
        let mut p: usize = 0;
        while p < projected.len()
            invariant
                p <= projected@.len(),
                self.ok(),
                extends(*old(self), *self),
                self.from == old(self).from,
                self.computed_tables@.len() == index + 1,
                from_ok(self.from@, index as int),
                self@ == bound_all(start, *schema, alias, projected@, p as int),
            decreases projected@.len() - p,
        {
            self.bind_column_to_var(
                schema,
                alias.clone(),
                Column::Variable(VariableColumn::Variable(projected[p].clone())),
                projected[p].clone(),
            );
            p += 1;
        }
        let ghost bound = self@;
        let mut u: usize = 0;
        while u < unions.len()
            invariant
                u <= unions@.len(),
                types_wf(unions@),
                self.ok(),
                extends(*old(self), *self),
                self.from == old(self).from,
                self.computed_tables@.len() == index + 1,
                from_ok(self.from@, index as int),
                self@ == narrowed_all(bound, type_views(unions@), u as int),
            decreases unions@.len() - u,
        {
            self.narrow_types_for_var(unions[u].0.clone(), unions[u].1);
            u += 1;
        }
        let ghost narrowed = self@;
        let mut t: usize = 0;
        while t < type_needed.len()
            invariant
                t <= type_needed@.len(),
                self.ok(),
                extends(*old(self), *self),
                self.from == old(self).from,
                self.computed_tables@.len() == index + 1,
                from_ok(self.from@, index as int),
                self@ == tagged_all(narrowed, alias, type_needed@, t as int),
            decreases type_needed@.len() - t,
        {
            set_var(
                &mut self.extracted_types,
                type_needed[t].clone(),
                QualifiedAlias(
                    alias.clone(),
                    Column::Variable(VariableColumn::VariableTypeTag(type_needed[t].clone())),
                ),
            );
            t += 1;
        }
        proof {
            lemma_from_push_computed(self.from@, SourceAlias(table, alias), index as int);
        }
        self.from.push(SourceAlias(table, alias));
        proof {
            assert(self@ == joined_state(
                old(self)@,
                *schema,
                union,
                alias,
                projected@,
                union_types(arms@, projected@),
                type_needed@,
            ));
        }
    }
}

} // verus!
