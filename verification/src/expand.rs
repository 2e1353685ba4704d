//! The closing steps of a conjunction: the columns of each variable are set
//! equal, and type-tag columns that are no longer needed are forgotten.

use vstd::prelude::*;
use crate::clauses::{
    ClausesState, ConjoiningClauses, binding_views, extends, lemma_wheres_wf_push, same_but_wheres,
    single_known, types_wf,
};
use crate::query::Variable;
use crate::sql::{lex_lt, str_lt};
use crate::types::{ColumnConstraint, ColumnConstraintOrAlternation, QualifiedAlias, QueryValue};

verus! {

/// `s`, which is ordered by name, with the position `x` put after every
/// position whose variable's name does not come after that of `x`.
pub open spec fn insert_position(m: Seq<(Variable, Seq<QualifiedAlias>)>, s: Seq<int>, x: int) -> Seq<int>
    decreases s.len(),
{
    if s.len() > 0 && 0 <= s.last() < m.len() && 0 <= x < m.len() && lex_lt(m[x].0@, m[s.last()].0@) {
        insert_position(m, s.drop_last(), x).push(s.last())
    } else {
        s.push(x)
    }
}

/// The first `n` positions of the bindings, ordered by the names of their
/// variables.
pub open spec fn ordered_positions(m: Seq<(Variable, Seq<QualifiedAlias>)>, n: int) -> Seq<int>
    decreases n,
{
    if n <= 0 {
        seq![]
    } else {
        insert_position(m, ordered_positions(m, n - 1), n - 1)
    }
}

/// The constraints that set the first column of a variable equal to each of
/// its columns from the second up to the one before `k`.
pub open spec fn column_equalities(cols: Seq<QualifiedAlias>, k: int) -> Seq<ColumnConstraintOrAlternation>
    decreases k,
{
    if k <= 1 || k > cols.len() {
        seq![]
    } else {
        column_equalities(cols, k - 1).push(
            ColumnConstraintOrAlternation::Constraint(
                ColumnConstraint::Equals(cols[0], QueryValue::Column(cols[k - 1])),
            ),
        )
    }
}

/// The constraints that unify the columns of the variables at the first `n`
/// of the given positions.
pub open spec fn expansion(m: Seq<(Variable, Seq<QualifiedAlias>)>, order: Seq<int>, n: int) -> Seq<ColumnConstraintOrAlternation>
    decreases n,
{
    if n <= 0 || n > order.len() {
        seq![]
    } else {
        let i = order[n - 1];
        expansion(m, order, n - 1) + (if 0 <= i < m.len() {
            column_equalities(m[i].1, m[i].1.len() as int)
        } else {
            seq![]
        })
    }
}

/// The state once the columns of each variable are set equal: for each
/// variable, in the order of the variables' names, the first column is
/// equated with each of the others.
pub open spec fn with_expansion(st: ClausesState) -> ClausesState {
    let order = ordered_positions(st.bindings, st.bindings.len() as int);
    ClausesState { wheres: st.wheres + expansion(st.bindings, order, order.len() as int), ..st }
}

/// The type-tag columns of the first `n` entries that are still needed:
/// those of the variables that are not known to have one single type.
pub open spec fn still_extracted(extracted: Seq<(Variable, QualifiedAlias)>, st: ClausesState, n: int) -> Seq<(Variable, QualifiedAlias)>
    decreases n,
{
    if n <= 0 || n > extracted.len() {
        seq![]
    } else if single_known(st, extracted[n - 1].0@) {
        still_extracted(extracted, st, n - 1)
    } else {
        still_extracted(extracted, st, n - 1).push(extracted[n - 1])
    }
}

/// The state once the type-tag columns of variables of known type are
/// forgotten.
pub open spec fn with_pruning(st: ClausesState) -> ClausesState {
    ClausesState { extracted: still_extracted(st.extracted, st, st.extracted.len() as int), ..st }
}

fn insert_index(m: &Vec<(Variable, Vec<QualifiedAlias>)>, order: &mut Vec<usize>, x: usize)
    requires
        x < m@.len(),
        forall|j: int| 0 <= j < old(order)@.len() ==> (#[trigger] old(order)@[j]) < m@.len(),
    ensures
        positions(final(order)@) == insert_position(binding_views(m@), positions(old(order)@), x as int),
        forall|j: int| 0 <= j < final(order)@.len() ==> (#[trigger] final(order)@[j]) < m@.len(),
    decreases old(order)@.len(),
{
    let n = order.len();
    let ghost before = positions(order@);
    if n > 0 && str_lt(m[x].0.as_str(), m[order[n - 1]].0.as_str()) {
        match order.pop() {
            Some(last) => {
                assert(positions(order@) =~= before.drop_last());
                insert_index(m, order, x);
                let ghost mid = positions(order@);
                order.push(last);
                assert(positions(order@) =~= mid.push(before.last()));
            },
            None => {},
        }
    } else {
        order.push(x);
        assert(positions(order@) =~= before.push(x as int));
    }
}

/// Positions as mathematical integers.
pub open spec fn positions(order: Seq<usize>) -> Seq<int> {
    Seq::new(order.len(), |i: int| order[i] as int)
}

fn ordered_indices(m: &Vec<(Variable, Vec<QualifiedAlias>)>) -> (r: Vec<usize>)
    ensures
        positions(r@) == ordered_positions(binding_views(m@), m@.len() as int),
        forall|j: int| 0 <= j < r@.len() ==> (#[trigger] r@[j]) < m@.len(),
{
    let mut order: Vec<usize> = Vec::new();
    let mut i: usize = 0;
    assert(positions(order@) =~= Seq::<int>::empty());
    while i < m.len()
        invariant
            i <= m@.len(),
            positions(order@) == ordered_positions(binding_views(m@), i as int),
            forall|j: int| 0 <= j < order@.len() ==> (#[trigger] order@[j]) < m@.len(),
        decreases m@.len() - i,
    {
        insert_index(m, &mut order, i);
        i += 1;
    }
    order
}

/// Constraints that compare columns are well formed, and adding them keeps a
/// list well formed.
pub proof fn lemma_equalities_wf(cs: Seq<ColumnConstraintOrAlternation>, cols: Seq<QualifiedAlias>, k: int)
    requires
        crate::clauses::wheres_wf(cs, cs.len() as int),
        0 <= k <= cols.len(),
    ensures
        crate::clauses::wheres_wf(cs + column_equalities(cols, k), (cs + column_equalities(cols, k)).len() as int),
    decreases k,
{
    if k <= 1 {
        assert(cs + column_equalities(cols, k) =~= cs);
    } else {
        lemma_equalities_wf(cs, cols, k - 1);
        let before = cs + column_equalities(cols, k - 1);
        let c = ColumnConstraintOrAlternation::Constraint(
            ColumnConstraint::Equals(cols[0], QueryValue::Column(cols[k - 1])),
        );
        lemma_wheres_wf_push(before, c);
        assert(cs + column_equalities(cols, k) =~= before.push(c));
    }
}

impl ConjoiningClauses {
    /// Sets the columns of each variable equal: for each variable that is
    /// bound to two columns or more, taken in the order of the variables'
    /// names, a constraint equates the first column with each of the others.
    pub fn expand_column_bindings(&mut self)
        ensures
            final(self)@ == with_expansion(old(self)@),
            same_but_wheres(*old(self), *final(self)),
            extends(*old(self), *final(self)),
            final(self).empty_because == old(self).empty_because,
            old(self).wf() ==> final(self).wf(),
    {
        let order = ordered_indices(&self.column_bindings);
        let ghost m = binding_views(self.column_bindings@);
        let ghost ord = positions(order@);
        let mut n: usize = 0;
        proof {
            assert(self.wheres.0@ + expansion(m, ord, 0) =~= self.wheres.0@);
        }
        while n < order.len()
            invariant
                n <= order@.len(),
                ord == positions(order@),
                m == binding_views(self.column_bindings@),
                forall|j: int| 0 <= j < order@.len() ==> (#[trigger] order@[j]) < self.column_bindings@.len(),
                same_but_wheres(*old(self), *self),
                extends(*old(self), *self),
                self.empty_because == old(self).empty_because,
                self.wheres.0@ == old(self).wheres.0@ + expansion(m, ord, n as int),
                old(self).wf() ==> self.wf(),
            decreases order@.len() - n,
        {
            let i = order[n];
            assert(ord[n as int] == i);
            let ghost cols = m[i as int].1;
            let ghost base = self.wheres.0@;
            let count = self.column_bindings[i].1.len();
            let mut k: usize = 1;
            proof {
                assert(base + column_equalities(cols, 1) =~= base);
            }
            while k < count
                invariant
                    1 <= k,
                    k <= count || count == 0,
                    i < self.column_bindings@.len(),
                    count == self.column_bindings@[i as int].1@.len(),
                    cols == self.column_bindings@[i as int].1@,
                    same_but_wheres(*old(self), *self),
                    extends(*old(self), *self),
                    self.empty_because == old(self).empty_because,
                    self.wheres.0@ == base + column_equalities(cols, k as int),
                    old(self).wf() ==> crate::clauses::wheres_wf(base, base.len() as int),
                    old(self).wf() ==> self.wf(),
                decreases count - k,
            {
                let primary = self.column_bindings[i].1[0].clone();
                let secondary = self.column_bindings[i].1[k].clone();
                self.wheres.add_intersection(ColumnConstraint::Equals(primary, QueryValue::Column(secondary)));
                proof {
                    assert(self.wheres.0@ =~= base + column_equalities(cols, k + 1));
                    if old(self).wf() {
                        lemma_equalities_wf(base, cols, k + 1);
                    }
                }
                k += 1;
            }
            proof {
                let all = column_equalities(cols, cols.len() as int);
                if count == 0 {
                    assert(column_equalities(cols, 1) =~= all);
                }
                assert(old(self).wheres.0@ + expansion(m, ord, n as int) + all =~= old(self).wheres.0@
                    + expansion(m, ord, n + 1));
            }
            n += 1;
        }
    }

    /// Forgets the type-tag columns of the variables that are known to have
    /// one single type.
    pub fn prune_extracted_types(&mut self)
        requires
            types_wf(old(self).known_types@),
        ensures
            final(self)@ == with_pruning(old(self)@),
            final(self).known_types == old(self).known_types,
            final(self).from == old(self).from,
            final(self).computed_tables == old(self).computed_tables,
            final(self).wheres == old(self).wheres,
            final(self).column_bindings == old(self).column_bindings,
            final(self).value_bindings == old(self).value_bindings,
            final(self).input_variables == old(self).input_variables,
            final(self).empty_because == old(self).empty_because,
    {
        let mut kept: Vec<(Variable, QualifiedAlias)> = Vec::new();
        let mut i: usize = 0;
        let ghost st = self@;
        while i < self.extracted_types.len()
            invariant
                i <= self.extracted_types@.len(),
                *self == *old(self),
                st == old(self)@,
                types_wf(self.known_types@),
                kept@ == still_extracted(self.extracted_types@, st, i as int),
            decreases self.extracted_types@.len() - i,
        {
            proof {
                crate::pattern::lemma_known_type(*self, self.extracted_types@[i as int].0@);
            }
            if self.known_type(&self.extracted_types[i].0).is_none() {
                let entry = (self.extracted_types[i].0.clone(), self.extracted_types[i].1.clone());
                kept.push(entry);
            }
            i += 1;
        }
        self.extracted_types = kept;
    }
}

/// Whether `cc` is `applied` with the columns of each variable set equal
/// and without the type tags of the variables whose type is known.
pub open spec fn is_settled(applied: ConjoiningClauses, cc: ConjoiningClauses) -> bool {
    &&& cc@ == with_pruning(with_expansion(applied@))
    &&& cc.alias_counter == applied.alias_counter
    &&& cc.from == applied.from
    &&& cc.computed_tables == applied.computed_tables
    &&& cc.column_bindings == applied.column_bindings
    &&& cc.input_variables == applied.input_variables
    &&& cc.value_bindings == applied.value_bindings
    &&& cc.known_types == applied.known_types
    &&& cc.empty_because == applied.empty_because
}

} // verus!
