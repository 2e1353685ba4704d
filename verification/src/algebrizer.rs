//! The algebrizer: from a parsed query and a schema to conjoining clauses
//! with an ordering and a limit.

use vstd::prelude::*;
use crate::clauses::{
    ConjoiningClauses, assoc_set, find_var, lemma_assoc_set, lookup, same_but_types, set_var,
    types_wf, vars_projectable, with_narrowed,
};
use crate::expand::is_settled;
use crate::or_join::{applied_in_turn, is_blank, kept, kept_values};
use crate::query::{
    Element, FindQuery, FindSpec, Limit, Order, SrcVar, Variable, contains_var, names_contain,
};
use crate::resolve::AlgebrizerError;
use crate::sql::{lemma_lex_asymmetric, lemma_lex_irreflexive, lex_lt};
use crate::types::{OrderBy, ValueTypeSet, VariableColumn};
use crate::values::{Schema, TypedValue, ValueType, type_of_value};
use crate::variables::{add_all, name_set, sorted_names};

verus! {

/// The values given for the input variables of a query, and their types.
#[derive(Debug, PartialEq, Eq)]
pub struct QueryInputs {
    pub types: Vec<(Variable, ValueType)>,
    pub values: Vec<(Variable, TypedValue)>,
}

impl Default for QueryInputs {
    /// No inputs.
    fn default() -> (r: QueryInputs)
        ensures
            r.types@.len() == 0,
            r.values@.len() == 0,
    {
        QueryInputs { types: Vec::new(), values: Vec::new() }
    }
}

/// The first `n` entries put into a map one after the other: a later value
/// for a variable replaces an earlier one.
pub open spec fn sequence_values(vals: Seq<(Variable, TypedValue)>, n: int) -> Seq<(Variable, TypedValue)>
    decreases n,
{
    if n <= 0 || n > vals.len() {
        seq![]
    } else {
        assoc_set(sequence_values(vals, n - 1), vals[n - 1].0, vals[n - 1].1)
    }
}

/// The types of the first `n` entries, put into a map one after the other.
pub open spec fn sequence_types(vals: Seq<(Variable, TypedValue)>, n: int) -> Seq<(Variable, ValueType)>
    decreases n,
{
    if n <= 0 || n > vals.len() {
        seq![]
    } else {
        assoc_set(sequence_types(vals, n - 1), vals[n - 1].0, type_of_value(vals[n - 1].1))
    }
}

impl QueryInputs {
    /// The inputs that give each variable the value listed for it; a later
    /// value for a variable replaces an earlier one. Each variable has the
    /// type of its value.
    pub fn with_value_sequence(vals: Vec<(Variable, TypedValue)>) -> (r: QueryInputs)
        ensures
            r.values@ == sequence_values(vals@, vals@.len() as int),
            r.types@ == sequence_types(vals@, vals@.len() as int),
            forall|v: Seq<char>| lookup(r.values@, v) is Some ==> lookup(r.types@, v) == Some(
                type_of_value(lookup(r.values@, v)->0),
            ),
    {
        let mut types: Vec<(Variable, ValueType)> = Vec::new();
        let mut values: Vec<(Variable, TypedValue)> = Vec::new();
        let mut i: usize = 0;
        while i < vals.len()
            invariant
                i <= vals@.len(),
                values@ == sequence_values(vals@, i as int),
                types@ == sequence_types(vals@, i as int),
                forall|v: Seq<char>| lookup(values@, v) is Some ==> lookup(types@, v) == Some(
                    type_of_value(lookup(values@, v)->0),
                ),
            decreases vals@.len() - i,
        {
            let ghost old_values = values@;
            let ghost old_types = types@;
            let t = vals[i].1.value_type();
            set_var(&mut types, vals[i].0.clone(), t);
            set_var(&mut values, vals[i].0.clone(), vals[i].1.clone());
            proof {
                assert forall|v: Seq<char>| lookup(values@, v) is Some implies lookup(types@, v) == Some(
                    type_of_value(lookup(values@, v)->0),
                ) by {
                    lemma_assoc_set(old_values, vals@[i as int].0, vals@[i as int].1, v);
                    lemma_assoc_set(old_types, vals@[i as int].0, t, v);
                }
            }
            i += 1;
        }
        QueryInputs { types, values }
    }
}

/// A query after algebrizing.
#[derive(Debug, PartialEq, Eq)]
pub struct AlgebraicQuery {
    pub default_source: SrcVar,
    pub find_spec: FindSpec,
    pub has_aggregates: bool,
    /// The variables that are projected without being returned, in the order
    /// of their names.
    pub with: Vec<Variable>,
    pub order: Option<Vec<OrderBy>>,
    pub limit: Limit,
    pub cc: ConjoiningClauses,
}

/// The variables that a find specification returns.
pub open spec fn find_variables(spec: FindSpec) -> Seq<Variable> {
    match spec {
        FindSpec::FindRel(es) => Seq::new(es@.len(), |i: int| es@[i]->Variable_0),
        FindSpec::FindTuple(es) => Seq::new(es@.len(), |i: int| es@[i]->Variable_0),
        FindSpec::FindColl(e) => seq![e->Variable_0],
        FindSpec::FindScalar(e) => seq![e->Variable_0],
    }
}

/// The smaller of a limit and a number of rows.
pub open spec fn limited(limit: Limit, n: Option<u64>) -> Limit {
    match limit {
        Limit::Unlimited => match n {
            Some(new) => Limit::Fixed(new),
            None => Limit::Unlimited,
        },
        Limit::Fixed(existing) => match n {
            Some(new) => if new < existing {
                Limit::Fixed(new)
            } else {
                limit
            },
            None => limit,
        },
        Limit::Variable(_) => limit,
    }
}

impl AlgebraicQuery {
    /// The query can be turned into a `SELECT`: its clauses are well formed,
    /// and unless it is known to be empty, every variable that it projects
    /// is bound and has a type that can be projected.
    pub open spec fn wf(&self) -> bool {
        &&& self.cc.ok()
        &&& !self.cc.known_empty() ==> {
            &&& vars_projectable(
                self.cc,
                find_variables(self.find_spec),
                find_variables(self.find_spec),
                find_variables(self.find_spec).len() as int,
            )
            &&& vars_projectable(self.cc, self.with@, self.with@, self.with@.len() as int)
        }
    }

    /// Applies a new limit to the query, if one is given and the query's
    /// own limit is larger or absent. A limit that is a variable is kept,
    /// since its value is not known.
    pub fn apply_limit(&mut self, limit: Option<u64>)
        ensures
            final(self).limit == limited(old(self).limit, limit),
            final(self).cc == old(self).cc,
            final(self).find_spec == old(self).find_spec,
            final(self).with == old(self).with,
            final(self).order == old(self).order,
    {
        let replace = match (&self.limit, limit) {
            (Limit::Unlimited, Some(_)) => true,
            (Limit::Fixed(existing), Some(new)) => new < *existing,
            _ => false,
        };
        if replace {
            match limit {
                Some(new) => {
                    self.limit = Limit::Fixed(new);
                },
                None => {},
            }
        }
    }

    /// Whether the query is known to give no rows.
    pub fn is_known_empty(&self) -> (r: bool)
        ensures
            r == self.cc.known_empty(),
    {
        self.cc.is_known_empty()
    }
}

/// A limit never grows when another is applied to it: the limit after is a
/// number whenever it was one before or one is applied, and it is no larger
/// than either.
pub proof fn lemma_apply_limit_never_grows(limit: Limit, n: Option<u64>)
    ensures
        limit is Fixed ==> limited(limit, n) is Fixed && limited(limit, n)->Fixed_0 <= limit->Fixed_0,
        n is Some && !(limit is Variable) ==> limited(limit, n) is Fixed && limited(limit, n)->Fixed_0
            <= n->0,
{
}

/// An ordering and the variables it orders by.
pub struct SimplifiedOrder {
    pub order: Option<Vec<OrderBy>>,
    pub vars: Vec<Variable>,
}

/// Among the first `n` entries of `:order`, the first whose variable has
/// neither a value nor a column.
pub open spec fn first_unordered(cc: ConjoiningClauses, order: Seq<Order>, n: int) -> Option<int>
    decreases n,
{
    if n <= 0 || n > order.len() {
        None
    } else {
        match first_unordered(cc, order, n - 1) {
            Some(k) => Some(k),
            None => if cc.is_bound(order[n - 1].1@) {
                None
            } else {
                Some(n - 1)
            },
        }
    }
}

/// What the first `n` entries of `:order` become in `ORDER BY`. An entry
/// whose variable has a value orders nothing and is dropped; a variable
/// whose type is not known is ordered by its type tag first.
pub open spec fn order_entries(cc: ConjoiningClauses, order: Seq<Order>, n: int) -> Seq<OrderBy>
    decreases n,
{
    if n <= 0 || n > order.len() {
        seq![]
    } else {
        let direction = order[n - 1].0;
        let var = order[n - 1].1;
        let before = order_entries(cc, order, n - 1);
        if cc.value_of(var@) is Some {
            before
        } else if cc.type_of(var@) is None {
            before.push(OrderBy(direction, VariableColumn::VariableTypeTag(var))).push(
                OrderBy(direction, VariableColumn::Variable(var)),
            )
        } else {
            before.push(OrderBy(direction, VariableColumn::Variable(var)))
        }
    }
}

/// The variables that the first `n` entries of `:order` order by: those
/// without a value.
pub open spec fn ordered_names(cc: ConjoiningClauses, order: Seq<Order>, n: int) -> Set<Seq<char>>
    decreases n,
{
    if n <= 0 || n > order.len() {
        Set::empty()
    } else if cc.value_of(order[n - 1].1@) is Some {
        ordered_names(cc, order, n - 1)
    } else {
        ordered_names(cc, order, n - 1).insert(order[n - 1].1@)
    }
}

/// The entries of `:order`, where there are any.
pub open spec fn order_of(order: Option<Vec<Order>>) -> Seq<Order> {
    match order {
        Some(entries) => entries@,
        None => seq![],
    }
}

/// Whether `r` holds the entries of `ORDER BY` that `order` becomes; it
/// is nothing where no entry is left.
pub open spec fn is_order_by(cc: ConjoiningClauses, order: Option<Vec<Order>>, r: Option<Vec<OrderBy>>) -> bool {
    let entries = order_entries(cc, order_of(order), order_of(order).len() as int);
    if entries.len() == 0 {
        r is None
    } else {
        r is Some && r->0@ == entries
    }
}

/// Whether `r` is the ordering that `order` becomes: the entries of
/// `ORDER BY`, and the variables ordered by, in the order of their names.
pub open spec fn is_simplified(cc: ConjoiningClauses, order: Option<Vec<Order>>, r: SimplifiedOrder) -> bool {
    &&& is_order_by(cc, order, r.order)
    &&& sorted_names(r.vars@)
    &&& name_set(r.vars@) == ordered_names(cc, order_of(order), order_of(order).len() as int)
}

/// Turns the entries of `:order` into entries of `ORDER BY`. An entry whose
/// variable has a value is dropped; a variable that is bound to no column is
/// an error; a variable whose type is not known is ordered by its type tag
/// first.
pub fn validate_and_simplify_order(cc: &ConjoiningClauses, order: Option<Vec<Order>>) -> (r: Result<SimplifiedOrder, AlgebrizerError>)
    ensures
        match first_unordered(*cc, order_of(order), order_of(order).len() as int) {
            Some(k) => r matches Err(AlgebrizerError::UnboundVariable(s)) && s@ == order_of(order)[k].1@,
            None => r matches Ok(simplified) && is_simplified(*cc, order, simplified),
        },
{
    match order {
        None => {
            let vars: Vec<Variable> = Vec::new();
            assert(name_set(vars@) =~= Set::<Seq<char>>::empty());
            Ok(SimplifiedOrder { order: None, vars })
        },
        Some(entries) => {
            let mut order_bys: Vec<OrderBy> = Vec::new();
            let mut vars: Vec<Variable> = Vec::new();
            assert(name_set(vars@) =~= Set::<Seq<char>>::empty());
            let mut i: usize = 0;
            while i < entries.len()
                invariant
                    i <= entries@.len(),
                    order == Some(entries),
                    first_unordered(*cc, entries@, i as int) is None,
                    order_bys@ == order_entries(*cc, entries@, i as int),
                    sorted_names(vars@),
                    name_set(vars@) == ordered_names(*cc, entries@, i as int),
                decreases entries@.len() - i,
            {
                let direction = entries[i].0;
                let var = &entries[i].1;
                if cc.bound_value(var).is_some() {
                    // Ordering by a fixed value orders nothing.
                } else {
                    if cc.first_column(var).is_none() {
                        proof {
                            lemma_error_stays(*cc, entries@, i + 1, entries@.len() as int);
                        }
                        return Err(AlgebrizerError::UnboundVariable(var.name()));
                    }
                    if cc.known_type(var).is_none() {
                        order_bys.push(OrderBy(direction, VariableColumn::VariableTypeTag(var.clone())));
                    }
                    crate::variables::add_variable(&mut vars, var);
                    order_bys.push(OrderBy(direction, VariableColumn::Variable(var.clone())));
                }
                i += 1;
            }
            let order = if order_bys.len() == 0 {
                None
            } else {
                Some(order_bys)
            };
            Ok(SimplifiedOrder { order, vars })
        },
    }
}

/// The first unbound entry among the first `k` is the first among more.
pub proof fn lemma_error_stays(cc: ConjoiningClauses, order: Seq<Order>, k: int, n: int)
    requires
        0 <= k <= n <= order.len(),
        first_unordered(cc, order, k) is Some,
    ensures
        first_unordered(cc, order, n) == first_unordered(cc, order, k),
    decreases n - k,
{
    if k < n {
        lemma_error_stays(cc, order, k, n - 1);
    }
}

/// The limit once the value of a limit variable is put in its place.
pub open spec fn simplified_limit(limit: Limit, cc: ConjoiningClauses) -> Result<Limit, AlgebrizerError> {
    match limit {
        Limit::Variable(v) => match cc.value_of(v@) {
            Some(TypedValue::Long(n)) => if n <= 0 {
                Err(AlgebrizerError::InvalidLimit(TypedValue::Long(n)))
            } else {
                Ok(Limit::Fixed(n as u64))
            },
            Some(val) => Err(AlgebrizerError::InvalidLimit(val)),
            None => Ok(limit),
        },
        _ => Ok(limit),
    }
}

/// Puts the value of a limit variable in its place. A value that is no
/// natural number is an error; a variable without a value stays.
pub fn simplify_limit(limit: Limit, cc: &ConjoiningClauses) -> (r: Result<Limit, AlgebrizerError>)
    ensures
        r == simplified_limit(limit, *cc),
{
    let refined: Option<Result<Limit, AlgebrizerError>> = match &limit {
        Limit::Variable(v) => match cc.bound_value(v) {
            Some(TypedValue::Long(n)) => if *n <= 0 {
                Some(Err(AlgebrizerError::InvalidLimit(TypedValue::Long(*n))))
            } else {
                Some(Ok(Limit::Fixed(*n as u64)))
            },
            Some(val) => Some(Err(AlgebrizerError::InvalidLimit(val.clone()))),
            None => None,
        },
        _ => None,
    };
    match refined {
        Some(r) => r,
        None => Ok(limit),
    }
}

/// What is known of the types of the inputs: of the first `n` listed types,
/// the first for each variable that `vars` names.
pub open spec fn input_type_sets(types: Seq<(Variable, ValueType)>, vars: Seq<Variable>, n: int) -> Seq<
    (Variable, ValueTypeSet),
>
    decreases n,
{
    if n <= 0 || n > types.len() {
        seq![]
    } else {
        let before = input_type_sets(types, vars, n - 1);
        if names_contain(vars, types[n - 1].0@) && lookup(before, types[n - 1].0@) is None {
            before.push((types[n - 1].0, ValueTypeSet::One(types[n - 1].1)))
        } else {
            before
        }
    }
}

fn input_types(types: &Vec<(Variable, ValueType)>, in_vars: &Vec<Variable>) -> (r: Vec<(Variable, ValueTypeSet)>)
    ensures
        types_wf(r@),
        r@ == input_type_sets(types@, in_vars@, types@.len() as int),
{
    let mut out: Vec<(Variable, ValueTypeSet)> = Vec::new();
    let mut i: usize = 0;
    while i < types.len()
        invariant
            i <= types@.len(),
            types_wf(out@),
            out@ == input_type_sets(types@, in_vars@, i as int),
        decreases types@.len() - i,
    {
        if contains_var(in_vars, &types[i].0) && find_var(&out, &types[i].0).is_none() {
            out.push((types[i].0.clone(), ValueTypeSet::unit(types[i].1)));
        }
        i += 1;
    }
    out
}

/// Whether `r` is where the algebrizing of a query starts: clauses that
/// read no table, constrain nothing and bind no column, that number their
/// aliases from `counter`, and that know the input variables `in_variables`
/// with the values and the types given for them in `inputs`.
pub open spec fn starts_with_inputs(r: ConjoiningClauses, in_variables: Vec<Variable>, inputs: QueryInputs, counter: usize) -> bool {
    &&& is_blank(r)
    &&& r.empty_because is None
    &&& r.alias_counter == counter
    &&& r.column_bindings@.len() == 0
    &&& r.extracted_types@.len() == 0
    &&& r.input_variables == in_variables
    &&& r.value_bindings@ == kept(inputs.values@, in_variables@, false, inputs.values@.len() as int)
    &&& r.known_types@ == input_type_sets(inputs.types@, in_variables@, inputs.types@.len() as int)
}

impl ConjoiningClauses {
    /// Clauses that know the input variables `in_variables`, the inputs
    /// given for them, and the number of the first alias. Inputs for other
    /// variables are dropped.
    pub fn with_inputs_and_alias_counter(in_variables: Vec<Variable>, inputs: QueryInputs, alias_counter: usize) -> (r: ConjoiningClauses)
        ensures
            r.ok(),
            starts_with_inputs(r, in_variables, inputs, alias_counter),
    {
        let values = kept_values(&inputs.values, &in_variables, false);
        let known_types = input_types(&inputs.types, &in_variables);
        ConjoiningClauses {
            empty_because: None,
            alias_counter,
            from: Vec::new(),
            computed_tables: Vec::new(),
            wheres: crate::types::ColumnIntersection(Vec::new()),
            column_bindings: Vec::new(),
            input_variables: in_variables,
            value_bindings: values,
            known_types,
            extracted_types: Vec::new(),
        }
    }
}

/// Whether the variable named `v` cannot be projected from `cc`: it is
/// unbound, or nothing gives its type.
pub open spec fn unprojectable(cc: ConjoiningClauses, v: Seq<char>) -> bool {
    !cc.is_bound(v) || !cc.is_typed(v)
}

/// Among the first `n` variables, the first that cannot be projected.
pub open spec fn first_missing(cc: ConjoiningClauses, vars: Seq<Variable>, n: int) -> Option<int>
    decreases n,
{
    if n <= 0 || n > vars.len() {
        None
    } else {
        match first_missing(cc, vars, n - 1) {
            Some(k) => Some(k),
            None => if unprojectable(cc, vars[n - 1]@) {
                Some(n - 1)
            } else {
                None
            },
        }
    }
}

/// The variable that `first_missing` finds is in range and cannot be
/// projected, and those before it can. Where it finds none, each variable
/// can be projected.
pub proof fn lemma_first_missing(cc: ConjoiningClauses, vars: Seq<Variable>, n: int)
    requires
        0 <= n <= vars.len(),
    ensures
        match first_missing(cc, vars, n) {
            Some(k) => 0 <= k < n && unprojectable(cc, vars[k]@) && forall|j: int|
                0 <= j < k ==> !unprojectable(cc, (#[trigger] vars[j])@),
            None => vars_projectable(cc, vars, vars, n) && forall|j: int|
                0 <= j < n ==> !unprojectable(cc, (#[trigger] vars[j])@),
        },
    decreases n,
{
    if n > 0 {
        lemma_first_missing(cc, vars, n - 1);
        if first_missing(cc, vars, n) is None {
            assert(names_contain(vars, vars[n - 1]@));
        }
    }
}

/// The first variable that `cc` does not bind or cannot give the type of.
fn first_unbound(cc: &ConjoiningClauses, vars: &Vec<Variable>) -> (r: Option<usize>)
    ensures
        r is Some <==> first_missing(*cc, vars@, vars@.len() as int) is Some,
        r is Some ==> r->0 < vars@.len() && r->0 as int == first_missing(*cc, vars@, vars@.len() as int)->0,
{
    let mut i: usize = 0;
    while i < vars.len()
        invariant
            i <= vars@.len(),
            first_missing(*cc, vars@, i as int) is None,
        decreases vars@.len() - i,
    {
        let var = &vars[i];
        let bound = cc.bound_value(var).is_some() || cc.first_column(var).is_some();
        let typed = cc.bound_value(var).is_some() || cc.known_type(var).is_some() || cc.extracted_type(
            var,
        ).is_some();
        if !bound || !typed {
            proof {
                lemma_missing_stays(*cc, vars@, i + 1, vars@.len() as int);
            }
            return Some(i);
        }
        i += 1;
    }
    None
}

/// The first variable among the first `k` that cannot be projected is the
/// first among more.
pub proof fn lemma_missing_stays(cc: ConjoiningClauses, vars: Seq<Variable>, k: int, n: int)
    requires
        0 <= k <= n <= vars.len(),
        first_missing(cc, vars, k) is Some,
    ensures
        first_missing(cc, vars, n) == first_missing(cc, vars, k),
    decreases n - k,
{
    if k < n {
        lemma_missing_stays(cc, vars, k, n - 1);
    }
}

/// The variables of a find specification.
pub fn find_spec_variables(spec: &FindSpec) -> (r: Vec<Variable>)
    ensures
        r@ == find_variables(*spec),
{
    let mut out: Vec<Variable> = Vec::new();
    match spec {
        FindSpec::FindRel(es) => {
            let mut i: usize = 0;
            while i < es.len()
                invariant
                    i <= es@.len(),
                    out@ == find_variables(*spec).subrange(0, i as int),
                    spec is FindRel,
                    spec->FindRel_0 == *es,
                decreases es@.len() - i,
            {
                match &es[i] {
                    Element::Variable(v) => {
                        out.push(v.clone());
                    },
                }
                assert(out@ =~= find_variables(*spec).subrange(0, i + 1));
                i += 1;
            }
            assert(out@ =~= find_variables(*spec));
        },
        FindSpec::FindTuple(es) => {
            let mut i: usize = 0;
            while i < es.len()
                invariant
                    i <= es@.len(),
                    out@ == find_variables(*spec).subrange(0, i as int),
                    spec is FindTuple,
                    spec->FindTuple_0 == *es,
                decreases es@.len() - i,
            {
                match &es[i] {
                    Element::Variable(v) => {
                        out.push(v.clone());
                    },
                }
                assert(out@ =~= find_variables(*spec).subrange(0, i + 1));
                i += 1;
            }
            assert(out@ =~= find_variables(*spec));
        },
        FindSpec::FindColl(e) => {
            match e {
                Element::Variable(v) => {
                    out.push(v.clone());
                },
            }
            assert(out@ =~= find_variables(*spec));
        },
        FindSpec::FindScalar(e) => {
            match e {
                Element::Variable(v) => {
                    out.push(v.clone());
                },
            }
            assert(out@ =~= find_variables(*spec));
        },
    }
    out
}

/// The limit of a query before the value of a limit variable is put in: a
/// query for one row has the limit 1, and any other query the limit that
/// it was written with.
pub open spec fn starting_limit(find_spec: FindSpec, limit: Limit) -> Limit {
    if find_spec is FindTuple || find_spec is FindScalar {
        Limit::Fixed(1)
    } else {
        limit
    }
}

/// Of the variables `all`, in the order of their names, those that `found`
/// does not name.
fn without(all: &Vec<Variable>, found: &Vec<Variable>) -> (r: Vec<Variable>)
    requires
        sorted_names(all@),
    ensures
        sorted_names(r@),
        name_set(r@) == name_set(all@).difference(name_set(found@)),
{
    let mut out: Vec<Variable> = Vec::new();
    let mut i: usize = 0;
    while i < all.len()
        invariant
            i <= all@.len(),
            sorted_names(all@),
            sorted_names(out@),
            forall|k: int, j: int| 0 <= k < out@.len() && i <= j < all@.len() ==> lex_lt((#[trigger] out@[k])@, (#[trigger] all@[j])@),
            forall|v: Seq<char>|
                names_contain(out@, v) <==> (exists|j: int| 0 <= j < i && #[trigger] all@[j]@ == v) && !names_contain(
                    found@,
                    v,
                ),
        decreases all@.len() - i,
    {
        let ghost before = out@;
        if !contains_var(found, &all[i]) {
            out.push(all[i].clone());
        }
        proof {
            assert forall|v: Seq<char>|
                names_contain(out@, v) <==> (exists|j: int| 0 <= j < i + 1 && #[trigger] all@[j]@ == v) && !names_contain(
                    found@,
                    v,
                ) by {
                if names_contain(out@, v) {
                    let k = choose|k: int| 0 <= k < out@.len() && #[trigger] out@[k]@ == v;
                    if k < before.len() {
                        assert(before[k]@ == v);
                        assert(names_contain(before, v));
                        let j = choose|j: int| 0 <= j < i && #[trigger] all@[j]@ == v;
                    } else {
                        assert(all@[i as int]@ == v);
                    }
                }
                if (exists|j: int| 0 <= j < i + 1 && #[trigger] all@[j]@ == v) && !names_contain(found@, v) {
                    let j = choose|j: int| 0 <= j < i + 1 && #[trigger] all@[j]@ == v;
                    if j < i {
                        assert(names_contain(before, v));
                        let k = choose|k: int| 0 <= k < before.len() && #[trigger] before[k]@ == v;
                        assert(out@[k]@ == v);
                    } else {
                        assert(out@[out@.len() - 1]@ == v);
                    }
                }
            }
        }
        i += 1;
    }
    proof {
        assert forall|v: Seq<char>| name_set(out@).contains(v) <==> name_set(all@).difference(
            name_set(found@),
        ).contains(v) by {
            if names_contain(all@, v) {
                let j = choose|j: int| 0 <= j < all@.len() && #[trigger] all@[j]@ == v;
            }
        }
        assert(name_set(out@) =~= name_set(all@).difference(name_set(found@)));
    }
    out
}

/// The variables that a query carries along without returning them: those
/// of `:with` and those that it orders by, but for the ones that it
/// returns.
pub open spec fn carried_names(cc: ConjoiningClauses, find_spec: FindSpec, with: Seq<Variable>, order: Option<Vec<Order>>) -> Set<
    Seq<char>,
> {
    name_set(with).union(ordered_names(cc, order_of(order), order_of(order).len() as int)).difference(
        name_set(find_variables(find_spec)),
    )
}

/// Whether `name` is the first, in the order of names, of the variables
/// named `names` that cannot be projected from `cc`.
pub open spec fn first_unprojectable_name(cc: ConjoiningClauses, names: Set<Seq<char>>, name: Seq<char>) -> bool {
    &&& names.contains(name)
    &&& unprojectable(cc, name)
    &&& forall|w: Seq<char>| names.contains(w) && unprojectable(cc, w) ==> !lex_lt(w, name)
}

/// Whether `r` is what a query comes to once its clauses are applied and
/// settled as `cc`.
///
/// An entry of `:order` whose variable is unbound is an error. Unless the
/// clauses are known to be empty, so is a variable that cannot be
/// projected: the first that the query returns, or else the first, by
/// name, that it carries along. Then the limit is settled, which can fail.
/// Otherwise the result is the query with these clauses, the simplified
/// ordering, the settled limit, and the variables carried along in the
/// order of their names.
pub open spec fn concluded(
    cc: ConjoiningClauses,
    find_spec: FindSpec,
    default_source: SrcVar,
    with: Seq<Variable>,
    order: Option<Vec<Order>>,
    limit: Limit,
    r: Result<AlgebraicQuery, AlgebrizerError>,
) -> bool {
    let found = find_variables(find_spec);
    let carried = carried_names(cc, find_spec, with, order);
    match first_unordered(cc, order_of(order), order_of(order).len() as int) {
        Some(k) => r matches Err(AlgebrizerError::UnboundVariable(s)) && s@ == order_of(order)[k].1@,
        None => if !cc.known_empty() && first_missing(cc, found, found.len() as int) is Some {
            r matches Err(AlgebrizerError::UnboundVariable(s)) && s@ == found[first_missing(
                cc,
                found,
                found.len() as int,
            )->0]@
        } else if !cc.known_empty() && exists|v: Seq<char>| carried.contains(v) && unprojectable(cc, v) {
            r matches Err(AlgebrizerError::UnboundVariable(s)) && first_unprojectable_name(cc, carried, s@)
        } else {
            match simplified_limit(starting_limit(find_spec, limit), cc) {
                Err(e) => r == Err::<AlgebraicQuery, AlgebrizerError>(e),
                Ok(settled) => {
                    &&& r matches Ok(q)
                    &&& q.cc == cc
                    &&& q.find_spec == find_spec
                    &&& q.default_source == default_source
                    &&& !q.has_aggregates
                    &&& q.limit == settled
                    &&& sorted_names(q.with@)
                    &&& name_set(q.with@) == carried
                    &&& is_order_by(cc, order, q.order)
                },
            }
        },
    }
}

/// Settles a query whose clauses are applied: checks the ordering and what
/// is projected, and settles the limit.
fn conclude(
    cc: ConjoiningClauses,
    find_spec: FindSpec,
    default_source: SrcVar,
    with: Vec<Variable>,
    order: Option<Vec<Order>>,
    limit: Limit,
) -> (r: Result<AlgebraicQuery, AlgebrizerError>)
    requires
        cc.ok(),
    ensures
        concluded(cc, find_spec, default_source, with@, order, limit, r),
        r is Ok ==> r->Ok_0.wf(),
{
    let simplified = match validate_and_simplify_order(&cc, order) {
        Ok(s) => s,
        Err(e) => {
            return Err(e);
        },
    };
    let SimplifiedOrder { order: order_bys, vars: extra_vars } = simplified;
    let ghost carried = carried_names(cc, find_spec, with@, order);
    let found = find_spec_variables(&find_spec);
    let mut candidates: Vec<Variable> = Vec::new();
    assert(name_set(candidates@) =~= Set::<Seq<char>>::empty());
    add_all(&mut candidates, &with);
    add_all(&mut candidates, &extra_vars);
    // What is returned is projected anyway.
    let all_with = without(&candidates, &found);
    assert(name_set(all_with@) =~= carried);
    proof {
        lemma_first_missing(cc, found@, found@.len() as int);
        lemma_first_missing(cc, all_with@, all_with@.len() as int);
    }
    if !cc.is_known_empty() {
        match first_unbound(&cc, &found) {
            Some(k) => {
                return Err(AlgebrizerError::UnboundVariable(found[k].name()));
            },
            None => {},
        }
        match first_unbound(&cc, &all_with) {
            Some(k) => {
                proof {
                    let name = all_with@[k as int]@;
                    assert(names_contain(all_with@, name));
                    assert forall|w: Seq<char>| carried.contains(w) && unprojectable(cc, w) implies !lex_lt(
                        w,
                        name,
                    ) by {
                        let j = choose|j: int| 0 <= j < all_with@.len() && #[trigger] all_with@[j]@ == w;
                        if j > k {
                            lemma_lex_asymmetric(name, w);
                        } else if j == k {
                            lemma_lex_irreflexive(name);
                        }
                    }
                }
                return Err(AlgebrizerError::UnboundVariable(all_with[k].name()));
            },
            None => {
                proof {
                    assert forall|v: Seq<char>| carried.contains(v) implies !unprojectable(cc, v) by {
                        let j = choose|j: int| 0 <= j < all_with@.len() && #[trigger] all_with@[j]@ == v;
                    }
                }
            },
        }
    }
    let limit = if find_spec.is_unit_limited() {
        Limit::Fixed(1)
    } else {
        limit
    };
    let limit = match simplify_limit(limit, &cc) {
        Ok(l) => l,
        Err(e) => {
            return Err(e);
        },
    };
    Ok(
        AlgebraicQuery {
            default_source,
            find_spec,
            has_aggregates: false,
            with: all_with,
            order: order_bys,
            limit,
            cc,
        },
    )
}

/// Whether `start` is where the clauses of a query start: the clauses that
/// know the inputs, in which the variable of the limit, if there is one,
/// is a long.
pub open spec fn starts_query(start: ConjoiningClauses, in_vars: Vec<Variable>, limit: Limit, inputs: QueryInputs, counter: usize) -> bool {
    exists|blank: ConjoiningClauses|
        {
            &&& #[trigger] starts_with_inputs(blank, in_vars, inputs, counter)
            &&& match limit {
                Limit::Variable(v) => start@ == with_narrowed(blank@, v, set![ValueType::Long]) && same_but_types(
                    blank,
                    start,
                ),
                _ => start == blank,
            }
        }
}

/// Whether `r` is what algebrizing `parsed` gives, once its clauses were
/// applied with the result `first` and left `applied`: an error there is
/// the error; otherwise the clauses are settled and the query concluded.
pub open spec fn algebrized(
    parsed: FindQuery,
    applied: ConjoiningClauses,
    first: Result<(), AlgebrizerError>,
    r: Result<AlgebraicQuery, AlgebrizerError>,
) -> bool {
    match first {
        Err(e) => r == Err::<AlgebraicQuery, AlgebrizerError>(e),
        Ok(_) => exists|cc: ConjoiningClauses|
            {
                &&& #[trigger] is_settled(applied, cc)
                &&& concluded(
                    cc,
                    parsed.find_spec,
                    parsed.default_source,
                    parsed.with@,
                    parsed.order,
                    parsed.limit,
                    r,
                )
            },
    }
}

/// Whether `r` is what algebrizing `parsed` against `schema` gives, with
/// the inputs `inputs` and with aliases numbered from `counter`: the
/// clauses of `:where` are applied in turn to the clauses that know the
/// inputs, and the query is concluded from what they leave.
pub open spec fn algebrizes_to(
    schema: Schema,
    parsed: FindQuery,
    counter: usize,
    inputs: QueryInputs,
    r: Result<AlgebraicQuery, AlgebrizerError>,
) -> bool {
    exists|start: ConjoiningClauses, applied: ConjoiningClauses, first: Result<(), AlgebrizerError>|
        {
            &&& #[trigger] starts_query(start, parsed.in_vars, parsed.limit, inputs, counter)
            &&& applied_in_turn(
                start,
                schema,
                parsed.where_clauses@,
                parsed.where_clauses@.len() as int,
                applied,
                first,
            )
            &&& #[trigger] algebrized(parsed, applied, first, r)
        }
}

/// Whether `r` is what algebrizing `parsed` against `schema` gives
/// without inputs, with aliases numbered from `counter`.
pub open spec fn algebrizes_alone(schema: Schema, parsed: FindQuery, counter: usize, r: Result<
    AlgebraicQuery,
    AlgebrizerError,
>) -> bool {
    exists|inputs: QueryInputs|
        {
            &&& inputs.types@.len() == 0
            &&& inputs.values@.len() == 0
            &&& #[trigger] algebrizes_to(schema, parsed, counter, inputs, r)
        }
}

/// Algebrizes `parsed` against `schema`, with the inputs `inputs` and with
/// aliases numbered from `counter`.
///
/// The clauses of `:where` are applied in turn; then the columns of each
/// variable are set equal, the ordering is checked, and the limit is
/// settled. A query that is not known to be empty must bind every variable
/// that it returns or carries along.
pub fn algebrize_with_inputs(schema: &Schema, parsed: FindQuery, counter: usize, inputs: QueryInputs) -> (r: Result<AlgebraicQuery, AlgebrizerError>)
    ensures
        algebrizes_to(*schema, parsed, counter, inputs, r),
        r is Ok ==> r->Ok_0.wf(),
{
    let FindQuery {
        find_spec,
        default_source,
        with,
        in_vars,
        in_sources: _,
        limit,
        where_clauses,
        order,
    } = parsed;
    let mut cc = ConjoiningClauses::with_inputs_and_alias_counter(in_vars, inputs, counter);
    // The variable of a limit holds a number of rows.
    match &limit {
        Limit::Variable(var) => {
            cc.constrain_var_to_long(var.clone());
        },
        _ => {},
    }
    let ghost start = cc;
    assert(starts_query(start, parsed.in_vars, parsed.limit, inputs, counter));
    let first = cc.apply_clauses(schema, where_clauses);
    let ghost applied = cc;
    match first {
        Ok(_) => {},
        Err(e) => {
            assert(algebrized(parsed, applied, first, Err(e)));
            return Err(e);
        },
    }
    cc.expand_column_bindings();
    cc.prune_extracted_types();
    assert(is_settled(applied, cc));
    let r = conclude(cc, find_spec, default_source, with, order, limit);
    assert(algebrized(parsed, applied, first, r));
    r
}

/// Algebrizes `parsed` with no inputs and with aliases numbered from
/// `counter`.
pub fn algebrize_with_counter(schema: &Schema, parsed: FindQuery, counter: usize) -> (r: Result<AlgebraicQuery, AlgebrizerError>)
    ensures
        algebrizes_alone(*schema, parsed, counter, r),
        r is Ok ==> r->Ok_0.wf(),
{
    algebrize_with_inputs(schema, parsed, counter, QueryInputs::default())
}

/// Algebrizes `parsed` with no inputs.
pub fn algebrize(schema: &Schema, parsed: FindQuery) -> (r: Result<AlgebraicQuery, AlgebrizerError>)
    ensures
        algebrizes_alone(*schema, parsed, 0, r),
        r is Ok ==> r->Ok_0.wf(),
{
    algebrize_with_inputs(schema, parsed, 0, QueryInputs::default())
}

} // verus!
