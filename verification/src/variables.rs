//! The variables of clauses: on which variables a clause can join with what
//! surrounds it.

use vstd::prelude::*;
use crate::query::{
    FnArg, OrJoin, OrWhereClause, Pattern, PatternNonValuePlace, PatternValuePlace, UnifyVars,
    Variable, WhereClause, contains_var, names_contain,
};
use crate::sql::{lemma_lex_total, lemma_lex_transitive, lex_lt, str_lt};

verus! {

/// The names of the variables of a list, as a set.
pub open spec fn name_set(vars: Seq<Variable>) -> Set<Seq<char>> {
    Set::new(|v: Seq<char>| names_contain(vars, v))
}

/// Whether the variables are in the order of their names, each name once.
pub open spec fn sorted_names(vars: Seq<Variable>) -> bool {
    forall|i: int, j: int| 0 <= i < j < vars.len() ==> lex_lt((#[trigger] vars[i])@, (#[trigger] vars[j])@)
}

/// The variable of a place, if it holds one.
pub open spec fn place_variables(p: PatternNonValuePlace) -> Set<Seq<char>> {
    match p {
        PatternNonValuePlace::Variable(v) => set![v@],
        _ => Set::empty(),
    }
}

/// The variable of a value place, if it holds one.
pub open spec fn value_place_variables(p: PatternValuePlace) -> Set<Seq<char>> {
    match p {
        PatternValuePlace::Variable(v) => set![v@],
        _ => Set::empty(),
    }
}

/// The variables of a pattern.
pub open spec fn pattern_variables(p: Pattern) -> Set<Seq<char>> {
    place_variables(p.entity).union(place_variables(p.attribute)).union(
        value_place_variables(p.value),
    ).union(place_variables(p.tx))
}

/// The variables of an argument.
pub open spec fn fn_arg_variables(a: FnArg) -> Set<Seq<char>>
    decreases a, 0int,
{
    match a {
        FnArg::Variable(v) => set![v@],
        FnArg::Vector(args) => fn_args_variables(args@, args@.len() as int),
        _ => Set::empty(),
    }
}

/// The variables of the first `n` arguments.
pub open spec fn fn_args_variables(args: Seq<FnArg>, n: int) -> Set<Seq<char>>
    decreases args, n,
{
    if n <= 0 || n > args.len() {
        Set::empty()
    } else {
        fn_args_variables(args, n - 1).union(fn_arg_variables(args[n - 1]))
    }
}

/// The variables on which a clause can join with what surrounds it: all
/// that it mentions, but of an `or-join` or a `not-join` only those that it
/// lists.
pub open spec fn clause_variables(c: WhereClause) -> Set<Seq<char>>
    decreases c, 0int,
{
    match c {
        WhereClause::Pattern(p) => pattern_variables(p),
        WhereClause::Pred(p) => fn_args_variables(p.args@, p.args@.len() as int),
        WhereClause::OrJoin(o) => match o.unify_vars {
            UnifyVars::Explicit(vars) => name_set(vars@),
            UnifyVars::Implicit => arms_variables(o.clauses@, o.clauses@.len() as int),
        },
        WhereClause::NotJoin(n) => match n.unify_vars {
            UnifyVars::Explicit(vars) => name_set(vars@),
            UnifyVars::Implicit => clauses_variables(n.clauses@, n.clauses@.len() as int),
        },
    }
}

/// The variables of the first `n` clauses.
pub open spec fn clauses_variables(cs: Seq<WhereClause>, n: int) -> Set<Seq<char>>
    decreases cs, n,
{
    if n <= 0 || n > cs.len() {
        Set::empty()
    } else {
        clauses_variables(cs, n - 1).union(clause_variables(cs[n - 1]))
    }
}

/// The variables of an arm of an `or`.
pub open spec fn arm_variables(a: OrWhereClause) -> Set<Seq<char>>
    decreases a, 1int,
{
    match a {
        OrWhereClause::Clause(c) => clause_variables(c),
        OrWhereClause::And(cs) => clauses_variables(cs@, cs@.len() as int),
    }
}

/// The variables of the first `n` arms.
pub open spec fn arms_variables(arms: Seq<OrWhereClause>, n: int) -> Set<Seq<char>>
    decreases arms, n,
{
    if n <= 0 || n > arms.len() {
        Set::empty()
    } else {
        arms_variables(arms, n - 1).union(arm_variables(arms[n - 1]))
    }
}

/// The variables that each of the first `n` arms mentions.
pub open spec fn shared_variables(arms: Seq<OrWhereClause>, n: int) -> Set<Seq<char>>
    decreases n,
{
    if n <= 0 || n > arms.len() {
        Set::empty()
    } else if n == 1 {
        arm_variables(arms[0])
    } else {
        shared_variables(arms, n - 1).intersect(arm_variables(arms[n - 1]))
    }
}

/// Adds `var` to a list of variables that is kept in the order of the names
/// and holds no name twice.
pub fn add_variable(acc: &mut Vec<Variable>, var: &Variable)
    ensures
        name_set(final(acc)@) == name_set(old(acc)@).insert(var@),
        sorted_names(old(acc)@) ==> sorted_names(final(acc)@),
{
    let mut i: usize = 0;
    while i < acc.len() && str_lt(acc[i].as_str(), var.as_str())
        invariant
            i <= acc@.len(),
            *acc == *old(acc),
            forall|j: int| 0 <= j < i ==> lex_lt((#[trigger] acc@[j])@, var@),
        decreases acc@.len() - i,
    {
        i += 1;
    }
    if i < acc.len() && acc[i].same(var) {
        proof {
            assert(names_contain(acc@, var@));
            assert(name_set(acc@) =~= name_set(acc@).insert(var@));
        }
        return ;
    }
    proof {
        if i < acc@.len() {
            lemma_lex_total(acc@[i as int]@, var@);
        }
    }
    let ghost before = acc@;
    acc.insert(i, var.clone());
    proof {
        assert(acc@[i as int]@ == var@);
        assert forall|v: Seq<char>| name_set(acc@).contains(v) == name_set(before).insert(var@).contains(v) by {
            if names_contain(before, v) {
                let j = choose|j: int| 0 <= j < before.len() && #[trigger] before[j]@ == v;
                if j < i {
                    assert(acc@[j] == before[j]);
                } else {
                    assert(acc@[j + 1] == before[j]);
                }
            }
            if names_contain(acc@, v) {
                let j = choose|j: int| 0 <= j < acc@.len() && #[trigger] acc@[j]@ == v;
                if j < i {
                    assert(acc@[j] == before[j]);
                } else if j > i {
                    assert(acc@[j] == before[j - 1]);
                }
            }
        }
        assert(name_set(acc@) =~= name_set(before).insert(var@));
        if sorted_names(before) {
            assert forall|a: int, b: int| 0 <= a < b < acc@.len() implies lex_lt(
                (#[trigger] acc@[a])@,
                (#[trigger] acc@[b])@,
            ) by {
                if b < i {
                    assert(acc@[a] == before[a] && acc@[b] == before[b]);
                } else if b == i {
                    assert(acc@[a] == before[a]);
                } else if a == i {
                    assert(acc@[b] == before[b - 1]);
                    assert(i < before.len());
                    assert(lex_lt(var@, before[i as int]@));
                    if b - 1 > i {
                        assert(lex_lt(before[i as int]@, before[b - 1]@));
                        lemma_lex_transitive(var@, before[i as int]@, before[b - 1]@);
                    }
                } else if a < i {
                    assert(acc@[a] == before[a]);
                    assert(acc@[b] == before[b - 1]);
                    if a == b - 1 {
                    }
                } else {
                    assert(acc@[a] == before[a - 1]);
                    assert(acc@[b] == before[b - 1]);
                }
            }
        }
    }
}

fn add_non_value_place(acc: &mut Vec<Variable>, place: &PatternNonValuePlace)
    ensures
        name_set(final(acc)@) == name_set(old(acc)@).union(place_variables(*place)),
        sorted_names(old(acc)@) ==> sorted_names(final(acc)@),
{
    match place {
        PatternNonValuePlace::Variable(v) => {
            add_variable(acc, v);
            assert(name_set(acc@) =~= name_set(old(acc)@).union(place_variables(*place)));
        },
        _ => {
            assert(name_set(acc@) =~= name_set(old(acc)@).union(place_variables(*place)));
        },
    }
}

fn add_pattern_variables(acc: &mut Vec<Variable>, p: &Pattern)
    ensures
        name_set(final(acc)@) == name_set(old(acc)@).union(pattern_variables(*p)),
        sorted_names(old(acc)@) ==> sorted_names(final(acc)@),
{
    add_non_value_place(acc, &p.entity);
    add_non_value_place(acc, &p.attribute);
    match &p.value {
        PatternValuePlace::Variable(v) => {
            add_variable(acc, v);
        },
        _ => {},
    }
    add_non_value_place(acc, &p.tx);
    assert(name_set(acc@) =~= name_set(old(acc)@).union(pattern_variables(*p)));
}

fn add_fn_arg_variables(acc: &mut Vec<Variable>, a: &FnArg)
    ensures
        name_set(final(acc)@) == name_set(old(acc)@).union(fn_arg_variables(*a)),
        sorted_names(old(acc)@) ==> sorted_names(final(acc)@),
    decreases a, 1int,
{
    match a {
        FnArg::Variable(v) => {
            add_variable(acc, v);
            assert(name_set(acc@) =~= name_set(old(acc)@).union(fn_arg_variables(*a)));
        },
        FnArg::Vector(args) => {
            assert(decreases_to!(a => a->Vector_0));
            add_fn_args_variables(acc, args);
        },
        _ => {
            assert(name_set(acc@) =~= name_set(old(acc)@).union(fn_arg_variables(*a)));
        },
    }
}

fn add_fn_args_variables(acc: &mut Vec<Variable>, args: &Vec<FnArg>)
    ensures
        name_set(final(acc)@) == name_set(old(acc)@).union(fn_args_variables(args@, args@.len() as int)),
        sorted_names(old(acc)@) ==> sorted_names(final(acc)@),
    decreases args, 0int,
{
    let mut i: usize = 0;
    assert(name_set(acc@) =~= name_set(old(acc)@).union(fn_args_variables(args@, 0)));
    while i < args.len()
        invariant
            i <= args@.len(),
            name_set(acc@) == name_set(old(acc)@).union(fn_args_variables(args@, i as int)),
            sorted_names(old(acc)@) ==> sorted_names(acc@),
        decreases args@.len() - i,
    {
        assert(decreases_to!(args => args[i as int]));
        add_fn_arg_variables(acc, &args[i]);
        assert(name_set(acc@) =~= name_set(old(acc)@).union(fn_args_variables(args@, i + 1)));
        i += 1;
    }
}

/// Adds every variable of `vars`.
pub fn add_all(acc: &mut Vec<Variable>, vars: &Vec<Variable>)
    ensures
        name_set(final(acc)@) == name_set(old(acc)@).union(name_set(vars@)),
        sorted_names(old(acc)@) ==> sorted_names(final(acc)@),
{
    let mut i: usize = 0;
    assert(name_set(acc@) =~= name_set(old(acc)@).union(name_set(vars@.subrange(0, 0))));
    while i < vars.len()
        invariant
            i <= vars@.len(),
            name_set(acc@) == name_set(old(acc)@).union(name_set(vars@.subrange(0, i as int))),
            sorted_names(old(acc)@) ==> sorted_names(acc@),
        decreases vars@.len() - i,
    {
        add_variable(acc, &vars[i]);
        proof {
            let before = vars@.subrange(0, i as int);
            let after = vars@.subrange(0, i + 1);
            assert forall|v: Seq<char>| name_set(after).contains(v) == name_set(before).insert(
                vars@[i as int]@,
            ).contains(v) by {
                if names_contain(after, v) {
                    let j = choose|j: int| 0 <= j < after.len() && #[trigger] after[j]@ == v;
                    if j < i {
                        assert(before[j] == after[j]);
                    }
                }
                if names_contain(before, v) {
                    let j = choose|j: int| 0 <= j < before.len() && #[trigger] before[j]@ == v;
                    assert(after[j] == before[j]);
                }
                if v == vars@[i as int]@ {
                    assert(after[i as int]@ == v);
                }
            }
            assert(name_set(after) =~= name_set(before).insert(vars@[i as int]@));
            assert(name_set(acc@) =~= name_set(old(acc)@).union(name_set(after)));
        }
        i += 1;
    }
    assert(vars@.subrange(0, i as int) =~= vars@);
}

/// Adds the variables of every clause of `clauses`.
pub fn add_clauses_variables(acc: &mut Vec<Variable>, clauses: &Vec<WhereClause>)
    ensures
        name_set(final(acc)@) == name_set(old(acc)@).union(
            clauses_variables(clauses@, clauses@.len() as int),
        ),
        sorted_names(old(acc)@) ==> sorted_names(final(acc)@),
    decreases clauses, 0int,
{
    let mut i: usize = 0;
    assert(name_set(acc@) =~= name_set(old(acc)@).union(clauses_variables(clauses@, 0)));
    while i < clauses.len()
        invariant
            i <= clauses@.len(),
            name_set(acc@) == name_set(old(acc)@).union(clauses_variables(clauses@, i as int)),
            sorted_names(old(acc)@) ==> sorted_names(acc@),
        decreases clauses@.len() - i,
    {
        assert(decreases_to!(clauses => clauses[i as int]));
        add_clause_variables(acc, &clauses[i]);
        assert(name_set(acc@) =~= name_set(old(acc)@).union(clauses_variables(clauses@, i + 1)));
        i += 1;
    }
}

/// Adds the variables of every arm of `arms`.
pub fn add_arms_variables(acc: &mut Vec<Variable>, arms: &Vec<OrWhereClause>)
    ensures
        name_set(final(acc)@) == name_set(old(acc)@).union(arms_variables(arms@, arms@.len() as int)),
        sorted_names(old(acc)@) ==> sorted_names(final(acc)@),
    decreases arms, 0int,
{
    let mut i: usize = 0;
    assert(name_set(acc@) =~= name_set(old(acc)@).union(arms_variables(arms@, 0)));
    while i < arms.len()
        invariant
            i <= arms@.len(),
            name_set(acc@) == name_set(old(acc)@).union(arms_variables(arms@, i as int)),
            sorted_names(old(acc)@) ==> sorted_names(acc@),
        decreases arms@.len() - i,
    {
        assert(decreases_to!(arms => arms[i as int]));
        add_arm_variables(acc, &arms[i]);
        assert(name_set(acc@) =~= name_set(old(acc)@).union(arms_variables(arms@, i + 1)));
        i += 1;
    }
}

/// Adds the variables on which `clause` can join with what surrounds it.
pub fn add_clause_variables(acc: &mut Vec<Variable>, clause: &WhereClause)
    ensures
        name_set(final(acc)@) == name_set(old(acc)@).union(clause_variables(*clause)),
        sorted_names(old(acc)@) ==> sorted_names(final(acc)@),
    decreases clause, 1int,
{
    match clause {
        WhereClause::Pattern(p) => {
            add_pattern_variables(acc, p);
        },
        WhereClause::Pred(p) => {
            add_fn_args_variables(acc, &p.args);
        },
        WhereClause::OrJoin(o) => {
            match &o.unify_vars {
                UnifyVars::Explicit(vars) => {
                    add_all(acc, vars);
                },
                UnifyVars::Implicit => {
                    assert(decreases_to!(clause => clause->OrJoin_0));
                    assert(decreases_to!(o => o.clauses));
                    add_arms_variables(acc, &o.clauses);
                },
            }
        },
        WhereClause::NotJoin(n) => {
            match &n.unify_vars {
                UnifyVars::Explicit(vars) => {
                    add_all(acc, vars);
                },
                UnifyVars::Implicit => {
                    assert(decreases_to!(clause => clause->NotJoin_0));
                    assert(decreases_to!(n => n.clauses));
                    add_clauses_variables(acc, &n.clauses);
                },
            }
        },
    }
}

/// Adds the variables of one arm of an `or`.
pub fn add_arm_variables(acc: &mut Vec<Variable>, arm: &OrWhereClause)
    ensures
        name_set(final(acc)@) == name_set(old(acc)@).union(arm_variables(*arm)),
        sorted_names(old(acc)@) ==> sorted_names(final(acc)@),
    decreases arm, 2int,
{
    match arm {
        OrWhereClause::Clause(c) => {
            add_clause_variables(acc, c);
        },
        OrWhereClause::And(cs) => {
            add_clauses_variables(acc, cs);
        },
    }
}

fn new_list() -> (r: Vec<Variable>)
    ensures
        r@.len() == 0,
        sorted_names(r@),
        name_set(r@) == Set::<Seq<char>>::empty(),
{
    let r: Vec<Variable> = Vec::new();
    assert(name_set(r@) =~= Set::<Seq<char>>::empty());
    r
}

/// The variables that every arm mentions, in the order of their names.
pub fn common_variables(arms: &Vec<OrWhereClause>) -> (r: Vec<Variable>)
    ensures
        sorted_names(r@),
        name_set(r@) == shared_variables(arms@, arms@.len() as int),
{
    let mut common = new_list();
    if arms.len() == 0 {
        return common;
    }
    add_arm_variables(&mut common, &arms[0]);
    assert(name_set(common@) =~= shared_variables(arms@, 1));
    let mut i: usize = 1;
    while i < arms.len()
        invariant
            1 <= i <= arms@.len(),
            sorted_names(common@),
            name_set(common@) == shared_variables(arms@, i as int),
        decreases arms@.len() - i,
    {
        let mut here = new_list();
        add_arm_variables(&mut here, &arms[i]);
        assert(name_set(here@) =~= arm_variables(arms@[i as int]));
        let mut kept: Vec<Variable> = Vec::new();
        let mut j: usize = 0;
        // `kept` holds, in order, those of the first `j` that `here` holds.
        let ghost mut picked: Seq<int> = seq![];
        while j < common.len()
            invariant
                j <= common@.len(),
                sorted_names(common@),
                kept@.len() == picked.len(),
                forall|k: int| 0 <= k < picked.len() ==> 0 <= #[trigger] picked[k] < j && kept@[k] == common@[picked[k]],
                forall|k: int, l: int| 0 <= k < l < picked.len() ==> picked[k] < picked[l],
                forall|m: int|
                    0 <= m < j && names_contain(here@, (#[trigger] common@[m])@) ==> exists|k: int|
                        0 <= k < picked.len() && picked[k] == m,
                forall|k: int| 0 <= k < picked.len() ==> names_contain(here@, common@[#[trigger] picked[k]]@),
            decreases common@.len() - j,
        {
            if contains_var(&here, &common[j]) {
                kept.push(common[j].clone());
                proof {
                    let old_picked = picked;
                    picked = picked.push(j as int);
                    assert forall|m: int|
                        0 <= m < j + 1 && names_contain(here@, (#[trigger] common@[m])@) implies exists|k: int|
                            0 <= k < picked.len() && picked[k] == m by {
                        if m < j {
                            let k = choose|k: int| 0 <= k < old_picked.len() && old_picked[k] == m;
                            assert(picked[k] == m);
                        } else {
                            assert(picked[picked.len() - 1] == m);
                        }
                    }
                }
            }
            j += 1;
        }
        proof {
            assert forall|a: int, b: int| 0 <= a < b < kept@.len() implies lex_lt(
                (#[trigger] kept@[a])@,
                (#[trigger] kept@[b])@,
            ) by {
                assert(picked[a] < picked[b]);
            }
            assert forall|v: Seq<char>| name_set(kept@).contains(v) == (name_set(common@).contains(v)
                && name_set(here@).contains(v)) by {
                if names_contain(kept@, v) {
                    let k = choose|k: int| 0 <= k < kept@.len() && #[trigger] kept@[k]@ == v;
                    assert(common@[picked[k]]@ == v);
                }
                if names_contain(common@, v) && names_contain(here@, v) {
                    let m = choose|m: int| 0 <= m < common@.len() && #[trigger] common@[m]@ == v;
                    let k = choose|k: int| 0 <= k < picked.len() && picked[k] == m;
                    assert(kept@[k]@ == v);
                }
            }
            assert(name_set(kept@) =~= shared_variables(arms@, i + 1));
        }
        common = kept;
        i += 1;
    }
    common
}

/// Every variable that some arm mentions, in the order of their names.
pub fn mentioned_variables(arms: &Vec<OrWhereClause>) -> (r: Vec<Variable>)
    ensures
        sorted_names(r@),
        name_set(r@) == arms_variables(arms@, arms@.len() as int),
{
    let mut all = new_list();
    add_arms_variables(&mut all, arms);
    assert(name_set(all@) =~= arms_variables(arms@, arms@.len() as int));
    all
}

/// Whether an `or` joins on every variable that it mentions: an `or` always
/// does, and an `or-join` does if it lists them all.
pub open spec fn fully_unified(or_join: OrJoin) -> bool {
    match or_join.unify_vars {
        UnifyVars::Implicit => true,
        UnifyVars::Explicit(vars) => arms_variables(or_join.clauses@, or_join.clauses@.len() as int).subset_of(
            name_set(vars@),
        ),
    }
}

/// Whether the `or` joins on every variable that it mentions.
pub fn is_fully_unified(or_join: &OrJoin) -> (r: bool)
    ensures
        r == fully_unified(*or_join),
{
    match &or_join.unify_vars {
        UnifyVars::Implicit => true,
        UnifyVars::Explicit(vars) => {
            let mentioned = mentioned_variables(&or_join.clauses);
            let mut i: usize = 0;
            while i < mentioned.len()
                invariant
                    i <= mentioned@.len(),
                    or_join.unify_vars == UnifyVars::Explicit(*vars),
                    name_set(mentioned@) == arms_variables(or_join.clauses@, or_join.clauses@.len() as int),
                    forall|j: int| 0 <= j < i ==> names_contain(vars@, (#[trigger] mentioned@[j])@),
                decreases mentioned@.len() - i,
            {
                if !contains_var(vars, &mentioned[i]) {
                    proof {
                        assert(names_contain(mentioned@, mentioned@[i as int]@));
                        assert(name_set(mentioned@).contains(mentioned@[i as int]@));
                        assert(!name_set(vars@).contains(mentioned@[i as int]@));
                    }
                    return false;
                }
                i += 1;
            }
            proof {
                assert forall|v: Seq<char>| name_set(mentioned@).contains(v) implies name_set(vars@).contains(
                    v,
                ) by {
                    let j = choose|j: int| 0 <= j < mentioned@.len() && #[trigger] mentioned@[j]@ == v;
                    assert(names_contain(vars@, mentioned@[j]@));
                }
            }
            true
        },
    }
}

} // verus!
