//! The attribute cache: for each cached attribute, the values of each
//! entity, as the store gave them.

use vstd::prelude::*;
use crate::values::{Entid, TypedValue};

verus! {

/// Whether an attribute is to be put into the cache or taken out of it.
#[derive(Clone, Copy, Debug, PartialEq, Eq, Structural)]
pub enum CacheAction {
    Register,
    Deregister,
}

/// The values of one attribute: for each entity that has any, its values.
/// The entities stand in the order of their ids.
pub type CacheMap = Vec<(Entid, Vec<TypedValue>)>;

/// Whether the keys of `m` ascend; no key occurs twice then.
pub open spec fn ascending<T>(m: Seq<(Entid, T)>) -> bool {
    forall|i: int, j: int| 0 <= i < j < m.len() ==> (#[trigger] m[i]).0 < (#[trigger] m[j]).0
}

/// The position at or after `from` of the first entry whose key is `k` or
/// greater; the length of `m` where there is none.
pub open spec fn rank<T>(m: Seq<(Entid, T)>, k: Entid, from: int) -> int
    decreases m.len() - from,
{
    if from < 0 || from >= m.len() {
        m.len() as int
    } else if m[from].0 >= k {
        from
    } else {
        rank(m, k, from + 1)
    }
}

/// What `m` holds for the key `k`.
pub open spec fn held<T>(m: Seq<(Entid, T)>, k: Entid) -> Option<T> {
    let i = rank(m, k, 0);
    if i < m.len() && m[i].0 == k {
        Some(m[i].1)
    } else {
        None
    }
}

/// `m` with `value` for the key `k`, in the place that the order of the
/// keys gives it; what `m` held for `k` is replaced.
pub open spec fn with_entry<T>(m: Seq<(Entid, T)>, k: Entid, value: T) -> Seq<(Entid, T)> {
    let i = rank(m, k, 0);
    if i < m.len() && m[i].0 == k {
        m.update(i, (k, value))
    } else {
        m.insert(i, (k, value))
    }
}

/// `m` without the key `k`.
pub open spec fn without_entry<T>(m: Seq<(Entid, T)>, k: Entid) -> Seq<(Entid, T)> {
    let i = rank(m, k, 0);
    if i < m.len() && m[i].0 == k {
        m.remove(i)
    } else {
        m
    }
}

/// The rank of a key lies between `from` and the length; the keys before
/// it, from `from` on, are smaller, and the key at it is not.
pub proof fn lemma_rank<T>(m: Seq<(Entid, T)>, k: Entid, from: int)
    requires
        0 <= from <= m.len(),
    ensures
        from <= rank(m, k, from) <= m.len(),
        forall|j: int| from <= j < rank(m, k, from) ==> (#[trigger] m[j]).0 < k,
        rank(m, k, from) < m.len() ==> m[rank(m, k, from)].0 >= k,
    decreases m.len() - from,
{
    if from < m.len() && m[from].0 < k {
        lemma_rank(m, k, from + 1);
    }
}

/// A list with ascending keys holds a key at one place at most, which is
/// its rank.
pub proof fn lemma_rank_finds<T>(m: Seq<(Entid, T)>, i: int)
    requires
        ascending(m),
        0 <= i < m.len(),
    ensures
        rank(m, m[i].0, 0) == i,
{
    lemma_rank(m, m[i].0, 0);
    let r = rank(m, m[i].0, 0);
    if r < i {
        assert(m[r].0 < m[i].0);
    } else if r > i {
        assert(m[i].0 < m[i].0);
    }
}

/// Setting an entry keeps the keys ascending, gives the new value for its
/// key, and leaves what is held for every other key.
pub proof fn lemma_with_entry<T>(m: Seq<(Entid, T)>, k: Entid, value: T, other: Entid)
    requires
        ascending(m),
    ensures
        ascending(with_entry(m, k, value)),
        held(with_entry(m, k, value), k) == Some(value),
        other != k ==> held(with_entry(m, k, value), other) == held(m, other),
{
    lemma_rank(m, k, 0);
    let i = rank(m, k, 0);
    let next = with_entry(m, k, value);
    assert(ascending(next)) by {
        assert forall|a: int, b: int| 0 <= a < b < next.len() implies (#[trigger] next[a]).0 < (#[trigger] next[
            b
        ]).0 by {
            if i < m.len() && m[i].0 == k {
                assert(next[a].0 == m[a].0 && next[b].0 == m[b].0);
            } else {
                let pa = if a < i {
                    a
                } else {
                    a - 1
                };
                let pb = if b < i {
                    b
                } else {
                    b - 1
                };
                if a != i && b != i {
                    assert(next[a] == m[pa] && next[b] == m[pb]);
                } else if a == i {
                    assert(next[b] == m[pb]);
                    assert(m[pb].0 >= m[i].0 || pb == i) by {
                        if pb > i {
                            assert(m[i].0 < m[pb].0);
                        }
                    }
                } else {
                    assert(next[a] == m[pa]);
                }
            }
        }
    }
    assert(0 <= i < next.len() && next[i].0 == k);
    lemma_rank_finds(next, i);
    if other != k {
        lemma_rank(m, other, 0);
        lemma_rank(next, other, 0);
        let r = rank(m, other, 0);
        let s = rank(next, other, 0);
        if i < m.len() && m[i].0 == k {
            // The keys are the same, and so are the ranks.
            if r < s {
                assert(next[r].0 == m[r].0);
            } else if s < r {
                assert(next[s].0 == m[s].0);
            }
        } else {
            // One entry more: what stood at or after `i` stands one further.
            let shifted = if r < i {
                r
            } else {
                r + 1
            };
            if r < m.len() {
                assert(next[shifted] == m[r]);
            }
            if s < shifted {
                if s < i {
                    assert(next[s] == m[s]);
                } else if s > i {
                    assert(next[s] == m[s - 1]);
                }
            } else if s > shifted {
                assert(shifted < next.len());
                assert(next[shifted].0 < other);
            }
        }
    }
}

/// Taking a key out keeps the keys ascending, leaves nothing for the key,
/// and leaves what is held for every other key.
pub proof fn lemma_without_entry<T>(m: Seq<(Entid, T)>, k: Entid, other: Entid)
    requires
        ascending(m),
    ensures
        ascending(without_entry(m, k)),
        held(without_entry(m, k), k) is None,
        other != k ==> held(without_entry(m, k), other) == held(m, other),
{
    lemma_rank(m, k, 0);
    let i = rank(m, k, 0);
    let next = without_entry(m, k);
    if i < m.len() && m[i].0 == k {
        assert forall|a: int, b: int| 0 <= a < b < next.len() implies (#[trigger] next[a]).0 < (#[trigger] next[
            b
        ]).0 by {
            let pa = if a < i {
                a
            } else {
                a + 1
            };
            let pb = if b < i {
                b
            } else {
                b + 1
            };
            assert(next[a] == m[pa] && next[b] == m[pb]);
        }
        lemma_rank(next, k, 0);
        let s = rank(next, k, 0);
        if s < next.len() && next[s].0 == k {
            let ps = if s < i {
                s
            } else {
                s + 1
            };
            assert(next[s] == m[ps]);
            lemma_rank_finds(m, ps);
        }
        if other != k {
            lemma_rank(m, other, 0);
            lemma_rank(next, other, 0);
            let r = rank(m, other, 0);
            let t = rank(next, other, 0);
            let moved = if r <= i {
                r
            } else {
                r - 1
            };
            if r < m.len() && r != i {
                assert(next[moved] == m[r]);
            }
            if r == i {
                // The key after `k` takes its place.
                if i < next.len() {
                    assert(next[i] == m[i + 1]);
                    assert(m[i].0 < m[i + 1].0);
                }
            }
            if t < moved {
                let pt = if t < i {
                    t
                } else {
                    t + 1
                };
                assert(next[t] == m[pt]);
            } else if t > moved {
                assert(moved < next.len());
                assert(next[moved].0 < other);
                let pm = if moved < i {
                    moved
                } else {
                    moved + 1
                };
                assert(next[moved] == m[pm]);
            }
        }
    }
}

/// A cached attribute with each list of values as a sequence.
pub open spec fn map_view(m: Seq<(Entid, Vec<TypedValue>)>) -> Seq<(Entid, Seq<TypedValue>)> {
    Seq::new(m.len(), |i: int| (m[i].0, m[i].1@))
}

/// The values of the entities once the value `v` of the entity `e` is
/// added after the values that the entity has.
pub open spec fn with_value(m: Seq<(Entid, Seq<TypedValue>)>, e: Entid, v: TypedValue) -> Seq<(Entid, Seq<TypedValue>)> {
    with_entry(
        m,
        e,
        match held(m, e) {
            Some(values) => values.push(v),
            None => seq![v],
        },
    )
}

/// The values of the entities that the first `n` rows give: each row is an
/// entity and one of its values, and the values of an entity stand in the
/// order of the rows.
pub open spec fn grouped(rows: Seq<(Entid, TypedValue)>, n: int) -> Seq<(Entid, Seq<TypedValue>)>
    decreases n,
{
    if n <= 0 || n > rows.len() {
        seq![]
    } else {
        with_value(grouped(rows, n - 1), rows[n - 1].0, rows[n - 1].1)
    }
}

/// The position of the first entry whose key is `k` or greater.
fn rank_of<T>(m: &Vec<(Entid, T)>, k: Entid) -> (r: usize)
    ensures
        r == rank(m@, k, 0),
        r <= m@.len(),
{
    let mut i: usize = 0;
    while i < m.len() && m[i].0 < k
        invariant
            i <= m@.len(),
            rank(m@, k, 0) == rank(m@, k, i as int),
        decreases m@.len() - i,
    {
        i += 1;
    }
    i
}

/// Adds one value of one entity.
fn add_value(m: &mut CacheMap, e: Entid, v: TypedValue)
    requires
        ascending(old(m)@),
    ensures
        ascending(final(m)@),
        map_view(final(m)@) == with_value(map_view(old(m)@), e, v),
{
    proof {
        lemma_map_view_rank(m@, e, 0);
        lemma_with_entry(
            map_view(m@),
            e,
            match held(map_view(m@), e) {
                Some(values) => values.push(v),
                None => seq![v],
            },
            e,
        );
    }
    let i = rank_of(m, e);
    if i < m.len() && m[i].0 == e {
        let (key, mut values) = m.remove(i);
        values.push(v);
        m.insert(i, (key, values));
    } else {
        let mut values: Vec<TypedValue> = Vec::new();
        values.push(v);
        m.insert(i, (e, values));
    }
    assert(map_view(m@) =~= with_value(map_view(old(m)@), e, v));
    assert(ascending(m@)) by {
        assert forall|a: int, b: int| 0 <= a < b < m@.len() implies (#[trigger] m@[a]).0 < (#[trigger] m@[b]).0 by {
            assert(map_view(m@)[a].0 == m@[a].0);
            assert(map_view(m@)[b].0 == m@[b].0);
        }
    }
}

/// The rank of a key is the same among the values and among their views.
pub proof fn lemma_map_view_rank(m: Seq<(Entid, Vec<TypedValue>)>, k: Entid, from: int)
    requires
        0 <= from <= m.len(),
    ensures
        rank(map_view(m), k, from) == rank(m, k, from),
        ascending(m) ==> ascending(map_view(m)),
    decreases m.len() - from,
{
    if from < m.len() && m[from].0 < k {
        lemma_map_view_rank(m, k, from + 1);
    }
    if ascending(m) {
        assert forall|a: int, b: int| 0 <= a < b < map_view(m).len() implies (#[trigger] map_view(m)[a]).0 < (
        #[trigger] map_view(m)[b]).0 by {
            assert(m[a].0 < m[b].0);
        }
    }
}

/// The values of the entities that the rows give.
pub fn group_rows(rows: Vec<(Entid, TypedValue)>) -> (r: CacheMap)
    ensures
        ascending(r@),
        map_view(r@) == grouped(rows@, rows@.len() as int),
{
    let mut out: CacheMap = Vec::new();
    assert(map_view(out@) =~= grouped(rows@, 0));
    let mut i: usize = 0;
    while i < rows.len()
        invariant
            i <= rows@.len(),
            ascending(out@),
            map_view(out@) == grouped(rows@, i as int),
        decreases rows@.len() - i,
    {
        add_value(&mut out, rows[i].0, rows[i].1.clone());
        i += 1;
    }
    out
}

/// The cache: the cached attributes in the order of their ids, each with
/// the values of its entities.
#[derive(Debug, PartialEq, Eq)]
pub struct AttributeCacher {
    pub a_e_vs_cache: Vec<(Entid, CacheMap)>,
}

impl AttributeCacher {
    /// The cache holds each attribute once, and each entity of an attribute
    /// once.
    pub open spec fn wf(&self) -> bool {
        &&& ascending(self.a_e_vs_cache@)
        &&& forall|i: int| 0 <= i < self.a_e_vs_cache@.len() ==> ascending((#[trigger] self.a_e_vs_cache@[i]).1@)
    }

    /// What is cached for the attribute `attribute`.
    pub open spec fn cached(&self, attribute: Entid) -> Option<CacheMap> {
        held(self.a_e_vs_cache@, attribute)
    }

    /// The values cached for the entity `entid` under `attribute`.
    pub open spec fn cached_values(&self, attribute: Entid, entid: Entid) -> Option<Vec<TypedValue>> {
        match self.cached(attribute) {
            Some(map) => held(map@, entid),
            None => None,
        }
    }

    /// A cache that holds nothing.
    pub fn new() -> (r: AttributeCacher)
        ensures
            r.wf(),
            r.a_e_vs_cache@.len() == 0,
    {
        AttributeCacher { a_e_vs_cache: Vec::new() }
    }

    /// Caches the attribute `attribute` with the values that `rows` give:
    /// each row is an entity and one of its values, as the store holds
    /// them. What was cached for the attribute is replaced.
    pub fn register_attribute(&mut self, attribute: Entid, rows: Vec<(Entid, TypedValue)>)
        requires
            old(self).wf(),
        ensures
            final(self).wf(),
            final(self).cached(attribute) matches Some(map) && map_view(map@) == grouped(
                rows@,
                rows@.len() as int,
            ),
            forall|other: Entid| other != attribute ==> final(self).cached(other) == old(self).cached(other),
    {
        let map = group_rows(rows);
        proof {
            lemma_rank(self.a_e_vs_cache@, attribute, 0);
            lemma_with_entry(self.a_e_vs_cache@, attribute, map, attribute);
            assert forall|other: Entid| other != attribute implies held(
                with_entry(self.a_e_vs_cache@, attribute, map),
                other,
            ) == held(self.a_e_vs_cache@, other) by {
                lemma_with_entry(self.a_e_vs_cache@, attribute, map, other);
            }
        }
        let i = rank_of(&self.a_e_vs_cache, attribute);
        if i < self.a_e_vs_cache.len() && self.a_e_vs_cache[i].0 == attribute {
            let _ = self.a_e_vs_cache.remove(i);
            self.a_e_vs_cache.insert(i, (attribute, map));
        } else {
            self.a_e_vs_cache.insert(i, (attribute, map));
        }
        assert(self.a_e_vs_cache@ =~= with_entry(old(self).a_e_vs_cache@, attribute, map));
        assert forall|j: int| 0 <= j < self.a_e_vs_cache@.len() implies ascending(
            (#[trigger] self.a_e_vs_cache@[j]).1@,
        ) by {
            if j < i {
                assert(self.a_e_vs_cache@[j] == old(self).a_e_vs_cache@[j]);
            } else if j > i {
                if old(self).a_e_vs_cache@.len() == self.a_e_vs_cache@.len() {
                    assert(self.a_e_vs_cache@[j] == old(self).a_e_vs_cache@[j]);
                } else {
                    assert(self.a_e_vs_cache@[j] == old(self).a_e_vs_cache@[j - 1]);
                }
            }
        }
    }

    /// Takes the attribute `attribute` out of the cache, and gives what
    /// was cached for it.
    pub fn deregister_attribute(&mut self, attribute: &Entid) -> (r: Option<CacheMap>)
        requires
            old(self).wf(),
        ensures
            final(self).wf(),
            r == old(self).cached(*attribute),
            final(self).cached(*attribute) is None,
            forall|other: Entid| other != *attribute ==> final(self).cached(other) == old(self).cached(other),
    {
        proof {
            lemma_rank(self.a_e_vs_cache@, *attribute, 0);
            lemma_without_entry(self.a_e_vs_cache@, *attribute, *attribute);
            assert forall|other: Entid| other != *attribute implies held(
                without_entry(self.a_e_vs_cache@, *attribute),
                other,
            ) == held(self.a_e_vs_cache@, other) by {
                lemma_without_entry(self.a_e_vs_cache@, *attribute, other);
            }
        }
        let i = rank_of(&self.a_e_vs_cache, *attribute);
        if i < self.a_e_vs_cache.len() && self.a_e_vs_cache[i].0 == *attribute {
            let (_, map) = self.a_e_vs_cache.remove(i);
            assert(self.a_e_vs_cache@ =~= without_entry(old(self).a_e_vs_cache@, *attribute));
            assert forall|j: int| 0 <= j < self.a_e_vs_cache@.len() implies ascending(
                (#[trigger] self.a_e_vs_cache@[j]).1@,
            ) by {
                if j < i {
                    assert(self.a_e_vs_cache@[j] == old(self).a_e_vs_cache@[j]);
                } else {
                    assert(self.a_e_vs_cache@[j] == old(self).a_e_vs_cache@[j + 1]);
                }
            }
            Some(map)
        } else {
            None
        }
    }

    /// What is cached for the attribute `attribute`.
    pub fn get(&self, attribute: &Entid) -> (r: Option<&CacheMap>)
        ensures
            r is Some <==> self.cached(*attribute) is Some,
            r is Some ==> *r->0 == self.cached(*attribute)->0,
    {
        let i = rank_of(&self.a_e_vs_cache, *attribute);
        if i < self.a_e_vs_cache.len() && self.a_e_vs_cache[i].0 == *attribute {
            Some(&self.a_e_vs_cache[i].1)
        } else {
            None
        }
    }

    /// The values cached for the entity `entid` under `attribute`.
    pub fn get_values_for_entid(&self, attribute: &Entid, entid: &Entid) -> (r: Option<&Vec<TypedValue>>)
        ensures
            r is Some <==> self.cached_values(*attribute, *entid) is Some,
            r is Some ==> *r->0 == self.cached_values(*attribute, *entid)->0,
    {
        match self.get(attribute) {
            Some(map) => {
                let i = rank_of(map, *entid);
                if i < map.len() && map[i].0 == *entid {
                    Some(&map[i].1)
                } else {
                    None
                }
            },
            None => None,
        }
    }

    /// The first value cached for the entity `entid` under `attribute`.
    pub fn get_value_for_entid(&self, attribute: &Entid, entid: &Entid) -> (r: Option<&TypedValue>)
        ensures
            match self.cached_values(*attribute, *entid) {
                Some(values) => if values@.len() > 0 {
                    r is Some && *r->0 == values@[0]
                } else {
                    r is None
                },
                None => r is None,
            },
    {
        match self.get_values_for_entid(attribute, entid) {
            Some(values) => {
                if values.len() > 0 {
                    Some(&values[0])
                } else {
                    None
                }
            },
            None => None,
        }
    }
}

} // verus!
