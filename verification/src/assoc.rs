//! Name-keyed tables held as lists of entries, each name at most once.

use vstd::prelude::*;
use crate::text::strs;

verus! {

/// The names of the entries, in order.
pub open spec fn names_of<V>(e: Seq<(String, V)>) -> Seq<Seq<char>> {
    e.map_values(|x: (String, V)| x.0@)
}

/// No name occurs twice.
pub open spec fn distinct_names<V>(e: Seq<(String, V)>) -> bool {
    forall|i: int, j: int| 0 <= i < j < e.len() ==> (#[trigger] e[i]).0@ != (#[trigger] e[j]).0@
}

/// The value stored under `k`.
pub open spec fn lookup<V>(e: Seq<(String, V)>, k: Seq<char>) -> Option<V>
    decreases e.len(),
{
    if e.len() == 0 {
        None
    } else if e.last().0@ == k {
        Some(e.last().1)
    } else {
        lookup(e.drop_last(), k)
    }
}

proof fn lemma_lookup_some<V>(e: Seq<(String, V)>, k: Seq<char>, i: int)
    requires
        distinct_names(e),
        0 <= i < e.len(),
        e[i].0@ == k,
    ensures
        lookup(e, k) == Some(e[i].1),
    decreases e.len(),
{
    if i < e.len() - 1 {
        lemma_lookup_some(e.drop_last(), k, i);
    }
}

proof fn lemma_lookup_none<V>(e: Seq<(String, V)>, k: Seq<char>)
    requires
        forall|i: int| 0 <= i < e.len() ==> (#[trigger] e[i]).0@ != k,
    ensures
        lookup(e, k) is None,
    decreases e.len(),
{
    if e.len() > 0 {
        lemma_lookup_none(e.drop_last(), k);
    }
}

/// The position of the entry named `k`.
pub fn position<V>(e: &Vec<(String, V)>, k: &str) -> (r: Option<usize>)
    ensures
        match r {
            Some(i) => i < e@.len() && e@[i as int].0@ == k@,
            None => forall|i: int| 0 <= i < e@.len() ==> (#[trigger] e@[i]).0@ != k@,
        },
{
    let ks = k.to_string();
    let mut i: usize = 0;
    while i < e.len()
        invariant
            i <= e@.len(),
            ks@ == k@,
            forall|j: int| 0 <= j < i ==> (#[trigger] e@[j]).0@ != k@,
        decreases e.len() - i,
    {
        if e[i].0 == ks {
            return Some(i);
        }
        i = i + 1;
    }
    None
}

/// The value stored under `k`.
pub fn get<'a, V>(e: &'a Vec<(String, V)>, k: &str) -> (r: Option<&'a V>)
    requires
        distinct_names(e@),
    ensures
        match r {
            Some(v) => lookup(e@, k@) == Some(*v),
            None => lookup(e@, k@) is None,
        },
{
    match position(e, k) {
        Some(i) => {
            proof {
                lemma_lookup_some(e@, k@, i as int);
            }
            Some(&e[i].1)
        },
        None => {
            proof {
                lemma_lookup_none(e@, k@);
            }
            None
        },
    }
}

/// Store `v` under `k`, replacing what was stored there.
pub fn upsert<V>(e: &mut Vec<(String, V)>, k: String, v: V)
    requires
        distinct_names(old(e)@),
    ensures
        distinct_names(final(e)@),
        lookup(final(e)@, k@) == Some(v),
        forall|n: Seq<char>| n != k@ ==> lookup(#[trigger] final(e)@, n) == lookup(old(e)@, n),
        names_of(final(e)@).to_set() == names_of(old(e)@).to_set().insert(k@),
        final(e)@.len() == if lookup(old(e)@, k@) is Some { old(e)@.len() } else { old(e)@.len() + 1 },
{
    let ghost before = e@;
    match position(e, k.as_str()) {
        Some(i) => {
            proof {
                lemma_lookup_some(before, k@, i as int);
            }
            e.set(i, (k, v));
            proof {
                let after = e@;
                assert forall|a: int, b: int| 0 <= a < b < after.len() implies (#[trigger] after[a]).0@ != (#[trigger] after[b]).0@ by {
                    assert(before[a].0@ != before[b].0@ || a == b);
                }
                lemma_lookup_some(after, k@, i as int);
                assert forall|n: Seq<char>| n != k@ implies lookup(#[trigger] e@, n) == lookup(before, n) by {
                    lemma_lookup_update(before, i as int, (k, v), n);
                }
                assert(names_of(after) =~= names_of(before));
                assert(names_of(before).contains(k@)) by {
                    assert(names_of(before)[i as int] == k@);
                }
                assert(names_of(after).to_set() =~= names_of(before).to_set().insert(k@));
            }
        },
        None => {
            let ghost kk = k@;
            proof {
                lemma_lookup_none(before, kk);
            }
            e.push((k, v));
            proof {
                let after = e@;
                assert forall|a: int, b: int| 0 <= a < b < after.len() implies (#[trigger] after[a]).0@ != (#[trigger] after[b]).0@ by {
                    if b == after.len() - 1 {
                        assert(before[a].0@ != kk);
                    } else {
                        assert(before[a].0@ != before[b].0@);
                    }
                }
                assert(after.drop_last() =~= before);
                assert(names_of(after) =~= names_of(before).push(kk));
                names_of(before).lemma_push_to_set_commute(kk);
            }
        },
    }
}

proof fn lemma_lookup_update<V>(e: Seq<(String, V)>, i: int, x: (String, V), n: Seq<char>)
    requires
        0 <= i < e.len(),
        e[i].0@ == x.0@,
        n != x.0@,
    ensures
        lookup(e.update(i, x), n) == lookup(e, n),
    decreases e.len(),
{
    if i < e.len() - 1 {
        assert(e.update(i, x).drop_last() =~= e.drop_last().update(i, x));
        lemma_lookup_update(e.drop_last(), i, x, n);
    } else {
        assert(e.update(i, x).drop_last() =~= e.drop_last());
    }
}

/// `keys[i]` does not occur again after position `i`.
pub open spec fn last_of(keys: Seq<Seq<char>>, i: int) -> bool {
    forall|j: int| i < j < keys.len() ==> keys[j] != keys[i]
}

/// The entries are what storing a value under each key in turn leaves:
/// each key once, holding a value that `value_ok` accepts for the last
/// position of that key.
pub open spec fn stored_in_order<V>(keys: Seq<Seq<char>>, value_ok: spec_fn(int, V) -> bool, e: Seq<(String, V)>) -> bool {
    &&& distinct_names(e)
    &&& forall|k: Seq<char>| #[trigger] lookup(e, k) is Some <==> keys.contains(k)
    &&& forall|i: int|
        0 <= i < keys.len() && last_of(keys, i) ==> (lookup(e, #[trigger] keys[i]) matches Some(x) && value_ok(i, x))
}

/// Nothing stored: no keys, no entries.
pub proof fn lemma_stored_empty<V>(keys: Seq<Seq<char>>, value_ok: spec_fn(int, V) -> bool, e: Seq<(String, V)>)
    requires
        e.len() == 0,
    ensures
        stored_in_order(keys.take(0), value_ok, e),
{
    assert forall|k: Seq<char>| #[trigger] lookup(e, k) is Some <==> keys.take(0).contains(k) by {
        if keys.take(0).contains(k) {
            let j = choose|j: int| 0 <= j < keys.take(0).len() && keys.take(0)[j] == k;
        }
    }
}

/// Storing the value for the next key keeps the entries what storing in
/// order leaves.
pub proof fn lemma_stored_step<V>(
    keys: Seq<Seq<char>>,
    value_ok: spec_fn(int, V) -> bool,
    i: int,
    before: Seq<(String, V)>,
    after: Seq<(String, V)>,
    x: V,
)
    requires
        0 <= i < keys.len(),
        stored_in_order(keys.take(i), value_ok, before),
        distinct_names(after),
        lookup(after, keys[i]) == Some(x),
        value_ok(i, x),
        forall|n: Seq<char>| n != keys[i] ==> #[trigger] lookup(after, n) == lookup(before, n),
    ensures
        stored_in_order(keys.take(i + 1), value_ok, after),
{
    let p = keys.take(i);
    let t = keys.take(i + 1);
    assert(t =~= p.push(keys[i]));
    assert forall|k: Seq<char>| #[trigger] lookup(after, k) is Some <==> t.contains(k) by {
        if k != keys[i] {
            assert(lookup(after, k) == lookup(before, k));
            if t.contains(k) {
                let j = choose|j: int| 0 <= j < t.len() && t[j] == k;
                assert(p[j] == k);
            }
            if p.contains(k) {
                let j = choose|j: int| 0 <= j < p.len() && p[j] == k;
                assert(t[j] == k);
            }
        } else {
            assert(t[i] == k);
        }
    }
    assert forall|a: int| 0 <= a < t.len() && last_of(t, a) implies (lookup(after, #[trigger] t[a]) matches Some(y)
        && value_ok(a, y)) by {
        if a < i {
            assert(t[i] != t[a]);
            assert(t[a] == p[a]);
            assert forall|j: int| a < j < p.len() implies p[j] != p[a] by {
                assert(t[j] == p[j]);
            }
            assert(last_of(p, a));
            assert(lookup(after, t[a]) == lookup(before, p[a]));
        }
    }
}

/// Removing an entry keeps the names distinct.
pub proof fn lemma_remove_keeps_distinct<V>(e: Seq<(String, V)>, i: int)
    requires
        distinct_names(e),
        0 <= i < e.len(),
    ensures
        distinct_names(e.remove(i)),
{
    let after = e.remove(i);
    assert forall|a: int, b: int| 0 <= a < b < after.len() implies (#[trigger] after[a]).0@ != (#[trigger] after[b]).0@ by {
        if a < i {
            if b < i {
                assert(e[a].0@ != e[b].0@);
            } else {
                assert(e[a].0@ != e[b + 1].0@);
            }
        } else {
            assert(e[a + 1].0@ != e[b + 1].0@);
        }
    }
}

/// Remove the entry named `k`, if there is one.
pub fn remove_entry<V>(e: &mut Vec<(String, V)>, k: &str)
    requires
        distinct_names(old(e)@),
    ensures
        distinct_names(final(e)@),
        lookup(final(e)@, k@) is None,
        forall|n: Seq<char>| n != k@ ==> lookup(#[trigger] final(e)@, n) == lookup(old(e)@, n),
        final(e)@.len() == if lookup(old(e)@, k@) is Some { old(e)@.len() - 1 } else { old(e)@.len() as int },
{
    let ghost before = e@;
    match position(e, k) {
        Some(i) => {
            proof {
                lemma_lookup_some(before, k@, i as int);
            }
            let _ = e.remove(i);
            proof {
                let after = e@;
                assert(after =~= before.remove(i as int));
                lemma_remove_keeps_distinct(before, i as int);
                assert forall|j: int| 0 <= j < after.len() implies (#[trigger] after[j]).0@ != k@ by {
                    if j < i {
                        assert(before[j].0@ != before[i as int].0@);
                    } else {
                        assert(before[j + 1].0@ != before[i as int].0@);
                    }
                }
                lemma_lookup_none(after, k@);
                assert forall|n: Seq<char>| n != k@ implies #[trigger] lookup(after, n) == lookup(before, n) by {
                    lemma_lookup_remove(before, i as int, n);
                }
            }
        },
        None => {
            proof {
                lemma_lookup_none(before, k@);
            }
        },
    }
}

proof fn lemma_lookup_remove<V>(e: Seq<(String, V)>, i: int, n: Seq<char>)
    requires
        0 <= i < e.len(),
        e[i].0@ != n,
    ensures
        lookup(e.remove(i), n) == lookup(e, n),
    decreases e.len(),
{
    if i < e.len() - 1 {
        assert(e.remove(i).drop_last() =~= e.drop_last().remove(i));
        assert(e.remove(i).last() == e.last());
        lemma_lookup_remove(e.drop_last(), i, n);
    } else {
        assert(e.remove(i) =~= e.drop_last());
    }
}

/// The names of the entries, in order.
pub fn names<V>(e: &Vec<(String, V)>) -> (r: Vec<String>)
    ensures
        strs(r@) == names_of(e@),
{
    let mut r: Vec<String> = Vec::new();
    let mut i: usize = 0;
    while i < e.len()
        invariant
            i <= e@.len(),
            strs(r@) == names_of(e@).take(i as int),
        decreases e.len() - i,
    {
        let ghost old_r = r@;
        let c = e[i].0.clone();
        r.push(c);
        proof {
            assert(strs(r@) =~= strs(old_r).push(c@));
            assert(names_of(e@).take(i + 1) =~= names_of(e@).take(i as int).push(e@[i as int].0@));
        }
        i = i + 1;
    }
    assert(names_of(e@).take(i as int) =~= names_of(e@));
    r
}

} // verus!
