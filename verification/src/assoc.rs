//! Association lists keyed by text: a `Vec` of `(String, value)` pairs with
//! distinct keys, standing for the map that inserting the pairs one after
//! the other would build.
use vstd::prelude::*;

verus! {

/// Entries put into a map one after the other: a later entry replaces an
/// earlier one with the same key.
pub open spec fn entries_map<V>(e: Seq<(Seq<char>, V)>) -> Map<Seq<char>, V>
    decreases e.len(),
{
    if e.len() == 0 {
        Map::empty()
    } else {
        entries_map(e.drop_last()).insert(e.last().0, e.last().1)
    }
}

pub open spec fn entry_views<T: View>(v: Seq<(String, T)>) -> Seq<(Seq<char>, T::V)> {
    Seq::new(v.len(), |i: int| (v[i].0@, v[i].1@))
}

pub open spec fn distinct_keys<V>(e: Seq<(Seq<char>, V)>) -> bool {
    forall|i: int, j: int| 0 <= i < j < e.len() ==> #[trigger] e[i].0 != #[trigger] e[j].0
}

/// With distinct keys, the map holds exactly the entries.
pub proof fn lemma_entries_map_distinct<V>(e: Seq<(Seq<char>, V)>)
    requires
        distinct_keys(e),
    ensures
        forall|j: int| #![trigger e[j]] 0 <= j < e.len() ==> entries_map(e).contains_key(e[j].0) && entries_map(e)[e[j].0]
            == e[j].1,
        forall|k: Seq<char>| #[trigger] entries_map(e).contains_key(k) ==> exists|j: int| 0 <= j < e.len() && e[j].0 == k,
    decreases e.len(),
{
    if e.len() > 0 {
        let p = e.drop_last();
        assert(distinct_keys(p));
        lemma_entries_map_distinct(p);
        assert forall|k: Seq<char>| #[trigger] entries_map(e).contains_key(k) implies exists|j: int|
            0 <= j < e.len() && e[j].0 == k by {
            if k != e.last().0 {
                assert(entries_map(p).contains_key(k));
                let j = choose|j: int| 0 <= j < p.len() && p[j].0 == k;
                assert(e[j].0 == k);
            } else {
                assert(e[e.len() - 1].0 == k);
            }
        }
        assert forall|j: int| #![trigger e[j]] 0 <= j < e.len() implies entries_map(e).contains_key(e[j].0)
            && entries_map(e)[e[j].0] == e[j].1 by {
            if j < e.len() - 1 {
                assert(p[j] == e[j]);
                assert(entries_map(p).contains_key(p[j].0) && entries_map(p)[p[j].0] == p[j].1);
                assert(e[j].0 != e[e.len() - 1].0);
            }
        }
    }
}

/// Puts `(k, m)` into `out`, replacing the entry with key `k` if there is one.
pub fn upsert<T: View>(out: &mut Vec<(String, T)>, k: String, m: T)
    requires
        distinct_keys(entry_views(old(out)@)),
    ensures
        distinct_keys(entry_views(final(out)@)),
        entries_map(entry_views(final(out)@)) == entries_map(entry_views(old(out)@)).insert(k@, m@),
{
    let ghost e0 = entry_views(out@);
    let mut i: usize = 0;
    while i < out.len()
        invariant
            i <= out.len(),
            e0 == entry_views(out@),
            e0 == entry_views(old(out)@),
            distinct_keys(e0),
            forall|j: int| 0 <= j < i ==> out@[j].0@ != k@,
        decreases out.len() - i,
    {
        if crate::text::str_eq(out[i].0.as_str(), k.as_str()) {
            let ghost kv = k@;
            let ghost mv = m@;
            out.set(i, (k, m));
            proof {
                let e1 = entry_views(out@);
                assert(e1 =~= e0.update(i as int, (kv, mv)));
                assert(distinct_keys(e1)) by {
                    assert forall|a: int, b: int| 0 <= a < b < e1.len() implies #[trigger] e1[a].0 != #[trigger] e1[b].0 by {
                        assert(e1[a].0 == e0[a].0);
                        assert(e1[b].0 == e0[b].0);
                    }
                }
                lemma_entries_map_distinct(e0);
                lemma_entries_map_distinct(e1);
                let m0 = entries_map(e0).insert(kv, mv);
                let m1 = entries_map(e1);
                assert forall|key: Seq<char>| #[trigger] m1.contains_key(key) <==> m0.contains_key(key) by {
                    if m1.contains_key(key) {
                        let j = choose|j: int| 0 <= j < e1.len() && e1[j].0 == key;
                        assert(e1[j].0 == e0[j].0);
                    }
                    if m0.contains_key(key) && key != kv {
                        let j = choose|j: int| 0 <= j < e0.len() && e0[j].0 == key;
                        assert(e1[j].0 == e0[j].0);
                    }
                    if key == kv {
                        assert(e1[i as int].0 == kv);
                    }
                }
                assert forall|key: Seq<char>| m1.contains_key(key) implies #[trigger] m1[key] == m0[key] by {
                    let j = choose|j: int| 0 <= j < e1.len() && e1[j].0 == key;
                    assert(m1.contains_key(e1[j].0) && m1[e1[j].0] == e1[j].1);
                    if j != i {
                        assert(e1[j] == e0[j]);
                        assert(e1[j].0 != e1[i as int].0);
                        assert(entries_map(e0).contains_key(e0[j].0) && entries_map(e0)[e0[j].0] == e0[j].1);
                    } else {
                        assert(e1[i as int] == (kv, mv));
                    }
                }
                assert(m1 =~= m0);
            }
            return;
        }
        i += 1;
    }
    let ghost kv = k@;
    let ghost mv = m@;
    out.push((k, m));
    proof {
        let e1 = entry_views(out@);
        assert(e1 =~= e0.push((kv, mv)));
        assert(e1.drop_last() =~= e0);
        assert(distinct_keys(e1)) by {
            assert forall|a: int, b: int| 0 <= a < b < e1.len() implies #[trigger] e1[a].0 != #[trigger] e1[b].0 by {
                if b == e1.len() - 1 {
                    assert(out@[a].0@ != kv);
                } else {
                    assert(e1[a] == e0[a]);
                    assert(e1[b] == e0[b]);
                }
            }
        }
    }
}

/// The position of the entry with key `k`.
pub fn find_key<T>(v: &Vec<(String, T)>, k: &str) -> (r: Option<usize>)
    ensures
        match r {
            Some(i) => i < v.len() && v@[i as int].0@ == k@,
            None => forall|j: int| 0 <= j < v.len() ==> v@[j].0@ != k@,
        },
{
    let mut i: usize = 0;
    while i < v.len()
        invariant
            i <= v.len(),
            forall|j: int| 0 <= j < i ==> v@[j].0@ != k@,
        decreases v.len() - i,
    {
        if crate::text::str_eq(v[i].0.as_str(), k) {
            return Some(i);
        }
        i += 1;
    }
    None
}

} // verus!
