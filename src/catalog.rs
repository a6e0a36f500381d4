//! Keyed entries in insertion order: lookups by key and by key ignoring case,
//! and insertion that replaces the entry of an existing key.

use vstd::prelude::*;
use crate::text::{lower_of, same_text, to_lower};

verus! {

/// The first index whose element satisfies `p`.
pub open spec fn first_where<A>(s: Seq<A>, p: spec_fn(A) -> bool) -> Option<int>
    decreases s.len(),
{
    if s.len() == 0 {
        None
    } else {
        match first_where(s.drop_last(), p) {
            Some(i) => Some(i),
            None => if p(s.last()) {
                Some(s.len() - 1)
            } else {
                None
            },
        }
    }
}

pub proof fn lemma_first_where<A>(s: Seq<A>, p: spec_fn(A) -> bool)
    ensures
        match first_where(s, p) {
            Some(i) => 0 <= i < s.len() && p(s[i]) && forall|j: int| 0 <= j < i ==> !p(#[trigger] s[j]),
            None => forall|j: int| 0 <= j < s.len() ==> !p(#[trigger] s[j]),
        },
    decreases s.len(),
{
    if s.len() > 0 {
        lemma_first_where(s.drop_last(), p);
        match first_where(s.drop_last(), p) {
            Some(i) => {
                assert forall|j: int| 0 <= j < i implies !p(#[trigger] s[j]) by {
                    assert(s[j] == s.drop_last()[j]);
                }
            },
            None => {
                assert forall|j: int| 0 <= j < s.len() - 1 implies !p(#[trigger] s[j]) by {
                    assert(s[j] == s.drop_last()[j]);
                }
            },
        }
    }
}

/// `i` is the first index of an element satisfying `p`.
pub proof fn lemma_first_where_at<A>(s: Seq<A>, p: spec_fn(A) -> bool, i: int)
    requires
        0 <= i < s.len(),
        p(s[i]),
        forall|j: int| 0 <= j < i ==> !p(#[trigger] s[j]),
    ensures
        first_where(s, p) == Some(i),
{
    lemma_first_where(s, p);
    match first_where(s, p) {
        Some(k) => {
            if k < i {
                assert(!p(s[k]));
            } else if k > i {
            }
        },
        None => {
            assert(!p(s[i]));
        },
    }
}

pub proof fn lemma_first_where_none<A>(s: Seq<A>, p: spec_fn(A) -> bool)
    requires
        forall|j: int| 0 <= j < s.len() ==> !p(#[trigger] s[j]),
    ensures
        first_where(s, p) is None,
{
    lemma_first_where(s, p);
}

pub open spec fn keys_of<V>(s: Seq<(Seq<char>, V)>) -> Seq<Seq<char>> {
    s.map_values(|e: (Seq<char>, V)| e.0)
}

pub open spec fn values_of<V>(s: Seq<(Seq<char>, V)>) -> Seq<V> {
    s.map_values(|e: (Seq<char>, V)| e.1)
}

pub open spec fn view_entries<V: View>(v: Seq<(String, V)>) -> Seq<(Seq<char>, V::V)> {
    v.map_values(|e: (String, V)| (e.0@, e.1@))
}

pub open spec fn distinct_keys(keys: Seq<Seq<char>>) -> bool {
    forall|i: int, j: int| 0 <= i < j < keys.len() ==> keys[i] != keys[j]
}

pub open spec fn equal_to(k: Seq<char>) -> spec_fn(Seq<char>) -> bool {
    |x: Seq<char>| x == k
}

pub open spec fn equal_ignoring_case(k: Seq<char>) -> spec_fn(Seq<char>) -> bool {
    |x: Seq<char>| lower_of(x) == lower_of(k)
}

/// The index of the entry whose key is `k`.
pub open spec fn key_position(keys: Seq<Seq<char>>, k: Seq<char>) -> Option<int> {
    first_where(keys, equal_to(k))
}

/// The index of the first key that equals `k` once both are lowercased.
pub open spec fn folded_position(keys: Seq<Seq<char>>, k: Seq<char>) -> Option<int> {
    first_where(keys, equal_ignoring_case(k))
}

/// The entries with `(k, v)` in place of the entry of `k`, or after them all.
pub open spec fn put<V>(s: Seq<(Seq<char>, V)>, k: Seq<char>, v: V) -> Seq<(Seq<char>, V)> {
    match key_position(keys_of(s), k) {
        Some(i) => s.update(i, (k, v)),
        None => s.push((k, v)),
    }
}

/// The entries that putting each of `s` in turn leaves.
pub open spec fn put_all<V>(s: Seq<(Seq<char>, V)>) -> Seq<(Seq<char>, V)>
    decreases s.len(),
{
    if s.len() == 0 {
        Seq::empty()
    } else {
        put(put_all(s.drop_last()), s.last().0, s.last().1)
    }
}

pub proof fn lemma_key_position(keys: Seq<Seq<char>>, k: Seq<char>)
    ensures
        match key_position(keys, k) {
            Some(i) => 0 <= i < keys.len() && keys[i] == k && forall|j: int|
                0 <= j < i ==> #[trigger] keys[j] != k,
            None => forall|j: int| 0 <= j < keys.len() ==> #[trigger] keys[j] != k,
        },
{
    lemma_first_where(keys, equal_to(k));
}

pub fn position_of_key<V: View>(v: &Vec<(String, V)>, k: &str) -> (r: Option<usize>)
    ensures
        r is Some ==> r->0 < v.len(),
        match r {
            Some(i) => key_position(keys_of(view_entries(v@)), k@) == Some(i as int),
            None => key_position(keys_of(view_entries(v@)), k@) is None,
        },
{
    let ghost keys = keys_of(view_entries(v@));
    let ghost p = equal_to(k@);
    let mut i: usize = 0;
    while i < v.len()
        invariant
            0 <= i <= v.len(),
            keys == keys_of(view_entries(v@)),
            p == equal_to(k@),
            forall|j: int| 0 <= j < i ==> !p(#[trigger] keys[j]),
        decreases v.len() - i,
    {
        if same_text(v[i].0.as_str(), k) {
            proof {
                lemma_first_where_at(keys, p, i as int);
            }
            return Some(i);
        }
        i += 1;
    }
    proof {
        lemma_first_where_none(keys, p);
    }
    None
}

pub fn position_ignoring_case<V: View>(v: &Vec<(String, V)>, k: &str) -> (r: Option<usize>)
    ensures
        match r {
            Some(i) => folded_position(keys_of(view_entries(v@)), k@) == Some(i as int),
            None => folded_position(keys_of(view_entries(v@)), k@) is None,
        },
{
    let ghost keys = keys_of(view_entries(v@));
    let ghost p = equal_ignoring_case(k@);
    let folded = to_lower(k);
    let mut i: usize = 0;
    while i < v.len()
        invariant
            0 <= i <= v.len(),
            keys == keys_of(view_entries(v@)),
            p == equal_ignoring_case(k@),
            folded@ == lower_of(k@),
            forall|j: int| 0 <= j < i ==> !p(#[trigger] keys[j]),
        decreases v.len() - i,
    {
        let key_folded = to_lower(v[i].0.as_str());
        if same_text(key_folded.as_str(), folded.as_str()) {
            proof {
                lemma_first_where_at(keys, p, i as int);
            }
            return Some(i);
        }
        i += 1;
    }
    proof {
        lemma_first_where_none(keys, p);
    }
    None
}

/// Puts `(k, x)` in place of the entry of `k`, or after all entries.
pub fn put_entry<V: View>(v: &mut Vec<(String, V)>, k: String, x: V)
    ensures
        view_entries(final(v)@) == put(view_entries(old(v)@), k@, x@),
{
    let ghost s = view_entries(v@);
    let ghost e = (k@, x@);
    match position_of_key(v, k.as_str()) {
        Some(i) => {
            v.set(i, (k, x));
            assert(view_entries(v@) =~= s.update(i as int, e));
        },
        None => {
            v.push((k, x));
            assert(view_entries(v@) =~= s.push(e));
        },
    }
}

pub proof fn lemma_put_distinct<V>(s: Seq<(Seq<char>, V)>, k: Seq<char>, v: V)
    requires
        distinct_keys(keys_of(s)),
    ensures
        distinct_keys(keys_of(put(s, k, v))),
{
    let keys = keys_of(s);
    lemma_key_position(keys, k);
    let t = keys_of(put(s, k, v));
    match key_position(keys, k) {
        Some(i) => {
            assert(t =~= keys);
        },
        None => {
            assert(t =~= keys.push(k));
            assert forall|a: int, b: int| 0 <= a < b < t.len() implies t[a] != t[b] by {
                if b == keys.len() {
                    assert(keys[a] != k);
                } else {
                    assert(t[a] == keys[a] && t[b] == keys[b]);
                }
            }
        },
    }
}

pub proof fn lemma_put_all_distinct<V>(s: Seq<(Seq<char>, V)>)
    ensures
        distinct_keys(keys_of(put_all(s))),
    decreases s.len(),
{
    if s.len() > 0 {
        lemma_put_all_distinct(s.drop_last());
        lemma_put_distinct(put_all(s.drop_last()), s.last().0, s.last().1);
    }
}

/// The entries of `entries`, later ones replacing earlier ones of the same key.
pub fn collect_entries<V: View>(entries: Vec<(String, V)>) -> (r: Vec<(String, V)>)
    ensures
        view_entries(r@) == put_all(view_entries(entries@)),
        distinct_keys(keys_of(view_entries(r@))),
{
    let ghost all = view_entries(entries@);
    let mut rest = entries;
    let mut out: Vec<(String, V)> = Vec::new();
    let ghost n = all.len();
    while rest.len() > 0
        invariant
            rest.len() <= n,
            n == all.len(),
            view_entries(rest@) == all.skip(n - rest.len()),
            view_entries(out@) == put_all(all.take(n - rest.len())),
        decreases rest.len(),
    {
        let ghost i = n - rest.len();
        let ghost prev = view_entries(rest@);
        assert(prev[0] == all[i]);
        let e = rest.remove(0);
        assert(view_entries(rest@) =~= prev.drop_first());
        assert(prev.drop_first() =~= all.skip(i + 1));
        assert(all.take(i + 1).drop_last() =~= all.take(i));
        assert(prev[0] == (e.0@, e.1@));
        put_entry(&mut out, e.0, e.1);
    }
    assert(all.take(n as int) =~= all);
    proof {
        lemma_put_all_distinct(all);
    }
    out
}

} // verus!
