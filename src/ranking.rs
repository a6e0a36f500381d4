//! Orderings of listings: the ranked order of component summaries and the
//! ascending order of distinct texts.

use vstd::prelude::*;
use crate::text::{text_lt, less_text, same_text, lemma_text_lt_irreflexive,
    lemma_text_lt_transitive, lemma_text_lt_total, lemma_text_lt_asymmetric};
use crate::types::{ComponentMetadata, MetadataView, view_strings, view_metadata};

verus! {

broadcast use vstd::seq_lib::group_seq_properties;

/// A summary tagged with whether its name matched the query exactly.
pub type RankedView = (bool, MetadataView);

/// Exact matches come first; within each group, names ascend.
pub open spec fn ranks_before(a: RankedView, b: RankedView) -> bool {
    (a.0 && !b.0) || (a.0 == b.0 && text_lt(a.1.name, b.1.name))
}

/// `x` placed after every element that does not rank after it.
pub open spec fn insert_ranked(s: Seq<RankedView>, x: RankedView) -> Seq<RankedView>
    decreases s.len(),
{
    if s.len() == 0 {
        seq![x]
    } else if ranks_before(x, s.last()) {
        insert_ranked(s.drop_last(), x).push(s.last())
    } else {
        s.push(x)
    }
}

/// The stable sort of `s` by rank.
pub open spec fn sort_ranked(s: Seq<RankedView>) -> Seq<RankedView>
    decreases s.len(),
{
    if s.len() == 0 {
        s
    } else {
        insert_ranked(sort_ranked(s.drop_last()), s.last())
    }
}

pub open spec fn in_rank_order(s: Seq<RankedView>) -> bool {
    forall|i: int, j: int| 0 <= i < j < s.len() ==> !ranks_before(#[trigger] s[j], #[trigger] s[i])
}

pub open spec fn view_ranked(v: Seq<(bool, ComponentMetadata)>) -> Seq<RankedView> {
    v.map_values(|e: (bool, ComponentMetadata)| (e.0, e.1@))
}

/// At most `limit` leading elements, all of them when there is no limit.
pub open spec fn limited<A>(s: Seq<A>, limit: Option<usize>) -> Seq<A> {
    match limit {
        Some(n) => if n < s.len() {
            s.take(n as int)
        } else {
            s
        },
        None => s,
    }
}

pub proof fn lemma_ranks_before_asymmetric(a: RankedView, b: RankedView)
    requires
        ranks_before(a, b),
    ensures
        !ranks_before(b, a),
{
    if a.0 == b.0 {
        lemma_text_lt_asymmetric(a.1.name, b.1.name);
    }
}

/// Not ranking before is transitive: the order is a strict weak order.
pub proof fn lemma_not_before_transitive(a: RankedView, b: RankedView, c: RankedView)
    requires
        !ranks_before(a, b),
        !ranks_before(b, c),
    ensures
        !ranks_before(a, c),
{
    lemma_text_lt_total(a.1.name, b.1.name);
    lemma_text_lt_total(b.1.name, c.1.name);
    if ranks_before(a, c) && a.0 == c.0 {
        if a.0 == b.0 {
            if b.1.name == a.1.name {
            } else {
                lemma_text_lt_transitive(b.1.name, a.1.name, c.1.name);
                if b.1.name != c.1.name {
                    lemma_text_lt_asymmetric(b.1.name, c.1.name);
                } else {
                    lemma_text_lt_irreflexive(b.1.name);
                }
            }
        }
    }
}

pub proof fn lemma_insert_ranked_at(s: Seq<RankedView>, x: RankedView, j: int)
    requires
        0 <= j <= s.len(),
        forall|k: int| j <= k < s.len() ==> ranks_before(x, #[trigger] s[k]),
        j == 0 || !ranks_before(x, s[j - 1]),
    ensures
        insert_ranked(s, x) == s.insert(j, x),
    decreases s.len(),
{
    if s.len() == 0 {
        assert(s.insert(j, x) =~= seq![x]);
    } else if j == s.len() {
        assert(s.insert(j, x) =~= s.push(x));
    } else {
        assert(ranks_before(x, s[s.len() - 1]));
        lemma_insert_ranked_at(s.drop_last(), x, j);
        assert(s.drop_last().insert(j, x).push(s.last()) =~= s.insert(j, x));
    }
}

pub proof fn lemma_insert_ranked_multiset(s: Seq<RankedView>, x: RankedView)
    ensures
        insert_ranked(s, x).to_multiset() =~= s.to_multiset().insert(x),
        insert_ranked(s, x).len() == s.len() + 1,
    decreases s.len(),
{
    if s.len() > 0 && ranks_before(x, s.last()) {
        lemma_insert_ranked_multiset(s.drop_last(), x);
        assert(s =~= s.drop_last().push(s.last()));
    }
}

pub proof fn lemma_sort_ranked_multiset(s: Seq<RankedView>)
    ensures
        sort_ranked(s).to_multiset() =~= s.to_multiset(),
        sort_ranked(s).len() == s.len(),
    decreases s.len(),
{
    if s.len() > 0 {
        lemma_sort_ranked_multiset(s.drop_last());
        lemma_insert_ranked_multiset(sort_ranked(s.drop_last()), s.last());
        assert(s =~= s.drop_last().push(s.last()));
    }
}

pub proof fn lemma_insert_ranked_in_order(s: Seq<RankedView>, x: RankedView)
    requires
        in_rank_order(s),
    ensures
        in_rank_order(insert_ranked(s, x)),
    decreases s.len(),
{
    if s.len() == 0 {
    } else if ranks_before(x, s.last()) {
        let d = s.drop_last();
        let l = s.last();
        lemma_insert_ranked_in_order(d, x);
        lemma_insert_ranked_multiset(d, x);
        let r = insert_ranked(d, x);
        assert forall|k: int| 0 <= k < r.len() implies !ranks_before(l, #[trigger] r[k]) by {
            assert(r.to_multiset().count(r[k]) > 0);
            if r[k] == x {
                lemma_ranks_before_asymmetric(x, l);
            } else {
                assert(d.to_multiset().count(r[k]) > 0);
                assert(d.contains(r[k]));
                let m = choose|m: int| 0 <= m < d.len() && d[m] == r[k];
                assert(s[m] == d[m]);
            }
        }
        let t = r.push(l);
        assert forall|i: int, j: int| 0 <= i < j < t.len() implies !ranks_before(
            #[trigger] t[j],
            #[trigger] t[i],
        ) by {
            if j < r.len() {
                assert(t[j] == r[j] && t[i] == r[i]);
            } else {
                assert(t[i] == r[i]);
            }
        }
    } else {
        let t = s.push(x);
        assert forall|i: int, j: int| 0 <= i < j < t.len() implies !ranks_before(
            #[trigger] t[j],
            #[trigger] t[i],
        ) by {
            if j == s.len() && i < s.len() - 1 {
                assert(!ranks_before(s[s.len() - 1], s[i]));
                lemma_not_before_transitive(x, s[s.len() - 1], s[i]);
            }
        }
    }
}

pub proof fn lemma_sort_ranked_in_order(s: Seq<RankedView>)
    ensures
        in_rank_order(sort_ranked(s)),
    decreases s.len(),
{
    if s.len() > 0 {
        lemma_sort_ranked_in_order(s.drop_last());
        lemma_insert_ranked_in_order(sort_ranked(s.drop_last()), s.last());
    }
}

pub fn ranked_before(a: &(bool, ComponentMetadata), b: &(bool, ComponentMetadata)) -> (r: bool)
    ensures
        r == ranks_before((a.0, a.1@), (b.0, b.1@)),
{
    if a.0 != b.0 {
        a.0
    } else {
        less_text(a.1.name.as_str(), b.1.name.as_str())
    }
}

/// Places `x` after every element that does not rank after it.
pub fn insert_by_rank(v: &mut Vec<(bool, ComponentMetadata)>, x: (bool, ComponentMetadata))
    ensures
        view_ranked(final(v)@) == insert_ranked(view_ranked(old(v)@), (x.0, x.1@)),
{
    let ghost s = view_ranked(v@);
    let ghost xv = (x.0, x.1@);
    let mut j = v.len();
    while j > 0 && ranked_before(&x, &v[j - 1])
        invariant
            0 <= j <= v.len(),
            s == view_ranked(v@),
            xv == (x.0, x.1@),
            forall|k: int| j <= k < s.len() ==> ranks_before(xv, #[trigger] s[k]),
        decreases j,
    {
        j -= 1;
    }
    proof {
        lemma_insert_ranked_at(s, xv, j as int);
    }
    v.insert(j, x);
    assert(view_ranked(v@) =~= s.insert(j as int, xv));
}

/// The summaries of the first `limit` ranked entries.
pub fn take_summaries(v: &Vec<(bool, ComponentMetadata)>, limit: Option<usize>) -> (r: Vec<
    ComponentMetadata,
>)
    ensures
        view_metadata(r@) == limited(
            view_ranked(v@).map_values(|e: RankedView| e.1),
            limit,
        ),
{
    let n = match limit {
        Some(l) => if l < v.len() {
            l
        } else {
            v.len()
        },
        None => v.len(),
    };
    let ghost whole = view_ranked(v@).map_values(|e: RankedView| e.1);
    let mut r: Vec<ComponentMetadata> = Vec::new();
    let mut i: usize = 0;
    while i < n
        invariant
            0 <= i <= n <= v.len(),
            whole == view_ranked(v@).map_values(|e: RankedView| e.1),
            r@.len() == i,
            forall|k: int| 0 <= k < i ==> #[trigger] r@[k]@ == whole[k],
        decreases n - i,
    {
        let m = v[i].1.clone();
        assert(whole[i as int] == m@);
        r.push(m);
        i += 1;
    }
    assert(view_metadata(r@) =~= whole.take(n as int));
    assert(whole.take(n as int) =~= limited(whole, limit));
    r
}

/// Every two neighbours ascend strictly: ascending and free of repeats.
pub open spec fn strictly_ascending(s: Seq<Seq<char>>) -> bool {
    forall|i: int, j: int| 0 <= i < j < s.len() ==> text_lt(#[trigger] s[i], #[trigger] s[j])
}

/// Adds `t` to an ascending list of distinct texts, unless it is already there.
pub fn insert_ascending(v: &mut Vec<String>, t: String)
    requires
        strictly_ascending(view_strings(old(v)@)),
    ensures
        strictly_ascending(view_strings(final(v)@)),
        forall|e: Seq<char>| #[trigger] view_strings(final(v)@).contains(e) <==> (view_strings(
            old(v)@,
        ).contains(e) || e == t@),
{
    let ghost s = view_strings(v@);
    let mut j: usize = 0;
    while j < v.len() && less_text(v[j].as_str(), t.as_str())
        invariant
            0 <= j <= v.len(),
            s == view_strings(v@),
            strictly_ascending(s),
            forall|k: int| 0 <= k < j ==> text_lt(#[trigger] s[k], t@),
        decreases v.len() - j,
    {
        j += 1;
    }
    if j < v.len() && same_text(v[j].as_str(), t.as_str()) {
        assert forall|e: Seq<char>| #[trigger] s.contains(e) <==> (s.contains(e) || e == t@) by {
            if e == t@ {
                assert(s[j as int] == e);
            }
        }
        return;
    }
    proof {
        if j < s.len() {
            lemma_text_lt_total(s[j as int], t@);
        }
    }
    let ghost tv = t@;
    v.insert(j, t);
    let ghost u = view_strings(v@);
    assert(u =~= s.insert(j as int, tv));
    assert forall|a: int, b: int| 0 <= a < b < u.len() implies text_lt(
        #[trigger] u[a],
        #[trigger] u[b],
    ) by {
        if a < j && b == j {
        } else if a < j && b > j {
            assert(u[b] == s[b - 1]);
        } else if a == j {
            assert(u[b] == s[b - 1]);
            if b - 1 > j {
                assert(text_lt(s[j as int], s[b - 1]));
                lemma_text_lt_transitive(tv, s[j as int], s[b - 1]);
            }
        } else if b < j {
            assert(u[a] == s[a] && u[b] == s[b]);
        } else {
            assert(u[a] == s[a - 1] && u[b] == s[b - 1]);
        }
    }
    assert forall|e: Seq<char>| #[trigger] u.contains(e) <==> (s.contains(e) || e == tv) by {
        if u.contains(e) {
            let k = choose|k: int| 0 <= k < u.len() && u[k] == e;
            if k < j {
                assert(s[k] == e);
            } else if k > j {
                assert(s[k - 1] == e);
            }
        }
        if s.contains(e) {
            let k = choose|k: int| 0 <= k < s.len() && s[k] == e;
            if k < j {
                assert(u[k] == e);
            } else {
                assert(u[k + 1] == e);
            }
        }
        if e == tv {
            assert(u[j as int] == e);
        }
    }
}

} // verus!
