//! What holds of the server's operations across all catalogs and requests.

use vstd::prelude::*;
use vstd::multiset::Multiset;
use crate::catalog::{key_position, lemma_key_position, lemma_first_where,
    equal_ignoring_case};
use crate::filters::listing_admits;
use crate::ranking::{in_rank_order, lemma_ranks_before_asymmetric, RankedView, sort_ranked, ranks_before, lemma_sort_ranked_in_order,
    lemma_sort_ranked_multiset, limited, strictly_ascending};
use crate::render::{component_text, prop_line};
use crate::server::{listing_candidates, listed, search_candidates, searched, lookup,
    carries_tag, ReactComponentServer};
use crate::text::{contains_text, has_prefix, lower_of, text_lt, lemma_contains_self,
    lemma_contains_extend_left, lemma_contains_extend_right, lemma_contains_transitive,
    lemma_joined_contains, joined, lemma_text_lt_irreflexive, lemma_text_lt_asymmetric, lemma_text_lt_total};
use crate::types::{ComponentView, MetadataView, PropView, metadata_of};

verus! {

broadcast use vstd::seq_lib::group_seq_properties;

/// `e` summarizes a component of `cs` that a listing with these filters admits.
pub open spec fn summarizes_admitted(
    cs: Seq<ComponentView>,
    e: MetadataView,
    category: Option<Seq<char>>,
    tags: Option<Seq<Seq<char>>>,
    search: Option<Seq<char>>,
) -> bool {
    exists|k: int|
        0 <= k < cs.len() && listing_admits(cs[k], category, tags, search) && #[trigger] metadata_of(
            cs[k],
        ) == e
}

proof fn lemma_listing_candidates(
    cs: Seq<ComponentView>,
    category: Option<Seq<char>>,
    tags: Option<Seq<Seq<char>>>,
    search: Option<Seq<char>>,
)
    ensures
        forall|i: int|
            0 <= i < listing_candidates(cs, category, tags, search).len() ==> {
                let e = #[trigger] listing_candidates(cs, category, tags, search)[i];
                !e.0 && summarizes_admitted(cs, e.1, category, tags, search)
            },
    decreases cs.len(),
{
    if cs.len() > 0 {
        let d = cs.drop_last();
        lemma_listing_candidates(d, category, tags, search);
        let c = listing_candidates(cs, category, tags, search);
        let rest = listing_candidates(d, category, tags, search);
        assert forall|i: int| 0 <= i < c.len() implies {
            let e = #[trigger] c[i];
            !e.0 && summarizes_admitted(cs, e.1, category, tags, search)
        } by {
            if i < rest.len() {
                assert(c[i] == rest[i]);
                let k = choose|k: int|
                    0 <= k < d.len() && listing_admits(d[k], category, tags, search)
                        && #[trigger] metadata_of(d[k]) == rest[i].1;
                assert(cs[k] == d[k]);
            } else {
                assert(metadata_of(cs[cs.len() - 1]) == c[i].1);
            }
        }
    }
}

/// A listing ascends by name and summarizes only components its filters
/// admit, each admitted component once (before the summaries are taken, the
/// unlimited listing is a rearrangement of the admitted entries); with a limit `n` it is the first `min(n, count)` summaries of the
/// listing without a limit, where `count` is the number of admitted
/// components.
pub proof fn lemma_listing_order_subset_limit(
    cs: Seq<ComponentView>,
    category: Option<Seq<char>>,
    tags: Option<Seq<Seq<char>>>,
    search: Option<Seq<char>>,
    limit: Option<usize>,
)
    ensures
        ({
            let r = listed(cs, category, tags, search, limit);
            let full = listed(cs, category, tags, search, None);
            let count = listing_candidates(cs, category, tags, search).len();
            &&& forall|i: int, j: int|
                0 <= i < j < r.len() ==> !text_lt(#[trigger] r[j].name, #[trigger] r[i].name)
            &&& forall|i: int|
                0 <= i < r.len() ==> summarizes_admitted(cs, #[trigger] r[i], category, tags, search)
            &&& full.len() == count
            &&& sort_ranked(listing_candidates(cs, category, tags, search)).to_multiset()
                == listing_candidates(cs, category, tags, search).to_multiset()
            &&& r.len() == match limit {
                Some(n) => if n < count {
                    n as nat
                } else {
                    count
                },
                None => count,
            }
            &&& r == full.take(r.len() as int)
        }),
{
    let c = listing_candidates(cs, category, tags, search);
    let s = sort_ranked(c);
    lemma_sort_ranked_in_order(c);
    lemma_sort_ranked_multiset(c);
    lemma_listing_candidates(cs, category, tags, search);
    let full = s.map_values(|e: RankedView| e.1);
    let r = limited(full, limit);
    assert forall|i: int| 0 <= i < s.len() implies !(#[trigger] s[i]).0
        && summarizes_admitted(cs, s[i].1, category, tags, search) by {
        assert(s.to_multiset().count(s[i]) > 0);
        assert(c.contains(s[i]));
        let m = choose|m: int| 0 <= m < c.len() && c[m] == s[i];
        assert(c[m] == s[i]);
    }
    assert forall|i: int, j: int| 0 <= i < j < r.len() implies !text_lt(
        #[trigger] r[j].name,
        #[trigger] r[i].name,
    ) by {
        assert(r[i] == s[i].1 && r[j] == s[j].1);
        assert(!ranks_before(s[j], s[i]));
    }
    assert forall|i: int| 0 <= i < r.len() implies summarizes_admitted(
        cs,
        #[trigger] r[i],
        category,
        tags,
        search,
    ) by {
        assert(r[i] == s[i].1);
    }
    assert(full.take(r.len() as int) =~= r);
}

proof fn lemma_search_candidates(
    cs: Seq<ComponentView>,
    query: Seq<char>,
    categories: Option<Seq<Seq<char>>>,
    tags: Option<Seq<Seq<char>>>,
)
    ensures
        forall|i: int|
            0 <= i < search_candidates(cs, query, categories, tags).len() ==> {
                let e = #[trigger] search_candidates(cs, query, categories, tags)[i];
                e.0 == (lower_of(e.1.name) == lower_of(query))
            },
    decreases cs.len(),
{
    if cs.len() > 0 {
        lemma_search_candidates(cs.drop_last(), query, categories, tags);
        let c = search_candidates(cs, query, categories, tags);
        let rest = search_candidates(cs.drop_last(), query, categories, tags);
        assert forall|i: int| 0 <= i < c.len() implies {
            let e = #[trigger] c[i];
            e.0 == (lower_of(e.1.name) == lower_of(query))
        } by {
            if i < rest.len() {
                assert(c[i] == rest[i]);
            }
        }
    }
}

/// In a search, every summary whose name equals the query ignoring case
/// comes before every summary whose name does not; within each of the two
/// groups names ascend.
pub proof fn lemma_search_exact_first(
    cs: Seq<ComponentView>,
    query: Seq<char>,
    categories: Option<Seq<Seq<char>>>,
    tags: Option<Seq<Seq<char>>>,
    limit: Option<usize>,
)
    ensures
        ({
            let r = searched(cs, query, categories, tags, limit);
            &&& forall|i: int, j: int|
                0 <= i < j < r.len() && lower_of(#[trigger] r[j].name) == lower_of(query)
                    ==> lower_of(#[trigger] r[i].name) == lower_of(query)
            &&& forall|i: int, j: int|
                0 <= i < j < r.len() && (lower_of(r[i].name) == lower_of(query)) == (lower_of(
                    r[j].name,
                ) == lower_of(query)) ==> !text_lt(#[trigger] r[j].name, #[trigger] r[i].name)
        }),
{
    let c = search_candidates(cs, query, categories, tags);
    let s = sort_ranked(c);
    lemma_sort_ranked_in_order(c);
    lemma_sort_ranked_multiset(c);
    lemma_search_candidates(cs, query, categories, tags);
    let r = searched(cs, query, categories, tags, limit);
    assert forall|i: int| 0 <= i < s.len() implies (#[trigger] s[i]).0 == (lower_of(s[i].1.name)
        == lower_of(query)) by {
        assert(s.to_multiset().count(s[i]) > 0);
        assert(c.contains(s[i]));
        let m = choose|m: int| 0 <= m < c.len() && c[m] == s[i];
        assert(c[m] == s[i]);
    }
    assert forall|i: int, j: int|
        0 <= i < j < r.len() && lower_of(#[trigger] r[j].name) == lower_of(query) implies lower_of(
        #[trigger] r[i].name,
    ) == lower_of(query) by {
        assert(r[i] == s[i].1 && r[j] == s[j].1);
        assert(!ranks_before(s[j], s[i]));
    }
    assert forall|i: int, j: int|
        0 <= i < j < r.len() && (lower_of(r[i].name) == lower_of(query)) == (lower_of(r[j].name)
            == lower_of(query)) implies !text_lt(#[trigger] r[j].name, #[trigger] r[i].name) by {
        assert(r[i] == s[i].1 && r[j] == s[j].1);
        assert(!ranks_before(s[j], s[i]));
    }
}

/// A name that is no key but equals exactly one key ignoring case finds the
/// entry that key finds.
pub proof fn lemma_lookup_ignoring_case(server: ReactComponentServer, name: Seq<char>, i: int)
    requires
        server.wf(),
        0 <= i < server.component_keys().len(),
        !server.component_keys().contains(name),
        lower_of(server.component_keys()[i]) == lower_of(name),
        forall|j: int|
            0 <= j < server.component_keys().len() && j != i ==> lower_of(
                #[trigger] server.component_keys()[j],
            ) != lower_of(name),
    ensures
        lookup(server.component_keys(), name) == Some(i),
        lookup(server.component_keys(), server.component_keys()[i]) == Some(i),
{
    let keys = server.component_keys();
    lemma_key_position(keys, name);
    lemma_key_position(keys, keys[i]);
    lemma_first_where(keys, equal_ignoring_case(name));
    match key_position(keys, name) {
        Some(k) => {
            assert(keys.contains(name));
        },
        None => {},
    }
}

/// Reads keep no state of their own: two servers over the same entries
/// answer every listing, search, lookup and resource read alike.
pub proof fn lemma_reads_depend_on_entries_only(
    s1: ReactComponentServer,
    s2: ReactComponentServer,
    category: Option<Seq<char>>,
    tags: Option<Seq<Seq<char>>>,
    search: Option<Seq<char>>,
    limit: Option<usize>,
    query: Seq<char>,
    categories: Option<Seq<Seq<char>>>,
    name: Seq<char>,
    uri: Seq<char>,
)
    requires
        s1.component_entries() == s2.component_entries(),
        s1.doc_entries() == s2.doc_entries(),
    ensures
        listed(s1.component_views(), category, tags, search, limit) == listed(
            s2.component_views(),
            category,
            tags,
            search,
            limit,
        ),
        searched(s1.component_views(), query, categories, tags, limit) == searched(
            s2.component_views(),
            query,
            categories,
            tags,
            limit,
        ),
        lookup(s1.component_keys(), name) == lookup(s2.component_keys(), name),
        s1.resource_text(uri) == s2.resource_text(uri),
{
}

proof fn lemma_prop_line_names(p: PropView)
    ensures
        contains_text(prop_line(p), p.name),
{
    let req = if p.required {
        " *Required*"@
    } else {
        Seq::<char>::empty()
    };
    lemma_contains_self(p.name);
    lemma_contains_extend_left("- **"@, p.name, p.name);
    let a1 = "- **"@ + p.name;
    lemma_contains_extend_right(a1, "** ("@, p.name);
    let a2 = a1 + "** ("@;
    lemma_contains_extend_right(a2, p.prop_type, p.name);
    let a3 = a2 + p.prop_type;
    lemma_contains_extend_right(a3, "): "@, p.name);
    let a4 = a3 + "): "@;
    lemma_contains_extend_right(a4, p.description, p.name);
    let a5 = a4 + p.description;
    lemma_contains_extend_right(a5, req, p.name);
}

/// The document of a component's resource holds the component's description
/// and the name of each of its properties.
pub proof fn lemma_component_resource_mentions(server: ReactComponentServer, key: Seq<char>)
    requires
        server.component_keys().contains(key),
    ensures
        ({
            let c = server.component_views()[key_position(server.component_keys(), key)->0];
            &&& server.resource_text("component://"@ + key) == Some(component_text(c))
            &&& contains_text(component_text(c), c.description)
            &&& forall|p: int|
                0 <= p < c.props.len() ==> contains_text(
                    component_text(c),
                    #[trigger] c.props[p].name,
                )
        }),
{
    let keys = server.component_keys();
    lemma_key_position(keys, key);
    let i = key_position(keys, key)->0;
    let c = server.component_views()[i];
    let pre = "component://"@;
    let uri = pre + key;
    assert(uri.subrange(0, pre.len() as int) =~= pre);
    assert(uri.skip(pre.len() as int) =~= key);
    assert(has_prefix(uri, pre));
    let lines = c.props.map_values(|p: PropView| prop_line(p));
    let props = joined(lines, "\n"@);
    let head = "# "@ + c.name + " Component\n\n"@;
    let b1 = head + c.description;
    let b2 = b1 + "\n\n## Source Code\n\n```tsx\n"@;
    let b3 = b2 + c.source_code;
    let b4 = b3 + "\n```\n\n## Props\n\n"@;
    let b5 = b4 + props;
    let b6 = b5 + "\n\n## Examples\n\n"@;
    let tail = joined(c.examples.map_values(|e| crate::render::example_block(e)), "\n\n"@);
    assert(component_text(c) == b6 + tail);
    lemma_contains_self(c.description);
    lemma_contains_extend_left(head, c.description, c.description);
    lemma_contains_extend_right(b1, "\n\n## Source Code\n\n```tsx\n"@, c.description);
    lemma_contains_extend_right(b2, c.source_code, c.description);
    lemma_contains_extend_right(b3, "\n```\n\n## Props\n\n"@, c.description);
    lemma_contains_extend_right(b4, props, c.description);
    lemma_contains_extend_right(b5, "\n\n## Examples\n\n"@, c.description);
    lemma_contains_extend_right(b6, tail, c.description);
    lemma_contains_self(props);
    lemma_contains_extend_left(b4, props, props);
    lemma_contains_extend_right(b5, "\n\n## Examples\n\n"@, props);
    lemma_contains_extend_right(b6, tail, props);
    assert forall|p: int| 0 <= p < c.props.len() implies contains_text(
        component_text(c),
        #[trigger] c.props[p].name,
    ) by {
        lemma_joined_contains(lines, "\n"@, p);
        lemma_prop_line_names(c.props[p]);
        lemma_contains_transitive(props, lines[p], c.props[p].name);
        lemma_contains_transitive(component_text(c), props, c.props[p].name);
    }
}

proof fn lemma_ascending_unique(a: Seq<Seq<char>>, b: Seq<Seq<char>>)
    requires
        strictly_ascending(a),
        strictly_ascending(b),
        forall|t: Seq<char>| #[trigger] a.contains(t) <==> b.contains(t),
    ensures
        a == b,
    decreases a.len(),
{
    if a.len() == 0 {
        if b.len() > 0 {
            assert(b.contains(b[0]));
            assert(a.contains(b[0]));
        }
        assert(a =~= b);
    } else {
        assert(a.contains(a[0]));
        assert(b.contains(a[0]));
        assert(b.contains(b[0]));
        assert(a.contains(b[0]));
        let k = choose|k: int| 0 <= k < b.len() && b[k] == a[0];
        let m = choose|m: int| 0 <= m < a.len() && a[m] == b[0];
        if k > 0 {
            assert(text_lt(b[0], b[k]));
            if m > 0 {
                assert(text_lt(a[0], a[m]));
                lemma_text_lt_asymmetric(a[0], b[0]);
            } else {
                lemma_text_lt_irreflexive(b[0]);
            }
        }
        assert(a[0] == b[0]);
        let a1 = a.drop_first();
        let b1 = b.drop_first();
        assert forall|t: Seq<char>| #[trigger] a1.contains(t) <==> b1.contains(t) by {
            if a1.contains(t) {
                let x = choose|x: int| 0 <= x < a1.len() && a1[x] == t;
                assert(a[x + 1] == t);
                assert(text_lt(a[0], a[x + 1]));
                lemma_text_lt_irreflexive(t);
                assert(a.contains(t));
                assert(b.contains(t));
                let y = choose|y: int| 0 <= y < b.len() && b[y] == t;
                assert(y != 0);
                assert(b1[y - 1] == t);
            }
            if b1.contains(t) {
                let x = choose|x: int| 0 <= x < b1.len() && b1[x] == t;
                assert(b[x + 1] == t);
                assert(text_lt(b[0], b[x + 1]));
                lemma_text_lt_irreflexive(t);
                assert(b.contains(t));
                assert(a.contains(t));
                let y = choose|y: int| 0 <= y < a.len() && a[y] == t;
                assert(y != 0);
                assert(a1[y - 1] == t);
            }
        }
        lemma_ascending_unique(a1, b1);
        assert(a =~= seq![a[0]] + a1);
        assert(b =~= seq![b[0]] + b1);
    }
}

/// A tag listing repeats no tag, and two catalogs that hold the same
/// components in any order list the same tags.
pub proof fn lemma_tags_unique_order_free(
    cs1: Seq<ComponentView>,
    cs2: Seq<ComponentView>,
    tags1: Seq<Seq<char>>,
    tags2: Seq<Seq<char>>,
)
    requires
        cs1.to_multiset() == cs2.to_multiset(),
        strictly_ascending(tags1),
        forall|t: Seq<char>| #[trigger] tags1.contains(t) <==> carries_tag(cs1, t),
        strictly_ascending(tags2),
        forall|t: Seq<char>| #[trigger] tags2.contains(t) <==> carries_tag(cs2, t),
    ensures
        tags1.no_duplicates(),
        tags1 == tags2,
{
    assert forall|i: int, j: int| 0 <= i < tags1.len() && 0 <= j < tags1.len() && i != j implies tags1[i]
        != tags1[j] by {
        lemma_text_lt_irreflexive(tags1[i]);
        if i > j {
            assert(text_lt(tags1[j], tags1[i]));
        } else {
            assert(text_lt(tags1[i], tags1[j]));
        }
    }
    assert forall|t: Seq<char>| #[trigger] tags1.contains(t) <==> tags2.contains(t) by {
        if carries_tag(cs1, t) {
            let k = choose|k: int| 0 <= k < cs1.len() && (#[trigger] cs1[k]).tags.contains(t);
            assert(cs1.to_multiset().count(cs1[k]) > 0);
            assert(cs2.contains(cs1[k]));
            let m = choose|m: int| 0 <= m < cs2.len() && cs2[m] == cs1[k];
            assert(cs2[m].tags.contains(t));
        }
        if carries_tag(cs2, t) {
            let k = choose|k: int| 0 <= k < cs2.len() && (#[trigger] cs2[k]).tags.contains(t);
            assert(cs2.to_multiset().count(cs2[k]) > 0);
            assert(cs1.contains(cs2[k]));
            let m = choose|m: int| 0 <= m < cs1.len() && cs1[m] == cs2[k];
            assert(cs1[m].tags.contains(t));
        }
    }
    lemma_ascending_unique(tags1, tags2);
}

/// Strictly ascending by rank.
pub open spec fn rank_ascending(s: Seq<RankedView>) -> bool {
    forall|i: int, j: int| 0 <= i < j < s.len() ==> ranks_before(#[trigger] s[i], #[trigger] s[j])
}

pub open spec fn distinct_names(s: Seq<RankedView>) -> bool {
    forall|i: int, j: int| 0 <= i < j < s.len() ==> (#[trigger] s[i]).1.name != (#[trigger] s[j]).1.name
}

proof fn lemma_ranks_before_irreflexive(a: RankedView)
    ensures
        !ranks_before(a, a),
{
    lemma_text_lt_irreflexive(a.1.name);
}

proof fn lemma_rank_ascending_unique(a: Seq<RankedView>, b: Seq<RankedView>)
    requires
        rank_ascending(a),
        rank_ascending(b),
        forall|t: RankedView| #[trigger] a.contains(t) <==> b.contains(t),
    ensures
        a == b,
    decreases a.len(),
{
    if a.len() == 0 {
        if b.len() > 0 {
            assert(b.contains(b[0]));
            assert(a.contains(b[0]));
        }
        assert(a =~= b);
    } else {
        assert(a.contains(a[0]));
        assert(b.contains(a[0]));
        assert(b.contains(b[0]));
        assert(a.contains(b[0]));
        let k = choose|k: int| 0 <= k < b.len() && b[k] == a[0];
        let m = choose|m: int| 0 <= m < a.len() && a[m] == b[0];
        if k > 0 {
            assert(ranks_before(b[0], b[k]));
            if m > 0 {
                assert(ranks_before(a[0], a[m]));
                lemma_ranks_before_asymmetric(a[0], b[0]);
            } else {
                lemma_ranks_before_irreflexive(b[0]);
            }
        }
        assert(a[0] == b[0]);
        let a1 = a.drop_first();
        let b1 = b.drop_first();
        assert forall|t: RankedView| #[trigger] a1.contains(t) <==> b1.contains(t) by {
            if a1.contains(t) {
                let x = choose|x: int| 0 <= x < a1.len() && a1[x] == t;
                assert(a[x + 1] == t);
                assert(ranks_before(a[0], a[x + 1]));
                lemma_ranks_before_irreflexive(t);
                assert(a.contains(t));
                assert(b.contains(t));
                let y = choose|y: int| 0 <= y < b.len() && b[y] == t;
                assert(y != 0);
                assert(b1[y - 1] == t);
            }
            if b1.contains(t) {
                let x = choose|x: int| 0 <= x < b1.len() && b1[x] == t;
                assert(b[x + 1] == t);
                assert(ranks_before(b[0], b[x + 1]));
                lemma_ranks_before_irreflexive(t);
                assert(b.contains(t));
                assert(a.contains(t));
                let y = choose|y: int| 0 <= y < a.len() && a[y] == t;
                assert(y != 0);
                assert(a1[y - 1] == t);
            }
        }
        lemma_rank_ascending_unique(a1, b1);
        assert(a =~= seq![a[0]] + a1);
        assert(b =~= seq![b[0]] + b1);
    }
}

proof fn lemma_in_order_distinct_ascending(s: Seq<RankedView>)
    requires
        in_rank_order(s),
        distinct_names(s),
    ensures
        rank_ascending(s),
{
    assert forall|i: int, j: int| 0 <= i < j < s.len() implies ranks_before(
        #[trigger] s[i],
        #[trigger] s[j],
    ) by {
        assert(!ranks_before(s[j], s[i]));
        lemma_text_lt_total(s[i].1.name, s[j].1.name);
    }
}

/// A rearrangement of entries with distinct names has distinct names.
proof fn lemma_rearranged_distinct(s: Seq<RankedView>, c: Seq<RankedView>)
    requires
        s.to_multiset() == c.to_multiset(),
        distinct_names(c),
    ensures
        distinct_names(s),
{
    assert(c.no_duplicates()) by {
        assert forall|i: int, j: int| 0 <= i < c.len() && 0 <= j < c.len() && i != j implies c[i]
            != c[j] by {
            if i < j {
                assert(c[i].1.name != c[j].1.name);
            } else {
                assert(c[j].1.name != c[i].1.name);
            }
        }
    }
    c.lemma_multiset_has_no_duplicates();
    assert forall|i: int, j: int| 0 <= i < j < s.len() implies (#[trigger] s[i]).1.name != (
    #[trigger] s[j]).1.name by {
        assert(s.contains(s[i]) && s.contains(s[j]));
        assert(s.to_multiset().count(s[i]) > 0 && s.to_multiset().count(s[j]) > 0);
        assert(c.to_multiset().count(s[i]) > 0 && c.to_multiset().count(s[j]) > 0);
        assert(c.contains(s[i]) && c.contains(s[j]));
        let a = choose|a: int| 0 <= a < c.len() && c[a] == s[i];
        let b = choose|b: int| 0 <= b < c.len() && c[b] == s[j];
        if s[i].1.name == s[j].1.name {
            if a != b {
                if a < b {
                    assert(c[a].1.name != c[b].1.name);
                } else {
                    assert(c[b].1.name != c[a].1.name);
                }
            }
            assert(s[i] == s[j]);
            let r = s.remove(i);
            assert(r[j - 1] == s[j]);
            assert(r.contains(s[i]));
            assert(r.to_multiset() =~= s.to_multiset().remove(s[i]));
            assert(r.to_multiset().count(s[i]) > 0);
            assert(c.to_multiset().count(s[i]) == 1);
        }
    }
}

/// Entries with distinct names list in one order however they are arranged:
/// two rearrangements of the same admitted entries sort alike.
pub proof fn lemma_listing_order_free(c1: Seq<RankedView>, c2: Seq<RankedView>)
    requires
        c1.to_multiset() == c2.to_multiset(),
        distinct_names(c1),
    ensures
        sort_ranked(c1) == sort_ranked(c2),
{
    let s1 = sort_ranked(c1);
    let s2 = sort_ranked(c2);
    lemma_sort_ranked_multiset(c1);
    lemma_sort_ranked_multiset(c2);
    lemma_sort_ranked_in_order(c1);
    lemma_sort_ranked_in_order(c2);
    lemma_rearranged_distinct(s1, c1);
    lemma_rearranged_distinct(s2, c1);
    lemma_in_order_distinct_ascending(s1);
    lemma_in_order_distinct_ascending(s2);
    assert forall|t: RankedView| #[trigger] s1.contains(t) <==> s2.contains(t) by {
        assert(s1.contains(t) <==> s1.to_multiset().count(t) > 0);
        assert(s2.contains(t) <==> s2.to_multiset().count(t) > 0);
    }
    lemma_rank_ascending_unique(s1, s2);
}

/// The admitted entry of one component, if the filters admit it.
pub open spec fn admitted_entry(
    c: ComponentView,
    category: Option<Seq<char>>,
    tags: Option<Seq<Seq<char>>>,
    search: Option<Seq<char>>,
) -> Multiset<RankedView> {
    if listing_admits(c, category, tags, search) {
        Multiset::singleton((false, metadata_of(c)))
    } else {
        Multiset::empty()
    }
}

proof fn lemma_candidates_remove(
    cs: Seq<ComponentView>,
    m: int,
    category: Option<Seq<char>>,
    tags: Option<Seq<Seq<char>>>,
    search: Option<Seq<char>>,
)
    requires
        0 <= m < cs.len(),
    ensures
        listing_candidates(cs, category, tags, search).to_multiset() == listing_candidates(
            cs.remove(m),
            category,
            tags,
            search,
        ).to_multiset().add(admitted_entry(cs[m], category, tags, search)),
    decreases cs.len(),
{
    let d = cs.drop_last();
    if m == cs.len() - 1 {
        assert(cs.remove(m) =~= d);
    } else {
        lemma_candidates_remove(d, m, category, tags, search);
        assert(cs.remove(m).drop_last() =~= d.remove(m));
        assert(cs.remove(m).last() == cs.last());
        assert(d[m] == cs[m]);
    }
    assert(listing_candidates(cs, category, tags, search).to_multiset() =~= listing_candidates(
        cs.remove(m),
        category,
        tags,
        search,
    ).to_multiset().add(admitted_entry(cs[m], category, tags, search)));
}

proof fn lemma_candidates_rearranged(
    cs1: Seq<ComponentView>,
    cs2: Seq<ComponentView>,
    category: Option<Seq<char>>,
    tags: Option<Seq<Seq<char>>>,
    search: Option<Seq<char>>,
)
    requires
        cs1.to_multiset() == cs2.to_multiset(),
    ensures
        listing_candidates(cs1, category, tags, search).to_multiset() == listing_candidates(
            cs2,
            category,
            tags,
            search,
        ).to_multiset(),
    decreases cs1.len(),
{
    if cs1.len() == 0 {
        assert(cs1.to_multiset().len() == cs1.len());
        assert(cs2.to_multiset().len() == cs2.len());
        assert(cs2.len() == 0);
        assert(cs1 =~= cs2);
    } else {
        let d = cs1.drop_last();
        let x = cs1.last();
        assert(cs1 =~= d.push(x));
        assert(cs1.to_multiset().count(x) > 0);
        assert(cs2.contains(x));
        let m = choose|m: int| 0 <= m < cs2.len() && cs2[m] == x;
        assert(cs2.remove(m).to_multiset() =~= d.to_multiset());
        lemma_candidates_rearranged(d, cs2.remove(m), category, tags, search);
        lemma_candidates_remove(cs2, m, category, tags, search);
        lemma_candidates_remove(cs1, cs1.len() - 1, category, tags, search);
        assert(cs1.remove(cs1.len() - 1) =~= d);
    }
}

proof fn lemma_candidates_distinct(
    cs: Seq<ComponentView>,
    category: Option<Seq<char>>,
    tags: Option<Seq<Seq<char>>>,
    search: Option<Seq<char>>,
)
    requires
        forall|i: int, j: int| 0 <= i < j < cs.len() ==> (#[trigger] cs[i]).name != (#[trigger] cs[j]).name,
    ensures
        distinct_names(listing_candidates(cs, category, tags, search)),
    decreases cs.len(),
{
    if cs.len() > 0 {
        let d = cs.drop_last();
        assert forall|i: int, j: int| 0 <= i < j < d.len() implies (#[trigger] d[i]).name != (
        #[trigger] d[j]).name by {
            assert(d[i] == cs[i] && d[j] == cs[j]);
        }
        lemma_candidates_distinct(d, category, tags, search);
        lemma_listing_candidates(d, category, tags, search);
        let rest = listing_candidates(d, category, tags, search);
        let c = listing_candidates(cs, category, tags, search);
        assert forall|i: int, j: int| 0 <= i < j < c.len() implies (#[trigger] c[i]).1.name != (
        #[trigger] c[j]).1.name by {
            if j < rest.len() {
                assert(c[i] == rest[i] && c[j] == rest[j]);
            } else {
                assert(c[i] == rest[i]);
                let k = choose|k: int|
                    0 <= k < d.len() && listing_admits(d[k], category, tags, search)
                        && #[trigger] metadata_of(d[k]) == rest[i].1;
                assert(cs[k] == d[k]);
                assert(c[j].1 == metadata_of(cs[cs.len() - 1]));
            }
        }
    }
}

/// Two catalogs that hold the same components in different orders, with
/// distinct names, give the same listing for every request.
pub proof fn lemma_listing_independent_of_catalog_order(
    cs1: Seq<ComponentView>,
    cs2: Seq<ComponentView>,
    category: Option<Seq<char>>,
    tags: Option<Seq<Seq<char>>>,
    search: Option<Seq<char>>,
    limit: Option<usize>,
)
    requires
        cs1.to_multiset() == cs2.to_multiset(),
        forall|i: int, j: int| 0 <= i < j < cs1.len() ==> (#[trigger] cs1[i]).name != (#[trigger] cs1[j]).name,
    ensures
        listed(cs1, category, tags, search, limit) == listed(cs2, category, tags, search, limit),
{
    lemma_candidates_rearranged(cs1, cs2, category, tags, search);
    lemma_candidates_distinct(cs1, category, tags, search);
    lemma_listing_order_free(
        listing_candidates(cs1, category, tags, search),
        listing_candidates(cs2, category, tags, search),
    );
}

} // verus!
