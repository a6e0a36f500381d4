//! Which components a listing or a search admits.

use vstd::prelude::*;
use crate::text::{contains_text, lower_of, find_text, to_lower};
use crate::types::{ComponentView, PropView, ReactComponent, ComponentProp, view_strings, view_props};

verus! {

/// Some wanted tag is among the tags.
pub open spec fn has_any_tag(tags: Seq<Seq<char>>, wanted: Seq<Seq<char>>) -> bool {
    exists|i: int| 0 <= i < wanted.len() && tags.contains(#[trigger] wanted[i])
}

/// Some tag, lowercased, holds `q`.
pub open spec fn tag_mentions(tags: Seq<Seq<char>>, q: Seq<char>) -> bool {
    exists|i: int| 0 <= i < tags.len() && contains_text(lower_of(#[trigger] tags[i]), q)
}

/// The property's name or description, lowercased, holds `q`.
pub open spec fn prop_holds(p: PropView, q: Seq<char>) -> bool {
    contains_text(lower_of(p.name), q) || contains_text(lower_of(p.description), q)
}

/// Some property's name or description, lowercased, holds `q`.
pub open spec fn prop_mentions(props: Seq<PropView>, q: Seq<char>) -> bool {
    exists|i: int|
        0 <= i < props.len() && #[trigger] prop_holds(props[i], q)
}

/// The name, the description or a tag, lowercased, holds `q`.
pub open spec fn mentions(c: ComponentView, q: Seq<char>) -> bool {
    contains_text(lower_of(c.name), q) || contains_text(lower_of(c.description), q)
        || tag_mentions(c.tags, q)
}

/// A wanted tag list filters only when it is present and not empty.
pub open spec fn tags_admit(c: ComponentView, tags: Option<Seq<Seq<char>>>) -> bool {
    tags is Some && tags->0.len() > 0 ==> has_any_tag(c.tags, tags->0)
}

/// The filters of a listing: exact category, an overlapping tag, a search
/// text found ignoring case in the name, the description or a tag.
pub open spec fn listing_admits(
    c: ComponentView,
    category: Option<Seq<char>>,
    tags: Option<Seq<Seq<char>>>,
    search: Option<Seq<char>>,
) -> bool {
    &&& (category is Some ==> c.category == category->0)
    &&& tags_admit(c, tags)
    &&& (search is Some ==> mentions(c, lower_of(search->0)))
}

/// The filters of a search: the query found ignoring case in the name, the
/// description, a tag, or a property's name or description; the category
/// among the wanted ones; an overlapping tag.
pub open spec fn search_admits(
    c: ComponentView,
    query: Seq<char>,
    categories: Option<Seq<Seq<char>>>,
    tags: Option<Seq<Seq<char>>>,
) -> bool {
    &&& (mentions(c, lower_of(query)) || prop_mentions(c.props, lower_of(query)))
    &&& (categories is Some ==> categories->0.contains(c.category))
    &&& tags_admit(c, tags)
}

pub fn holds_string(v: &Vec<String>, s: &String) -> (r: bool)
    ensures
        r == view_strings(v@).contains(s@),
{
    let ghost vs = view_strings(v@);
    let mut i: usize = 0;
    while i < v.len()
        invariant
            0 <= i <= v.len(),
            vs == view_strings(v@),
            forall|j: int| 0 <= j < i ==> vs[j] != s@,
        decreases v.len() - i,
    {
        if v[i] == *s {
            assert(vs[i as int] == s@);
            return true;
        }
        i += 1;
    }
    false
}

pub fn overlaps(tags: &Vec<String>, wanted: &Vec<String>) -> (r: bool)
    ensures
        r == has_any_tag(view_strings(tags@), view_strings(wanted@)),
{
    let ghost ws = view_strings(wanted@);
    let mut i: usize = 0;
    while i < wanted.len()
        invariant
            0 <= i <= wanted.len(),
            ws == view_strings(wanted@),
            forall|j: int| 0 <= j < i ==> !view_strings(tags@).contains(#[trigger] ws[j]),
        decreases wanted.len() - i,
    {
        if holds_string(tags, &wanted[i]) {
            assert(view_strings(tags@).contains(ws[i as int]));
            return true;
        }
        i += 1;
    }
    false
}

/// Whether `folded` occurs in `s` once `s` is lowercased.
pub fn folded_holds(s: &str, folded: &str) -> (r: bool)
    ensures
        r == contains_text(lower_of(s@), folded@),
{
    let l = to_lower(s);
    find_text(l.as_str(), folded)
}

pub fn tags_mention(tags: &Vec<String>, folded: &str) -> (r: bool)
    ensures
        r == tag_mentions(view_strings(tags@), folded@),
{
    let ghost ts = view_strings(tags@);
    let mut i: usize = 0;
    while i < tags.len()
        invariant
            0 <= i <= tags.len(),
            ts == view_strings(tags@),
            forall|j: int| 0 <= j < i ==> !contains_text(lower_of(#[trigger] ts[j]), folded@),
        decreases tags.len() - i,
    {
        if folded_holds(tags[i].as_str(), folded) {
            assert(contains_text(lower_of(ts[i as int]), folded@));
            return true;
        }
        i += 1;
    }
    false
}

pub fn props_mention(props: &Vec<ComponentProp>, folded: &str) -> (r: bool)
    ensures
        r == prop_mentions(view_props(props@), folded@),
{
    let ghost ps = view_props(props@);
    let mut i: usize = 0;
    while i < props.len()
        invariant
            0 <= i <= props.len(),
            ps == view_props(props@),
            forall|j: int|
                0 <= j < i ==> !prop_holds(#[trigger] ps[j], folded@),
        decreases props.len() - i,
    {
        if folded_holds(props[i].name.as_str(), folded) || folded_holds(
            props[i].description.as_str(),
            folded,
        ) {
            assert(ps[i as int] == props@[i as int]@);
            assert(prop_holds(ps[i as int], folded@));
            return true;
        }
        assert(ps[i as int] == props@[i as int]@);
        i += 1;
    }
    false
}

pub fn component_mentions(c: &ReactComponent, folded: &str) -> (r: bool)
    ensures
        r == mentions(c@, folded@),
{
    folded_holds(c.name.as_str(), folded) || folded_holds(c.description.as_str(), folded)
        || tags_mention(&c.tags, folded)
}

pub fn tags_admitted(c: &ReactComponent, tags: &Option<Vec<String>>) -> (r: bool)
    ensures
        r == tags_admit(c@, crate::types::view_opt_strings(*tags)),
{
    match tags {
        Some(t) => t.len() == 0 || overlaps(&c.tags, t),
        None => true,
    }
}

} // verus!
