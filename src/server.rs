//! The component server: an immutable catalog of components and
//! documentation topics, and the read-only operations over it.

use vstd::prelude::*;
use crate::catalog::{lemma_key_position, equal_to, equal_ignoring_case, lemma_first_where, collect_entries, distinct_keys, key_position, folded_position, keys_of,
    values_of, view_entries, put_all, position_of_key, position_ignoring_case};
use crate::error::{ErrorView, ServerError};
use crate::filters::{listing_admits, search_admits, tags_admitted, component_mentions,
    props_mention, holds_string};
use crate::ranking::{strictly_ascending, insert_ascending, RankedView, sort_ranked, limited, insert_by_rank, take_summaries, view_ranked};
use crate::text::{lower_of, to_lower, same_text, has_prefix, strip_prefix, less_text, text_lt,
    lemma_text_lt_total, lemma_text_lt_transitive, lemma_text_lt_irreflexive};
use crate::render::{component_text, documentation_text, render_component, render_documentation};
use crate::types::{ComponentListResponse, ComponentMetadata, ComponentView, Documentation,
    DocumentationView, ListComponentsRequest, MetadataView, ReactComponent, SearchComponentsRequest,
    SectionView, metadata_of, view_metadata, view_opt_string, view_opt_strings, view_strings,
    GetComponentRequest, GetDocumentationRequest, DocumentationSection, view_sections,
    view_examples, ExampleView};

verus! {

/// Components admitted by a listing, in catalog order, none ranked exact.
pub open spec fn listing_candidates(
    cs: Seq<ComponentView>,
    category: Option<Seq<char>>,
    tags: Option<Seq<Seq<char>>>,
    search: Option<Seq<char>>,
) -> Seq<RankedView>
    decreases cs.len(),
{
    if cs.len() == 0 {
        Seq::empty()
    } else {
        let rest = listing_candidates(cs.drop_last(), category, tags, search);
        if listing_admits(cs.last(), category, tags, search) {
            rest.push((false, metadata_of(cs.last())))
        } else {
            rest
        }
    }
}

/// The summaries a listing returns: admitted components by ascending name,
/// cut to the limit.
pub open spec fn listed(
    cs: Seq<ComponentView>,
    category: Option<Seq<char>>,
    tags: Option<Seq<Seq<char>>>,
    search: Option<Seq<char>>,
    limit: Option<usize>,
) -> Seq<MetadataView> {
    limited(
        sort_ranked(listing_candidates(cs, category, tags, search)).map_values(|e: RankedView| e.1),
        limit,
    )
}

/// Components admitted by a search, in catalog order, each marked with
/// whether its name equals the query ignoring case.
pub open spec fn search_candidates(
    cs: Seq<ComponentView>,
    query: Seq<char>,
    categories: Option<Seq<Seq<char>>>,
    tags: Option<Seq<Seq<char>>>,
) -> Seq<RankedView>
    decreases cs.len(),
{
    if cs.len() == 0 {
        Seq::empty()
    } else {
        let rest = search_candidates(cs.drop_last(), query, categories, tags);
        if search_admits(cs.last(), query, categories, tags) {
            rest.push((lower_of(cs.last().name) == lower_of(query), metadata_of(cs.last())))
        } else {
            rest
        }
    }
}

/// The summaries a search returns: exact name matches first, then by
/// ascending name, cut to the limit.
pub open spec fn searched(
    cs: Seq<ComponentView>,
    query: Seq<char>,
    categories: Option<Seq<Seq<char>>>,
    tags: Option<Seq<Seq<char>>>,
    limit: Option<usize>,
) -> Seq<MetadataView> {
    limited(
        sort_ranked(search_candidates(cs, query, categories, tags)).map_values(|e: RankedView| e.1),
        limit,
    )
}

/// The entry a component lookup finds: the key itself, else the first key
/// equal to it ignoring case.
pub open spec fn lookup(keys: Seq<Seq<char>>, name: Seq<char>) -> Option<int> {
    match key_position(keys, name) {
        Some(i) => Some(i),
        None => folded_position(keys, name),
    }
}

/// The component as a lookup returns it: examples dropped when they are
/// declined, type definitions dropped when they are declined.
pub open spec fn shaped(
    c: ComponentView,
    include_examples: Option<bool>,
    include_typescript: Option<bool>,
) -> ComponentView {
    ComponentView {
        examples: if include_examples == Some(false) {
            Seq::empty()
        } else {
            c.examples
        },
        typescript_definitions: if include_typescript == Some(false) {
            None
        } else {
            c.typescript_definitions
        },
        ..c
    }
}

/// The sections whose id is `id`, in order.
pub open spec fn sections_with_id(ss: Seq<SectionView>, id: Seq<char>) -> Seq<SectionView>
    decreases ss.len(),
{
    if ss.len() == 0 {
        Seq::empty()
    } else {
        let rest = sections_with_id(ss.drop_last(), id);
        if ss.last().id == id {
            rest.push(ss.last())
        } else {
            rest
        }
    }
}

pub open spec fn section_ids(ss: Seq<SectionView>) -> Seq<Seq<char>> {
    ss.map_values(|s: SectionView| s.id)
}

/// The number of components of the category.
pub open spec fn category_count(cs: Seq<ComponentView>, category: Seq<char>) -> nat
    decreases cs.len(),
{
    if cs.len() == 0 {
        0
    } else {
        category_count(cs.drop_last(), category) + if cs.last().category == category {
            1nat
        } else {
            0nat
        }
    }
}

pub struct ReactComponentServer {
    components: Vec<(String, ReactComponent)>,
    documentation: Vec<(String, Documentation)>,
}

impl ReactComponentServer {
    /// The components by key, in catalog order.
    pub closed spec fn component_entries(&self) -> Seq<(Seq<char>, ComponentView)> {
        view_entries(self.components@)
    }

    /// The documentation topics by key, in catalog order.
    pub closed spec fn doc_entries(&self) -> Seq<(Seq<char>, DocumentationView)> {
        view_entries(self.documentation@)
    }

    pub open spec fn component_keys(&self) -> Seq<Seq<char>> {
        keys_of(self.component_entries())
    }

    pub open spec fn component_views(&self) -> Seq<ComponentView> {
        values_of(self.component_entries())
    }

    pub open spec fn topic_keys(&self) -> Seq<Seq<char>> {
        keys_of(self.doc_entries())
    }

    pub open spec fn topic_views(&self) -> Seq<DocumentationView> {
        values_of(self.doc_entries())
    }

    /// Keys are unique among components and among topics.
    pub open spec fn wf(&self) -> bool {
        distinct_keys(self.component_keys()) && distinct_keys(self.topic_keys())
    }

    /// The server over the given entries; of two entries with one key the
    /// later one stays, in the place of the earlier.
    pub fn new(
        components: Vec<(String, ReactComponent)>,
        documentation: Vec<(String, Documentation)>,
    ) -> (r: Self)
        ensures
            r.component_entries() == put_all(view_entries(components@)),
            r.doc_entries() == put_all(view_entries(documentation@)),
            r.wf(),
    {
        ReactComponentServer {
            components: collect_entries(components),
            documentation: collect_entries(documentation),
        }
    }

    proof fn lemma_views(&self)
        ensures
            self.component_views().len() == self.components@.len(),
            forall|i: int|
                0 <= i < self.components@.len() ==> #[trigger] self.component_views()[i]
                    == self.components@[i].1@,
            self.component_keys().len() == self.components@.len(),
            forall|i: int|
                0 <= i < self.components@.len() ==> #[trigger] self.component_keys()[i]
                    == self.components@[i].0@,
            self.topic_views().len() == self.documentation@.len(),
            forall|i: int|
                0 <= i < self.documentation@.len() ==> #[trigger] self.topic_views()[i]
                    == self.documentation@[i].1@,
            self.topic_keys().len() == self.documentation@.len(),
            forall|i: int|
                0 <= i < self.documentation@.len() ==> #[trigger] self.topic_keys()[i]
                    == self.documentation@[i].0@,
    {
    }

    /// Summaries of the components the filters admit, by ascending name.
    pub fn list_components(&self, params: &ListComponentsRequest) -> (r: ComponentListResponse)
        ensures
            view_metadata(r.components@) == listed(
                self.component_views(),
                view_opt_string(params.category),
                view_opt_strings(params.tags),
                view_opt_string(params.search),
                params.limit,
            ),
    {
        let ghost cs = self.component_views();
        let ghost category = view_opt_string(params.category);
        let ghost tags = view_opt_strings(params.tags);
        let ghost search = view_opt_string(params.search);
        let folded: Option<String> = match &params.search {
            Some(s) => Some(to_lower(s.as_str())),
            None => None,
        };
        proof {
            self.lemma_views();
        }
        let mut ranked: Vec<(bool, ComponentMetadata)> = Vec::new();
        let mut i: usize = 0;
        while i < self.components.len()
            invariant
                0 <= i <= self.components.len(),
                cs == self.component_views(),
                cs.len() == self.components@.len(),
                forall|k: int| 0 <= k < cs.len() ==> #[trigger] cs[k] == self.components@[k].1@,
                category == view_opt_string(params.category),
                tags == view_opt_strings(params.tags),
                search == view_opt_string(params.search),
                folded is Some <==> search is Some,
                folded is Some ==> folded->0@ == lower_of(search->0),
                view_ranked(ranked@) == sort_ranked(
                    listing_candidates(cs.take(i as int), category, tags, search),
                ),
            decreases self.components.len() - i,
        {
            let c = &self.components[i].1;
            let category_ok = match &params.category {
                Some(cat) => c.category == *cat,
                None => true,
            };
            let search_ok = match &folded {
                Some(f) => component_mentions(c, f.as_str()),
                None => true,
            };
            let admitted = category_ok && tags_admitted(c, &params.tags) && search_ok;
            let ghost prev = listing_candidates(cs.take(i as int), category, tags, search);
            assert(cs.take(i + 1).drop_last() =~= cs.take(i as int));
            assert(cs.take(i + 1).last() == c@);
            assert(admitted == listing_admits(c@, category, tags, search));
            if admitted {
                let m = ComponentMetadata::of(c);
                assert(prev.push((false, m@)).drop_last() =~= prev);
                insert_by_rank(&mut ranked, (false, m));
            }
            i += 1;
        }
        assert(cs.take(i as int) =~= cs);
        ComponentListResponse { components: take_summaries(&ranked, params.limit) }
    }

    /// Summaries of the components that mention the query, exact name
    /// matches first, then by ascending name.
    pub fn search_components(&self, params: &SearchComponentsRequest) -> (r: Vec<ComponentMetadata>)
        ensures
            view_metadata(r@) == searched(
                self.component_views(),
                params.query@,
                view_opt_strings(params.categories),
                view_opt_strings(params.tags),
                params.limit,
            ),
    {
        let ghost cs = self.component_views();
        let ghost categories = view_opt_strings(params.categories);
        let ghost tags = view_opt_strings(params.tags);
        let folded = to_lower(params.query.as_str());
        proof {
            self.lemma_views();
        }
        let mut ranked: Vec<(bool, ComponentMetadata)> = Vec::new();
        let mut i: usize = 0;
        while i < self.components.len()
            invariant
                0 <= i <= self.components.len(),
                cs == self.component_views(),
                cs.len() == self.components@.len(),
                forall|k: int| 0 <= k < cs.len() ==> #[trigger] cs[k] == self.components@[k].1@,
                categories == view_opt_strings(params.categories),
                tags == view_opt_strings(params.tags),
                folded@ == lower_of(params.query@),
                view_ranked(ranked@) == sort_ranked(
                    search_candidates(cs.take(i as int), params.query@, categories, tags),
                ),
            decreases self.components.len() - i,
        {
            let c = &self.components[i].1;
            let mentioned = component_mentions(c, folded.as_str()) || props_mention(
                &c.props,
                folded.as_str(),
            );
            let category_ok = match &params.categories {
                Some(cats) => holds_string(cats, &c.category),
                None => true,
            };
            let admitted = mentioned && category_ok && tags_admitted(c, &params.tags);
            let ghost prev = search_candidates(cs.take(i as int), params.query@, categories, tags);
            assert(cs.take(i + 1).drop_last() =~= cs.take(i as int));
            assert(cs.take(i + 1).last() == c@);
            assert(admitted == search_admits(c@, params.query@, categories, tags));
            if admitted {
                let name_folded = to_lower(c.name.as_str());
                let exact = same_text(name_folded.as_str(), folded.as_str());
                let m = ComponentMetadata::of(c);
                assert(prev.push((exact, m@)).drop_last() =~= prev);
                insert_by_rank(&mut ranked, (exact, m));
            }
            i += 1;
        }
        assert(cs.take(i as int) =~= cs);
        take_summaries(&ranked, params.limit)
    }
}

impl ReactComponentServer {
    /// The keys of all components, in catalog order.
    pub fn component_key_list(&self) -> (r: Vec<String>)
        ensures
            view_strings(r@) == self.component_keys(),
    {
        proof {
            self.lemma_views();
        }
        let mut r: Vec<String> = Vec::new();
        let mut i: usize = 0;
        while i < self.components.len()
            invariant
                0 <= i <= self.components.len(),
                self.component_keys().len() == self.components@.len(),
                forall|k: int|
                    0 <= k < self.components@.len() ==> #[trigger] self.component_keys()[k]
                        == self.components@[k].0@,
                r@.len() == i,
                forall|k: int| 0 <= k < i ==> #[trigger] r@[k]@ == self.component_keys()[k],
            decreases self.components.len() - i,
        {
            r.push(self.components[i].0.clone());
            i += 1;
        }
        assert(view_strings(r@) =~= self.component_keys());
        r
    }

    /// The keys of all documentation topics, in catalog order.
    pub fn topic_key_list(&self) -> (r: Vec<String>)
        ensures
            view_strings(r@) == self.topic_keys(),
    {
        proof {
            self.lemma_views();
        }
        let mut r: Vec<String> = Vec::new();
        let mut i: usize = 0;
        while i < self.documentation.len()
            invariant
                0 <= i <= self.documentation.len(),
                self.topic_keys().len() == self.documentation@.len(),
                forall|k: int|
                    0 <= k < self.documentation@.len() ==> #[trigger] self.topic_keys()[k]
                        == self.documentation@[k].0@,
                r@.len() == i,
                forall|k: int| 0 <= k < i ==> #[trigger] r@[k]@ == self.topic_keys()[k],
            decreases self.documentation.len() - i,
        {
            r.push(self.documentation[i].0.clone());
            i += 1;
        }
        assert(view_strings(r@) =~= self.topic_keys());
        r
    }

    /// The component of the key, else of the first key equal to it ignoring
    /// case, without what the request declines.
    pub fn get_component(&self, params: &GetComponentRequest) -> (r: Result<
        ReactComponent,
        ServerError,
    >)
        ensures
            match lookup(self.component_keys(), params.name@) {
                Some(i) => r is Ok && r->Ok_0@ == shaped(
                    self.component_views()[i],
                    params.include_examples,
                    params.include_typescript,
                ),
                None => r is Err && r->Err_0@ == (ErrorView::ComponentNotFound {
                    component_name: params.name@,
                    available_components: self.component_keys(),
                }),
            },
    {
        proof {
            self.lemma_views();
            lemma_first_where(self.component_keys(), equal_to(params.name@));
            lemma_first_where(self.component_keys(), equal_ignoring_case(params.name@));
        }
        let found = match position_of_key(&self.components, params.name.as_str()) {
            Some(i) => Some(i),
            None => position_ignoring_case(&self.components, params.name.as_str()),
        };
        match found {
            Some(i) => {
                let mut result = self.components[i].1.clone();
                if params.include_examples == Some(false) {
                    result.examples.clear();
                    assert(view_examples(result.examples@) =~= Seq::<ExampleView>::empty());
                }
                if params.include_typescript == Some(false) {
                    result.typescript_definitions = None;
                }
                Ok(result)
            },
            None => Err(
                ServerError::ComponentNotFound {
                    component_name: params.name.clone(),
                    available_components: self.component_key_list(),
                },
            ),
        }
    }

    /// The topic of the key; with a section id, only the sections of that id.
    pub fn get_documentation(&self, params: &GetDocumentationRequest) -> (r: Result<
        Documentation,
        ServerError,
    >)
        ensures
            match key_position(self.topic_keys(), params.topic@) {
                None => r is Err && r->Err_0@ == (ErrorView::TopicNotFound {
                    topic: params.topic@,
                    available_topics: self.topic_keys(),
                }),
                Some(i) => match params.section {
                    None => r is Ok && r->Ok_0@ == self.topic_views()[i],
                    Some(id) => {
                        let d = self.topic_views()[i];
                        let kept = sections_with_id(d.sections, id@);
                        if kept.len() == 0 {
                            r is Err && r->Err_0@ == (ErrorView::SectionNotFound {
                                section: id@,
                                topic: params.topic@,
                                available_sections: section_ids(d.sections),
                            })
                        } else {
                            r is Ok && r->Ok_0@ == (DocumentationView { sections: kept, ..d })
                        }
                    },
                },
            },
    {
        proof {
            self.lemma_views();
            lemma_first_where(self.topic_keys(), equal_to(params.topic@));
        }
        match position_of_key(&self.documentation, params.topic.as_str()) {
            None => Err(
                ServerError::TopicNotFound {
                    topic: params.topic.clone(),
                    available_topics: self.topic_key_list(),
                },
            ),
            Some(i) => {
                let doc = &self.documentation[i].1;
                match &params.section {
                    None => Ok(doc.clone()),
                    Some(id) => {
                        let kept = sections_of_id(&doc.sections, id);
                        if kept.len() == 0 {
                            Err(
                                ServerError::SectionNotFound {
                                    section: id.clone(),
                                    topic: params.topic.clone(),
                                    available_sections: ids_of_sections(&doc.sections),
                                },
                            )
                        } else {
                            let mut result = doc.clone();
                            result.sections = kept;
                            Ok(result)
                        }
                    },
                }
            },
        }
    }

    /// The topic keys, ascending.
    pub fn list_documentation_topics(&self) -> (r: Vec<String>)
        ensures
            strictly_ascending(view_strings(r@)),
            forall|t: Seq<char>| #[trigger]
                view_strings(r@).contains(t) <==> self.topic_keys().contains(t),
    {
        let keys = self.topic_key_list();
        let mut r: Vec<String> = Vec::new();
        let mut i: usize = 0;
        while i < keys.len()
            invariant
                0 <= i <= keys.len(),
                view_strings(keys@) == self.topic_keys(),
                strictly_ascending(view_strings(r@)),
                forall|t: Seq<char>| #[trigger]
                    view_strings(r@).contains(t) <==> view_strings(keys@).take(i as int).contains(t),
            decreases keys.len() - i,
        {
            let ghost ks = view_strings(keys@);
            insert_ascending(&mut r, keys[i].clone());
            proof {
                lemma_take_one_more(ks, i as int);
            }
            i += 1;
        }
        assert(view_strings(keys@).take(i as int) =~= view_strings(keys@));
        r
    }

    /// Every tag of every component, once each, ascending.
    pub fn get_component_tags(&self) -> (r: Vec<String>)
        ensures
            strictly_ascending(view_strings(r@)),
            forall|t: Seq<char>| #[trigger]
                view_strings(r@).contains(t) <==> carries_tag(self.component_views(), t),
    {
        proof {
            self.lemma_views();
        }
        let ghost cs = self.component_views();
        let mut r: Vec<String> = Vec::new();
        let mut i: usize = 0;
        while i < self.components.len()
            invariant
                0 <= i <= self.components.len(),
                cs == self.component_views(),
                cs.len() == self.components@.len(),
                forall|k: int| 0 <= k < cs.len() ==> #[trigger] cs[k] == self.components@[k].1@,
                strictly_ascending(view_strings(r@)),
                forall|t: Seq<char>| #[trigger]
                    view_strings(r@).contains(t) <==> carries_tag(cs.take(i as int), t),
            decreases self.components.len() - i,
        {
            let tags = &self.components[i].1.tags;
            let ghost ts = view_strings(tags@);
            assert(ts == cs[i as int].tags);
            let mut j: usize = 0;
            while j < tags.len()
                invariant
                    0 <= j <= tags.len(),
                    0 <= i < cs.len(),
                    ts == view_strings(tags@),
                    ts == cs[i as int].tags,
                    strictly_ascending(view_strings(r@)),
                    forall|t: Seq<char>| #[trigger]
                        view_strings(r@).contains(t) <==> (carries_tag(cs.take(i as int), t)
                            || ts.take(j as int).contains(t)),
                decreases tags.len() - j,
            {
                insert_ascending(&mut r, tags[j].clone());
                proof {
                    lemma_take_one_more(ts, j as int);
                }
                j += 1;
            }
            assert(ts.take(j as int) =~= ts);
            assert forall|t: Seq<char>| #[trigger] carries_tag(cs.take(i + 1), t) <==> (carries_tag(
                cs.take(i as int),
                t,
            ) || ts.contains(t)) by {
                if carries_tag(cs.take(i + 1), t) {
                    let k = choose|k: int| 0 <= k < i + 1 && (#[trigger] cs.take(i + 1)[k]).tags.contains(t);
                    if k < i {
                        assert(cs.take(i as int)[k] == cs.take(i + 1)[k]);
                    }
                }
                if carries_tag(cs.take(i as int), t) {
                    let k = choose|k: int| 0 <= k < i && (#[trigger] cs.take(i as int)[k]).tags.contains(t);
                    assert(cs.take(i as int)[k] == cs.take(i + 1)[k]);
                }
                if ts.contains(t) {
                    assert(cs.take(i + 1)[i as int] == cs[i as int]);
                }
            }
            i += 1;
        }
        assert(cs.take(i as int) =~= cs);
        r
    }
}

pub proof fn lemma_take_one_more<A>(s: Seq<A>, i: int)
    requires
        0 <= i < s.len(),
    ensures
        forall|t: A| #[trigger] s.take(i + 1).contains(t) <==> (s.take(i).contains(t) || t == s[i]),
{
    assert(s.take(i + 1) =~= s.take(i).push(s[i]));
    assert forall|t: A| #[trigger] s.take(i + 1).contains(t) <==> (s.take(i).contains(t) || t == s[i]) by {
        let p = s.take(i);
        if p.push(s[i]).contains(t) {
            let k = choose|k: int| 0 <= k < p.len() + 1 && #[trigger] p.push(s[i])[k] == t;
            if k < p.len() {
                assert(p[k] == t);
            }
        }
        if p.contains(t) {
            let k = choose|k: int| 0 <= k < p.len() && #[trigger] p[k] == t;
            assert(p.push(s[i])[k] == t);
        }
        if t == s[i] {
            assert(p.push(s[i])[p.len() as int] == t);
        }
    }
}

/// Some component carries the tag.
pub open spec fn carries_tag(cs: Seq<ComponentView>, t: Seq<char>) -> bool {
    exists|k: int| 0 <= k < cs.len() && (#[trigger] cs[k]).tags.contains(t)
}

pub fn sections_of_id(ss: &Vec<DocumentationSection>, id: &String) -> (r: Vec<DocumentationSection>)
    ensures
        view_sections(r@) == sections_with_id(view_sections(ss@), id@),
{
    let ghost all = view_sections(ss@);
    let mut r: Vec<DocumentationSection> = Vec::new();
    let mut i: usize = 0;
    while i < ss.len()
        invariant
            0 <= i <= ss.len(),
            all == view_sections(ss@),
            view_sections(r@) == sections_with_id(all.take(i as int), id@),
        decreases ss.len() - i,
    {
        assert(all.take(i + 1).drop_last() =~= all.take(i as int));
        assert(all[i as int] == ss@[i as int]@);
        if ss[i].id == *id {
            let ghost prev = r@;
            let s = ss[i].clone();
            r.push(s);
            assert(view_sections(r@) =~= view_sections(prev).push(all[i as int]));
        }
        i += 1;
    }
    assert(all.take(i as int) =~= all);
    r
}

pub fn ids_of_sections(ss: &Vec<DocumentationSection>) -> (r: Vec<String>)
    ensures
        view_strings(r@) == section_ids(view_sections(ss@)),
{
    let mut r: Vec<String> = Vec::new();
    let mut i: usize = 0;
    while i < ss.len()
        invariant
            0 <= i <= ss.len(),
            r@.len() == i,
            forall|k: int| 0 <= k < i ==> #[trigger] r@[k]@ == ss@[k].id@,
        decreases ss.len() - i,
    {
        r.push(ss[i].id.clone());
        i += 1;
    }
    assert(view_strings(r@) =~= section_ids(view_sections(ss@)));
    r
}

/// A readable resource: its identifier and a human label.
#[derive(Debug, PartialEq, Eq)]
pub struct ResourceEntry {
    pub uri: String,
    pub name: String,
}

impl View for ResourceEntry {
    type V = (Seq<char>, Seq<char>);

    open spec fn view(&self) -> (Seq<char>, Seq<char>) {
        (self.uri@, self.name@)
    }
}

/// `component://` and `docs://` resources: one per component, then one per topic.
pub open spec fn resource_entries(keys: Seq<Seq<char>>, topics: Seq<Seq<char>>) -> Seq<
    (Seq<char>, Seq<char>),
> {
    keys.map_values(|k: Seq<char>| ("component://"@ + k, k + " Component"@)) + topics.map_values(
        |t: Seq<char>| ("docs://"@ + t, "Documentation: "@ + t),
    )
}

impl ReactComponentServer {
    /// The text a resource identifier reads: a component's document after
    /// `component://`, a topic's document after `docs://`.
    pub open spec fn resource_text(&self, uri: Seq<char>) -> Option<Seq<char>> {
        let ck = uri.skip("component://"@.len() as int);
        let dk = uri.skip("docs://"@.len() as int);
        if has_prefix(uri, "component://"@) && key_position(self.component_keys(), ck) is Some {
            Some(
                component_text(
                    self.component_views()[key_position(self.component_keys(), ck)->0],
                ),
            )
        } else if has_prefix(uri, "docs://"@) && key_position(self.topic_keys(), dk) is Some {
            Some(documentation_text(self.topic_views()[key_position(self.topic_keys(), dk)->0]))
        } else {
            None
        }
    }

    /// The document behind a resource identifier.
    pub fn read_resource(&self, uri: &str) -> (r: Result<String, ServerError>)
        ensures
            match self.resource_text(uri@) {
                Some(t) => r is Ok && r->Ok_0@ == t,
                None => r is Err && r->Err_0@ == (ErrorView::ResourceNotFound { uri: uri@ }),
            },
    {
        proof {
            self.lemma_views();
            lemma_key_position(self.component_keys(), uri@.skip("component://"@.len() as int));
            lemma_key_position(self.topic_keys(), uri@.skip("docs://"@.len() as int));
        }
        match strip_prefix(uri, "component://") {
            Some(name) => match position_of_key(&self.components, name) {
                Some(i) => {
                    return Ok(render_component(&self.components[i].1));
                },
                None => {},
            },
            None => {},
        }
        match strip_prefix(uri, "docs://") {
            Some(topic) => match position_of_key(&self.documentation, topic) {
                Some(i) => {
                    return Ok(render_documentation(&self.documentation[i].1));
                },
                None => {},
            },
            None => {},
        }
        Err(ServerError::ResourceNotFound { uri: String::from_str(uri) })
    }

    /// One resource per component, then one per documentation topic.
    pub fn list_resources(&self) -> (r: Vec<ResourceEntry>)
        ensures
            r@.map_values(|e: ResourceEntry| e@) == resource_entries(
                self.component_keys(),
                self.topic_keys(),
            ),
    {
        let keys = self.component_key_list();
        let topics = self.topic_key_list();
        let ghost want = resource_entries(self.component_keys(), self.topic_keys());
        let mut r: Vec<ResourceEntry> = Vec::new();
        let mut i: usize = 0;
        while i < keys.len()
            invariant
                0 <= i <= keys.len(),
                view_strings(keys@) == self.component_keys(),
                view_strings(topics@) == self.topic_keys(),
                want == resource_entries(self.component_keys(), self.topic_keys()),
                r@.len() == i,
                forall|k: int| 0 <= k < i ==> #[trigger] r@[k]@ == want[k],
            decreases keys.len() - i,
        {
            let mut uri = String::from_str("component://");
            uri.append(keys[i].as_str());
            let mut name = keys[i].clone();
            name.append(" Component");
            assert(view_strings(keys@)[i as int] == keys@[i as int]@);
            r.push(ResourceEntry { uri, name });
            i += 1;
        }
        let mut j: usize = 0;
        while j < topics.len()
            invariant
                0 <= j <= topics.len(),
                view_strings(keys@) == self.component_keys(),
                view_strings(topics@) == self.topic_keys(),
                want == resource_entries(self.component_keys(), self.topic_keys()),
                r@.len() == keys.len() + j,
                forall|k: int| 0 <= k < keys.len() + j ==> #[trigger] r@[k]@ == want[k],
            decreases topics.len() - j,
        {
            let mut uri = String::from_str("docs://");
            uri.append(topics[j].as_str());
            let mut name = String::from_str("Documentation: ");
            name.append(topics[j].as_str());
            assert(view_strings(topics@)[j as int] == topics@[j as int]@);
            r.push(ResourceEntry { uri, name });
            j += 1;
        }
        assert(r@.map_values(|e: ResourceEntry| e@) =~= want);
        r
    }

    /// Each category once, ascending, with the number of its components.
    pub fn get_component_categories(&self) -> (r: Vec<(String, usize)>)
        ensures
            strictly_ascending(category_names(r@)),
            forall|c: Seq<char>| #[trigger]
                category_names(r@).contains(c) <==> has_category(
                    self.component_views(),
                    c,
                ),
            forall|k: int|
                0 <= k < r@.len() ==> #[trigger] r@[k].1 as nat == category_count(
                    self.component_views(),
                    r@[k].0@,
                ),
    {
        proof {
            self.lemma_views();
        }
        let ghost cs = self.component_views();
        let mut cats: Vec<String> = Vec::new();
        let mut counts: Vec<usize> = Vec::new();
        let mut i: usize = 0;
        while i < self.components.len()
            invariant
                0 <= i <= self.components.len(),
                cs == self.component_views(),
                cs.len() == self.components@.len(),
                forall|k: int| 0 <= k < cs.len() ==> #[trigger] cs[k] == self.components@[k].1@,
                cats@.len() == counts@.len(),
                strictly_ascending(view_strings(cats@)),
                forall|c: Seq<char>| #[trigger]
                    view_strings(cats@).contains(c) <==> has_category(cs.take(i as int), c),
                forall|k: int|
                    0 <= k < cats@.len() ==> #[trigger] counts@[k] as nat == category_count(
                        cs.take(i as int),
                        cats@[k]@,
                    ),
                forall|k: int| 0 <= k < counts@.len() ==> #[trigger] counts@[k] <= i,
            decreases self.components.len() - i,
        {
            let cat = &self.components[i].1.category;
            let ghost pre = cs.take(i as int);
            let ghost post = cs.take(i + 1);
            let ghost s = view_strings(cats@);
            assert(post.drop_last() =~= pre);
            assert(post.last() == cs[i as int]);
            proof {
                lemma_has_category_step(cs, i as int);
            }
            let mut j: usize = 0;
            while j < cats.len() && less_text(cats[j].as_str(), cat.as_str())
                invariant
                    0 <= j <= cats.len(),
                    s == view_strings(cats@),
                    strictly_ascending(s),
                    forall|k: int| 0 <= k < j ==> text_lt(#[trigger] s[k], cat@),
                decreases cats.len() - j,
            {
                j += 1;
            }
            if j < cats.len() && cats[j] == *cat {
                let n = counts[j];
                counts.set(j, n + 1);
                assert forall|k: int| 0 <= k < cats@.len() implies #[trigger] counts@[k] as nat
                    == category_count(post, cats@[k]@) by {
                    assert(s[k] == cats@[k]@);
                    if k < j {
                        lemma_text_lt_irreflexive(cat@);
                    } else if k > j {
                        assert(text_lt(s[j as int], s[k]));
                        lemma_text_lt_irreflexive(cat@);
                    }
                }
                assert forall|c: Seq<char>| #[trigger] s.contains(c) <==> has_category(post, c) by {
                    if c == cat@ {
                        assert(s[j as int] == c);
                    }
                }
            } else {
                proof {
                    if j < s.len() {
                        lemma_text_lt_total(s[j as int], cat@);
                    }
                    assert forall|k: int| 0 <= k < s.len() implies #[trigger] s[k] != cat@ by {
                        lemma_text_lt_irreflexive(cat@);
                        if k > j {
                            assert(text_lt(s[j as int], s[k]));
                            lemma_text_lt_transitive(cat@, s[j as int], s[k]);
                        }
                    }
                    assert(!s.contains(cat@));
                    assert(!view_strings(cats@).contains(cat@));
                    assert(!has_category(pre, cat@));
                    lemma_category_count_absent(pre, cat@);
                }
                let ghost old_cats = cats@;
                let ghost old_counts = counts@;
                cats.insert(j, cat.clone());
                counts.insert(j, 1);
                let ghost u = view_strings(cats@);
                assert(u =~= s.insert(j as int, cat@));
                assert forall|a: int, b: int| 0 <= a < b < u.len() implies text_lt(
                    #[trigger] u[a],
                    #[trigger] u[b],
                ) by {
                    if a < j && b == j {
                    } else if a < j && b > j {
                        assert(u[b] == s[b - 1]);
                    } else if a == j {
                        assert(u[b] == s[b - 1]);
                        if b - 1 > j {
                            assert(text_lt(s[j as int], s[b - 1]));
                            lemma_text_lt_transitive(cat@, s[j as int], s[b - 1]);
                        }
                    } else if b < j {
                        assert(u[a] == s[a] && u[b] == s[b]);
                    } else {
                        assert(u[a] == s[a - 1] && u[b] == s[b - 1]);
                    }
                }
                assert forall|k: int| 0 <= k < cats@.len() implies #[trigger] counts@[k] as nat
                    == category_count(post, cats@[k]@) by {
                    if k < j {
                        assert(cats@[k] == old_cats[k] && counts@[k] == old_counts[k]);
                        assert(s[k] == old_cats[k]@);
                        lemma_text_lt_irreflexive(cat@);
                    } else if k > j {
                        assert(cats@[k] == old_cats[k - 1] && counts@[k] == old_counts[k - 1]);
                        assert(s[k - 1] == old_cats[k - 1]@);
                        if old_cats[k - 1]@ == cat@ {
                            assert(s.contains(cat@));
                        }
                    }
                }
                assert forall|c: Seq<char>| #[trigger] u.contains(c) <==> has_category(post, c) by {
                    if u.contains(c) {
                        let k = choose|k: int| 0 <= k < u.len() && u[k] == c;
                        if k < j {
                            assert(s[k] == c);
                        } else if k > j {
                            assert(s[k - 1] == c);
                        }
                    }
                    if s.contains(c) {
                        let k = choose|k: int| 0 <= k < s.len() && s[k] == c;
                        if k < j {
                            assert(u[k] == c);
                        } else {
                            assert(u[k + 1] == c);
                        }
                    }
                    if c == cat@ {
                        assert(u[j as int] == c);
                    }
                }
            }
            i += 1;
        }
        assert(cs.take(i as int) =~= cs);
        let mut r: Vec<(String, usize)> = Vec::new();
        let mut k: usize = 0;
        while k < cats.len()
            invariant
                0 <= k <= cats.len(),
                cats@.len() == counts@.len(),
                r@.len() == k,
                forall|m: int| 0 <= m < k ==> #[trigger] r@[m].0@ == cats@[m]@ && r@[m].1 == counts@[m],
            decreases cats.len() - k,
        {
            r.push((cats[k].clone(), counts[k]));
            k += 1;
        }
        assert(category_names(r@) =~= view_strings(cats@));
        r
    }
}

pub open spec fn category_names(v: Seq<(String, usize)>) -> Seq<Seq<char>> {
    v.map_values(|e: (String, usize)| e.0@)
}

/// Some component is of the category.
pub open spec fn has_category(cs: Seq<ComponentView>, c: Seq<char>) -> bool {
    exists|k: int| 0 <= k < cs.len() && (#[trigger] cs[k]).category == c
}

pub proof fn lemma_has_category_step(cs: Seq<ComponentView>, i: int)
    requires
        0 <= i < cs.len(),
    ensures
        forall|c: Seq<char>| #[trigger] has_category(cs.take(i + 1), c) <==> (has_category(
            cs.take(i),
            c,
        ) || cs[i].category == c),
{
    assert forall|c: Seq<char>| #[trigger] has_category(cs.take(i + 1), c) <==> (has_category(
        cs.take(i),
        c,
    ) || cs[i].category == c) by {
        if has_category(cs.take(i + 1), c) {
            let k = choose|k: int| 0 <= k < i + 1 && (#[trigger] cs.take(i + 1)[k]).category == c;
            if k < i {
                assert(cs.take(i)[k] == cs.take(i + 1)[k]);
            }
        }
        if has_category(cs.take(i), c) {
            let k = choose|k: int| 0 <= k < i && (#[trigger] cs.take(i)[k]).category == c;
            assert(cs.take(i)[k] == cs.take(i + 1)[k]);
        }
        if cs[i].category == c {
            assert(cs.take(i + 1)[i] == cs[i]);
        }
    }
}

pub proof fn lemma_category_count_absent(cs: Seq<ComponentView>, c: Seq<char>)
    requires
        !has_category(cs, c),
    ensures
        category_count(cs, c) == 0,
    decreases cs.len(),
{
    if cs.len() > 0 {
        assert forall|k: int| 0 <= k < cs.len() - 1 implies (#[trigger] cs.drop_last()[k]).category
            != c by {
            assert(cs.drop_last()[k] == cs[k]);
        }
        lemma_category_count_absent(cs.drop_last(), c);
        assert(cs.last() == cs[cs.len() - 1]);
    }
}

} // verus!
