//! The records of the catalog and the views that contracts speak of.

use vstd::prelude::*;

verus! {

pub open spec fn view_strings(v: Seq<String>) -> Seq<Seq<char>> {
    v.map_values(|s: String| s@)
}

pub open spec fn view_opt_string(o: Option<String>) -> Option<Seq<char>> {
    match o {
        Some(s) => Some(s@),
        None => None,
    }
}

pub fn clone_strings(v: &Vec<String>) -> (r: Vec<String>)
    ensures
        view_strings(r@) == view_strings(v@),
{
    let r = v.clone();
    assert(r@ =~= v@);
    r
}

pub fn clone_opt_string(o: &Option<String>) -> (r: Option<String>)
    ensures
        view_opt_string(r) == view_opt_string(*o),
{
    match o {
        Some(s) => Some(s.clone()),
        None => None,
    }
}

/// One property of a component, as its documentation lists it.
#[derive(Debug, PartialEq, Eq)]
pub struct ComponentProp {
    pub name: String,
    pub prop_type: String,
    pub required: bool,
    pub default_value: String,
    pub description: String,
}

pub struct PropView {
    pub name: Seq<char>,
    pub prop_type: Seq<char>,
    pub required: bool,
    pub default_value: Seq<char>,
    pub description: Seq<char>,
}

impl View for ComponentProp {
    type V = PropView;

    open spec fn view(&self) -> PropView {
        PropView {
            name: self.name@,
            prop_type: self.prop_type@,
            required: self.required,
            default_value: self.default_value@,
            description: self.description@,
        }
    }
}

impl Clone for ComponentProp {
    fn clone(&self) -> (r: Self)
        ensures
            r@ == self@,
    {
        ComponentProp {
            name: self.name.clone(),
            prop_type: self.prop_type.clone(),
            required: self.required,
            default_value: self.default_value.clone(),
            description: self.description.clone(),
        }
    }
}

pub open spec fn view_props(v: Seq<ComponentProp>) -> Seq<PropView> {
    v.map_values(|p: ComponentProp| p@)
}

pub fn clone_props(v: &Vec<ComponentProp>) -> (r: Vec<ComponentProp>)
    ensures
        view_props(r@) == view_props(v@),
{
    let r = v.clone();
    assert(view_props(r@) =~= view_props(v@));
    r
}

/// One value an example passes to a property, kept as JSON text.
#[derive(Debug, PartialEq, Eq)]
pub struct ExampleProp {
    pub name: String,
    pub json: String,
}

impl View for ExampleProp {
    type V = (Seq<char>, Seq<char>);

    open spec fn view(&self) -> (Seq<char>, Seq<char>) {
        (self.name@, self.json@)
    }
}

impl Clone for ExampleProp {
    fn clone(&self) -> (r: Self)
        ensures
            r@ == self@,
    {
        ExampleProp { name: self.name.clone(), json: self.json.clone() }
    }
}

/// A worked example of a component in use.
#[derive(Debug, PartialEq, Eq)]
pub struct ComponentExample {
    pub title: String,
    pub description: String,
    pub code: String,
    pub props: Vec<ExampleProp>,
}

pub struct ExampleView {
    pub title: Seq<char>,
    pub description: Seq<char>,
    pub code: Seq<char>,
    pub props: Seq<(Seq<char>, Seq<char>)>,
}

impl View for ComponentExample {
    type V = ExampleView;

    open spec fn view(&self) -> ExampleView {
        ExampleView {
            title: self.title@,
            description: self.description@,
            code: self.code@,
            props: self.props@.map_values(|p: ExampleProp| p@),
        }
    }
}

impl Clone for ComponentExample {
    fn clone(&self) -> (r: Self)
        ensures
            r@ == self@,
    {
        let props = self.props.clone();
        assert(props@.map_values(|p: ExampleProp| p@) =~= self.props@.map_values(
            |p: ExampleProp| p@,
        ));
        ComponentExample {
            title: self.title.clone(),
            description: self.description.clone(),
            code: self.code.clone(),
            props,
        }
    }
}

pub open spec fn view_examples(v: Seq<ComponentExample>) -> Seq<ExampleView> {
    v.map_values(|e: ComponentExample| e@)
}

pub fn clone_examples(v: &Vec<ComponentExample>) -> (r: Vec<ComponentExample>)
    ensures
        view_examples(r@) == view_examples(v@),
{
    let r = v.clone();
    assert(view_examples(r@) =~= view_examples(v@));
    r
}

/// A component of the catalog with everything known about it.
#[derive(Debug, PartialEq, Eq)]
pub struct ReactComponent {
    pub name: String,
    pub description: String,
    pub source_code: String,
    pub props: Vec<ComponentProp>,
    pub examples: Vec<ComponentExample>,
    pub category: String,
    pub tags: Vec<String>,
    pub typescript_definitions: Option<String>,
}

pub struct ComponentView {
    pub name: Seq<char>,
    pub description: Seq<char>,
    pub source_code: Seq<char>,
    pub props: Seq<PropView>,
    pub examples: Seq<ExampleView>,
    pub category: Seq<char>,
    pub tags: Seq<Seq<char>>,
    pub typescript_definitions: Option<Seq<char>>,
}

impl View for ReactComponent {
    type V = ComponentView;

    open spec fn view(&self) -> ComponentView {
        ComponentView {
            name: self.name@,
            description: self.description@,
            source_code: self.source_code@,
            props: view_props(self.props@),
            examples: view_examples(self.examples@),
            category: self.category@,
            tags: view_strings(self.tags@),
            typescript_definitions: view_opt_string(self.typescript_definitions),
        }
    }
}

impl Clone for ReactComponent {
    fn clone(&self) -> (r: Self)
        ensures
            r@ == self@,
    {
        ReactComponent {
            name: self.name.clone(),
            description: self.description.clone(),
            source_code: self.source_code.clone(),
            props: clone_props(&self.props),
            examples: clone_examples(&self.examples),
            category: self.category.clone(),
            tags: clone_strings(&self.tags),
            typescript_definitions: clone_opt_string(&self.typescript_definitions),
        }
    }
}

/// The summary of a component that listings return.
#[derive(Debug, PartialEq, Eq)]
pub struct ComponentMetadata {
    pub name: String,
    pub description: String,
    pub category: String,
    pub tags: Vec<String>,
    pub has_typescript: bool,
    pub prop_count: usize,
    pub example_count: usize,
}

pub struct MetadataView {
    pub name: Seq<char>,
    pub description: Seq<char>,
    pub category: Seq<char>,
    pub tags: Seq<Seq<char>>,
    pub has_typescript: bool,
    pub prop_count: nat,
    pub example_count: nat,
}

impl View for ComponentMetadata {
    type V = MetadataView;

    open spec fn view(&self) -> MetadataView {
        MetadataView {
            name: self.name@,
            description: self.description@,
            category: self.category@,
            tags: view_strings(self.tags@),
            has_typescript: self.has_typescript,
            prop_count: self.prop_count as nat,
            example_count: self.example_count as nat,
        }
    }
}

impl Clone for ComponentMetadata {
    fn clone(&self) -> (r: Self)
        ensures
            r@ == self@,
    {
        ComponentMetadata {
            name: self.name.clone(),
            description: self.description.clone(),
            category: self.category.clone(),
            tags: clone_strings(&self.tags),
            has_typescript: self.has_typescript,
            prop_count: self.prop_count,
            example_count: self.example_count,
        }
    }
}

pub open spec fn metadata_of(c: ComponentView) -> MetadataView {
    MetadataView {
        name: c.name,
        description: c.description,
        category: c.category,
        tags: c.tags,
        has_typescript: c.typescript_definitions is Some,
        prop_count: c.props.len(),
        example_count: c.examples.len(),
    }
}

impl ComponentMetadata {
    pub fn of(c: &ReactComponent) -> (r: ComponentMetadata)
        ensures
            r@ == metadata_of(c@),
    {
        ComponentMetadata {
            name: c.name.clone(),
            description: c.description.clone(),
            category: c.category.clone(),
            tags: clone_strings(&c.tags),
            has_typescript: c.typescript_definitions.is_some(),
            prop_count: c.props.len(),
            example_count: c.examples.len(),
        }
    }
}

pub open spec fn view_metadata(v: Seq<ComponentMetadata>) -> Seq<MetadataView> {
    v.map_values(|m: ComponentMetadata| m@)
}

/// The answer to a component listing.
#[derive(Debug, PartialEq, Eq)]
pub struct ComponentListResponse {
    pub components: Vec<ComponentMetadata>,
}

/// One section of a documentation topic.
#[derive(Debug, PartialEq, Eq)]
pub struct DocumentationSection {
    pub id: String,
    pub title: String,
    pub content: String,
    pub code_examples: Vec<String>,
}

pub struct SectionView {
    pub id: Seq<char>,
    pub title: Seq<char>,
    pub content: Seq<char>,
    pub code_examples: Seq<Seq<char>>,
}

impl View for DocumentationSection {
    type V = SectionView;

    open spec fn view(&self) -> SectionView {
        SectionView {
            id: self.id@,
            title: self.title@,
            content: self.content@,
            code_examples: view_strings(self.code_examples@),
        }
    }
}

impl Clone for DocumentationSection {
    fn clone(&self) -> (r: Self)
        ensures
            r@ == self@,
    {
        DocumentationSection {
            id: self.id.clone(),
            title: self.title.clone(),
            content: self.content.clone(),
            code_examples: clone_strings(&self.code_examples),
        }
    }
}

pub open spec fn view_sections(v: Seq<DocumentationSection>) -> Seq<SectionView> {
    v.map_values(|s: DocumentationSection| s@)
}

pub fn clone_sections(v: &Vec<DocumentationSection>) -> (r: Vec<DocumentationSection>)
    ensures
        view_sections(r@) == view_sections(v@),
{
    let r = v.clone();
    assert(view_sections(r@) =~= view_sections(v@));
    r
}

/// A documentation topic: a body of text and its sections.
#[derive(Debug, PartialEq, Eq)]
pub struct Documentation {
    pub topic: String,
    pub title: String,
    pub content: String,
    pub sections: Vec<DocumentationSection>,
    pub examples: Vec<String>,
    pub related_components: Vec<String>,
}

pub struct DocumentationView {
    pub topic: Seq<char>,
    pub title: Seq<char>,
    pub content: Seq<char>,
    pub sections: Seq<SectionView>,
    pub examples: Seq<Seq<char>>,
    pub related_components: Seq<Seq<char>>,
}

impl View for Documentation {
    type V = DocumentationView;

    open spec fn view(&self) -> DocumentationView {
        DocumentationView {
            topic: self.topic@,
            title: self.title@,
            content: self.content@,
            sections: view_sections(self.sections@),
            examples: view_strings(self.examples@),
            related_components: view_strings(self.related_components@),
        }
    }
}

impl Clone for Documentation {
    fn clone(&self) -> (r: Self)
        ensures
            r@ == self@,
    {
        Documentation {
            topic: self.topic.clone(),
            title: self.title.clone(),
            content: self.content.clone(),
            sections: clone_sections(&self.sections),
            examples: clone_strings(&self.examples),
            related_components: clone_strings(&self.related_components),
        }
    }
}

/// Parameters of a component listing; every filter is optional.
#[derive(Debug)]
pub struct ListComponentsRequest {
    pub category: Option<String>,
    pub tags: Option<Vec<String>>,
    pub search: Option<String>,
    pub limit: Option<usize>,
}

/// Parameters of a ranked search; the query is required.
#[derive(Debug)]
pub struct SearchComponentsRequest {
    pub query: String,
    pub categories: Option<Vec<String>>,
    pub tags: Option<Vec<String>>,
    pub limit: Option<usize>,
}

/// Parameters of a component lookup.
#[derive(Debug)]
pub struct GetComponentRequest {
    pub name: String,
    pub include_examples: Option<bool>,
    pub include_typescript: Option<bool>,
}

/// Parameters of a documentation lookup.
#[derive(Debug)]
pub struct GetDocumentationRequest {
    pub topic: String,
    pub section: Option<String>,
}

pub open spec fn view_opt_strings(o: Option<Vec<String>>) -> Option<Seq<Seq<char>>> {
    match o {
        Some(v) => Some(view_strings(v@)),
        None => None,
    }
}

} // verus!
