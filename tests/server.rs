use react_component_server::error::{ErrorKind, ServerError};
use react_component_server::library::{get_sample_components, get_sample_documentation};
use react_component_server::router::{server_name, server_version, Operation};
use react_component_server::server::{ReactComponentServer, ResourceEntry};
use react_component_server::types::{
    ComponentMetadata, ComponentProp, GetComponentRequest, GetDocumentationRequest,
    ListComponentsRequest, ReactComponent, SearchComponentsRequest,
};

fn sample_server() -> ReactComponentServer {
    ReactComponentServer::new(get_sample_components(), get_sample_documentation())
}

fn list(
    server: &ReactComponentServer,
    category: Option<&str>,
    tags: Option<Vec<&str>>,
    search: Option<&str>,
    limit: Option<usize>,
) -> Vec<ComponentMetadata> {
    let req = ListComponentsRequest {
        category: category.map(|c| c.to_string()),
        tags: tags.map(|t| t.into_iter().map(|s| s.to_string()).collect()),
        search: search.map(|s| s.to_string()),
        limit,
    };
    server.list_components(&req).components
}

fn names(ms: &[ComponentMetadata]) -> Vec<String> {
    ms.iter().map(|m| m.name.clone()).collect()
}

fn component(name: &str, description: &str, category: &str, tags: &[&str]) -> ReactComponent {
    ReactComponent {
        name: name.to_string(),
        description: description.to_string(),
        source_code: String::new(),
        props: vec![],
        examples: vec![],
        category: category.to_string(),
        tags: tags.iter().map(|t| t.to_string()).collect(),
        typescript_definitions: None,
    }
}

fn get(server: &ReactComponentServer, name: &str) -> Result<ReactComponent, ServerError> {
    server.get_component(&GetComponentRequest {
        name: name.to_string(),
        include_examples: None,
        include_typescript: None,
    })
}

#[test]
fn list_without_filters_is_sorted_by_name() {
    let server = sample_server();
    let all = list(&server, None, None, None, None);
    assert_eq!(names(&all), vec!["Button", "Card", "Input"]);
    assert_eq!(all[0].prop_count, 5);
    assert_eq!(all[0].example_count, 3);
    assert!(all[0].has_typescript);
    assert_eq!(all[1].category, "Layout");
}

#[test]
fn list_sorted_regardless_of_insertion_order() {
    let server = ReactComponentServer::new(
        vec![
            ("Zeta".to_string(), component("Zeta", "last", "UI", &["a"])),
            ("Alpha".to_string(), component("Alpha", "first", "UI", &["b"])),
            ("Mid".to_string(), component("Mid", "middle", "UI", &["c"])),
        ],
        vec![],
    );
    let all = list(&server, None, None, None, None);
    assert_eq!(names(&all), vec!["Alpha", "Mid", "Zeta"]);
}

#[test]
fn list_limit_keeps_sorted_prefix() {
    let server = sample_server();
    assert_eq!(names(&list(&server, None, None, None, Some(2))), vec!["Button", "Card"]);
    assert_eq!(names(&list(&server, None, None, None, Some(0))), Vec::<String>::new());
    assert_eq!(names(&list(&server, None, None, None, Some(10))).len(), 3);
}

#[test]
fn list_filters_by_category() {
    let server = sample_server();
    assert_eq!(names(&list(&server, Some("UI"), None, None, None)), vec!["Button"]);
    assert_eq!(names(&list(&server, Some("ui"), None, None, None)), Vec::<String>::new());
}

#[test]
fn list_filters_by_any_tag() {
    let server = sample_server();
    assert_eq!(names(&list(&server, None, Some(vec!["form"]), None, None)), vec!["Button", "Input"]);
    assert_eq!(
        names(&list(&server, None, Some(vec!["layout", "validation"]), None, None)),
        vec!["Card", "Input"]
    );
    assert_eq!(names(&list(&server, None, Some(vec!["missing"]), None, None)), Vec::<String>::new());
}

#[test]
fn list_empty_tag_list_is_no_filter() {
    let server = sample_server();
    assert_eq!(names(&list(&server, None, Some(vec![]), None, None)).len(), 3);
}

#[test]
fn list_search_ignores_case() {
    let server = sample_server();
    assert_eq!(names(&list(&server, None, None, Some("CARD"), None)), vec!["Card"]);
    assert_eq!(names(&list(&server, None, None, Some("interactive"), None)), vec!["Button"]);
    assert_eq!(
        names(&list(&server, None, None, Some("component"), None)),
        vec!["Button", "Card", "Input"]
    );
}

#[test]
fn list_filters_combine() {
    let server = sample_server();
    assert_eq!(names(&list(&server, Some("Form"), Some(vec!["form"]), None, None)), vec!["Input"]);
    assert_eq!(
        names(&list(&server, Some("Form"), Some(vec!["form"]), Some("button"), None)),
        Vec::<String>::new()
    );
}

#[test]
fn get_component_ignores_case_when_no_exact_key() {
    let server = sample_server();
    let lower = get(&server, "button").unwrap();
    let exact = get(&server, "Button").unwrap();
    assert_eq!(lower, exact);
    assert_eq!(exact.name, "Button");
    assert_eq!(exact.examples.len(), 3);
}

#[test]
fn get_component_unknown_lists_all_keys() {
    let server = sample_server();
    let err = get(&server, "DoesNotExist").unwrap_err();
    assert_eq!(err.kind(), ErrorKind::InvalidParams);
    assert_eq!(err.message(), "Component not found");
    match err {
        ServerError::ComponentNotFound { component_name, available_components } => {
            assert_eq!(component_name, "DoesNotExist");
            assert_eq!(available_components, vec!["Button", "Card", "Input"]);
        }
        other => panic!("unexpected error {:?}", other),
    }
}

#[test]
fn get_component_drops_declined_parts() {
    let server = sample_server();
    let c = server
        .get_component(&GetComponentRequest {
            name: "Card".to_string(),
            include_examples: Some(false),
            include_typescript: Some(false),
        })
        .unwrap();
    assert!(c.examples.is_empty());
    assert!(c.typescript_definitions.is_none());
    assert_eq!(c.props.len(), 3);
    let kept = server
        .get_component(&GetComponentRequest {
            name: "Card".to_string(),
            include_examples: Some(true),
            include_typescript: None,
        })
        .unwrap();
    assert_eq!(kept.examples.len(), 1);
    assert_eq!(kept.typescript_definitions.as_deref(), Some("export interface CardProps { ... }"));
}

#[test]
fn get_documentation_missing_section_lists_all_sections() {
    let server = sample_server();
    let err = server
        .get_documentation(&GetDocumentationRequest {
            topic: "getting-started".to_string(),
            section: Some("nonexistent".to_string()),
        })
        .unwrap_err();
    assert_eq!(err.kind(), ErrorKind::InvalidParams);
    match err {
        ServerError::SectionNotFound { section, topic, available_sections } => {
            assert_eq!(section, "nonexistent");
            assert_eq!(topic, "getting-started");
            assert_eq!(available_sections, vec!["installation", "usage"]);
        }
        other => panic!("unexpected error {:?}", other),
    }
}

#[test]
fn get_documentation_section_filter() {
    let server = sample_server();
    let d = server
        .get_documentation(&GetDocumentationRequest {
            topic: "getting-started".to_string(),
            section: Some("usage".to_string()),
        })
        .unwrap();
    assert_eq!(d.sections.len(), 1);
    assert_eq!(d.sections[0].title, "Basic Usage");
    let whole = server
        .get_documentation(&GetDocumentationRequest { topic: "theming".to_string(), section: None })
        .unwrap();
    assert_eq!(whole.sections.len(), 1);
    assert_eq!(whole.title, "Theming and Customization");
}

#[test]
fn get_documentation_unknown_topic() {
    let server = sample_server();
    let err = server
        .get_documentation(&GetDocumentationRequest { topic: "nope".to_string(), section: None })
        .unwrap_err();
    assert_eq!(err.message(), "Documentation topic not found");
    match err {
        ServerError::TopicNotFound { topic, available_topics } => {
            assert_eq!(topic, "nope");
            assert_eq!(available_topics, vec!["getting-started", "theming"]);
        }
        other => panic!("unexpected error {:?}", other),
    }
}

#[test]
fn reads_are_repeatable() {
    let server = sample_server();
    assert_eq!(list(&server, None, None, Some("a"), Some(2)), list(&server, None, None, Some("a"), Some(2)));
    assert_eq!(get(&server, "input"), get(&server, "input"));
    assert_eq!(get(&server, "nothing"), get(&server, "nothing"));
    assert_eq!(server.read_resource("docs://theming"), server.read_resource("docs://theming"));
    assert_eq!(server.get_component_tags(), server.get_component_tags());
    assert_eq!(server.get_component_categories(), server.get_component_categories());
}

#[test]
fn search_ranks_exact_name_first() {
    let server = ReactComponentServer::new(
        vec![
            (
                "Actions".to_string(),
                component("Actions", "A row of button actions", "UI", &["group"]),
            ),
            ("Button".to_string(), component("Button", "Clickable", "UI", &["click"])),
            ("Badge".to_string(), component("Badge", "Small label", "UI", &["button-like"])),
        ],
        vec![],
    );
    let found = server.search_components(&SearchComponentsRequest {
        query: "button".to_string(),
        categories: None,
        tags: None,
        limit: None,
    });
    assert_eq!(names(&found), vec!["Button", "Actions", "Badge"]);
}

#[test]
fn search_matches_props_and_filters() {
    let server = sample_server();
    let by_prop = server.search_components(&SearchComponentsRequest {
        query: "elevation".to_string(),
        categories: None,
        tags: None,
        limit: None,
    });
    assert_eq!(names(&by_prop), vec!["Card"]);
    let in_category = server.search_components(&SearchComponentsRequest {
        query: "the".to_string(),
        categories: Some(vec!["Form".to_string(), "Layout".to_string()]),
        tags: None,
        limit: Some(1),
    });
    assert_eq!(names(&in_category), vec!["Card"]);
    let none = server.search_components(&SearchComponentsRequest {
        query: "button".to_string(),
        categories: Some(vec![]),
        tags: None,
        limit: None,
    });
    assert!(none.is_empty());
}

#[test]
fn read_component_resource_mentions_description_and_props() {
    let server = sample_server();
    let text = server.read_resource("component://Card").unwrap();
    assert!(text.starts_with("# Card Component\n\n"));
    assert!(text.contains("A flexible card component for displaying content with optional header and footer"));
    for prop in ["children", "title", "elevation"] {
        assert!(text.contains(prop));
    }
    assert!(text.contains("- **children** (React.ReactNode): The main content of the card *Required*"));
    assert!(text.contains("- **title** (string): Optional title for the card header\n"));
    assert!(text.contains("## Examples\n\n### Basic Card\n\nA simple card with title and content\n\n```tsx\n"));
}

#[test]
fn read_unknown_resource_fails() {
    let server = sample_server();
    let err = server.read_resource("component://Unknown").unwrap_err();
    assert_eq!(err.kind(), ErrorKind::ResourceNotFound);
    assert_eq!(err, ServerError::ResourceNotFound { uri: "component://Unknown".to_string() });
    assert_eq!(server.read_resource("http://Card").unwrap_err().kind(), ErrorKind::ResourceNotFound);
    assert!(server.read_resource("component://card").is_err());
}

#[test]
fn read_documentation_resource_text() {
    let server = sample_server();
    let text = server.read_resource("docs://theming").unwrap();
    let expected = "# Theming and Customization\n\n\
Learn how to customize the appearance of components using CSS variables and custom themes.\n\n\
## CSS Variables\n\nUse CSS custom properties to customize component appearance:\n\n\
```\n:root {\n  --btn-primary-bg: #007bff;\n  --btn-primary-color: white;\n  --card-border-radius: 8px;\n  --input-border-color: #ddd;\n}\n```\n\n\
## Related Components\n\nButton, Card";
    assert_eq!(text, expected);
}

#[test]
fn render_component_without_props_or_examples() {
    let server = ReactComponentServer::new(
        vec![("Box".to_string(), component("Box", "A box", "Layout", &[]))],
        vec![],
    );
    let text = server.read_resource("component://Box").unwrap();
    assert_eq!(
        text,
        "# Box Component\n\nA box\n\n## Source Code\n\n```tsx\n\n```\n\n## Props\n\n\n\n## Examples\n\n"
    );
}

#[test]
fn tags_are_sorted_and_distinct() {
    let server = sample_server();
    assert_eq!(
        server.get_component_tags(),
        vec!["button", "card", "container", "form", "input", "interactive", "layout", "validation"]
    );
}

#[test]
fn tags_do_not_depend_on_insertion_order() {
    let mut reversed = get_sample_components();
    reversed.reverse();
    let a = sample_server();
    let b = ReactComponentServer::new(reversed, vec![]);
    assert_eq!(a.get_component_tags(), b.get_component_tags());
}

#[test]
fn categories_are_counted() {
    let server = ReactComponentServer::new(
        vec![
            ("A".to_string(), component("A", "", "UI", &[])),
            ("B".to_string(), component("B", "", "Form", &[])),
            ("C".to_string(), component("C", "", "UI", &[])),
        ],
        vec![],
    );
    assert_eq!(
        server.get_component_categories(),
        vec![("Form".to_string(), 1), ("UI".to_string(), 2)]
    );
    assert_eq!(
        sample_server().get_component_categories(),
        vec![("Form".to_string(), 1), ("Layout".to_string(), 1), ("UI".to_string(), 1)]
    );
}

#[test]
fn documentation_topics_sorted() {
    let docs = get_sample_documentation().into_iter().rev().collect();
    let server = ReactComponentServer::new(vec![], docs);
    assert_eq!(server.list_documentation_topics(), vec!["getting-started", "theming"]);
}

#[test]
fn resources_listed_per_component_then_topic() {
    let server = sample_server();
    let r = server.list_resources();
    assert_eq!(r.len(), 5);
    assert_eq!(
        r[0],
        ResourceEntry { uri: "component://Button".to_string(), name: "Button Component".to_string() }
    );
    assert_eq!(
        r[4],
        ResourceEntry { uri: "docs://theming".to_string(), name: "Documentation: theming".to_string() }
    );
}

#[test]
fn later_entry_replaces_earlier_key() {
    let server = ReactComponentServer::new(
        vec![
            ("X".to_string(), component("X", "old", "UI", &[])),
            ("Y".to_string(), component("Y", "y", "UI", &[])),
            ("X".to_string(), component("X", "new", "UI", &[])),
        ],
        vec![],
    );
    let all = list(&server, None, None, None, None);
    assert_eq!(all.len(), 2);
    assert_eq!(get(&server, "X").unwrap().description, "new");
    let err = get(&server, "Z").unwrap_err();
    match err {
        ServerError::ComponentNotFound { available_components, .. } => {
            assert_eq!(available_components, vec!["X", "Y"]);
        }
        other => panic!("unexpected error {:?}", other),
    }
}

#[test]
fn prop_lines_mark_required() {
    let mut c = component("P", "d", "UI", &[]);
    c.props.push(ComponentProp {
        name: "size".to_string(),
        prop_type: "number".to_string(),
        required: false,
        default_value: String::new(),
        description: "How big".to_string(),
    });
    c.props.push(ComponentProp {
        name: "id".to_string(),
        prop_type: "string".to_string(),
        required: true,
        default_value: String::new(),
        description: "Identifier".to_string(),
    });
    let server = ReactComponentServer::new(vec![("P".to_string(), c)], vec![]);
    let text = server.read_resource("component://P").unwrap();
    assert!(text.contains("## Props\n\n- **size** (number): How big\n- **id** (string): Identifier *Required*\n\n## Examples"));
}

#[test]
fn operations_by_name() {
    assert_eq!(Operation::from_name("list_components").unwrap(), Operation::ListComponents);
    assert_eq!(Operation::from_name("get_component_tags").unwrap(), Operation::GetComponentTags);
    assert_eq!(Operation::from_name("read_resource").unwrap(), Operation::ReadResource);
    let err = Operation::from_name("drop_tables").unwrap_err();
    assert_eq!(err.kind(), ErrorKind::UnknownOperation);
    assert_eq!(err, ServerError::UnknownOperation { name: "drop_tables".to_string() });
    assert_eq!(server_name(), "react-component-server");
    assert_eq!(server_version(), "1.0.0");
}
