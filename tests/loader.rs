use std::path::PathBuf;

use react_component_server::file_loader::{
    assemble_component, capitalize, component_key, example_title, is_example_extension,
    ComponentFileLoader,
};
use react_component_server::manifest::{
    default_component_file, default_documentation, default_types_file, default_version,
    ComponentDependencies, ComponentFiles,
};
use react_component_server::text::{find_text, less_text, trim};

fn loader() -> ComponentFileLoader {
    ComponentFileLoader::new(PathBuf::from("components"))
}

#[test]
fn loader_keeps_its_directory() {
    assert_eq!(loader().components_dir(), &PathBuf::from("components"));
    assert!(loader().load_documentation().is_empty());
}

#[test]
fn description_from_block_comment() {
    let code = "import React from 'react';\n/**\n * Shows a primary button\n */\nexport const A = 1;";
    assert_eq!(
        loader().extract_description_from_code(code),
        Some("Shows a primary button".to_string())
    );
}

#[test]
fn description_on_opening_line() {
    let code = "   /** Compact card layout */\n";
    assert_eq!(
        loader().extract_description_from_code(code),
        Some("Compact card layout */".to_string())
    );
}

#[test]
fn description_skips_empty_and_closing_lines() {
    let code = "/**\n *\n */\n * /not this\n * but this\r\n";
    assert_eq!(loader().extract_description_from_code(code), Some("but this".to_string()));
    assert_eq!(loader().extract_description_from_code("// plain comment\nconst x = 1;"), None);
    assert_eq!(loader().extract_description_from_code(""), None);
}

#[test]
fn default_manifest_for_directory() {
    let m = loader().create_default_manifest(Some("button"));
    assert_eq!(m.name, "Button");
    assert_eq!(m.description, "A Button component from Fluent UI");
    assert_eq!(m.category, "UI");
    assert_eq!(m.tags, vec!["component", "ui"]);
    assert_eq!(m.version, "1.0.0");
    assert_eq!(
        m.dependencies,
        ComponentDependencies::List(vec!["@fluentui/react-components".to_string()])
    );
    assert_eq!(m.files, ComponentFiles::default());
    assert!(m.exports.is_none());
    assert!(m.props.is_empty());
    assert_eq!(loader().create_default_manifest(None).name, "Unknown");
}

#[test]
fn default_files_and_values() {
    let f = ComponentFiles::default();
    assert_eq!(f.component, "component.tsx");
    assert_eq!(f.types, "types.ts");
    assert_eq!(f.documentation, "README.md");
    assert!(f.examples.is_empty() && f.utils.is_empty());
    assert_eq!(ComponentDependencies::default(), ComponentDependencies::Mapping(vec![]));
    assert_eq!(default_version(), "1.0.0");
    assert_eq!(default_component_file(), "component.tsx");
    assert_eq!(default_types_file(), "types.ts");
    assert_eq!(default_documentation(), "README.md");
}

#[test]
fn example_titles_from_file_names() {
    assert_eq!(example_title("basic_usage"), "Basic Usage");
    assert_eq!(example_title("__with  spaces_"), "With Spaces");
    assert_eq!(example_title("Example"), "Example");
    assert_eq!(example_title(""), "");
    assert_eq!(example_title("\u{e9}t\u{e9}"), "\u{c9}t\u{e9}");
}

#[test]
fn example_from_file_uses_comment_or_title() {
    let l = loader();
    let e = l.example_from_file(Some("danger_button"), "<Button />".to_string());
    assert_eq!(e.title, "Danger Button");
    assert_eq!(e.description, "Danger Button example");
    assert_eq!(e.code, "<Button />");
    assert!(e.props.is_empty());
    let d = l.example_from_file(None, "/** Red alert */\n<Button />".to_string());
    assert_eq!(d.title, "Example");
    assert_eq!(d.description, "Red alert */");
}

#[test]
fn example_extensions() {
    assert!(is_example_extension(Some("tsx")));
    assert!(is_example_extension(Some("ts")));
    assert!(!is_example_extension(Some("js")));
    assert!(!is_example_extension(Some("TSX")));
    assert!(!is_example_extension(None));
}

#[test]
fn keys_of_directories() {
    assert_eq!(component_key(Some("card")), "card");
    assert_eq!(component_key(None), "unknown");
}

#[test]
fn assembled_component_takes_manifest_fields() {
    let m = loader().create_default_manifest(Some("card"));
    let c = assemble_component(m, "src".to_string(), Some("types".to_string()), vec![]);
    assert_eq!(c.name, "Card");
    assert_eq!(c.source_code, "src");
    assert_eq!(c.category, "UI");
    assert_eq!(c.typescript_definitions.as_deref(), Some("types"));
}

#[test]
fn text_helpers() {
    assert_eq!(capitalize("x"), "X");
    assert_eq!(capitalize(""), "");
    assert_eq!(trim("  a b \t\n"), "a b");
    assert!(find_text("hello", "ll"));
    assert!(find_text("hello", ""));
    assert!(!find_text("he", "hello"));
    assert!(less_text("Button", "Card"));
    assert!(less_text("Z", "a"));
    assert!(less_text("ab", "abc"));
    assert!(!less_text("abc", "abc"));
}

#[test]
fn unicode_white_space_separates_and_trims() {
    assert_eq!(trim("\u{3000}\u{a0}x y\u{2009}\u{85}"), "x y");
    assert_eq!(trim("\u{200b}x"), "\u{200b}x");
    assert_eq!(example_title("card\u{2003}grid_view"), "Card Grid View");
    assert_eq!(
        loader().extract_description_from_code("\u{3000}*\u{a0}Wide spaced\u{2028}\n"),
        Some("Wide spaced".to_string())
    );
}
