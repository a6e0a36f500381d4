//! The operations the server offers, by name, and how it introduces itself.

use vstd::prelude::*;
use crate::error::{ErrorView, ServerError};
use crate::text::same_text;

verus! {

#[derive(Debug, Clone, Copy, PartialEq, Eq, Structural)]
pub enum Operation {
    ListComponents,
    GetComponent,
    SearchComponents,
    GetDocumentation,
    ListDocumentationTopics,
    GetComponentCategories,
    GetComponentTags,
    ListResources,
    ReadResource,
}

/// The operation of each name the server answers to.
pub open spec fn operation_named(name: Seq<char>) -> Option<Operation> {
    if name == "list_components"@ {
        Some(Operation::ListComponents)
    } else if name == "get_component"@ {
        Some(Operation::GetComponent)
    } else if name == "search_components"@ {
        Some(Operation::SearchComponents)
    } else if name == "get_documentation"@ {
        Some(Operation::GetDocumentation)
    } else if name == "list_documentation_topics"@ {
        Some(Operation::ListDocumentationTopics)
    } else if name == "get_component_categories"@ {
        Some(Operation::GetComponentCategories)
    } else if name == "get_component_tags"@ {
        Some(Operation::GetComponentTags)
    } else if name == "list_resources"@ {
        Some(Operation::ListResources)
    } else if name == "read_resource"@ {
        Some(Operation::ReadResource)
    } else {
        None
    }
}

impl Operation {
    /// The operation of a name; an unknown name is an error of its own kind.
    pub fn from_name(name: &str) -> (r: Result<Operation, ServerError>)
        ensures
            match operation_named(name@) {
                Some(op) => r is Ok && r->Ok_0 == op,
                None => r is Err && r->Err_0@ == (ErrorView::UnknownOperation { name: name@ }),
            },
    {
        if same_text(name, "list_components") {
            Ok(Operation::ListComponents)
        } else if same_text(name, "get_component") {
            Ok(Operation::GetComponent)
        } else if same_text(name, "search_components") {
            Ok(Operation::SearchComponents)
        } else if same_text(name, "get_documentation") {
            Ok(Operation::GetDocumentation)
        } else if same_text(name, "list_documentation_topics") {
            Ok(Operation::ListDocumentationTopics)
        } else if same_text(name, "get_component_categories") {
            Ok(Operation::GetComponentCategories)
        } else if same_text(name, "get_component_tags") {
            Ok(Operation::GetComponentTags)
        } else if same_text(name, "list_resources") {
            Ok(Operation::ListResources)
        } else if same_text(name, "read_resource") {
            Ok(Operation::ReadResource)
        } else {
            Err(ServerError::UnknownOperation { name: String::from_str(name) })
        }
    }
}

pub fn server_name() -> (r: String)
    ensures
        r@ == "react-component-server"@,
{
    String::from_str("react-component-server")
}

pub fn server_version() -> (r: String)
    ensures
        r@ == "1.0.0"@,
{
    String::from_str("1.0.0")
}

/// How the server describes its use to a client.
pub fn server_instructions() -> (r: String)
    ensures
        r@ == "This server provides access to a library of React components and their documentation. Use the available tools to list, search, and get detailed information about components. You can also access documentation on various topics related to the component library."@,
{
    String::from_str(
        "This server provides access to a library of React components and their documentation. Use the available tools to list, search, and get detailed information about components. You can also access documentation on various topics related to the component library.",
    )
}

} // verus!
