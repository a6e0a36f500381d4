//! Errors of the server's operations, each with the details a caller needs.

use vstd::prelude::*;
use crate::types::view_strings;

verus! {

/// How a protocol layer classifies an error.
#[derive(Debug, Clone, Copy, PartialEq, Eq, Structural)]
pub enum ErrorKind {
    InvalidParams,
    ResourceNotFound,
    UnknownOperation,
}

#[derive(Debug, PartialEq, Eq)]
pub enum ServerError {
    /// No component key matches the name, exactly or ignoring case.
    ComponentNotFound { component_name: String, available_components: Vec<String> },
    /// No documentation topic has this key.
    TopicNotFound { topic: String, available_topics: Vec<String> },
    /// The topic has no section with this id.
    SectionNotFound { section: String, topic: String, available_sections: Vec<String> },
    /// The identifier names no component and no documentation topic.
    ResourceNotFound { uri: String },
    /// The operation name is not one the server offers.
    UnknownOperation { name: String },
}

pub enum ErrorView {
    ComponentNotFound { component_name: Seq<char>, available_components: Seq<Seq<char>> },
    TopicNotFound { topic: Seq<char>, available_topics: Seq<Seq<char>> },
    SectionNotFound { section: Seq<char>, topic: Seq<char>, available_sections: Seq<Seq<char>> },
    ResourceNotFound { uri: Seq<char> },
    UnknownOperation { name: Seq<char> },
}

impl View for ServerError {
    type V = ErrorView;

    open spec fn view(&self) -> ErrorView {
        match self {
            ServerError::ComponentNotFound { component_name, available_components } =>
                ErrorView::ComponentNotFound {
                    component_name: component_name@,
                    available_components: view_strings(available_components@),
                },
            ServerError::TopicNotFound { topic, available_topics } => ErrorView::TopicNotFound {
                topic: topic@,
                available_topics: view_strings(available_topics@),
            },
            ServerError::SectionNotFound { section, topic, available_sections } =>
                ErrorView::SectionNotFound {
                    section: section@,
                    topic: topic@,
                    available_sections: view_strings(available_sections@),
                },
            ServerError::ResourceNotFound { uri } => ErrorView::ResourceNotFound { uri: uri@ },
            ServerError::UnknownOperation { name } => ErrorView::UnknownOperation { name: name@ },
        }
    }
}

pub open spec fn kind_of(e: ErrorView) -> ErrorKind {
    match e {
        ErrorView::ComponentNotFound { .. } => ErrorKind::InvalidParams,
        ErrorView::TopicNotFound { .. } => ErrorKind::InvalidParams,
        ErrorView::SectionNotFound { .. } => ErrorKind::InvalidParams,
        ErrorView::ResourceNotFound { .. } => ErrorKind::ResourceNotFound,
        ErrorView::UnknownOperation { .. } => ErrorKind::UnknownOperation,
    }
}

impl ServerError {
    pub fn kind(&self) -> (r: ErrorKind)
        ensures
            r == kind_of(self@),
    {
        match self {
            ServerError::ComponentNotFound { .. } => ErrorKind::InvalidParams,
            ServerError::TopicNotFound { .. } => ErrorKind::InvalidParams,
            ServerError::SectionNotFound { .. } => ErrorKind::InvalidParams,
            ServerError::ResourceNotFound { .. } => ErrorKind::ResourceNotFound,
            ServerError::UnknownOperation { .. } => ErrorKind::UnknownOperation,
        }
    }

    /// The human-readable message of the error.
    pub fn message(&self) -> (r: String)
        ensures
            self@ is ComponentNotFound ==> r@ == "Component not found"@,
            self@ is TopicNotFound ==> r@ == "Documentation topic not found"@,
            self@ is SectionNotFound ==> r@ == "Section not found in topic"@,
            self@ is ResourceNotFound ==> r@ == "Resource not found"@,
            self@ is UnknownOperation ==> r@ == "Unknown operation"@,
    {
        match self {
            ServerError::ComponentNotFound { .. } => String::from_str("Component not found"),
            ServerError::TopicNotFound { .. } => String::from_str("Documentation topic not found"),
            ServerError::SectionNotFound { .. } => String::from_str("Section not found in topic"),
            ServerError::ResourceNotFound { .. } => String::from_str("Resource not found"),
            ServerError::UnknownOperation { .. } => String::from_str("Unknown operation"),
        }
    }
}

} // verus!
