//! The manifest that describes a component directory, with its defaults.

use vstd::prelude::*;
use crate::types::ComponentProp;

verus! {

/// What a component directory declares about itself.
#[derive(Debug, PartialEq, Eq)]
pub struct ComponentManifest {
    pub name: String,
    pub description: String,
    pub category: String,
    pub tags: Vec<String>,
    pub version: String,
    pub dependencies: ComponentDependencies,
    pub files: ComponentFiles,
    pub exports: Option<ComponentExports>,
    pub props: Vec<ComponentProp>,
}

/// The files of a component, relative to its directory.
#[derive(Debug, PartialEq, Eq)]
pub struct ComponentFiles {
    pub component: String,
    pub types: String,
    pub documentation: String,
    pub examples: Vec<String>,
    pub utils: Vec<String>,
}

impl Default for ComponentFiles {
    fn default() -> (r: Self)
        ensures
            r.component@ == "component.tsx"@,
            r.types@ == "types.ts"@,
            r.documentation@ == "README.md"@,
            r.examples@.len() == 0,
            r.utils@.len() == 0,
    {
        ComponentFiles {
            component: default_component_file(),
            types: default_types_file(),
            documentation: default_documentation(),
            examples: Vec::new(),
            utils: Vec::new(),
        }
    }
}

/// The names a component's module exports.
#[derive(Debug, PartialEq, Eq)]
pub struct ComponentExports {
    pub main: String,
    pub types: String,
}

/// Dependencies as a name-to-version mapping or as a plain list of names.
#[derive(Debug, PartialEq, Eq)]
pub enum ComponentDependencies {
    Mapping(Vec<(String, String)>),
    List(Vec<String>),
}

impl Default for ComponentDependencies {
    fn default() -> (r: Self)
        ensures
            r is Mapping && r->Mapping_0@.len() == 0,
    {
        ComponentDependencies::Mapping(Vec::new())
    }
}

pub fn default_version() -> (r: String)
    ensures
        r@ == "1.0.0"@,
{
    String::from_str("1.0.0")
}

pub fn default_component_file() -> (r: String)
    ensures
        r@ == "component.tsx"@,
{
    String::from_str("component.tsx")
}

pub fn default_types_file() -> (r: String)
    ensures
        r@ == "types.ts"@,
{
    String::from_str("types.ts")
}

pub fn default_documentation() -> (r: String)
    ensures
        r@ == "README.md"@,
{
    String::from_str("README.md")
}

} // verus!
