//! The text documents behind the `component://` and `docs://` resources.

use vstd::prelude::*;
use crate::text::{joined, join_texts};
use crate::types::{ComponentExample, ComponentProp, ComponentView, Documentation,
    DocumentationSection, DocumentationView, ExampleView, PropView, ReactComponent, SectionView,
    view_strings};

verus! {

/// `- **name** (type): description`, marked when the property is required.
pub open spec fn prop_line(p: PropView) -> Seq<char> {
    "- **"@ + p.name + "** ("@ + p.prop_type + "): "@ + p.description + if p.required {
        " *Required*"@
    } else {
        Seq::empty()
    }
}

/// A heading with the title, the description and the code in a fence.
pub open spec fn example_block(e: ExampleView) -> Seq<char> {
    "### "@ + e.title + "\n\n"@ + e.description + "\n\n```tsx\n"@ + e.code + "\n```"@
}

/// The document of a component: name, description, source, properties and
/// examples.
pub open spec fn component_text(c: ComponentView) -> Seq<char> {
    "# "@ + c.name + " Component\n\n"@ + c.description + "\n\n## Source Code\n\n```tsx\n"@
        + c.source_code + "\n```\n\n## Props\n\n"@ + joined(
        c.props.map_values(|p: PropView| prop_line(p)),
        "\n"@,
    ) + "\n\n## Examples\n\n"@ + joined(
        c.examples.map_values(|e: ExampleView| example_block(e)),
        "\n\n"@,
    )
}

pub open spec fn code_block(code: Seq<char>) -> Seq<char> {
    "```\n"@ + code + "\n```"@
}

/// A subheading with the title, the content and each snippet in a fence.
pub open spec fn section_block(s: SectionView) -> Seq<char> {
    "## "@ + s.title + "\n\n"@ + s.content + "\n\n"@ + joined(
        s.code_examples.map_values(|c: Seq<char>| code_block(c)),
        "\n\n"@,
    )
}

/// The document of a topic: title, content, sections and related components.
pub open spec fn documentation_text(d: DocumentationView) -> Seq<char> {
    "# "@ + d.title + "\n\n"@ + d.content + "\n\n"@ + joined(
        d.sections.map_values(|s: SectionView| section_block(s)),
        "\n\n"@,
    ) + "\n\n## Related Components\n\n"@ + joined(d.related_components, ", "@)
}

pub fn render_prop(p: &ComponentProp) -> (r: String)
    ensures
        r@ == prop_line(p@),
{
    let mut s = String::from_str("- **");
    s.append(p.name.as_str());
    s.append("** (");
    s.append(p.prop_type.as_str());
    s.append("): ");
    s.append(p.description.as_str());
    if p.required {
        s.append(" *Required*");
    } else {
        assert(s@ + Seq::<char>::empty() =~= s@);
    }
    s
}

pub fn render_example(e: &ComponentExample) -> (r: String)
    ensures
        r@ == example_block(e@),
{
    let mut s = String::from_str("### ");
    s.append(e.title.as_str());
    s.append("\n\n");
    s.append(e.description.as_str());
    s.append("\n\n```tsx\n");
    s.append(e.code.as_str());
    s.append("\n```");
    s
}

/// The document of a component.
pub fn render_component(c: &ReactComponent) -> (r: String)
    ensures
        r@ == component_text(c@),
{
    let mut lines: Vec<String> = Vec::new();
    let mut i: usize = 0;
    while i < c.props.len()
        invariant
            0 <= i <= c.props.len(),
            lines@.len() == i,
            forall|k: int| 0 <= k < i ==> #[trigger] lines@[k]@ == prop_line(c.props@[k]@),
        decreases c.props.len() - i,
    {
        lines.push(render_prop(&c.props[i]));
        i += 1;
    }
    assert(lines@.map_values(|p: String| p@) =~= c@.props.map_values(|p: PropView| prop_line(p)));
    let props = join_texts(&lines, "\n");
    let mut blocks: Vec<String> = Vec::new();
    let mut j: usize = 0;
    while j < c.examples.len()
        invariant
            0 <= j <= c.examples.len(),
            blocks@.len() == j,
            forall|k: int| 0 <= k < j ==> #[trigger] blocks@[k]@ == example_block(c.examples@[k]@),
        decreases c.examples.len() - j,
    {
        blocks.push(render_example(&c.examples[j]));
        j += 1;
    }
    assert(blocks@.map_values(|p: String| p@) =~= c@.examples.map_values(
        |e: ExampleView| example_block(e),
    ));
    let examples = join_texts(&blocks, "\n\n");
    let mut s = String::from_str("# ");
    s.append(c.name.as_str());
    s.append(" Component\n\n");
    s.append(c.description.as_str());
    s.append("\n\n## Source Code\n\n```tsx\n");
    s.append(c.source_code.as_str());
    s.append("\n```\n\n## Props\n\n");
    s.append(props.as_str());
    s.append("\n\n## Examples\n\n");
    s.append(examples.as_str());
    s
}

pub fn render_section(sec: &DocumentationSection) -> (r: String)
    ensures
        r@ == section_block(sec@),
{
    let mut blocks: Vec<String> = Vec::new();
    let mut i: usize = 0;
    while i < sec.code_examples.len()
        invariant
            0 <= i <= sec.code_examples.len(),
            blocks@.len() == i,
            forall|k: int| 0 <= k < i ==> #[trigger] blocks@[k]@ == code_block(
                sec.code_examples@[k]@,
            ),
        decreases sec.code_examples.len() - i,
    {
        let mut b = String::from_str("```\n");
        b.append(sec.code_examples[i].as_str());
        b.append("\n```");
        blocks.push(b);
        i += 1;
    }
    assert(blocks@.map_values(|p: String| p@) =~= sec@.code_examples.map_values(
        |c: Seq<char>| code_block(c),
    ));
    let code = join_texts(&blocks, "\n\n");
    let mut s = String::from_str("## ");
    s.append(sec.title.as_str());
    s.append("\n\n");
    s.append(sec.content.as_str());
    s.append("\n\n");
    s.append(code.as_str());
    s
}

/// The document of a documentation topic.
pub fn render_documentation(d: &Documentation) -> (r: String)
    ensures
        r@ == documentation_text(d@),
{
    let mut blocks: Vec<String> = Vec::new();
    let mut i: usize = 0;
    while i < d.sections.len()
        invariant
            0 <= i <= d.sections.len(),
            blocks@.len() == i,
            forall|k: int| 0 <= k < i ==> #[trigger] blocks@[k]@ == section_block(d.sections@[k]@),
        decreases d.sections.len() - i,
    {
        blocks.push(render_section(&d.sections[i]));
        i += 1;
    }
    assert(blocks@.map_values(|p: String| p@) =~= d@.sections.map_values(
        |s: SectionView| section_block(s),
    ));
    let sections = join_texts(&blocks, "\n\n");
    let related = join_texts(&d.related_components, ", ");
    assert(d.related_components@.map_values(|p: String| p@) =~= view_strings(
        d.related_components@,
    ));
    let mut s = String::from_str("# ");
    s.append(d.title.as_str());
    s.append("\n\n");
    s.append(d.content.as_str());
    s.append("\n\n");
    s.append(sections.as_str());
    s.append("\n\n## Related Components\n\n");
    s.append(related.as_str());
    s
}

} // verus!
