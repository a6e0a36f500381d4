//! What loading components from a directory tree decides: the default
//! manifest of a directory without one, the titles and descriptions of
//! example files, and the component a manifest and its files make.

use vstd::prelude::*;
use std::path::PathBuf;
use crate::manifest::{ComponentDependencies, ComponentFiles, ComponentManifest};
use crate::text::{has_prefix, strip_prefix, starts_with, trim, trimmed, upper_char, upper_of,
    white_space, is_white_space, joined, join_texts, same_text};
use crate::catalog::{first_where, lemma_first_where_at, lemma_first_where_none};
use crate::types::{ComponentExample, Documentation, ReactComponent, view_opt_string};

verus! {

/// `std::path::PathBuf`, carried unread as the directory a loader reads from.
#[verifier::external_type_specification]
#[verifier::external_body]
pub struct ExPathBuf(PathBuf);

/// The text of a documentation comment line: after `/**` or a leading `*`
/// (but not `*/`), trimmed, when that is not empty and does not start with `/`.
pub open spec fn comment_text(line: Seq<char>) -> Option<Seq<char>> {
    let t = trimmed(line);
    if has_prefix(t, "/**"@) || (has_prefix(t, "*"@) && !has_prefix(t, "*/"@)) {
        let rest = if has_prefix(t, "/**"@) {
            t.skip("/**"@.len() as int)
        } else {
            t.skip("*"@.len() as int)
        };
        let cleaned = trimmed(rest);
        if cleaned.len() > 0 && !has_prefix(cleaned, "/"@) {
            Some(cleaned)
        } else {
            None
        }
    } else {
        None
    }
}

/// The pieces of `s` between the characters `brk` marks, empty pieces
/// included: one piece more than there are marks.
pub open spec fn pieces(s: Seq<char>, brk: spec_fn(char) -> bool) -> Seq<Seq<char>>
    decreases s.len(),
{
    if s.len() == 0 {
        seq![Seq::empty()]
    } else {
        let p = pieces(s.drop_last(), brk);
        if brk(s.last()) {
            p.push(Seq::empty())
        } else {
            p.update(p.len() - 1, p.last().push(s.last()))
        }
    }
}

pub open spec fn newline() -> spec_fn(char) -> bool {
    |c: char| c == '\n'
}

pub open spec fn word_break(c: char) -> bool {
    c == '_' || white_space(c)
}

pub open spec fn word_breaks() -> spec_fn(char) -> bool {
    |c: char| word_break(c)
}

pub open spec fn has_comment() -> spec_fn(Seq<char>) -> bool {
    |line: Seq<char>| comment_text(line) is Some
}

pub open spec fn non_empty() -> spec_fn(Seq<char>) -> bool {
    |w: Seq<char>| w.len() > 0
}

/// The lines of `code`, split at each `'\n'`.
pub open spec fn lines_of(code: Seq<char>) -> Seq<Seq<char>> {
    pieces(code, newline())
}

/// The comment text of the first line of `code` that has one.
pub open spec fn description_in(code: Seq<char>) -> Option<Seq<char>> {
    match first_where(lines_of(code), has_comment()) {
        Some(i) => comment_text(lines_of(code)[i]),
        None => None,
    }
}

/// The non-empty pieces of `s` between underscores and white space.
pub open spec fn words_of(s: Seq<char>) -> Seq<Seq<char>> {
    pieces(s, word_breaks()).filter(non_empty())
}

pub proof fn lemma_pieces_len(s: Seq<char>, brk: spec_fn(char) -> bool)
    ensures
        pieces(s, brk).len() >= 1,
    decreases s.len(),
{
    if s.len() > 0 {
        lemma_pieces_len(s.drop_last(), brk);
    }
}

/// Reading one more character adds a piece or extends the last one.
pub proof fn lemma_pieces_step(s: Seq<char>, q: int, brk: spec_fn(char) -> bool)
    requires
        0 <= q < s.len(),
    ensures
        pieces(s.take(q + 1), brk) == if brk(s[q]) {
            pieces(s.take(q), brk).push(Seq::empty())
        } else {
            pieces(s.take(q), brk).update(
                pieces(s.take(q), brk).len() - 1,
                pieces(s.take(q), brk).last().push(s[q]),
            )
        },
{
    assert(s.take(q + 1).drop_last() =~= s.take(q));
}

/// The pieces ended within a prefix are pieces of the whole text.
pub proof fn lemma_pieces_prefix(s: Seq<char>, q: int, brk: spec_fn(char) -> bool)
    requires
        0 <= q <= s.len(),
    ensures
        pieces(s.take(q), brk).len() <= pieces(s, brk).len(),
        forall|j: int|
            0 <= j < pieces(s.take(q), brk).len() - 1 ==> #[trigger] pieces(s, brk)[j] == pieces(
                s.take(q),
                brk,
            )[j],
    decreases s.len() - q,
{
    if q == s.len() {
        assert(s.take(q) =~= s);
    } else {
        lemma_pieces_prefix(s, q + 1, brk);
        lemma_pieces_step(s, q, brk);
        lemma_pieces_len(s.take(q), brk);
    }
}

proof fn lemma_filter_push(s: Seq<Seq<char>>, x: Seq<char>, p: spec_fn(Seq<char>) -> bool)
    ensures
        s.push(x).filter(p) == if p(x) {
            s.filter(p).push(x)
        } else {
            s.filter(p)
        },
{
    reveal(Seq::filter);
    assert(s.push(x).drop_last() =~= s);
}

/// The text with its first character uppercased.
pub open spec fn capitalized(w: Seq<char>) -> Seq<char> {
    if w.len() == 0 {
        w
    } else {
        upper_of(w[0]) + w.drop_first()
    }
}

/// The words of a file name, each capitalized, joined by single spaces.
pub open spec fn title_of(stem: Seq<char>) -> Seq<char> {
    joined(words_of(stem).map_values(|w: Seq<char>| capitalized(w)), " "@)
}

/// The text with its first character uppercased.
pub fn capitalize(w: &str) -> (r: String)
    ensures
        r@ == capitalized(w@),
{
    let n = w.unicode_len();
    if n == 0 {
        return String::new();
    }
    let mut r = upper_char(w.get_char(0));
    let rest = w.substring_char(1, n);
    r.append(rest);
    assert(rest@ =~= w@.drop_first());
    r
}

/// The comment text of one line.
pub fn line_comment(line: &str) -> (r: Option<String>)
    ensures
        view_opt_string(r) == comment_text(line@),
{
    let t = trim(line);
    let opens = starts_with(t, "/**");
    if opens || (starts_with(t, "*") && !starts_with(t, "*/")) {
        let rest = if opens {
            strip_prefix(t, "/**")
        } else {
            strip_prefix(t, "*")
        };
        match rest {
            Some(rest) => {
                let cleaned = trim(rest);
                if cleaned.unicode_len() > 0 && !starts_with(cleaned, "/") {
                    Some(String::from_str(cleaned))
                } else {
                    None
                }
            },
            None => None,
        }
    } else {
        None
    }
}

/// Loads components from a directory of component directories.
pub struct ComponentFileLoader {
    components_dir: PathBuf,
}

impl ComponentFileLoader {
    pub closed spec fn dir(&self) -> PathBuf {
        self.components_dir
    }

    pub fn new(components_dir: PathBuf) -> (r: Self)
        ensures
            r.dir() == components_dir,
    {
        ComponentFileLoader { components_dir }
    }

    /// The directory the components are loaded from.
    pub fn components_dir(&self) -> (r: &PathBuf)
        ensures
            *r == self.dir(),
    {
        &self.components_dir
    }

    /// Documentation topics of the directory: none are kept there.
    pub fn load_documentation(&self) -> (r: Vec<(String, Documentation)>)
        ensures
            r@.len() == 0,
    {
        Vec::new()
    }

    /// The first documentation comment text among the lines of `code`.
    pub fn extract_description_from_code(&self, code: &str) -> (r: Option<String>)
        ensures
            view_opt_string(r) == description_in(code@),
    {
        let ghost c = code@;
        let ghost done: Seq<Seq<char>> = Seq::empty();
        let n = code.unicode_len();
        let mut start: usize = 0;
        let mut p: usize = 0;
        assert(c.take(0) =~= Seq::<char>::empty());
        assert(pieces(c.take(0), newline()) =~= done.push(c.subrange(0, 0)));
        while p < n
            invariant
                0 <= start <= p <= n,
                n == c.len(),
                c == code@,
                pieces(c.take(p as int), newline()) == done.push(c.subrange(start as int, p as int)),
                forall|j: int| 0 <= j < done.len() ==> !has_comment()(#[trigger] done[j]),
            decreases n - p,
        {
            proof {
                lemma_pieces_step(c, p as int, newline());
            }
            if code.get_char(p) == '\n' {
                let line = code.substring_char(start, p);
                match line_comment(line) {
                    Some(d) => {
                        proof {
                            let lines = lines_of(c);
                            lemma_pieces_prefix(c, p + 1, newline());
                            let i = done.len() as int;
                            assert(pieces(c.take(p + 1), newline())[i] == line@);
                            assert(lines[i] == line@);
                            assert forall|j: int| 0 <= j < i implies !has_comment()(
                                #[trigger] lines[j],
                            ) by {
                                assert(lines[j] == pieces(c.take(p + 1), newline())[j]);
                            }
                            lemma_first_where_at(lines, has_comment(), i);
                        }
                        return Some(d);
                    },
                    None => {},
                }
                proof {
                    assert(c.subrange(p + 1, p + 1) =~= Seq::<char>::empty());
                    done = done.push(line@);
                }
                start = p + 1;
            } else {
                assert(c.subrange(start as int, p as int).push(c[p as int]) =~= c.subrange(
                    start as int,
                    p + 1,
                ));
            }
            p += 1;
        }
        let line = code.substring_char(start, n);
        proof {
            assert(c.take(n as int) =~= c);
            let lines = lines_of(c);
            let i = done.len() as int;
            if comment_text(line@) is Some {
                lemma_first_where_at(lines, has_comment(), i);
            } else {
                lemma_first_where_none(lines, has_comment());
            }
        }
        line_comment(line)
    }

    /// The manifest of a directory that has none: the directory's name
    /// capitalized, a generic description, the default files.
    pub fn create_default_manifest(&self, dir_name: Option<&str>) -> (r: ComponentManifest)
        ensures
            r.name@ == capitalized(
                match dir_name {
                    Some(d) => d@,
                    None => "Unknown"@,
                },
            ),
            r.description@ == "A "@ + r.name@ + " component from Fluent UI"@,
            r.category@ == "UI"@,
            r.tags@.len() == 2,
            r.tags@[0]@ == "component"@,
            r.tags@[1]@ == "ui"@,
            r.version@ == "1.0.0"@,
            r.dependencies is List,
            r.dependencies->List_0@.len() == 1,
            r.dependencies->List_0@[0]@ == "@fluentui/react-components"@,
            r.files.component@ == "component.tsx"@,
            r.files.types@ == "types.ts"@,
            r.files.documentation@ == "README.md"@,
            r.files.examples@.len() == 0,
            r.files.utils@.len() == 0,
            r.exports is None,
            r.props@.len() == 0,
    {
        let name = match dir_name {
            Some(d) => d,
            None => "Unknown",
        };
        let display = capitalize(name);
        let mut description = String::from_str("A ");
        description.append(display.as_str());
        description.append(" component from Fluent UI");
        let tags = vec![String::from_str("component"), String::from_str("ui")];
        let deps = vec![String::from_str("@fluentui/react-components")];
        ComponentManifest {
            name: display,
            description,
            category: String::from_str("UI"),
            tags,
            version: String::from_str("1.0.0"),
            dependencies: ComponentDependencies::List(deps),
            files: ComponentFiles::default(),
            exports: None,
            props: Vec::new(),
        }
    }
}

/// The title of an example file: the words of its name, capitalized.
pub fn example_title(stem: &str) -> (r: String)
    ensures
        r@ == title_of(stem@),
{
    let ghost s = stem@;
    let ghost done: Seq<Seq<char>> = Seq::empty();
    let n = stem.unicode_len();
    let mut words: Vec<String> = Vec::new();
    let mut start: usize = 0;
    let mut p: usize = 0;
    assert(s.take(0) =~= Seq::<char>::empty());
    assert(pieces(s.take(0), word_breaks()) =~= done.push(s.subrange(0, 0)));
    proof {
        reveal(Seq::filter);
    }
    while p < n
        invariant
            0 <= start <= p <= n,
            n == s.len(),
            s == stem@,
            pieces(s.take(p as int), word_breaks()) == done.push(s.subrange(start as int, p as int)),
            words@.len() == done.filter(non_empty()).len(),
            forall|k: int|
                0 <= k < words@.len() ==> #[trigger] words@[k]@ == capitalized(
                    done.filter(non_empty())[k],
                ),
        decreases n - p,
    {
        proof {
            lemma_pieces_step(s, p as int, word_breaks());
        }
        let ch = stem.get_char(p);
        if ch == '_' || is_white_space(ch) {
            let ghost piece = s.subrange(start as int, p as int);
            proof {
                lemma_filter_push(done, piece, non_empty());
            }
            if start < p {
                let w = stem.substring_char(start, p);
                let cw = capitalize(w);
                words.push(cw);
            }
            proof {
                assert(s.subrange(p + 1, p + 1) =~= Seq::<char>::empty());
                done = done.push(piece);
            }
            start = p + 1;
        } else {
            assert(s.subrange(start as int, p as int).push(s[p as int]) =~= s.subrange(
                start as int,
                p + 1,
            ));
        }
        p += 1;
    }
    let ghost piece = s.subrange(start as int, n as int);
    proof {
        assert(s.take(n as int) =~= s);
        lemma_filter_push(done, piece, non_empty());
    }
    if start < n {
        let w = stem.substring_char(start, n);
        let cw = capitalize(w);
        words.push(cw);
    }
    proof {
        done = done.push(piece);
    }
    assert(words@.map_values(|w: String| w@) =~= words_of(s).map_values(
        |w: Seq<char>| capitalized(w),
    ));
    join_texts(&words, " ")
}

/// Whether a file extension marks an example file.
pub fn is_example_extension(ext: Option<&str>) -> (r: bool)
    ensures
        r == (ext is Some && (ext->0@ == "tsx"@ || ext->0@ == "ts"@)),
{
    match ext {
        Some(e) => same_text(e, "tsx") || same_text(e, "ts"),
        None => false,
    }
}

/// The key of a component directory: its name, or `unknown`.
pub fn component_key(dir_name: Option<&str>) -> (r: String)
    ensures
        r@ == match dir_name {
            Some(d) => d@,
            None => "unknown"@,
        },
{
    match dir_name {
        Some(d) => String::from_str(d),
        None => String::from_str("unknown"),
    }
}

/// The component a manifest describes, with the contents of its files.
pub fn assemble_component(
    manifest: ComponentManifest,
    source_code: String,
    typescript_definitions: Option<String>,
    examples: Vec<ComponentExample>,
) -> (r: ReactComponent)
    ensures
        r.name == manifest.name,
        r.description == manifest.description,
        r.source_code == source_code,
        r.props == manifest.props,
        r.examples == examples,
        r.category == manifest.category,
        r.tags == manifest.tags,
        r.typescript_definitions == typescript_definitions,
{
    ReactComponent {
        name: manifest.name,
        description: manifest.description,
        source_code,
        props: manifest.props,
        examples,
        category: manifest.category,
        tags: manifest.tags,
        typescript_definitions,
    }
}

impl ComponentFileLoader {
    /// The example an example file makes: its title from the file name
    /// (`Example` without one), its description from the first
    /// documentation comment, else `<title> example`.
    pub fn example_from_file(&self, stem: Option<&str>, code: String) -> (r: ComponentExample)
        ensures
            r.title@ == title_of(
                match stem {
                    Some(s) => s@,
                    None => "Example"@,
                },
            ),
            r.description@ == match description_in(code@) {
                Some(d) => d,
                None => r.title@ + " example"@,
            },
            r.code@ == code@,
            r.props@.len() == 0,
    {
        let name = match stem {
            Some(s) => s,
            None => "Example",
        };
        let title = example_title(name);
        let description = match self.extract_description_from_code(code.as_str()) {
            Some(d) => d,
            None => {
                let mut d = title.clone();
                d.append(" example");
                d
            },
        };
        ComponentExample { title, description, code, props: Vec::new() }
    }
}

} // verus!
