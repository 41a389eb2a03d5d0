//! Source documents: what kind each is, and what the website makes of it.
use crate::front_matter::{keys_unique, pairs_view, split_front_matter, yaml_string_pairs, FrontMatter};
use crate::markdown::{markdown_html, markdown_to_html};
use crate::path::{
    extension, extension_str, file_stem, html_path, join, join_path, relative_path, relative_to,
    stem, with_html_extension,
};
use crate::text::str_eq;
use handlebars::{Handlebars, RenderError};
use vstd::prelude::*;
use vstd::string::*;

verus! {

#[verifier::external_type_specification]
#[verifier::external_body]
pub struct ExHandlebars<'reg>(Handlebars<'reg>);

#[verifier::external_type_specification]
#[verifier::external_body]
pub struct ExRenderError(RenderError);

/// What went wrong, with the source path of the document it concerns.
pub enum DocError {
    /// The metadata block does not parse as a flat mapping of strings.
    MetadataParse { path: String },
    /// The template renderer refused the page, for the reason it gave.
    TemplateRender { path: String, error: RenderError },
    /// The path lies outside the source root or has no file name.
    Path { path: String },
}

/// What a document holds.
pub enum DocumentInfo {
    /// A Markdown file: its metadata, if it had a block, and the text after it.
    Markdown { front_matter: Option<FrontMatter>, text: String },
    /// Any other file, copied as it is.
    Other,
}

pub struct Document {
    pub source_path: String,
    pub info: DocumentInfo,
}

/// What the website makes of one document.
pub enum SiteAction {
    /// Copy the file at `from` to `to`.
    Copy { from: String, to: String },
    /// Write `contents` to `to`. The page was rendered with `vars`;
    /// `body_overridden` tells that the metadata's own `body` was dropped for the
    /// page's HTML.
    Write { to: String, contents: String, vars: Vec<(String, String)>, body_overridden: bool },
}

/// The extension of a Markdown file, matched exactly.
pub open spec fn is_markdown_spec(path: Seq<char>) -> bool {
    extension(path) == Some("md"@) || extension(path) == Some("markdown"@)
}

/// The reserved template variable that holds a page's HTML.
pub open spec fn body_key() -> Seq<char> {
    "body"@
}

/// The entries of `s` whose key is not `k`, in order.
pub open spec fn without_key(s: Seq<(Seq<char>, Seq<char>)>, k: Seq<char>) -> Seq<(Seq<char>, Seq<char>)>
    decreases s.len(),
{
    if s.len() == 0 {
        s
    } else if s.last().0 == k {
        without_key(s.drop_last(), k)
    } else {
        without_key(s.drop_last(), k).push(s.last())
    }
}

/// Some entry of `s` has key `k`.
pub open spec fn has_key(s: Seq<(Seq<char>, Seq<char>)>, k: Seq<char>) -> bool {
    exists|i: int| 0 <= i < s.len() && s[i].0 == k
}

/// The entries of the optional front matter.
pub open spec fn front_matter_entries(fm: Option<FrontMatter>) -> Seq<(Seq<char>, Seq<char>)> {
    match fm {
        Some(f) => f@,
        None => Seq::empty(),
    }
}

/// The variables of a page template: the metadata's entries but `body`, then
/// `body` bound to the page's HTML.
pub open spec fn template_vars_of(fm: Seq<(Seq<char>, Seq<char>)>, html: Seq<char>) -> Seq<
    (Seq<char>, Seq<char>),
> {
    without_key(fm, body_key()).push((body_key(), html))
}

pub proof fn lemma_without_key(s: Seq<(Seq<char>, Seq<char>)>, k: Seq<char>)
    ensures
        forall|i: int| 0 <= i < without_key(s, k).len() ==> #[trigger] without_key(s, k)[i].0 != k,
    decreases s.len(),
{
    if s.len() > 0 {
        lemma_without_key(s.drop_last(), k);
        let w = without_key(s, k);
        let sub = without_key(s.drop_last(), k);
        if s.last().0 != k {
            assert forall|i: int| 0 <= i < w.len() implies #[trigger] w[i].0 != k by {
                if i < sub.len() {
                    assert(w[i] == sub[i]);
                }
            }
        }
    }
}

/// Whether the path names a Markdown file, by its extension `md` or `markdown`.
pub fn is_markdown_path(path: &str) -> (r: bool)
    ensures
        r == is_markdown_spec(path@),
{
    match extension_str(path) {
        Some(e) => str_eq(e.as_str(), "md") || str_eq(e.as_str(), "markdown"),
        None => false,
    }
}

/// The template variables for a page: the metadata's entries without `body`,
/// then `body` bound to `html`; and whether the metadata had a `body` of its own.
pub fn template_vars(front_matter: &Option<FrontMatter>, html: String) -> (r: (
    Vec<(String, String)>,
    bool,
))
    ensures
        pairs_view(r.0@) == template_vars_of(front_matter_entries(*front_matter), html@),
        r.1 == has_key(front_matter_entries(*front_matter), body_key()),
{
    let mut vars: Vec<(String, String)> = Vec::new();
    let mut overridden = false;
    let ghost fm = front_matter_entries(*front_matter);
    match front_matter {
        Some(f) => {
            let mut i: usize = 0;
            while i < f.vars.len()
                invariant
                    fm == pairs_view(f.vars@),
                    i <= f.vars.len(),
                    pairs_view(vars@) == without_key(fm.subrange(0, i as int), body_key()),
                    overridden == has_key(fm.subrange(0, i as int), body_key()),
                decreases f.vars.len() - i,
            {
                let ghost prev = fm.subrange(0, i as int);
                assert(fm.subrange(0, i + 1).drop_last() =~= prev);
                let (k, v) = &f.vars[i];
                if str_eq(k.as_str(), "body") {
                    overridden = true;
                } else {
                    vars.push((k.clone(), v.clone()));
                    assert(pairs_view(vars@) =~= pairs_view(vars@).drop_last().push(
                        (k@, v@),
                    ));
                }
                proof {
                    let next = fm.subrange(0, i + 1);
                    if has_key(prev, body_key()) {
                        let j = choose|j: int| 0 <= j < prev.len() && prev[j].0 == body_key();
                        assert(next[j] == prev[j]);
                    }
                    if has_key(next, body_key()) && !has_key(prev, body_key()) {
                        let j = choose|j: int| 0 <= j < next.len() && next[j].0 == body_key();
                        if j < i {
                            assert(prev[j] == next[j]);
                        }
                    }
                    if k@ == body_key() {
                        assert(next[i as int].0 == body_key());
                    }
                }
                i = i + 1;
            }
            assert(fm.subrange(0, f.vars.len() as int) =~= fm);
        },
        None => {
            assert(fm.len() == 0);
        },
    }
    vars.push((String::from_str("body"), html));
    (vars, overridden)
}

/// Relies on `handlebars::Handlebars::render`: the named template rendered with
/// the pairs as a flat object of string values.
#[verifier::external_body]
fn render_template(
    registry: &Handlebars,
    name: &str,
    vars: &Vec<(String, String)>,
) -> Result<String, RenderError> {
    let data: std::collections::BTreeMap<&String, &String> = vars.iter().map(|(k, v)| (k, v)).collect();
    registry.render(name, &data)
}

/// What `webgen` may return for `doc`: the error for a path outside `root`; for
/// another file, a copy to its place under `out_dir`; for a Markdown file, a page
/// at that place with extension `html`, rendered with its metadata and its HTML,
/// or the renderer's refusal.
pub open spec fn webgen_outcome(
    doc: Document,
    root: Seq<char>,
    out_dir: Seq<char>,
    r: Result<SiteAction, DocError>,
) -> bool {
    match relative_to(doc.source_path@, root) {
        None => r matches Err(DocError::Path { path }) && path@ == doc.source_path@,
        Some(rel) => match doc.info {
            DocumentInfo::Other => r matches Ok(SiteAction::Copy { from, to }) && from@
                == doc.source_path@ && to@ == join(out_dir, rel),
            DocumentInfo::Markdown { front_matter, text } => match r {
                Ok(SiteAction::Write { to, vars, body_overridden, .. }) => to@ == html_path(
                    join(out_dir, rel),
                ) && pairs_view(vars@) == template_vars_of(
                    front_matter_entries(front_matter),
                    markdown_html(text@),
                ) && body_overridden == has_key(front_matter_entries(front_matter), body_key()),
                Ok(SiteAction::Copy { .. }) => false,
                Err(e) => e matches DocError::TemplateRender { path, .. } && path@
                    == doc.source_path@,
            },
        },
    }
}

/// The place an action writes to.
pub open spec fn action_target(a: SiteAction) -> Seq<char> {
    match a {
        SiteAction::Copy { to, .. } => to@,
        SiteAction::Write { to, .. } => to@,
    }
}

/// Where a document's output goes, and the variables its page is rendered with,
/// depend on the document and the two roots alone: two runs over the same input
/// write to the same places, and render the same variables.
pub proof fn lemma_same_input_same_target(
    doc: Document,
    root: Seq<char>,
    out_dir: Seq<char>,
    a: SiteAction,
    b: SiteAction,
)
    requires
        webgen_outcome(doc, root, out_dir, Ok(a)),
        webgen_outcome(doc, root, out_dir, Ok(b)),
    ensures
        action_target(a) == action_target(b),
        a is Copy <==> b is Copy,
        match (a, b) {
            (
                SiteAction::Write { vars: va, body_overridden: oa, .. },
                SiteAction::Write { vars: vb, body_overridden: ob, .. },
            ) => pairs_view(va@) == pairs_view(vb@) && oa == ob,
            _ => true,
        },
{
}

impl Document {
    pub open spec fn wf(&self) -> bool {
        match self.info {
            DocumentInfo::Markdown { front_matter: Some(f), .. } => f.wf(),
            _ => true,
        }
    }

    /// The document for the file at `source_path`, whose contents are `text`
    /// where it is a Markdown file (for any other file `text` is not read).
    pub fn new(source_path: String, text: String) -> (r: Result<Document, DocError>)
        ensures
            !is_markdown_spec(source_path@) ==> (r matches Ok(d) && d.source_path@
                == source_path@ && d.info is Other),
            is_markdown_spec(source_path@) ==> match split_front_matter(text@) {
                None => r matches Ok(d) && d.source_path@ == source_path@ && (
                d.info matches DocumentInfo::Markdown { front_matter: None, text: t } && t@
                    == text@),
                Some((block, rest)) => match yaml_string_pairs(block) {
                    None => r matches Err(DocError::MetadataParse { path }) && path@
                        == source_path@,
                    Some(pairs) => r matches Ok(d) && d.source_path@ == source_path@ && d.wf()
                        && (d.info matches DocumentInfo::Markdown {
                        front_matter: Some(f),
                        text: t,
                    } && f@ == pairs && t@ == rest),
                },
            },
    {
        if !is_markdown_path(source_path.as_str()) {
            return Ok(Document { source_path, info: DocumentInfo::Other });
        }
        let mut markdown = text;
        match FrontMatter::split_yml_from_string(&mut markdown) {
            Err(_) => Err(DocError::MetadataParse { path: source_path }),
            Ok(front_matter) => Ok(
                Document {
                    source_path,
                    info: DocumentInfo::Markdown { front_matter, text: markdown },
                },
            ),
        }
    }

    /// The file name of the source path without its extension.
    pub fn file_stem(&self) -> (r: Result<String, DocError>)
        ensures
            match file_stem(self.source_path@) {
                Some(s) => r matches Ok(t) && t@ == s,
                None => r matches Err(DocError::Path { path }) && path@ == self.source_path@,
            },
    {
        match stem(self.source_path.as_str()) {
            Some(s) => Ok(s),
            None => Err(DocError::Path { path: self.source_path.clone() }),
        }
    }

    /// Where the document goes under `out_dir`, at its place relative to `root`.
    pub fn outpath(&self, root: &str, out_dir: &str) -> (r: Result<String, DocError>)
        ensures
            match relative_to(self.source_path@, root@) {
                Some(rel) => r matches Ok(p) && p@ == join(out_dir@, rel),
                None => r matches Err(DocError::Path { path }) && path@ == self.source_path@,
            },
    {
        match relative_path(self.source_path.as_str(), root) {
            Some(rel) => Ok(join_path(out_dir, rel.as_str())),
            None => Err(DocError::Path { path: self.source_path.clone() }),
        }
    }

    pub fn is_markdown(&self) -> (r: bool)
        ensures
            r == self.info is Markdown,
    {
        match self.info {
            DocumentInfo::Markdown { .. } => true,
            _ => false,
        }
    }

    /// Whether the path names a Markdown file.
    pub fn is_markdown_path(path: &str) -> (r: bool)
        ensures
            r == is_markdown_spec(path@),
    {
        is_markdown_path(path)
    }

    /// What the website makes of this document, with sources under `root`, output
    /// under `out_dir` and pages rendered by `registry`'s template `default`.
    ///
    /// Another file is copied to its place. A Markdown file becomes a page at its
    /// place with extension `html`, rendered from its HTML and metadata.
    pub fn webgen(&self, root: &str, out_dir: &str, registry: &Handlebars) -> (r: Result<
        SiteAction,
        DocError,
    >)
        ensures
            webgen_outcome(*self, root@, out_dir@, r),
    {
        let outpath = match self.outpath(root, out_dir) {
            Ok(p) => p,
            Err(e) => return Err(e),
        };
        match &self.info {
            DocumentInfo::Other => Ok(
                SiteAction::Copy { from: self.source_path.clone(), to: outpath },
            ),
            DocumentInfo::Markdown { front_matter, text } => {
                let html = markdown_to_html(text.as_str());
                let (vars, body_overridden) = template_vars(front_matter, html);
                match render_template(registry, "default", &vars) {
                    Ok(contents) => Ok(
                        SiteAction::Write {
                            to: with_html_extension(outpath.as_str()),
                            contents,
                            vars,
                            body_overridden,
                        },
                    ),
                    Err(error) => Err(
                        DocError::TemplateRender { path: self.source_path.clone(), error },
                    ),
                }
            },
        }
    }
}

/// In a page's variables `body` is the page's HTML, and stands there once,
/// whatever the metadata held.
pub proof fn lemma_body_is_rendered_html(fm: Seq<(Seq<char>, Seq<char>)>, html: Seq<char>)
    ensures
        ({
            let vars = template_vars_of(fm, html);
            &&& vars.last() == (body_key(), html)
            &&& forall|i: int| 0 <= i < vars.len() - 1 ==> vars[i].0 != body_key()
        }),
{
    lemma_without_key(fm, body_key());
    let vars = template_vars_of(fm, html);
    assert forall|i: int| 0 <= i < vars.len() - 1 implies vars[i].0 != body_key() by {
        assert(vars[i] == without_key(fm, body_key())[i]);
    }
}

} // verus!
