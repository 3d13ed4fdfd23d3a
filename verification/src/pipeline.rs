//! The pipeline that documents go through.
//!
//! A pipeline is an ordered list of named stages, followed by finalize
//! stages that run once when the documents are done. The stages run
//! strictly in the order of the list, and the first failure ends the run.
//!
//! The work of a stage may lie outside the library: expanding templates,
//! writing files. So the pipeline says which stage is next, and takes the
//! outcome of each stage from its caller. For the stages that every site
//! has, the library prepares what the outside work needs and takes in what
//! comes of it.

use vstd::prelude::*;
use crate::config::{clone_json, opt_view, MarkdownConfig};
use crate::document::{clone_yaml, Document, ExtraField};
use crate::format::{format_for, FormatContext, FormatRegistry};
use crate::highlight::SyntaxHighlighter;
use crate::markdown::MarkdownError;
use crate::nav::{last_nav_named, nav_for_source, SourceNav};
use crate::paths::{
    extension, extension_of, has_extension, output_path, parent_dir, url_to_output_path,
};
use crate::render::{
    clone_opt, clone_toc, nav_nodes, source_tabs_for, tab_views, tabs_for, toc_views, NavSection,
    SiteContext, SourceTab, TocEntry, UndoxContext,
};
use crate::text::{append_str, chars_of, lowercase_of, owned, same_text, string_of, texts};

verus! {

// ---------------------------------------------------------------------------
// Errors
// ---------------------------------------------------------------------------

/// Why templates could not be rendered.
pub enum RenderError {
    /// A template failed, for the reason given.
    Template(String),
    /// The theme has no templates.
    ThemeNotFound(String),
}

impl RenderError {
    /// The error in words.
    pub open spec fn text(&self) -> Seq<char> {
        match self {
            RenderError::Template(m) => "template error: "@ + m@,
            RenderError::ThemeNotFound(m) => "theme not found: "@ + m@,
        }
    }

    /// The error in words.
    pub fn message(&self) -> (r: String)
        ensures
            r@ == self.text(),
    {
        let mut out: Vec<char> = Vec::new();
        match self {
            RenderError::Template(m) => {
                append_str(&mut out, "template error: ");
                append_str(&mut out, m.as_str());
            },
            RenderError::ThemeNotFound(m) => {
                append_str(&mut out, "theme not found: ");
                append_str(&mut out, m.as_str());
            },
        }
        assert(out@ =~= self.text());
        string_of(&out)
    }
}

/// Why a run of the pipeline failed.
pub enum PipelineError {
    /// Templates could not be rendered.
    Tera(RenderError),
    /// Markdown could not be rendered.
    Markdown(MarkdownError),
    /// A file could not be written.
    Io(String),
    /// A stage failed.
    Stage { stage: String, message: String },
}

impl PipelineError {
    /// The failure of the stage `stage`, for the reason `message`.
    pub fn stage(stage: &str, message: &str) -> (r: Self)
        ensures
            r matches PipelineError::Stage { stage: s, message: m } && s@ == stage@ && m@
                == message@,
    {
        PipelineError::Stage { stage: owned(stage), message: owned(message) }
    }

    /// The error in words.
    pub open spec fn text(&self) -> Seq<char> {
        match self {
            PipelineError::Tera(e) => "tera rendering error: "@ + e.text(),
            PipelineError::Markdown(e) => "markdown rendering error: "@ + e.text(),
            PipelineError::Io(m) => "IO error: "@ + m@,
            PipelineError::Stage { stage, message } => "stage '"@ + stage@ + "' failed: "@
                + message@,
        }
    }

    /// The error in words.
    pub fn message(&self) -> (r: String)
        ensures
            r@ == self.text(),
    {
        let mut out: Vec<char> = Vec::new();
        match self {
            PipelineError::Tera(e) => {
                append_str(&mut out, "tera rendering error: ");
                let inner = e.message();
                append_str(&mut out, inner.as_str());
            },
            PipelineError::Markdown(e) => {
                append_str(&mut out, "markdown rendering error: ");
                let inner = e.message();
                append_str(&mut out, inner.as_str());
            },
            PipelineError::Io(m) => {
                append_str(&mut out, "IO error: ");
                append_str(&mut out, m.as_str());
            },
            PipelineError::Stage { stage, message } => {
                append_str(&mut out, "stage '");
                append_str(&mut out, stage.as_str());
                append_str(&mut out, "' failed: ");
                append_str(&mut out, message.as_str());
            },
        }
        assert(out@ =~= self.text());
        string_of(&out)
    }
}

// ---------------------------------------------------------------------------
// Documents in flight
// ---------------------------------------------------------------------------

/// A document on its way through the pipeline.
pub struct ProcessingDocument {
    /// The document as it was found.
    pub doc: Document,
    /// The directory of the source of the document.
    pub source_path: String,
    /// The content as the last stage left it: the raw text at first, then
    /// the text with its templates expanded, then HTML.
    pub content: String,
    /// The headings of the document, once it is rendered.
    pub toc: Vec<TocEntry>,
    /// The page, once the template is applied.
    pub output_html: Option<String>,
}

impl ProcessingDocument {
    /// A document at the start of the pipeline: its content is its raw
    /// text, and it has neither headings nor a page.
    pub fn new(doc: Document, source_path: String) -> (r: Self)
        ensures
            r.doc == doc,
            r.source_path == source_path,
            r.content@ == doc.raw_content@,
            r.toc@.len() == 0,
            r.output_html is None,
    {
        let content = doc.raw_content.clone();
        ProcessingDocument { doc, source_path, content, toc: Vec::new(), output_html: None }
    }

    /// The URL path of the document.
    pub fn url_path(&self) -> (r: &str)
        ensures
            r@ == self.doc.url_path@,
    {
        self.doc.url_path.as_str()
    }

    /// The name of the source of the document.
    pub fn source_name(&self) -> (r: &str)
        ensures
            r@ == self.doc.source_name@,
    {
        self.doc.source_name.as_str()
    }

    /// The title of the document.
    pub fn title(&self) -> (r: String)
        ensures
            r@ == self.doc@.display_title(),
    {
        self.doc.title()
    }
}

// ---------------------------------------------------------------------------
// The context
// ---------------------------------------------------------------------------

/// What every stage can read.
pub struct PipelineContext<'a> {
    /// The directory that the site is written to.
    pub output_dir: &'a str,
    /// What the site says of itself.
    pub site: &'a SiteContext,
    /// The settings of the theme.
    pub theme_settings: &'a serde_json::Value,
    /// How markdown is read.
    pub markdown_config: &'a MarkdownConfig,
    /// The navigation of each source.
    pub nav_by_source: &'a Vec<SourceNav>,
    /// The tabs of the sources.
    pub source_tabs: &'a Vec<SourceTab>,
    /// The highlighter for code blocks.
    pub highlighter: &'a SyntaxHighlighter,
    /// The formats of content.
    pub format_registry: &'a FormatRegistry,
    /// The flags of the tool.
    pub undox: UndoxContext,
}

impl<'a> PipelineContext<'a> {
    /// The context of a build. Live reload is only ever on in development
    /// mode.
    pub fn new(
        output_dir: &'a str,
        site: &'a SiteContext,
        theme_settings: &'a serde_json::Value,
        markdown_config: &'a MarkdownConfig,
        nav_by_source: &'a Vec<SourceNav>,
        source_tabs: &'a Vec<SourceTab>,
        highlighter: &'a SyntaxHighlighter,
        format_registry: &'a FormatRegistry,
        dev_mode: bool,
        live_reload: bool,
        version: String,
    ) -> (r: Self)
        ensures
            r.output_dir@ == output_dir@,
            r.site == site,
            r.theme_settings == theme_settings,
            r.markdown_config == markdown_config,
            r.nav_by_source == nav_by_source,
            r.source_tabs == source_tabs,
            r.highlighter == highlighter,
            r.format_registry == format_registry,
            r.undox.dev == dev_mode,
            r.undox.live_reload == (dev_mode && live_reload),
            r.undox.version@ == version@,
    {
        PipelineContext {
            output_dir,
            site,
            theme_settings,
            markdown_config,
            nav_by_source,
            source_tabs,
            highlighter,
            format_registry,
            undox: UndoxContext::new(dev_mode, live_reload, version),
        }
    }

    /// The navigation of a source; empty where the source has none.
    pub fn nav_for_source(&self, source_name: &str) -> (r: Vec<NavSection>)
        ensures
            ({
                let k = last_nav_named(
                    self.nav_by_source@,
                    source_name@,
                    self.nav_by_source@.len() as int,
                );
                nav_nodes(r@) == if k >= 0 {
                    nav_nodes(self.nav_by_source@[k].nav@)
                } else {
                    Seq::empty()
                }
            }),
    {
        nav_for_source(self.nav_by_source, source_name)
    }

    /// The tabs of the sources, with that of the source `current_source`
    /// marked as the current one.
    pub fn source_tabs_for(&self, current_source: &str) -> (r: Vec<SourceTab>)
        ensures
            tab_views(r@) == tabs_for(tab_views(self.source_tabs@), current_source@),
    {
        source_tabs_for(self.source_tabs, current_source)
    }
}

/// What templates know of the page that is rendered.
pub struct PageInfo {
    pub title: String,
    pub url: String,
    pub description: Option<String>,
    /// The fields of the front matter that the library gives no meaning to.
    pub extra: Vec<ExtraField>,
}

/// What the content of a document is expanded with.
pub struct ContentRenderContext {
    pub site: SiteContext,
    pub page: PageInfo,
    pub theme: serde_json::Value,
    pub undox: UndoxContext,
}

/// What the page of a document is rendered with.
pub struct PageContext {
    pub site: SiteContext,
    pub page: PageInfo,
    /// The HTML of the content.
    pub content: String,
    /// The navigation of the source of the document.
    pub nav: Vec<NavSection>,
    /// The tabs of the sources.
    pub sources: Vec<SourceTab>,
    /// The headings of the document.
    pub toc: Vec<TocEntry>,
    pub theme: serde_json::Value,
    pub undox: UndoxContext,
}

/// A copy of the extra fields of a front matter.
pub fn copy_extra(extra: &Vec<ExtraField>) -> (r: Vec<ExtraField>)
    ensures
        r@.len() == extra@.len(),
        forall|i: int|
            0 <= i < extra@.len() ==> (#[trigger] r@[i]).key@ == extra@[i].key@ && r@[i].value
                == extra@[i].value,
{
    let mut out: Vec<ExtraField> = Vec::new();
    let mut i: usize = 0;
    while i < extra.len()
        invariant
            i <= extra@.len(),
            out@.len() == i,
            forall|j: int|
                0 <= j < i ==> (#[trigger] out@[j]).key@ == extra@[j].key@ && out@[j].value
                    == extra@[j].value,
        decreases extra@.len() - i,
    {
        out.push(ExtraField { key: extra[i].key.clone(), value: clone_yaml(&extra[i].value) });
        i += 1;
    }
    out
}

/// Whether `page` says of a document what templates are to know of it.
pub open spec fn page_of(page: PageInfo, doc: Document) -> bool {
    &&& page.title@ == doc@.display_title()
    &&& page.url@ == doc.url_path@
    &&& opt_view(page.description) == doc@.description
    &&& page.extra@.len() == doc.front_matter.extra@.len()
    &&& forall|i: int|
        0 <= i < page.extra@.len() ==> (#[trigger] page.extra@[i]).key@
            == doc.front_matter.extra@[i].key@ && page.extra@[i].value
            == doc.front_matter.extra@[i].value
}

/// What templates are to know of a document.
pub fn page_info(doc: &Document) -> (r: PageInfo)
    ensures
        page_of(r, *doc),
{
    PageInfo {
        title: doc.title(),
        url: doc.url_path.clone(),
        description: clone_opt(&doc.front_matter.description),
        extra: copy_extra(&doc.front_matter.extra),
    }
}

// ---------------------------------------------------------------------------
// The stages that every site has
// ---------------------------------------------------------------------------

/// The text before the URL in the message of a failed rendering.
pub open spec fn failed_to_render() -> Seq<char> {
    "failed to render "@
}

/// The failure of a stage to render the document at `url`.
pub open spec fn render_failure(stage: Seq<char>, url: Seq<char>, reason: Seq<char>) -> (
    Seq<char>,
    Seq<char>,
) {
    (stage, failed_to_render() + url + ": "@ + reason)
}

/// Makes the error of a stage that could not render the document at `url`.
pub fn render_failed(stage: &str, url: &str, reason: &str) -> (r: PipelineError)
    ensures
        r matches PipelineError::Stage { stage: s, message: m } && (s@, m@) == render_failure(
            stage@,
            url@,
            reason@,
        ),
{
    let mut m = chars_of("failed to render ");
    append_str(&mut m, url);
    append_str(&mut m, ": ");
    append_str(&mut m, reason);
    PipelineError::Stage { stage: owned(stage), message: string_of(&m) }
}

/// The first outcome, at or after `from`, that is a failure; the number of
/// outcomes where none is.
pub open spec fn first_failure(outcomes: Seq<Result<String, RenderError>>, from: int) -> int
    decreases outcomes.len() - from,
{
    if from < 0 || from >= outcomes.len() {
        outcomes.len() as int
    } else if outcomes[from] is Err {
        from
    } else {
        first_failure(outcomes, from + 1)
    }
}

/// A document with the text that the template engine made for it: as its
/// page where `page` holds, else as its content.
pub open spec fn with_text(doc: ProcessingDocument, text: String, page: bool) -> ProcessingDocument {
    if page {
        ProcessingDocument { output_html: Some(text), ..doc }
    } else {
        ProcessingDocument { content: text, ..doc }
    }
}

/// What a stage of templates makes of the documents, given what the
/// template engine made for each, in their order.
///
/// Where an outcome that has a document is a failure, the stage fails with
/// the first such failure: the error names its document by its URL, and no
/// document changes. Else every document takes its text; a document
/// without an outcome stays as it is, and an outcome without a document is
/// dropped.
pub open spec fn outcomes_taken(
    before: Seq<ProcessingDocument>,
    outcomes: Seq<Result<String, RenderError>>,
    page: bool,
    stage: Seq<char>,
    after: Seq<ProcessingDocument>,
    r: Result<(), PipelineError>,
) -> bool {
    let k = first_failure(outcomes, 0);
    if k < outcomes.len() && k < before.len() {
        &&& after == before
        &&& r matches Err(PipelineError::Stage { stage: s, message: m })
        &&& (s@, m@) == render_failure(stage, before[k].doc.url_path@, outcomes[k]->Err_0.text())
    } else {
        &&& r is Ok
        &&& after.len() == before.len()
        &&& forall|i: int|
            0 <= i < before.len() ==> #[trigger] after[i] == if i < outcomes.len() {
                with_text(before[i], outcomes[i]->Ok_0, page)
            } else {
                before[i]
            }
    }
}

/// Takes the outcomes of a stage of templates in; see [`outcomes_taken`].
fn take_outcomes(
    docs: &mut Vec<ProcessingDocument>,
    outcomes: Vec<Result<String, RenderError>>,
    page: bool,
    stage: &str,
) -> (r: Result<(), PipelineError>)
    ensures
        outcomes_taken(old(docs)@, outcomes@, page, stage@, final(docs)@, r),
{
    let ghost before = docs@;
    let ghost all = outcomes@;
    // the first failure fails the stage before any document is changed
    let mut i: usize = 0;
    while i < outcomes.len() && i < docs.len()
        invariant
            *docs == *old(docs),
            i <= outcomes@.len(),
            i <= docs@.len(),
            first_failure(outcomes@, 0) == first_failure(outcomes@, i as int),
            forall|j: int| 0 <= j < i ==> (#[trigger] outcomes@[j]) is Ok,
        decreases outcomes@.len() - i,
    {
        match &outcomes[i] {
            Ok(_) => {},
            Err(e) => {
                let reason = e.message();
                return Err(render_failed(stage, docs[i].doc.url_path.as_str(), reason.as_str()));
            },
        }
        i += 1;
    }
    let ghost paired = i as int;
    assert(first_failure(all, 0) >= all.len() || first_failure(all, 0) >= before.len()) by {
        if i < outcomes@.len() {
            lemma_first_failure_from(all, i as int);
        }
    }
    // outcomes without a document
    let mut outcomes = outcomes;
    while outcomes.len() > docs.len()
        invariant
            *docs == *old(docs),
            docs@ == before,
            paired <= outcomes@.len() <= all.len(),
            paired <= before.len(),
            paired == all.len() || paired == before.len(),
            forall|j: int| 0 <= j < outcomes@.len() ==> #[trigger] outcomes@[j] == all[j],
        decreases outcomes@.len(),
    {
        let _ = outcomes.pop();
    }
    // each document with its text, the last one first
    let mut done: Vec<ProcessingDocument> = Vec::new();
    while docs.len() > 0
        invariant
            docs@.len() + done@.len() == before.len(),
            paired <= before.len(),
            paired <= all.len(),
            outcomes@.len() == if docs@.len() <= paired {
                docs@.len() as int
            } else {
                paired
            },
            forall|j: int| 0 <= j < docs@.len() ==> #[trigger] docs@[j] == before[j],
            forall|j: int| 0 <= j < outcomes@.len() ==> #[trigger] outcomes@[j] == all[j],
            forall|j: int| 0 <= j < paired ==> (#[trigger] all[j]) is Ok,
            forall|j: int|
                0 <= j < done@.len() ==> #[trigger] done@[j] == if before.len() - 1 - j < paired {
                    with_text(before[before.len() - 1 - j], all[before.len() - 1 - j]->Ok_0, page)
                } else {
                    before[before.len() - 1 - j]
                },
        decreases docs@.len(),
    {
        let ghost n = docs@.len() as int;
        let ghost so_far = done@;
        let doc = docs.pop();
        let text = if outcomes.len() > docs.len() {
            assert(all[n - 1] == outcomes@[n - 1]);
            outcomes.pop()
        } else {
            None
        };
        match (doc, text) {
            (Some(doc), Some(Ok(text))) => {
                if page {
                    done.push(
                        ProcessingDocument {
                            doc: doc.doc,
                            source_path: doc.source_path,
                            content: doc.content,
                            toc: doc.toc,
                            output_html: Some(text),
                        },
                    );
                } else {
                    done.push(
                        ProcessingDocument {
                            doc: doc.doc,
                            source_path: doc.source_path,
                            content: text,
                            toc: doc.toc,
                            output_html: doc.output_html,
                        },
                    );
                }
            },
            (Some(doc), _) => {
                done.push(doc);
            },
            _ => {},
        }
        assert forall|j: int| 0 <= j < done@.len() implies #[trigger] done@[j] == if before.len()
            - 1 - j < paired {
            with_text(before[before.len() - 1 - j], all[before.len() - 1 - j]->Ok_0, page)
        } else {
            before[before.len() - 1 - j]
        } by {
            if j < so_far.len() {
                assert(done@[j] == so_far[j]);
            }
        }
    }
    // back in their order
    while done.len() > 0
        invariant
            docs@.len() + done@.len() == before.len(),
            paired <= before.len(),
            paired <= all.len(),
            forall|j: int|
                0 <= j < done@.len() ==> #[trigger] done@[j] == if before.len() - 1 - j < paired {
                    with_text(before[before.len() - 1 - j], all[before.len() - 1 - j]->Ok_0, page)
                } else {
                    before[before.len() - 1 - j]
                },
            forall|j: int|
                0 <= j < docs@.len() ==> #[trigger] docs@[j] == if j < paired {
                    with_text(before[j], all[j]->Ok_0, page)
                } else {
                    before[j]
                },
        decreases done@.len(),
    {
        match done.pop() {
            Some(doc) => {
                docs.push(doc);
            },
            None => {},
        }
    }
    Ok(())
}

/// Where the search for a failure stands, there the first failure is not
/// before.
proof fn lemma_first_failure_from(outcomes: Seq<Result<String, RenderError>>, from: int)
    requires
        0 <= from <= outcomes.len(),
    ensures
        from <= first_failure(outcomes, from) <= outcomes.len(),
    decreases outcomes.len() - from,
{
    if from < outcomes.len() && outcomes[from] is Ok {
        lemma_first_failure_from(outcomes, from + 1);
    }
}

/// The stage that expands the templates in the content of a document.
pub struct TeraStage;

impl TeraStage {
    /// The name of the stage.
    pub fn name(&self) -> (r: &'static str)
        ensures
            r@ == "tera"@,
    {
        "tera"
    }

    /// What the content of a document is expanded with.
    pub fn context_for(doc: &ProcessingDocument, ctx: &PipelineContext) -> (r: ContentRenderContext)
        ensures
            page_of(r.page, doc.doc),
            r.site.name@ == ctx.site.name@,
            opt_view(r.site.url) == opt_view(ctx.site.url),
            opt_view(r.site.favicon) == opt_view(ctx.site.favicon),
            r.theme == *ctx.theme_settings,
            r.undox.dev == ctx.undox.dev,
            r.undox.live_reload == ctx.undox.live_reload,
            r.undox.version@ == ctx.undox.version@,
    {
        ContentRenderContext {
            site: ctx.site.copy(),
            page: page_info(&doc.doc),
            theme: clone_json(ctx.theme_settings),
            undox: ctx.undox.copy(),
        }
    }

    /// Takes in what the template engine made of the content of a
    /// document. The expanded text becomes the content; a failure fails the
    /// stage, and the error names the document by its URL.
    pub fn apply(doc: &mut ProcessingDocument, outcome: Result<String, RenderError>) -> (r: Result<
        (),
        PipelineError,
    >)
        ensures
            match outcome {
                Ok(text) => r is Ok && *final(doc) == (ProcessingDocument {
                    content: text,
                    ..*old(doc)
                }),
                Err(e) => *final(doc) == *old(doc) && (r matches Err(
                    PipelineError::Stage { stage, message },
                ) && (stage@, message@) == render_failure(
                    "tera"@,
                    old(doc).doc.url_path@,
                    e.text(),
                )),
            },
    {
        match outcome {
            Ok(text) => {
                doc.content = text;
                Ok(())
            },
            Err(e) => {
                let reason = e.message();
                Err(render_failed("tera", doc.doc.url_path.as_str(), reason.as_str()))
            },
        }
    }

    /// Takes in what the template engine made of the contents of the
    /// documents, one outcome for each document, in their order. Where
    /// every content was expanded, the expanded text becomes the content of
    /// its document. The first failure fails the stage: the error names its
    /// document by its URL, and no document changes.
    pub fn take_in(
        docs: &mut Vec<ProcessingDocument>,
        outcomes: Vec<Result<String, RenderError>>,
    ) -> (r: Result<(), PipelineError>)
        ensures
            outcomes_taken(old(docs)@, outcomes@, false, "tera"@, final(docs)@, r),
    {
        take_outcomes(docs, outcomes, false, "tera")
    }
}

/// The stage that renders the content of a document to HTML, with the
/// format of its extension.
pub struct MarkdownStage;

/// Whether a format is registered for the extension of the document.
pub open spec fn has_format(registry: &FormatRegistry, doc: ProcessingDocument) -> bool {
    has_extension(doc.doc.source_path@) && format_for(
        registry.formats@,
        lowercase_of(extension_of(doc.doc.source_path@)),
        registry.formats@.len() as int,
    ) >= 0
}

/// The message for a document whose extension has no format.
pub open spec fn no_format_message(doc: ProcessingDocument) -> Seq<char> {
    "no format registered for "@ + doc.doc.url_path@ + " (extension: "@ + (if has_extension(
        doc.doc.source_path@,
    ) {
        extension_of(doc.doc.source_path@)
    } else {
        "(none)"@
    }) + ")"@
}

/// A document with what a format made of it: the HTML as its content, and
/// the headings.
pub open spec fn with_rendering(
    doc: ProcessingDocument,
    output: crate::format::FormatOutput,
) -> ProcessingDocument {
    ProcessingDocument { content: output.html, toc: output.toc, ..doc }
}

/// The format of the document: the last one that was registered with the
/// extension of the document.
pub open spec fn format_of(
    registry: &FormatRegistry,
    doc: ProcessingDocument,
) -> crate::format::RegisteredFormat {
    registry.formats@[format_for(
        registry.formats@,
        lowercase_of(extension_of(doc.doc.source_path@)),
        registry.formats@.len() as int,
    )]
}

/// What the stage hands to a format beside the content of a document: the
/// highlighter and the configuration of markdown.
pub open spec fn format_context<'a>(ctx: &PipelineContext<'a>) -> FormatContext<'a> {
    FormatContext { highlighter: ctx.highlighter, markdown_config: ctx.markdown_config }
}

/// Whether the document has a format, and `output` is what that format may
/// make of the content of the document, in the context of the stage.
pub open spec fn may_render(
    ctx: &PipelineContext,
    doc: ProcessingDocument,
    output: crate::format::FormatOutput,
) -> bool {
    has_format(ctx.format_registry, doc) && format_of(ctx.format_registry, doc).format.renders(
        doc.content@,
        &format_context(ctx),
        Ok(output),
    )
}

/// Whether the document has a format that may fail on the content of the
/// document, in the context of the stage, with the error `error`.
pub open spec fn may_refuse(
    ctx: &PipelineContext,
    doc: ProcessingDocument,
    error: crate::format::FormatError,
) -> bool {
    has_format(ctx.format_registry, doc) && format_of(ctx.format_registry, doc).format.renders(
        doc.content@,
        &format_context(ctx),
        Err(error),
    )
}

/// Whether `after` is the document `before` with what its format made of
/// its content.
pub open spec fn rendered_as(
    ctx: &PipelineContext,
    before: ProcessingDocument,
    after: ProcessingDocument,
) -> bool {
    exists|output: crate::format::FormatOutput| #[trigger]
        may_render(ctx, before, output) && after == with_rendering(before, output)
}

/// Whether the document is rendered by its format.
pub open spec fn renders_well(ctx: &PipelineContext, doc: ProcessingDocument) -> bool {
    exists|output: crate::format::FormatOutput| #[trigger] may_render(ctx, doc, output)
}

/// Whether `message` is what the stage says where it fails on the
/// document: that the document has no format, or else that its format
/// failed, with the error of the format. Either way the message names the
/// document by its URL.
pub open spec fn fails_on(ctx: &PipelineContext, doc: ProcessingDocument, message: Seq<char>) -> bool {
    if !has_format(ctx.format_registry, doc) {
        message == no_format_message(doc)
    } else {
        exists|error: crate::format::FormatError| #[trigger]
            may_refuse(ctx, doc, error) && message == render_failure(
                "markdown"@,
                doc.doc.url_path@,
                error.text(),
            ).1
    }
}

impl MarkdownStage {
    /// The name of the stage.
    pub fn name(&self) -> (r: &'static str)
        ensures
            r@ == "markdown"@,
    {
        "markdown"
    }

    /// Renders the content of every document to HTML and lists its
    /// headings.
    ///
    /// Each document is handed to the format of its extension, with the
    /// highlighter and the configuration of markdown. Where every document
    /// is rendered, each has the HTML as its content and the headings that
    /// its format made. The stage fails at the first document that has no
    /// format or whose format fails: the error names that document by its
    /// URL, and no document has changed.
    pub fn process(docs: &mut Vec<ProcessingDocument>, ctx: &PipelineContext) -> (r: Result<
        (),
        PipelineError,
    >)
        ensures
            r is Err ==> *final(docs) == *old(docs),
            r is Ok ==> final(docs)@.len() == old(docs)@.len(),
            r is Ok ==> forall|i: int|
                0 <= i < old(docs)@.len() ==> rendered_as(
                    ctx,
                    old(docs)@[i],
                    #[trigger] final(docs)@[i],
                ),
            (exists|i: int|
                0 <= i < old(docs)@.len() && !has_format(
                    ctx.format_registry,
                    #[trigger] old(docs)@[i],
                )) ==> r is Err,
            r matches Err(e) ==> e matches PipelineError::Stage { stage, message } && stage@
                == "markdown"@ && exists|i: int|
                0 <= i < old(docs)@.len() && fails_on(ctx, #[trigger] old(docs)@[i], message@)
                    && forall|j: int| 0 <= j < i ==> renders_well(ctx, #[trigger] old(docs)@[j]),
    {
        let format_ctx = FormatContext {
            highlighter: ctx.highlighter,
            markdown_config: ctx.markdown_config,
        };
        assert(format_ctx == format_context(ctx));
        // render every document before any is changed
        let mut rendered: Vec<crate::format::FormatOutput> = Vec::new();
        let mut i: usize = 0;
        while i < docs.len()
            invariant
                i <= docs@.len(),
                *docs == *old(docs),
                rendered@.len() == i,
                format_ctx == format_context(ctx),
                forall|j: int|
                    0 <= j < i ==> may_render(ctx, docs@[j], #[trigger] rendered@[j]),
            decreases docs@.len() - i,
        {
            let doc = &docs[i];
            let ghost so_far = rendered@;
            proof {
                assert forall|j: int| 0 <= j < i implies renders_well(
                    ctx,
                    #[trigger] old(docs)@[j],
                ) by {
                    assert(may_render(ctx, docs@[j], rendered@[j]));
                }
            }
            let format = match ctx.format_registry.for_path(doc.doc.source_path.as_str()) {
                Some(format) => format,
                None => {
                    let failure = MarkdownStage::no_format(doc);
                    proof {
                        assert(fails_on(ctx, old(docs)@[i as int], failure->Stage_message@));
                    }
                    return Err(failure);
                },
            };
            assert(*format == format_of(ctx.format_registry, *doc));
            match format.render(doc.content.as_str(), &format_ctx) {
                Ok(output) => {
                    assert(may_render(ctx, *doc, output));
                    rendered.push(output);
                    assert forall|j: int| 0 <= j < i + 1 implies may_render(
                        ctx,
                        docs@[j],
                        #[trigger] rendered@[j],
                    ) by {
                        if j < i {
                            assert(rendered@[j] == so_far[j]);
                        }
                    }
                },
                Err(e) => {
                    let reason = e.message();
                    let failure = render_failed(
                        "markdown",
                        doc.doc.url_path.as_str(),
                        reason.as_str(),
                    );
                    proof {
                        assert(may_refuse(ctx, *doc, e));
                        assert(fails_on(ctx, old(docs)@[i as int], failure->Stage_message@));
                    }
                    return Err(failure);
                },
            }
            i += 1;
        }
        // every document is rendered: take the results in
        MarkdownStage::take_in(docs, rendered);
        proof {
            assert forall|i: int| 0 <= i < old(docs)@.len() implies rendered_as(
                ctx,
                old(docs)@[i],
                #[trigger] docs@[i],
            ) by {
                assert(may_render(ctx, old(docs)@[i], rendered@[i]));
            }
            assert forall|i: int| 0 <= i < old(docs)@.len() implies has_format(
                ctx.format_registry,
                #[trigger] old(docs)@[i],
            ) by {
                assert(may_render(ctx, old(docs)@[i], rendered@[i]));
            }
        }
        Ok(())
    }

    /// Takes in what the formats made of the documents, one result for each
    /// document, in their order: the HTML becomes the content of the
    /// document, and the headings become its headings. A document without a
    /// result stays as it is, and a result without a document is dropped.
    pub fn take_in(docs: &mut Vec<ProcessingDocument>, rendered: Vec<crate::format::FormatOutput>)
        ensures
            final(docs)@.len() == old(docs)@.len(),
            forall|i: int|
                0 <= i < old(docs)@.len() ==> #[trigger] final(docs)@[i] == if i
                    < rendered@.len() {
                    with_rendering(old(docs)@[i], rendered@[i])
                } else {
                    old(docs)@[i]
                },
    {
        let ghost before = docs@;
        let ghost results = rendered@;
        let ghost paired = if before.len() <= results.len() {
            before.len() as int
        } else {
            results.len() as int
        };
        let mut rendered = rendered;
        assert(rendered@ =~= results.take(rendered@.len() as int));
        // results without a document
        while rendered.len() > docs.len()
            invariant
                *docs == *old(docs),
                docs@ == before,
                paired <= before.len(),
                paired == results.len() || paired == before.len(),
                paired <= rendered@.len() <= results.len(),
                rendered@ == results.take(rendered@.len() as int),
            decreases rendered@.len(),
        {
            let ghost n = rendered@.len() as int;
            let _ = rendered.pop();
            assert(rendered@ =~= results.take(n - 1));
        }
        // documents without a result, the last one first
        let mut rest: Vec<ProcessingDocument> = Vec::new();
        assert(docs@ =~= before.take(docs@.len() as int));
        while docs.len() > rendered.len()
            invariant
                docs@.len() + rest@.len() == before.len(),
                docs@ == before.take(docs@.len() as int),
                rendered@.len() == paired,
                paired <= docs@.len(),
                paired <= results.len(),
                paired == results.len() || paired == before.len(),
                rendered@ == results.take(rendered@.len() as int),
                forall|j: int|
                    0 <= j < rest@.len() ==> #[trigger] rest@[j] == before[before.len() - 1 - j],
            decreases docs@.len(),
        {
            let ghost n = docs@.len() as int;
            match docs.pop() {
                Some(doc) => {
                    assert(doc == before[n - 1]);
                    rest.push(doc);
                },
                None => {},
            }
            assert(docs@ =~= before.take(n - 1));
        }
        // each document with its result, the last one first
        let mut done: Vec<ProcessingDocument> = Vec::new();
        while docs.len() > 0
            invariant
                docs@.len() == rendered@.len(),
                docs@.len() + done@.len() == paired,
                paired <= before.len(),
                paired <= results.len(),
                docs@ == before.take(docs@.len() as int),
                rendered@ == results.take(rendered@.len() as int),
                forall|j: int|
                    0 <= j < done@.len() ==> #[trigger] done@[j] == with_rendering(
                        before[paired - 1 - j],
                        results[paired - 1 - j],
                    ),
            decreases docs@.len(),
        {
            let ghost n = docs@.len() as int;
            let doc = docs.pop();
            let output = rendered.pop();
            assert(docs@ =~= before.take(n - 1));
            assert(rendered@ =~= results.take(n - 1));
            match (doc, output) {
                (Some(doc), Some(output)) => {
                    assert(doc == before[n - 1]);
                    assert(output == results[n - 1]);
                    done.push(
                        ProcessingDocument {
                            doc: doc.doc,
                            source_path: doc.source_path,
                            content: output.html,
                            toc: output.toc,
                            output_html: doc.output_html,
                        },
                    );
                },
                _ => {},
            }
        }
        // back in their order
        while done.len() > 0
            invariant
                docs@.len() + done@.len() == paired,
                paired <= before.len(),
                paired <= results.len(),
                forall|j: int|
                    0 <= j < done@.len() ==> #[trigger] done@[j] == with_rendering(
                        before[paired - 1 - j],
                        results[paired - 1 - j],
                    ),
                forall|j: int|
                    0 <= j < docs@.len() ==> #[trigger] docs@[j] == with_rendering(
                        before[j],
                        results[j],
                    ),
            decreases done@.len(),
        {
            match done.pop() {
                Some(doc) => {
                    docs.push(doc);
                },
                None => {},
            }
        }
        while rest.len() > 0
            invariant
                docs@.len() + rest@.len() == before.len(),
                paired <= docs@.len(),
                paired <= results.len(),
                paired == results.len() || paired == before.len(),
                before.len() == old(docs)@.len(),
                forall|j: int|
                    0 <= j < rest@.len() ==> #[trigger] rest@[j] == before[before.len() - 1 - j],
                forall|j: int|
                    0 <= j < paired ==> #[trigger] docs@[j] == with_rendering(
                        before[j],
                        results[j],
                    ),
                forall|j: int| paired <= j < docs@.len() ==> #[trigger] docs@[j] == before[j],
            decreases rest@.len(),
        {
            match rest.pop() {
                Some(doc) => {
                    docs.push(doc);
                },
                None => {},
            }
        }
    }

    /// The error for a document whose extension has no format.
    fn no_format(doc: &ProcessingDocument) -> (r: PipelineError)
        ensures
            r matches PipelineError::Stage { stage, message } && stage@ == "markdown"@
                && message@ == no_format_message(*doc),
    {
        let path = chars_of(doc.doc.source_path.as_str());
        let mut m = chars_of("no format registered for ");
        append_str(&mut m, doc.doc.url_path.as_str());
        append_str(&mut m, " (extension: ");
        if crate::paths::path_has_extension(&path) {
            let ext = extension(&path);
            crate::text::append_chars(&mut m, &ext);
        } else {
            append_str(&mut m, "(none)");
        }
        append_str(&mut m, ")");
        assert(m@ =~= no_format_message(*doc));
        PipelineError::Stage { stage: owned("markdown"), message: string_of(&m) }
    }
}

/// The stage that wraps the HTML of a document in the page template.
pub struct TemplateStage;

impl TemplateStage {
    /// The name of the stage.
    pub fn name(&self) -> (r: &'static str)
        ensures
            r@ == "template"@,
    {
        "template"
    }

    /// What the page of a document is rendered with: the content and the
    /// headings of the document, the navigation of its source, and the tabs
    /// with that of its source marked.
    pub fn context_for(doc: &ProcessingDocument, ctx: &PipelineContext) -> (r: PageContext)
        ensures
            page_of(r.page, doc.doc),
            r.content@ == doc.content@,
            toc_views(r.toc@) == toc_views(doc.toc@),
            ({
                let k = last_nav_named(
                    ctx.nav_by_source@,
                    doc.doc.source_name@,
                    ctx.nav_by_source@.len() as int,
                );
                nav_nodes(r.nav@) == if k >= 0 {
                    nav_nodes(ctx.nav_by_source@[k].nav@)
                } else {
                    Seq::empty()
                }
            }),
            tab_views(r.sources@) == tabs_for(tab_views(ctx.source_tabs@), doc.doc.source_name@),
            r.site.name@ == ctx.site.name@,
            opt_view(r.site.url) == opt_view(ctx.site.url),
            opt_view(r.site.favicon) == opt_view(ctx.site.favicon),
            r.theme == *ctx.theme_settings,
            r.undox.dev == ctx.undox.dev,
            r.undox.live_reload == ctx.undox.live_reload,
            r.undox.version@ == ctx.undox.version@,
    {
        PageContext {
            site: ctx.site.copy(),
            page: page_info(&doc.doc),
            content: doc.content.clone(),
            nav: ctx.nav_for_source(doc.doc.source_name.as_str()),
            sources: ctx.source_tabs_for(doc.doc.source_name.as_str()),
            toc: clone_toc(&doc.toc),
            theme: clone_json(ctx.theme_settings),
            undox: ctx.undox.copy(),
        }
    }

    /// Takes in what the template engine made of the page of a document.
    /// The HTML becomes the page; a failure fails the stage, and the error
    /// names the document by its URL.
    pub fn apply(doc: &mut ProcessingDocument, outcome: Result<String, RenderError>) -> (r: Result<
        (),
        PipelineError,
    >)
        ensures
            match outcome {
                Ok(html) => r is Ok && *final(doc) == (ProcessingDocument {
                    output_html: Some(html),
                    ..*old(doc)
                }),
                Err(e) => *final(doc) == *old(doc) && (r matches Err(
                    PipelineError::Stage { stage, message },
                ) && (stage@, message@) == render_failure(
                    "template"@,
                    old(doc).doc.url_path@,
                    e.text(),
                )),
            },
    {
        match outcome {
            Ok(html) => {
                doc.output_html = Some(html);
                Ok(())
            },
            Err(e) => {
                let reason = e.message();
                Err(render_failed("template", doc.doc.url_path.as_str(), reason.as_str()))
            },
        }
    }

    /// Takes in what the template engine made of the pages of the
    /// documents, one outcome for each document, in their order. Where
    /// every page was rendered, the HTML becomes the page of its document.
    /// The first failure fails the stage: the error names its document by
    /// its URL, and no document changes.
    pub fn take_in(
        docs: &mut Vec<ProcessingDocument>,
        outcomes: Vec<Result<String, RenderError>>,
    ) -> (r: Result<(), PipelineError>)
        ensures
            outcomes_taken(old(docs)@, outcomes@, true, "template"@, final(docs)@, r),
    {
        take_outcomes(docs, outcomes, true, "template")
    }
}

/// A file to write.
pub struct WritePlan {
    /// The directory of the file, which is made where it is missing.
    pub dir: String,
    /// The path of the file.
    pub path: String,
    /// What is written.
    pub html: String,
}

/// The stage that writes the pages.
pub struct WriteStage;

/// The first document, at or after `from`, that has no page; the number of
/// documents where each has one.
pub open spec fn first_without_page(docs: Seq<ProcessingDocument>, from: int) -> int
    decreases docs.len() - from,
{
    if from < 0 || from >= docs.len() {
        docs.len() as int
    } else if docs[from].output_html is None {
        from
    } else {
        first_without_page(docs, from + 1)
    }
}

/// The message for a document that comes to the write stage without a page.
pub open spec fn no_output_message(url: Seq<char>) -> Seq<char> {
    "document '"@ + url + "' has no output HTML (was template stage run?)"@
}

impl WriteStage {
    /// The name of the stage.
    pub fn name(&self) -> (r: &'static str)
        ensures
            r@ == "write"@,
    {
        "write"
    }

    /// Says which file is written for a document, and what is written to
    /// it. A document without a page fails the stage.
    pub fn plan(doc: &ProcessingDocument, ctx: &PipelineContext) -> (r: Result<
        WritePlan,
        PipelineError,
    >)
        ensures
            match doc.output_html {
                Some(html) => r matches Ok(plan) && plan.html@ == html@ && plan.path@
                    == output_path(doc.doc.url_path@, ctx.output_dir@) && plan.dir@ == parent_dir(
                    plan.path@,
                ),
                None => r matches Err(PipelineError::Stage { stage, message }) && stage@
                    == "write"@ && message@ == no_output_message(doc.doc.url_path@),
            },
    {
        match &doc.output_html {
            Some(html) => {
                let path = url_to_output_path(doc.doc.url_path.as_str(), ctx.output_dir);
                let dir = crate::paths::base_path_from_config(path.as_str());
                Ok(WritePlan { dir, path, html: html.clone() })
            },
            None => {
                let mut m = chars_of("document '");
                append_str(&mut m, doc.doc.url_path.as_str());
                append_str(&mut m, "' has no output HTML (was template stage run?)");
                Err(PipelineError::Stage { stage: owned("write"), message: string_of(&m) })
            },
        }
    }

    /// Says which files are written for the documents, in their order. The
    /// first document without a page fails the stage, and nothing is to be
    /// written.
    pub fn process(docs: &Vec<ProcessingDocument>, ctx: &PipelineContext) -> (r: Result<
        Vec<WritePlan>,
        PipelineError,
    >)
        ensures
            match r {
                Ok(plans) => {
                    &&& plans@.len() == docs@.len()
                    &&& forall|i: int|
                        0 <= i < docs@.len() ==> (#[trigger] docs@[i]).output_html is Some
                    &&& forall|i: int|
                        0 <= i < docs@.len() ==> (#[trigger] plans@[i]).html@
                            == docs@[i].output_html->0@ && plans@[i].path@ == output_path(
                            docs@[i].doc.url_path@,
                            ctx.output_dir@,
                        ) && plans@[i].dir@ == parent_dir(plans@[i].path@)
                },
                Err(e) => {
                    let k = first_without_page(docs@, 0);
                    &&& k < docs@.len()
                    &&& e matches PipelineError::Stage { stage, message }
                    &&& stage@ == "write"@
                    &&& message@ == no_output_message(docs@[k].doc.url_path@)
                },
            },
    {
        let mut plans: Vec<WritePlan> = Vec::new();
        let mut i: usize = 0;
        while i < docs.len()
            invariant
                i <= docs@.len(),
                plans@.len() == i,
                first_without_page(docs@, 0) == first_without_page(docs@, i as int),
                forall|j: int| 0 <= j < i ==> (#[trigger] docs@[j]).output_html is Some,
                forall|j: int|
                    0 <= j < i ==> (#[trigger] plans@[j]).html@ == docs@[j].output_html->0@,
                forall|j: int|
                    0 <= j < i ==> (#[trigger] plans@[j]).path@ == output_path(
                        docs@[j].doc.url_path@,
                        ctx.output_dir@,
                    ) && plans@[j].dir@ == parent_dir(plans@[j].path@),
            decreases docs@.len() - i,
        {
            match WriteStage::plan(&docs[i], ctx) {
                Ok(plan) => {
                    plans.push(plan);
                },
                Err(e) => {
                    return Err(e);
                },
            }
            i += 1;
        }
        Ok(plans)
    }
}

// ---------------------------------------------------------------------------
// The order of the stages
// ---------------------------------------------------------------------------

/// The stages of a build, by name, in the order in which they run.
pub struct Pipeline {
    /// The stages that every document goes through.
    pub stages: Vec<String>,
    /// The stages that run once, after the documents are done.
    pub finalize_stages: Vec<String>,
}

/// The place of the first stage named `name`; the number of stages where
/// there is none.
pub open spec fn stage_index(stages: Seq<Seq<char>>, name: Seq<char>, from: int) -> int
    decreases stages.len() - from,
{
    if from < 0 || from >= stages.len() {
        stages.len() as int
    } else if stages[from] == name {
        from
    } else {
        stage_index(stages, name, from + 1)
    }
}

/// The stages that every site has, in their order.
pub open spec fn default_stages() -> Seq<Seq<char>> {
    seq!["tera"@, "markdown"@, "template"@, "write"@]
}

/// What the pipeline asks of its caller.
pub enum PipelineStep {
    /// Run the stage of this name on the documents.
    RunStage(String),
    /// Run the finalize stage of this name.
    Finalize(String),
    /// The run has ended.
    Finished(Result<(), PipelineError>),
}

/// Where a run of the pipeline stands: how many of its stages, finalize
/// stages after the others, have been asked for.
pub struct PipelineRun {
    pub asked: usize,
    /// Whether the run has ended.
    pub ended: bool,
}

impl Pipeline {
    /// A pipeline without stages.
    pub fn new() -> (r: Self)
        ensures
            r.stages@.len() == 0,
            r.finalize_stages@.len() == 0,
    {
        Pipeline { stages: Vec::new(), finalize_stages: Vec::new() }
    }

    /// The pipeline that every site has: `tera`, `markdown`, `template`,
    /// `write`.
    pub fn default_pipeline() -> (r: Self)
        ensures
            texts(r.stages@) == default_stages(),
            r.finalize_stages@.len() == 0,
    {
        let mut stages: Vec<String> = Vec::new();
        stages.push(owned("tera"));
        stages.push(owned("markdown"));
        stages.push(owned("template"));
        stages.push(owned("write"));
        assert(texts(stages@) =~= default_stages());
        Pipeline { stages, finalize_stages: Vec::new() }
    }

    /// Adds a stage at the end.
    pub fn add_stage(&mut self, name: &str)
        ensures
            texts(final(self).stages@) == texts(old(self).stages@).push(name@),
            final(self).finalize_stages == old(self).finalize_stages,
    {
        let ghost before = texts(self.stages@);
        self.stages.push(owned(name));
        assert(texts(self.stages@) =~= before.push(name@));
    }

    /// Whether the pipeline has a stage of this name.
    pub fn has_stage(&self, name: &str) -> (r: bool)
        ensures
            r == (stage_index(texts(self.stages@), name@, 0) < self.stages@.len()),
    {
        self.find_stage(name) < self.stages.len()
    }

    /// The place of the first stage of this name.
    fn find_stage(&self, name: &str) -> (k: usize)
        ensures
            k as int == stage_index(texts(self.stages@), name@, 0),
            k <= self.stages@.len(),
    {
        let mut i: usize = 0;
        while i < self.stages.len()
            invariant
                i <= self.stages@.len(),
                stage_index(texts(self.stages@), name@, 0) == stage_index(
                    texts(self.stages@),
                    name@,
                    i as int,
                ),
            decreases self.stages@.len() - i,
        {
            assert(texts(self.stages@)[i as int] == self.stages@[i as int]@);
            if same_text(self.stages[i].as_str(), name) {
                return i;
            }
            i += 1;
        }
        i
    }

    /// Puts a stage before the first stage named `name`, which must exist.
    pub fn insert_before(&mut self, name: &str, stage: &str)
        requires
            stage_index(texts(old(self).stages@), name@, 0) < old(self).stages@.len(),
        ensures
            texts(final(self).stages@) == texts(old(self).stages@).insert(
                stage_index(texts(old(self).stages@), name@, 0),
                stage@,
            ),
            final(self).finalize_stages == old(self).finalize_stages,
    {
        let ghost before = texts(self.stages@);
        let k = self.find_stage(name);
        self.stages.insert(k, owned(stage));
        assert(texts(self.stages@) =~= before.insert(k as int, stage@));
    }

    /// Puts a stage after the first stage named `name`, which must exist.
    pub fn insert_after(&mut self, name: &str, stage: &str)
        requires
            stage_index(texts(old(self).stages@), name@, 0) < old(self).stages@.len(),
        ensures
            texts(final(self).stages@) == texts(old(self).stages@).insert(
                stage_index(texts(old(self).stages@), name@, 0) + 1,
                stage@,
            ),
            final(self).finalize_stages == old(self).finalize_stages,
    {
        let ghost before = texts(self.stages@);
        let k = self.find_stage(name);
        assert(k < self.stages.len());
        self.stages.insert(k + 1, owned(stage));
        assert(texts(self.stages@) =~= before.insert(k as int + 1, stage@));
    }

    /// Puts a stage before the first stage named `name`; says whether there
    /// is such a stage, and changes nothing where there is none.
    pub fn try_insert_before(&mut self, name: &str, stage: &str) -> (r: bool)
        ensures
            r == (stage_index(texts(old(self).stages@), name@, 0) < old(self).stages@.len()),
            r ==> texts(final(self).stages@) == texts(old(self).stages@).insert(
                stage_index(texts(old(self).stages@), name@, 0),
                stage@,
            ),
            !r ==> final(self).stages == old(self).stages,
            final(self).finalize_stages == old(self).finalize_stages,
    {
        if self.has_stage(name) {
            self.insert_before(name, stage);
            true
        } else {
            false
        }
    }

    /// Puts a stage after the first stage named `name`; says whether there
    /// is such a stage, and changes nothing where there is none.
    pub fn try_insert_after(&mut self, name: &str, stage: &str) -> (r: bool)
        ensures
            r == (stage_index(texts(old(self).stages@), name@, 0) < old(self).stages@.len()),
            r ==> texts(final(self).stages@) == texts(old(self).stages@).insert(
                stage_index(texts(old(self).stages@), name@, 0) + 1,
                stage@,
            ),
            !r ==> final(self).stages == old(self).stages,
            final(self).finalize_stages == old(self).finalize_stages,
    {
        if self.has_stage(name) {
            self.insert_after(name, stage);
            true
        } else {
            false
        }
    }

    /// Adds a finalize stage at the end.
    pub fn add_finalize_stage(&mut self, name: &str)
        ensures
            texts(final(self).finalize_stages@) == texts(old(self).finalize_stages@).push(name@),
            final(self).stages == old(self).stages,
    {
        let ghost before = texts(self.finalize_stages@);
        self.finalize_stages.push(owned(name));
        assert(texts(self.finalize_stages@) =~= before.push(name@));
    }

    /// The names of the stages, in their order.
    pub fn stage_names(&self) -> (r: Vec<String>)
        ensures
            texts(r@) == texts(self.stages@),
    {
        let mut out: Vec<String> = Vec::new();
        let mut i: usize = 0;
        while i < self.stages.len()
            invariant
                i <= self.stages@.len(),
                out@.len() == i,
                forall|j: int| 0 <= j < i ==> (#[trigger] out@[j])@ == self.stages@[j]@,
            decreases self.stages@.len() - i,
        {
            out.push(self.stages[i].clone());
            i += 1;
        }
        assert(texts(out@) =~= texts(self.stages@));
        out
    }

    /// The `k`th step of a run that meets no failure: the stages in their
    /// order, then the finalize stages in theirs, then the end.
    pub open spec fn step_at(&self, k: int) -> PipelineStepView {
        if 0 <= k < self.stages@.len() {
            PipelineStepView::RunStage(self.stages@[k]@)
        } else if self.stages@.len() <= k < self.stages@.len() + self.finalize_stages@.len() {
            PipelineStepView::Finalize(self.finalize_stages@[k - self.stages@.len()]@)
        } else {
            PipelineStepView::Finished
        }
    }

    /// The step that is asked for when `asked` steps have been asked for.
    fn step(&self, asked: usize) -> (r: PipelineStep)
        ensures
            step_view(r) == self.step_at(asked as int),
            r matches PipelineStep::Finished(outcome) ==> outcome is Ok,
    {
        if asked < self.stages.len() {
            PipelineStep::RunStage(self.stages[asked].clone())
        } else if asked - self.stages.len() < self.finalize_stages.len() {
            PipelineStep::Finalize(self.finalize_stages[asked - self.stages.len()].clone())
        } else {
            PipelineStep::Finished(Ok(()))
        }
    }

    /// Begins a run: asks for the first stage, or ends at once where the
    /// pipeline has no stage.
    pub fn run(&self) -> (r: (PipelineRun, PipelineStep))
        ensures
            step_view(r.1) == self.step_at(0),
            r.1 matches PipelineStep::Finished(outcome) ==> outcome is Ok,
            r.0.asked == 1,
            r.0.ended == (r.1 is Finished),
    {
        let step = self.step(0);
        let ended = match &step {
            PipelineStep::Finished(_) => true,
            _ => false,
        };
        (PipelineRun { asked: 1, ended }, step)
    }

    /// Takes the outcome of the step that was asked for last, and asks for
    /// the next. A failure ends the run with that failure; so no stage runs
    /// after a stage that failed. A run that has ended stays ended.
    pub fn next(&self, run: PipelineRun, outcome: Result<(), PipelineError>) -> (r: (
        PipelineRun,
        PipelineStep,
    ))
        requires
            run.asked < usize::MAX,
        ensures
            r.0.asked == run.asked + 1,
            r.0.ended == (r.1 is Finished),
            match outcome {
                Err(e) => r.1 == PipelineStep::Finished(Err::<(), PipelineError>(e)),
                Ok(_) => if run.ended {
                    r.1 == PipelineStep::Finished(Ok::<(), PipelineError>(()))
                } else {
                    step_view(r.1) == self.step_at(run.asked as int) && (
                    r.1 matches PipelineStep::Finished(end) ==> end is Ok)
                },
            },
    {
        let step = match outcome {
            Err(e) => PipelineStep::Finished(Err(e)),
            Ok(_) => {
                if run.ended {
                    PipelineStep::Finished(Ok(()))
                } else {
                    self.step(run.asked)
                }
            },
        };
        let ended = match &step {
            PipelineStep::Finished(_) => true,
            _ => false,
        };
        (PipelineRun { asked: run.asked + 1, ended }, step)
    }
}

impl Default for Pipeline {
    /// The pipeline that every site has.
    fn default() -> (r: Self)
        ensures
            texts(r.stages@) == default_stages(),
            r.finalize_stages@.len() == 0,
    {
        Pipeline::default_pipeline()
    }
}

/// The mathematical form of a [`PipelineStep`], without the outcome of the
/// run.
pub enum PipelineStepView {
    RunStage(Seq<char>),
    Finalize(Seq<char>),
    Finished,
}

/// The mathematical form of a step.
pub open spec fn step_view(step: PipelineStep) -> PipelineStepView {
    match step {
        PipelineStep::RunStage(name) => PipelineStepView::RunStage(name@),
        PipelineStep::Finalize(name) => PipelineStepView::Finalize(name@),
        PipelineStep::Finished(_) => PipelineStepView::Finished,
    }
}

} // verus!
