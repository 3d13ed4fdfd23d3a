//! Content formats.
//!
//! A format renders the files of its extensions to HTML. The registry holds
//! the formats that a site knows and finds the one for a file by its
//! extension. Markdown is the format that every site starts with.

use vstd::prelude::*;
use crate::config::MarkdownConfig;
use crate::highlight::SyntaxHighlighter;
use crate::markdown::{
    document_html, document_toc, first_unknown, options_upto, render_markdown, MarkdownError,
};
use crate::paths::{extension, extension_of};
use crate::render::{toc_views, TocEntry};
use crate::text::{append_str, chars_of, lowercase_of, owned, same_text, string_of, texts, to_lower};

verus! {

/// What a format makes of a document.
pub struct FormatOutput {
    /// The HTML of the content.
    pub html: String,
    /// The headings of the document.
    pub toc: Vec<TocEntry>,
}

/// What a format can use while it renders.
pub struct FormatContext<'a> {
    /// The highlighter for code blocks.
    pub highlighter: &'a SyntaxHighlighter,
    /// How markdown is read.
    pub markdown_config: &'a MarkdownConfig,
}

/// Why a format could not render a document.
pub enum FormatError {
    /// The format failed, for the reason given.
    Render(String),
    /// Markdown could not be rendered.
    Markdown(MarkdownError),
}

impl FormatError {
    /// The error in words.
    pub open spec fn text(&self) -> Seq<char> {
        match self {
            FormatError::Render(m) => "render error: "@ + m@,
            FormatError::Markdown(e) => "markdown error: "@ + e.text(),
        }
    }

    /// The error in words.
    pub fn message(&self) -> (r: String)
        ensures
            r@ == self.text(),
    {
        match self {
            FormatError::Render(m) => {
                let mut out = chars_of("render error: ");
                append_str(&mut out, m.as_str());
                string_of(&out)
            },
            FormatError::Markdown(e) => {
                let mut out = chars_of("markdown error: ");
                let inner = e.message();
                append_str(&mut out, inner.as_str());
                string_of(&out)
            },
        }
    }
}

/// The texts of a list of string slices.
pub open spec fn slice_texts(v: Seq<&'static str>) -> Seq<Seq<char>> {
    Seq::new(v.len(), |i: int| v[i]@)
}

/// A format of content: it renders the files of its extensions to HTML.
pub trait ContentFormat {
    /// Whether `name` is the name that the format gives itself. A format
    /// that says nothing may give itself any name.
    open spec fn names(&self, name: Seq<char>) -> bool {
        true
    }

    /// Whether `extensions` are the extensions that the format gives
    /// itself. A format that says nothing may give itself any.
    open spec fn lists(&self, extensions: Seq<Seq<char>>) -> bool {
        true
    }

    /// The name of the format.
    fn name(&self) -> (r: &'static str)
        ensures
            self.names(r@),
    ;

    /// The extensions of the files of this format, in lowercase and without
    /// the dot.
    fn extensions(&self) -> (r: &[&'static str])
        ensures
            self.lists(slice_texts(r@)),
    ;

    /// Whether `outcome` is one that the format may come to when it renders
    /// `content`: what the format says of its own rendering. A format that
    /// says nothing may come to any outcome.
    open spec fn renders(
        &self,
        content: Seq<char>,
        ctx: &FormatContext,
        outcome: Result<FormatOutput, FormatError>,
    ) -> bool {
        true
    }

    /// Renders content to HTML and lists its headings.
    fn render(&self, content: &str, ctx: &FormatContext) -> (r: Result<FormatOutput, FormatError>)
        ensures
            self.renders(content@, ctx, r),
    ;
}

/// The markdown format.
pub struct MarkdownFormat;

impl ContentFormat for MarkdownFormat {
    /// The format is named `markdown`.
    open spec fn names(&self, name: Seq<char>) -> bool {
        name == "markdown"@
    }

    /// The format has the extensions `md` and `markdown`.
    open spec fn lists(&self, extensions: Seq<Seq<char>>) -> bool {
        extensions == seq!["md"@, "markdown"@]
    }

    fn name(&self) -> (r: &'static str) {
        "markdown"
    }

    fn extensions(&self) -> (r: &[&'static str]) {
        let r: &[&'static str] = &["md", "markdown"];
        assert(slice_texts(r@) =~= seq!["md"@, "markdown"@]);
        r
    }

    /// Markdown is rendered, to the HTML and the headings that
    /// [`render_markdown`] gives, unless the configuration names an
    /// extension that does not exist: then the rendering fails, and the
    /// error names the first such extension.
    open spec fn renders(
        &self,
        content: Seq<char>,
        ctx: &FormatContext,
        outcome: Result<FormatOutput, FormatError>,
    ) -> bool {
        let names = texts(ctx.markdown_config.extensions@);
        let k = first_unknown(names, 0);
        let options = options_upto(names, names.len() as int);
        match outcome {
            Ok(output) => k == names.len() && output.html@ == document_html(content, options)
                && toc_views(output.toc@) == document_toc(content, options),
            Err(FormatError::Markdown(MarkdownError::InvalidExtension(name))) => k < names.len()
                && name@ == names[k],
            Err(_) => false,
        }
    }

    fn render(&self, content: &str, ctx: &FormatContext) -> (r: Result<FormatOutput, FormatError>)
    {
        match render_markdown(content, ctx.highlighter, ctx.markdown_config) {
            Ok(output) => Ok(FormatOutput { html: output.html, toc: output.toc }),
            Err(e) => Err(FormatError::Markdown(e)),
        }
    }
}

/// A format as the registry holds it, with its name and its extensions as
/// they were when it was registered.
pub struct RegisteredFormat {
    pub name: String,
    pub extensions: Vec<String>,
    pub format: Box<dyn ContentFormat>,
}

impl RegisteredFormat {
    /// The name of the format.
    pub fn name(&self) -> (r: &str)
        ensures
            r@ == self.name@,
    {
        self.name.as_str()
    }

    /// Renders content with the format: the outcome is one that the format
    /// itself may come to.
    pub fn render(&self, content: &str, ctx: &FormatContext) -> (r: Result<
        FormatOutput,
        FormatError,
    >)
        ensures
            self.format.renders(content@, ctx, r),
    {
        self.format.render(content, ctx)
    }

    /// Whether the format has the extension `ext`, which is in lowercase.
    pub open spec fn handles(&self, ext: Seq<char>) -> bool {
        texts(self.extensions@).contains(ext)
    }

    /// Executable form of [`Self::handles`].
    pub fn has_extension(&self, ext: &str) -> (r: bool)
        ensures
            r == self.handles(ext@),
    {
        let mut i: usize = 0;
        while i < self.extensions.len()
            invariant
                i <= self.extensions@.len(),
                forall|j: int| 0 <= j < i ==> texts(self.extensions@)[j] != ext@,
            decreases self.extensions@.len() - i,
        {
            assert(texts(self.extensions@)[i as int] == self.extensions@[i as int]@);
            if same_text(self.extensions[i].as_str(), ext) {
                return true;
            }
            i += 1;
        }
        false
    }
}

/// The formats that a site knows.
pub struct FormatRegistry {
    /// The formats, in the order in which they were registered.
    pub formats: Vec<RegisteredFormat>,
}

/// The last of the first `n` formats that has the extension `ext`; -1
/// where none has it.
pub open spec fn format_for(formats: Seq<RegisteredFormat>, ext: Seq<char>, n: int) -> int
    decreases n,
{
    if n <= 0 {
        -1
    } else if formats[n - 1].handles(ext) {
        n - 1
    } else {
        format_for(formats, ext, n - 1)
    }
}

/// What [`format_for`] finds is a format with that extension, and no later
/// one has it.
pub proof fn lemma_format_for(formats: Seq<RegisteredFormat>, ext: Seq<char>, n: int)
    requires
        0 <= n <= formats.len(),
    ensures
        -1 <= format_for(formats, ext, n) < n,
        format_for(formats, ext, n) >= 0 ==> formats[format_for(formats, ext, n)].handles(ext),
        forall|j: int| format_for(formats, ext, n) < j < n ==> !(#[trigger] formats[j]).handles(ext),
    decreases n,
{
    if n > 0 && !formats[n - 1].handles(ext) {
        lemma_format_for(formats, ext, n - 1);
    }
}

/// The first `n` extensions of the formats, format by format.
pub open spec fn extensions_upto(formats: Seq<RegisteredFormat>, n: int) -> Seq<Seq<char>>
    decreases n,
{
    if n <= 0 {
        Seq::empty()
    } else {
        extensions_upto(formats, n - 1) + texts(formats[n - 1].extensions@)
    }
}

impl FormatRegistry {
    /// A registry without formats.
    pub fn new() -> (r: Self)
        ensures
            r.formats@.len() == 0,
    {
        FormatRegistry { formats: Vec::new() }
    }

    /// A registry with the markdown format, for the extensions `md` and
    /// `markdown`.
    pub fn with_defaults() -> (r: Self)
        ensures
            r.formats@.len() == 1,
            r.formats@[0].name@ == "markdown"@,
            texts(r.formats@[0].extensions@) == seq!["md"@, "markdown"@],
    {
        let mut registry = FormatRegistry::new();
        let mut extensions: Vec<String> = Vec::new();
        extensions.push(owned("md"));
        extensions.push(owned("markdown"));
        assert(texts(extensions@) =~= seq!["md"@, "markdown"@]);
        registry.register_as(owned("markdown"), extensions, Box::new(MarkdownFormat));
        registry
    }

    /// Adds a format under the given name and extensions. Where formats
    /// share an extension, the one that was added last has it.
    pub fn register_as(
        &mut self,
        name: String,
        extensions: Vec<String>,
        format: Box<dyn ContentFormat>,
    )
        ensures
            final(self).formats@.len() == old(self).formats@.len() + 1,
            final(self).formats@.last() == (RegisteredFormat { name, extensions, format }),
            forall|j: int|
                0 <= j < old(self).formats@.len() ==> final(self).formats@[j] == old(self).formats@[j],
    {
        let entry = RegisteredFormat { name, extensions, format };
        self.formats.push(entry);
        proof {
            let before = old(self).formats@;
            vstd::seq::axiom_seq_push_len(before, entry);
            vstd::seq::axiom_seq_push_index_same(before, entry, before.len() as int);
            assert forall|j: int| 0 <= j < before.len() implies self.formats@[j] == before[j] by {
                vstd::seq::axiom_seq_push_index_different(before, entry, j);
            }
        }
    }

    /// Adds a format, under the name and the extensions that it gives
    /// itself. The formats that were there stay as they are.
    pub fn register<F: ContentFormat + 'static>(&mut self, format: F)
        ensures
            final(self).formats@.len() == old(self).formats@.len() + 1,
            format.names(final(self).formats@.last().name@),
            format.lists(texts(final(self).formats@.last().extensions@)),
            forall|j: int|
                0 <= j < old(self).formats@.len() ==> final(self).formats@[j] == old(self).formats@[j],
    {
        let name = owned(format.name());
        let given = format.extensions();
        let mut extensions: Vec<String> = Vec::new();
        let mut i: usize = 0;
        while i < given.len()
            invariant
                i <= given@.len(),
                extensions@.len() == i,
                forall|j: int| 0 <= j < i ==> (#[trigger] extensions@[j])@ == given@[j]@,
            decreases given@.len() - i,
        {
            extensions.push(owned(given[i]));
            i += 1;
        }
        assert(texts(extensions@) =~= slice_texts(given@));
        self.register_as(name, extensions, Box::new(format));
    }

    /// Finds the format of a file extension, letter case aside: the last
    /// one that was registered with it.
    pub fn for_extension(&self, ext: &str) -> (r: Option<&RegisteredFormat>)
        ensures
            ({
                let k = format_for(self.formats@, lowercase_of(ext@), self.formats@.len() as int);
                match r {
                    Some(format) => k >= 0 && *format == self.formats@[k],
                    None => k == -1,
                }
            }),
    {
        let lower = to_lower(ext);
        let mut i: usize = self.formats.len();
        while i > 0
            invariant
                i <= self.formats@.len(),
                lower@ == lowercase_of(ext@),
                format_for(self.formats@, lower@, self.formats@.len() as int) == format_for(
                    self.formats@,
                    lower@,
                    i as int,
                ),
            decreases i,
        {
            if self.formats[i - 1].has_extension(lower.as_str()) {
                return Some(&self.formats[i - 1]);
            }
            i -= 1;
        }
        None
    }

    /// Finds the format of a file by the extension of its path. A path
    /// without an extension has none.
    pub fn for_path(&self, path: &str) -> (r: Option<&RegisteredFormat>)
        ensures
            ({
                let ext = extension_of(path@);
                let k = format_for(self.formats@, lowercase_of(ext), self.formats@.len() as int);
                match r {
                    Some(format) => crate::paths::has_extension(path@) && k >= 0 && *format
                        == self.formats@[k],
                    None => !crate::paths::has_extension(path@) || k == -1,
                }
            }),
    {
        let p = chars_of(path);
        if !crate::paths::path_has_extension(&p) {
            return None;
        }
        let ext = extension(&p);
        let ext = string_of(&ext);
        self.for_extension(ext.as_str())
    }

    /// Whether the file at `path` is a document: a format is registered for
    /// its extension.
    pub fn is_document(&self, path: &str) -> (r: bool)
        ensures
            r == (crate::paths::has_extension(path@) && format_for(
                self.formats@,
                lowercase_of(extension_of(path@)),
                self.formats@.len() as int,
            ) >= 0),
    {
        self.for_path(path).is_some()
    }

    /// The extensions of all formats, in the order of the formats.
    pub fn all_extensions(&self) -> (r: Vec<String>)
        ensures
            texts(r@) == extensions_upto(self.formats@, self.formats@.len() as int),
    {
        let mut out: Vec<String> = Vec::new();
        let mut i: usize = 0;
        assert(texts(out@) =~= Seq::<Seq<char>>::empty());
        while i < self.formats.len()
            invariant
                i <= self.formats@.len(),
                texts(out@) == extensions_upto(self.formats@, i as int),
            decreases self.formats@.len() - i,
        {
            let exts = &self.formats[i].extensions;
            let ghost before = texts(out@);
            let mut j: usize = 0;
            assert(texts(exts@).take(0) =~= Seq::<Seq<char>>::empty());
            assert(before + texts(exts@).take(0) =~= before);
            while j < exts.len()
                invariant
                    j <= exts@.len(),
                    texts(out@) == before + texts(exts@).take(j as int),
                decreases exts@.len() - j,
            {
                let ghost so_far = texts(out@);
                out.push(exts[j].clone());
                assert(texts(out@) =~= so_far.push(exts@[j as int]@));
                assert(texts(exts@).take(j + 1) =~= texts(exts@).take(j as int).push(
                    exts@[j as int]@,
                ));
                assert(before + texts(exts@).take(j + 1) =~= (before + texts(exts@).take(
                    j as int,
                )).push(exts@[j as int]@));
                j += 1;
            }
            assert(texts(exts@).take(exts@.len() as int) =~= texts(exts@));
            i += 1;
        }
        out
    }
}

impl Default for FormatRegistry {
    /// A registry with the markdown format.
    fn default() -> (r: Self)
        ensures
            r.formats@.len() == 1,
            r.formats@[0].name@ == "markdown"@,
            texts(r.formats@[0].extensions@) == seq!["md"@, "markdown"@],
    {
        FormatRegistry::with_defaults()
    }
}

} // verus!
