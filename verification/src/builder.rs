//! What a build is made of.
//!
//! The build itself reads and writes files and runs outside the library.
//! The library says where things lie and what is to be done with what was
//! found.

use vstd::prelude::*;
use crate::config::{GitLocation, Location, LocationView, RootConfig};
use crate::document::{ContentItem, Document, StaticFile};
use crate::git::GitError;
use crate::paths::{join, join_paths, output_path, url_to_output_path};
use crate::pipeline::{PipelineError, RenderError};
use crate::render::{clone_opt, SiteContext, SourceTab, TabView};
use crate::source::{ResolvedSource, SourceError};
use crate::text::{append_str, chars_of, owned, same_text, string_of};
use crate::util::{title_case, title_cased};

verus! {

/// Why a build failed.
pub enum BuildError {
    Source(SourceError),
    Render(RenderError),
    Io(String),
    Pipeline(PipelineError),
    Git(GitError),
    Theme(String),
}

impl BuildError {
    /// The error in words.
    pub open spec fn text(&self) -> Seq<char> {
        match self {
            BuildError::Source(e) => "source error: "@ + e.text(),
            BuildError::Render(e) => "render error: "@ + e.text(),
            BuildError::Io(m) => "IO error: "@ + m@,
            BuildError::Pipeline(e) => "pipeline error: "@ + e.text(),
            BuildError::Git(e) => "git fetch error: "@ + e.text(),
            BuildError::Theme(m) => "theme error: "@ + m@,
        }
    }

    /// The error in words.
    pub fn message(&self) -> (r: String)
        ensures
            r@ == self.text(),
    {
        let mut out: Vec<char> = Vec::new();
        match self {
            BuildError::Source(e) => {
                append_str(&mut out, "source error: ");
                let inner = e.message();
                append_str(&mut out, inner.as_str());
            },
            BuildError::Render(e) => {
                append_str(&mut out, "render error: ");
                let inner = e.message();
                append_str(&mut out, inner.as_str());
            },
            BuildError::Io(m) => {
                append_str(&mut out, "IO error: ");
                append_str(&mut out, m.as_str());
            },
            BuildError::Pipeline(e) => {
                append_str(&mut out, "pipeline error: ");
                let inner = e.message();
                append_str(&mut out, inner.as_str());
            },
            BuildError::Git(e) => {
                append_str(&mut out, "git fetch error: ");
                let inner = e.message();
                append_str(&mut out, inner.as_str());
            },
            BuildError::Theme(m) => {
                append_str(&mut out, "theme error: ");
                append_str(&mut out, m.as_str());
            },
        }
        assert(out@ =~= self.text());
        string_of(&out)
    }
}

/// What a build made.
pub struct BuildResult {
    /// The directory that the site was written to.
    pub output_dir: String,
    /// The directory of the theme.
    pub theme_path: String,
    /// The number of documents.
    pub documents: usize,
    /// The number of static files.
    pub static_files: usize,
}

/// Builds a site.
pub struct Builder {
    pub config: RootConfig,
    /// The directory against which relative paths are resolved.
    pub base_path: String,
    /// The directory against which the path of the theme is resolved,
    /// where it is another.
    pub theme_base_path: Option<String>,
    /// Whether the site is built for the development server.
    pub dev_mode: bool,
    /// Whether pages reload themselves when the site is rebuilt.
    pub live_reload: bool,
}

/// Where the theme of a site is to be found.
pub enum ThemeCandidate {
    /// In this directory, which has to exist.
    Directory(String),
    /// In this repository, which has to be fetched.
    Repository(GitLocation),
}

/// The source tab of a source: it shows the title of the source, or its
/// name in title case; its URL is the prefix of the source with a slash, or
/// the root for a source at the top level.
pub open spec fn tab_of(source: ResolvedSource) -> TabView {
    let prefix = source.config@.prefix();
    TabView {
        name: match source.config@.title {
            Some(t) => t,
            None => title_cased(source.config@.name),
        },
        source_id: source.config@.name,
        url: if prefix == seq!['/'] {
            prefix
        } else {
            prefix.push('/')
        },
        is_current: false,
        is_top_level: prefix == seq!['/'],
    }
}

/// The tabs of the sources, in their order; see [`tab_of`].
pub fn source_tabs(sources: &Vec<ResolvedSource>) -> (r: Vec<SourceTab>)
    ensures
        r@.len() == sources@.len(),
        forall|i: int| 0 <= i < sources@.len() ==> (#[trigger] r@[i])@ == tab_of(sources@[i]),
{
    let mut out: Vec<SourceTab> = Vec::new();
    let mut i: usize = 0;
    while i < sources.len()
        invariant
            i <= sources@.len(),
            out@.len() == i,
            forall|j: int| 0 <= j < i ==> (#[trigger] out@[j])@ == tab_of(sources@[j]),
        decreases sources@.len() - i,
    {
        let source = &sources[i];
        let prefix = source.url_prefix();
        let is_top_level = same_text(prefix.as_str(), "/");
        proof {
            reveal_strlit("/");
            assert("/"@ =~= seq!['/']);
        }
        let name = match &source.config.title {
            Some(t) => t.clone(),
            None => title_case(source.config.name.as_str()),
        };
        let url = if is_top_level {
            owned("/")
        } else {
            let mut u = chars_of(prefix.as_str());
            u.push('/');
            string_of(&u)
        };
        out.push(
            SourceTab {
                name,
                source_id: source.config.name.clone(),
                url,
                is_current: false,
                is_top_level,
            },
        );
        i += 1;
    }
    out
}

/// How many of the first `n` items are documents.
pub open spec fn documents_among(items: Seq<ContentItem>, n: int) -> nat
    decreases n,
{
    if n <= 0 {
        0
    } else if items[n - 1] is Document {
        documents_among(items, n - 1) + 1
    } else {
        documents_among(items, n - 1)
    }
}

/// Counts the documents among what was found.
pub fn count_documents(items: &Vec<ContentItem>) -> (n: usize)
    ensures
        n == documents_among(items@, items@.len() as int),
        n <= items@.len(),
{
    let mut n: usize = 0;
    let mut i: usize = 0;
    while i < items.len()
        invariant
            i <= items@.len(),
            n == documents_among(items@, i as int),
            n <= i,
        decreases items@.len() - i,
    {
        match &items[i] {
            ContentItem::Document(_) => {
                n += 1;
            },
            ContentItem::Static(_) => {},
        }
        i += 1;
    }
    n
}

/// A static file to copy.
pub struct CopyPlan {
    /// The file that is copied.
    pub from: String,
    /// The path of the copy.
    pub to: String,
}

/// Says where a static file of the source in the directory `source_root`
/// is copied from and to.
pub fn copy_plan(file: &StaticFile, source_root: &str, output_dir: &str) -> (r: CopyPlan)
    ensures
        r.from@ == join(source_root@, file.source_path@),
        r.to@ == output_path(file.output_path@, output_dir@),
{
    CopyPlan {
        from: join_paths(source_root, file.source_path.as_str()),
        to: url_to_output_path(file.output_path.as_str(), output_dir),
    }
}

impl Builder {
    /// A builder for a configuration whose relative paths are meant from
    /// `base_path`.
    pub fn new(config: RootConfig, base_path: String) -> (r: Self)
        ensures
            r.config == config,
            r.base_path == base_path,
            r.theme_base_path is None,
            !r.dev_mode,
            !r.live_reload,
    {
        Builder { config, base_path, theme_base_path: None, dev_mode: false, live_reload: false }
    }

    /// Resolves the path of the theme against `path`, not the base path.
    pub fn with_theme_base_path(self, path: String) -> (r: Self)
        ensures
            r == (Builder { theme_base_path: Some(path), ..self }),
    {
        let mut b = self;
        b.theme_base_path = Some(path);
        b
    }

    /// Switches development mode on or off.
    pub fn with_dev_mode(self, dev_mode: bool) -> (r: Self)
        ensures
            r == (Builder { dev_mode, ..self }),
    {
        let mut b = self;
        b.dev_mode = dev_mode;
        b
    }

    /// Switches live reload on or off.
    pub fn with_live_reload(self, live_reload: bool) -> (r: Self)
        ensures
            r == (Builder { live_reload, ..self }),
    {
        let mut b = self;
        b.live_reload = live_reload;
        b
    }

    /// The directory that the site is written to: the output directory of
    /// the configuration, resolved against the base path.
    pub fn output_dir(&self) -> (r: String)
        ensures
            r@ == join(self.base_path@, self.config.site.output@),
    {
        join_paths(self.base_path.as_str(), self.config.site.output.as_str())
    }

    /// The directory in which clones of repositories are kept.
    pub fn cache_dir(&self) -> (r: String)
        ensures
            r@ == join(self.base_path@, ".undox/cache/git"@),
    {
        join_paths(self.base_path.as_str(), ".undox/cache/git")
    }

    /// The directory in which everything that is fetched or made along the
    /// way is kept; cleaning removes it.
    pub fn cache_root(&self) -> (r: String)
        ensures
            r@ == join(self.base_path@, ".undox/cache"@),
    {
        join_paths(self.base_path.as_str(), ".undox/cache")
    }

    /// Says where the theme is to be found: a path, resolved against the
    /// base path of the theme or else that of the site, or a repository.
    pub fn theme_candidate(&self) -> (r: ThemeCandidate)
        ensures
            match self.config.theme.location@ {
                LocationView::Path { path } => r matches ThemeCandidate::Directory(dir) && dir@
                    == join(
                    match self.theme_base_path {
                        Some(base) => base@,
                        None => self.base_path@,
                    },
                    path,
                ),
                LocationView::Git { git } => r matches ThemeCandidate::Repository(location)
                    && location@ == git.location(),
            },
    {
        match &self.config.theme.location {
            Location::Path { path } => {
                let base = match &self.theme_base_path {
                    Some(base) => base.as_str(),
                    None => self.base_path.as_str(),
                };
                ThemeCandidate::Directory(join_paths(base, path.as_str()))
            },
            Location::Git { git } => ThemeCandidate::Repository(git.to_location()),
        }
    }

    /// The error for a theme whose directory does not exist; `fetched`
    /// tells whether the theme comes from a repository.
    pub fn theme_missing(path: &str, fetched: bool) -> (r: BuildError)
        ensures
            r matches BuildError::Theme(m) && m@ == (if fetched {
                "theme path does not exist after git fetch: "@
            } else {
                "theme path does not exist: "@
            }) + path@,
    {
        let mut m: Vec<char> = Vec::new();
        if fetched {
            append_str(&mut m, "theme path does not exist after git fetch: ");
        } else {
            append_str(&mut m, "theme path does not exist: ");
        }
        append_str(&mut m, path);
        BuildError::Theme(string_of(&m))
    }

    /// What the site says of itself to templates.
    pub fn site_context(&self) -> (r: SiteContext)
        ensures
            r.name@ == self.config.site.name@,
            crate::config::opt_view(r.url) == crate::config::opt_view(self.config.site.url),
            crate::config::opt_view(r.favicon) == crate::config::opt_view(
                self.config.site.favicon,
            ),
    {
        SiteContext {
            name: self.config.site.name.clone(),
            url: clone_opt(&self.config.site.url),
            favicon: clone_opt(&self.config.site.favicon),
        }
    }

    /// What the build made, where `items` is what was found.
    pub fn result(&self, theme_path: String, items: &Vec<ContentItem>) -> (r: BuildResult)
        ensures
            r.output_dir@ == join(self.base_path@, self.config.site.output@),
            r.theme_path == theme_path,
            r.documents == documents_among(items@, items@.len() as int),
            r.documents + r.static_files == items@.len(),
    {
        let documents = count_documents(items);
        BuildResult {
            output_dir: self.output_dir(),
            theme_path,
            documents,
            static_files: items.len() - documents,
        }
    }
}

/// The directory of the static files of a theme.
pub fn theme_static_dir(theme_path: &str) -> (r: String)
    ensures
        r@ == join(theme_path@, "static"@),
{
    join_paths(theme_path, "static")
}

/// The directory of the output to which the static files of the theme are
/// copied.
pub fn theme_output_dir(output_dir: &str) -> (r: String)
    ensures
        r@ == join(output_dir@, "_theme"@),
{
    join_paths(output_dir, "_theme")
}

/// The directory of the output in which the search index is written.
pub fn search_output_dir(output_dir: &str) -> (r: String)
    ensures
        r@ == join(output_dir@, "_pagefind"@),
{
    join_paths(output_dir, "_pagefind")
}

} // verus!
