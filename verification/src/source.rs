//! Sources: from a source of the configuration to a directory of content,
//! and from the files of that directory to documents and static files.
//!
//! The library does not look at the file system. Resolving a source goes in
//! steps: each step says what the caller has to find out, and the next step
//! takes the answer.

use vstd::prelude::*;
use crate::config::{
    opt_nav, GitLocation, Location, LocationView, NavItem, SourceConfig, SourceConfigView,
    SourceLocation, SourceLocationView,
};
use crate::document::StaticFile;
use crate::format::{format_for, FormatRegistry};
use crate::git::{GitError, GitFetcher};
use crate::paths::{
    extension_of, has_extension, join, join_paths, source_path_to_url, source_url,
    static_path_to_url, static_url,
};
use crate::text::{append_str, chars_of, lowercase_of, owned, same_text, string_of};

verus! {

/// Why a source could not be resolved or read.
pub enum SourceError {
    /// Nothing lies at the path of the source.
    PathNotFound(String),
    /// What lies at the path of the source is no directory.
    NotADirectory(String),
    /// The content of a local source lies in git.
    LocalMustBePath(String),
    /// A directory could not be read.
    ReadDir { path: String, reason: String },
    /// An entry of a directory could not be read.
    ReadEntry { path: String, reason: String },
    /// The repository of the source could not be fetched.
    Git(GitError),
}

impl SourceError {
    /// The error in words.
    pub open spec fn text(&self) -> Seq<char> {
        match self {
            SourceError::PathNotFound(p) => "source path does not exist: "@ + p@,
            SourceError::NotADirectory(p) => "source path is not a directory: "@ + p@,
            SourceError::LocalMustBePath(url) => "source location must be a path, not git: "@
                + url@,
            SourceError::ReadDir { path, reason } => "failed to read directory "@ + path@ + ": "@
                + reason@,
            SourceError::ReadEntry { path, reason } => "failed to read directory entry in "@
                + path@ + ": "@ + reason@,
            SourceError::Git(e) => "git fetch error: "@ + e.text(),
        }
    }

    /// The error in words.
    pub fn message(&self) -> (r: String)
        ensures
            r@ == self.text(),
    {
        let mut out: Vec<char> = Vec::new();
        match self {
            SourceError::PathNotFound(p) => {
                append_str(&mut out, "source path does not exist: ");
                append_str(&mut out, p.as_str());
            },
            SourceError::NotADirectory(p) => {
                append_str(&mut out, "source path is not a directory: ");
                append_str(&mut out, p.as_str());
            },
            SourceError::LocalMustBePath(url) => {
                append_str(&mut out, "source location must be a path, not git: ");
                append_str(&mut out, url.as_str());
            },
            SourceError::ReadDir { path, reason } => {
                append_str(&mut out, "failed to read directory ");
                append_str(&mut out, path.as_str());
                append_str(&mut out, ": ");
                append_str(&mut out, reason.as_str());
            },
            SourceError::ReadEntry { path, reason } => {
                append_str(&mut out, "failed to read directory entry in ");
                append_str(&mut out, path.as_str());
                append_str(&mut out, ": ");
                append_str(&mut out, reason.as_str());
            },
            SourceError::Git(e) => {
                append_str(&mut out, "git fetch error: ");
                let inner = e.message();
                append_str(&mut out, inner.as_str());
            },
        }
        assert(out@ =~= self.text());
        string_of(&out)
    }
}

/// A source with the directory in which its content lies.
pub struct ResolvedSource {
    /// The source as the configuration has it.
    pub config: SourceConfig,
    /// The directory of the content.
    pub local_path: String,
}

/// What lies at a path.
#[derive(Clone, Copy, PartialEq, Eq, Structural)]
pub enum PathKind {
    /// Nothing.
    Missing,
    /// Something that is no directory.
    File,
    /// A directory.
    Directory,
}

/// What the configuration file of a source with its own configuration says
/// to the site that refers to it.
pub struct LocalSubdocsConfig {
    /// Where the content lies, from the directory of the source.
    pub content: Option<Location>,
    /// The navigation of the source.
    pub nav: Option<Vec<NavItem>>,
}

/// A source whose repository is being fetched.
pub struct AwaitingCheckout {
    pub config: SourceConfig,
    /// The repository to fetch.
    pub location: GitLocation,
}

/// A source whose directory is being looked at.
pub struct AwaitingRoot {
    pub config: SourceConfig,
    /// The directory to look at.
    pub root: String,
    /// Whether the source has a configuration of its own.
    pub remote: bool,
}

/// A source whose own configuration is being read.
pub struct AwaitingConfig {
    pub config: SourceConfig,
    pub root: String,
    /// The configuration file to read.
    pub config_path: String,
}

/// A source whose declared content directory is being looked at.
pub struct AwaitingDeclared {
    pub config: SourceConfig,
    pub root: String,
    /// The directory to look at.
    pub declared: String,
}

/// A source whose conventional content directory is being looked at.
pub struct AwaitingConventional {
    pub config: SourceConfig,
    pub root: String,
    /// The directory to look at.
    pub conventional: String,
}

/// The first step of a resolution.
pub enum Started {
    /// The repository has to be fetched.
    Fetch(AwaitingCheckout),
    /// The directory of the source has to be looked at.
    Probe(AwaitingRoot),
    /// The source cannot be resolved.
    Failed(SourceError),
}

impl Started {
    /// Whether the step asks to look at the directory `root` of the source
    /// `config`, where `remote` tells whether the source has a configuration
    /// of its own.
    pub open spec fn probes(self, config: SourceConfigView, root: Seq<char>, remote: bool) -> bool {
        self matches Started::Probe(next) && next.config@ == config && next.root@ == root
            && next.remote == remote
    }
}

/// The step after the fetching of the repository.
pub enum AfterFetch {
    /// The directory of the source has to be looked at.
    Probe(AwaitingRoot),
    /// The source cannot be resolved.
    Failed(SourceError),
}

/// The step after the look at the directory of the source.
pub enum AfterRoot {
    /// The source is resolved.
    Done(ResolvedSource),
    /// The configuration file of the source has to be read.
    ReadConfig(AwaitingConfig),
    /// The source cannot be resolved.
    Failed(SourceError),
}

/// The step after the reading of the configuration of the source.
pub enum AfterConfig {
    /// The content directory that the source declares has to be looked at.
    ProbeDeclared(AwaitingDeclared),
    /// The conventional content directory has to be looked at.
    ProbeConventional(AwaitingConventional),
}

/// The step after the look at the declared content directory.
pub enum AfterDeclared {
    /// The source is resolved.
    Done(ResolvedSource),
    /// The conventional content directory has to be looked at.
    ProbeConventional(AwaitingConventional),
}

/// The name of the configuration file of a source.
pub open spec fn config_file_name() -> Seq<char> {
    "undox.yaml"@
}

/// The name of the conventional content directory.
pub open spec fn content_dir_name() -> Seq<char> {
    "content"@
}

/// The source with the navigation of its own configuration, which counts
/// only where the site gives the source none.
pub open spec fn with_own_nav(
    config: SourceConfigView,
    own: Option<Seq<crate::config::NavItemView>>,
) -> SourceConfigView {
    SourceConfigView {
        nav: if config.nav is None {
            own
        } else {
            config.nav
        },
        ..config
    }
}

/// The navigation that the configuration of a source gives, if the source
/// has a configuration and that has a navigation.
pub open spec fn own_nav(own: Option<LocalSubdocsConfig>) -> Option<
    Seq<crate::config::NavItemView>,
> {
    match own {
        Some(c) => opt_nav(c.nav),
        None => None,
    }
}

/// The path that the configuration of a source names for its content, if
/// the source has a configuration and that names a path.
pub open spec fn declared_content(own: Option<LocalSubdocsConfig>) -> Option<Seq<char>> {
    match own {
        Some(LocalSubdocsConfig { content: Some(Location::Path { path }), .. }) => Some(path@),
        _ => None,
    }
}

impl ResolvedSource {
    /// Begins to resolve a source, from the directory `base_path`.
    ///
    /// The content of a local source must be a path. A path is resolved
    /// against `base_path` and has to be looked at; a repository has to be
    /// fetched first.
    pub fn resolve(config: SourceConfig, base_path: &str) -> (r: Started)
        ensures
            match config@.location {
                SourceLocationView::Local { local } => match local {
                    LocationView::Git { git } => r matches Started::Failed(
                        SourceError::LocalMustBePath(url),
                    ) && url@ == git.written_url(),
                    LocationView::Path { path } => r.probes(
                        config@,
                        join(base_path@, path),
                        false,
                    ),
                },
                SourceLocationView::Remote { location } => match location {
                    LocationView::Git { git } => r matches Started::Fetch(next) && next.config@
                        == config@ && next.location@ == git.location(),
                    LocationView::Path { path } => r.probes(
                        config@,
                        join(base_path@, path),
                        true,
                    ),
                },
            },
    {
        let (root, remote) = match &config.location {
            SourceLocation::Local { local } => {
                match local.require_path() {
                    Ok(path) => (join_paths(base_path, path.as_str()), false),
                    Err(url) => {
                        return Started::Failed(SourceError::LocalMustBePath(url));
                    },
                }
            },
            SourceLocation::Remote { location } => {
                match location {
                    Location::Path { path } => (join_paths(base_path, path.as_str()), true),
                    Location::Git { git } => {
                        let location = git.to_location();
                        return Started::Fetch(AwaitingCheckout { config, location });
                    },
                }
            },
        };
        Started::Probe(AwaitingRoot { config, root, remote })
    }

    /// The URL prefix of the pages of the source: the configured one, or
    /// `/` and the name of the source.
    pub fn url_prefix(&self) -> (r: String)
        ensures
            r@ == self.config@.prefix(),
    {
        match &self.config.url_prefix {
            Some(p) => p.clone(),
            None => {
                let mut out: Vec<char> = Vec::new();
                out.push('/');
                assert(out@ =~= seq!['/']);
                append_str(&mut out, self.config.name.as_str());
                string_of(&out)
            },
        }
    }
}

impl AwaitingCheckout {
    /// Takes the outcome of the fetching: the directory of the checkout, or
    /// the reason why there is none. The source lies in the checkout, at
    /// the path of the location where it names one.
    pub fn fetched(self, outcome: Result<String, GitError>) -> (r: AfterFetch)
        ensures
            match outcome {
                Ok(repo) => r matches AfterFetch::Probe(next) && next.config == self.config
                    && next.remote && next.root@ == match self.location@.subpath {
                    Some(p) => join(repo@, p),
                    None => repo@,
                },
                Err(e) => r == AfterFetch::Failed(SourceError::Git(e)),
            },
    {
        match outcome {
            Ok(repo) => {
                let root = GitFetcher::content_dir(repo.as_str(), &self.location);
                AfterFetch::Probe(AwaitingRoot { config: self.config, root, remote: true })
            },
            Err(e) => AfterFetch::Failed(SourceError::Git(e)),
        }
    }
}

impl AwaitingRoot {
    /// Takes what lies at the path of the source. It has to be a directory.
    /// A local source is then resolved; of a source with a configuration of
    /// its own, the file `undox.yaml` in the directory has to be read.
    pub fn probed(self, kind: PathKind) -> (r: AfterRoot)
        ensures
            match kind {
                PathKind::Missing => r == AfterRoot::Failed(SourceError::PathNotFound(self.root)),
                PathKind::File => r == AfterRoot::Failed(SourceError::NotADirectory(self.root)),
                PathKind::Directory => if self.remote {
                    r matches AfterRoot::ReadConfig(next) && next.config == self.config
                        && next.root == self.root && next.config_path@ == join(
                        self.root@,
                        config_file_name(),
                    )
                } else {
                    r == AfterRoot::Done(
                        ResolvedSource { config: self.config, local_path: self.root },
                    )
                },
            },
    {
        match kind {
            PathKind::Missing => AfterRoot::Failed(SourceError::PathNotFound(self.root)),
            PathKind::File => AfterRoot::Failed(SourceError::NotADirectory(self.root)),
            PathKind::Directory => {
                if self.remote {
                    let config_path = join_paths(self.root.as_str(), "undox.yaml");
                    AfterRoot::ReadConfig(
                        AwaitingConfig { config: self.config, root: self.root, config_path },
                    )
                } else {
                    AfterRoot::Done(ResolvedSource { config: self.config, local_path: self.root })
                }
            },
        }
    }
}

impl AwaitingConfig {
    /// Takes what the configuration file of the source says; `None` where
    /// there is no file, or none that can be read.
    ///
    /// The navigation of the file counts where the site gives the source
    /// none. Where the file names a path for the content, that directory
    /// has to be looked at, else the conventional directory `content`.
    pub fn read(self, own: Option<LocalSubdocsConfig>) -> (r: AfterConfig)
        ensures
            ({
                let config = with_own_nav(self.config@, own_nav(own));
                match declared_content(own) {
                    Some(path) => r matches AfterConfig::ProbeDeclared(next) && next.config@
                        == config && next.root == self.root && next.declared@ == join(
                        self.root@,
                        path,
                    ),
                    None => r matches AfterConfig::ProbeConventional(next) && next.config@
                        == config && next.root == self.root && next.conventional@ == join(
                        self.root@,
                        content_dir_name(),
                    ),
                }
            }),
    {
        let mut config = self.config;
        let mut declared: Option<String> = None;
        match own {
            Some(c) => {
                if config.nav.is_none() {
                    match c.nav {
                        Some(nav) => {
                            config.nav = Some(nav);
                        },
                        None => {},
                    }
                }
                match c.content {
                    Some(Location::Path { path }) => {
                        declared = Some(join_paths(self.root.as_str(), path.as_str()));
                    },
                    _ => {},
                }
            },
            None => {},
        }
        match declared {
            Some(declared) => AfterConfig::ProbeDeclared(
                AwaitingDeclared { config, root: self.root, declared },
            ),
            None => {
                let conventional = join_paths(self.root.as_str(), "content");
                AfterConfig::ProbeConventional(
                    AwaitingConventional { config, root: self.root, conventional },
                )
            },
        }
    }
}

impl AwaitingDeclared {
    /// Takes what lies at the declared content directory. Where it is a
    /// directory, the content lies there; else the conventional directory
    /// `content` has to be looked at.
    pub fn probed(self, kind: PathKind) -> (r: AfterDeclared)
        ensures
            match kind {
                PathKind::Directory => r == AfterDeclared::Done(
                    ResolvedSource { config: self.config, local_path: self.declared },
                ),
                _ => r matches AfterDeclared::ProbeConventional(next) && next.config
                    == self.config && next.root == self.root && next.conventional@ == join(
                    self.root@,
                    content_dir_name(),
                ),
            },
    {
        match kind {
            PathKind::Directory => AfterDeclared::Done(
                ResolvedSource { config: self.config, local_path: self.declared },
            ),
            _ => {
                let conventional = join_paths(self.root.as_str(), "content");
                AfterDeclared::ProbeConventional(
                    AwaitingConventional { config: self.config, root: self.root, conventional },
                )
            },
        }
    }
}

impl AwaitingConventional {
    /// Takes what lies at the conventional content directory. Where it is a
    /// directory, the content lies there; else in the directory of the
    /// source itself.
    pub fn probed(self, kind: PathKind) -> (r: ResolvedSource)
        ensures
            r.config == self.config,
            r.local_path == if kind == PathKind::Directory {
                self.conventional
            } else {
                self.root
            },
    {
        match kind {
            PathKind::Directory => ResolvedSource {
                config: self.config,
                local_path: self.conventional,
            },
            _ => ResolvedSource { config: self.config, local_path: self.root },
        }
    }
}

// ---------------------------------------------------------------------------
// Discovery
// ---------------------------------------------------------------------------

/// Whether an entry of a directory is passed over: one whose name begins
/// with a dot, and a directory that by its name holds no content.
pub open spec fn skipped(name: Seq<char>, is_dir: bool) -> bool {
    (name.len() > 0 && name[0] == '.') || (is_dir && (name == "node_modules"@ || name
        == "__pycache__"@ || name == "target"@))
}

/// Says whether the walk through a source passes an entry over; see
/// [`skipped`].
pub fn skips_entry(name: &str, is_dir: bool) -> (r: bool)
    ensures
        r == skipped(name@, is_dir),
{
    let chars = chars_of(name);
    if chars.len() > 0 && chars[0] == '.' {
        return true;
    }
    is_dir && (same_text(name, "node_modules") || same_text(name, "__pycache__") || same_text(
        name,
        "target",
    ))
}

/// A file of a source, by what becomes of it.
pub enum FoundFile {
    /// A document, which is rendered to the page at `url_path`.
    Document { source_path: String, url_path: String },
    /// A static file, which is copied.
    Static(StaticFile),
}

impl ResolvedSource {
    /// Says what becomes of the file at `relative_path`, a path below the
    /// root of the source. A file is a document where a format is
    /// registered for its extension, and a static file otherwise.
    pub fn classify_file(&self, relative_path: &str, registry: &FormatRegistry) -> (r: FoundFile)
        ensures
            ({
                let is_document = has_extension(relative_path@) && format_for(
                    registry.formats@,
                    lowercase_of(extension_of(relative_path@)),
                    registry.formats@.len() as int,
                ) >= 0;
                if is_document {
                    r matches FoundFile::Document { source_path, url_path } && source_path@
                        == relative_path@ && url_path@ == source_url(
                        relative_path@,
                        self.config@.prefix(),
                    )
                } else {
                    r matches FoundFile::Static(file) && file.source_path@ == relative_path@
                        && file.output_path@ == static_url(relative_path@, self.config@.prefix())
                }
            }),
    {
        let prefix = self.url_prefix();
        if registry.is_document(relative_path) {
            FoundFile::Document {
                source_path: owned(relative_path),
                url_path: source_path_to_url(relative_path, prefix.as_str()),
            }
        } else {
            FoundFile::Static(
                StaticFile::new(
                    self.config.name.clone(),
                    owned(relative_path),
                    static_path_to_url(relative_path, prefix.as_str()),
                ),
            )
        }
    }

    /// Says what becomes of each of the files of the source, in their
    /// order; see [`Self::classify_file`].
    pub fn discover_content(&self, files: &Vec<String>, registry: &FormatRegistry) -> (r: Vec<
        FoundFile,
    >)
        ensures
            r@.len() == files@.len(),
            forall|i: int|
                0 <= i < files@.len() ==> found_as(
                    #[trigger] r@[i],
                    files@[i]@,
                    self.config@.prefix(),
                    registry,
                ),
    {
        let mut out: Vec<FoundFile> = Vec::new();
        let mut i: usize = 0;
        while i < files.len()
            invariant
                i <= files@.len(),
                out@.len() == i,
                forall|j: int|
                    0 <= j < i ==> found_as(
                        #[trigger] out@[j],
                        files@[j]@,
                        self.config@.prefix(),
                        registry,
                    ),
            decreases files@.len() - i,
        {
            let found = self.classify_file(files[i].as_str(), registry);
            out.push(found);
            i += 1;
        }
        out
    }
}

/// Whether `found` is what becomes of the file at `path` in a source with
/// the URL prefix `prefix`.
pub open spec fn found_as(
    found: FoundFile,
    path: Seq<char>,
    prefix: Seq<char>,
    registry: &FormatRegistry,
) -> bool {
    let is_document = has_extension(path) && format_for(
        registry.formats@,
        lowercase_of(extension_of(path)),
        registry.formats@.len() as int,
    ) >= 0;
    if is_document {
        found matches FoundFile::Document { source_path, url_path } && source_path@ == path
            && url_path@ == source_url(path, prefix)
    } else {
        found matches FoundFile::Static(file) && file.source_path@ == path && file.output_path@
            == static_url(path, prefix)
    }
}

} // verus!
