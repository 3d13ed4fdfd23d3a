//! From the reports of the file watcher to changes.
//!
//! The watcher itself runs outside the library. What it reports is handed
//! over as plain values; the library says which change, if any, each report
//! stands for.

use vstd::prelude::*;
use crate::cache::{change_views, ChangeKind, ChangeView};
use crate::nav::somes;
use crate::paths::{extension, extension_of, join, join_path, parent_dir};
use crate::text::{
    chars_of, has_prefix, owned, same_chars, split_chars, split_on, starts_with, string_of, views,
};

verus! {

/// A directory of content, with the name of the source that it belongs to.
pub struct SourceDir {
    pub source_name: String,
    pub dir: String,
}

/// The paths that are watched.
pub struct WatchPaths {
    /// The directories of the sources.
    pub source_dirs: Vec<SourceDir>,
    /// The directory of the theme.
    pub theme_dir: String,
    /// The configuration file of the site.
    pub config_path: String,
}

/// What the watcher sends.
pub enum WatchEvent {
    /// Files changed, and the site has to be rebuilt.
    FilesChanged(Vec<ChangeKind>),
    /// The watcher met an error.
    Error(String),
}

/// The name of the configuration file of a theme.
pub open spec fn theme_config_name() -> Seq<char> {
    "undox-theme.yaml"@
}

/// Whether `path` is `dir` or lies below it: `dir` is a prefix of `path`
/// that ends where a segment of `path` ends. Every path lies below the
/// empty directory.
pub open spec fn lies_under(path: Seq<char>, dir: Seq<char>) -> bool {
    dir.len() == 0 || (starts_with(path, dir) && (path.len() == dir.len() || dir.last() == '/'
        || path[dir.len() as int] == '/'))
}

/// Whether a segment of the path begins with a dot.
pub open spec fn has_hidden_segment(path: Seq<char>) -> bool {
    exists|i: int|
        0 <= i < split_on(path, '/', '/').len() && (#[trigger] split_on(path, '/', '/')[i]).len()
            > 0 && split_on(path, '/', '/')[i][0] == '.'
}

/// The mathematical form of a [`SourceDir`].
pub struct SourceDirView {
    pub source_name: Seq<char>,
    pub dir: Seq<char>,
}

/// The mathematical form of a list of source directories.
pub open spec fn source_dir_views(v: Seq<SourceDir>) -> Seq<SourceDirView> {
    Seq::new(v.len(), |i: int| SourceDirView { source_name: v[i].source_name@, dir: v[i].dir@ })
}

/// The first source directory, at or after `from`, that the path lies
/// under; the number of directories where there is none.
pub open spec fn owning_source(dirs: Seq<SourceDirView>, path: Seq<char>, from: int) -> int
    decreases dirs.len() - from,
{
    if from < 0 || from >= dirs.len() {
        dirs.len() as int
    } else if lies_under(path, dirs[from].dir) {
        from
    } else {
        owning_source(dirs, path, from + 1)
    }
}

/// Says which change a changed path stands for.
pub struct PathClassifier {
    /// The directories of the sources, in the order in which a path is tried
    /// against them.
    pub source_dirs: Vec<SourceDir>,
    /// The directory of the theme.
    pub theme_dir: String,
    /// The configuration file of the site.
    pub config_path: String,
    /// The configuration file of the theme.
    pub theme_config_path: String,
}

/// The mathematical form of a [`PathClassifier`].
pub struct ClassifierView {
    pub source_dirs: Seq<SourceDirView>,
    pub theme_dir: Seq<char>,
    pub config_path: Seq<char>,
    pub theme_config_path: Seq<char>,
}

impl View for PathClassifier {
    type V = ClassifierView;

    open spec fn view(&self) -> ClassifierView {
        ClassifierView {
            source_dirs: source_dir_views(self.source_dirs@),
            theme_dir: self.theme_dir@,
            config_path: self.config_path@,
            theme_config_path: self.theme_config_path@,
        }
    }
}

/// The change that a changed path stands for, if any.
///
/// A path with a segment that begins with a dot stands for none. The
/// configuration file of the site and that of the theme stand for a change
/// of configuration. Below the directory of the theme only a file with the
/// extension `html` counts: it is a template. Below the directory of a
/// source, a file with the extension `md` or `markdown` is a document, and
/// any other a static file. A path anywhere else stands for no change.
pub open spec fn classified(c: ClassifierView, path: Seq<char>, deleted: bool) -> Option<
    ChangeView,
> {
    if has_hidden_segment(path) {
        None
    } else if path == c.config_path {
        Some(ChangeView::Config)
    } else if path == c.theme_config_path {
        Some(ChangeView::ThemeConfig)
    } else if lies_under(path, c.theme_dir) {
        if extension_of(path) == "html"@ {
            Some(ChangeView::Template { path })
        } else {
            None
        }
    } else {
        let k = owning_source(c.source_dirs, path, 0);
        if k < c.source_dirs.len() {
            if extension_of(path) == "md"@ || extension_of(path) == "markdown"@ {
                Some(
                    ChangeView::Document {
                        source_name: c.source_dirs[k].source_name,
                        path,
                        deleted,
                    },
                )
            } else {
                Some(
                    ChangeView::StaticFile {
                        source_name: c.source_dirs[k].source_name,
                        path,
                        deleted,
                    },
                )
            }
        } else {
            None
        }
    }
}

/// A path that stands for a change of a document or a static file lies
/// under the directory of the source that the change names, and has no
/// segment that begins with a dot.
pub proof fn lemma_classified_in_source(c: ClassifierView, path: Seq<char>, deleted: bool)
    ensures
        match classified(c, path, deleted) {
            Some(ChangeView::Document { source_name, path: p, deleted: d }) => p == path && d
                == deleted && !has_hidden_segment(path) && exists|k: int|
                0 <= k < c.source_dirs.len() && (#[trigger] c.source_dirs[k]).source_name
                    == source_name && lies_under(path, c.source_dirs[k].dir),
            Some(ChangeView::StaticFile { source_name, path: p, deleted: d }) => p == path && d
                == deleted && !has_hidden_segment(path) && exists|k: int|
                0 <= k < c.source_dirs.len() && (#[trigger] c.source_dirs[k]).source_name
                    == source_name && lies_under(path, c.source_dirs[k].dir),
            Some(ChangeView::Template { path: p }) => p == path && lies_under(path, c.theme_dir),
            _ => true,
        },
{
    lemma_owning_source(c.source_dirs, path, 0);
}

/// What [`owning_source`] finds is a directory that the path lies under,
/// and the path lies under none before it.
pub proof fn lemma_owning_source(dirs: Seq<SourceDirView>, path: Seq<char>, from: int)
    requires
        0 <= from <= dirs.len(),
    ensures
        from <= owning_source(dirs, path, from) <= dirs.len(),
        owning_source(dirs, path, from) < dirs.len() ==> lies_under(
            path,
            dirs[owning_source(dirs, path, from)].dir,
        ),
        forall|k: int|
            from <= k < owning_source(dirs, path, from) ==> !lies_under(
                path,
                (#[trigger] dirs[k]).dir,
            ),
    decreases dirs.len() - from,
{
    if from < dirs.len() && !lies_under(path, dirs[from].dir) {
        lemma_owning_source(dirs, path, from + 1);
    }
}

/// Executable form of [`lies_under`].
pub fn path_lies_under(path: &Vec<char>, dir: &Vec<char>) -> (r: bool)
    ensures
        r == lies_under(path@, dir@),
{
    if dir.len() == 0 {
        return true;
    }
    if !has_prefix(path, dir) {
        return false;
    }
    path.len() == dir.len() || dir[dir.len() - 1] == '/' || path[dir.len()] == '/'
}

/// Executable form of [`has_hidden_segment`].
pub fn path_is_hidden(path: &Vec<char>) -> (r: bool)
    ensures
        r == has_hidden_segment(path@),
{
    let parts = split_chars(path, '/', '/');
    let mut i: usize = 0;
    while i < parts.len()
        invariant
            i <= parts@.len(),
            views(parts@) == split_on(path@, '/', '/'),
            forall|j: int|
                0 <= j < i ==> !((#[trigger] split_on(path@, '/', '/')[j]).len() > 0 && split_on(
                    path@,
                    '/',
                    '/',
                )[j][0] == '.'),
        decreases parts@.len() - i,
    {
        assert(views(parts@)[i as int] == parts@[i as int]@);
        if parts[i].len() > 0 && parts[i][0] == '.' {
            return true;
        }
        i += 1;
    }
    false
}

impl PathClassifier {
    /// A classifier for the given directories and configuration file. The
    /// configuration of the theme is the file `undox-theme.yaml` in the
    /// directory of the theme.
    pub fn new(source_dirs: Vec<SourceDir>, theme_dir: String, config_path: String) -> (r: Self)
        ensures
            r.source_dirs == source_dirs,
            r.theme_dir == theme_dir,
            r.config_path == config_path,
            r.theme_config_path@ == join(theme_dir@, theme_config_name()),
    {
        let dir = chars_of(theme_dir.as_str());
        let name = chars_of("undox-theme.yaml");
        let theme_config_path = string_of(&join_path(&dir, &name));
        PathClassifier { source_dirs, theme_dir, config_path, theme_config_path }
    }

    /// Says which change a changed path stands for; see [`classified`].
    /// `deleted` tells whether the file is gone.
    pub fn classify(&self, path: &str, deleted: bool) -> (r: Option<ChangeKind>)
        ensures
            match r {
                Some(change) => classified(self@, path@, deleted) == Some(change@),
                None => classified(self@, path@, deleted) is None,
            },
    {
        let p = chars_of(path);
        if path_is_hidden(&p) {
            return None;
        }
        let config = chars_of(self.config_path.as_str());
        if same_chars(&p, &config) {
            return Some(ChangeKind::Config);
        }
        let theme_config = chars_of(self.theme_config_path.as_str());
        if same_chars(&p, &theme_config) {
            return Some(ChangeKind::ThemeConfig);
        }
        let ext = extension(&p);
        let theme_dir = chars_of(self.theme_dir.as_str());
        if path_lies_under(&p, &theme_dir) {
            let html = chars_of("html");
            if same_chars(&ext, &html) {
                return Some(ChangeKind::Template { path: owned(path) });
            }
            return None;
        }
        let ghost dirs = source_dir_views(self.source_dirs@);
        let mut i: usize = 0;
        while i < self.source_dirs.len()
            invariant
                i <= self.source_dirs@.len(),
                dirs == source_dir_views(self.source_dirs@),
                p@ == path@,
                ext@ == extension_of(path@),
                !has_hidden_segment(path@),
                path@ != self.config_path@,
                path@ != self.theme_config_path@,
                !lies_under(path@, self.theme_dir@),
                owning_source(dirs, path@, 0) == owning_source(dirs, path@, i as int),
            decreases self.source_dirs@.len() - i,
        {
            let dir = chars_of(self.source_dirs[i].dir.as_str());
            assert(dirs[i as int].dir == dir@);
            if path_lies_under(&p, &dir) {
                let md = chars_of("md");
                let markdown = chars_of("markdown");
                let source_name = self.source_dirs[i].source_name.clone();
                assert(dirs[i as int].source_name == source_name@);
                if same_chars(&ext, &md) || same_chars(&ext, &markdown) {
                    return Some(ChangeKind::Document { source_name, path: owned(path), deleted });
                }
                return Some(ChangeKind::StaticFile { source_name, path: owned(path), deleted });
            }
            i += 1;
        }
        None
    }
}

// ---------------------------------------------------------------------------
// Reports of the watcher
// ---------------------------------------------------------------------------

/// What the watcher says happened to a file.
#[derive(Clone, Copy, PartialEq, Eq, Structural)]
pub enum FsEventKind {
    /// The file was created.
    Create,
    /// The file was removed.
    Remove,
    /// The content of the file was modified.
    ModifyData,
    /// The file was renamed.
    ModifyName,
    /// Anything else: the file was read, its metadata changed.
    Other,
}

/// A report of the watcher.
pub struct FsEvent {
    pub kind: FsEventKind,
    /// The paths that the report is about; the first one counts.
    pub paths: Vec<String>,
}

/// Whether a report can make the site stale: a file was created, removed,
/// renamed, or its content modified.
pub open spec fn relevant(kind: FsEventKind) -> bool {
    kind != FsEventKind::Other
}

/// Executable form of [`relevant`].
pub fn is_relevant_event(kind: FsEventKind) -> (r: bool)
    ensures
        r == relevant(kind),
{
    match kind {
        FsEventKind::Other => false,
        _ => true,
    }
}

/// The change that a report stands for, if any: that of its first path,
/// where the report is relevant. A report of a removal says that the file
/// is gone.
pub open spec fn event_change(c: ClassifierView, event: FsEvent) -> Option<ChangeView> {
    if relevant(event.kind) && event.paths@.len() > 0 {
        classified(c, event.paths@[0]@, event.kind == FsEventKind::Remove)
    } else {
        None
    }
}

/// What becomes of each report of a batch.
pub open spec fn event_changes(c: ClassifierView, events: Seq<FsEvent>) -> Seq<Option<ChangeView>> {
    Seq::new(events.len(), |i: int| event_change(c, events[i]))
}

/// Turns a batch of reports into the changes that they stand for, in their
/// order. Reports that stand for no change are left out.
pub fn changes_from_events(classifier: &PathClassifier, events: &Vec<FsEvent>) -> (r: Vec<
    ChangeKind,
>)
    ensures
        change_views(r@) == somes(event_changes(classifier@, events@)),
{
    let ghost opts = event_changes(classifier@, events@);
    let mut out: Vec<ChangeKind> = Vec::new();
    let mut i: usize = 0;
    assert(opts.take(0) =~= Seq::<Option<ChangeView>>::empty());
    assert(change_views(out@) =~= somes(opts.take(0)));
    while i < events.len()
        invariant
            i <= events@.len(),
            opts == event_changes(classifier@, events@),
            change_views(out@) == somes(opts.take(i as int)),
        decreases events@.len() - i,
    {
        let event = &events[i];
        proof {
            assert(opts.take(i + 1).drop_last() =~= opts.take(i as int));
            assert(opts.take(i + 1).last() == event_change(classifier@, *event));
        }
        if is_relevant_event(event.kind) && event.paths.len() > 0 {
            let deleted = event.kind == FsEventKind::Remove;
            match classifier.classify(event.paths[0].as_str(), deleted) {
                Some(change) => {
                    let ghost before = change_views(out@);
                    out.push(change);
                    assert(change_views(out@) =~= before.push(change@));
                },
                None => {},
            }
        }
        i += 1;
    }
    assert(opts.take(events@.len() as int) =~= opts);
    out
}

/// A directory to watch.
pub struct WatchTarget {
    pub path: String,
    /// Whether what lies below the directory is watched too.
    pub recursive: bool,
}

/// The directories to watch: those of the sources and that of the theme
/// with all that lies below them, and the directory of the configuration
/// file by itself. The caller leaves out those that do not exist.
pub fn watch_targets(paths: &WatchPaths) -> (r: Vec<WatchTarget>)
    ensures
        r@.len() == paths.source_dirs@.len() + 2,
        forall|i: int|
            0 <= i < paths.source_dirs@.len() ==> (#[trigger] r@[i]).path@
                == paths.source_dirs@[i].dir@ && r@[i].recursive,
        r@[paths.source_dirs@.len() as int].path@ == paths.theme_dir@,
        r@[paths.source_dirs@.len() as int].recursive,
        r@[paths.source_dirs@.len() as int + 1].path@ == parent_dir(paths.config_path@),
        !r@[paths.source_dirs@.len() as int + 1].recursive,
{
    let mut out: Vec<WatchTarget> = Vec::new();
    let mut i: usize = 0;
    while i < paths.source_dirs.len()
        invariant
            i <= paths.source_dirs@.len(),
            out@.len() == i,
            forall|j: int|
                0 <= j < i ==> (#[trigger] out@[j]).path@ == paths.source_dirs@[j].dir@
                    && out@[j].recursive,
        decreases paths.source_dirs@.len() - i,
    {
        out.push(WatchTarget { path: paths.source_dirs[i].dir.clone(), recursive: true });
        i += 1;
    }
    out.push(WatchTarget { path: paths.theme_dir.clone(), recursive: true });
    out.push(
        WatchTarget {
            path: crate::paths::base_path_from_config(paths.config_path.as_str()),
            recursive: false,
        },
    );
    out
}

} // verus!
