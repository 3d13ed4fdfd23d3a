//! What a build remembers, and how much of the site a batch of changed
//! files makes stale.

use vstd::prelude::*;
use crate::paths::{extension, extension_of};
use crate::render::NavSection;
use crate::text::{chars_of, same_chars, same_text, texts};

verus! {

// ---------------------------------------------------------------------------
// Changes and their scope
// ---------------------------------------------------------------------------

/// A change in the file system, by what it touches.
pub enum ChangeKind {
    /// A document was added, modified or deleted.
    Document { source_name: String, path: String, deleted: bool },
    /// A static file was added, modified or deleted.
    StaticFile { source_name: String, path: String, deleted: bool },
    /// A template of the theme changed.
    Template { path: String },
    /// The configuration of the site changed.
    Config,
    /// The configuration of the theme changed.
    ThemeConfig,
}

/// The mathematical form of a [`ChangeKind`].
pub enum ChangeView {
    Document { source_name: Seq<char>, path: Seq<char>, deleted: bool },
    StaticFile { source_name: Seq<char>, path: Seq<char>, deleted: bool },
    Template { path: Seq<char> },
    Config,
    ThemeConfig,
}

impl View for ChangeKind {
    type V = ChangeView;

    open spec fn view(&self) -> ChangeView {
        match self {
            ChangeKind::Document { source_name, path, deleted } => ChangeView::Document {
                source_name: source_name@,
                path: path@,
                deleted: *deleted,
            },
            ChangeKind::StaticFile { source_name, path, deleted } => ChangeView::StaticFile {
                source_name: source_name@,
                path: path@,
                deleted: *deleted,
            },
            ChangeKind::Template { path } => ChangeView::Template { path: path@ },
            ChangeKind::Config => ChangeView::Config,
            ChangeKind::ThemeConfig => ChangeView::ThemeConfig,
        }
    }
}

/// The mathematical form of a batch of changes.
pub open spec fn change_views(v: Seq<ChangeKind>) -> Seq<ChangeView> {
    Seq::new(v.len(), |i: int| v[i]@)
}

/// How much has to be rebuilt.
pub enum InvalidationScope {
    /// These files only.
    Files(Vec<String>),
    /// The navigation and the documents of one source.
    Source(String),
    /// Every document: a template changed.
    AllDocuments,
    /// Everything: the configuration changed.
    Full,
}

/// The mathematical form of an [`InvalidationScope`].
pub enum ScopeView {
    Files(Seq<Seq<char>>),
    Source(Seq<char>),
    AllDocuments,
    Full,
}

impl View for InvalidationScope {
    type V = ScopeView;

    open spec fn view(&self) -> ScopeView {
        match self {
            InvalidationScope::Files(paths) => ScopeView::Files(texts(paths@)),
            InvalidationScope::Source(name) => ScopeView::Source(name@),
            InvalidationScope::AllDocuments => ScopeView::AllDocuments,
            InvalidationScope::Full => ScopeView::Full,
        }
    }
}

/// Whether the batch holds a change of the site's or the theme's
/// configuration.
pub open spec fn has_config_change(changes: Seq<ChangeView>) -> bool {
    exists|i: int|
        0 <= i < changes.len() && (#[trigger] changes[i] is Config || changes[i] is ThemeConfig)
}

/// Whether the batch holds a change of a template.
pub open spec fn has_template_change(changes: Seq<ChangeView>) -> bool {
    exists|i: int| 0 <= i < changes.len() && #[trigger] changes[i] is Template
}

/// Whether a change alters the navigation: a document that was deleted, or
/// one that the cache does not know, which is new.
pub open spec fn alters_nav(change: ChangeView, known: Seq<Seq<char>>) -> bool {
    change matches ChangeView::Document { path, deleted, .. } && (deleted || !known.contains(path))
}

/// The first change, at or after `from`, that alters the navigation; the
/// length of the batch where there is none.
pub open spec fn first_nav_change(changes: Seq<ChangeView>, known: Seq<Seq<char>>, from: int) -> int
    decreases changes.len() - from,
{
    if from < 0 || from >= changes.len() {
        changes.len() as int
    } else if alters_nav(changes[from], known) {
        from
    } else {
        first_nav_change(changes, known, from + 1)
    }
}

/// The files that the first `n` changes ask to rebuild: the documents that
/// were modified and the static files, in the order of the batch.
pub open spec fn changed_files(changes: Seq<ChangeView>, known: Seq<Seq<char>>, n: int) -> Seq<
    Seq<char>,
>
    decreases n,
{
    if n <= 0 {
        Seq::empty()
    } else {
        let rest = changed_files(changes, known, n - 1);
        match changes[n - 1] {
            ChangeView::Document { path, .. } => if alters_nav(changes[n - 1], known) {
                rest
            } else {
                rest.push(path)
            },
            ChangeView::StaticFile { path, .. } => rest.push(path),
            _ => rest,
        }
    }
}

/// The least that has to be rebuilt for a batch of changes, where `known`
/// are the paths of the documents that the cache holds.
///
/// A change of configuration asks for everything, whatever else changed.
/// Failing that, a changed template asks for every document. Failing that,
/// the first change that alters the navigation asks for its source.
/// Otherwise the changed files are rebuilt, and nothing else.
pub open spec fn scope_of(changes: Seq<ChangeView>, known: Seq<Seq<char>>) -> ScopeView {
    if has_config_change(changes) {
        ScopeView::Full
    } else if has_template_change(changes) {
        ScopeView::AllDocuments
    } else if first_nav_change(changes, known, 0) < changes.len() {
        ScopeView::Source(changes[first_nav_change(changes, known, 0)]->Document_source_name)
    } else {
        ScopeView::Files(changed_files(changes, known, changes.len() as int))
    }
}

/// What [`first_nav_change`] finds alters the navigation, and nothing
/// between `from` and it does.
pub proof fn lemma_first_nav_change(changes: Seq<ChangeView>, known: Seq<Seq<char>>, from: int)
    requires
        0 <= from <= changes.len(),
    ensures
        from <= first_nav_change(changes, known, from) <= changes.len(),
        first_nav_change(changes, known, from) < changes.len() ==> alters_nav(
            changes[first_nav_change(changes, known, from)],
            known,
        ),
        forall|j: int|
            from <= j < first_nav_change(changes, known, from) ==> !alters_nav(
                #[trigger] changes[j],
                known,
            ),
    decreases changes.len() - from,
{
    if from < changes.len() && !alters_nav(changes[from], known) {
        lemma_first_nav_change(changes, known, from + 1);
    }
}

/// A change of configuration asks for everything, whatever else the batch
/// holds.
pub proof fn lemma_config_change_dominates(changes: Seq<ChangeView>, known: Seq<Seq<char>>)
    requires
        has_config_change(changes),
    ensures
        scope_of(changes, known) == ScopeView::Full,
{
}

/// Without a change of configuration, a changed template asks for every
/// document, whatever else the batch holds.
pub proof fn lemma_template_change_rebuilds_documents(
    changes: Seq<ChangeView>,
    known: Seq<Seq<char>>,
)
    requires
        !has_config_change(changes),
        has_template_change(changes),
    ensures
        scope_of(changes, known) == ScopeView::AllDocuments,
{
}

/// Without a change of configuration or of a template, a change that
/// alters the navigation asks for a source: that of the first such change.
pub proof fn lemma_nav_change_rebuilds_source(
    changes: Seq<ChangeView>,
    known: Seq<Seq<char>>,
    i: int,
)
    requires
        !has_config_change(changes),
        !has_template_change(changes),
        0 <= i < changes.len(),
        alters_nav(changes[i], known),
    ensures
        scope_of(changes, known) matches ScopeView::Source(name) && exists|k: int|
            0 <= k <= i && alters_nav(#[trigger] changes[k], known) && name
                == changes[k]->Document_source_name,
{
    lemma_first_nav_change(changes, known, 0);
    let k = first_nav_change(changes, known, 0);
    assert(k <= i) by {
        if i < k {
            assert(!alters_nav(changes[i], known));
        }
    }
    assert(alters_nav(changes[k], known));
}

/// A batch that alters neither configuration, templates nor navigation
/// asks for files only.
pub proof fn lemma_modified_files_only(changes: Seq<ChangeView>, known: Seq<Seq<char>>)
    requires
        !has_config_change(changes),
        !has_template_change(changes),
        forall|i: int| 0 <= i < changes.len() ==> !alters_nav(#[trigger] changes[i], known),
    ensures
        scope_of(changes, known) is Files,
{
    lemma_first_nav_change(changes, known, 0);
}

// ---------------------------------------------------------------------------
// The cache
// ---------------------------------------------------------------------------

/// What the cache holds of a document that was built.
pub struct CachedDocument {
    /// The name of the source of the document.
    pub source_name: String,
    /// The path of the document.
    pub source_path: String,
    /// The URL path of its page.
    pub url_path: String,
    /// The path of the file that was written.
    pub output_path: String,
    /// When the document was last modified, as the build saw it.
    pub source_mtime: u64,
}

/// What the cache holds of a static file that was copied.
pub struct CachedStaticFile {
    /// The name of the source of the file.
    pub source_name: String,
    /// The path of the file.
    pub source_path: String,
    /// The path of the copy.
    pub output_path: String,
    /// When the file was last modified, as the build saw it.
    pub source_mtime: u64,
}

/// When a template was last modified, as the build saw it.
pub struct TemplateTime {
    pub path: String,
    pub mtime: u64,
}

/// The navigation of a source, as the cache holds it.
pub struct CachedNav {
    pub source_name: String,
    pub nav: Vec<NavSection>,
}

/// The paths of the documents that were built for a source.
pub struct SourceDocuments {
    pub source_name: String,
    pub paths: Vec<String>,
}

/// The state of the files of a site after a build.
///
/// Each table is a list in which no key stands twice: no path among the
/// documents, the static files and the templates, no source name among the
/// navigations and the document lists.
pub struct BuildCache {
    pub documents: Vec<CachedDocument>,
    pub static_files: Vec<CachedStaticFile>,
    pub template_mtimes: Vec<TemplateTime>,
    pub nav_by_source: Vec<CachedNav>,
    pub documents_by_source: Vec<SourceDocuments>,
}

/// The paths of a list of cached documents.
pub open spec fn document_paths(v: Seq<CachedDocument>) -> Seq<Seq<char>> {
    Seq::new(v.len(), |i: int| v[i].source_path@)
}

/// The paths of a list of cached static files.
pub open spec fn static_paths(v: Seq<CachedStaticFile>) -> Seq<Seq<char>> {
    Seq::new(v.len(), |i: int| v[i].source_path@)
}

/// The paths of a list of template times.
pub open spec fn template_paths(v: Seq<TemplateTime>) -> Seq<Seq<char>> {
    Seq::new(v.len(), |i: int| v[i].path@)
}

/// The source names of a list of cached navigations.
pub open spec fn nav_names(v: Seq<CachedNav>) -> Seq<Seq<char>> {
    Seq::new(v.len(), |i: int| v[i].source_name@)
}

/// The source names of a list of document lists.
pub open spec fn list_names(v: Seq<SourceDocuments>) -> Seq<Seq<char>> {
    Seq::new(v.len(), |i: int| v[i].source_name@)
}

/// The place of `key` among `keys`; the number of keys where it is not
/// among them.
pub open spec fn key_index(keys: Seq<Seq<char>>, key: Seq<char>, from: int) -> int
    decreases keys.len() - from,
{
    if from < 0 || from >= keys.len() {
        keys.len() as int
    } else if keys[from] == key {
        from
    } else {
        key_index(keys, key, from + 1)
    }
}

/// What [`key_index`] finds is the first place of the key.
pub proof fn lemma_key_index(keys: Seq<Seq<char>>, key: Seq<char>, from: int)
    requires
        0 <= from <= keys.len(),
    ensures
        from <= key_index(keys, key, from) <= keys.len(),
        key_index(keys, key, from) < keys.len() ==> keys[key_index(keys, key, from)] == key,
        forall|j: int| from <= j < key_index(keys, key, from) ==> keys[j] != key,
        from == 0 ==> (key_index(keys, key, 0) < keys.len() <==> keys.contains(key)),
    decreases keys.len() - from,
{
    if from < keys.len() && keys[from] != key {
        lemma_key_index(keys, key, from + 1);
    }
    if from == 0 && keys.contains(key) {
        let k = choose|k: int| 0 <= k < keys.len() && keys[k] == key;
        assert(key_index(keys, key, 0) <= k);
    }
}

/// Whether no key stands twice among `keys`.
pub open spec fn no_key_twice(keys: Seq<Seq<char>>) -> bool {
    forall|i: int, j: int| 0 <= i < j < keys.len() ==> keys[i] != keys[j]
}

impl BuildCache {
    /// Whether no key stands twice in any table.
    pub open spec fn wf(&self) -> bool {
        &&& no_key_twice(document_paths(self.documents@))
        &&& no_key_twice(static_paths(self.static_files@))
        &&& no_key_twice(template_paths(self.template_mtimes@))
        &&& no_key_twice(nav_names(self.nav_by_source@))
        &&& no_key_twice(list_names(self.documents_by_source@))
    }

    /// A cache that holds nothing.
    pub fn new() -> (r: Self)
        ensures
            r.wf(),
            r.documents@.len() == 0,
            r.static_files@.len() == 0,
            r.template_mtimes@.len() == 0,
            r.nav_by_source@.len() == 0,
            r.documents_by_source@.len() == 0,
    {
        BuildCache {
            documents: Vec::new(),
            static_files: Vec::new(),
            template_mtimes: Vec::new(),
            nav_by_source: Vec::new(),
            documents_by_source: Vec::new(),
        }
    }

    /// The place of the document with the given path.
    fn find_document(&self, path: &str) -> (k: usize)
        ensures
            k as int == key_index(document_paths(self.documents@), path@, 0),
            k <= self.documents@.len(),
    {
        let mut i: usize = 0;
        while i < self.documents.len()
            invariant
                i <= self.documents@.len(),
                key_index(document_paths(self.documents@), path@, 0) == key_index(
                    document_paths(self.documents@),
                    path@,
                    i as int,
                ),
            decreases self.documents@.len() - i,
        {
            assert(document_paths(self.documents@)[i as int] == self.documents@[i as int].source_path@);
            if same_text(self.documents[i].source_path.as_str(), path) {
                return i;
            }
            i += 1;
        }
        i
    }

    /// The place of the static file with the given path.
    fn find_static_file(&self, path: &str) -> (k: usize)
        ensures
            k as int == key_index(static_paths(self.static_files@), path@, 0),
            k <= self.static_files@.len(),
    {
        let mut i: usize = 0;
        while i < self.static_files.len()
            invariant
                i <= self.static_files@.len(),
                key_index(static_paths(self.static_files@), path@, 0) == key_index(
                    static_paths(self.static_files@),
                    path@,
                    i as int,
                ),
            decreases self.static_files@.len() - i,
        {
            assert(static_paths(self.static_files@)[i as int]
                == self.static_files@[i as int].source_path@);
            if same_text(self.static_files[i].source_path.as_str(), path) {
                return i;
            }
            i += 1;
        }
        i
    }

    /// The place of the time of the template with the given path.
    fn find_template(&self, path: &str) -> (k: usize)
        ensures
            k as int == key_index(template_paths(self.template_mtimes@), path@, 0),
            k <= self.template_mtimes@.len(),
    {
        let mut i: usize = 0;
        while i < self.template_mtimes.len()
            invariant
                i <= self.template_mtimes@.len(),
                key_index(template_paths(self.template_mtimes@), path@, 0) == key_index(
                    template_paths(self.template_mtimes@),
                    path@,
                    i as int,
                ),
            decreases self.template_mtimes@.len() - i,
        {
            assert(template_paths(self.template_mtimes@)[i as int]
                == self.template_mtimes@[i as int].path@);
            if same_text(self.template_mtimes[i].path.as_str(), path) {
                return i;
            }
            i += 1;
        }
        i
    }

    /// The place of the navigation of the source with the given name.
    fn find_nav(&self, source_name: &str) -> (k: usize)
        ensures
            k as int == key_index(nav_names(self.nav_by_source@), source_name@, 0),
            k <= self.nav_by_source@.len(),
    {
        let mut i: usize = 0;
        while i < self.nav_by_source.len()
            invariant
                i <= self.nav_by_source@.len(),
                key_index(nav_names(self.nav_by_source@), source_name@, 0) == key_index(
                    nav_names(self.nav_by_source@),
                    source_name@,
                    i as int,
                ),
            decreases self.nav_by_source@.len() - i,
        {
            assert(nav_names(self.nav_by_source@)[i as int]
                == self.nav_by_source@[i as int].source_name@);
            if same_text(self.nav_by_source[i].source_name.as_str(), source_name) {
                return i;
            }
            i += 1;
        }
        i
    }

    /// The place of the document list of the source with the given name.
    fn find_list(&self, source_name: &str) -> (k: usize)
        ensures
            k as int == key_index(list_names(self.documents_by_source@), source_name@, 0),
            k <= self.documents_by_source@.len(),
    {
        let mut i: usize = 0;
        while i < self.documents_by_source.len()
            invariant
                i <= self.documents_by_source@.len(),
                key_index(list_names(self.documents_by_source@), source_name@, 0) == key_index(
                    list_names(self.documents_by_source@),
                    source_name@,
                    i as int,
                ),
            decreases self.documents_by_source@.len() - i,
        {
            assert(list_names(self.documents_by_source@)[i as int]
                == self.documents_by_source@[i as int].source_name@);
            if same_text(self.documents_by_source[i].source_name.as_str(), source_name) {
                return i;
            }
            i += 1;
        }
        i
    }

    /// Says how much has to be rebuilt for a batch of changes; see
    /// [`scope_of`].
    pub fn invalidation_scope(&self, changes: &Vec<ChangeKind>) -> (scope: InvalidationScope)
        ensures
            scope@ == scope_of(change_views(changes@), document_paths(self.documents@)),
    {
        let ghost batch = change_views(changes@);
        let ghost known = document_paths(self.documents@);
        let mut files: Vec<String> = Vec::new();
        let mut first_source: Option<String> = None;
        let mut all_documents = false;
        let mut i: usize = 0;
        proof {
            lemma_first_nav_change(batch, known, 0);
        }
        while i < changes.len()
            invariant
                i <= changes@.len(),
                batch == change_views(changes@),
                known == document_paths(self.documents@),
                forall|j: int|
                    0 <= j < i ==> !(#[trigger] batch[j] is Config || batch[j] is ThemeConfig),
                all_documents == (exists|j: int| 0 <= j < i && #[trigger] batch[j] is Template),
                texts(files@) == changed_files(batch, known, i as int),
                match first_source {
                    Some(name) => first_nav_change(batch, known, 0) < i && name@ == batch[first_nav_change(
                        batch,
                        known,
                        0,
                    )]->Document_source_name,
                    None => first_nav_change(batch, known, 0) >= i,
                },
            decreases changes@.len() - i,
        {
            assert(batch[i as int] == changes@[i as int]@);
            proof {
                lemma_first_nav_change(batch, known, 0);
            }
            let ghost before = texts(files@);
            match &changes[i] {
                ChangeKind::Config => {
                    return InvalidationScope::Full;
                },
                ChangeKind::ThemeConfig => {
                    return InvalidationScope::Full;
                },
                ChangeKind::Template { .. } => {
                    all_documents = true;
                },
                ChangeKind::Document { source_name, path, deleted } => {
                    let k = self.find_document(path.as_str());
                    proof {
                        lemma_key_index(known, path@, 0);
                    }
                    if *deleted || k >= self.documents.len() {
                        if first_source.is_none() {
                            first_source = Some(source_name.clone());
                        }
                    } else {
                        files.push(path.clone());
                        assert(texts(files@) =~= before.push(path@));
                    }
                },
                ChangeKind::StaticFile { path, .. } => {
                    files.push(path.clone());
                    assert(texts(files@) =~= before.push(path@));
                },
            }
            i += 1;
        }
        if all_documents {
            return InvalidationScope::AllDocuments;
        }
        match first_source {
            Some(name) => InvalidationScope::Source(name),
            None => InvalidationScope::Files(files),
        }
    }

    /// Whether a document has to be rebuilt: the cache does not know it, its
    /// time of modification, `mtime`, could not be read, or it was modified
    /// after the cache saw it.
    pub fn document_needs_rebuild(&self, path: &str, mtime: Option<u64>) -> (r: bool)
        ensures
            r == ({
                let k = key_index(document_paths(self.documents@), path@, 0);
                k >= self.documents@.len() || mtime is None || mtime->0
                    > self.documents@[k].source_mtime
            }),
    {
        let k = self.find_document(path);
        if k >= self.documents.len() {
            return true;
        }
        match mtime {
            Some(m) => m > self.documents[k].source_mtime,
            None => true,
        }
    }

    /// Whether a static file has to be copied: the cache does not know it,
    /// its time of modification, `mtime`, could not be read, or it was
    /// modified after the cache saw it.
    pub fn static_file_needs_copy(&self, path: &str, mtime: Option<u64>) -> (r: bool)
        ensures
            r == ({
                let k = key_index(static_paths(self.static_files@), path@, 0);
                k >= self.static_files@.len() || mtime is None || mtime->0
                    > self.static_files@[k].source_mtime
            }),
    {
        let k = self.find_static_file(path);
        if k >= self.static_files.len() {
            return true;
        }
        match mtime {
            Some(m) => m > self.static_files[k].source_mtime,
            None => true,
        }
    }

    /// The number of documents that the cache holds.
    pub fn document_count(&self) -> (n: usize)
        ensures
            n == self.documents@.len(),
    {
        self.documents.len()
    }

    /// The number of static files that the cache holds.
    pub fn static_file_count(&self) -> (n: usize)
        ensures
            n == self.static_files@.len(),
    {
        self.static_files.len()
    }

    /// Forgets everything.
    pub fn clear(&mut self)
        ensures
            final(self).wf(),
            final(self).documents@.len() == 0,
            final(self).static_files@.len() == 0,
            final(self).template_mtimes@.len() == 0,
            final(self).nav_by_source@.len() == 0,
            final(self).documents_by_source@.len() == 0,
    {
        self.documents = Vec::new();
        self.static_files = Vec::new();
        self.template_mtimes = Vec::new();
        self.nav_by_source = Vec::new();
        self.documents_by_source = Vec::new();
    }

    /// Takes note of a document that was built. It takes the place of what
    /// the cache held under its path, and its path is added to the list of
    /// its source.
    pub fn update_document(&mut self, doc: CachedDocument)
        requires
            old(self).wf(),
        ensures
            final(self).wf(),
            ({
                let k = key_index(document_paths(old(self).documents@), doc.source_path@, 0);
                final(self).documents@ == if k < old(self).documents@.len() {
                    old(self).documents@.update(k, doc)
                } else {
                    old(self).documents@.push(doc)
                }
            }),
            ({
                let before = old(self).documents_by_source@;
                let after = final(self).documents_by_source@;
                let k = key_index(list_names(before), doc.source_name@, 0);
                if k < before.len() {
                    &&& after.len() == before.len()
                    &&& after[k].source_name@ == doc.source_name@
                    &&& texts(after[k].paths@) == texts(before[k].paths@).push(doc.source_path@)
                    &&& forall|j: int| 0 <= j < before.len() && j != k ==> after[j] == before[j]
                } else {
                    &&& after.len() == before.len() + 1
                    &&& after.last().source_name@ == doc.source_name@
                    &&& texts(after.last().paths@) == seq![doc.source_path@]
                    &&& forall|j: int| 0 <= j < before.len() ==> after[j] == before[j]
                }
            }),
            final(self).static_files == old(self).static_files,
            final(self).template_mtimes == old(self).template_mtimes,
            final(self).nav_by_source == old(self).nav_by_source,
    {
        let source_name = doc.source_name.clone();
        let source_path = doc.source_path.clone();
        let ghost keys = document_paths(self.documents@);
        let ghost names = list_names(self.documents_by_source@);
        proof {
            lemma_key_index(keys, doc.source_path@, 0);
            lemma_key_index(names, doc.source_name@, 0);
        }
        let k = self.find_document(source_path.as_str());
        if k < self.documents.len() {
            let _ = self.documents.remove(k);
            self.documents.insert(k, doc);
            assert(self.documents@ =~= old(self).documents@.update(k as int, doc));
            assert(document_paths(self.documents@) =~= keys);
        } else {
            self.documents.push(doc);
            assert(document_paths(self.documents@) =~= keys.push(doc.source_path@));
        }
        let m = self.find_list(source_name.as_str());
        if m < self.documents_by_source.len() {
            let mut list = self.documents_by_source.remove(m);
            let ghost before = texts(list.paths@);
            list.paths.push(source_path);
            assert(texts(list.paths@) =~= before.push(doc.source_path@));
            self.documents_by_source.insert(m, list);
            assert(list_names(self.documents_by_source@) =~= names);
        } else {
            let mut paths: Vec<String> = Vec::new();
            paths.push(source_path);
            assert(texts(paths@) =~= seq![doc.source_path@]);
            self.documents_by_source.push(SourceDocuments { source_name, paths });
            assert(list_names(self.documents_by_source@) =~= names.push(doc.source_name@));
        }
    }

    /// Takes note of a static file that was copied. It takes the place of
    /// what the cache held under its path.
    pub fn update_static_file(&mut self, file: CachedStaticFile)
        requires
            old(self).wf(),
        ensures
            final(self).wf(),
            ({
                let k = key_index(static_paths(old(self).static_files@), file.source_path@, 0);
                final(self).static_files@ == if k < old(self).static_files@.len() {
                    old(self).static_files@.update(k, file)
                } else {
                    old(self).static_files@.push(file)
                }
            }),
            final(self).documents == old(self).documents,
            final(self).template_mtimes == old(self).template_mtimes,
            final(self).nav_by_source == old(self).nav_by_source,
            final(self).documents_by_source == old(self).documents_by_source,
    {
        let ghost keys = static_paths(self.static_files@);
        proof {
            lemma_key_index(keys, file.source_path@, 0);
        }
        let k = self.find_static_file(file.source_path.as_str());
        if k < self.static_files.len() {
            let _ = self.static_files.remove(k);
            self.static_files.insert(k, file);
            assert(self.static_files@ =~= old(self).static_files@.update(k as int, file));
            assert(static_paths(self.static_files@) =~= keys);
        } else {
            self.static_files.push(file);
            assert(static_paths(self.static_files@) =~= keys.push(file.source_path@));
        }
    }

    /// Forgets a document that was deleted, and hands back what the cache
    /// held of it. Its path leaves the list of its source.
    pub fn remove_document(&mut self, path: &str) -> (r: Option<CachedDocument>)
        requires
            old(self).wf(),
        ensures
            final(self).wf(),
            ({
                let docs = old(self).documents@;
                let before = old(self).documents_by_source@;
                let after = final(self).documents_by_source@;
                let k = key_index(document_paths(docs), path@, 0);
                if k < docs.len() {
                    &&& r == Some(docs[k])
                    &&& final(self).documents@ == docs.remove(k)
                    &&& list_names(after) == list_names(before)
                    &&& forall|j: int|
                        0 <= j < before.len() ==> texts(#[trigger] after[j].paths@)
                            == paths_after_removal(before[j], docs[k].source_name@, path@)
                } else {
                    &&& r is None
                    &&& final(self).documents == old(self).documents
                    &&& final(self).documents_by_source == old(self).documents_by_source
                }
            }),
            final(self).static_files == old(self).static_files,
            final(self).template_mtimes == old(self).template_mtimes,
            final(self).nav_by_source == old(self).nav_by_source,
    {
        let ghost keys = document_paths(self.documents@);
        let ghost names = list_names(self.documents_by_source@);
        proof {
            lemma_key_index(keys, path@, 0);
        }
        let k = self.find_document(path);
        if k >= self.documents.len() {
            return None;
        }
        let doc = self.documents.remove(k);
        assert(document_paths(self.documents@) =~= keys.remove(k as int));
        proof {
            lemma_key_index(names, doc.source_name@, 0);
        }
        let m = self.find_list(doc.source_name.as_str());
        if m < self.documents_by_source.len() {
            let list = self.documents_by_source.remove(m);
            let kept = paths_without(&list.paths, path);
            let new_list = SourceDocuments { source_name: list.source_name, paths: kept };
            self.documents_by_source.insert(m, new_list);
            assert(list_names(self.documents_by_source@) =~= names);
            assert forall|j: int| 0 <= j < old(self).documents_by_source@.len() implies texts(
                #[trigger] self.documents_by_source@[j].paths@,
            ) == paths_after_removal(
                old(self).documents_by_source@[j],
                doc.source_name@,
                path@,
            ) by {
                if j != m {
                    assert(names[j] != names[m as int]);
                }
            }
        } else {
            let ghost lists = old(self).documents_by_source@;
            assert forall|j: int| 0 <= j < lists.len() implies lists[j].source_name@
                != doc.source_name@ by {
                assert(names[j] == lists[j].source_name@);
            }
        }
        Some(doc)
    }

    /// Forgets a static file, and hands back what the cache held of it.
    pub fn remove_static_file(&mut self, path: &str) -> (r: Option<CachedStaticFile>)
        requires
            old(self).wf(),
        ensures
            final(self).wf(),
            ({
                let k = key_index(static_paths(old(self).static_files@), path@, 0);
                if k < old(self).static_files@.len() {
                    &&& r == Some(old(self).static_files@[k])
                    &&& final(self).static_files@ == old(self).static_files@.remove(k)
                } else {
                    r is None && final(self).static_files == old(self).static_files
                }
            }),
            final(self).documents == old(self).documents,
            final(self).template_mtimes == old(self).template_mtimes,
            final(self).nav_by_source == old(self).nav_by_source,
            final(self).documents_by_source == old(self).documents_by_source,
    {
        let ghost keys = static_paths(self.static_files@);
        proof {
            lemma_key_index(keys, path@, 0);
        }
        let k = self.find_static_file(path);
        if k >= self.static_files.len() {
            return None;
        }
        let file = self.static_files.remove(k);
        assert(static_paths(self.static_files@) =~= keys.remove(k as int));
        Some(file)
    }

    /// The documents of a source that the cache holds, in the order in which
    /// it came to hold them.
    pub fn documents_for_source(&self, source_name: &str) -> (r: Vec<&CachedDocument>)
        ensures
            r@.len() == of_source(self.documents@, source_name@, self.documents@.len() as int).len(),
            forall|j: int|
                0 <= j < r@.len() ==> *(#[trigger] r@[j]) == of_source(
                    self.documents@,
                    source_name@,
                    self.documents@.len() as int,
                )[j],
    {
        let mut out: Vec<&CachedDocument> = Vec::new();
        let mut i: usize = 0;
        while i < self.documents.len()
            invariant
                i <= self.documents@.len(),
                out@.len() == of_source(self.documents@, source_name@, i as int).len(),
                forall|j: int|
                    0 <= j < out@.len() ==> *(#[trigger] out@[j]) == of_source(
                        self.documents@,
                        source_name@,
                        i as int,
                    )[j],
            decreases self.documents@.len() - i,
        {
            if same_text(self.documents[i].source_name.as_str(), source_name) {
                out.push(&self.documents[i]);
            }
            i += 1;
        }
        out
    }

    /// The navigation of a source, where the cache holds it.
    pub fn get_nav(&self, source_name: &str) -> (r: Option<&Vec<NavSection>>)
        ensures
            ({
                let k = key_index(nav_names(self.nav_by_source@), source_name@, 0);
                if k < self.nav_by_source@.len() {
                    r == Some(&self.nav_by_source@[k].nav)
                } else {
                    r is None
                }
            }),
    {
        let k = self.find_nav(source_name);
        if k < self.nav_by_source.len() {
            Some(&self.nav_by_source[k].nav)
        } else {
            None
        }
    }

    /// Keeps the navigation of a source, in the place of what the cache held
    /// for it.
    pub fn set_nav(&mut self, source_name: String, nav: Vec<NavSection>)
        requires
            old(self).wf(),
        ensures
            final(self).wf(),
            ({
                let k = key_index(nav_names(old(self).nav_by_source@), source_name@, 0);
                let entry = CachedNav { source_name, nav };
                final(self).nav_by_source@ == if k < old(self).nav_by_source@.len() {
                    old(self).nav_by_source@.update(k, entry)
                } else {
                    old(self).nav_by_source@.push(entry)
                }
            }),
            final(self).documents == old(self).documents,
            final(self).static_files == old(self).static_files,
            final(self).template_mtimes == old(self).template_mtimes,
            final(self).documents_by_source == old(self).documents_by_source,
    {
        let ghost keys = nav_names(self.nav_by_source@);
        proof {
            lemma_key_index(keys, source_name@, 0);
        }
        let k = self.find_nav(source_name.as_str());
        let entry = CachedNav { source_name, nav };
        if k < self.nav_by_source.len() {
            let _ = self.nav_by_source.remove(k);
            self.nav_by_source.insert(k, entry);
            assert(self.nav_by_source@ =~= old(self).nav_by_source@.update(k as int, entry));
            assert(nav_names(self.nav_by_source@) =~= keys);
        } else {
            self.nav_by_source.push(entry);
            assert(nav_names(self.nav_by_source@) =~= keys.push(source_name@));
        }
    }

    /// Forgets the navigation of a source.
    pub fn invalidate_nav(&mut self, source_name: &str)
        requires
            old(self).wf(),
        ensures
            final(self).wf(),
            ({
                let k = key_index(nav_names(old(self).nav_by_source@), source_name@, 0);
                final(self).nav_by_source@ == if k < old(self).nav_by_source@.len() {
                    old(self).nav_by_source@.remove(k)
                } else {
                    old(self).nav_by_source@
                }
            }),
            !nav_names(final(self).nav_by_source@).contains(source_name@),
            final(self).documents == old(self).documents,
            final(self).static_files == old(self).static_files,
            final(self).template_mtimes == old(self).template_mtimes,
            final(self).documents_by_source == old(self).documents_by_source,
    {
        let ghost keys = nav_names(self.nav_by_source@);
        proof {
            lemma_key_index(keys, source_name@, 0);
        }
        let k = self.find_nav(source_name);
        if k < self.nav_by_source.len() {
            let _ = self.nav_by_source.remove(k);
            assert(nav_names(self.nav_by_source@) =~= keys.remove(k as int));
            proof {
                let after = nav_names(self.nav_by_source@);
                if after.contains(source_name@) {
                    let j = choose|j: int| 0 <= j < after.len() && after[j] == source_name@;
                    if j < k {
                        assert(keys[j] == source_name@);
                    } else {
                        assert(keys[j + 1] == source_name@);
                    }
                }
            }
        }
    }

    /// Takes note of the time at which a template was last modified.
    pub fn update_template_mtime(&mut self, path: String, mtime: u64)
        requires
            old(self).wf(),
        ensures
            final(self).wf(),
            ({
                let k = key_index(template_paths(old(self).template_mtimes@), path@, 0);
                let entry = TemplateTime { path, mtime };
                final(self).template_mtimes@ == if k < old(self).template_mtimes@.len() {
                    old(self).template_mtimes@.update(k, entry)
                } else {
                    old(self).template_mtimes@.push(entry)
                }
            }),
            final(self).documents == old(self).documents,
            final(self).static_files == old(self).static_files,
            final(self).nav_by_source == old(self).nav_by_source,
            final(self).documents_by_source == old(self).documents_by_source,
    {
        let ghost keys = template_paths(self.template_mtimes@);
        proof {
            lemma_key_index(keys, path@, 0);
        }
        let k = self.find_template(path.as_str());
        let entry = TemplateTime { path, mtime };
        if k < self.template_mtimes.len() {
            let _ = self.template_mtimes.remove(k);
            self.template_mtimes.insert(k, entry);
            assert(self.template_mtimes@ =~= old(self).template_mtimes@.update(k as int, entry));
            assert(template_paths(self.template_mtimes@) =~= keys);
        } else {
            self.template_mtimes.push(entry);
            assert(template_paths(self.template_mtimes@) =~= keys.push(path@));
        }
    }

    /// Whether a template, as it is found now, is new to the cache or was
    /// modified after the cache saw it.
    pub open spec fn template_changed(&self, found: TemplateTime) -> bool {
        let k = key_index(template_paths(self.template_mtimes@), found.path@, 0);
        extension_of(found.path@) == seq!['h', 't', 'm', 'l'] && (k
            >= self.template_mtimes@.len() || found.mtime > self.template_mtimes@[k].mtime)
    }

    /// Whether any of the templates found in the theme has changed. Only
    /// files with the extension `html` are templates.
    pub fn any_template_changed(&self, found: &Vec<TemplateTime>) -> (r: bool)
        ensures
            r == (exists|i: int| 0 <= i < found@.len() && self.template_changed(#[trigger] found@[i])),
    {
        let html: Vec<char> = vec!['h', 't', 'm', 'l'];
        assert(html@ =~= seq!['h', 't', 'm', 'l']);
        let mut i: usize = 0;
        while i < found.len()
            invariant
                i <= found@.len(),
                html@ == seq!['h', 't', 'm', 'l'],
                forall|j: int| 0 <= j < i ==> !self.template_changed(#[trigger] found@[j]),
            decreases found@.len() - i,
        {
            let path = chars_of(found[i].path.as_str());
            let ext = extension(&path);
            if same_chars(&ext, &html) {
                let k = self.find_template(found[i].path.as_str());
                if k >= self.template_mtimes.len() || found[i].mtime > self.template_mtimes[k].mtime {
                    return true;
                }
            }
            i += 1;
        }
        false
    }
}

/// The paths of a document list after the document at `path`, of the
/// source `source`, was removed: the list of that source no longer holds
/// the path, and every other list is as it was.
pub open spec fn paths_after_removal(
    list: SourceDocuments,
    source: Seq<char>,
    path: Seq<char>,
) -> Seq<Seq<char>> {
    if list.source_name@ == source {
        without_text(texts(list.paths@), path, list.paths@.len() as int)
    } else {
        texts(list.paths@)
    }
}

/// The first `n` of the paths without every one that is `path`.
pub open spec fn without_text(paths: Seq<Seq<char>>, path: Seq<char>, n: int) -> Seq<Seq<char>>
    decreases n,
{
    if n <= 0 {
        Seq::empty()
    } else if paths[n - 1] == path {
        without_text(paths, path, n - 1)
    } else {
        without_text(paths, path, n - 1).push(paths[n - 1])
    }
}

/// Executable form of [`without_text`].
fn paths_without(paths: &Vec<String>, path: &str) -> (r: Vec<String>)
    ensures
        texts(r@) == without_text(texts(paths@), path@, paths@.len() as int),
{
    let mut out: Vec<String> = Vec::new();
    let mut i: usize = 0;
    assert(texts(out@) =~= Seq::<Seq<char>>::empty());
    while i < paths.len()
        invariant
            i <= paths@.len(),
            texts(out@) == without_text(texts(paths@), path@, i as int),
        decreases paths@.len() - i,
    {
        let ghost before = texts(out@);
        assert(texts(paths@)[i as int] == paths@[i as int]@);
        if !same_text(paths[i].as_str(), path) {
            out.push(paths[i].clone());
            assert(texts(out@) =~= before.push(paths@[i as int]@));
        }
        i += 1;
    }
    out
}

/// Those of the first `n` documents that belong to the source `name`.
pub open spec fn of_source(docs: Seq<CachedDocument>, name: Seq<char>, n: int) -> Seq<
    CachedDocument,
>
    decreases n,
{
    if n <= 0 {
        Seq::empty()
    } else if docs[n - 1].source_name@ == name {
        of_source(docs, name, n - 1).push(docs[n - 1])
    } else {
        of_source(docs, name, n - 1)
    }
}

} // verus!
