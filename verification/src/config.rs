//! The configuration of a site, and how a child repository's configuration
//! is composed with that of its parent.

use vstd::prelude::*;
use crate::paths::{file_stem, join, join_paths, names_file, path_names_file, stem_of};
use crate::render::clone_opt;
use crate::text::{
    append_chars, chars_of, find_from, index_from, owned, replace_char, replaced, same_text,
    slice_of, string_of, to_upper, uppercase_of,
};

verus! {

/// The theme settings, handed to templates as they are.
#[verifier::external_type_specification]
#[verifier::external_body]
pub struct ExJsonValue(serde_json::Value);

/// `Clone` for `serde_json::Value`: the copy is the same value.
#[verifier::external_body]
pub(crate) fn clone_json(v: &serde_json::Value) -> (r: serde_json::Value)
    ensures
        r == *v,
{
    v.clone()
}

// ---------------------------------------------------------------------------
// Locations
// ---------------------------------------------------------------------------

/// A git repository, with the ref to check out and the directory in it.
pub struct GitLocation {
    /// The URL of the repository.
    pub url: String,
    /// A branch, tag or commit; the default branch where absent.
    pub git_ref: Option<String>,
    /// A directory inside the repository.
    pub subpath: Option<String>,
}

/// The mathematical form of a [`GitLocation`].
pub struct GitLocationView {
    pub url: Seq<char>,
    pub git_ref: Option<Seq<char>>,
    pub subpath: Option<Seq<char>>,
}

/// The text of a string that may be absent.
pub open spec fn opt_view(o: Option<String>) -> Option<Seq<char>> {
    match o {
        Some(s) => Some(s@),
        None => None,
    }
}

impl View for GitLocation {
    type V = GitLocationView;

    open spec fn view(&self) -> GitLocationView {
        GitLocationView {
            url: self.url@,
            git_ref: opt_view(self.git_ref),
            subpath: opt_view(self.subpath),
        }
    }
}

/// What the compact form `url#ref` stands for: the text before the first
/// `#` is the URL, the text after it the ref. Without a `#` there is no ref.
pub open spec fn compact_location(s: Seq<char>) -> GitLocationView {
    let k = index_from(s, '#', 0);
    if k < s.len() {
        GitLocationView { url: s.take(k), git_ref: Some(s.skip(k + 1)), subpath: None }
    } else {
        GitLocationView { url: s, git_ref: None, subpath: None }
    }
}

impl GitLocation {
    /// Reads the compact form `url#ref`.
    pub fn from_compact(s: &str) -> (r: Self)
        ensures
            r@ == compact_location(s@),
    {
        let chars = chars_of(s);
        let k = find_from(&chars, '#', 0);
        if k < chars.len() {
            let url = slice_of(&chars, 0, k);
            let git_ref = slice_of(&chars, k + 1, chars.len());
            GitLocation {
                url: string_of(&url),
                git_ref: Some(string_of(&git_ref)),
                subpath: None,
            }
        } else {
            GitLocation { url: owned(s), git_ref: None, subpath: None }
        }
    }

    /// A copy of the location.
    pub fn copy(&self) -> (r: Self)
        ensures
            r@ == self@,
    {
        GitLocation {
            url: self.url.clone(),
            git_ref: clone_opt(&self.git_ref),
            subpath: clone_opt(&self.subpath),
        }
    }
}

/// A git reference as the configuration writes it.
pub enum GitValue {
    /// The compact form `url#ref`.
    Compact(String),
    /// The form with a field for each part.
    Expanded(GitLocation),
}

/// The mathematical form of a [`GitValue`].
pub enum GitValueView {
    Compact(Seq<char>),
    Expanded(GitLocationView),
}

impl View for GitValue {
    type V = GitValueView;

    open spec fn view(&self) -> GitValueView {
        match self {
            GitValue::Compact(s) => GitValueView::Compact(s@),
            GitValue::Expanded(loc) => GitValueView::Expanded(loc@),
        }
    }
}

impl GitValueView {
    /// The location that the value stands for.
    pub open spec fn location(self) -> GitLocationView {
        match self {
            GitValueView::Compact(s) => compact_location(s),
            GitValueView::Expanded(loc) => loc,
        }
    }

    /// The URL as it is written: the whole compact text, or the `url` field.
    pub open spec fn written_url(self) -> Seq<char> {
        match self {
            GitValueView::Compact(s) => s,
            GitValueView::Expanded(loc) => loc.url,
        }
    }
}

impl GitValue {
    /// The location that the value stands for.
    pub fn to_location(&self) -> (r: GitLocation)
        ensures
            r@ == self@.location(),
    {
        match self {
            GitValue::Compact(s) => GitLocation::from_compact(s.as_str()),
            GitValue::Expanded(loc) => loc.copy(),
        }
    }

    /// A copy of the value.
    pub fn copy(&self) -> (r: Self)
        ensures
            r@ == self@,
    {
        match self {
            GitValue::Compact(s) => GitValue::Compact(s.clone()),
            GitValue::Expanded(loc) => GitValue::Expanded(loc.copy()),
        }
    }
}

/// Where content lies: in a local directory or in a git repository.
pub enum Location {
    Path { path: String },
    Git { git: GitValue },
}

/// The mathematical form of a [`Location`].
pub enum LocationView {
    Path { path: Seq<char> },
    Git { git: GitValueView },
}

impl View for Location {
    type V = LocationView;

    open spec fn view(&self) -> LocationView {
        match self {
            Location::Path { path } => LocationView::Path { path: path@ },
            Location::Git { git } => LocationView::Git { git: git@ },
        }
    }
}

/// A path as it is meant from the directory `base`: an absolute path stands
/// for itself, a relative one lies below `base`.
pub open spec fn resolved_against(base: Seq<char>, path: Seq<char>) -> Seq<char> {
    join(base, path)
}

impl LocationView {
    /// The local path that the location resolves to from `base`, where it is
    /// a path.
    pub open spec fn resolved(self, base: Seq<char>) -> Option<Seq<char>> {
        match self {
            LocationView::Path { path } => Some(resolved_against(base, path)),
            LocationView::Git { .. } => None,
        }
    }

    /// The location with a relative path made to lie below `base`. A git
    /// reference and an absolute path stay as they are.
    pub open spec fn rebased(self, base: Seq<char>) -> LocationView {
        match self {
            LocationView::Path { path } => LocationView::Path { path: resolved_against(base, path) },
            LocationView::Git { git } => self,
        }
    }
}

impl Location {
    /// The path, where the location is one.
    pub fn as_path(&self) -> (r: Option<&String>)
        ensures
            match r {
                Some(p) => self@ == (LocationView::Path { path: p@ }),
                None => self@ is Git,
            },
    {
        match self {
            Location::Path { path } => Some(path),
            Location::Git { .. } => None,
        }
    }

    /// The git location, where the location is one.
    pub fn as_git(&self) -> (r: Option<GitLocation>)
        ensures
            match r {
                Some(g) => self@ is Git && g@ == self@->git.location(),
                None => self@ is Path,
            },
    {
        match self {
            Location::Path { .. } => None,
            Location::Git { git } => Some(git.to_location()),
        }
    }

    /// The path, or the URL as written where the location is a git
    /// reference.
    pub fn require_path(&self) -> (r: Result<&String, String>)
        ensures
            match r {
                Ok(p) => self@ == (LocationView::Path { path: p@ }),
                Err(url) => self@ is Git && url@ == self@->git.written_url(),
            },
    {
        match self {
            Location::Path { path } => Ok(path),
            Location::Git { git } => Err(
                match git {
                    GitValue::Compact(s) => s.clone(),
                    GitValue::Expanded(loc) => loc.url.clone(),
                },
            ),
        }
    }

    /// Whether the location is a git reference.
    pub fn is_git(&self) -> (r: bool)
        ensures
            r == (self@ is Git),
    {
        match self {
            Location::Path { .. } => false,
            Location::Git { .. } => true,
        }
    }

    /// Whether the location is a local path.
    pub fn is_path(&self) -> (r: bool)
        ensures
            r == (self@ is Path),
    {
        match self {
            Location::Path { .. } => true,
            Location::Git { .. } => false,
        }
    }

    /// The path resolved against `base_path`; nothing for a git reference.
    pub fn resolve_path(&self, base_path: &str) -> (r: Option<String>)
        ensures
            opt_view(r) == self@.resolved(base_path@),
    {
        match self {
            Location::Path { path } => Some(join_paths(base_path, path.as_str())),
            Location::Git { .. } => None,
        }
    }

    /// A copy of the location.
    pub fn copy(&self) -> (r: Self)
        ensures
            r@ == self@,
    {
        match self {
            Location::Path { path } => Location::Path { path: path.clone() },
            Location::Git { git } => Location::Git { git: git.copy() },
        }
    }

    /// The location as it is meant from the directory `base`; see
    /// [`LocationView::rebased`].
    pub fn rebase(&self, base: &str) -> (r: Self)
        ensures
            r@ == self@.rebased(base@),
    {
        match self {
            Location::Path { path } => Location::Path { path: join_paths(base, path.as_str()) },
            Location::Git { git } => Location::Git { git: git.copy() },
        }
    }
}

/// Where the content of a source lies.
pub enum SourceLocation {
    /// A directory or repository with a configuration file of its own.
    Remote { location: Location },
    /// A directory of content that belongs to the site itself.
    Local { local: Location },
}

/// The mathematical form of a [`SourceLocation`].
pub enum SourceLocationView {
    Remote { location: LocationView },
    Local { local: LocationView },
}

impl View for SourceLocation {
    type V = SourceLocationView;

    open spec fn view(&self) -> SourceLocationView {
        match self {
            SourceLocation::Remote { location } => SourceLocationView::Remote {
                location: location@,
            },
            SourceLocation::Local { local } => SourceLocationView::Local { local: local@ },
        }
    }
}

impl SourceLocationView {
    /// The location inside.
    pub open spec fn location(self) -> LocationView {
        match self {
            SourceLocationView::Remote { location } => location,
            SourceLocationView::Local { local } => local,
        }
    }

    /// The same kind of source with its path made to lie below `base`.
    pub open spec fn rebased(self, base: Seq<char>) -> SourceLocationView {
        match self {
            SourceLocationView::Remote { location } => SourceLocationView::Remote {
                location: location.rebased(base),
            },
            SourceLocationView::Local { local } => SourceLocationView::Local {
                local: local.rebased(base),
            },
        }
    }
}

impl SourceLocation {
    /// Whether the content belongs to the site itself.
    pub fn is_local(&self) -> (r: bool)
        ensures
            r == (self@ is Local),
    {
        match self {
            SourceLocation::Local { .. } => true,
            SourceLocation::Remote { .. } => false,
        }
    }

    /// Whether the source has a configuration of its own.
    pub fn is_remote(&self) -> (r: bool)
        ensures
            r == (self@ is Remote),
    {
        match self {
            SourceLocation::Local { .. } => false,
            SourceLocation::Remote { .. } => true,
        }
    }

    /// The location inside.
    pub fn location(&self) -> (r: &Location)
        ensures
            r@ == self@.location(),
    {
        match self {
            SourceLocation::Remote { location } => location,
            SourceLocation::Local { local } => local,
        }
    }

    /// A copy of the source location.
    pub fn copy(&self) -> (r: Self)
        ensures
            r@ == self@,
    {
        match self {
            SourceLocation::Remote { location } => SourceLocation::Remote {
                location: location.copy(),
            },
            SourceLocation::Local { local } => SourceLocation::Local { local: local.copy() },
        }
    }

    /// The source location as it is meant from the directory `base`.
    pub fn rebase(&self, base: &str) -> (r: Self)
        ensures
            r@ == self@.rebased(base@),
    {
        match self {
            SourceLocation::Remote { location } => SourceLocation::Remote {
                location: location.rebase(base),
            },
            SourceLocation::Local { local } => SourceLocation::Local { local: local.rebase(base) },
        }
    }
}

// ---------------------------------------------------------------------------
// Navigation
// ---------------------------------------------------------------------------

/// A title with the path of its page, as `Title: path` in the
/// configuration.
pub struct TitledEntry {
    pub title: String,
    pub path: String,
}

/// An item of the navigation that the configuration spells out.
pub enum NavItem {
    /// A heading with items below it and no link of its own.
    Section { section: String, items: Vec<NavItem> },
    /// A link with items nested below it.
    LinkWithChildren { path: String, title: Option<String>, children: Vec<NavItem> },
    /// A link with its title: the first entry counts.
    Titled(Vec<TitledEntry>),
    /// A bare path; one that ends with `/` names a directory.
    Path(String),
}

/// The navigation that the configuration spells out for a source.
pub type NavConfig = Vec<NavItem>;

/// The mathematical form of a [`NavItem`].
pub enum NavItemView {
    Section { section: Seq<char>, items: Seq<NavItemView> },
    LinkWithChildren { path: Seq<char>, title: Option<Seq<char>>, children: Seq<NavItemView> },
    Titled(Seq<(Seq<char>, Seq<char>)>),
    Path(Seq<char>),
}

/// The mathematical form of the entries of a titled link.
pub open spec fn titled_entries(v: Seq<TitledEntry>) -> Seq<(Seq<char>, Seq<char>)> {
    Seq::new(v.len(), |i: int| (v[i].title@, v[i].path@))
}

/// The mathematical form of a navigation item.
pub open spec fn nav_item_view(item: NavItem) -> NavItemView
    decreases item,
{
    match item {
        NavItem::Section { section, items } => NavItemView::Section {
            section: section@,
            items: Seq::new(
                items@.len(),
                |i: int|
                    if 0 <= i < items@.len() {
                        nav_item_view(items@[i])
                    } else {
                        arbitrary()
                    },
            ),
        },
        NavItem::LinkWithChildren { path, title, children } => NavItemView::LinkWithChildren {
            path: path@,
            title: opt_view(title),
            children: Seq::new(
                children@.len(),
                |i: int|
                    if 0 <= i < children@.len() {
                        nav_item_view(children@[i])
                    } else {
                        arbitrary()
                    },
            ),
        },
        NavItem::Titled(entries) => NavItemView::Titled(titled_entries(entries@)),
        NavItem::Path(p) => NavItemView::Path(p@),
    }
}

impl View for NavItem {
    type V = NavItemView;

    open spec fn view(&self) -> NavItemView {
        nav_item_view(*self)
    }
}

/// The mathematical form of a list of navigation items.
pub open spec fn nav_items(v: Seq<NavItem>) -> Seq<NavItemView> {
    Seq::new(v.len(), |i: int| v[i]@)
}

/// The mathematical form of a navigation that may be absent.
pub open spec fn opt_nav(o: Option<Vec<NavItem>>) -> Option<Seq<NavItemView>> {
    match o {
        Some(v) => Some(nav_items(v@)),
        None => None,
    }
}

/// The view of a section shows its items as [`nav_items`] does.
pub proof fn lemma_nav_section_view(item: NavItem)
    requires
        item is Section,
    ensures
        item@ == (NavItemView::Section { section: item->section@, items: nav_items(item->items@) }),
{
    assert(item@->Section_items =~= nav_items(item->items@));
}

/// The view of a link with children shows them as [`nav_items`] does.
pub proof fn lemma_nav_link_view(item: NavItem)
    requires
        item is LinkWithChildren,
    ensures
        item@ == (NavItemView::LinkWithChildren {
            path: item->path@,
            title: opt_view(item->title),
            children: nav_items(item->children@),
        }),
{
    assert(item@->LinkWithChildren_children =~= nav_items(item->children@));
}

/// A slug as a title: `-` and `_` become spaces, and the first character
/// is put in uppercase.
pub open spec fn slug_title(s: Seq<char>) -> Seq<char> {
    let spaced = replace_char(replace_char(s, '-', ' '), '_', ' ');
    if spaced.len() == 0 {
        spaced
    } else {
        uppercase_of(spaced[0]) + spaced.drop_first()
    }
}

/// Converts the slug of a file name to a title: `getting-started` becomes
/// `Getting started`.
pub fn title_from_slug(s: &str) -> (r: String)
    ensures
        r@ == slug_title(s@),
{
    let chars = chars_of(s);
    let spaced = replaced(&chars, '-', ' ');
    let spaced = replaced(&spaced, '_', ' ');
    if spaced.len() == 0 {
        String::new()
    } else {
        let mut out = to_upper(spaced[0]);
        let rest = slice_of(&spaced, 1, spaced.len());
        append_chars(&mut out, &rest);
        string_of(&out)
    }
}

impl NavItemView {
    /// Whether the item names a directory: a bare path that ends with `/`.
    pub open spec fn is_directory(self) -> bool {
        self matches NavItemView::Path(p) && p.len() > 0 && p.last() == '/'
    }

    /// The path of the page that the item links to: a bare path that is no
    /// directory, or the path of the first entry of a titled link.
    pub open spec fn page_path(self) -> Option<Seq<char>> {
        match self {
            NavItemView::Path(p) => if self.is_directory() {
                None
            } else {
                Some(p)
            },
            NavItemView::Titled(entries) => if entries.len() > 0 {
                Some(entries[0].1)
            } else {
                None
            },
            _ => None,
        }
    }

    /// The title that the item shows: for a bare path to a file, the stem of
    /// the file name as [`slug_title`] makes it; for a titled link, the
    /// title of its first entry.
    pub open spec fn title(self) -> Option<Seq<char>> {
        match self {
            NavItemView::Path(p) => if self.is_directory() || !names_file(p) {
                None
            } else {
                Some(slug_title(file_stem(p)))
            },
            NavItemView::Titled(entries) => if entries.len() > 0 {
                Some(entries[0].0)
            } else {
                None
            },
            _ => None,
        }
    }
}

impl NavItem {
    /// Whether the item names a directory.
    pub fn is_directory(&self) -> (r: bool)
        ensures
            r == self@.is_directory(),
    {
        match self {
            NavItem::Path(p) => {
                let chars = chars_of(p.as_str());
                chars.len() > 0 && chars[chars.len() - 1] == '/'
            },
            _ => false,
        }
    }

    /// The path of the page that the item links to.
    pub fn page_path(&self) -> (r: Option<String>)
        ensures
            opt_view(r) == self@.page_path(),
    {
        match self {
            NavItem::Path(p) => {
                if self.is_directory() {
                    None
                } else {
                    Some(p.clone())
                }
            },
            NavItem::Titled(entries) => {
                if entries.len() > 0 {
                    Some(entries[0].path.clone())
                } else {
                    None
                }
            },
            _ => None,
        }
    }

    /// The title that the item shows.
    pub fn title(&self) -> (r: Option<String>)
        ensures
            opt_view(r) == self@.title(),
    {
        match self {
            NavItem::Path(p) => {
                if self.is_directory() {
                    return None;
                }
                let chars = chars_of(p.as_str());
                if !path_names_file(&chars) {
                    None
                } else {
                    let stem = stem_of(&chars);
                    let stem = string_of(&stem);
                    Some(title_from_slug(stem.as_str()))
                }
            },
            NavItem::Titled(entries) => {
                if entries.len() > 0 {
                    Some(entries[0].title.clone())
                } else {
                    None
                }
            },
            _ => None,
        }
    }

    /// A copy of the item.
    pub fn copy(&self) -> (r: Self)
        ensures
            r@ == self@,
        decreases self,
    {
        match self {
            NavItem::Section { section, items } => {
                let r = NavItem::Section { section: section.clone(), items: copy_nav(items) };
                proof {
                    lemma_nav_section_view(*self);
                    lemma_nav_section_view(r);
                }
                r
            },
            NavItem::LinkWithChildren { path, title, children } => {
                let r = NavItem::LinkWithChildren {
                    path: path.clone(),
                    title: clone_opt(title),
                    children: copy_nav(children),
                };
                proof {
                    lemma_nav_link_view(*self);
                    lemma_nav_link_view(r);
                }
                r
            },
            NavItem::Titled(entries) => {
                let mut out: Vec<TitledEntry> = Vec::new();
                let mut i: usize = 0;
                while i < entries.len()
                    invariant
                        i <= entries.len(),
                        out@.len() == i,
                        forall|j: int|
                            0 <= j < i ==> (#[trigger] out@[j]).title@ == entries@[j].title@
                                && out@[j].path@ == entries@[j].path@,
                    decreases entries.len() - i,
                {
                    out.push(
                        TitledEntry {
                            title: entries[i].title.clone(),
                            path: entries[i].path.clone(),
                        },
                    );
                    i += 1;
                }
                assert(titled_entries(out@) =~= titled_entries(entries@));
                NavItem::Titled(out)
            },
            NavItem::Path(p) => NavItem::Path(p.clone()),
        }
    }
}

/// A copy of a list of navigation items.
pub fn copy_nav(items: &Vec<NavItem>) -> (r: Vec<NavItem>)
    ensures
        nav_items(r@) == nav_items(items@),
    decreases items,
{
    let mut r: Vec<NavItem> = Vec::new();
    let mut i: usize = 0;
    while i < items.len()
        invariant
            i <= items.len(),
            r@.len() == i,
            forall|j: int| 0 <= j < i ==> (#[trigger] r@[j])@ == items@[j]@,
        decreases items.len() - i,
    {
        let c = items[i].copy();
        r.push(c);
        i += 1;
    }
    assert(nav_items(r@) =~= nav_items(items@));
    r
}

/// A copy of a navigation that may be absent.
pub fn copy_opt_nav(nav: &Option<Vec<NavItem>>) -> (r: Option<Vec<NavItem>>)
    ensures
        opt_nav(r) == opt_nav(*nav),
{
    match nav {
        Some(v) => Some(copy_nav(v)),
        None => None,
    }
}

// ---------------------------------------------------------------------------
// The site and its sources
// ---------------------------------------------------------------------------

/// What the configuration says of the site as a whole.
pub struct SiteConfig {
    pub name: String,
    pub url: Option<String>,
    /// The directory that the site is written to.
    pub output: String,
    /// The path of the favicon, relative to the configuration file.
    pub favicon: Option<String>,
    /// The URL of the repository, for links to the source of a page.
    pub repository: Option<String>,
    /// Where the documents lie in the repository.
    pub edit_path: Option<String>,
}

/// The mathematical form of a [`SiteConfig`].
pub struct SiteConfigView {
    pub name: Seq<char>,
    pub url: Option<Seq<char>>,
    pub output: Seq<char>,
    pub favicon: Option<Seq<char>>,
    pub repository: Option<Seq<char>>,
    pub edit_path: Option<Seq<char>>,
}

impl View for SiteConfig {
    type V = SiteConfigView;

    open spec fn view(&self) -> SiteConfigView {
        SiteConfigView {
            name: self.name@,
            url: opt_view(self.url),
            output: self.output@,
            favicon: opt_view(self.favicon),
            repository: opt_view(self.repository),
            edit_path: opt_view(self.edit_path),
        }
    }
}

impl SiteConfig {
    /// A copy of the configuration.
    pub fn copy(&self) -> (r: Self)
        ensures
            r@ == self@,
    {
        SiteConfig {
            name: self.name.clone(),
            url: clone_opt(&self.url),
            output: self.output.clone(),
            favicon: clone_opt(&self.favicon),
            repository: clone_opt(&self.repository),
            edit_path: clone_opt(&self.edit_path),
        }
    }
}

/// The output directory of a site that names none: `_site`.
pub fn default_output() -> (r: String)
    ensures
        r@ == seq!['_', 's', 'i', 't', 'e'],
{
    let v: Vec<char> = vec!['_', 's', 'i', 't', 'e'];
    assert(v@ =~= seq!['_', 's', 'i', 't', 'e']);
    string_of(&v)
}

/// The overrides that a child may make to the site.
pub struct SiteConfigOverrides {
    pub repository: Option<String>,
    pub edit_path: Option<String>,
}

/// The theme of a site.
pub struct ThemeConfig {
    /// Where the theme lies.
    pub location: Location,
    /// Settings that templates read under `theme`.
    pub settings: serde_json::Value,
}

impl ThemeConfig {
    /// A copy of the theme.
    pub fn copy(&self) -> (r: Self)
        ensures
            r.location@ == self.location@,
            r.settings == self.settings,
    {
        ThemeConfig { location: self.location.copy(), settings: clone_json(&self.settings) }
    }
}

/// A source of the site.
pub struct SourceConfig {
    /// The name, by which the source is known throughout.
    pub name: String,
    /// The title of its tab; the name in title case where absent.
    pub title: Option<String>,
    /// The URL prefix of its pages; `/` and the name where absent.
    pub url_prefix: Option<String>,
    /// The navigation, where the configuration spells it out.
    pub nav: Option<Vec<NavItem>>,
    /// Where the content lies.
    pub location: SourceLocation,
}

/// The mathematical form of a [`SourceConfig`].
pub struct SourceConfigView {
    pub name: Seq<char>,
    pub title: Option<Seq<char>>,
    pub url_prefix: Option<Seq<char>>,
    pub nav: Option<Seq<NavItemView>>,
    pub location: SourceLocationView,
}

impl View for SourceConfig {
    type V = SourceConfigView;

    open spec fn view(&self) -> SourceConfigView {
        SourceConfigView {
            name: self.name@,
            title: opt_view(self.title),
            url_prefix: opt_view(self.url_prefix),
            nav: opt_nav(self.nav),
            location: self.location@,
        }
    }
}

impl SourceConfigView {
    /// The URL prefix of the pages of the source.
    pub open spec fn prefix(self) -> Seq<char> {
        match self.url_prefix {
            Some(p) => p,
            None => seq!['/'] + self.name,
        }
    }
}

impl SourceConfig {
    /// A copy of the source.
    pub fn copy(&self) -> (r: Self)
        ensures
            r@ == self@,
    {
        SourceConfig {
            name: self.name.clone(),
            title: clone_opt(&self.title),
            url_prefix: clone_opt(&self.url_prefix),
            nav: copy_opt_nav(&self.nav),
            location: self.location.copy(),
        }
    }
}

/// The mathematical form of a list of sources.
pub open spec fn source_views(v: Seq<SourceConfig>) -> Seq<SourceConfigView> {
    Seq::new(v.len(), |i: int| v[i]@)
}

/// How markdown is read.
pub struct MarkdownConfig {
    /// The names of the extensions that are switched on.
    pub extensions: Vec<String>,
}

/// The extensions that are on where the configuration names none.
pub open spec fn default_extension_names() -> Seq<Seq<char>> {
    seq![
        "definition_lists"@,
        "footnotes"@,
        "gfm"@,
        "heading_attributes"@,
        "strikethrough"@,
        "tables"@,
        "tasklists"@,
    ]
}

/// The markdown extensions of a site that names none.
pub fn default_markdown_extensions() -> (r: Vec<String>)
    ensures
        crate::text::texts(r@) == default_extension_names(),
{
    let mut r: Vec<String> = Vec::new();
    r.push(owned("definition_lists"));
    r.push(owned("footnotes"));
    r.push(owned("gfm"));
    r.push(owned("heading_attributes"));
    r.push(owned("strikethrough"));
    r.push(owned("tables"));
    r.push(owned("tasklists"));
    assert(crate::text::texts(r@) =~= default_extension_names());
    r
}

impl Default for MarkdownConfig {
    /// The configuration with the default extensions.
    fn default() -> (r: Self)
        ensures
            crate::text::texts(r.extensions@) == default_extension_names(),
    {
        MarkdownConfig { extensions: default_markdown_extensions() }
    }
}

impl MarkdownConfig {
    /// A copy of the configuration.
    pub fn copy(&self) -> (r: Self)
        ensures
            crate::text::texts(r.extensions@) == crate::text::texts(self.extensions@),
    {
        let mut out: Vec<String> = Vec::new();
        let mut i: usize = 0;
        while i < self.extensions.len()
            invariant
                i <= self.extensions@.len(),
                out@.len() == i,
                forall|j: int| 0 <= j < i ==> (#[trigger] out@[j])@ == self.extensions@[j]@,
            decreases self.extensions@.len() - i,
        {
            out.push(self.extensions[i].clone());
            i += 1;
        }
        assert(crate::text::texts(out@) =~= crate::text::texts(self.extensions@));
        MarkdownConfig { extensions: out }
    }
}

/// How changed files are watched for.
#[derive(Clone, Copy)]
pub struct WatchConfig {
    /// Whether the files are polled; else the system reports changes.
    pub poll: bool,
    /// The time between two polls, in milliseconds.
    pub poll_interval_ms: u64,
    /// The time over which changes are gathered into one batch, in
    /// milliseconds.
    pub debounce_ms: u64,
}

/// Whether pages reload themselves where the configuration does not say.
pub fn default_live_reload() -> (r: bool)
    ensures
        r,
{
    true
}

/// The time between two polls where the configuration names none.
pub fn default_poll_interval_ms() -> (r: u64)
    ensures
        r == 500,
{
    500
}

/// The debounce time where the configuration names none.
pub fn default_debounce_ms() -> (r: u64)
    ensures
        r == 100,
{
    100
}

impl Default for WatchConfig {
    /// Watching by the reports of the system, with the default times.
    fn default() -> (r: Self)
        ensures
            !r.poll,
            r.poll_interval_ms == 500,
            r.debounce_ms == 100,
    {
        WatchConfig {
            poll: false,
            poll_interval_ms: default_poll_interval_ms(),
            debounce_ms: default_debounce_ms(),
        }
    }
}

/// Settings for development.
pub struct DevConfig {
    /// A parent location that replaces the configured one.
    pub parent: Option<Location>,
    pub watch: WatchConfig,
    /// Whether pages reload themselves when the site is rebuilt.
    pub live_reload: bool,
}

/// The mathematical form of a location that may be absent.
pub open spec fn opt_location(o: Option<Location>) -> Option<LocationView> {
    match o {
        Some(l) => Some(l@),
        None => None,
    }
}

impl Default for DevConfig {
    /// The settings of a site that names none.
    fn default() -> (r: Self)
        ensures
            (r.parent is None),
            r.watch == (WatchConfig { poll: false, poll_interval_ms: 500, debounce_ms: 100 }),
            r.live_reload,
    {
        DevConfig { parent: None, watch: WatchConfig::default(), live_reload: true }
    }
}

impl DevConfig {
    /// A copy of the settings.
    pub fn copy(&self) -> (r: Self)
        ensures
            opt_location(r.parent) == opt_location(self.parent),
            r.watch == self.watch,
            r.live_reload == self.live_reload,
    {
        DevConfig {
            parent: match &self.parent {
                Some(l) => Some(l.copy()),
                None => None,
            },
            watch: self.watch,
            live_reload: self.live_reload,
        }
    }
}

/// The configuration of a whole site.
pub struct RootConfig {
    pub site: SiteConfig,
    pub sources: Vec<SourceConfig>,
    pub theme: ThemeConfig,
    pub markdown: MarkdownConfig,
    pub dev: DevConfig,
}

impl RootConfig {
    /// A copy of the configuration.
    pub fn copy(&self) -> (r: Self)
        ensures
            r.site@ == self.site@,
            source_views(r.sources@) == source_views(self.sources@),
            r.theme.location@ == self.theme.location@,
            r.theme.settings == self.theme.settings,
            crate::text::texts(r.markdown.extensions@) == crate::text::texts(
                self.markdown.extensions@,
            ),
            opt_location(r.dev.parent) == opt_location(self.dev.parent),
            r.dev.watch == self.dev.watch,
            r.dev.live_reload == self.dev.live_reload,
    {
        let mut sources: Vec<SourceConfig> = Vec::new();
        let mut i: usize = 0;
        while i < self.sources.len()
            invariant
                i <= self.sources@.len(),
                sources@.len() == i,
                forall|j: int| 0 <= j < i ==> (#[trigger] sources@[j])@ == self.sources@[j]@,
            decreases self.sources@.len() - i,
        {
            sources.push(self.sources[i].copy());
            i += 1;
        }
        assert(source_views(sources@) =~= source_views(self.sources@));
        RootConfig {
            site: self.site.copy(),
            sources,
            theme: self.theme.copy(),
            markdown: self.markdown.copy(),
            dev: self.dev.copy(),
        }
    }
}

/// What a child may override of the configuration of its parent.
pub struct RootConfigOverrides {
    pub site: Option<SiteConfigOverrides>,
    /// The navigation of the child's own source.
    pub nav: Option<Vec<NavItem>>,
    pub theme: Option<ThemeConfig>,
}

/// The configuration of a repository that supplies one source of a site
/// that is configured elsewhere.
pub struct ChildConfig {
    /// The name of the source, in the parent, that this repository is.
    pub name: String,
    /// Where the configuration of the parent lies.
    pub parent: Location,
    /// Where the content lies.
    pub content: Location,
    pub overrides: Option<RootConfigOverrides>,
    pub dev: Option<DevConfig>,
}

/// A configuration file: that of a site, or that of a child.
pub enum Config {
    Root(RootConfig),
    Child(ChildConfig),
}

impl Config {
    /// The configuration of the site, where this is one.
    pub fn as_root(&self) -> (r: Option<&RootConfig>)
        ensures
            match r {
                Some(root) => *self == Config::Root(*root),
                None => self is Child,
            },
    {
        match self {
            Config::Root(root) => Some(root),
            Config::Child(_) => None,
        }
    }

    /// The configuration of the child, where this is one.
    pub fn as_child(&self) -> (r: Option<&ChildConfig>)
        ensures
            match r {
                Some(child) => *self == Config::Child(*child),
                None => self is Root,
            },
    {
        match self {
            Config::Root(_) => None,
            Config::Child(child) => Some(child),
        }
    }
}

/// Which of the two a configuration file is.
#[derive(Clone, Copy, PartialEq, Eq, Structural)]
pub enum ConfigKind {
    /// The configuration of a site.
    Root,
    /// The configuration of a child.
    Child,
}

/// What is said for a file that is both.
pub open spec fn both_kinds() -> Seq<char> {
    "config cannot have both 'site' (root config) and 'parent' (child config) fields"@
}

/// What is said for a file that is neither.
pub open spec fn neither_kind() -> Seq<char> {
    "invalid config: must have either 'site' field (for root config) or 'parent' field "@
        + "(for child config)"@
}

/// Tells which of the two a configuration file is, by the fields that it
/// has: the configuration of a site has a `site` and no `parent`, that of a
/// child a `parent` and no `site`. A file with both, or with neither, is
/// no configuration.
pub fn config_kind(has_site: bool, has_parent: bool) -> (r: Result<ConfigKind, String>)
    ensures
        match r {
            Ok(ConfigKind::Root) => has_site && !has_parent,
            Ok(ConfigKind::Child) => !has_site && has_parent,
            Err(m) => has_site == has_parent && m@ == if has_site {
                both_kinds()
            } else {
                neither_kind()
            },
        },
{
    if has_site && has_parent {
        Err(
            owned(
                "config cannot have both 'site' (root config) and 'parent' (child config) fields",
            ),
        )
    } else if has_site {
        Ok(ConfigKind::Root)
    } else if has_parent {
        Ok(ConfigKind::Child)
    } else {
        let mut out = chars_of(
            "invalid config: must have either 'site' field (for root config) or 'parent' field ",
        );
        crate::text::append_str(&mut out, "(for child config)");
        Err(string_of(&out))
    }
}

/// Why a configuration could not be used.
pub enum ConfigError {
    /// The configuration says something that cannot be.
    Validation(String),
    /// The repository of the parent could not be fetched.
    GitFetch(String),
    /// The configuration of the parent could not be read.
    ReadParent(String),
    /// The parent is itself a child.
    ParentNotRoot,
    /// The parent has no source of the child's name.
    SourceNotFound(String),
}

impl ConfigError {
    /// The error in words.
    pub fn message(&self) -> (r: String)
        ensures
            r@ == self.text(),
    {
        match self {
            ConfigError::Validation(m) => m.clone(),
            ConfigError::GitFetch(m) => {
                let mut out = chars_of("failed to fetch parent repository: ");
                crate::text::append_str(&mut out, m.as_str());
                string_of(&out)
            },
            ConfigError::ReadParent(m) => {
                let mut out = chars_of("failed to read parent config: ");
                crate::text::append_str(&mut out, m.as_str());
                string_of(&out)
            },
            ConfigError::ParentNotRoot => owned("parent config is not a root config"),
            ConfigError::SourceNotFound(name) => {
                let mut out = chars_of("source '");
                crate::text::append_str(&mut out, name.as_str());
                crate::text::append_str(&mut out, "' not found in parent config");
                string_of(&out)
            },
        }
    }

    /// The error in words.
    pub open spec fn text(&self) -> Seq<char> {
        match self {
            ConfigError::Validation(m) => m@,
            ConfigError::GitFetch(m) => "failed to fetch parent repository: "@ + m@,
            ConfigError::ReadParent(m) => "failed to read parent config: "@ + m@,
            ConfigError::ParentNotRoot => "parent config is not a root config"@,
            ConfigError::SourceNotFound(name) => "source '"@ + name@
                + "' not found in parent config"@,
        }
    }
}

/// What is said for a configuration of a site that lacks its sources.
pub open spec fn sources_required() -> Seq<char> {
    "invalid config: 'sources' list is required\n\nExample:\n  sources:\n    - name: docs\n"@
        + "      local:\n        path: ./content"@
}

/// What is said for a configuration of a site that lacks a name.
pub open spec fn name_required() -> Seq<char> {
    "invalid config: missing required 'name' field (check 'site.name' and each source's 'name')"@
}

/// What is said for a configuration of a site that lacks its theme.
pub open spec fn theme_required() -> Seq<char> {
    "invalid config: 'theme' is required\n\nExample:\n  theme:\n    location:\n      path: ./themes/default"@
}

/// What is said for a source without a location.
pub open spec fn location_required() -> Seq<char> {
    "invalid config: each source must have either 'local: { path: ... }' for inline content "@
        + "or 'location: { path/git: ... }' for external sources"@
}

/// What is said to the user for the message with which the reading of the
/// configuration of a site failed: for the failures that are common, what
/// has to be there; for any other, the message itself.
pub open spec fn root_error_text(message: Seq<char>) -> Seq<char> {
    if crate::text::contains_sub(message, "missing field `sources`"@) {
        sources_required()
    } else if crate::text::contains_sub(message, "missing field `name`"@) {
        name_required()
    } else if crate::text::contains_sub(message, "missing field `theme`"@) {
        theme_required()
    } else if crate::text::contains_sub(message, "location must have either"@) {
        location_required()
    } else {
        "invalid config: "@ + message
    }
}

/// Puts the message of a failed reading of a configuration in words that
/// help; see [`root_error_text`].
pub fn format_root_error(message: &str) -> (r: String)
    ensures
        r@ == root_error_text(message@),
{
    if crate::text::text_contains(message, "missing field `sources`") {
        let mut out = chars_of(
            "invalid config: 'sources' list is required\n\nExample:\n  sources:\n    - name: docs\n",
        );
        crate::text::append_str(&mut out, "      local:\n        path: ./content");
        string_of(&out)
    } else if crate::text::text_contains(message, "missing field `name`") {
        owned(
            "invalid config: missing required 'name' field (check 'site.name' and each source's 'name')",
        )
    } else if crate::text::text_contains(message, "missing field `theme`") {
        owned(
            "invalid config: 'theme' is required\n\nExample:\n  theme:\n    location:\n      path: ./themes/default",
        )
    } else if crate::text::text_contains(message, "location must have either") {
        let mut out = chars_of(
            "invalid config: each source must have either 'local: { path: ... }' for inline content ",
        );
        crate::text::append_str(&mut out, "or 'location: { path/git: ... }' for external sources");
        string_of(&out)
    } else {
        let mut out = chars_of("invalid config: ");
        crate::text::append_str(&mut out, message);
        string_of(&out)
    }
}

/// The configuration that a child is built with, and where its parent lies.
pub struct ResolvedChildConfig {
    /// The configuration of the parent, with the child's source pointing at
    /// the content of the child.
    pub config: RootConfig,
    /// The directory of the parent, where the theme is looked for.
    pub parent_path: String,
}

// ---------------------------------------------------------------------------
// Composition
// ---------------------------------------------------------------------------

/// The first source named `name`; the number of sources where none is.
pub open spec fn source_named(sources: Seq<SourceConfigView>, name: Seq<char>, from: int) -> int
    decreases sources.len() - from,
{
    if from < 0 || from >= sources.len() {
        sources.len() as int
    } else if sources[from].name == name {
        from
    } else {
        source_named(sources, name, from + 1)
    }
}

/// The source of the child in the composed configuration: it lies at
/// `content`, and has the navigation of the child where the child gives
/// one.
pub open spec fn child_source(
    source: SourceConfigView,
    content: Seq<char>,
    nav: Option<Seq<NavItemView>>,
) -> SourceConfigView {
    SourceConfigView {
        name: source.name,
        title: source.title,
        url_prefix: source.url_prefix,
        nav: if nav is Some {
            nav
        } else {
            source.nav
        },
        location: SourceLocationView::Local { local: LocationView::Path { path: content } },
    }
}

/// Another source in the composed configuration: a relative path lies
/// below the directory of the parent.
pub open spec fn sibling_source(source: SourceConfigView, parent_path: Seq<char>) -> SourceConfigView {
    SourceConfigView {
        name: source.name,
        title: source.title,
        url_prefix: source.url_prefix,
        nav: source.nav,
        location: source.location.rebased(parent_path),
    }
}

/// The sources of the composed configuration.
pub open spec fn composed_sources(
    sources: Seq<SourceConfigView>,
    child_index: int,
    content: Seq<char>,
    nav: Option<Seq<NavItemView>>,
    parent_path: Seq<char>,
) -> Seq<SourceConfigView> {
    Seq::new(
        sources.len(),
        |i: int|
            if i == child_index {
                child_source(sources[i], content, nav)
            } else {
                sibling_source(sources[i], parent_path)
            },
    )
}

/// Composition keeps the sources, their names and their order.
pub proof fn lemma_composed_names(
    sources: Seq<SourceConfigView>,
    child_index: int,
    content: Seq<char>,
    nav: Option<Seq<NavItemView>>,
    parent_path: Seq<char>,
)
    ensures
        composed_sources(sources, child_index, content, nav, parent_path).len() == sources.len(),
        forall|i: int|
            0 <= i < sources.len() ==> (#[trigger] composed_sources(
                sources,
                child_index,
                content,
                nav,
                parent_path,
            )[i]).name == sources[i].name,
{
}

/// A value that an override replaces where the override is present.
pub open spec fn overridden(base: Option<Seq<char>>, by: Option<Seq<char>>) -> Option<Seq<char>> {
    if by is Some {
        by
    } else {
        base
    }
}

/// The text before the URL in the error for content that lies in git.
pub open spec fn content_not_path() -> Seq<char> {
    "child config 'content' must be a path, not git: "@
}

impl ChildConfig {
    /// Where the configuration of the parent is looked for: the location
    /// that the development settings give, else the configured one.
    pub fn parent_location(&self) -> (r: &Location)
        ensures
            *r == match self.dev {
                Some(dev) => match dev.parent {
                    Some(l) => l,
                    None => self.parent,
                },
                None => self.parent,
            },
    {
        match &self.dev {
            Some(dev) => match &dev.parent {
                Some(l) => l,
                None => &self.parent,
            },
            None => &self.parent,
        }
    }

    /// The navigation that the child gives its source.
    pub open spec fn nav_override(&self) -> Option<Seq<NavItemView>> {
        match self.overrides {
            Some(o) => opt_nav(o.nav),
            None => None,
        }
    }

    /// The repository URL that the child gives the site.
    pub open spec fn repository_override(&self) -> Option<Seq<char>> {
        match self.overrides {
            Some(o) => match o.site {
                Some(site) => opt_view(site.repository),
                None => None,
            },
            None => None,
        }
    }

    /// The edit path that the child gives the site.
    pub open spec fn edit_path_override(&self) -> Option<Seq<char>> {
        match self.overrides {
            Some(o) => match o.site {
                Some(site) => opt_view(site.edit_path),
                None => None,
            },
            None => None,
        }
    }

    /// Composes the configuration of the child with that of its parent,
    /// which lies in the directory `parent_path`.
    ///
    /// The parent must be the configuration of a site and have a source of
    /// the child's name, and the content of the child must be a path. The
    /// result is the configuration of the parent in which the first source
    /// of that name lies at the content of the child, resolved against
    /// `child_base_path`, every other source with a relative path lies
    /// below `parent_path`, and the overrides of the child are in force.
    pub fn compose(&self, parent: Config, parent_path: &str, child_base_path: &str) -> (r: Result<
        ResolvedChildConfig,
        ConfigError,
    >)
        ensures
            parent is Child ==> r == Err::<ResolvedChildConfig, ConfigError>(
                ConfigError::ParentNotRoot,
            ),
            parent matches Config::Root(root) ==> ({
                let sources = source_views(root.sources@);
                let index = source_named(sources, self.name@, 0);
                if index >= sources.len() {
                    r matches Err(ConfigError::SourceNotFound(name)) && name@ == self.name@
                } else if self.content@ is Git {
                    r matches Err(ConfigError::Validation(m)) && m@ == content_not_path()
                        + self.content@->git.written_url()
                } else {
                    &&& r matches Ok(done)
                    &&& done.parent_path@ == parent_path@
                    &&& source_views(done.config.sources@) == composed_sources(
                        sources,
                        index,
                        join(child_base_path@, self.content@->path),
                        self.nav_override(),
                        parent_path@,
                    )
                    &&& done.config.site@ == (SiteConfigView {
                        repository: overridden(root.site@.repository, self.repository_override()),
                        edit_path: overridden(root.site@.edit_path, self.edit_path_override()),
                        ..root.site@
                    })
                    &&& done.config.theme.location@ == match self.overrides {
                        Some(o) => match o.theme {
                            Some(t) => t.location@,
                            None => root.theme.location@,
                        },
                        None => root.theme.location@,
                    }
                    &&& done.config.theme.settings == match self.overrides {
                        Some(o) => match o.theme {
                            Some(t) => t.settings,
                            None => root.theme.settings,
                        },
                        None => root.theme.settings,
                    }
                    &&& done.config.markdown == root.markdown
                    &&& done.config.dev == root.dev
                }
            }),
    {
        let root = match parent {
            Config::Root(root) => root,
            Config::Child(_) => {
                return Err(ConfigError::ParentNotRoot);
            },
        };
        let ghost sources = source_views(root.sources@);
        // the source of the child
        let mut index: usize = 0;
        while index < root.sources.len() && !same_text(
            root.sources[index].name.as_str(),
            self.name.as_str(),
        )
            invariant
                index <= root.sources@.len(),
                sources == source_views(root.sources@),
                source_named(sources, self.name@, 0) == source_named(
                    sources,
                    self.name@,
                    index as int,
                ),
            decreases root.sources@.len() - index,
        {
            index += 1;
        }
        if index >= root.sources.len() {
            return Err(ConfigError::SourceNotFound(self.name.clone()));
        }
        let content = match self.content.require_path() {
            Ok(path) => join_paths(child_base_path, path.as_str()),
            Err(url) => {
                let mut m = chars_of("child config 'content' must be a path, not git: ");
                crate::text::append_str(&mut m, url.as_str());
                return Err(ConfigError::Validation(string_of(&m)));
            },
        };
        let ghost target = composed_sources(
            sources,
            index as int,
            content@,
            self.nav_override(),
            parent_path@,
        );
        let mut composed: Vec<SourceConfig> = Vec::new();
        let mut i: usize = 0;
        while i < root.sources.len()
            invariant
                i <= root.sources@.len(),
                index < root.sources@.len(),
                sources == source_views(root.sources@),
                target == composed_sources(
                    sources,
                    index as int,
                    content@,
                    self.nav_override(),
                    parent_path@,
                ),
                composed@.len() == i,
                forall|j: int| 0 <= j < i ==> (#[trigger] composed@[j])@ == target[j],
            decreases root.sources@.len() - i,
        {
            let source = &root.sources[i];
            assert(sources[i as int] == source@);
            let next = if i == index {
                let nav = match &self.overrides {
                    Some(o) => match &o.nav {
                        Some(nav) => Some(copy_nav(nav)),
                        None => copy_opt_nav(&source.nav),
                    },
                    None => copy_opt_nav(&source.nav),
                };
                SourceConfig {
                    name: source.name.clone(),
                    title: clone_opt(&source.title),
                    url_prefix: clone_opt(&source.url_prefix),
                    nav,
                    location: SourceLocation::Local {
                        local: Location::Path { path: content.clone() },
                    },
                }
            } else {
                SourceConfig {
                    name: source.name.clone(),
                    title: clone_opt(&source.title),
                    url_prefix: clone_opt(&source.url_prefix),
                    nav: copy_opt_nav(&source.nav),
                    location: source.location.rebase(parent_path),
                }
            };
            composed.push(next);
            i += 1;
        }
        assert(source_views(composed@) =~= target);
        let mut site = root.site;
        let mut theme = root.theme;
        match &self.overrides {
            Some(o) => {
                match &o.site {
                    Some(s) => {
                        match &s.repository {
                            Some(repository) => {
                                site.repository = Some(repository.clone());
                            },
                            None => {},
                        }
                        match &s.edit_path {
                            Some(edit_path) => {
                                site.edit_path = Some(edit_path.clone());
                            },
                            None => {},
                        }
                    },
                    None => {},
                }
                match &o.theme {
                    Some(t) => {
                        theme = t.copy();
                    },
                    None => {},
                }
            },
            None => {},
        }
        Ok(
            ResolvedChildConfig {
                config: RootConfig {
                    site,
                    sources: composed,
                    theme,
                    markdown: root.markdown,
                    dev: root.dev,
                },
                parent_path: owned(parent_path),
            },
        )
    }
}

} // verus!
