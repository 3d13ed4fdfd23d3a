//! The values that page templates are rendered with.
//!
//! The template engine itself stands outside the library: it is handed these
//! values and gives text back.

use vstd::prelude::*;

verus! {

/// A link in the navigation, with the entries nested below it.
pub struct NavLink {
    pub title: String,
    pub url: String,
    pub children: Vec<NavSection>,
}

/// An entry of the navigation of one source.
pub enum NavSection {
    /// A heading with entries below it and no link of its own.
    Section { section: String, items: Vec<NavSection> },
    /// A link to a page.
    Link(NavLink),
}

/// The mathematical form of a navigation entry.
pub enum NavNode {
    Section { title: Seq<char>, items: Seq<NavNode> },
    Link { title: Seq<char>, url: Seq<char>, children: Seq<NavNode> },
}

/// The mathematical form of a link.
pub open spec fn link_node(link: NavLink) -> NavNode
    decreases link,
{
    NavNode::Link {
        title: link.title@,
        url: link.url@,
        children: Seq::new(
            link.children@.len(),
            |i: int|
                if 0 <= i < link.children@.len() {
                    nav_node(link.children@[i])
                } else {
                    arbitrary()
                },
        ),
    }
}

/// The mathematical form of a navigation entry.
pub open spec fn nav_node(entry: NavSection) -> NavNode
    decreases entry,
{
    match entry {
        NavSection::Section { section, items } => NavNode::Section {
            title: section@,
            items: Seq::new(
                items@.len(),
                |i: int|
                    if 0 <= i < items@.len() {
                        nav_node(items@[i])
                    } else {
                        arbitrary()
                    },
            ),
        },
        NavSection::Link(link) => link_node(link),
    }
}

impl View for NavLink {
    type V = NavNode;

    open spec fn view(&self) -> NavNode {
        link_node(*self)
    }
}

impl View for NavSection {
    type V = NavNode;

    open spec fn view(&self) -> NavNode {
        nav_node(*self)
    }
}

/// The mathematical form of a list of navigation entries.
pub open spec fn nav_nodes(v: Seq<NavSection>) -> Seq<NavNode> {
    Seq::new(v.len(), |i: int| v[i]@)
}

/// The nodes of a list grow with the list.
pub proof fn lemma_nav_nodes_push(v: Seq<NavSection>, x: NavSection)
    ensures
        nav_nodes(v.push(x)) == nav_nodes(v).push(x@),
{
    assert(nav_nodes(v.push(x)) =~= nav_nodes(v).push(x@));
}

/// The view of a link shows its children as [`nav_nodes`] does.
pub proof fn lemma_link_view(link: NavLink)
    ensures
        link@ == (NavNode::Link {
            title: link.title@,
            url: link.url@,
            children: nav_nodes(link.children@),
        }),
{
    assert(link@->Link_children =~= nav_nodes(link.children@));
}

/// The view of a section shows its items as [`nav_nodes`] does.
pub proof fn lemma_section_view(s: NavSection)
    requires
        s is Section,
    ensures
        s@ == (NavNode::Section { title: s->section@, items: nav_nodes(s->items@) }),
{
    assert(s@->Section_items =~= nav_nodes(s->items@));
}

/// A copy of a string that may be absent.
pub fn clone_opt(o: &Option<String>) -> (r: Option<String>)
    ensures
        r.is_some() == o.is_some(),
        r matches Some(s) ==> s@ == o->0@,
{
    match o {
        Some(s) => Some(s.clone()),
        None => None,
    }
}

/// A copy of a navigation entry.
pub fn clone_nav_section(s: &NavSection) -> (r: NavSection)
    ensures
        r@ == s@,
    decreases s,
{
    match s {
        NavSection::Section { section, items } => {
            let copy = clone_nav(items);
            let r = NavSection::Section { section: section.clone(), items: copy };
            proof {
                lemma_section_view(*s);
                lemma_section_view(r);
            }
            r
        },
        NavSection::Link(link) => {
            let copy = clone_nav(&link.children);
            let r = NavLink { title: link.title.clone(), url: link.url.clone(), children: copy };
            proof {
                lemma_link_view(*link);
                lemma_link_view(r);
            }
            NavSection::Link(r)
        },
    }
}

/// A copy of a list of navigation entries.
pub fn clone_nav(items: &Vec<NavSection>) -> (r: Vec<NavSection>)
    ensures
        nav_nodes(r@) == nav_nodes(items@),
    decreases items,
{
    let mut r: Vec<NavSection> = Vec::new();
    let mut i: usize = 0;
    while i < items.len()
        invariant
            i <= items.len(),
            r@.len() == i,
            forall|j: int| 0 <= j < i ==> (#[trigger] r@[j])@ == items@[j]@,
        decreases items.len() - i,
    {
        let c = clone_nav_section(&items[i]);
        r.push(c);
        i += 1;
    }
    assert(nav_nodes(r@) =~= nav_nodes(items@));
    r
}

/// A heading of a page, for its table of contents.
pub struct TocEntry {
    /// The text of the heading.
    pub text: String,
    /// The id that links to the heading.
    pub id: String,
    /// The level of the heading, 1 to 6.
    pub level: u8,
}

/// A source as a tab of the top-level navigation.
pub struct SourceTab {
    /// The name shown: the title of the source, or its name in title case.
    pub name: String,
    /// The name of the source in the configuration.
    pub source_id: String,
    /// The URL of the root page of the source.
    pub url: String,
    /// Whether the page being rendered belongs to this source.
    pub is_current: bool,
    /// Whether the source is served at the root of the site.
    pub is_top_level: bool,
}

/// What the site says of itself.
pub struct SiteContext {
    pub name: String,
    pub url: Option<String>,
    pub favicon: Option<String>,
}

/// The flags of the tool itself that templates can read.
pub struct UndoxContext {
    /// Whether the site is built for the development server.
    pub dev: bool,
    /// Whether pages reload themselves when the site is rebuilt.
    pub live_reload: bool,
    /// The version of the tool.
    pub version: String,
}

impl UndoxContext {
    /// The flags for a build. Live reload is only ever on in development
    /// mode.
    pub fn new(dev_mode: bool, live_reload: bool, version: String) -> (r: Self)
        ensures
            r.dev == dev_mode,
            r.live_reload == (dev_mode && live_reload),
            r.version@ == version@,
    {
        UndoxContext { dev: dev_mode, live_reload: dev_mode && live_reload, version }
    }
}

impl SiteContext {
    /// A copy of the context.
    pub fn copy(&self) -> (r: Self)
        ensures
            r.name@ == self.name@,
            crate::config::opt_view(r.url) == crate::config::opt_view(self.url),
            crate::config::opt_view(r.favicon) == crate::config::opt_view(self.favicon),
    {
        SiteContext {
            name: self.name.clone(),
            url: clone_opt(&self.url),
            favicon: clone_opt(&self.favicon),
        }
    }
}

impl UndoxContext {
    /// A copy of the flags.
    pub fn copy(&self) -> (r: Self)
        ensures
            r.dev == self.dev,
            r.live_reload == self.live_reload,
            r.version@ == self.version@,
    {
        UndoxContext { dev: self.dev, live_reload: self.live_reload, version: self.version.clone() }
    }
}

/// The mathematical form of a [`TocEntry`].
pub struct TocView {
    pub text: Seq<char>,
    pub id: Seq<char>,
    pub level: u8,
}

impl View for TocEntry {
    type V = TocView;

    open spec fn view(&self) -> TocView {
        TocView { text: self.text@, id: self.id@, level: self.level }
    }
}

/// The mathematical form of a table of contents.
pub open spec fn toc_views(v: Seq<TocEntry>) -> Seq<TocView> {
    Seq::new(v.len(), |i: int| v[i]@)
}

/// A copy of a table of contents.
pub fn clone_toc(toc: &Vec<TocEntry>) -> (r: Vec<TocEntry>)
    ensures
        toc_views(r@) == toc_views(toc@),
{
    let mut out: Vec<TocEntry> = Vec::new();
    let mut i: usize = 0;
    while i < toc.len()
        invariant
            i <= toc@.len(),
            out@.len() == i,
            forall|j: int| 0 <= j < i ==> (#[trigger] out@[j])@ == toc@[j]@,
        decreases toc@.len() - i,
    {
        out.push(
            TocEntry { text: toc[i].text.clone(), id: toc[i].id.clone(), level: toc[i].level },
        );
        i += 1;
    }
    assert(toc_views(out@) =~= toc_views(toc@));
    out
}

/// The mathematical form of a [`SourceTab`].
pub struct TabView {
    pub name: Seq<char>,
    pub source_id: Seq<char>,
    pub url: Seq<char>,
    pub is_current: bool,
    pub is_top_level: bool,
}

impl View for SourceTab {
    type V = TabView;

    open spec fn view(&self) -> TabView {
        TabView {
            name: self.name@,
            source_id: self.source_id@,
            url: self.url@,
            is_current: self.is_current,
            is_top_level: self.is_top_level,
        }
    }
}

/// The mathematical form of a list of tabs.
pub open spec fn tab_views(v: Seq<SourceTab>) -> Seq<TabView> {
    Seq::new(v.len(), |i: int| v[i]@)
}

/// The tabs as they are shown on a page of the source `current`: the tab of
/// that source is marked as the current one, and no other.
pub open spec fn tabs_for(tabs: Seq<TabView>, current: Seq<char>) -> Seq<TabView> {
    Seq::new(
        tabs.len(),
        |i: int| TabView { is_current: tabs[i].source_id == current, ..tabs[i] },
    )
}

/// Marks the tab of the source `current_source`; see [`tabs_for`].
pub fn source_tabs_for(tabs: &Vec<SourceTab>, current_source: &str) -> (r: Vec<SourceTab>)
    ensures
        tab_views(r@) == tabs_for(tab_views(tabs@), current_source@),
{
    let mut out: Vec<SourceTab> = Vec::new();
    let mut i: usize = 0;
    while i < tabs.len()
        invariant
            i <= tabs@.len(),
            out@.len() == i,
            forall|j: int|
                0 <= j < i ==> (#[trigger] out@[j])@ == tabs_for(
                    tab_views(tabs@),
                    current_source@,
                )[j],
        decreases tabs@.len() - i,
    {
        let tab = &tabs[i];
        assert(tab_views(tabs@)[i as int] == tab@);
        out.push(
            SourceTab {
                name: tab.name.clone(),
                source_id: tab.source_id.clone(),
                url: tab.url.clone(),
                is_current: crate::text::same_text(tab.source_id.as_str(), current_source),
                is_top_level: tab.is_top_level,
            },
        );
        i += 1;
    }
    assert(tab_views(out@) =~= tabs_for(tab_views(tabs@), current_source@));
    out
}

/// An icon with a class and a size: the class is written into the first
/// `svg` tag, and the size takes the place of every width and height of 24.
pub open spec fn sized_icon(svg: Seq<char>, class: Option<Seq<char>>, size: Option<u32>) -> Seq<
    char,
> {
    let classed = match class {
        Some(c) => crate::text::replace_first(svg, "<svg"@, "<svg class=\""@ + c + "\""@),
        None => svg,
    };
    match size {
        Some(n) => crate::text::replace_all(
            crate::text::replace_all(
                classed,
                "width=\"24\""@,
                "width=\""@ + crate::markdown::decimal(n as nat) + "\""@,
            ),
            "height=\"24\""@,
            "height=\""@ + crate::markdown::decimal(n as nat) + "\""@,
        ),
        None => classed,
    }
}

/// Gives an icon a class and a size; see [`sized_icon`].
pub fn icon_svg(svg: &str, class: Option<&str>, size: Option<u32>) -> (r: String)
    ensures
        r@ == sized_icon(
            svg@,
            match class {
                Some(c) => Some(c@),
                None => None,
            },
            size,
        ),
{
    let mut icon = crate::text::chars_of(svg);
    match class {
        Some(c) => {
            let tag = crate::text::chars_of("<svg");
            let mut with = crate::text::chars_of("<svg class=\"");
            crate::text::append_str(&mut with, c);
            crate::text::append_str(&mut with, "\"");
            icon = crate::text::replaced_first(&icon, &tag, &with);
        },
        None => {},
    }
    match size {
        Some(n) => {
            let digits = crate::markdown::decimal_digits(n as usize);
            let width = crate::text::chars_of("width=\"24\"");
            let mut new_width = crate::text::chars_of("width=\"");
            crate::text::append_chars(&mut new_width, &digits);
            crate::text::append_str(&mut new_width, "\"");
            icon = crate::text::replaced_all(&icon, &width, &new_width);
            let height = crate::text::chars_of("height=\"24\"");
            let mut new_height = crate::text::chars_of("height=\"");
            crate::text::append_chars(&mut new_height, &digits);
            crate::text::append_str(&mut new_height, "\"");
            icon = crate::text::replaced_all(&icon, &height, &new_height);
        },
        None => {},
    }
    crate::text::string_of(&icon)
}

/// The line that lets the content of a document use the macros of the
/// theme.
pub open spec fn macro_import() -> Seq<char> {
    "{% import \"macros.html\" as macros %}\n"@
}

/// The content of a document as the template engine is given it: after the
/// line that imports the macros of the theme.
pub fn with_macro_import(content: &str) -> (r: String)
    ensures
        r@ == macro_import() + content@,
{
    let mut out = crate::text::chars_of("{% import \"macros.html\" as macros %}\n");
    crate::text::append_str(&mut out, content);
    crate::text::string_of(&out)
}

/// The directory of the templates of a theme.
pub fn templates_dir(theme_path: &str) -> (r: String)
    ensures
        r@ == crate::paths::join(theme_path@, "templates"@),
{
    crate::paths::join_paths(theme_path, "templates")
}

/// The pattern that the templates of a theme match: every HTML file below
/// the directory of its templates.
pub fn template_glob(theme_path: &str) -> (r: String)
    ensures
        r@ == crate::paths::join(crate::paths::join(theme_path@, "templates"@), "**/*.html"@),
{
    let dir = templates_dir(theme_path);
    crate::paths::join_paths(dir.as_str(), "**/*.html")
}

/// The file of the icon of the given name in a theme.
pub fn icon_path(theme_path: &str, name: &str) -> (r: String)
    ensures
        r@ == crate::paths::join(
            crate::paths::join(theme_path@, "static/icons"@),
            name@ + ".svg"@,
        ),
{
    let dir = crate::paths::join_paths(theme_path, "static/icons");
    let mut file = crate::text::chars_of(name);
    crate::text::append_str(&mut file, ".svg");
    let file = crate::text::string_of(&file);
    crate::paths::join_paths(dir.as_str(), file.as_str())
}

} // verus!
