//! The navigation of a source.
//!
//! Where the configuration spells a navigation out, it is converted entry by
//! entry, and entries whose page does not exist are left out. Otherwise the
//! navigation follows the directories of the source: the documents are put
//! into a tree by the segments of their paths, and the tree is turned into
//! links and sections. A link takes the contents of the directory of the
//! same name as its children.

use vstd::prelude::*;
use crate::config::{nav_items, NavItem, NavItemView};
use crate::document::{ContentItem, Document, DocumentView};
use crate::nav_laws::{
    lemma_with_entry_links_in_order, lemma_with_entry_well_formed, links_in_order, links_sorted,
    names_sorted, well_formed,
};
use crate::source::ResolvedSource;
use crate::paths::{file_name, name_of};
use crate::render::{lemma_link_view, nav_nodes, NavLink, NavNode, NavSection};
use crate::text::{
    chars_less, chars_of, count_leading, count_trailing, lex_less, lowercase_of, same_chars,
    slice_of, split_chars, split_on, string_of, to_lower, trim_leading, trim_trailing, views,
};
use crate::util::{title_case, title_cased};

verus! {

// ---------------------------------------------------------------------------
// The tree of documents
// ---------------------------------------------------------------------------

/// A document as the tree holds it.
pub struct LinkEntry {
    /// Whether the document is the index file of its directory.
    pub is_index: bool,
    /// The title that the link shows.
    pub title: String,
    /// The URL path of the page.
    pub url: String,
    /// The path of the document below the root of its source.
    pub path: String,
}

/// The mathematical form of a [`LinkEntry`].
pub struct LinkEntryView {
    pub is_index: bool,
    pub title: Seq<char>,
    pub url: Seq<char>,
    pub path: Seq<char>,
}

impl View for LinkEntry {
    type V = LinkEntryView;

    open spec fn view(&self) -> LinkEntryView {
        LinkEntryView {
            is_index: self.is_index,
            title: self.title@,
            url: self.url@,
            path: self.path@,
        }
    }
}

/// A directory of the tree.
pub struct ChildDir {
    /// The name of the directory.
    pub name: String,
    /// What lies in it.
    pub node: NavTreeNode,
}

/// One level of the tree: the documents of a directory, in the order in
/// which they are shown, and its subdirectories, by name.
///
/// At every level the links stand in their order, an index file first and
/// then by title, and the directories in the order of their names, each
/// name once. No tree is ever otherwise: a tree is made empty and grows by
/// [`NavTreeNode::insert`] alone.
pub struct NavTreeNode {
    links: Vec<LinkEntry>,
    children: Vec<ChildDir>,
}

/// The mathematical form of a [`ChildDir`].
pub struct NavDir {
    pub name: Seq<char>,
    pub node: NavTree,
}

/// The mathematical form of a [`NavTreeNode`].
pub struct NavTree {
    pub links: Seq<LinkEntryView>,
    pub children: Seq<NavDir>,
}

/// The mathematical form of a list of links.
pub open spec fn link_views(v: Seq<LinkEntry>) -> Seq<LinkEntryView> {
    Seq::new(v.len(), |i: int| v[i]@)
}

/// The mathematical form of a level of the tree.
pub closed spec fn tree_view(node: NavTreeNode) -> NavTree
    decreases node,
{
    NavTree {
        links: link_views(node.links@),
        children: Seq::new(
            node.children@.len(),
            |i: int|
                if 0 <= i < node.children@.len() {
                    NavDir {
                        name: node.children@[i].name@,
                        node: tree_view(node.children@[i].node),
                    }
                } else {
                    arbitrary()
                },
        ),
    }
}

/// The mathematical form of a directory of the tree.
pub open spec fn dir_view(dir: ChildDir) -> NavDir {
    NavDir { name: dir.name@, node: tree_view(dir.node) }
}

/// The mathematical form of a list of directories.
pub open spec fn dir_views(v: Seq<ChildDir>) -> Seq<NavDir> {
    Seq::new(v.len(), |i: int| dir_view(v[i]))
}

/// The view of a level shows its directories as [`dir_views`] does.
proof fn lemma_tree_view(node: NavTreeNode)
    ensures
        tree_view(node) == (NavTree {
            links: link_views(node.links@),
            children: dir_views(node.children@),
        }),
{
    assert(tree_view(node).children =~= dir_views(node.children@));
}

/// The tree that holds nothing.
pub open spec fn empty_tree() -> NavTree {
    NavTree { links: Seq::empty(), children: Seq::empty() }
}

/// The order in which the links of one level are shown: an index file
/// first, then by title, and links of one title by path.
pub open spec fn link_before(a: LinkEntryView, b: LinkEntryView) -> bool {
    if a.is_index != b.is_index {
        a.is_index
    } else if a.title != b.title {
        lex_less(a.title, b.title)
    } else {
        lex_less(a.path, b.path)
    }
}

/// The place of a new link among the links of its level: before the first
/// link, at or after `from`, that it comes before.
pub open spec fn link_slot(links: Seq<LinkEntryView>, entry: LinkEntryView, from: int) -> int
    decreases links.len() - from,
{
    if from < 0 || from >= links.len() {
        links.len() as int
    } else if link_before(entry, links[from]) {
        from
    } else {
        link_slot(links, entry, from + 1)
    }
}

/// The place of a directory name among the directories of its level: that
/// of the first directory, at or after `from`, whose name does not come
/// before it.
pub open spec fn dir_slot(children: Seq<NavDir>, name: Seq<char>, from: int) -> int
    decreases children.len() - from,
{
    if from < 0 || from >= children.len() {
        children.len() as int
    } else if !lex_less(children[from].name, name) {
        from
    } else {
        dir_slot(children, name, from + 1)
    }
}

/// The tree with one more document. `parts` are the segments of its path
/// from this level on: the last segment is the file, those before it name
/// the directories to descend into, which are made where they are missing.
pub open spec fn with_entry(tree: NavTree, parts: Seq<Seq<char>>, entry: LinkEntryView) -> NavTree
    decreases parts.len(),
{
    if parts.len() <= 1 {
        NavTree {
            links: tree.links.insert(link_slot(tree.links, entry, 0), entry),
            children: tree.children,
        }
    } else {
        let k = dir_slot(tree.children, parts[0], 0);
        if k < tree.children.len() && tree.children[k].name == parts[0] {
            NavTree {
                links: tree.links,
                children: tree.children.update(
                    k,
                    NavDir {
                        name: parts[0],
                        node: with_entry(tree.children[k].node, parts.drop_first(), entry),
                    },
                ),
            }
        } else {
            NavTree {
                links: tree.links,
                children: tree.children.insert(
                    k,
                    NavDir {
                        name: parts[0],
                        node: with_entry(empty_tree(), parts.drop_first(), entry),
                    },
                ),
            }
        }
    }
}

impl NavTreeNode {
    /// What holds of every tree: at every level the links and the
    /// directories stand in their order.
    #[verifier::type_invariant]
    spec fn in_order(self) -> bool {
        links_in_order(tree_view(self)) && well_formed(tree_view(self))
    }

    /// A level without documents or directories.
    pub fn new() -> (r: Self)
        ensures
            tree_view(r) == empty_tree(),
    {
        let links: Vec<LinkEntry> = Vec::new();
        let children: Vec<ChildDir> = Vec::new();
        proof {
            let made = NavTreeNode { links, children };
            lemma_tree_view(made);
            assert(link_views(links@) =~= Seq::<LinkEntryView>::empty());
            assert(dir_views(children@) =~= Seq::<NavDir>::empty());
            assert(tree_view(made) == empty_tree());
            assert(links_sorted(empty_tree().links));
            assert(names_sorted(empty_tree().children));
        }
        NavTreeNode { links, children }
    }

    /// Executable form of [`link_slot`].
    fn find_link_slot(&self, entry: &LinkEntry) -> (k: usize)
        ensures
            k as int == link_slot(link_views(self.links@), entry@, 0),
            k <= self.links@.len(),
    {
        let title = chars_of(entry.title.as_str());
        let path = chars_of(entry.path.as_str());
        let mut i: usize = 0;
        while i < self.links.len()
            invariant
                i <= self.links@.len(),
                title@ == entry.title@,
                path@ == entry.path@,
                link_slot(link_views(self.links@), entry@, 0) == link_slot(
                    link_views(self.links@),
                    entry@,
                    i as int,
                ),
            decreases self.links@.len() - i,
        {
            let other = &self.links[i];
            assert(link_views(self.links@)[i as int] == other@);
            let other_title = chars_of(other.title.as_str());
            let other_path = chars_of(other.path.as_str());
            let before = if entry.is_index != other.is_index {
                entry.is_index
            } else if !same_chars(&title, &other_title) {
                chars_less(&title, &other_title)
            } else {
                chars_less(&path, &other_path)
            };
            if before {
                return i;
            }
            i += 1;
        }
        i
    }

    /// Executable form of [`dir_slot`].
    fn find_dir_slot(&self, name: &Vec<char>) -> (k: usize)
        ensures
            k as int == dir_slot(dir_views(self.children@), name@, 0),
            k <= self.children@.len(),
    {
        let mut i: usize = 0;
        while i < self.children.len()
            invariant
                i <= self.children@.len(),
                dir_slot(dir_views(self.children@), name@, 0) == dir_slot(
                    dir_views(self.children@),
                    name@,
                    i as int,
                ),
            decreases self.children@.len() - i,
        {
            let other = chars_of(self.children[i].name.as_str());
            assert(dir_views(self.children@)[i as int].name == other@);
            if !chars_less(&other, name) {
                return i;
            }
            i += 1;
        }
        i
    }

    /// Puts a document into the tree. `parts` are the segments of its path;
    /// those from `from` on lead from this level to the file.
    pub fn insert(self, parts: &Vec<Vec<char>>, from: usize, entry: LinkEntry) -> (r: Self)
        requires
            from <= parts@.len(),
        ensures
            tree_view(r) == with_entry(tree_view(self), views(parts@).skip(from as int), entry@),
        decreases parts@.len() - from,
    {
        let ghost rest = views(parts@).skip(from as int);
        let ghost old_tree = tree_view(self);
        proof {
            use_type_invariant(&self);
            lemma_tree_view(self);
            lemma_with_entry_links_in_order(old_tree, rest, entry@);
            lemma_with_entry_well_formed(old_tree, rest, entry@);
        }
        if parts.len() - from <= 1 {
            let k = self.find_link_slot(&entry);
            let NavTreeNode { links, children } = self;
            let mut links = links;
            let ghost old_links = links@;
            links.insert(k, entry);
            proof {
                lemma_tree_view(NavTreeNode { links, children });
                assert(link_views(links@) =~= link_views(old_links).insert(k as int, entry@));
            }
            NavTreeNode { links, children }
        } else {
            let name = &parts[from];
            assert(rest[0] == name@);
            assert(rest.drop_first() =~= views(parts@).skip(from + 1));
            let k = self.find_dir_slot(name);
            let NavTreeNode { links, children } = self;
            let mut children = children;
            let ghost old_children = children@;
            let found = k < children.len() && {
                let other = chars_of(children[k].name.as_str());
                same_chars(&other, name)
            };
            assert(k < old_children.len() ==> dir_views(old_children)[k as int].name
                == old_children[k as int].name@);
            if found {
                let child = children.remove(k);
                let sub = child.node.insert(parts, from + 1, entry);
                let new_child = ChildDir { name: child.name, node: sub };
                children.insert(k, new_child);
                proof {
                    lemma_tree_view(NavTreeNode { links, children });
                    assert(children@ =~= old_children.update(k as int, new_child));
                    assert(dir_views(children@) =~= dir_views(old_children).update(
                        k as int,
                        dir_view(new_child),
                    ));
                }
                NavTreeNode { links, children }
            } else {
                let sub = NavTreeNode::new().insert(parts, from + 1, entry);
                let new_child = ChildDir { name: string_of(name), node: sub };
                children.insert(k, new_child);
                proof {
                    lemma_tree_view(NavTreeNode { links, children });
                    assert(dir_views(children@) =~= dir_views(old_children).insert(
                        k as int,
                        dir_view(new_child),
                    ));
                }
                NavTreeNode { links, children }
            }
        }
    }
}

// ---------------------------------------------------------------------------
// From the tree to the navigation
// ---------------------------------------------------------------------------

/// The values that are present, in their order.
pub open spec fn somes<T>(s: Seq<Option<T>>) -> Seq<T>
    decreases s.len(),
{
    if s.len() == 0 {
        Seq::empty()
    } else {
        match s.last() {
            Some(x) => somes(s.drop_last()).push(x),
            None => somes(s.drop_last()),
        }
    }
}

/// The name by which a link is matched with a directory: the last segment
/// of its URL, in lowercase.
pub open spec fn link_stem(url: Seq<char>) -> Seq<char> {
    lowercase_of(file_name(trim_trailing(url, '/')))
}

/// Whether a link before the `i`th has the same stem as the `i`th.
pub open spec fn stem_taken_before(links: Seq<LinkEntryView>, i: int) -> bool {
    exists|j: int| 0 <= j < i && link_stem(#[trigger] links[j].url) == link_stem(links[i].url)
}

/// Whether some link has the stem `stem`.
pub open spec fn stem_listed(links: Seq<LinkEntryView>, stem: Seq<char>) -> bool {
    exists|j: int| 0 <= j < links.len() && link_stem(#[trigger] links[j].url) == stem
}

/// The first directory, at or after `from`, whose name in lowercase is
/// `stem`; the number of directories when there is none.
pub open spec fn dir_for_stem(children: Seq<NavDir>, stem: Seq<char>, from: int) -> int
    decreases children.len() - from,
{
    if from < 0 || from >= children.len() {
        children.len() as int
    } else if lowercase_of(children[from].name) == stem {
        from
    } else {
        dir_for_stem(children, stem, from + 1)
    }
}

/// The navigation of one level of the tree.
///
/// First come the links. A link whose stem is, letter case aside, the name
/// of a directory of this level has the navigation of that directory as its
/// children, unless an earlier link of the same stem has it already. Then
/// come the directories that no link's stem names, each as a section that
/// is titled by its name in title case; a directory without navigation
/// gives no section.
pub open spec fn sections_of(tree: NavTree) -> Seq<NavNode>
    decreases tree, 2nat,
{
    link_sections(tree) + somes(dir_sections(tree))
}

/// The links of a level, as [`link_section`] makes them.
pub open spec fn link_sections(tree: NavTree) -> Seq<NavNode>
    decreases tree, 1nat,
{
    Seq::new(tree.links.len(), |i: int| link_section(tree, i))
}

/// What becomes of each directory of a level, as [`dir_section`] says.
pub open spec fn dir_sections(tree: NavTree) -> Seq<Option<NavNode>>
    decreases tree, 1nat,
{
    Seq::new(tree.children.len(), |k: int| dir_section(tree, k))
}

/// The `i`th link of a level, with its children.
pub open spec fn link_section(tree: NavTree, i: int) -> NavNode
    decreases tree, 0nat,
{
    let k = dir_for_stem(tree.children, link_stem(tree.links[i].url), 0);
    NavNode::Link {
        title: tree.links[i].title,
        url: tree.links[i].url,
        children: if !stem_taken_before(tree.links, i) && 0 <= k < tree.children.len() {
            sections_of(tree.children[k].node)
        } else {
            Seq::empty()
        },
    }
}

/// The section of the `k`th directory of a level, if it has one.
pub open spec fn dir_section(tree: NavTree, k: int) -> Option<NavNode>
    decreases tree, 0nat,
{
    if 0 <= k < tree.children.len() {
        if stem_listed(tree.links, lowercase_of(tree.children[k].name)) {
            None
        } else {
            let items = sections_of(tree.children[k].node);
            if items.len() > 0 {
                Some(NavNode::Section { title: title_cased(tree.children[k].name), items })
            } else {
                None
            }
        }
    } else {
        None
    }
}

/// Executable form of [`link_stem`].
pub fn stem_of_url(url: &str) -> (r: Vec<char>)
    ensures
        r@ == link_stem(url@),
{
    let chars = chars_of(url);
    let t = count_trailing(&chars, '/');
    let trimmed = slice_of(&chars, 0, chars.len() - t);
    let name = name_of(&trimmed);
    let name = string_of(&name);
    let lower = to_lower(name.as_str());
    chars_of(lower.as_str())
}

/// The name of a directory in lowercase.
fn lower_name(name: &str) -> (r: Vec<char>)
    ensures
        r@ == lowercase_of(name@),
{
    let lower = to_lower(name);
    chars_of(lower.as_str())
}

impl NavTreeNode {
    /// The stems of the links of this level.
    fn link_stems(&self) -> (stems: Vec<Vec<char>>)
        ensures
            stems@.len() == self.links@.len(),
            forall|i: int|
                0 <= i < stems@.len() ==> (#[trigger] stems@[i])@ == link_stem(self.links@[i].url@),
    {
        let mut stems: Vec<Vec<char>> = Vec::new();
        let mut i: usize = 0;
        while i < self.links.len()
            invariant
                i <= self.links@.len(),
                stems@.len() == i,
                forall|j: int|
                    0 <= j < i ==> (#[trigger] stems@[j])@ == link_stem(self.links@[j].url@),
            decreases self.links@.len() - i,
        {
            let stem = stem_of_url(self.links[i].url.as_str());
            stems.push(stem);
            i += 1;
        }
        stems
    }

    /// The names of the directories of this level, in lowercase.
    fn lower_names(&self) -> (names: Vec<Vec<char>>)
        ensures
            names@.len() == self.children@.len(),
            forall|i: int|
                0 <= i < names@.len() ==> (#[trigger] names@[i])@ == lowercase_of(
                    self.children@[i].name@,
                ),
    {
        let mut names: Vec<Vec<char>> = Vec::new();
        let mut i: usize = 0;
        while i < self.children.len()
            invariant
                i <= self.children@.len(),
                names@.len() == i,
                forall|j: int|
                    0 <= j < i ==> (#[trigger] names@[j])@ == lowercase_of(
                        self.children@[j].name@,
                    ),
            decreases self.children@.len() - i,
        {
            let name = lower_name(self.children[i].name.as_str());
            names.push(name);
            i += 1;
        }
        names
    }

    /// Turns this level of the tree into navigation; see [`sections_of`].
    ///
    /// At every level the links come first, in the order in which the tree
    /// holds them: an index file first, the others by title. The sections
    /// of the directories that no link takes follow, in the order of the
    /// names of the directories.
    pub fn into_nav_sections(&self) -> (r: Vec<NavSection>)
        ensures
            nav_nodes(r@) == sections_of(tree_view(*self)),
            links_in_order(tree_view(*self)),
            well_formed(tree_view(*self)),
        decreases self,
    {
        let ghost tree = tree_view(*self);
        proof {
            use_type_invariant(self);
            lemma_tree_view(*self);
        }
        let stems = self.link_stems();
        let names = self.lower_names();
        let ghost link_part = link_sections(tree);
        let ghost dir_opts = dir_sections(tree);
        let mut out: Vec<NavSection> = Vec::new();
        let mut i: usize = 0;
        while i < self.links.len()
            invariant
                i <= self.links@.len(),
                tree == tree_view(*self),
                tree.links == link_views(self.links@),
                tree.children == dir_views(self.children@),
                stems@.len() == self.links@.len(),
                names@.len() == self.children@.len(),
                forall|j: int|
                    0 <= j < stems@.len() ==> (#[trigger] stems@[j])@ == link_stem(
                        self.links@[j].url@,
                    ),
                forall|j: int|
                    0 <= j < names@.len() ==> (#[trigger] names@[j])@ == lowercase_of(
                        self.children@[j].name@,
                    ),
                link_part == link_sections(tree),
                nav_nodes(out@) == link_part.take(i as int),
            decreases self.links@.len() - i,
        {
            // whether an earlier link has the same stem
            let mut taken = false;
            let mut j: usize = 0;
            while j < i
                invariant
                    j <= i,
                    i < self.links@.len(),
                    stems@.len() == self.links@.len(),
                    tree.links == link_views(self.links@),
                    forall|j: int|
                        0 <= j < stems@.len() ==> (#[trigger] stems@[j])@ == link_stem(
                            self.links@[j].url@,
                        ),
                    taken == (exists|m: int|
                        0 <= m < j && link_stem(#[trigger] tree.links[m].url) == link_stem(
                            tree.links[i as int].url,
                        )),
                decreases i - j,
            {
                if same_chars(&stems[j], &stems[i]) {
                    assert(link_stem(tree.links[j as int].url) == link_stem(
                        tree.links[i as int].url,
                    ));
                    taken = true;
                }
                j += 1;
            }
            assert(taken == stem_taken_before(tree.links, i as int));
            // the directory that the stem names
            let mut k: usize = 0;
            while k < self.children.len() && !same_chars(&names[k], &stems[i])
                invariant
                    k <= self.children@.len(),
                    i < self.links@.len(),
                    stems@.len() == self.links@.len(),
                    names@.len() == self.children@.len(),
                    tree.links == link_views(self.links@),
                    tree.children == dir_views(self.children@),
                    forall|j: int|
                        0 <= j < stems@.len() ==> (#[trigger] stems@[j])@ == link_stem(
                            self.links@[j].url@,
                        ),
                    forall|j: int|
                        0 <= j < names@.len() ==> (#[trigger] names@[j])@ == lowercase_of(
                            self.children@[j].name@,
                        ),
                    dir_for_stem(tree.children, link_stem(tree.links[i as int].url), 0)
                        == dir_for_stem(
                        tree.children,
                        link_stem(tree.links[i as int].url),
                        k as int,
                    ),
                decreases self.children@.len() - k,
            {
                k += 1;
            }
            let children = if !taken && k < self.children.len() {
                self.children[k].node.into_nav_sections()
            } else {
                Vec::new()
            };
            let link = NavLink {
                title: self.links[i].title.clone(),
                url: self.links[i].url.clone(),
                children,
            };
            proof {
                lemma_link_view(link);
                assert(nav_nodes(Seq::<NavSection>::empty()) =~= Seq::<NavNode>::empty());
                assert(link@ == link_section(tree, i as int));
                crate::render::lemma_nav_nodes_push(out@, NavSection::Link(link));
                assert(link_part.take(i + 1) =~= link_part.take(i as int).push(link_part[i as int]));
            }
            out.push(NavSection::Link(link));
            i += 1;
        }
        assert(link_part.take(self.links@.len() as int) =~= link_part);
        let mut k: usize = 0;
        assert(dir_opts.take(0) =~= Seq::<Option<NavNode>>::empty());
        assert(nav_nodes(out@) =~= link_part + somes(dir_opts.take(0)));
        while k < self.children.len()
            invariant
                k <= self.children@.len(),
                tree == tree_view(*self),
                tree.links == link_views(self.links@),
                tree.children == dir_views(self.children@),
                stems@.len() == self.links@.len(),
                names@.len() == self.children@.len(),
                forall|j: int|
                    0 <= j < stems@.len() ==> (#[trigger] stems@[j])@ == link_stem(
                        self.links@[j].url@,
                    ),
                forall|j: int|
                    0 <= j < names@.len() ==> (#[trigger] names@[j])@ == lowercase_of(
                        self.children@[j].name@,
                    ),
                dir_opts == dir_sections(tree),
                link_part == link_sections(tree),
                nav_nodes(out@) == link_part + somes(dir_opts.take(k as int)),
            decreases self.children@.len() - k,
        {
            let mut listed = false;
            let mut j: usize = 0;
            while j < self.links.len()
                invariant
                    j <= self.links@.len(),
                    k < self.children@.len(),
                    stems@.len() == self.links@.len(),
                    names@.len() == self.children@.len(),
                    tree.links == link_views(self.links@),
                    forall|j: int|
                        0 <= j < stems@.len() ==> (#[trigger] stems@[j])@ == link_stem(
                            self.links@[j].url@,
                        ),
                    forall|j: int|
                        0 <= j < names@.len() ==> (#[trigger] names@[j])@ == lowercase_of(
                            self.children@[j].name@,
                        ),
                    listed == (exists|m: int|
                        0 <= m < j && link_stem(#[trigger] tree.links[m].url) == lowercase_of(
                            self.children@[k as int].name@,
                        )),
                decreases self.links@.len() - j,
            {
                if same_chars(&stems[j], &names[k]) {
                    assert(link_stem(tree.links[j as int].url) == lowercase_of(
                        self.children@[k as int].name@,
                    ));
                    listed = true;
                }
                j += 1;
            }
            assert(tree.children[k as int].name == self.children@[k as int].name@);
            assert(listed == stem_listed(tree.links, lowercase_of(tree.children[k as int].name)));
            let ghost before = dir_opts.take(k as int);
            proof {
                assert(dir_opts.take(k + 1).drop_last() =~= before);
                assert(dir_opts.take(k + 1).last() == dir_section(tree, k as int));
            }
            if !listed {
                let items = self.children[k].node.into_nav_sections();
                if items.len() > 0 {
                    let section = NavSection::Section {
                        section: title_case(self.children[k].name.as_str()),
                        items,
                    };
                    proof {
                        crate::render::lemma_section_view(section);
                        assert(section@ == dir_section(tree, k as int)->0);
                        crate::render::lemma_nav_nodes_push(out@, section);
                        assert((link_part + somes(before)).push(section@) =~= link_part + somes(
                            before,
                        ).push(section@));
                    }
                    out.push(section);
                }
            }
            k += 1;
        }
        assert(dir_opts.take(self.children@.len() as int) =~= dir_opts);
        out
    }
}

// ---------------------------------------------------------------------------
// Navigation made from the documents alone
// ---------------------------------------------------------------------------

/// The mathematical form of a list of documents.
pub open spec fn doc_views(docs: Seq<&Document>) -> Seq<DocumentView> {
    Seq::new(docs.len(), |i: int| (*docs[i])@)
}

/// The segments of the path of a document: the path without the slashes
/// around it, split at each slash.
pub open spec fn doc_parts(doc: DocumentView) -> Seq<Seq<char>> {
    split_on(trim_trailing(trim_leading(doc.source_path, '/'), '/'), '/', '/')
}

/// A document as the tree holds it.
pub open spec fn doc_link(doc: DocumentView) -> LinkEntryView {
    LinkEntryView {
        is_index: doc.is_index(),
        title: doc.display_title(),
        url: doc.url_path,
        path: doc.source_path,
    }
}

/// The tree that holds the first `n` of the documents.
pub open spec fn tree_of(docs: Seq<DocumentView>, n: int) -> NavTree
    decreases n,
{
    if n <= 0 {
        empty_tree()
    } else {
        with_entry(tree_of(docs, n - 1), doc_parts(docs[n - 1]), doc_link(docs[n - 1]))
    }
}

/// The navigation that follows the directories of the documents.
pub open spec fn auto_nav(docs: Seq<DocumentView>) -> Seq<NavNode> {
    sections_of(tree_of(docs, docs.len() as int))
}

/// Executable form of [`doc_parts`].
fn parts_of(doc: &Document) -> (parts: Vec<Vec<char>>)
    ensures
        views(parts@) == doc_parts(doc@),
{
    let path = chars_of(doc.source_path.as_str());
    let lead = count_leading(&path, '/');
    let inner = slice_of(&path, lead, path.len());
    assert(inner@ == trim_leading(path@, '/'));
    let trail = count_trailing(&inner, '/');
    let inner = slice_of(&inner, 0, inner.len() - trail);
    split_chars(&inner, '/', '/')
}

/// Makes the navigation of a source from its documents; see [`auto_nav`].
///
/// Documents of the top directory are links; each directory is a section,
/// titled by its name in title case, or the children of the link that has
/// its name. Index files come first in their level, the other links are in
/// the order of their titles.
pub fn auto_generate_nav(docs: &Vec<&Document>) -> (nav: Vec<NavSection>)
    ensures
        nav_nodes(nav@) == auto_nav(doc_views(docs@)),
{
    let mut root = NavTreeNode::new();
    let mut i: usize = 0;
    while i < docs.len()
        invariant
            i <= docs@.len(),
            tree_view(root) == tree_of(doc_views(docs@), i as int),
        decreases docs@.len() - i,
    {
        let doc = docs[i];
        assert(doc_views(docs@)[i as int] == doc@);
        let entry = LinkEntry {
            is_index: doc.is_index(),
            title: doc.title(),
            url: doc.url_path.clone(),
            path: doc.source_path.clone(),
        };
        let parts = parts_of(doc);
        assert(views(parts@).skip(0) =~= views(parts@));
        root = root.insert(&parts, 0, entry);
        i += 1;
    }
    root.into_nav_sections()
}

// ---------------------------------------------------------------------------
// Navigation that the configuration spells out
// ---------------------------------------------------------------------------

/// The last document with the path `path`; -1 where there is none.
pub open spec fn doc_at_path(docs: Seq<DocumentView>, path: Seq<char>) -> int
    decreases docs.len(),
{
    if docs.len() == 0 {
        -1
    } else if docs.last().source_path == path {
        docs.len() - 1
    } else {
        doc_at_path(docs.drop_last(), path)
    }
}

/// What [`doc_at_path`] finds is a document with that path.
pub proof fn lemma_doc_at_path(docs: Seq<DocumentView>, path: Seq<char>)
    ensures
        -1 <= doc_at_path(docs, path) < docs.len(),
        doc_at_path(docs, path) >= 0 ==> docs[doc_at_path(docs, path)].source_path == path,
        doc_at_path(docs, path) == -1 ==> forall|j: int|
            0 <= j < docs.len() ==> (#[trigger] docs[j]).source_path != path,
    decreases docs.len(),
{
    if docs.len() > 0 && docs.last().source_path != path {
        lemma_doc_at_path(docs.drop_last(), path);
        if doc_at_path(docs, path) == -1 {
            assert forall|j: int| 0 <= j < docs.len() implies (#[trigger] docs[j]).source_path
                != path by {
                if j < docs.len() - 1 {
                    assert(docs.drop_last()[j] == docs[j]);
                }
            }
        }
    }
}

/// A link without children.
pub open spec fn leaf_link(title: Seq<char>, url: Seq<char>) -> NavNode {
    NavNode::Link { title, url, children: Seq::empty() }
}

/// What becomes of one item of a spelled-out navigation.
///
/// A section keeps the entries that its items become, and is left out when
/// none is left. A link is made where a document has the path that the item
/// names, and is left out otherwise: with the given title, or else the
/// title of the document. A bare path that ends with `/` is left out.
pub open spec fn converted_item(item: NavItemView, docs: Seq<DocumentView>) -> Option<NavNode>
    decreases item, 0nat,
{
    match item {
        NavItemView::Section { section, items } => {
            let kids = converted_nav(items, docs);
            if kids.len() > 0 {
                Some(NavNode::Section { title: section, items: kids })
            } else {
                None
            }
        },
        NavItemView::LinkWithChildren { path, title, children } => {
            let d = doc_at_path(docs, path);
            if d >= 0 {
                Some(
                    NavNode::Link {
                        title: match title {
                            Some(t) => t,
                            None => docs[d].display_title(),
                        },
                        url: docs[d].url_path,
                        children: converted_nav(children, docs),
                    },
                )
            } else {
                None
            }
        },
        NavItemView::Titled(entries) => {
            if entries.len() > 0 && doc_at_path(docs, entries[0].1) >= 0 {
                Some(leaf_link(entries[0].0, docs[doc_at_path(docs, entries[0].1)].url_path))
            } else {
                None
            }
        },
        NavItemView::Path(p) => {
            let d = doc_at_path(docs, p);
            if !(p.len() > 0 && p.last() == '/') && d >= 0 {
                Some(leaf_link(docs[d].display_title(), docs[d].url_path))
            } else {
                None
            }
        },
    }
}

/// What becomes of each item of a list; see [`converted_item`].
pub open spec fn item_options(items: Seq<NavItemView>, docs: Seq<DocumentView>) -> Seq<
    Option<NavNode>,
>
    decreases items, 0nat,
{
    Seq::new(
        items.len(),
        |i: int|
            if 0 <= i < items.len() {
                converted_item(items[i], docs)
            } else {
                None
            },
    )
}

/// What becomes of a spelled-out navigation: the entries that its items
/// become, in their order.
pub open spec fn converted_nav(items: Seq<NavItemView>, docs: Seq<DocumentView>) -> Seq<NavNode>
    decreases items, 1nat,
{
    somes(item_options(items, docs))
}

/// Finds the last document with the given path; see [`doc_at_path`].
pub fn find_doc(docs: &Vec<&Document>, path: &str) -> (r: Option<usize>)
    ensures
        match r {
            Some(i) => i as int == doc_at_path(doc_views(docs@), path@),
            None => doc_at_path(doc_views(docs@), path@) == -1,
        },
{
    let wanted = chars_of(path);
    let mut i: usize = docs.len();
    assert(doc_views(docs@).take(i as int) =~= doc_views(docs@));
    while i > 0
        invariant
            i <= docs@.len(),
            wanted@ == path@,
            doc_at_path(doc_views(docs@), path@) == doc_at_path(
                doc_views(docs@).take(i as int),
                path@,
            ),
        decreases i,
    {
        let ghost prefix = doc_views(docs@).take(i as int);
        assert(prefix.last() == docs@[i - 1]@);
        assert(prefix.drop_last() =~= doc_views(docs@).take(i - 1));
        let here = chars_of(docs[i - 1].source_path.as_str());
        if same_chars(&here, &wanted) {
            return Some(i - 1);
        }
        i -= 1;
    }
    None
}

/// Converts one item of a spelled-out navigation; see [`converted_item`].
pub fn convert_nav_item(item: &NavItem, docs: &Vec<&Document>) -> (r: Option<NavSection>)
    ensures
        match r {
            Some(entry) => converted_item(item@, doc_views(docs@)) == Some(entry@),
            None => converted_item(item@, doc_views(docs@)) is None,
        },
    decreases item,
{
    let ghost all = doc_views(docs@);
    match item {
        NavItem::Section { section, items } => {
            proof {
                crate::config::lemma_nav_section_view(*item);
            }
            let kids = convert_nav_config(items, docs);
            if kids.len() > 0 {
                let r = NavSection::Section { section: section.clone(), items: kids };
                proof {
                    crate::render::lemma_section_view(r);
                }
                Some(r)
            } else {
                None
            }
        },
        NavItem::LinkWithChildren { path, title, children } => {
            proof {
                crate::config::lemma_nav_link_view(*item);
                lemma_doc_at_path(all, path@);
            }
            match find_doc(docs, path.as_str()) {
                Some(d) => {
                    let doc = docs[d];
                    assert(all[d as int] == doc@);
                    let kids = convert_nav_config(children, docs);
                    let shown = match title {
                        Some(t) => t.clone(),
                        None => doc.title(),
                    };
                    let link = NavLink { title: shown, url: doc.url_path.clone(), children: kids };
                    proof {
                        lemma_link_view(link);
                    }
                    Some(NavSection::Link(link))
                },
                None => None,
            }
        },
        NavItem::Titled(entries) => {
            if entries.len() == 0 {
                return None;
            }
            proof {
                lemma_doc_at_path(all, entries@[0].path@);
            }
            match find_doc(docs, entries[0].path.as_str()) {
                Some(d) => {
                    let doc = docs[d];
                    assert(all[d as int] == doc@);
                    let link = NavLink {
                        title: entries[0].title.clone(),
                        url: doc.url_path.clone(),
                        children: Vec::new(),
                    };
                    proof {
                        lemma_link_view(link);
                        assert(nav_nodes(link.children@) =~= Seq::<NavNode>::empty());
                    }
                    Some(NavSection::Link(link))
                },
                None => None,
            }
        },
        NavItem::Path(p) => {
            let chars = chars_of(p.as_str());
            if chars.len() > 0 && chars[chars.len() - 1] == '/' {
                return None;
            }
            proof {
                lemma_doc_at_path(all, p@);
            }
            match find_doc(docs, p.as_str()) {
                Some(d) => {
                    let doc = docs[d];
                    assert(all[d as int] == doc@);
                    let link = NavLink {
                        title: doc.title(),
                        url: doc.url_path.clone(),
                        children: Vec::new(),
                    };
                    proof {
                        lemma_link_view(link);
                        assert(nav_nodes(link.children@) =~= Seq::<NavNode>::empty());
                    }
                    Some(NavSection::Link(link))
                },
                None => None,
            }
        },
    }
}

/// Converts a spelled-out navigation; see [`converted_nav`]. Items whose
/// page does not exist are left out.
pub fn convert_nav_config(items: &Vec<NavItem>, docs: &Vec<&Document>) -> (r: Vec<NavSection>)
    ensures
        nav_nodes(r@) == converted_nav(nav_items(items@), doc_views(docs@)),
    decreases items,
{
    let ghost opts = item_options(nav_items(items@), doc_views(docs@));
    let mut out: Vec<NavSection> = Vec::new();
    let mut i: usize = 0;
    assert(opts.take(0) =~= Seq::<Option<NavNode>>::empty());
    assert(nav_nodes(out@) =~= somes(opts.take(0)));
    while i < items.len()
        invariant
            i <= items@.len(),
            opts == item_options(nav_items(items@), doc_views(docs@)),
            nav_nodes(out@) == somes(opts.take(i as int)),
        decreases items@.len() - i,
    {
        let converted = convert_nav_item(&items[i], docs);
        proof {
            assert(nav_items(items@)[i as int] == items@[i as int]@);
            assert(opts.take(i + 1).drop_last() =~= opts.take(i as int));
            assert(opts.take(i + 1).last() == converted_item(items@[i as int]@, doc_views(docs@)));
        }
        match converted {
            Some(entry) => {
                proof {
                    crate::render::lemma_nav_nodes_push(out@, entry);
                }
                out.push(entry);
            },
            None => {},
        }
        i += 1;
    }
    assert(opts.take(items@.len() as int) =~= opts);
    out
}

// ---------------------------------------------------------------------------
// The navigation of every source
// ---------------------------------------------------------------------------

/// The navigation of one source.
pub struct SourceNav {
    /// The name of the source.
    pub source_name: String,
    /// Its navigation.
    pub nav: Vec<NavSection>,
}

/// Those of the first `n` items that are documents of the source `name`,
/// in their order.
pub open spec fn documents_of(items: Seq<ContentItem>, name: Seq<char>, n: int) -> Seq<
    DocumentView,
>
    decreases n,
{
    if n <= 0 {
        Seq::empty()
    } else {
        match items[n - 1] {
            ContentItem::Document(doc) => if doc.source_name@ == name {
                documents_of(items, name, n - 1).push(doc@)
            } else {
                documents_of(items, name, n - 1)
            },
            ContentItem::Static(_) => documents_of(items, name, n - 1),
        }
    }
}

/// The navigation of a source with the documents `docs`: the one that the
/// configuration spells out, converted, or else the one that follows the
/// directories.
pub open spec fn source_nav(nav: Option<Seq<NavItemView>>, docs: Seq<DocumentView>) -> Seq<
    NavNode,
> {
    match nav {
        Some(items) => converted_nav(items, docs),
        None => auto_nav(docs),
    }
}

/// Makes the navigation of every source, in the order of the sources. Each
/// source has the navigation of its own documents only.
pub fn build_navigation_by_source(items: &Vec<ContentItem>, sources: &Vec<ResolvedSource>) -> (r:
    Vec<SourceNav>)
    ensures
        r@.len() == sources@.len(),
        forall|i: int|
            0 <= i < sources@.len() ==> (#[trigger] r@[i]).source_name@
                == sources@[i].config.name@ && nav_nodes(r@[i].nav@) == source_nav(
                crate::config::opt_nav(sources@[i].config.nav),
                documents_of(items@, sources@[i].config.name@, items@.len() as int),
            ),
{
    let mut out: Vec<SourceNav> = Vec::new();
    let mut i: usize = 0;
    while i < sources.len()
        invariant
            i <= sources@.len(),
            out@.len() == i,
            forall|j: int|
                0 <= j < i ==> (#[trigger] out@[j]).source_name@ == sources@[j].config.name@
                    && nav_nodes(out@[j].nav@) == source_nav(
                    crate::config::opt_nav(sources@[j].config.nav),
                    documents_of(items@, sources@[j].config.name@, items@.len() as int),
                ),
        decreases sources@.len() - i,
    {
        let source = &sources[i];
        let name = source.config.name.as_str();
        // the documents of the source
        let mut docs: Vec<&Document> = Vec::new();
        let mut k: usize = 0;
        assert(doc_views(docs@) =~= documents_of(items@, name@, 0));
        while k < items.len()
            invariant
                k <= items@.len(),
                doc_views(docs@) == documents_of(items@, name@, k as int),
            decreases items@.len() - k,
        {
            let ghost before = doc_views(docs@);
            match &items[k] {
                ContentItem::Document(doc) => {
                    if crate::text::same_text(doc.source_name.as_str(), name) {
                        docs.push(doc);
                        assert(doc_views(docs@) =~= before.push(doc@));
                    }
                },
                ContentItem::Static(_) => {},
            }
            k += 1;
        }
        let nav = match &source.config.nav {
            Some(spelled) => convert_nav_config(spelled, &docs),
            None => auto_generate_nav(&docs),
        };
        out.push(SourceNav { source_name: source.config.name.clone(), nav });
        i += 1;
    }
    out
}

/// The navigation of the source `name`: that of the last source of this
/// name, and none where there is no such source.
pub fn nav_for_source(navs: &Vec<SourceNav>, name: &str) -> (r: Vec<NavSection>)
    ensures
        ({
            let k = last_nav_named(navs@, name@, navs@.len() as int);
            nav_nodes(r@) == if k >= 0 {
                nav_nodes(navs@[k].nav@)
            } else {
                Seq::empty()
            }
        }),
{
    let mut i: usize = navs.len();
    while i > 0
        invariant
            i <= navs@.len(),
            last_nav_named(navs@, name@, navs@.len() as int) == last_nav_named(
                navs@,
                name@,
                i as int,
            ),
        decreases i,
    {
        if crate::text::same_text(navs[i - 1].source_name.as_str(), name) {
            return crate::render::clone_nav(&navs[i - 1].nav);
        }
        i -= 1;
    }
    let r: Vec<NavSection> = Vec::new();
    assert(nav_nodes(r@) =~= Seq::<NavNode>::empty());
    r
}

/// The last of the first `n` navigations that belongs to the source
/// `name`; -1 where none does.
pub open spec fn last_nav_named(navs: Seq<SourceNav>, name: Seq<char>, n: int) -> int
    decreases n,
{
    if n <= 0 {
        -1
    } else if navs[n - 1].source_name@ == name {
        n - 1
    } else {
        last_nav_named(navs, name, n - 1)
    }
}

} // verus!
