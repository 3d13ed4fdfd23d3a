//! What holds of the navigation that is made from the documents alone.
//!
//! The tree of documents keeps the links of each level and its directories
//! in order. So the tree, and with it the navigation, is the same in
//! whatever order the documents are put into it.

use vstd::prelude::*;
use crate::config::NavItemView;
use crate::document::{ContentItem, DocumentView};
use crate::nav::{
    auto_nav, converted_item, converted_nav, dir_slot, doc_at_path, doc_link, doc_parts,
    documents_of, empty_tree, item_options, lemma_doc_at_path, link_before, link_slot,
    LinkEntryView, NavDir, NavTree, source_nav, tree_of, with_entry,
};
use crate::text::{lemma_lex_irreflexive, lemma_lex_total, lemma_lex_transitive, lex_less};

verus! {

// ---------------------------------------------------------------------------
// The order of links
// ---------------------------------------------------------------------------

/// No link comes before itself, and of two links at most one comes before
/// the other.
pub proof fn lemma_link_before_asymmetric(x: LinkEntryView, y: LinkEntryView)
    requires
        link_before(x, y),
    ensures
        !link_before(y, x),
{
    lemma_lex_total(x.title, y.title);
    lemma_lex_total(x.path, y.path);
    lemma_lex_irreflexive(x.path);
}

/// The order of links is transitive.
pub proof fn lemma_link_before_transitive(x: LinkEntryView, y: LinkEntryView, z: LinkEntryView)
    requires
        link_before(x, y),
        link_before(y, z),
    ensures
        link_before(x, z),
{
    lemma_lex_total(x.title, y.title);
    lemma_lex_total(y.title, z.title);
    lemma_lex_total(x.title, z.title);
    if x.is_index == y.is_index && y.is_index == z.is_index {
        if x.title != y.title && y.title != z.title {
            lemma_lex_transitive(x.title, y.title, z.title);
            lemma_lex_irreflexive(x.title);
        } else if x.title == y.title && y.title == z.title {
            lemma_lex_transitive(x.path, y.path, z.path);
        }
    }
}

/// Of two links with different paths one comes before the other.
pub proof fn lemma_link_before_total(x: LinkEntryView, y: LinkEntryView)
    requires
        x.path != y.path,
    ensures
        link_before(x, y) || link_before(y, x),
{
    lemma_lex_total(x.title, y.title);
    lemma_lex_total(x.path, y.path);
}

/// Where a new link is put: after every link that it does not come before,
/// from `from` on, and before one that it comes before.
pub proof fn lemma_link_slot(links: Seq<LinkEntryView>, e: LinkEntryView, from: int)
    requires
        0 <= from <= links.len(),
    ensures
        from <= link_slot(links, e, from) <= links.len(),
        forall|k: int| from <= k < link_slot(links, e, from) ==> !link_before(e, #[trigger] links[k]),
        link_slot(links, e, from) < links.len() ==> link_before(
            e,
            links[link_slot(links, e, from)],
        ),
    decreases links.len() - from,
{
    if from < links.len() && !link_before(e, links[from]) {
        lemma_link_slot(links, e, from + 1);
    }
}

/// The place that has the two marks of the slot is the slot.
pub proof fn lemma_link_slot_is(links: Seq<LinkEntryView>, e: LinkEntryView, i: int)
    requires
        0 <= i <= links.len(),
        forall|k: int| 0 <= k < i ==> !link_before(e, #[trigger] links[k]),
        i < links.len() ==> link_before(e, links[i]),
    ensures
        link_slot(links, e, 0) == i,
{
    lemma_link_slot_from(links, e, i, 0);
}

/// [`lemma_link_slot_is`], for a search that begins at `from`.
proof fn lemma_link_slot_from(links: Seq<LinkEntryView>, e: LinkEntryView, i: int, from: int)
    requires
        0 <= from <= i <= links.len(),
        forall|k: int| 0 <= k < i ==> !link_before(e, #[trigger] links[k]),
        i < links.len() ==> link_before(e, links[i]),
    ensures
        link_slot(links, e, from) == i,
    decreases i - from,
{
    if from < i {
        lemma_link_slot_from(links, e, i, from + 1);
    }
}

/// The links of a level with one more link, put in its place.
pub open spec fn with_link(links: Seq<LinkEntryView>, e: LinkEntryView) -> Seq<LinkEntryView> {
    links.insert(link_slot(links, e, 0), e)
}

/// Two links with different paths can be put among the links of a level in
/// either order.
pub proof fn lemma_links_commute(links: Seq<LinkEntryView>, x: LinkEntryView, y: LinkEntryView)
    requires
        x.path != y.path,
    ensures
        with_link(with_link(links, x), y) == with_link(with_link(links, y), x),
{
    lemma_link_before_total(x, y);
    if link_before(x, y) {
        lemma_links_commute_ordered(links, x, y);
    } else {
        lemma_links_commute_ordered(links, y, x);
    }
}

/// [`lemma_links_commute`], where the first link comes before the second.
proof fn lemma_links_commute_ordered(links: Seq<LinkEntryView>, x: LinkEntryView, y: LinkEntryView)
    requires
        link_before(x, y),
    ensures
        with_link(with_link(links, x), y) == with_link(with_link(links, y), x),
{
    let i = link_slot(links, x, 0);
    let j = link_slot(links, y, 0);
    lemma_link_slot(links, x, 0);
    lemma_link_slot(links, y, 0);
    lemma_link_before_asymmetric(x, y);
    // the second link does not come before what the first does not
    assert forall|k: int| 0 <= k < i implies !link_before(y, #[trigger] links[k]) by {
        if link_before(y, links[k]) {
            lemma_link_before_transitive(x, y, links[k]);
        }
    }
    assert(i <= j) by {
        if j < i {
            assert(!link_before(y, links[j]));
        }
    }
    let with_x = links.insert(i, x);
    let with_y = links.insert(j, y);
    // the second link after the first
    assert forall|k: int| 0 <= k < j + 1 implies !link_before(y, #[trigger] with_x[k]) by {
        if k < i {
            assert(with_x[k] == links[k]);
        } else if k == i {
            assert(with_x[k] == x);
        } else {
            assert(with_x[k] == links[k - 1]);
        }
    }
    if j + 1 < with_x.len() {
        assert(with_x[j + 1] == links[j]);
    }
    lemma_link_slot_is(with_x, y, j + 1);
    // the first link after the second
    assert forall|k: int| 0 <= k < i implies !link_before(x, #[trigger] with_y[k]) by {
        assert(with_y[k] == links[k]);
    }
    if i < j {
        assert(with_y[i] == links[i]);
    } else {
        assert(with_y[i] == y);
    }
    lemma_link_slot_is(with_y, x, i);
    assert(with_x.insert(j + 1, y) =~= with_y.insert(i, x));
}

/// Whether no link stands before one that comes before it.
pub open spec fn links_sorted(links: Seq<LinkEntryView>) -> bool {
    forall|i: int, j: int|
        0 <= i < j < links.len() ==> !link_before(#[trigger] links[j], #[trigger] links[i])
}

/// Links in order stay in order when one is put among them.
pub proof fn lemma_with_link_sorted(links: Seq<LinkEntryView>, e: LinkEntryView)
    requires
        links_sorted(links),
    ensures
        links_sorted(with_link(links, e)),
{
    let k = link_slot(links, e, 0);
    lemma_link_slot(links, e, 0);
    let after = with_link(links, e);
    assert forall|i: int, j: int| 0 <= i < j < after.len() implies !link_before(
        #[trigger] after[j],
        #[trigger] after[i],
    ) by {
        if j < k {
            assert(after[i] == links[i] && after[j] == links[j]);
        } else if j == k {
            assert(after[i] == links[i]);
        } else {
            assert(after[j] == links[j - 1]);
            if i < k {
                assert(after[i] == links[i]);
            } else if i == k {
                // what stands after the slot does not come before the new
                // link: else it would come before the link at the slot
                if link_before(links[j - 1], e) {
                    lemma_link_before_transitive(links[j - 1], e, links[k]);
                    if j - 1 == k {
                        lemma_link_before_asymmetric(links[k], links[k]);
                    }
                }
            } else {
                assert(after[i] == links[i - 1]);
            }
        }
    }
}

// ---------------------------------------------------------------------------
// The order of directories
// ---------------------------------------------------------------------------

/// Whether the directories stand in the order of their names, each name
/// once.
pub open spec fn names_sorted(children: Seq<NavDir>) -> bool {
    forall|i: int, j: int|
        0 <= i < j < children.len() ==> lex_less(
            (#[trigger] children[i]).name,
            (#[trigger] children[j]).name,
        )
}

/// Whether, at every level of the tree, the directories stand in the order
/// of their names, each name once.
pub open spec fn well_formed(tree: NavTree) -> bool
    decreases tree,
{
    &&& names_sorted(tree.children)
    &&& forall|k: int|
        0 <= k < tree.children.len() ==> well_formed((#[trigger] tree.children[k]).node)
}

/// Where a directory name belongs: after every name that comes before it,
/// from `from` on, and at or before one that does not.
pub proof fn lemma_dir_slot(children: Seq<NavDir>, name: Seq<char>, from: int)
    requires
        0 <= from <= children.len(),
    ensures
        from <= dir_slot(children, name, from) <= children.len(),
        forall|k: int|
            from <= k < dir_slot(children, name, from) ==> lex_less(
                (#[trigger] children[k]).name,
                name,
            ),
        dir_slot(children, name, from) < children.len() ==> !lex_less(
            children[dir_slot(children, name, from)].name,
            name,
        ),
    decreases children.len() - from,
{
    if from < children.len() && lex_less(children[from].name, name) {
        lemma_dir_slot(children, name, from + 1);
    }
}

/// The place that has the two marks of the slot is the slot.
pub proof fn lemma_dir_slot_is(children: Seq<NavDir>, name: Seq<char>, i: int)
    requires
        0 <= i <= children.len(),
        forall|k: int| 0 <= k < i ==> lex_less((#[trigger] children[k]).name, name),
        i < children.len() ==> !lex_less(children[i].name, name),
    ensures
        dir_slot(children, name, 0) == i,
{
    lemma_dir_slot_from(children, name, i, 0);
}

/// [`lemma_dir_slot_is`], for a search that begins at `from`.
proof fn lemma_dir_slot_from(children: Seq<NavDir>, name: Seq<char>, i: int, from: int)
    requires
        0 <= from <= i <= children.len(),
        forall|k: int| 0 <= k < i ==> lex_less((#[trigger] children[k]).name, name),
        i < children.len() ==> !lex_less(children[i].name, name),
    ensures
        dir_slot(children, name, from) == i,
    decreases i - from,
{
    if from < i {
        lemma_dir_slot_from(children, name, i, from + 1);
    }
}

/// Whether the directories have one of the given name.
pub open spec fn has_dir(children: Seq<NavDir>, name: Seq<char>) -> bool {
    dir_slot(children, name, 0) < children.len() && children[dir_slot(children, name, 0)].name
        == name
}

/// The directory of the given name, or the empty tree where there is
/// none.
pub open spec fn dir_node(children: Seq<NavDir>, name: Seq<char>) -> NavTree {
    if has_dir(children, name) {
        children[dir_slot(children, name, 0)].node
    } else {
        empty_tree()
    }
}

/// The directories with `node` as the directory named `name`: in the place
/// of the one that has the name, or as a new one in the place where the
/// name belongs.
pub open spec fn with_dir(children: Seq<NavDir>, name: Seq<char>, node: NavTree) -> Seq<NavDir> {
    if has_dir(children, name) {
        children.update(dir_slot(children, name, 0), NavDir { name, node })
    } else {
        children.insert(dir_slot(children, name, 0), NavDir { name, node })
    }
}

/// A document that lies in a directory is put into the tree of that
/// directory.
pub proof fn lemma_with_entry_descends(tree: NavTree, parts: Seq<Seq<char>>, e: LinkEntryView)
    requires
        parts.len() > 1,
    ensures
        with_entry(tree, parts, e) == (NavTree {
            links: tree.links,
            children: with_dir(
                tree.children,
                parts[0],
                with_entry(dir_node(tree.children, parts[0]), parts.drop_first(), e),
            ),
        }),
{
}

/// Directories in order stay in order when one is put among them.
pub proof fn lemma_with_dir_sorted(children: Seq<NavDir>, name: Seq<char>, node: NavTree)
    requires
        names_sorted(children),
    ensures
        names_sorted(with_dir(children, name, node)),
        has_dir(with_dir(children, name, node), name),
        dir_node(with_dir(children, name, node), name) == node,
        dir_slot(with_dir(children, name, node), name, 0) == dir_slot(children, name, 0),
{
    let k = dir_slot(children, name, 0);
    lemma_dir_slot(children, name, 0);
    let after = with_dir(children, name, node);
    if has_dir(children, name) {
        assert forall|i: int, j: int| 0 <= i < j < after.len() implies lex_less(
            (#[trigger] after[i]).name,
            (#[trigger] after[j]).name,
        ) by {
            assert(after[i].name == children[i].name);
            assert(after[j].name == children[j].name);
        }
        assert forall|i: int| 0 <= i < k implies lex_less((#[trigger] after[i]).name, name) by {
            assert(after[i] == children[i]);
        }
        lemma_lex_irreflexive(name);
        lemma_dir_slot_is(after, name, k);
    } else {
        assert forall|i: int, j: int| 0 <= i < j < after.len() implies lex_less(
            (#[trigger] after[i]).name,
            (#[trigger] after[j]).name,
        ) by {
            if j < k {
                assert(after[i] == children[i] && after[j] == children[j]);
            } else if j == k {
                assert(after[i] == children[i]);
            } else {
                assert(after[j] == children[j - 1]);
                // the names from the slot on come after the new name
                lemma_lex_total(children[k].name, name);
                if j - 1 > k {
                    assert(lex_less(children[k].name, children[j - 1].name));
                    lemma_lex_transitive(name, children[k].name, children[j - 1].name);
                }
                if i < k {
                    assert(after[i] == children[i]);
                    lemma_lex_transitive(children[i].name, name, children[j - 1].name);
                } else if i == k {
                } else {
                    assert(after[i] == children[i - 1]);
                }
            }
        }
        assert forall|i: int| 0 <= i < k implies lex_less((#[trigger] after[i]).name, name) by {
            assert(after[i] == children[i]);
        }
        lemma_lex_irreflexive(name);
        lemma_dir_slot_is(after, name, k);
    }
}

/// A tree whose directories are in order stays so when a document is put
/// into it.
pub proof fn lemma_with_entry_well_formed(tree: NavTree, parts: Seq<Seq<char>>, e: LinkEntryView)
    requires
        well_formed(tree),
    ensures
        well_formed(with_entry(tree, parts, e)),
    decreases parts.len(),
{
    if parts.len() > 1 {
        lemma_with_entry_descends(tree, parts, e);
        let name = parts[0];
        let k = dir_slot(tree.children, name, 0);
        lemma_dir_slot(tree.children, name, 0);
        let inner = dir_node(tree.children, name);
        assert(well_formed(inner));
        lemma_with_entry_well_formed(inner, parts.drop_first(), e);
        let node = with_entry(inner, parts.drop_first(), e);
        lemma_with_dir_sorted(tree.children, name, node);
        let after = with_dir(tree.children, name, node);
        assert forall|i: int| 0 <= i < after.len() implies well_formed(
            (#[trigger] after[i]).node,
        ) by {
            if has_dir(tree.children, name) {
                if i != k {
                    assert(after[i] == tree.children[i]);
                }
            } else {
                if i < k {
                    assert(after[i] == tree.children[i]);
                } else if i > k {
                    assert(after[i] == tree.children[i - 1]);
                }
            }
        }
    }
}

/// Putting a directory among the others moves another name's place by one
/// where a new directory comes to stand before it, and leaves the directory
/// of that name as it is.
pub proof fn lemma_with_dir_other(
    children: Seq<NavDir>,
    name: Seq<char>,
    node: NavTree,
    other: Seq<char>,
)
    requires
        names_sorted(children),
        name != other,
    ensures
        dir_slot(with_dir(children, name, node), other, 0) == dir_slot(children, other, 0) + (
        if !has_dir(children, name) && lex_less(name, other) {
            1int
        } else {
            0int
        }),
        has_dir(with_dir(children, name, node), other) == has_dir(children, other),
        dir_node(with_dir(children, name, node), other) == dir_node(children, other),
{
    let a = dir_slot(children, name, 0);
    let b = dir_slot(children, other, 0);
    lemma_dir_slot(children, name, 0);
    lemma_dir_slot(children, other, 0);
    lemma_lex_total(name, other);
    let after = with_dir(children, name, node);
    if has_dir(children, name) {
        // the names are as they were
        assert forall|k: int| 0 <= k < b implies lex_less((#[trigger] after[k]).name, other) by {
            assert(after[k].name == children[k].name);
        }
        if b < children.len() {
            assert(after[b].name == children[b].name);
        }
        lemma_dir_slot_is(after, other, b);
        if b < children.len() && b != a {
            assert(after[b] == children[b]);
        }
    } else if lex_less(name, other) {
        // the new directory stands before the place of the other name
        assert(a <= b) by {
            if b < a {
                assert(lex_less(children[b].name, name));
                lemma_lex_transitive(children[b].name, name, other);
            }
        }
        assert forall|k: int| 0 <= k < b + 1 implies lex_less((#[trigger] after[k]).name, other) by {
            if k < a {
                assert(after[k] == children[k]);
            } else if k == a {
            } else {
                assert(after[k] == children[k - 1]);
            }
        }
        if b + 1 < after.len() {
            assert(after[b + 1] == children[b]);
        }
        lemma_dir_slot_is(after, other, b + 1);
    } else {
        // the new directory stands at or after the place of the other name
        assert(lex_less(other, name));
        assert(b <= a) by {
            if a < b {
                assert(lex_less(children[a].name, other));
                lemma_lex_transitive(children[a].name, other, name);
            }
        }
        assert forall|k: int| 0 <= k < b implies lex_less((#[trigger] after[k]).name, other) by {
            assert(after[k] == children[k]);
        }
        if b < after.len() {
            if b < a {
                assert(after[b] == children[b]);
            } else {
                assert(after[b].name == name);
                assert(!lex_less(name, other));
            }
        }
        lemma_dir_slot_is(after, other, b);
        if b == a {
            // the other name has no directory: one of that name would stand
            // where the new one was put
            if b < children.len() && children[b].name == other {
                assert(!lex_less(children[a].name, name));
                assert(false);
            }
        }
    }
}

/// Two directories of different names can be put among the others in
/// either order.
pub proof fn lemma_with_dir_commute(
    children: Seq<NavDir>,
    first_name: Seq<char>,
    first_node: NavTree,
    second_name: Seq<char>,
    second_node: NavTree,
)
    requires
        names_sorted(children),
        first_name != second_name,
    ensures
        with_dir(with_dir(children, first_name, first_node), second_name, second_node) == with_dir(
            with_dir(children, second_name, second_node),
            first_name,
            first_node,
        ),
{
    lemma_lex_total(first_name, second_name);
    if lex_less(first_name, second_name) {
        lemma_with_dir_commute_ordered(children, first_name, first_node, second_name, second_node);
    } else {
        lemma_with_dir_commute_ordered(children, second_name, second_node, first_name, first_node);
    }
}

/// [`lemma_with_dir_commute`], where the first name comes before the
/// second.
proof fn lemma_with_dir_commute_ordered(
    children: Seq<NavDir>,
    first_name: Seq<char>,
    first_node: NavTree,
    second_name: Seq<char>,
    second_node: NavTree,
)
    requires
        names_sorted(children),
        lex_less(first_name, second_name),
    ensures
        with_dir(with_dir(children, first_name, first_node), second_name, second_node) == with_dir(
            with_dir(children, second_name, second_node),
            first_name,
            first_node,
        ),
{
    lemma_lex_total(first_name, second_name);
    lemma_lex_irreflexive(first_name);
    let a = dir_slot(children, first_name, 0);
    let b = dir_slot(children, second_name, 0);
    lemma_dir_slot(children, first_name, 0);
    lemma_dir_slot(children, second_name, 0);
    lemma_with_dir_other(children, first_name, first_node, second_name);
    lemma_with_dir_other(children, second_name, second_node, first_name);
    assert(a <= b) by {
        if b < a {
            assert(lex_less(children[b].name, first_name));
            lemma_lex_transitive(children[b].name, first_name, second_name);
        }
    }
    if has_dir(children, first_name) {
        // the first name stands before the place of the second
        assert(a < b) by {
            if a == b {
                assert(!lex_less(children[b].name, second_name));
            }
        }
    }
    let first = with_dir(children, first_name, first_node);
    let second = with_dir(children, second_name, second_node);
    assert(with_dir(first, second_name, second_node) =~= with_dir(second, first_name, first_node));
}

/// Two documents with different paths can be put into the tree in either
/// order.
pub proof fn lemma_entries_commute(
    tree: NavTree,
    first_parts: Seq<Seq<char>>,
    first: LinkEntryView,
    second_parts: Seq<Seq<char>>,
    second: LinkEntryView,
)
    requires
        well_formed(tree),
        first.path != second.path,
    ensures
        with_entry(with_entry(tree, first_parts, first), second_parts, second) == with_entry(
            with_entry(tree, second_parts, second),
            first_parts,
            first,
        ),
    decreases first_parts.len() + second_parts.len(),
{
    if first_parts.len() <= 1 && second_parts.len() <= 1 {
        lemma_links_commute(tree.links, first, second);
    } else if first_parts.len() <= 1 {
        lemma_with_entry_descends(tree, second_parts, second);
        lemma_with_entry_descends(with_entry(tree, first_parts, first), second_parts, second);
    } else if second_parts.len() <= 1 {
        lemma_with_entry_descends(tree, first_parts, first);
        lemma_with_entry_descends(with_entry(tree, second_parts, second), first_parts, first);
    } else {
        let c = tree.children;
        let first_name = first_parts[0];
        let second_name = second_parts[0];
        let first_rest = first_parts.drop_first();
        let second_rest = second_parts.drop_first();
        lemma_with_entry_descends(tree, first_parts, first);
        lemma_with_entry_descends(tree, second_parts, second);
        let first_node = with_entry(dir_node(c, first_name), first_rest, first);
        let second_node = with_entry(dir_node(c, second_name), second_rest, second);
        let with_first = with_entry(tree, first_parts, first);
        let with_second = with_entry(tree, second_parts, second);
        lemma_with_entry_descends(with_first, second_parts, second);
        lemma_with_entry_descends(with_second, first_parts, first);
        lemma_with_dir_sorted(c, first_name, first_node);
        lemma_with_dir_sorted(c, second_name, second_node);
        lemma_dir_slot(c, first_name, 0);
        lemma_dir_slot(c, second_name, 0);
        if first_name == second_name {
            // both lie in one directory
            let inner = dir_node(c, first_name);
            assert(well_formed(inner));
            lemma_entries_commute(inner, first_rest, first, second_rest, second);
            let both = with_entry(first_node, second_rest, second);
            assert(both == with_entry(second_node, first_rest, first));
            let with_both = with_dir(c, first_name, both);
            assert(with_dir(with_dir(c, first_name, first_node), first_name, both) =~= with_both);
            assert(with_dir(with_dir(c, first_name, second_node), first_name, both) =~= with_both);
        } else {
            lemma_with_dir_other(c, first_name, first_node, second_name);
            lemma_with_dir_other(c, second_name, second_node, first_name);
            lemma_with_dir_commute(c, first_name, first_node, second_name, second_node);
        }
    }
}

// ---------------------------------------------------------------------------
// The order of the documents
// ---------------------------------------------------------------------------

/// Whether no two of the documents have the same path.
pub open spec fn distinct_paths(docs: Seq<DocumentView>) -> bool {
    forall|i: int, j: int|
        0 <= i < j < docs.len() ==> (#[trigger] docs[i]).source_path != (
        #[trigger] docs[j]).source_path
}

/// Whether, at every level of the tree, the links stand in their order: an
/// index file first, then by title.
pub open spec fn links_in_order(tree: NavTree) -> bool
    decreases tree,
{
    &&& links_sorted(tree.links)
    &&& forall|k: int|
        0 <= k < tree.children.len() ==> links_in_order((#[trigger] tree.children[k]).node)
}

/// A tree whose links are in order stays so when a document is put into
/// it.
pub proof fn lemma_with_entry_links_in_order(
    tree: NavTree,
    parts: Seq<Seq<char>>,
    e: LinkEntryView,
)
    requires
        links_in_order(tree),
    ensures
        links_in_order(with_entry(tree, parts, e)),
    decreases parts.len(),
{
    if parts.len() <= 1 {
        lemma_with_link_sorted(tree.links, e);
    } else {
        lemma_with_entry_descends(tree, parts, e);
        let name = parts[0];
        let k = dir_slot(tree.children, name, 0);
        lemma_dir_slot(tree.children, name, 0);
        let inner = dir_node(tree.children, name);
        assert(links_in_order(inner)) by {
            assert(links_sorted(empty_tree().links));
        }
        lemma_with_entry_links_in_order(inner, parts.drop_first(), e);
        let node = with_entry(inner, parts.drop_first(), e);
        let after = with_dir(tree.children, name, node);
        assert forall|i: int| 0 <= i < after.len() implies links_in_order(
            (#[trigger] after[i]).node,
        ) by {
            if has_dir(tree.children, name) {
                if i != k {
                    assert(after[i] == tree.children[i]);
                }
            } else {
                if i < k {
                    assert(after[i] == tree.children[i]);
                } else if i > k {
                    assert(after[i] == tree.children[i - 1]);
                }
            }
        }
    }
}

/// At every level of the tree of documents the links stand in their order:
/// an index file first, then by title.
pub proof fn lemma_tree_of_links_in_order(docs: Seq<DocumentView>, n: int)
    ensures
        links_in_order(tree_of(docs, n)),
    decreases n,
{
    if n > 0 {
        lemma_tree_of_links_in_order(docs, n - 1);
        lemma_with_entry_links_in_order(
            tree_of(docs, n - 1),
            doc_parts(docs[n - 1]),
            doc_link(docs[n - 1]),
        );
    }
}

/// The tree of documents has its directories in order.
pub proof fn lemma_tree_of_well_formed(docs: Seq<DocumentView>, n: int)
    ensures
        well_formed(tree_of(docs, n)),
    decreases n,
{
    if n > 0 {
        lemma_tree_of_well_formed(docs, n - 1);
        lemma_with_entry_well_formed(
            tree_of(docs, n - 1),
            doc_parts(docs[n - 1]),
            doc_link(docs[n - 1]),
        );
    }
}

/// The tree of the first `n` documents is made of those documents alone.
pub proof fn lemma_tree_of_prefix(a: Seq<DocumentView>, b: Seq<DocumentView>, n: int)
    requires
        forall|i: int| 0 <= i < n ==> a[i] == b[i],
    ensures
        tree_of(a, n) == tree_of(b, n),
    decreases n,
{
    if n > 0 {
        lemma_tree_of_prefix(a, b, n - 1);
    }
}

/// The documents with the `k`th and the one after it in each other's
/// place.
pub open spec fn swapped(docs: Seq<DocumentView>, k: int) -> Seq<DocumentView> {
    docs.update(k, docs[k + 1]).update(k + 1, docs[k])
}

/// Two documents next to each other can change places.
proof fn lemma_swap(docs: Seq<DocumentView>, k: int, n: int)
    requires
        0 <= k,
        k + 2 <= n <= docs.len(),
        docs[k].source_path != docs[k + 1].source_path,
    ensures
        tree_of(docs, n) == tree_of(swapped(docs, k), n),
    decreases n,
{
    let other = swapped(docs, k);
    if n == k + 2 {
        lemma_tree_of_prefix(docs, other, k);
        lemma_tree_of_well_formed(docs, k);
        assert(tree_of(docs, k + 1) == with_entry(
            tree_of(docs, k),
            doc_parts(docs[k]),
            doc_link(docs[k]),
        ));
        assert(tree_of(other, k + 1) == with_entry(
            tree_of(other, k),
            doc_parts(other[k]),
            doc_link(other[k]),
        ));
        lemma_entries_commute(
            tree_of(docs, k),
            doc_parts(docs[k]),
            doc_link(docs[k]),
            doc_parts(docs[k + 1]),
            doc_link(docs[k + 1]),
        );
    } else {
        lemma_swap(docs, k, n - 1);
    }
}

/// A document can be taken from its place and put last.
proof fn lemma_move_to_end(docs: Seq<DocumentView>, k: int)
    requires
        0 <= k < docs.len(),
        distinct_paths(docs),
    ensures
        tree_of(docs, docs.len() as int) == tree_of(
            docs.remove(k).push(docs[k]),
            docs.len() as int,
        ),
    decreases docs.len() - k,
{
    if k == docs.len() - 1 {
        assert(docs.remove(k).push(docs[k]) =~= docs);
    } else {
        let other = swapped(docs, k);
        lemma_swap(docs, k, docs.len() as int);
        assert(distinct_paths(other)) by {
            assert forall|i: int, j: int| 0 <= i < j < other.len() implies (
            #[trigger] other[i]).source_path != (#[trigger] other[j]).source_path by {
                let i0 = if i == k {
                    k + 1
                } else if i == k + 1 {
                    k
                } else {
                    i
                };
                let j0 = if j == k {
                    k + 1
                } else if j == k + 1 {
                    k
                } else {
                    j
                };
                assert(other[i] == docs[i0] && other[j] == docs[j0]);
                if i0 < j0 {
                    assert(docs[i0].source_path != docs[j0].source_path);
                } else {
                    assert(docs[j0].source_path != docs[i0].source_path);
                }
            }
        }
        lemma_move_to_end(other, k + 1);
        assert(other.remove(k + 1).push(other[k + 1]) =~= docs.remove(k).push(docs[k]));
    }
}

/// The tree of documents is the same in whatever order the documents are
/// put into it.
pub proof fn lemma_tree_of_order(a: Seq<DocumentView>, b: Seq<DocumentView>)
    requires
        a.to_multiset() == b.to_multiset(),
        distinct_paths(a),
        distinct_paths(b),
    ensures
        tree_of(a, a.len() as int) == tree_of(b, b.len() as int),
    decreases a.len(),
{
    broadcast use vstd::seq_lib::group_to_multiset_ensures;

    a.to_multiset_ensures();
    b.to_multiset_ensures();
    assert(a.len() == b.len());
    if a.len() > 0 {
        let n = a.len() as int;
        let x = a.last();
        let a0 = a.drop_last();
        assert(a0.push(x) =~= a);
        assert(a.contains(x));
        assert(b.to_multiset().count(x) > 0);
        assert(b.contains(x));
        let k = choose|k: int| 0 <= k < b.len() && b[k] == x;
        let b0 = b.remove(k);
        assert(a0.to_multiset() =~= a.to_multiset().remove(x)) by {
            assert(a0 =~= a.remove(n - 1));
        }
        assert(b0.to_multiset() =~= b.to_multiset().remove(x));
        assert(distinct_paths(a0)) by {
            assert forall|i: int, j: int| 0 <= i < j < a0.len() implies (
            #[trigger] a0[i]).source_path != (#[trigger] a0[j]).source_path by {
                assert(a0[i] == a[i] && a0[j] == a[j]);
            }
        }
        assert(distinct_paths(b0)) by {
            assert forall|i: int, j: int| 0 <= i < j < b0.len() implies (
            #[trigger] b0[i]).source_path != (#[trigger] b0[j]).source_path by {
                let i0 = if i < k {
                    i
                } else {
                    i + 1
                };
                let j0 = if j < k {
                    j
                } else {
                    j + 1
                };
                assert(b0[i] == b[i0] && b0[j] == b[j0]);
            }
        }
        lemma_tree_of_order(a0, b0);
        lemma_tree_of_prefix(a, a0, n - 1);
        lemma_move_to_end(b, k);
        let moved = b0.push(x);
        lemma_tree_of_prefix(moved, b0, n - 1);
        assert(moved[n - 1] == x);
    }
}

/// The navigation that is made from the documents of a source does not
/// depend on the order in which the documents were found: two lists of the
/// same documents, each path once, have the same navigation.
pub proof fn lemma_auto_nav_order(a: Seq<DocumentView>, b: Seq<DocumentView>)
    requires
        a.to_multiset() == b.to_multiset(),
        distinct_paths(a),
        distinct_paths(b),
    ensures
        auto_nav(a) == auto_nav(b),
{
    lemma_tree_of_order(a, b);
}

// ---------------------------------------------------------------------------
// Navigation that the configuration spells out
// ---------------------------------------------------------------------------

/// The document of a path is the same in whatever order the documents
/// stand.
pub proof fn lemma_doc_at_path_order(a: Seq<DocumentView>, b: Seq<DocumentView>, path: Seq<char>)
    requires
        a.to_multiset() == b.to_multiset(),
        distinct_paths(a),
        distinct_paths(b),
    ensures
        (doc_at_path(a, path) >= 0) == (doc_at_path(b, path) >= 0),
        doc_at_path(a, path) >= 0 ==> a[doc_at_path(a, path)] == b[doc_at_path(b, path)],
{
    broadcast use vstd::seq_lib::group_to_multiset_ensures;

    lemma_doc_at_path(a, path);
    lemma_doc_at_path(b, path);
    let da = doc_at_path(a, path);
    let db = doc_at_path(b, path);
    if da >= 0 {
        assert(a.contains(a[da]));
        assert(b.to_multiset().count(a[da]) > 0);
        assert(b.contains(a[da]));
        let k = choose|k: int| 0 <= k < b.len() && b[k] == a[da];
        assert(b[k].source_path == path);
        assert(db >= 0);
        if db < k {
            assert(b[db].source_path != b[k].source_path);
        } else if k < db {
            assert(b[k].source_path != b[db].source_path);
        }
    }
    if db >= 0 {
        assert(b.contains(b[db]));
        assert(a.to_multiset().count(b[db]) > 0);
        assert(a.contains(b[db]));
        let k = choose|k: int| 0 <= k < a.len() && a[k] == b[db];
        assert(a[k].source_path == path);
    }
}

/// What becomes of an item of a spelled-out navigation does not depend on
/// the order of the documents.
pub proof fn lemma_converted_item_order(
    item: NavItemView,
    a: Seq<DocumentView>,
    b: Seq<DocumentView>,
)
    requires
        a.to_multiset() == b.to_multiset(),
        distinct_paths(a),
        distinct_paths(b),
    ensures
        converted_item(item, a) == converted_item(item, b),
    decreases item, 0nat,
{
    match item {
        NavItemView::Section { section, items } => {
            lemma_converted_nav_order(items, a, b);
        },
        NavItemView::LinkWithChildren { path, title, children } => {
            lemma_doc_at_path_order(a, b, path);
            lemma_converted_nav_order(children, a, b);
        },
        NavItemView::Titled(entries) => {
            if entries.len() > 0 {
                lemma_doc_at_path_order(a, b, entries[0].1);
            }
        },
        NavItemView::Path(p) => {
            lemma_doc_at_path_order(a, b, p);
        },
    }
}

/// A spelled-out navigation is converted to the same entries in whatever
/// order the documents stand.
pub proof fn lemma_converted_nav_order(
    items: Seq<NavItemView>,
    a: Seq<DocumentView>,
    b: Seq<DocumentView>,
)
    requires
        a.to_multiset() == b.to_multiset(),
        distinct_paths(a),
        distinct_paths(b),
    ensures
        converted_nav(items, a) == converted_nav(items, b),
    decreases items, 1nat,
{
    assert forall|i: int| 0 <= i < items.len() implies item_options(items, a)[i] == item_options(
        items,
        b,
    )[i] by {
        lemma_converted_item_order(items[i], a, b);
    }
    assert(item_options(items, a) =~= item_options(items, b));
}

/// The navigation of a source does not depend on the order in which its
/// documents were found: two lists of the same documents, each path once,
/// have the same navigation, whether the configuration spells it out or
/// not.
pub proof fn lemma_source_nav_order(
    nav: Option<Seq<NavItemView>>,
    a: Seq<DocumentView>,
    b: Seq<DocumentView>,
)
    requires
        a.to_multiset() == b.to_multiset(),
        distinct_paths(a),
        distinct_paths(b),
    ensures
        source_nav(nav, a) == source_nav(nav, b),
{
    match nav {
        Some(items) => {
            lemma_converted_nav_order(items, a, b);
        },
        None => {
            lemma_auto_nav_order(a, b);
        },
    }
}

// ---------------------------------------------------------------------------
// The order of the items
// ---------------------------------------------------------------------------

/// Whether the item is a document of the source `name`.
pub open spec fn document_of_source(item: ContentItem, name: Seq<char>) -> bool {
    item matches ContentItem::Document(doc) && doc.source_name@ == name
}

/// The documents of a source among the first `n` items are made of those
/// items alone.
proof fn lemma_documents_of_prefix(
    a: Seq<ContentItem>,
    b: Seq<ContentItem>,
    name: Seq<char>,
    n: int,
)
    requires
        forall|i: int| 0 <= i < n ==> a[i] == b[i],
    ensures
        documents_of(a, name, n) == documents_of(b, name, n),
    decreases n,
{
    if n > 0 {
        lemma_documents_of_prefix(a, b, name, n - 1);
    }
}

/// Without the `k`th item, the documents of a source are the same but
/// for that item, where it is one of them.
proof fn lemma_documents_of_remove(items: Seq<ContentItem>, name: Seq<char>, k: int, n: int)
    requires
        0 <= k < n <= items.len(),
    ensures
        ({
            let docs = documents_of(items, name, n);
            let place = documents_of(items, name, k).len() as int;
            let without = documents_of(items.remove(k), name, n - 1);
            if document_of_source(items[k], name) {
                place < docs.len() && docs[place] == items[k]->Document_0@ && without
                    == docs.remove(place)
            } else {
                without == docs
            }
        }),
    decreases n,
{
    let rest = items.remove(k);
    let before = documents_of(items, name, k);
    let place = before.len() as int;
    if n == k + 1 {
        lemma_documents_of_prefix(items, rest, name, k);
        if document_of_source(items[k], name) {
            let view = items[k]->Document_0@;
            assert(before.push(view).remove(place) =~= before);
        }
    } else {
        lemma_documents_of_remove(items, name, k, n - 1);
        assert(rest[n - 2] == items[n - 1]);
        if document_of_source(items[k], name) {
            let docs = documents_of(items, name, n - 1);
            if document_of_source(items[n - 1], name) {
                let view = items[n - 1]->Document_0@;
                assert(docs.push(view).remove(place) =~= docs.remove(place).push(view));
            }
        }
    }
}

/// The documents of a source are the same documents in whatever order the
/// items stand.
pub proof fn lemma_documents_of_order(a: Seq<ContentItem>, b: Seq<ContentItem>, name: Seq<char>)
    requires
        a.to_multiset() == b.to_multiset(),
    ensures
        documents_of(a, name, a.len() as int).to_multiset() == documents_of(
            b,
            name,
            b.len() as int,
        ).to_multiset(),
    decreases a.len(),
{
    broadcast use vstd::seq_lib::group_to_multiset_ensures;

    a.to_multiset_ensures();
    b.to_multiset_ensures();
    assert(a.len() == b.len());
    let n = a.len() as int;
    if n > 0 {
        let x = a.last();
        let a0 = a.drop_last();
        assert(a0 =~= a.remove(n - 1));
        assert(a.contains(x));
        assert(b.to_multiset().count(x) > 0);
        assert(b.contains(x));
        let k = choose|k: int| 0 <= k < b.len() && b[k] == x;
        let b0 = b.remove(k);
        assert(a0.to_multiset() =~= a.to_multiset().remove(x));
        assert(b0.to_multiset() =~= b.to_multiset().remove(x));
        lemma_documents_of_order(a0, b0, name);
        lemma_documents_of_prefix(a, a0, name, n - 1);
        lemma_documents_of_remove(b, name, k, n);
        let docs_a0 = documents_of(a0, name, n - 1);
        let docs_b = documents_of(b, name, n);
        let docs_b0 = documents_of(b0, name, n - 1);
        if document_of_source(x, name) {
            let view = x->Document_0@;
            let place = documents_of(b, name, k).len() as int;
            docs_a0.to_multiset_ensures();
            docs_b.to_multiset_ensures();
            assert(documents_of(a, name, n) == docs_a0.push(view));
            assert(docs_b.contains(view));
            assert(docs_b0.to_multiset() =~= docs_b.to_multiset().remove(view));
            assert(docs_b.to_multiset().count(view) > 0);
            assert(docs_b.to_multiset() =~= docs_b.to_multiset().remove(view).insert(view));
        }
    } else {
        assert(documents_of(a, name, 0) =~= documents_of(b, name, 0));
    }
}

/// Documents of which each path occurs once stay so in whatever order
/// they stand.
pub proof fn lemma_distinct_paths_order(a: Seq<DocumentView>, b: Seq<DocumentView>)
    requires
        a.to_multiset() == b.to_multiset(),
        distinct_paths(a),
    ensures
        distinct_paths(b),
{
    broadcast use vstd::seq_lib::group_to_multiset_ensures;

    a.to_multiset_ensures();
    b.to_multiset_ensures();
    assert(a.no_duplicates()) by {
        assert forall|i: int, j: int| 0 <= i < a.len() && 0 <= j < a.len() && i != j implies a[i]
            != a[j] by {
            if i < j {
                assert(a[i].source_path != a[j].source_path);
            } else {
                assert(a[j].source_path != a[i].source_path);
            }
        }
    }
    a.lemma_multiset_has_no_duplicates();
    b.lemma_multiset_has_no_duplicates_conv();
    assert forall|i: int, j: int| 0 <= i < j < b.len() implies (#[trigger] b[i]).source_path != (
    #[trigger] b[j]).source_path by {
        assert(b.contains(b[i]) && b.contains(b[j]));
        assert(a.to_multiset().count(b[i]) > 0 && a.to_multiset().count(b[j]) > 0);
        assert(a.contains(b[i]) && a.contains(b[j]));
        let i0 = choose|m: int| 0 <= m < a.len() && a[m] == b[i];
        let j0 = choose|m: int| 0 <= m < a.len() && a[m] == b[j];
        assert(b[i] != b[j]);
        if i0 < j0 {
            assert(a[i0].source_path != a[j0].source_path);
        } else {
            assert(a[j0].source_path != a[i0].source_path);
        }
    }
}

/// The navigation of a source does not depend on the order in which the
/// items of the site were found: where no two documents of the source have
/// the same path, the same items in another order give the source the same
/// navigation, whether the configuration spells it out or not.
pub proof fn lemma_navigation_order(
    items: Seq<ContentItem>,
    reordered: Seq<ContentItem>,
    name: Seq<char>,
    nav: Option<Seq<NavItemView>>,
)
    requires
        items.to_multiset() == reordered.to_multiset(),
        distinct_paths(documents_of(items, name, items.len() as int)),
    ensures
        source_nav(nav, documents_of(items, name, items.len() as int)) == source_nav(
            nav,
            documents_of(reordered, name, reordered.len() as int),
        ),
{
    let a = documents_of(items, name, items.len() as int);
    let b = documents_of(reordered, name, reordered.len() as int);
    lemma_documents_of_order(items, reordered, name);
    lemma_distinct_paths_order(a, b);
    lemma_source_nav_order(nav, a, b);
}

} // verus!
