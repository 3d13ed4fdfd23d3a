//! Path and URL conversion.
//!
//! Three kinds of text are related here: the path of a file relative to the
//! root of its source, the URL path under which the site serves it, and the
//! path of the file that is written for it below the output directory.
//! Paths are `/`-separated text.

use vstd::prelude::*;
use crate::text::{
    append_chars, chars_of, count_leading, count_trailing, ends_with, find_last, has_char,
    has_suffix, last_index_of, lemma_last_index_of, replace_char, replaced, same_chars, slice_of,
    leading_run, lemma_leading_run, string_of, trim_leading, trim_trailing,
};

verus! {

/// The text `index.html`.
pub open spec fn index_html() -> Seq<char> {
    seq!['i', 'n', 'd', 'e', 'x', '.', 'h', 't', 'm', 'l']
}

/// The text `index`.
pub open spec fn index_stem() -> Seq<char> {
    seq!['i', 'n', 'd', 'e', 'x']
}

/// The text `/index`.
pub open spec fn slash_index() -> Seq<char> {
    seq!['/', 'i', 'n', 'd', 'e', 'x']
}

/// A URL prefix made ready for a path to follow: it ends with a slash.
pub open spec fn with_slash(prefix: Seq<char>) -> Seq<char> {
    if prefix.len() == 0 || prefix.last() != '/' {
        prefix.push('/')
    } else {
        prefix
    }
}

/// Where the last component of a path begins.
pub open spec fn name_start(path: Seq<char>) -> int {
    last_index_of(path, '/') + 1
}

/// The last component of a path.
pub open spec fn file_name(path: Seq<char>) -> Seq<char> {
    path.skip(name_start(path))
}

/// Whether a path names a file: its last component is neither empty nor
/// `..`.
pub open spec fn names_file(path: Seq<char>) -> bool {
    file_name(path).len() > 0 && file_name(path) != seq!['.', '.']
}

/// Whether the last component of a path has an extension: a dot that is not
/// its first character. The component `..` has none.
pub open spec fn has_extension(path: Seq<char>) -> bool {
    last_index_of(file_name(path), '.') > 0 && file_name(path) != seq!['.', '.']
}

/// The extension of the last component, without its dot; empty where there
/// is none.
pub open spec fn extension_of(path: Seq<char>) -> Seq<char> {
    if has_extension(path) {
        file_name(path).skip(last_index_of(file_name(path), '.') + 1)
    } else {
        Seq::empty()
    }
}

/// The last component without its extension.
pub open spec fn file_stem(path: Seq<char>) -> Seq<char> {
    if has_extension(path) {
        file_name(path).take(last_index_of(file_name(path), '.'))
    } else {
        file_name(path)
    }
}

/// A path without the extension of its last component.
pub open spec fn without_extension(path: Seq<char>) -> Seq<char> {
    if has_extension(path) {
        path.take(name_start(path) + last_index_of(file_name(path), '.'))
    } else {
        path
    }
}

/// An extensionless path with a final `index` component, and the slash
/// before it, taken off.
pub open spec fn without_index(stem: Seq<char>) -> Seq<char> {
    if stem == index_stem() {
        Seq::empty()
    } else if ends_with(stem, slash_index()) {
        stem.take(stem.len() - 6)
    } else {
        stem
    }
}

/// The URL path of the document at `path`, below `prefix`.
///
/// The extension goes, backslashes become slashes, an index file stands for
/// its directory, and one trailing slash is taken off unless the URL is the
/// root.
pub open spec fn source_url(path: Seq<char>, prefix: Seq<char>) -> Seq<char> {
    let joined = with_slash(prefix) + without_index(
        replace_char(without_extension(path), '\\', '/'),
    );
    if joined.len() > 1 && joined.last() == '/' {
        joined.drop_last()
    } else {
        joined
    }
}

/// The URL path of the static file at `path`, below `prefix`: the extension
/// stays.
pub open spec fn static_url(path: Seq<char>, prefix: Seq<char>) -> Seq<char> {
    with_slash(prefix) + replace_char(path, '\\', '/')
}

/// `rel` below the directory `base`. An absolute `rel` stands for itself.
pub open spec fn join(base: Seq<char>, rel: Seq<char>) -> Seq<char> {
    if rel.len() > 0 && rel[0] == '/' {
        rel
    } else if base.len() == 0 || base.last() == '/' {
        base + rel
    } else {
        base.push('/') + rel
    }
}

/// The file written for a URL path, below the output directory `out`.
///
/// The root is `index.html`; a URL with a dot in it is used as it stands;
/// any other URL is a directory that holds `index.html`.
pub open spec fn output_path(url: Seq<char>, out: Seq<char>) -> Seq<char> {
    let rest = trim_leading(url, '/');
    if rest.len() == 0 {
        join(out, index_html())
    } else if rest.contains('.') {
        join(out, rest)
    } else {
        join(join(out, rest), index_html())
    }
}

/// The directory that holds the file at `path`; `.` for the empty path and
/// for the root.
pub open spec fn parent_dir(path: Seq<char>) -> Seq<char> {
    let trimmed = trim_trailing(path, '/');
    if trimmed.len() == 0 {
        seq!['.']
    } else if last_index_of(trimmed, '/') < 0 {
        Seq::empty()
    } else {
        let dir = trim_trailing(trimmed.take(last_index_of(trimmed, '/')), '/');
        if dir.len() == 0 {
            seq!['/']
        } else {
            dir
        }
    }
}

/// Executable form of [`with_slash`].
pub fn prefix_with_slash(prefix: &str) -> (r: Vec<char>)
    ensures
        r@ == with_slash(prefix@),
{
    let mut url = chars_of(prefix);
    if url.len() == 0 || url[url.len() - 1] != '/' {
        url.push('/');
    }
    url
}

/// Executable form of [`file_name`].
pub fn name_of(path: &Vec<char>) -> (r: Vec<char>)
    ensures
        r@ == file_name(path@),
{
    proof {
        lemma_last_index_of(path@, '/');
    }
    let start: usize = match find_last(path, '/') {
        Some(i) => {
            assert(i < path.len());
            i + 1
        },
        None => 0,
    };
    slice_of(path, start, path.len())
}

/// Executable form of [`names_file`].
pub fn path_names_file(path: &Vec<char>) -> (r: bool)
    ensures
        r == names_file(path@),
{
    let name = name_of(path);
    let dotdot = name.len() == 2 && name[0] == '.' && name[1] == '.';
    proof {
        if dotdot {
            assert(name@ =~= seq!['.', '.']);
        }
    }
    name.len() > 0 && !dotdot
}

/// Where the extension of a file name begins: the place of its last dot,
/// where it has an extension.
fn extension_dot(name: &Vec<char>) -> (r: Option<usize>)
    ensures
        match r {
            Some(k) => 0 < k < name@.len() && k as int == last_index_of(name@, '.') && name@
                != seq!['.', '.'],
            None => !(last_index_of(name@, '.') > 0 && name@ != seq!['.', '.']),
        },
{
    proof {
        lemma_last_index_of(name@, '.');
    }
    let dotdot = name.len() == 2 && name[0] == '.' && name[1] == '.';
    proof {
        if dotdot {
            assert(name@ =~= seq!['.', '.']);
        }
    }
    match find_last(name, '.') {
        Some(k) => if k > 0 && !dotdot {
            Some(k)
        } else {
            None
        },
        None => None,
    }
}

/// Executable form of [`without_extension`].
pub fn strip_extension(path: &Vec<char>) -> (r: Vec<char>)
    ensures
        r@ == without_extension(path@),
{
    proof {
        lemma_last_index_of(path@, '/');
    }
    let name = name_of(path);
    match extension_dot(&name) {
        Some(k) => slice_of(path, 0, path.len() - name.len() + k),
        None => {
            let r = slice_of(path, 0, path.len());
            assert(r@ == path@);
            r
        },
    }
}

/// Executable form of [`has_extension`].
pub fn path_has_extension(path: &Vec<char>) -> (r: bool)
    ensures
        r == has_extension(path@),
{
    let name = name_of(path);
    extension_dot(&name).is_some()
}

/// Executable form of [`extension_of`].
pub fn extension(path: &Vec<char>) -> (r: Vec<char>)
    ensures
        r@ == extension_of(path@),
{
    let name = name_of(path);
    match extension_dot(&name) {
        Some(k) => slice_of(&name, k + 1, name.len()),
        None => Vec::new(),
    }
}

/// Executable form of [`file_stem`].
pub fn stem_of(path: &Vec<char>) -> (r: Vec<char>)
    ensures
        r@ == file_stem(path@),
{
    let name = name_of(path);
    match extension_dot(&name) {
        Some(k) => slice_of(&name, 0, k),
        None => name,
    }
}

/// Executable form of [`without_index`].
pub fn strip_index(stem: &Vec<char>) -> (r: Vec<char>)
    ensures
        r@ == without_index(stem@),
{
    let index: Vec<char> = vec!['i', 'n', 'd', 'e', 'x'];
    let slash: Vec<char> = vec!['/', 'i', 'n', 'd', 'e', 'x'];
    assert(index@ =~= index_stem());
    assert(slash@ =~= slash_index());
    if same_chars(stem, &index) {
        Vec::new()
    } else if has_suffix(stem, &slash) {
        slice_of(stem, 0, stem.len() - 6)
    } else {
        let r = slice_of(stem, 0, stem.len());
        assert(r@ == stem@);
        r
    }
}

/// Converts the path of a document, relative to its source, to its URL path.
///
/// `installation.md` below `/cli` is `/cli/installation`; `index.md` below
/// `/cli` is `/cli`, and below the empty prefix it is `/`.
pub fn source_path_to_url(path: &str, url_prefix: &str) -> (url: String)
    ensures
        url@ == source_url(path@, url_prefix@),
{
    let mut url = prefix_with_slash(url_prefix);
    let p = chars_of(path);
    let stem = strip_extension(&p);
    let stem = replaced(&stem, '\\', '/');
    let stem = strip_index(&stem);
    append_chars(&mut url, &stem);
    if url.len() > 1 && url[url.len() - 1] == '/' {
        url.pop();
        assert(url@ == source_url(path@, url_prefix@));
    }
    string_of(&url)
}

/// Converts the path of a static file, relative to its source, to its URL
/// path. The file keeps its extension.
pub fn static_path_to_url(path: &str, url_prefix: &str) -> (url: String)
    ensures
        url@ == static_url(path@, url_prefix@),
{
    let mut url = prefix_with_slash(url_prefix);
    let p = chars_of(path);
    let p = replaced(&p, '\\', '/');
    append_chars(&mut url, &p);
    string_of(&url)
}

/// Executable form of [`join`].
pub fn join_path(base: &Vec<char>, rel: &Vec<char>) -> (r: Vec<char>)
    ensures
        r@ == join(base@, rel@),
{
    if rel.len() > 0 && rel[0] == '/' {
        let r = slice_of(rel, 0, rel.len());
        assert(r@ == rel@);
        r
    } else {
        let mut r = slice_of(base, 0, base.len());
        assert(r@ == base@);
        if !(base.len() == 0 || base[base.len() - 1] == '/') {
            r.push('/');
        }
        append_chars(&mut r, rel);
        r
    }
}

/// [`join`] on strings.
pub fn join_paths(base: &str, rel: &str) -> (r: String)
    ensures
        r@ == join(base@, rel@),
{
    let b = chars_of(base);
    let q = chars_of(rel);
    let j = join_path(&b, &q);
    string_of(&j)
}

/// Converts a URL path to the path of the file that is written for it.
///
/// `/cli/installation` becomes `<out>/cli/installation/index.html`, `/`
/// becomes `<out>/index.html`, and `/cli/style.css` stays
/// `<out>/cli/style.css`.
pub fn url_to_output_path(url_path: &str, output_dir: &str) -> (path: String)
    ensures
        path@ == output_path(url_path@, output_dir@),
{
    let url = chars_of(url_path);
    let out = chars_of(output_dir);
    let n = count_leading(&url, '/');
    let rest = slice_of(&url, n, url.len());
    assert(rest@ == trim_leading(url@, '/'));
    let index: Vec<char> = vec!['i', 'n', 'd', 'e', 'x', '.', 'h', 't', 'm', 'l'];
    assert(index@ =~= index_html());
    let joined = if rest.len() == 0 {
        join_path(&out, &index)
    } else if has_char(&rest, '.') {
        join_path(&out, &rest)
    } else {
        let dir = join_path(&out, &rest);
        join_path(&dir, &index)
    };
    string_of(&joined)
}

/// The directory of a configuration file, against which the relative paths
/// in it are resolved.
pub fn base_path_from_config(config_path: &str) -> (base: String)
    ensures
        base@ == parent_dir(config_path@),
{
    let p = chars_of(config_path);
    let t = count_trailing(&p, '/');
    let trimmed = slice_of(&p, 0, p.len() - t);
    assert(trimmed@ == trim_trailing(p@, '/'));
    if trimmed.len() == 0 {
        let dot: Vec<char> = vec!['.'];
        assert(dot@ =~= seq!['.']);
        return string_of(&dot);
    }
    proof {
        lemma_last_index_of(trimmed@, '/');
    }
    match find_last(&trimmed, '/') {
        None => String::new(),
        Some(k) => {
            let head = slice_of(&trimmed, 0, k);
            let t2 = count_trailing(&head, '/');
            let dir = slice_of(&head, 0, head.len() - t2);
            assert(dir@ == trim_trailing(head@, '/'));
            if dir.len() == 0 {
                let root: Vec<char> = vec!['/'];
                assert(root@ =~= seq!['/']);
                string_of(&root)
            } else {
                string_of(&dir)
            }
        },
    }
}

/// A character occurs in a concatenation exactly when it occurs in one of
/// the two parts.
pub proof fn lemma_contains_concat(a: Seq<char>, b: Seq<char>, c: char)
    ensures
        (a + b).contains(c) <==> a.contains(c) || b.contains(c),
{
    if a.contains(c) {
        let k = choose|k: int| 0 <= k < a.len() && a[k] == c;
        assert((a + b)[k] == c);
    }
    if b.contains(c) {
        let k = choose|k: int| 0 <= k < b.len() && b[k] == c;
        assert((a + b)[a.len() + k] == c);
    }
    if (a + b).contains(c) {
        let k = choose|k: int| 0 <= k < (a + b).len() && (a + b)[k] == c;
        if k < a.len() {
            assert(a[k] == c);
        } else {
            assert(b[k - a.len()] == c);
        }
    }
}

/// The URL of a document has a dot exactly when the prefix has one or the
/// path has one besides that of its extension.
pub proof fn lemma_source_url_dot(path: Seq<char>, prefix: Seq<char>)
    ensures
        source_url(path, prefix).len() > 0,
        source_url(path, prefix).contains('.') <==> prefix.contains('.') || without_extension(
            path,
        ).contains('.'),
{
    let stem = without_extension(path);
    let swapped = replace_char(stem, '\\', '/');
    let tail = without_index(swapped);
    let head = with_slash(prefix);
    let joined = head + tail;
    let url = source_url(path, prefix);
    // the replacement keeps every dot and makes none
    if stem.contains('.') {
        let k = choose|k: int| 0 <= k < stem.len() && stem[k] == '.';
        assert(swapped[k] == '.');
    }
    if swapped.contains('.') {
        let k = choose|k: int| 0 <= k < swapped.len() && swapped[k] == '.';
        assert(stem[k] == '.');
    }
    // what is taken off for an index file holds no dot
    if tail.contains('.') {
        let k = choose|k: int| 0 <= k < tail.len() && tail[k] == '.';
        assert(swapped[k] == '.');
    }
    if swapped.contains('.') && !tail.contains('.') {
        let k = choose|k: int| 0 <= k < swapped.len() && swapped[k] == '.';
        if swapped == index_stem() {
            assert(false);
        } else if ends_with(swapped, slash_index()) {
            if k < swapped.len() - 6 {
                assert(tail[k] == '.');
            } else {
                assert(swapped.skip(swapped.len() - 6)[k - (swapped.len() - 6)] == swapped[k]);
                assert(false);
            }
        } else {
            assert(false);
        }
    }
    // the slash after the prefix is no dot
    if head.contains('.') {
        let k = choose|k: int| 0 <= k < head.len() && head[k] == '.';
        assert(prefix[k] == '.');
    }
    if prefix.contains('.') {
        let k = choose|k: int| 0 <= k < prefix.len() && prefix[k] == '.';
        assert(head[k] == '.');
    }
    lemma_contains_concat(head, tail, '.');
    // nor is the trailing slash that is taken off
    if url.contains('.') {
        let k = choose|k: int| 0 <= k < url.len() && url[k] == '.';
        assert(joined[k] == '.');
    }
    if joined.contains('.') {
        let k = choose|k: int| 0 <= k < joined.len() && joined[k] == '.';
        assert(url[k] == '.');
    }
}

/// Leading slashes hold no dot.
pub proof fn lemma_trim_leading_dot(url: Seq<char>)
    ensures
        trim_leading(url, '/').contains('.') <==> url.contains('.'),
{
    lemma_leading_run(url, '/');
    let n = leading_run(url, '/') as int;
    let rest = trim_leading(url, '/');
    if rest.contains('.') {
        let k = choose|k: int| 0 <= k < rest.len() && rest[k] == '.';
        assert(url[n + k] == '.');
    }
    if url.contains('.') {
        let k = choose|k: int| 0 <= k < url.len() && url[k] == '.';
        assert(rest[k - n] == '.');
    }
}

/// A relative path joined to a directory ends with that path.
pub proof fn lemma_join_ends_with(base: Seq<char>, rel: Seq<char>)
    ensures
        ends_with(join(base, rel), rel),
{
    let j = join(base, rel);
    assert(j.skip(j.len() - rel.len()) =~= rel);
}

/// Every file is written below the output directory.
pub proof fn lemma_output_under_root(url: Seq<char>, out: Seq<char>)
    ensures
        crate::text::starts_with(output_path(url, out), out),
{
    lemma_leading_run(url, '/');
    let rest = trim_leading(url, '/');
    if rest.len() > 0 {
        assert(rest[0] == url[leading_run(url, '/') as int]);
    }
    let dir = join(out, rest);
    assert(dir.take(out.len() as int) =~= out);
    assert(join(out, index_html()).take(out.len() as int) =~= out);
    assert(join(dir, index_html()).take(out.len() as int) =~= out);
}

/// What is written for a document follows from its path and prefix alone.
///
/// Where the prefix or the path (its extension aside) has a dot, the URL is
/// used as the file's path as it stands. Otherwise the file is `index.html`:
/// that of the output directory for the root URL, and else that of the
/// directory named by the URL.
pub proof fn lemma_document_output_path(path: Seq<char>, prefix: Seq<char>, out: Seq<char>)
    ensures
        ({
            let url = source_url(path, prefix);
            let rest = trim_leading(url, '/');
            if prefix.contains('.') || without_extension(path).contains('.') {
                output_path(url, out) == join(out, rest)
            } else {
                &&& ends_with(output_path(url, out), index_html())
                &&& output_path(url, out) == if rest.len() == 0 {
                    join(out, index_html())
                } else {
                    join(join(out, rest), index_html())
                }
            }
        }),
{
    let url = source_url(path, prefix);
    let rest = trim_leading(url, '/');
    lemma_source_url_dot(path, prefix);
    lemma_trim_leading_dot(url);
    lemma_join_ends_with(out, index_html());
    lemma_join_ends_with(join(out, rest), index_html());
    if rest.len() == 0 {
        assert(!rest.contains('.'));
    }
}

/// A static file whose path has a dot is written under its own URL.
pub proof fn lemma_static_output_path(path: Seq<char>, prefix: Seq<char>, out: Seq<char>)
    requires
        path.contains('.'),
    ensures
        output_path(static_url(path, prefix), out) == join(
            out,
            trim_leading(static_url(path, prefix), '/'),
        ),
{
    let url = static_url(path, prefix);
    let swapped = replace_char(path, '\\', '/');
    let k = choose|k: int| 0 <= k < path.len() && path[k] == '.';
    assert(swapped[k] == '.');
    lemma_contains_concat(with_slash(prefix), swapped, '.');
    lemma_trim_leading_dot(url);
}

} // verus!
