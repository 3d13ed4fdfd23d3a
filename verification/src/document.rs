//! Documents and static files, as they are found in a source.

use vstd::prelude::*;
use crate::paths::{file_stem, names_file, path_names_file, stem_of};
use crate::text::{
    chars_of, count_leading, count_leading_space, find_from, index_from, leading_space,
    lemma_index_from, same_chars, slice_of, string_of, trim_leading,
};
use crate::util::{title_case_chars, title_cased};

verus! {

/// A value of the YAML data model, as `serde_yaml` holds it.
#[verifier::external_type_specification]
#[verifier::external_body]
pub struct ExYamlValue(serde_yaml::Value);

/// `Clone` for `serde_yaml::Value`: the copy is the same value.
#[verifier::external_body]
pub(crate) fn clone_yaml(v: &serde_yaml::Value) -> (r: serde_yaml::Value)
    ensures
        r == *v,
{
    v.clone()
}

/// A front-matter field that the library gives no meaning to. Templates
/// read it under its key.
pub struct ExtraField {
    pub key: String,
    pub value: serde_yaml::Value,
}

/// The metadata at the head of a document.
pub struct FrontMatter {
    /// The title of the page; the file name gives one where this is absent.
    pub title: Option<String>,
    /// A description of the page.
    pub description: Option<String>,
    /// Whether the page is left out of the navigation.
    pub hidden: bool,
    /// A slug that replaces the one made from the file name.
    pub slug: Option<String>,
    /// Every other field.
    pub extra: Vec<ExtraField>,
}

impl Default for FrontMatter {
    /// Front matter that says nothing.
    fn default() -> (r: Self)
        ensures
            r.title is None,
            r.description is None,
            !r.hidden,
            r.slug is None,
            r.extra@.len() == 0,
    {
        FrontMatter { title: None, description: None, hidden: false, slug: None, extra: Vec::new() }
    }
}

/// A file that is copied to the output as it is.
pub struct StaticFile {
    /// The path below the root of the source.
    pub source_path: String,
    /// The URL path under which the file is served.
    pub output_path: String,
}

impl StaticFile {
    /// A static file of the source `_source_name`.
    pub fn new(_source_name: String, source_path: String, output_path: String) -> (r: Self)
        ensures
            r.source_path@ == source_path@,
            r.output_path@ == output_path@,
    {
        StaticFile { source_path, output_path }
    }
}

/// A file that is rendered to a page.
pub struct Document {
    /// The name of the source that the document belongs to.
    pub source_name: String,
    /// The path below the root of the source.
    pub source_path: String,
    /// The URL path under which the page is served.
    pub url_path: String,
    /// The metadata at the head of the file.
    pub front_matter: FrontMatter,
    /// The text of the file after the front matter.
    pub raw_content: String,
}

/// What can be found in a source.
pub enum ContentItem {
    Document(Document),
    Static(StaticFile),
}

/// The mathematical form of a document: what the library reads of it.
pub struct DocumentView {
    pub source_name: Seq<char>,
    pub source_path: Seq<char>,
    pub url_path: Seq<char>,
    pub title: Option<Seq<char>>,
    pub description: Option<Seq<char>>,
    pub hidden: bool,
    pub slug: Option<Seq<char>>,
    pub raw_content: Seq<char>,
}

/// The text of a string that may be absent.
pub open spec fn opt_text(o: Option<String>) -> Option<Seq<char>> {
    match o {
        Some(s) => Some(s@),
        None => None,
    }
}

impl View for Document {
    type V = DocumentView;

    open spec fn view(&self) -> DocumentView {
        DocumentView {
            source_name: self.source_name@,
            source_path: self.source_path@,
            url_path: self.url_path@,
            title: opt_text(self.front_matter.title),
            description: opt_text(self.front_matter.description),
            hidden: self.front_matter.hidden,
            slug: opt_text(self.front_matter.slug),
            raw_content: self.raw_content@,
        }
    }
}

/// The text `Untitled`.
pub open spec fn untitled() -> Seq<char> {
    seq!['U', 'n', 't', 'i', 't', 'l', 'e', 'd']
}

impl DocumentView {
    /// The title of the document: that of its front matter, else the stem of
    /// its file name in title case, else `Untitled` for a path without a
    /// file name.
    pub open spec fn display_title(self) -> Seq<char> {
        match self.title {
            Some(t) => t,
            None => if names_file(self.source_path) {
                title_cased(file_stem(self.source_path))
            } else {
                untitled()
            },
        }
    }

    /// Whether the document is the index file of its directory.
    pub open spec fn is_index(self) -> bool {
        file_stem(self.source_path) == crate::paths::index_stem()
    }
}

impl Document {
    /// A document with the given fields.
    pub fn new(
        source_name: String,
        source_path: String,
        url_path: String,
        front_matter: FrontMatter,
        raw_content: String,
    ) -> (r: Self)
        ensures
            r.source_name == source_name,
            r.source_path == source_path,
            r.url_path == url_path,
            r.front_matter == front_matter,
            r.raw_content == raw_content,
    {
        Document { source_name, source_path, url_path, front_matter, raw_content }
    }

    /// The document that was read from a file. `parsed` is the text of the
    /// file taken apart, or nothing for a file that could not be read: such
    /// a document is empty. `front_matter` is what the YAML of the front
    /// matter says, or nothing where there is none or it cannot be read:
    /// then the front matter says nothing.
    pub fn from_file(
        source_name: String,
        source_path: String,
        url_path: String,
        parsed: Option<ParsedContent>,
        front_matter: Option<FrontMatter>,
    ) -> (r: Self)
        ensures
            r.source_name == source_name,
            r.source_path == source_path,
            r.url_path == url_path,
            r.raw_content@ == match parsed {
                Some(p) => p.content@,
                None => Seq::<char>::empty(),
            },
            (parsed is Some && front_matter is Some) ==> r.front_matter == front_matter->0,
            (parsed is None || front_matter is None) ==> {
                &&& r.front_matter.title is None
                &&& r.front_matter.description is None
                &&& !r.front_matter.hidden
                &&& r.front_matter.slug is None
                &&& r.front_matter.extra@.len() == 0
            },
    {
        match parsed {
            Some(p) => {
                let front_matter = match front_matter {
                    Some(f) => f,
                    None => FrontMatter::default(),
                };
                Document { source_name, source_path, url_path, front_matter, raw_content: p.content }
            },
            None => Document {
                source_name,
                source_path,
                url_path,
                front_matter: FrontMatter::default(),
                raw_content: String::new(),
            },
        }
    }

    /// The title of the document; see [`DocumentView::display_title`].
    pub fn title(&self) -> (r: String)
        ensures
            r@ == self@.display_title(),
    {
        match &self.front_matter.title {
            Some(t) => t.clone(),
            None => {
                let path = chars_of(self.source_path.as_str());
                if path_names_file(&path) {
                    let stem = stem_of(&path);
                    let t = title_case_chars(&stem);
                    string_of(&t)
                } else {
                    let u: Vec<char> = vec!['U', 'n', 't', 'i', 't', 'l', 'e', 'd'];
                    assert(u@ =~= untitled());
                    string_of(&u)
                }
            },
        }
    }

    /// Whether the document is the index file of its directory.
    pub fn is_index(&self) -> (r: bool)
        ensures
            r == self@.is_index(),
    {
        let path = chars_of(self.source_path.as_str());
        let stem = stem_of(&path);
        let index: Vec<char> = vec!['i', 'n', 'd', 'e', 'x'];
        assert(index@ =~= crate::paths::index_stem());
        same_chars(&stem, &index)
    }
}

// ---------------------------------------------------------------------------
// Front matter
// ---------------------------------------------------------------------------

/// Whether a delimiter line begins at `start`: three hyphens, an optional
/// carriage return, and then the end of the line or of the text.
pub open spec fn delimiter_at(s: Seq<char>, start: int) -> bool {
    &&& 0 <= start
    &&& start + 3 <= s.len()
    &&& s[start] == '-'
    &&& s[start + 1] == '-'
    &&& s[start + 2] == '-'
    &&& (start + 3 == s.len() || s[start + 3] == '\n' || (s[start + 3] == '\r' && (start + 4
        == s.len() || s[start + 4] == '\n')))
}

/// Where the first delimiter line at or after `p` begins; -1 where there
/// is none. `line_start` tells whether a line begins at `p`.
pub open spec fn closing_line(s: Seq<char>, p: int, line_start: bool) -> int
    decreases s.len() - p,
{
    if p < 0 || p >= s.len() {
        -1
    } else if line_start && delimiter_at(s, p) {
        p
    } else {
        closing_line(s, p + 1, s[p] == '\n')
    }
}

/// A document taken apart: the YAML of its front matter, if it has any, and
/// its body.
pub struct ParsedContent {
    /// The YAML of the front matter, where the document has front matter.
    pub front_matter: Option<String>,
    /// The text of the document after the front matter.
    pub content: String,
}

/// The mathematical form of a [`ParsedContent`].
pub struct ParsedView {
    pub front_matter: Option<Seq<char>>,
    pub content: Seq<char>,
}

/// The text after the line that begins at `start`, without the empty lines
/// that it begins with.
pub open spec fn after_line(s: Seq<char>, start: int) -> Seq<char> {
    if index_from(s, '\n', start) >= s.len() {
        Seq::empty()
    } else {
        trim_leading(s.skip(index_from(s, '\n', start) + 1), '\n')
    }
}

/// A document taken apart.
///
/// White space before the first line does not count. Front matter is there
/// where the first line is a delimiter line, a line of three hyphens, and
/// a later line is one too: the lines between the first two delimiter lines
/// are the YAML, and what follows the second, without leading empty lines,
/// is the body. Otherwise the whole text is the body.
pub open spec fn framed(content: Seq<char>) -> ParsedView {
    let s = content.skip(leading_space(content) as int);
    let first_end = index_from(s, '\n', 0);
    let closing = closing_line(s, first_end + 1, true);
    if delimiter_at(s, 0) && first_end < s.len() && closing >= 0 {
        ParsedView {
            front_matter: Some(
                if closing == first_end + 1 {
                    Seq::empty()
                } else {
                    s.subrange(first_end + 1, closing - 1)
                },
            ),
            content: after_line(s, closing),
        }
    } else {
        ParsedView { front_matter: None, content: s }
    }
}

/// Executable form of [`delimiter_at`].
fn is_delimiter(s: &Vec<char>, start: usize) -> (r: bool)
    requires
        start <= s@.len(),
    ensures
        r == delimiter_at(s@, start as int),
{
    let n = s.len();
    if n - start < 3 {
        return false;
    }
    if s[start] != '-' || s[start + 1] != '-' || s[start + 2] != '-' {
        return false;
    }
    if start + 3 == n {
        return true;
    }
    if s[start + 3] == '\n' {
        return true;
    }
    s[start + 3] == '\r' && (n - start == 4 || s[start + 4] == '\n')
}

/// Takes a document apart into front matter and body; see [`framed`].
pub fn parse_front_matter(content: &str) -> (r: ParsedContent)
    ensures
        opt_text(r.front_matter) == framed(content@).front_matter,
        r.content@ == framed(content@).content,
{
    let all = chars_of(content);
    let lead = count_leading_space(&all);
    let s = slice_of(&all, lead, all.len());
    assert(s@ == content@.skip(leading_space(content@) as int));
    let n = s.len();
    proof {
        lemma_index_from(s@, '\n', 0);
    }
    let first_end = find_from(&s, '\n', 0);
    if !is_delimiter(&s, 0) || first_end >= n {
        return ParsedContent { front_matter: None, content: string_of(&s) };
    }
    // the line on which the front matter ends
    let mut p: usize = first_end + 1;
    let mut line_start = true;
    let mut closing: Option<usize> = None;
    while p < n && closing.is_none()
        invariant
            first_end < p <= n,
            n == s@.len(),
            match closing {
                Some(c) => first_end < c < n && c as int == closing_line(s@, first_end + 1, true),
                None => closing_line(s@, first_end + 1, true) == closing_line(
                    s@,
                    p as int,
                    line_start,
                ),
            },
        decreases n - p + if closing is None { 1int } else { 0int },
    {
        if line_start && is_delimiter(&s, p) {
            closing = Some(p);
        } else {
            line_start = s[p] == '\n';
            p += 1;
        }
    }
    match closing {
        None => ParsedContent { front_matter: None, content: string_of(&s) },
        Some(c) => {
            let yaml = if c == first_end + 1 {
                Vec::new()
            } else {
                slice_of(&s, first_end + 1, c - 1)
            };
            proof {
                lemma_index_from(s@, '\n', c as int);
            }
            let end = find_from(&s, '\n', c);
            let body = if end >= n {
                Vec::new()
            } else {
                let rest = slice_of(&s, end + 1, n);
                let blank = count_leading(&rest, '\n');
                slice_of(&rest, blank, rest.len())
            };
            ParsedContent { front_matter: Some(string_of(&yaml)), content: string_of(&body) }
        },
    }
}

} // verus!
