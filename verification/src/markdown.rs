//! Rendering markdown to HTML.
//!
//! `pulldown_cmark` reads the markdown and writes the HTML. Between the two
//! the library goes through the events of the document: it gives each
//! heading an id and a permalink and lists it in the table of contents, and
//! it hands each code block to the syntax highlighter.

use vstd::prelude::*;
use crate::config::MarkdownConfig;
use crate::highlight::{highlighted, SyntaxHighlighter};
use crate::render::{toc_views, TocEntry, TocView};
use crate::text::{
    alphanumeric, append_chars, append_str, chars_of, is_alnum, lowercase_of, owned, replace_char,
    replaced, same_chars, same_text, string_of, texts, to_lower,
};

verus! {

// ---------------------------------------------------------------------------
// Options
// ---------------------------------------------------------------------------

/// Why markdown could not be rendered.
pub enum MarkdownError {
    /// The configuration names an extension that does not exist.
    InvalidExtension(String),
}

impl MarkdownError {
    /// The error in words.
    pub open spec fn text(&self) -> Seq<char> {
        match self {
            MarkdownError::InvalidExtension(name) => "invalid markdown extension: "@ + name@,
        }
    }

    /// The error in words.
    pub fn message(&self) -> (r: String)
        ensures
            r@ == self.text(),
    {
        match self {
            MarkdownError::InvalidExtension(name) => {
                let mut out = chars_of("invalid markdown extension: ");
                append_str(&mut out, name.as_str());
                string_of(&out)
            },
        }
    }
}

/// The extensions of markdown that are switched on.
#[derive(Clone, Copy, PartialEq, Eq, Structural)]
pub struct MarkdownOptions {
    pub definition_lists: bool,
    pub footnotes: bool,
    pub gfm: bool,
    pub heading_attributes: bool,
    pub strikethrough: bool,
    pub tables: bool,
    pub tasklists: bool,
}

/// No extension.
pub open spec fn no_options() -> MarkdownOptions {
    MarkdownOptions {
        definition_lists: false,
        footnotes: false,
        gfm: false,
        heading_attributes: false,
        strikethrough: false,
        tables: false,
        tasklists: false,
    }
}

/// Whether an extension of this name exists.
pub open spec fn known_extension(name: Seq<char>) -> bool {
    name == "definition_lists"@ || name == "footnotes"@ || name == "gfm"@ || name
        == "heading_attributes"@ || name == "strikethrough"@ || name == "tables"@ || name
        == "tasklists"@
}

/// The options with the extension of the given name switched on; a name
/// that is not known changes nothing.
pub open spec fn with_extension(options: MarkdownOptions, name: Seq<char>) -> MarkdownOptions {
    if name == "definition_lists"@ {
        MarkdownOptions { definition_lists: true, ..options }
    } else if name == "footnotes"@ {
        MarkdownOptions { footnotes: true, ..options }
    } else if name == "gfm"@ {
        MarkdownOptions { gfm: true, ..options }
    } else if name == "heading_attributes"@ {
        MarkdownOptions { heading_attributes: true, ..options }
    } else if name == "strikethrough"@ {
        MarkdownOptions { strikethrough: true, ..options }
    } else if name == "tables"@ {
        MarkdownOptions { tables: true, ..options }
    } else if name == "tasklists"@ {
        MarkdownOptions { tasklists: true, ..options }
    } else {
        options
    }
}

/// The options in which the first `n` of the names are switched on.
pub open spec fn options_upto(names: Seq<Seq<char>>, n: int) -> MarkdownOptions
    decreases n,
{
    if n <= 0 {
        no_options()
    } else {
        with_extension(options_upto(names, n - 1), names[n - 1])
    }
}

/// The first name, at or after `from`, that names no extension; the number
/// of names where each names one.
pub open spec fn first_unknown(names: Seq<Seq<char>>, from: int) -> int
    decreases names.len() - from,
{
    if from < 0 || from >= names.len() {
        names.len() as int
    } else if !known_extension(names[from]) {
        from
    } else {
        first_unknown(names, from + 1)
    }
}

/// Reads the names of the extensions that the configuration switches on.
/// The first name that names no extension is an error.
pub fn markdown_options(extensions: &Vec<String>) -> (r: Result<MarkdownOptions, MarkdownError>)
    ensures
        ({
            let names = texts(extensions@);
            let k = first_unknown(names, 0);
            match r {
                Ok(options) => k == names.len() && options == options_upto(
                    names,
                    names.len() as int,
                ),
                Err(MarkdownError::InvalidExtension(name)) => k < names.len() && name@ == names[k],
            }
        }),
{
    let ghost names = texts(extensions@);
    let mut options = MarkdownOptions {
        definition_lists: false,
        footnotes: false,
        gfm: false,
        heading_attributes: false,
        strikethrough: false,
        tables: false,
        tasklists: false,
    };
    let mut i: usize = 0;
    while i < extensions.len()
        invariant
            i <= extensions@.len(),
            names == texts(extensions@),
            first_unknown(names, 0) == first_unknown(names, i as int),
            options == options_upto(names, i as int),
        decreases extensions@.len() - i,
    {
        let name = extensions[i].as_str();
        assert(names[i as int] == name@);
        if same_text(name, "definition_lists") {
            options.definition_lists = true;
        } else if same_text(name, "footnotes") {
            options.footnotes = true;
        } else if same_text(name, "gfm") {
            options.gfm = true;
        } else if same_text(name, "heading_attributes") {
            options.heading_attributes = true;
        } else if same_text(name, "strikethrough") {
            options.strikethrough = true;
        } else if same_text(name, "tables") {
            options.tables = true;
        } else if same_text(name, "tasklists") {
            options.tasklists = true;
        } else {
            return Err(MarkdownError::InvalidExtension(owned(name)));
        }
        i += 1;
    }
    Ok(options)
}

// ---------------------------------------------------------------------------
// Slugs and numbers
// ---------------------------------------------------------------------------

/// Whether a character stays in a slug.
pub open spec fn slug_char(c: char) -> bool {
    alphanumeric(c) || c == '-'
}

/// Those of the first `n` characters of `s` that stay in a slug.
pub open spec fn kept_upto(s: Seq<char>, n: int) -> Seq<char>
    decreases n,
{
    if n <= 0 {
        Seq::empty()
    } else if slug_char(s[n - 1]) {
        kept_upto(s, n - 1).push(s[n - 1])
    } else {
        kept_upto(s, n - 1)
    }
}

/// The slug of a text: in lowercase, with a hyphen for each space, and
/// without any character that is neither a letter, a number nor a hyphen.
pub open spec fn slugified(s: Seq<char>) -> Seq<char> {
    let spaced = replace_char(lowercase_of(s), ' ', '-');
    kept_upto(spaced, spaced.len() as int)
}

/// Makes of a text a slug that can serve as an id in HTML.
pub fn slugify(s: &str) -> (r: String)
    ensures
        r@ == slugified(s@),
{
    let lower = to_lower(s);
    let chars = chars_of(lower.as_str());
    let spaced = replaced(&chars, ' ', '-');
    let mut out: Vec<char> = Vec::new();
    let mut i: usize = 0;
    while i < spaced.len()
        invariant
            i <= spaced@.len(),
            out@ == kept_upto(spaced@, i as int),
        decreases spaced@.len() - i,
    {
        let c = spaced[i];
        if c == '-' || is_alnum(c) {
            out.push(c);
        }
        i += 1;
    }
    string_of(&out)
}

/// The digit that stands for a number below ten.
pub open spec fn digit_char(d: nat) -> char {
    if d == 0 {
        '0'
    } else if d == 1 {
        '1'
    } else if d == 2 {
        '2'
    } else if d == 3 {
        '3'
    } else if d == 4 {
        '4'
    } else if d == 5 {
        '5'
    } else if d == 6 {
        '6'
    } else if d == 7 {
        '7'
    } else if d == 8 {
        '8'
    } else {
        '9'
    }
}

/// A number in decimal digits.
pub open spec fn decimal(n: nat) -> Seq<char>
    decreases n,
{
    if n < 10 {
        seq![digit_char(n)]
    } else {
        decimal(n / 10).push(digit_char(n % 10))
    }
}

/// Executable form of [`digit_char`].
fn digit(d: usize) -> (c: char)
    requires
        d < 10,
    ensures
        c == digit_char(d as nat),
{
    if d == 0 {
        '0'
    } else if d == 1 {
        '1'
    } else if d == 2 {
        '2'
    } else if d == 3 {
        '3'
    } else if d == 4 {
        '4'
    } else if d == 5 {
        '5'
    } else if d == 6 {
        '6'
    } else if d == 7 {
        '7'
    } else if d == 8 {
        '8'
    } else {
        '9'
    }
}

/// Writes a number in decimal digits.
pub fn decimal_digits(n: usize) -> (r: Vec<char>)
    ensures
        r@ == decimal(n as nat),
    decreases n,
{
    if n < 10 {
        let mut r: Vec<char> = Vec::new();
        r.push(digit(n));
        assert(r@ =~= seq![digit_char(n as nat)]);
        r
    } else {
        let mut r = decimal_digits(n / 10);
        r.push(digit(n % 10));
        r
    }
}

/// The `suffix`th candidate for the id of a heading with the slug `base`:
/// the slug itself, then the slug with `-1`, `-2` and so on.
pub open spec fn candidate_id(base: Seq<char>, suffix: nat) -> Seq<char> {
    if suffix == 0 {
        base
    } else {
        base + seq!['-'] + decimal(suffix)
    }
}

/// The first candidate, from the `suffix`th on, that is not in use; after
/// `tries` candidates in use the next one is taken as it is.
pub open spec fn unused_id(base: Seq<char>, used: Seq<Seq<char>>, suffix: nat, tries: nat) -> Seq<
    char,
>
    decreases tries,
{
    if tries == 0 || !used.contains(candidate_id(base, suffix)) {
        candidate_id(base, suffix)
    } else {
        unused_id(base, used, suffix + 1, (tries - 1) as nat)
    }
}

/// The id of a heading with the slug `base`, where the ids in `used` are
/// taken. As many candidates are tried as ids are taken.
pub open spec fn heading_id(base: Seq<char>, used: Seq<Seq<char>>) -> Seq<char> {
    unused_id(base, used, 0, used.len())
}

/// Whether `id` is one of `used`.
fn id_in_use(used: &Vec<Vec<char>>, id: &Vec<char>) -> (r: bool)
    ensures
        r == crate::text::views(used@).contains(id@),
{
    let mut i: usize = 0;
    while i < used.len()
        invariant
            i <= used@.len(),
            forall|j: int| 0 <= j < i ==> crate::text::views(used@)[j] != id@,
        decreases used@.len() - i,
    {
        assert(crate::text::views(used@)[i as int] == used@[i as int]@);
        if same_chars(&used[i], id) {
            return true;
        }
        i += 1;
    }
    false
}

/// Executable form of [`candidate_id`].
fn candidate(base: &Vec<char>, suffix: usize) -> (r: Vec<char>)
    ensures
        r@ == candidate_id(base@, suffix as nat),
{
    let mut r: Vec<char> = Vec::new();
    append_chars(&mut r, base);
    assert(r@ =~= base@);
    if suffix > 0 {
        r.push('-');
        let digits = decimal_digits(suffix);
        append_chars(&mut r, &digits);
        assert(r@ =~= base@ + seq!['-'] + decimal(suffix as nat));
    }
    r
}

/// Picks the id of a heading; see [`heading_id`]. The id is none of those
/// in use.
pub fn unique_heading_id(base: &Vec<char>, used: &Vec<Vec<char>>) -> (r: Vec<char>)
    ensures
        r@ == heading_id(base@, crate::text::views(used@)),
        !crate::text::views(used@).contains(r@),
{
    let ghost taken = crate::text::views(used@);
    proof {
        crate::markdown_laws::lemma_heading_id_fresh(base@, taken);
    }
    let mut suffix: usize = 0;
    let mut id = candidate(base, 0);
    while suffix < used.len() && id_in_use(used, &id)
        invariant
            suffix <= used@.len(),
            taken == crate::text::views(used@),
            id@ == candidate_id(base@, suffix as nat),
            heading_id(base@, taken) == unused_id(
                base@,
                taken,
                suffix as nat,
                (used@.len() - suffix) as nat,
            ),
        decreases used@.len() - suffix,
    {
        suffix += 1;
        id = candidate(base, suffix);
    }
    id
}

// ---------------------------------------------------------------------------
// The events of a document
// ---------------------------------------------------------------------------

/// An attribute of a heading, with its value where it has one.
pub struct HeadingAttr {
    pub name: String,
    pub value: Option<String>,
}

/// What the library reads of an event of a document.
pub enum EventKind {
    /// The start of a heading that brings its own id.
    TitledHeadingStart { id: String },
    /// The start of a heading without an id.
    HeadingStart { level: u8, classes: Vec<String>, attrs: Vec<HeadingAttr> },
    /// The end of a heading.
    HeadingEnd,
    /// The start of a code block, with its language; an indented block has
    /// none.
    CodeStart { language: String },
    /// The end of a code block.
    CodeEnd,
    /// Text.
    Text { text: String },
    /// Any other event.
    Other,
}

/// What becomes of an event.
pub enum EventAction {
    /// The event stays as it is.
    Keep,
    /// The event is left out.
    Drop,
    /// HTML takes the place of the event.
    Replace(String),
}

/// The mathematical form of a [`HeadingAttr`].
pub struct AttrView {
    pub name: Seq<char>,
    pub value: Option<Seq<char>>,
}

/// The mathematical form of a list of attributes.
pub open spec fn attr_views(v: Seq<HeadingAttr>) -> Seq<AttrView> {
    Seq::new(v.len(), |i: int| AttrView { name: v[i].name@, value: crate::config::opt_view(v[i].value) })
}

/// The mathematical form of an [`EventKind`].
pub enum KindView {
    TitledHeadingStart { id: Seq<char> },
    HeadingStart { level: u8, classes: Seq<Seq<char>>, attrs: Seq<AttrView> },
    HeadingEnd,
    CodeStart { language: Seq<char> },
    CodeEnd,
    Text { text: Seq<char> },
    Other,
}

impl View for EventKind {
    type V = KindView;

    open spec fn view(&self) -> KindView {
        match self {
            EventKind::TitledHeadingStart { id } => KindView::TitledHeadingStart { id: id@ },
            EventKind::HeadingStart { level, classes, attrs } => KindView::HeadingStart {
                level: *level,
                classes: texts(classes@),
                attrs: attr_views(attrs@),
            },
            EventKind::HeadingEnd => KindView::HeadingEnd,
            EventKind::CodeStart { language } => KindView::CodeStart { language: language@ },
            EventKind::CodeEnd => KindView::CodeEnd,
            EventKind::Text { text } => KindView::Text { text: text@ },
            EventKind::Other => KindView::Other,
        }
    }
}

/// The mathematical form of a list of events.
pub open spec fn kind_views(v: Seq<EventKind>) -> Seq<KindView> {
    Seq::new(v.len(), |i: int| v[i]@)
}

/// The mathematical form of an [`EventAction`].
pub enum ActionView {
    Keep,
    Drop,
    Replace(Seq<char>),
}

impl View for EventAction {
    type V = ActionView;

    open spec fn view(&self) -> ActionView {
        match self {
            EventAction::Keep => ActionView::Keep,
            EventAction::Drop => ActionView::Drop,
            EventAction::Replace(html) => ActionView::Replace(html@),
        }
    }
}

/// The mathematical form of a list of actions.
pub open spec fn action_views(v: Seq<EventAction>) -> Seq<ActionView> {
    Seq::new(v.len(), |i: int| v[i]@)
}

/// A heading that is being read.
pub struct OpenHeading {
    pub level: u8,
    pub classes: Seq<Seq<char>>,
    pub attrs: Seq<AttrView>,
}

/// Where the reading of a document stands.
pub struct RenderState {
    /// Whether a code block is being read.
    pub in_code: bool,
    /// The language of the code block.
    pub language: Seq<char>,
    /// The code read so far.
    pub code: Seq<char>,
    /// The heading that is being read, if any.
    pub heading: Option<OpenHeading>,
    /// The text of the heading read so far.
    pub heading_text: Seq<char>,
    /// The ids that are taken.
    pub used_ids: Seq<Seq<char>>,
    /// The table of contents so far.
    pub toc: Seq<TocView>,
    /// What becomes of each event read so far.
    pub actions: Seq<ActionView>,
}

/// The state before the first event.
pub open spec fn initial_state() -> RenderState {
    RenderState {
        in_code: false,
        language: Seq::empty(),
        code: Seq::empty(),
        heading: None,
        heading_text: Seq::empty(),
        used_ids: Seq::empty(),
        toc: Seq::empty(),
        actions: Seq::empty(),
    }
}

/// The class attribute of a heading: nothing without classes, else the
/// classes with a space between each two.
pub open spec fn class_attr(classes: Seq<Seq<char>>) -> Seq<char> {
    if classes.len() == 0 {
        Seq::empty()
    } else {
        " class=\""@ + crate::text::join_with(classes, seq![' ']) + "\""@
    }
}

/// One attribute as HTML writes it.
pub open spec fn attr_html(attr: AttrView) -> Seq<char> {
    match attr.value {
        Some(v) => seq![' '] + attr.name + "=\""@ + v + "\""@,
        None => seq![' '] + attr.name,
    }
}

/// The first `n` attributes as HTML writes them.
pub open spec fn attrs_html(attrs: Seq<AttrView>, n: int) -> Seq<char>
    decreases n,
{
    if n <= 0 {
        Seq::empty()
    } else {
        attrs_html(attrs, n - 1) + attr_html(attrs[n - 1])
    }
}

/// The link that a heading carries to itself.
pub open spec fn permalink(id: Seq<char>) -> Seq<char> {
    "<a class=\"header-anchor\" href=\"#"@ + id
        + "\" aria-label=\"Link to this heading\">#</a>"@
}

/// A heading as HTML: its text and its permalink, in the element of its
/// level, with its id, classes and attributes.
pub open spec fn heading_html(heading: OpenHeading, id: Seq<char>, text: Seq<char>) -> Seq<char> {
    "<h"@ + decimal(heading.level as nat) + " id=\""@ + id + "\""@ + class_attr(heading.classes)
        + attrs_html(heading.attrs, heading.attrs.len() as int) + ">"@ + text + seq![' ']
        + permalink(id) + "</h"@ + decimal(heading.level as nat) + ">"@
}

/// The state after one more event.
///
/// A heading that brings its own id stays as it is, and its id is taken. A
/// heading without one is read to its end, where the HTML of the heading
/// takes the place of the end event: the text that it holds is left out of
/// the document and gathered, and the heading is listed in the table of
/// contents under a new id. A code block is read to its end, where the
/// highlighted code takes the place of the end event. Every other event
/// stays.
pub open spec fn after_event(s: RenderState, kind: KindView) -> RenderState {
    match kind {
        KindView::TitledHeadingStart { id } => RenderState {
            used_ids: s.used_ids.push(id),
            actions: s.actions.push(ActionView::Keep),
            ..s
        },
        KindView::HeadingStart { level, classes, attrs } => RenderState {
            heading: Some(OpenHeading { level, classes, attrs }),
            heading_text: Seq::empty(),
            actions: s.actions.push(ActionView::Drop),
            ..s
        },
        KindView::HeadingEnd => match s.heading {
            Some(heading) => {
                let id = heading_id(slugified(s.heading_text), s.used_ids);
                RenderState {
                    heading: None,
                    used_ids: s.used_ids.push(id),
                    toc: s.toc.push(TocView { text: s.heading_text, id, level: heading.level }),
                    actions: s.actions.push(
                        ActionView::Replace(heading_html(heading, id, s.heading_text)),
                    ),
                    ..s
                }
            },
            None => RenderState { actions: s.actions.push(ActionView::Keep), ..s },
        },
        KindView::CodeStart { language } => RenderState {
            in_code: true,
            language,
            code: Seq::empty(),
            actions: s.actions.push(ActionView::Drop),
            ..s
        },
        KindView::CodeEnd => RenderState {
            in_code: false,
            actions: s.actions.push(ActionView::Replace(highlighted(s.code, s.language))),
            ..s
        },
        KindView::Text { text } => if s.in_code {
            RenderState { code: s.code + text, actions: s.actions.push(ActionView::Drop), ..s }
        } else if s.heading is Some {
            RenderState {
                heading_text: s.heading_text + text,
                actions: s.actions.push(ActionView::Drop),
                ..s
            }
        } else {
            RenderState { actions: s.actions.push(ActionView::Keep), ..s }
        },
        KindView::Other => RenderState { actions: s.actions.push(ActionView::Keep), ..s },
    }
}

/// The state after the first `n` events.
pub open spec fn state_after(kinds: Seq<KindView>, n: int) -> RenderState
    decreases n,
{
    if n <= 0 {
        initial_state()
    } else {
        after_event(state_after(kinds, n - 1), kinds[n - 1])
    }
}

/// What is to be done with the events of a document, and its table of
/// contents.
pub struct MarkdownPlan {
    /// What becomes of each event, in the order of the events.
    pub actions: Vec<EventAction>,
    /// The headings that were given an id.
    pub toc: Vec<TocEntry>,
}

/// Writes the HTML of a heading; see [`heading_html`].
pub fn write_heading(
    level: u8,
    classes: &Vec<String>,
    attrs: &Vec<HeadingAttr>,
    id: &Vec<char>,
    text: &Vec<char>,
) -> (r: String)
    ensures
        r@ == heading_html(
            OpenHeading { level, classes: texts(classes@), attrs: attr_views(attrs@) },
            id@,
            text@,
        ),
{
    let digits = decimal_digits(level as usize);
    let mut out: Vec<char> = Vec::new();
    append_str(&mut out, "<h");
    append_chars(&mut out, &digits);
    append_str(&mut out, " id=\"");
    append_chars(&mut out, id);
    append_str(&mut out, "\"");
    // the classes
    let mut class_part: Vec<char> = Vec::new();
    if classes.len() > 0 {
        append_str(&mut class_part, " class=\"");
        let mut joined: Vec<char> = Vec::new();
        let mut i: usize = 0;
        assert(texts(classes@).take(0) =~= Seq::<Seq<char>>::empty());
        while i < classes.len()
            invariant
                i <= classes@.len(),
                joined@ == crate::text::join_with(texts(classes@).take(i as int), seq![' ']),
            decreases classes@.len() - i,
        {
            let ghost next = texts(classes@).take(i + 1);
            assert(next.drop_last() =~= texts(classes@).take(i as int));
            assert(next.last() == classes@[i as int]@);
            if i > 0 {
                let ghost before = joined@;
                joined.push(' ');
                assert(joined@ =~= before + seq![' ']);
            }
            append_str(&mut joined, classes[i].as_str());
            assert(joined@ =~= crate::text::join_with(next, seq![' ']));
            i += 1;
        }
        assert(texts(classes@).take(classes@.len() as int) =~= texts(classes@));
        append_chars(&mut class_part, &joined);
        append_str(&mut class_part, "\"");
    }
    assert(class_part@ =~= class_attr(texts(classes@)));
    append_chars(&mut out, &class_part);
    // the attributes
    let mut attr_part: Vec<char> = Vec::new();
    let mut i: usize = 0;
    while i < attrs.len()
        invariant
            i <= attrs@.len(),
            attr_part@ == attrs_html(attr_views(attrs@), i as int),
        decreases attrs@.len() - i,
    {
        let ghost before = attr_part@;
        let mut one: Vec<char> = Vec::new();
        one.push(' ');
        assert(one@ =~= seq![' ']);
        append_str(&mut one, attrs[i].name.as_str());
        match &attrs[i].value {
            Some(v) => {
                append_str(&mut one, "=\"");
                append_str(&mut one, v.as_str());
                append_str(&mut one, "\"");
            },
            None => {},
        }
        assert(one@ =~= attr_html(attr_views(attrs@)[i as int]));
        append_chars(&mut attr_part, &one);
        i += 1;
    }
    append_chars(&mut out, &attr_part);
    append_str(&mut out, ">");
    append_chars(&mut out, text);
    out.push(' ');
    let mut link: Vec<char> = Vec::new();
    append_str(&mut link, "<a class=\"header-anchor\" href=\"#");
    append_chars(&mut link, id);
    append_str(&mut link, "\" aria-label=\"Link to this heading\">#</a>");
    assert(link@ =~= permalink(id@));
    append_chars(&mut out, &link);
    append_str(&mut out, "</h");
    append_chars(&mut out, &digits);
    append_str(&mut out, ">");
    proof {
        let heading = OpenHeading { level, classes: texts(classes@), attrs: attr_views(attrs@) };
        assert(out@ =~= heading_html(heading, id@, text@));
    }
    string_of(&out)
}

/// The heading that the event at `h` opens.
pub open spec fn opened_by(kinds: Seq<KindView>, h: int) -> OpenHeading {
    OpenHeading {
        level: kinds[h]->HeadingStart_level,
        classes: kinds[h]->HeadingStart_classes,
        attrs: kinds[h]->HeadingStart_attrs,
    }
}

/// Goes through the events of a document and says what becomes of each;
/// see [`after_event`].
pub fn plan_events(kinds: &Vec<EventKind>, highlighter: &SyntaxHighlighter) -> (plan: MarkdownPlan)
    ensures
        action_views(plan.actions@) == state_after(
            kind_views(kinds@),
            kinds@.len() as int,
        ).actions,
        toc_views(plan.toc@) == state_after(kind_views(kinds@), kinds@.len() as int).toc,
        plan.actions@.len() == kinds@.len(),
        forall|i: int, j: int|
            0 <= i < j < plan.toc@.len() ==> (#[trigger] plan.toc@[i]).id@ != (
            #[trigger] plan.toc@[j]).id@,
{
    let ghost all = kind_views(kinds@);
    proof {
        crate::markdown_laws::lemma_toc_ids_distinct(all, kinds@.len() as int);
    }
    let mut in_code = false;
    let mut language: Vec<char> = Vec::new();
    let mut code: Vec<char> = Vec::new();
    let mut heading: Option<usize> = None;
    let mut heading_text: Vec<char> = Vec::new();
    let mut used: Vec<Vec<char>> = Vec::new();
    let mut toc: Vec<TocEntry> = Vec::new();
    let mut actions: Vec<EventAction> = Vec::new();
    let mut i: usize = 0;
    proof {
        assert(crate::text::views(used@) =~= Seq::<Seq<char>>::empty());
        assert(toc_views(toc@) =~= Seq::<TocView>::empty());
        assert(action_views(actions@) =~= Seq::<ActionView>::empty());
    }
    while i < kinds.len()
        invariant
            i <= kinds@.len(),
            all == kind_views(kinds@),
            actions@.len() == i,
            in_code == state_after(all, i as int).in_code,
            language@ == state_after(all, i as int).language,
            code@ == state_after(all, i as int).code,
            match heading {
                Some(h) => h < i && all[h as int] is HeadingStart && state_after(
                    all,
                    i as int,
                ).heading == Some(opened_by(all, h as int)),
                None => state_after(all, i as int).heading is None,
            },
            heading_text@ == state_after(all, i as int).heading_text,
            crate::text::views(used@) == state_after(all, i as int).used_ids,
            toc_views(toc@) == state_after(all, i as int).toc,
            action_views(actions@) == state_after(all, i as int).actions,
        decreases kinds@.len() - i,
    {
        let ghost before = state_after(all, i as int);
        let ghost old_actions = action_views(actions@);
        let ghost old_used = crate::text::views(used@);
        let ghost old_toc = toc_views(toc@);
        assert(all[i as int] == kinds@[i as int]@);
        match &kinds[i] {
            EventKind::TitledHeadingStart { id } => {
                used.push(chars_of(id.as_str()));
                assert(crate::text::views(used@) =~= old_used.push(id@));
                actions.push(EventAction::Keep);
                assert(action_views(actions@) =~= old_actions.push(ActionView::Keep));
            },
            EventKind::HeadingStart { .. } => {
                heading = Some(i);
                heading_text = Vec::new();
                actions.push(EventAction::Drop);
                assert(action_views(actions@) =~= old_actions.push(ActionView::Drop));
            },
            EventKind::HeadingEnd => {
                match heading {
                    Some(h) => {
                        assert(all[h as int] == kinds@[h as int]@);
                        match &kinds[h] {
                            EventKind::HeadingStart { level, classes, attrs } => {
                                let text = string_of(&heading_text);
                                let slug = slugify(text.as_str());
                                let base = chars_of(slug.as_str());
                                let id = unique_heading_id(&base, &used);
                                let html = write_heading(
                                    *level,
                                    classes,
                                    attrs,
                                    &id,
                                    &heading_text,
                                );
                                toc.push(
                                    TocEntry { text, id: string_of(&id), level: *level },
                                );
                                assert(toc_views(toc@) =~= old_toc.push(
                                    TocView { text: heading_text@, id: id@, level: *level },
                                ));
                                used.push(id);
                                assert(crate::text::views(used@) =~= old_used.push(id@));
                                actions.push(EventAction::Replace(html));
                                assert(action_views(actions@) =~= old_actions.push(
                                    ActionView::Replace(html@),
                                ));
                                heading = None;
                            },
                            _ => {
                                assert(false);
                            },
                        }
                    },
                    None => {
                        actions.push(EventAction::Keep);
                        assert(action_views(actions@) =~= old_actions.push(ActionView::Keep));
                    },
                }
            },
            EventKind::CodeStart { language: lang } => {
                in_code = true;
                language = chars_of(lang.as_str());
                code = Vec::new();
                actions.push(EventAction::Drop);
                assert(action_views(actions@) =~= old_actions.push(ActionView::Drop));
            },
            EventKind::CodeEnd => {
                in_code = false;
                let source = string_of(&code);
                let lang = string_of(&language);
                let html = highlighter.highlight(source.as_str(), lang.as_str());
                actions.push(EventAction::Replace(html));
                assert(action_views(actions@) =~= old_actions.push(ActionView::Replace(html@)));
            },
            EventKind::Text { text } => {
                if in_code {
                    append_str(&mut code, text.as_str());
                    actions.push(EventAction::Drop);
                    assert(action_views(actions@) =~= old_actions.push(ActionView::Drop));
                } else if heading.is_some() {
                    append_str(&mut heading_text, text.as_str());
                    actions.push(EventAction::Drop);
                    assert(action_views(actions@) =~= old_actions.push(ActionView::Drop));
                } else {
                    actions.push(EventAction::Keep);
                    assert(action_views(actions@) =~= old_actions.push(ActionView::Keep));
                }
            },
            EventKind::Other => {
                actions.push(EventAction::Keep);
                assert(action_views(actions@) =~= old_actions.push(ActionView::Keep));
            },
        }
        i += 1;
    }
    proof {
        let end = state_after(all, kinds@.len() as int);
        assert forall|i: int, j: int| 0 <= i < j < toc@.len() implies (#[trigger] toc@[i]).id@
            != (#[trigger] toc@[j]).id@ by {
            assert(toc_views(toc@)[i] == end.toc[i]);
            assert(toc_views(toc@)[j] == end.toc[j]);
        }
    }
    MarkdownPlan { actions, toc }
}

// ---------------------------------------------------------------------------
// Reading and writing
// ---------------------------------------------------------------------------

/// An event of a markdown document, as `pulldown_cmark` yields it.
#[verifier::external_type_specification]
#[verifier::external_body]
pub struct ExEvent<'a>(pulldown_cmark::Event<'a>);

/// The events that `pulldown_cmark` reads out of a document, with the
/// extensions switched on as `options` says.
pub uninterp spec fn markdown_events(markdown: Seq<char>, options: MarkdownOptions) -> Seq<
    pulldown_cmark::Event<'static>,
>;

/// `pulldown_cmark::Parser::new_ext`, with the options switched on as
/// `options` says: the events of the document, in their order. They are
/// the same for the same text and the same options.
#[verifier::external_body]
fn parse_events<'a>(markdown: &'a str, options: &MarkdownOptions) -> (r: Vec<
    pulldown_cmark::Event<'a>,
>)
    ensures
        r@ == markdown_events(markdown@, *options),
{
    let mut o = pulldown_cmark::Options::empty();
    o.set(pulldown_cmark::Options::ENABLE_DEFINITION_LIST, options.definition_lists);
    o.set(pulldown_cmark::Options::ENABLE_FOOTNOTES, options.footnotes);
    o.set(pulldown_cmark::Options::ENABLE_GFM, options.gfm);
    o.set(pulldown_cmark::Options::ENABLE_HEADING_ATTRIBUTES, options.heading_attributes);
    o.set(pulldown_cmark::Options::ENABLE_STRIKETHROUGH, options.strikethrough);
    o.set(pulldown_cmark::Options::ENABLE_TABLES, options.tables);
    o.set(pulldown_cmark::Options::ENABLE_TASKLISTS, options.tasklists);
    pulldown_cmark::Parser::new_ext(markdown, o).collect()
}

/// The kinds of event that the library tells apart.
#[derive(Clone, Copy, PartialEq, Eq, Structural)]
pub enum EventTag {
    TitledHeadingStart,
    HeadingStart,
    HeadingEnd,
    CodeStart,
    CodeEnd,
    Text,
    Other,
}

/// The kind of an event of `pulldown_cmark`.
pub uninterp spec fn tag_held(event: pulldown_cmark::Event<'static>) -> EventTag;

/// Which kind of event a `pulldown_cmark::Event` is: the variant of the
/// event, and for the start of a heading whether it has an id.
#[verifier::external_body]
fn event_tag(event: &pulldown_cmark::Event<'_>) -> (r: EventTag)
    ensures
        r == tag_held(*event),
{
    match event {
        pulldown_cmark::Event::Start(pulldown_cmark::Tag::Heading { id: Some(_), .. }) => {
            EventTag::TitledHeadingStart
        },
        pulldown_cmark::Event::Start(pulldown_cmark::Tag::Heading { .. }) => EventTag::HeadingStart,
        pulldown_cmark::Event::End(pulldown_cmark::TagEnd::Heading(_)) => EventTag::HeadingEnd,
        pulldown_cmark::Event::Start(pulldown_cmark::Tag::CodeBlock(_)) => EventTag::CodeStart,
        pulldown_cmark::Event::End(pulldown_cmark::TagEnd::CodeBlock) => EventTag::CodeEnd,
        pulldown_cmark::Event::Text(_) => EventTag::Text,
        _ => EventTag::Other,
    }
}

/// The text that an event of `pulldown_cmark` holds.
pub uninterp spec fn text_held(event: pulldown_cmark::Event<'static>) -> Seq<char>;

/// The text that a `pulldown_cmark::Event` holds: the id of a heading, the
/// language of a fenced code block, or the text of a text event. Any other
/// event holds none.
#[verifier::external_body]
fn event_text(event: &pulldown_cmark::Event<'_>) -> (r: String)
    ensures
        r@ == text_held(*event),
{
    match event {
        pulldown_cmark::Event::Start(pulldown_cmark::Tag::Heading { id: Some(id), .. }) => {
            id.to_string()
        },
        pulldown_cmark::Event::Start(
            pulldown_cmark::Tag::CodeBlock(pulldown_cmark::CodeBlockKind::Fenced(language)),
        ) => language.to_string(),
        pulldown_cmark::Event::Text(text) => text.to_string(),
        _ => String::new(),
    }
}

/// The level of the heading that an event of `pulldown_cmark` starts.
pub uninterp spec fn level_held(event: pulldown_cmark::Event<'static>) -> u8;

/// The level of the heading that a `pulldown_cmark::Event` starts, 1 to 6;
/// 0 for any other event.
#[verifier::external_body]
fn heading_level(event: &pulldown_cmark::Event<'_>) -> (r: u8)
    ensures
        r == level_held(*event),
        r <= 6,
{
    match event {
        pulldown_cmark::Event::Start(pulldown_cmark::Tag::Heading { level, .. }) => *level as u8,
        _ => 0,
    }
}

/// The classes of the heading that an event of `pulldown_cmark` starts.
pub uninterp spec fn classes_held(event: pulldown_cmark::Event<'static>) -> Seq<Seq<char>>;

/// The classes of the heading that a `pulldown_cmark::Event` starts, in
/// their order; none for any other event.
#[verifier::external_body]
fn heading_classes(event: &pulldown_cmark::Event<'_>) -> (r: Vec<String>)
    ensures
        texts(r@) == classes_held(*event),
{
    match event {
        pulldown_cmark::Event::Start(pulldown_cmark::Tag::Heading { classes, .. }) => {
            classes.iter().map(|c| c.to_string()).collect()
        },
        _ => Vec::new(),
    }
}

/// The attributes of the heading that an event of `pulldown_cmark`
/// starts.
pub uninterp spec fn attrs_held(event: pulldown_cmark::Event<'static>) -> Seq<AttrView>;

/// The attributes of the heading that a `pulldown_cmark::Event` starts, in
/// their order, each with its value where it has one; none for any other
/// event.
#[verifier::external_body]
fn heading_attrs(event: &pulldown_cmark::Event<'_>) -> (r: Vec<HeadingAttr>)
    ensures
        attr_views(r@) == attrs_held(*event),
{
    match event {
        pulldown_cmark::Event::Start(pulldown_cmark::Tag::Heading { attrs, .. }) => {
            attrs.iter().map(
                |(k, v)| HeadingAttr { name: k.to_string(), value: v.as_ref().map(|v| v.to_string()) },
            ).collect()
        },
        _ => Vec::new(),
    }
}

/// The event of `pulldown_cmark` that holds the given text as raw HTML.
pub uninterp spec fn raw_html(html: Seq<char>) -> pulldown_cmark::Event<'static>;

/// An event of raw HTML: `pulldown_cmark::Event::Html`, with the given
/// text.
#[verifier::external_body]
fn html_event<'a>(html: String) -> (r: pulldown_cmark::Event<'a>)
    ensures
        r == raw_html(html@),
{
    pulldown_cmark::Event::Html(html.into())
}

/// The HTML that `pulldown_cmark` writes for a list of events.
pub uninterp spec fn html_of(events: Seq<pulldown_cmark::Event<'static>>) -> Seq<char>;

/// `pulldown_cmark::html::push_html` into an empty text: the HTML of the
/// events. It is the same for the same events.
#[verifier::external_body]
fn events_to_html(events: Vec<pulldown_cmark::Event<'_>>) -> (r: String)
    ensures
        r@ == html_of(events@),
{
    let mut html = String::new();
    pulldown_cmark::html::push_html(&mut html, events.into_iter());
    html
}

/// What the library reads of an event of `pulldown_cmark`: its kind, with
/// what an event of that kind holds.
pub open spec fn kind_held(event: pulldown_cmark::Event<'static>) -> KindView {
    match tag_held(event) {
        EventTag::TitledHeadingStart => KindView::TitledHeadingStart { id: text_held(event) },
        EventTag::HeadingStart => KindView::HeadingStart {
            level: level_held(event),
            classes: classes_held(event),
            attrs: attrs_held(event),
        },
        EventTag::HeadingEnd => KindView::HeadingEnd,
        EventTag::CodeStart => KindView::CodeStart { language: text_held(event) },
        EventTag::CodeEnd => KindView::CodeEnd,
        EventTag::Text => KindView::Text { text: text_held(event) },
        EventTag::Other => KindView::Other,
    }
}

/// What the library reads of each event of a list.
pub open spec fn kinds_held(events: Seq<pulldown_cmark::Event<'static>>) -> Seq<KindView> {
    Seq::new(events.len(), |i: int| kind_held(events[i]))
}

/// What the library reads of an event: its kind, with what it holds, as
/// [`event_kind`] puts the two together.
fn kind_of(event: &pulldown_cmark::Event<'_>) -> (r: EventKind)
    ensures
        r@ == kind_held(*event),
{
    event_kind(
        event_tag(event),
        event_text(event),
        heading_level(event),
        heading_classes(event),
        heading_attrs(event),
    )
}

/// An event of the kind `tag` with what was read of it: the text is the id
/// of a heading that brings one, the language of a code block, or the text
/// of a text event; the level, the classes and the attributes are those of
/// a heading without an id. What an event of the kind does not hold is left
/// aside.
pub open spec fn kind_with(
    tag: EventTag,
    text: String,
    level: u8,
    classes: Vec<String>,
    attrs: Vec<HeadingAttr>,
) -> EventKind {
    match tag {
        EventTag::TitledHeadingStart => EventKind::TitledHeadingStart { id: text },
        EventTag::HeadingStart => EventKind::HeadingStart { level, classes, attrs },
        EventTag::HeadingEnd => EventKind::HeadingEnd,
        EventTag::CodeStart => EventKind::CodeStart { language: text },
        EventTag::CodeEnd => EventKind::CodeEnd,
        EventTag::Text => EventKind::Text { text },
        EventTag::Other => EventKind::Other,
    }
}

/// Puts the kind of an event together with what was read of it; see
/// [`kind_with`].
pub fn event_kind(
    tag: EventTag,
    text: String,
    level: u8,
    classes: Vec<String>,
    attrs: Vec<HeadingAttr>,
) -> (r: EventKind)
    ensures
        r == kind_with(tag, text, level, classes, attrs),
{
    match tag {
        EventTag::TitledHeadingStart => EventKind::TitledHeadingStart { id: text },
        EventTag::HeadingStart => EventKind::HeadingStart { level, classes, attrs },
        EventTag::HeadingEnd => EventKind::HeadingEnd,
        EventTag::CodeStart => EventKind::CodeStart { language: text },
        EventTag::CodeEnd => EventKind::CodeEnd,
        EventTag::Text => EventKind::Text { text },
        EventTag::Other => EventKind::Other,
    }
}

/// The HTML of a document, with its table of contents.
pub struct MarkdownOutput {
    pub html: String,
    pub toc: Vec<TocEntry>,
}

/// The events of a document after the library has gone through them: an
/// event that is kept stays, one that is dropped is left out, and in the
/// place of one that is replaced stands its HTML, as an event of raw HTML.
/// Here, those from `from` on.
pub open spec fn applied(
    events: Seq<pulldown_cmark::Event<'static>>,
    actions: Seq<ActionView>,
    from: int,
) -> Seq<pulldown_cmark::Event<'static>>
    decreases actions.len() - from,
{
    if from < 0 || from >= actions.len() {
        Seq::empty()
    } else {
        match actions[from] {
            ActionView::Keep => seq![events[from]] + applied(events, actions, from + 1),
            ActionView::Drop => applied(events, actions, from + 1),
            ActionView::Replace(html) => seq![raw_html(html)] + applied(events, actions, from + 1),
        }
    }
}

/// What the library reads of the events of a document, in their order.
pub open spec fn markdown_kinds(markdown: Seq<char>, options: MarkdownOptions) -> Seq<KindView> {
    kinds_held(markdown_events(markdown, options))
}

/// Where the reading of a document stands after its last event.
pub open spec fn document_read(markdown: Seq<char>, options: MarkdownOptions) -> RenderState {
    let kinds = markdown_kinds(markdown, options);
    state_after(kinds, kinds.len() as int)
}

/// The HTML of a document: what `pulldown_cmark` writes for the events of
/// the document, after the library has gone through them; see
/// [`after_event`] and [`applied`].
pub open spec fn document_html(markdown: Seq<char>, options: MarkdownOptions) -> Seq<char> {
    html_of(
        applied(markdown_events(markdown, options), document_read(markdown, options).actions, 0),
    )
}

/// The table of contents of a document: the headings that the library gave
/// an id, in the order of the document; see [`after_event`].
pub open spec fn document_toc(markdown: Seq<char>, options: MarkdownOptions) -> Seq<TocView> {
    document_read(markdown, options).toc
}

/// Renders markdown to HTML.
///
/// The rendering fails where the configuration names an extension that
/// does not exist, and only there. Else the document is read with the
/// extensions of the configuration switched on; the result is its HTML, as
/// [`document_html`] says, and its table of contents, as [`document_toc`]
/// says. No two headings of the table of contents have the same id.
pub fn render_markdown(
    markdown: &str,
    highlighter: &SyntaxHighlighter,
    markdown_config: &MarkdownConfig,
) -> (r: Result<MarkdownOutput, MarkdownError>)
    ensures
        ({
            let names = texts(markdown_config.extensions@);
            let k = first_unknown(names, 0);
            let options = options_upto(names, names.len() as int);
            match r {
                Ok(out) => k == names.len() && out.html@ == document_html(markdown@, options)
                    && toc_views(out.toc@) == document_toc(markdown@, options),
                Err(MarkdownError::InvalidExtension(name)) => k < names.len() && name@ == names[k],
            }
        }),
        r matches Ok(out) ==> forall|i: int, j: int|
            0 <= i < j < out.toc@.len() ==> (#[trigger] out.toc@[i]).id@ != (
            #[trigger] out.toc@[j]).id@,
{
    let options = match markdown_options(&markdown_config.extensions) {
        Ok(options) => options,
        Err(e) => {
            return Err(e);
        },
    };
    let events = parse_events(markdown, &options);
    let ghost read = events@;
    let mut kinds: Vec<EventKind> = Vec::new();
    let mut i: usize = 0;
    while i < events.len()
        invariant
            i <= events@.len(),
            kinds@.len() == i,
            forall|j: int| 0 <= j < i ==> (#[trigger] kinds@[j])@ == kind_held(events@[j]),
        decreases events@.len() - i,
    {
        kinds.push(kind_of(&events[i]));
        i += 1;
    }
    assert(kind_views(kinds@) =~= kinds_held(read));
    let plan = plan_events(&kinds, highlighter);
    let kept = apply_actions(events, plan.actions);
    Ok(MarkdownOutput { html: events_to_html(kept), toc: plan.toc })
}

/// Does to each event what its action says: the events that are kept and
/// the HTML that takes the place of others, in the order of the document.
fn apply_actions<'a>(events: Vec<pulldown_cmark::Event<'a>>, actions: Vec<EventAction>) -> (kept:
    Vec<pulldown_cmark::Event<'a>>)
    requires
        events@.len() == actions@.len(),
    ensures
        kept@ == applied(events@, action_views(actions@), 0),
{
    let ghost all = action_views(actions@);
    let ghost read = events@;
    let mut events = events;
    let mut actions = actions;
    // from the last event to the first
    let mut backwards: Vec<pulldown_cmark::Event<'a>> = Vec::new();
    assert(backwards@.reverse() =~= applied(read, all, all.len() as int));
    while actions.len() > 0
        invariant
            events@.len() == actions@.len(),
            actions@.len() <= all.len(),
            all.len() == read.len(),
            forall|j: int| 0 <= j < actions@.len() ==> (#[trigger] actions@[j])@ == all[j],
            forall|j: int| 0 <= j < events@.len() ==> #[trigger] events@[j] == read[j],
            backwards@.reverse() == applied(read, all, actions@.len() as int),
        decreases actions@.len(),
    {
        let ghost n = actions@.len() as int;
        let ghost before = backwards@;
        assert(all[n - 1] == actions@[n - 1]@);
        assert(read[n - 1] == events@[n - 1]);
        let event = events.pop();
        let action = actions.pop();
        match (event, action) {
            (Some(event), Some(EventAction::Keep)) => {
                backwards.push(event);
                assert(backwards@.reverse() =~= seq![event] + before.reverse());
            },
            (_, Some(EventAction::Replace(html))) => {
                let made = html_event(html);
                backwards.push(made);
                assert(backwards@.reverse() =~= seq![made] + before.reverse());
            },
            _ => {},
        }
    }
    let ghost wanted = applied(read, all, 0);
    let mut kept: Vec<pulldown_cmark::Event<'a>> = Vec::new();
    assert(kept@ + backwards@.reverse() =~= wanted);
    while backwards.len() > 0
        invariant
            kept@ + backwards@.reverse() == wanted,
        decreases backwards@.len(),
    {
        let ghost so_far = kept@;
        let ghost rest = backwards@;
        match backwards.pop() {
            Some(event) => {
                kept.push(event);
                assert(kept@ + backwards@.reverse() =~= so_far + rest.reverse());
            },
            None => {},
        }
    }
    assert(backwards@.reverse() =~= Seq::<pulldown_cmark::Event<'a>>::empty());
    assert(kept@ =~= wanted);
    kept
}

} // verus!
