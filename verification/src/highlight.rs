//! Syntax highlighting of code blocks.
//!
//! The highlighting itself is the work of `autumnus`. The library decides
//! when it is asked for, and writes the plain block that stands in where it
//! cannot be had.

use vstd::prelude::*;
use crate::text::{append_chars, append_str, chars_of, owned, same_text, string_of};

verus! {

/// What stands for a character in HTML text.
pub open spec fn escaped_char(c: char) -> Seq<char> {
    if c == '&' {
        "&amp;"@
    } else if c == '<' {
        "&lt;"@
    } else if c == '>' {
        "&gt;"@
    } else if c == '"' {
        "&quot;"@
    } else {
        seq![c]
    }
}

/// The first `n` characters of `s`, each as [`escaped_char`] writes it.
pub open spec fn escaped_upto(s: Seq<char>, n: int) -> Seq<char>
    decreases n,
{
    if n <= 0 {
        Seq::empty()
    } else {
        escaped_upto(s, n - 1) + escaped_char(s[n - 1])
    }
}

/// A text with the characters `&`, `<`, `>` and `"` written as HTML
/// entities.
pub open spec fn html_escaped(s: Seq<char>) -> Seq<char> {
    escaped_upto(s, s.len() as int)
}

/// Escapes the characters that HTML gives a meaning to.
pub fn html_escape(s: &str) -> (r: String)
    ensures
        r@ == html_escaped(s@),
{
    let chars = chars_of(s);
    let mut out: Vec<char> = Vec::new();
    let mut i: usize = 0;
    while i < chars.len()
        invariant
            i <= chars@.len(),
            chars@ == s@,
            out@ == escaped_upto(s@, i as int),
        decreases chars@.len() - i,
    {
        let c = chars[i];
        if c == '&' {
            append_str(&mut out, "&amp;");
        } else if c == '<' {
            append_str(&mut out, "&lt;");
        } else if c == '>' {
            append_str(&mut out, "&gt;");
        } else if c == '"' {
            append_str(&mut out, "&quot;");
        } else {
            let ghost before = out@;
            out.push(c);
            assert(out@ =~= before + seq![c]);
        }
        i += 1;
    }
    string_of(&out)
}

/// A code block without highlighting: the escaped code inside `pre` and
/// `code`, with the class `language-` and the language where one is named.
pub open spec fn plain_block(code: Seq<char>, language: Seq<char>) -> Seq<char> {
    if language.len() == 0 {
        "<pre><code>"@ + html_escaped(code) + "</code></pre>"@
    } else {
        "<pre><code class=\"language-"@ + language + "\">"@ + html_escaped(code)
            + "</code></pre>"@
    }
}

/// Whether `autumnus` takes a code block of the named language to be plain
/// text, as `Language::guess` answers for a language hint and the code.
pub uninterp spec fn guesses_plain_text(language: Seq<char>, code: Seq<char>) -> bool;

/// `autumnus::languages::Language::guess`, asked whether it answers
/// `PlainText`.
#[verifier::external_body]
fn guess_is_plain_text(language: &str, code: &str) -> (r: bool)
    ensures
        r == guesses_plain_text(language@, code@),
{
    matches!(
        autumnus::languages::Language::guess(Some(language), code),
        autumnus::languages::Language::PlainText
    )
}

/// The highlighted HTML that `autumnus` makes of a code block with its
/// linked-classes formatter, where it makes one.
pub uninterp spec fn linked_html(language: Seq<char>, code: Seq<char>) -> Option<Seq<char>>;

/// `autumnus::HtmlLinkedBuilder` and `Formatter::format`, for the language
/// that `Language::guess` answers: the formatted code, or nothing where the
/// formatter cannot be built, fails, or writes what is not UTF-8.
#[verifier::external_body]
fn format_linked(language: &str, code: &str) -> (r: Option<String>)
    ensures
        crate::config::opt_view(r) == linked_html(language@, code@),
{
    let lang = autumnus::languages::Language::guess(Some(language), code);
    let formatter = autumnus::HtmlLinkedBuilder::new().lang(lang).build().ok()?;
    let mut output: Vec<u8> = Vec::new();
    autumnus::formatter::Formatter::format(&formatter, code, &mut output).ok()?;
    String::from_utf8(output).ok()
}

/// The style sheet of a theme of `autumnus`, where it has a theme of that
/// name.
pub uninterp spec fn theme_css(name: Seq<char>) -> Option<Seq<char>>;

/// `autumnus::themes::get` and `Theme::css`, without italics.
#[verifier::external_body]
fn css_of_theme(name: &str) -> (r: Option<String>)
    ensures
        crate::config::opt_view(r) == theme_css(name@),
{
    autumnus::themes::get(name).ok().map(|theme| theme.css(false))
}

/// Whether a language hint that is taken for plain text names a language
/// that is not known, rather than plain text itself.
pub open spec fn unknown_language(language: Seq<char>) -> bool {
    language.len() > 0 && language != "plaintext"@ && language != "text"@
}

/// The HTML of a code block, where `linked` is what the highlighter made of
/// it: that, or the plain block where it made nothing.
pub open spec fn highlighted_with(
    code: Seq<char>,
    language: Seq<char>,
    linked: Option<Seq<char>>,
) -> Seq<char> {
    match linked {
        Some(html) => html,
        None => plain_block(code, language),
    }
}

/// The HTML of a code block. A block in a language that the highlighter
/// does not know is a plain block.
pub open spec fn highlighted(code: Seq<char>, language: Seq<char>) -> Seq<char> {
    if guesses_plain_text(language, code) && unknown_language(language) {
        plain_block(code, language)
    } else {
        highlighted_with(code, language, linked_html(language, code))
    }
}

/// Highlights code blocks.
pub struct SyntaxHighlighter {
    /// The name of the theme that the style sheet is made for.
    pub theme_name: String,
}

impl SyntaxHighlighter {
    /// A highlighter for the theme of the given name.
    pub fn new(theme_name: &str) -> (r: Self)
        ensures
            r.theme_name@ == theme_name@,
    {
        SyntaxHighlighter { theme_name: owned(theme_name) }
    }

    /// Writes a code block without highlighting; see [`plain_block`].
    pub fn plain_code_block(code: &str, language: &str) -> (r: String)
        ensures
            r@ == plain_block(code@, language@),
    {
        let escaped = html_escape(code);
        let lang = chars_of(language);
        let mut out: Vec<char> = Vec::new();
        if lang.len() == 0 {
            append_str(&mut out, "<pre><code>");
        } else {
            append_str(&mut out, "<pre><code class=\"language-");
            append_chars(&mut out, &lang);
            append_str(&mut out, "\">");
        }
        append_str(&mut out, escaped.as_str());
        append_str(&mut out, "</code></pre>");
        assert(out@ =~= plain_block(code@, language@));
        string_of(&out)
    }

    /// Settles on the HTML of a code block, given what the highlighter made
    /// of it; see [`highlighted_with`].
    pub fn finish_highlight(code: &str, language: &str, linked: Option<String>) -> (r: String)
        ensures
            r@ == highlighted_with(code@, language@, crate::config::opt_view(linked)),
    {
        match linked {
            Some(html) => html,
            None => SyntaxHighlighter::plain_code_block(code, language),
        }
    }

    /// Highlights a code block; see [`highlighted`].
    pub fn highlight(&self, code: &str, language: &str) -> (r: String)
        ensures
            r@ == highlighted(code@, language@),
    {
        let lang = chars_of(language);
        let unknown = lang.len() > 0 && !same_text(language, "plaintext") && !same_text(
            language,
            "text",
        );
        if unknown && guess_is_plain_text(language, code) {
            return SyntaxHighlighter::plain_code_block(code, language);
        }
        let linked = format_linked(language, code);
        SyntaxHighlighter::finish_highlight(code, language, linked)
    }

    /// The style sheet of the theme, where the theme exists.
    pub fn generate_css(&self) -> (r: Option<String>)
        ensures
            crate::config::opt_view(r) == theme_css(self.theme_name@),
    {
        css_of_theme(self.theme_name.as_str())
    }
}

impl Default for SyntaxHighlighter {
    /// A highlighter for the theme `github-dark`.
    fn default() -> (r: Self)
        ensures
            r.theme_name@ == "github-dark"@,
    {
        SyntaxHighlighter::new("github-dark")
    }
}

} // verus!
