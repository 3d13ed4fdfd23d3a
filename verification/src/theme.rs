//! The configuration that a theme brings with it.

use vstd::prelude::*;
use crate::text::{owned, texts};

verus! {

/// How the search index is built.
pub struct PagefindConfig {
    /// The selector of the element whose content is indexed.
    pub root_selector: String,
    /// The selectors of the elements that are left out of the index.
    pub exclude_selectors: Vec<String>,
    /// The language that the index is built for, whatever the pages say.
    pub force_language: Option<String>,
}

/// The configuration of a theme.
pub struct ThemeConfig {
    /// The name of the theme.
    pub name: Option<String>,
    /// How the search index is built.
    pub pagefind: PagefindConfig,
}

/// The selector of the element that is indexed where the theme names
/// none: `main`.
pub fn default_root_selector() -> (r: String)
    ensures
        r@ == "main"@,
{
    owned("main")
}

/// The selectors that are left out of the index where the theme names
/// none.
pub open spec fn default_excluded() -> Seq<Seq<char>> {
    seq!["nav"@, ".sidebar"@, ".site-header"@]
}

/// The selectors that are left out of the index where the theme names
/// none: the navigation, the sidebar and the header of the site.
pub fn default_exclude_selectors() -> (r: Vec<String>)
    ensures
        texts(r@) == default_excluded(),
{
    let mut v: Vec<String> = Vec::new();
    v.push(owned("nav"));
    v.push(owned(".sidebar"));
    v.push(owned(".site-header"));
    assert(texts(v@) =~= default_excluded());
    v
}

impl Default for PagefindConfig {
    /// The configuration of a theme that says nothing of the search.
    fn default() -> (r: Self)
        ensures
            r.root_selector@ == "main"@,
            texts(r.exclude_selectors@) == default_excluded(),
            r.force_language is None,
    {
        PagefindConfig {
            root_selector: default_root_selector(),
            exclude_selectors: default_exclude_selectors(),
            force_language: None,
        }
    }
}

impl PagefindConfig {
    /// The language that the index is built for: the forced one, or
    /// English.
    pub fn language(&self) -> (r: String)
        ensures
            r@ == match self.force_language {
                Some(l) => l@,
                None => "en"@,
            },
    {
        match &self.force_language {
            Some(l) => l.clone(),
            None => owned("en"),
        }
    }
}

impl Default for ThemeConfig {
    /// The configuration of a theme that brings none.
    fn default() -> (r: Self)
        ensures
            r.name is None,
            r.pagefind.root_selector@ == "main"@,
            texts(r.pagefind.exclude_selectors@) == default_excluded(),
            r.pagefind.force_language is None,
    {
        ThemeConfig { name: None, pagefind: PagefindConfig::default() }
    }
}

} // verus!
