//! Shared helpers.

use vstd::prelude::*;
use crate::text::{
    append_chars, chars_of, join_chars, join_with, slice_of, split_chars, split_on, string_of,
    to_upper, uppercase_of, views,
};

verus! {

/// A word with its first character put in uppercase. The uppercase form of
/// one character may be several.
pub open spec fn capitalized(word: Seq<char>) -> Seq<char> {
    if word.len() == 0 {
        word
    } else {
        uppercase_of(word[0]) + word.drop_first()
    }
}

/// A slug in title case: its words, which `-` and `_` separate, each
/// capitalized, with one space between each two.
pub open spec fn title_cased(s: Seq<char>) -> Seq<char> {
    join_with(split_on(s, '-', '_').map_values(|w: Seq<char>| capitalized(w)), seq![' '])
}

/// Puts `upper_first`, the uppercase form of the first character of `word`,
/// in the place of that character. An empty word stays empty.
pub fn capitalize_with(word: &Vec<char>, upper_first: &Vec<char>) -> (r: Vec<char>)
    ensures
        r@ == if word@.len() == 0 {
            word@
        } else {
            upper_first@ + word@.drop_first()
        },
{
    if word.len() == 0 {
        Vec::new()
    } else {
        let mut r = slice_of(upper_first, 0, upper_first.len());
        assert(r@ == upper_first@);
        let rest = slice_of(word, 1, word.len());
        append_chars(&mut r, &rest);
        r
    }
}

/// Executable form of [`capitalized`].
pub fn capitalize(word: &Vec<char>) -> (r: Vec<char>)
    ensures
        r@ == capitalized(word@),
{
    if word.len() == 0 {
        Vec::new()
    } else {
        let upper = to_upper(word[0]);
        capitalize_with(word, &upper)
    }
}

/// Converts a slug to title case: `getting-started` becomes
/// `Getting Started`, `api_reference` becomes `Api Reference`.
pub fn title_case(s: &str) -> (r: String)
    ensures
        r@ == title_cased(s@),
{
    let chars = chars_of(s);
    let r = title_case_chars(&chars);
    string_of(&r)
}

/// [`title_case`] on characters.
pub fn title_case_chars(chars: &Vec<char>) -> (r: Vec<char>)
    ensures
        r@ == title_cased(chars@),
{
    let words = split_chars(chars, '-', '_');
    let mut done: Vec<Vec<char>> = Vec::new();
    let mut i: usize = 0;
    let ghost target = split_on(chars@, '-', '_').map_values(|w: Seq<char>| capitalized(w));
    while i < words.len()
        invariant
            i <= words.len(),
            views(words@) == split_on(chars@, '-', '_'),
            target == split_on(chars@, '-', '_').map_values(|w: Seq<char>| capitalized(w)),
            done@.len() == i,
            forall|j: int| 0 <= j < i ==> (#[trigger] done@[j])@ == target[j],
        decreases words.len() - i,
    {
        let w = capitalize(&words[i]);
        assert(views(words@)[i as int] == words@[i as int]@);
        done.push(w);
        i += 1;
    }
    assert(views(done@) =~= target);
    let space: Vec<char> = vec![' '];
    assert(space@ =~= seq![' ']);
    join_chars(&done, &space)
}

} // verus!
