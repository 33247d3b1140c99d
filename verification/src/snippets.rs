//! Text snippets: short triggers that expand into longer text.
use vstd::prelude::*;
use vstd::string::*;

use crate::text::{starts_with, str_equal, str_starts_with, substring, trim, trimmed};

verus! {

/// A trigger and the text it expands into.
#[derive(Debug, Clone)]
pub struct Snippet {
    pub trigger: String,
    pub expand: String,
}

/// The mathematical value of a [`Snippet`].
pub struct SnippetView {
    pub trigger: Seq<char>,
    pub expand: Seq<char>,
}

impl View for Snippet {
    type V = SnippetView;

    open spec fn view(&self) -> SnippetView {
        SnippetView { trigger: self.trigger@, expand: self.expand@ }
    }
}

/// The views of a sequence of snippets.
pub open spec fn snippet_views(s: Seq<Snippet>) -> Seq<SnippetView> {
    s.map_values(|x: Snippet| x@)
}

/// The expansion of the first snippet whose trigger is exactly `t`.
pub open spec fn exact_match(t: Seq<char>, sn: Seq<SnippetView>) -> Option<Seq<char>>
    decreases sn.len(),
{
    if sn.len() == 0 {
        None
    } else if sn[0].trigger == t {
        Some(sn[0].expand)
    } else {
        exact_match(t, sn.drop_first())
    }
}

/// For the first snippet whose trigger followed by a space begins `t`: its
/// expansion followed by the rest of `t` after the trigger (the space
/// included).
pub open spec fn prefix_match(t: Seq<char>, sn: Seq<SnippetView>) -> Option<Seq<char>>
    decreases sn.len(),
{
    if sn.len() == 0 {
        None
    } else if starts_with(t, sn[0].trigger + " "@) {
        Some(sn[0].expand + t.skip(sn[0].trigger.len() as int))
    } else {
        prefix_match(t, sn.drop_first())
    }
}

/// What `text` expands into: an exact match of the trimmed text wins over
/// a prefix match; among matches of one kind the first snippet wins.
pub open spec fn expansion(text: Seq<char>, sn: Seq<SnippetView>) -> Option<Seq<char>> {
    let t = trim(text);
    match exact_match(t, sn) {
        Some(e) => Some(e),
        None => prefix_match(t, sn),
    }
}

/// Expands snippet triggers in text.
///
/// If the whole trimmed text is a trigger, the result is that snippet's
/// expansion; if the trimmed text starts with a trigger and a space, the
/// result is the expansion followed by the rest of the text; otherwise there
/// is no expansion.
pub fn expand_snippets(text: &str, snippets: &[Snippet]) -> (r: Option<String>)
    ensures
        match r {
            Some(e) => expansion(text@, snippet_views(snippets@)) == Some(e@),
            None => expansion(text@, snippet_views(snippets@)) is None,
        },
{
    let t = trimmed(text);
    let ghost sn = snippet_views(snippets@);
    let mut i: usize = 0;
    assert(sn.skip(0) =~= sn);
    while i < snippets.len()
        invariant
            i <= snippets@.len(),
            sn == snippet_views(snippets@),
            t@ == trim(text@),
            exact_match(t@, sn) == exact_match(t@, sn.skip(i as int)),
        decreases snippets@.len() - i,
    {
        assert(sn.skip(i as int).drop_first() =~= sn.skip(i + 1));
        assert(sn.skip(i as int)[0] == snippets@[i as int]@);
        if str_equal(t.as_str(), snippets[i].trigger.as_str()) {
            return Some(snippets[i].expand.clone());
        }
        i = i + 1;
    }
    let mut i: usize = 0;
    while i < snippets.len()
        invariant
            i <= snippets@.len(),
            sn == snippet_views(snippets@),
            t@ == trim(text@),
            exact_match(t@, sn) is None,
            prefix_match(t@, sn) == prefix_match(t@, sn.skip(i as int)),
        decreases snippets@.len() - i,
    {
        assert(sn.skip(i as int).drop_first() =~= sn.skip(i + 1));
        assert(sn.skip(i as int)[0] == snippets@[i as int]@);
        let pattern = snippets[i].trigger.clone().concat(" ");
        if str_starts_with(t.as_str(), pattern.as_str()) {
            let n = crate::text::chars_of(snippets[i].trigger.as_str()).len();
            let tl = crate::text::chars_of(t.as_str()).len();
            let rest = substring(t.as_str(), n, tl);
            assert(rest@ =~= t@.skip(n as int));
            return Some(snippets[i].expand.clone().concat(rest.as_str()));
        }
        i = i + 1;
    }
    None
}

} // verus!
