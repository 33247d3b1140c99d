//! What the library reads of JSON documents: the members of an object whose
//! values are strings. Parsing and printing JSON is `serde_json`'s work.
use vstd::prelude::*;

use crate::text::views;

verus! {

/// The members of a JSON object: each key, with its value where that value
/// is a string.
pub type Members = Vec<(String, Option<String>)>;

/// The view of one member.
pub open spec fn member_view(e: (String, Option<String>)) -> (Seq<char>, Option<Seq<char>>) {
    (
        e.0@,
        match e.1 {
            Some(s) => Some(s@),
            None => None,
        },
    )
}

/// The view of the members of an object.
pub open spec fn members_view(m: Seq<(String, Option<String>)>) -> Seq<
    (Seq<char>, Option<Seq<char>>),
> {
    m.map_values(|e: (String, Option<String>)| member_view(e))
}

/// The view of an optional string.
pub open spec fn opt_view(o: Option<String>) -> Option<Seq<char>> {
    match o {
        Some(s) => Some(s@),
        None => None,
    }
}

/// Name for what `serde_json::from_str::<Value>` makes of a document, as
/// far as the library reads it: the members of the top-level object (none
/// where the document is valid JSON but not an object), or the parser's
/// error message.
pub uninterp spec fn json_members_of(doc: Seq<char>) -> Result<
    Seq<(Seq<char>, Option<Seq<char>>)>,
    Seq<char>,
>;

/// Name for what `serde_json::from_str::<Vec<Value>>` makes of a document:
/// for each element of the top-level array, its members as in
/// [`json_members_of`] (none for an element that is not an object), or the
/// parser's error message.
pub uninterp spec fn json_array_members_of(doc: Seq<char>) -> Result<
    Seq<Seq<(Seq<char>, Option<Seq<char>>)>>,
    Seq<char>,
>;

/// Name for the JSON array text that `serde_json::to_string` makes of a
/// list of strings.
pub uninterp spec fn json_text_of(items: Seq<Seq<char>>) -> Seq<char>;

/// `serde_json::from_str::<serde_json::Value>`, keeping the top-level
/// members with their string values. Trusted: the result is the name
/// [`json_members_of`] applied to the document.
#[verifier::external_body]
pub(crate) fn json_members(doc: &str) -> (r: Result<Members, String>)
    ensures
        json_members_of(doc@) == match r {
            Ok(m) => Ok(members_view(m@)),
            Err(e) => Err(e@),
        },
{
    match serde_json::from_str::<serde_json::Value>(doc) {
        Ok(serde_json::Value::Object(map)) => Ok(map.into_iter().map(|(k, v)| match v {
            serde_json::Value::String(s) => (k, Some(s)),
            _ => (k, None),
        }).collect()),
        Ok(_) => Ok(Vec::new()),
        Err(e) => Err(e.to_string()),
    }
}

/// `serde_json::from_str::<Vec<serde_json::Value>>`, keeping each element's
/// members with their string values. Trusted: the result is the name
/// [`json_array_members_of`] applied to the document.
#[verifier::external_body]
pub(crate) fn json_array_members(doc: &str) -> (r: Result<Vec<Members>, String>)
    ensures
        json_array_members_of(doc@) == match r {
            Ok(items) => Ok(items@.map_values(|m: Members| members_view(m@))),
            Err(e) => Err(e@),
        },
{
    match serde_json::from_str::<Vec<serde_json::Value>>(doc) {
        Ok(items) => Ok(items.into_iter().map(|item| match item {
            serde_json::Value::Object(map) => map.into_iter().map(|(k, v)| match v {
                serde_json::Value::String(s) => (k, Some(s)),
                _ => (k, None),
            }).collect(),
            _ => Vec::new(),
        }).collect()),
        Err(e) => Err(e.to_string()),
    }
}

/// `serde_json::to_string` of a list of strings. Trusted: serializing
/// strings does not fail (serde_json fails only where a `Serialize` impl
/// fails or a map has keys that are not strings), and the text is the name
/// [`json_text_of`] applied to the strings.
#[verifier::external_body]
pub(crate) fn json_string_array(items: &Vec<String>) -> (r: Result<String, String>)
    ensures
        r is Ok,
        r->Ok_0@ == json_text_of(views(items@)),
{
    serde_json::to_string(items).map_err(|e| e.to_string())
}

/// The view of a key and its string value, as a member of an object.
pub open spec fn entry_member(e: (String, String)) -> (Seq<char>, Option<Seq<char>>) {
    (e.0@, Some(e.1@))
}

/// No key occurs twice.
pub open spec fn distinct_keys(entries: Seq<(String, String)>) -> bool {
    forall|i: int, j: int|
        0 <= i < j < entries.len() ==> #[trigger] entries[i].0@ != #[trigger] entries[j].0@
}

/// `serde_json::to_string` of the entries collected into a
/// `HashMap<&String, &String>`. Trusted: serializing a map with string keys
/// does not fail, and `serde_json::from_str::<Value>` reads the text back as
/// an object whose members are exactly the entries. The order of the members
/// in the text follows the map's walk, which varies from run to run, so the
/// text itself is left unsaid.
#[verifier::external_body]
pub(crate) fn json_object_text(entries: &Vec<(String, String)>) -> (r: Result<String, String>)
    requires
        distinct_keys(entries@),
    ensures
        r is Ok,
        match json_members_of(r->Ok_0@) {
            Ok(ms) => ms.len() == entries@.len() && ms.to_set() == entries@.map_values(
                |e: (String, String)| entry_member(e),
            ).to_set(),
            Err(_) => false,
        },
{
    let map: std::collections::HashMap<&String, &String> = entries.iter().map(|e| (&e.0, &e.1)).collect();
    serde_json::to_string(&map).map_err(|e| e.to_string())
}

/// The value that `key` has among the members: `None` where the key is
/// absent, `Some(None)` where its value is not a string.
pub open spec fn member(ms: Seq<(Seq<char>, Option<Seq<char>>)>, key: Seq<char>) -> Option<
    Option<Seq<char>>,
>
    decreases ms.len(),
{
    if ms.len() == 0 {
        None
    } else if ms[0].0 == key {
        Some(ms[0].1)
    } else {
        member(ms.drop_first(), key)
    }
}

/// The value that `key` has among the members.
pub fn find_member(ms: &Members, key: &str) -> (r: Option<Option<String>>)
    ensures
        member(members_view(ms@), key@) == match r {
            Some(v) => Some(opt_view(v)),
            None => None,
        },
{
    let ghost all = members_view(ms@);
    let mut i: usize = 0;
    assert(all.skip(0) =~= all);
    while i < ms.len()
        invariant
            i <= ms@.len(),
            all == members_view(ms@),
            member(all, key@) == member(all.skip(i as int), key@),
        decreases ms@.len() - i,
    {
        assert(all.skip(i as int).drop_first() =~= all.skip(i + 1));
        assert(all.skip(i as int)[0] == member_view(ms@[i as int]));
        if crate::text::str_equal(ms[i].0.as_str(), key) {
            return Some(ms[i].1.clone());
        }
        i = i + 1;
    }
    None
}

} // verus!
