//! The Saga voice API as the daemon uses it: the client interface, what a
//! reply to `/command` means, and the dictionary that `/dictate` takes.
use std::collections::HashMap;

use vstd::prelude::*;
use vstd::string::*;

use crate::json::{
    distinct_keys, entry_member, find_member, json_members, json_members_of, json_object_text,
    json_string_array, json_text_of, member, members_view, Members,
};
use crate::text::{chars_of, string_result, views};

verus! {

/// A transcription from `/dictate`.
#[derive(Debug, Clone)]
pub struct DictateResponse {
    pub raw: String,
    pub refined: String,
    pub latency_ms: u64,
}

/// The Saga server: `/command` with text or audio, `/dictate`, `/health`.
pub trait SagaClient: Send + Sync {
    fn send_text(&self, text: &str, context: &str) -> Result<String, String>;

    fn send_audio(&self, wav_bytes: &[u8], context: &str) -> Result<String, String>;

    fn send_dictate(
        &self,
        audio_data: &[u8],
        dictionary: &HashMap<String, String>,
        personal_dictionary: &HashMap<String, String>,
        context: &str,
    ) -> Result<DictateResponse, String>;

    fn health(&self) -> Result<bool, String>;
}

/// What the members of a reply to `/command` mean: an `error` member is the
/// server's complaint; otherwise the `commands` member, or where there is
/// none the `text` member, must be a string, and that string is the answer.
pub open spec fn answer_of_members(ms: Seq<(Seq<char>, Option<Seq<char>>)>, body: Seq<char>) -> Result<
    Seq<char>,
    Seq<char>,
> {
    match member(ms, "error"@) {
        Some(Some(e)) => Err("API error: "@ + e),
        _ => {
            let found = match member(ms, "commands"@) {
                Some(c) => Some(c),
                None => member(ms, "text"@),
            };
            match found {
                Some(Some(s)) => Ok(s),
                _ => Err("Missing commands/text in response: "@ + body),
            }
        },
    }
}

/// What the body of a reply to `/command` means: a body that is not JSON is
/// an error; otherwise its top-level members decide.
pub open spec fn command_text_spec(body: Seq<char>) -> Result<Seq<char>, Seq<char>> {
    match json_members_of(body) {
        Err(_) => Err("Failed to parse JSON response"@),
        Ok(ms) => answer_of_members(ms, body),
    }
}

/// What the members of a reply to `/command`, whose body is `body`, mean.
pub fn answer_from_members(ms: &Members, body: &str) -> (r: Result<String, String>)
    ensures
        string_result(r) == answer_of_members(members_view(ms@), body@),
{
    if let Some(Some(e)) = find_member(ms, "error") {
        return Err(String::from_str("API error: ").concat(e.as_str()));
    }
    let found = match find_member(ms, "commands") {
        Some(c) => Some(c),
        None => find_member(ms, "text"),
    };
    match found {
        Some(Some(s)) => Ok(s),
        _ => Err(String::from_str("Missing commands/text in response: ").concat(body)),
    }
}

/// What the body of a reply to `/command` means.
pub fn command_text(body: &str) -> (r: Result<String, String>)
    ensures
        string_result(r) == command_text_spec(body@),
{
    match json_members(body) {
        Err(_) => Err(String::from_str("Failed to parse JSON response")),
        Ok(ms) => answer_from_members(&ms, body),
    }
}

/// What follows one attempt to reach the server.
pub enum AttemptStep {
    /// The request is over, with this result.
    Done(Result<String, String>),
    /// Try once more.
    Retry,
}

/// A request that fails on its first attempt is tried once more; the second
/// attempt's result is final.
pub fn after_attempt(attempt: u32, result: Result<String, String>) -> (r: AttemptStep)
    ensures
        match r {
            AttemptStep::Retry => attempt == 1 && result is Err,
            AttemptStep::Done(d) => !(attempt == 1 && result is Err) && d == result,
        },
{
    if attempt == 1 && result.is_err() {
        AttemptStep::Retry
    } else {
        AttemptStep::Done(result)
    }
}

/// `a` sorts before `b`: `String`'s order, which compares the UTF-8 bytes
/// and so the code points, one by one.
pub open spec fn lex_lt(a: Seq<char>, b: Seq<char>) -> bool
    decreases a.len(),
{
    if a.len() == 0 {
        b.len() > 0
    } else if b.len() == 0 {
        false
    } else if a[0] != b[0] {
        a[0] < b[0]
    } else {
        lex_lt(a.drop_first(), b.drop_first())
    }
}

/// Each element sorts before every later one.
pub open spec fn strictly_sorted(s: Seq<Seq<char>>) -> bool {
    forall|i: int, j: int| 0 <= i < j < s.len() ==> lex_lt(#[trigger] s[i], #[trigger] s[j])
}

/// The two sequences hold the same elements.
pub open spec fn same_elements(a: Seq<Seq<char>>, b: Seq<Seq<char>>) -> bool {
    forall|x: Seq<char>| a.contains(x) <==> b.contains(x)
}

proof fn lemma_lex_transitive(a: Seq<char>, b: Seq<char>, c: Seq<char>)
    requires
        lex_lt(a, b),
        lex_lt(b, c),
    ensures
        lex_lt(a, c),
    decreases a.len(),
{
    if a.len() > 0 && b.len() > 0 && c.len() > 0 && a[0] == b[0] && b[0] == c[0] {
        lemma_lex_transitive(a.drop_first(), b.drop_first(), c.drop_first());
    }
}

proof fn lemma_lex_total(a: Seq<char>, b: Seq<char>)
    ensures
        a == b || lex_lt(a, b) || lex_lt(b, a),
    decreases a.len(),
{
    if a.len() == 0 && b.len() == 0 {
        assert(a =~= b);
    } else if a.len() > 0 && b.len() > 0 && a[0] == b[0] {
        lemma_lex_total(a.drop_first(), b.drop_first());
        if a.drop_first() == b.drop_first() {
            assert(a.len() == b.len());
            assert(a =~= b) by {
                assert forall|k: int| 0 <= k < a.len() implies a[k] == b[k] by {
                    if k > 0 {
                        assert(a[k] == a.drop_first()[k - 1]);
                        assert(b[k] == b.drop_first()[k - 1]);
                    }
                }
            }
        }
    }
}

proof fn lemma_lex_irreflexive(a: Seq<char>)
    ensures
        !lex_lt(a, a),
    decreases a.len(),
{
    if a.len() > 0 {
        lemma_lex_irreflexive(a.drop_first());
    }
}

/// Whether `a` sorts before `b`.
pub fn chars_lt(a: &Vec<char>, b: &Vec<char>) -> (r: bool)
    ensures
        r == lex_lt(a@, b@),
{
    let mut i: usize = 0;
    assert(a@.skip(0) =~= a@);
    assert(b@.skip(0) =~= b@);
    loop
        invariant
            i <= a@.len(),
            i <= b@.len(),
            lex_lt(a@, b@) == lex_lt(a@.skip(i as int), b@.skip(i as int)),
        decreases a@.len() - i,
    {
        if i == a.len() {
            return i < b.len();
        }
        if i == b.len() {
            return false;
        }
        if a[i] != b[i] {
            return a[i] < b[i];
        }
        assert(a@.skip(i as int).drop_first() =~= a@.skip(i + 1));
        assert(b@.skip(i as int).drop_first() =~= b@.skip(i + 1));
        i = i + 1;
    }
}

/// The distinct terms of a developer dictionary, in `String` order: the
/// values of the dictionary, sorted, without repeats.
pub fn developer_terms(values: Vec<String>) -> (r: Vec<String>)
    ensures
        strictly_sorted(views(r@)),
        same_elements(views(r@), views(values@)),
{
    let mut out: Vec<String> = Vec::new();
    let mut i: usize = 0;
    while i < values.len()
        invariant
            i <= values@.len(),
            strictly_sorted(views(out@)),
            same_elements(views(out@), views(values@).take(i as int)),
        decreases values@.len() - i,
    {
        let x = chars_of(values[i].as_str());
        let mut p: usize = 0;
        while p < out.len() && chars_lt(&chars_of(out[p].as_str()), &x)
            invariant
                p <= out@.len(),
                i < values@.len(),
                x@ == values@[i as int]@,
                forall|k: int| 0 <= k < p ==> lex_lt(#[trigger] views(out@)[k], x@),
            decreases out@.len() - p,
        {
            p = p + 1;
        }
        let ghost old_out = views(out@);
        let ghost xv = values@[i as int]@;
        assert(views(values@).take(i + 1) =~= views(values@).take(i as int).push(xv));
        if p < out.len() && crate::text::str_equal(out[p].as_str(), values[i].as_str()) {
            assert(old_out[p as int] == xv);
            assert(same_elements(views(out@), views(values@).take(i + 1))) by {
                assert forall|t: Seq<char>| old_out.contains(t) <==> views(values@).take(
                    i + 1,
                ).contains(t) by {
                    if t == xv {
                        assert(old_out.contains(t)) by {
                            assert(old_out[p as int] == t);
                        }
                        assert(views(values@).take(i + 1)[i as int] == t);
                    } else {
                        if views(values@).take(i + 1).contains(t) {
                            let k = choose|k: int|
                                0 <= k < i + 1 && #[trigger] views(values@).take(i + 1)[k] == t;
                            assert(views(values@).take(i as int)[k] == t);
                        }
                        if views(values@).take(i as int).contains(t) {
                            let k = choose|k: int|
                                0 <= k < i && #[trigger] views(values@).take(i as int)[k] == t;
                            assert(views(values@).take(i + 1)[k] == t);
                        }
                    }
                }
            }
        } else {
            if p < out.len() {
                proof {
                    lemma_lex_total(old_out[p as int], xv);
                }
                assert(lex_lt(xv, old_out[p as int]));
            }
            let v = values[i].clone();
            out.insert(p, v);
            assert(views(out@) =~= old_out.insert(p as int, xv));
            assert(strictly_sorted(views(out@))) by {
                assert forall|a: int, b: int|
                    0 <= a < b < views(out@).len() implies lex_lt(
                    #[trigger] views(out@)[a],
                    #[trigger] views(out@)[b],
                ) by {
                    if b < p {
                        assert(views(out@)[a] == old_out[a]);
                        assert(views(out@)[b] == old_out[b]);
                    } else if b == p {
                        assert(views(out@)[a] == old_out[a]);
                    } else if a == p {
                        assert(views(out@)[b] == old_out[b - 1]);
                        if b - 1 > p {
                            lemma_lex_transitive(xv, old_out[p as int], old_out[b - 1]);
                        }
                    } else if a < p {
                        assert(views(out@)[a] == old_out[a]);
                        assert(views(out@)[b] == old_out[b - 1]);
                    } else {
                        assert(views(out@)[a] == old_out[a - 1]);
                        assert(views(out@)[b] == old_out[b - 1]);
                    }
                }
            }
            assert(same_elements(views(out@), views(values@).take(i + 1))) by {
                assert forall|t: Seq<char>| views(out@).contains(t) <==> views(values@).take(
                    i + 1,
                ).contains(t) by {
                    if t == xv {
                        assert(views(out@)[p as int] == t);
                        assert(views(values@).take(i + 1)[i as int] == t);
                    } else {
                        if views(out@).contains(t) {
                            let k = choose|k: int| 0 <= k < views(out@).len() && #[trigger] views(out@)[k] == t;
                            if k < p {
                                assert(old_out[k] == t);
                            } else {
                                assert(old_out[k - 1] == t);
                            }
                        }
                        if old_out.contains(t) {
                            let k = choose|k: int| 0 <= k < old_out.len() && #[trigger] old_out[k] == t;
                            if k < p {
                                assert(views(out@)[k] == t);
                            } else {
                                assert(views(out@)[k + 1] == t);
                            }
                        }
                        if views(values@).take(i + 1).contains(t) {
                            let k = choose|k: int|
                                0 <= k < i + 1 && #[trigger] views(values@).take(i + 1)[k] == t;
                            assert(views(values@).take(i as int)[k] == t);
                        }
                        if views(values@).take(i as int).contains(t) {
                            let k = choose|k: int|
                                0 <= k < i && #[trigger] views(values@).take(i as int)[k] == t;
                            assert(views(values@).take(i + 1)[k] == t);
                        }
                    }
                }
            }
        }
        i = i + 1;
    }
    assert(views(values@).take(values@.len() as int) =~= views(values@));
    out
}

/// The developer dictionary as `/dictate` takes it: its distinct terms, in
/// order, as a JSON array of strings.
pub fn serialize_developer_dictionary(values: Vec<String>) -> (r: Result<String, String>)
    ensures
        r is Ok,
        exists|terms: Seq<Seq<char>>|
            strictly_sorted(terms) && same_elements(terms, views(values@)) && r->Ok_0@
                == json_text_of(terms),
{
    let terms = developer_terms(values);
    json_string_array(&terms)
}

/// The two dictionary fields of a `/dictate` request: the developer
/// dictionary's distinct terms in order as a JSON array, and the personal
/// dictionary as a JSON object with one member per entry.
pub fn dictate_fields(values: Vec<String>, personal: Vec<(String, String)>) -> (r: Result<
    (String, String),
    String,
>)
    requires
        distinct_keys(personal@),
    ensures
        r is Ok,
        exists|terms: Seq<Seq<char>>|
            strictly_sorted(terms) && same_elements(terms, views(values@)) && r->Ok_0.0@
                == json_text_of(terms),
        match json_members_of(r->Ok_0.1@) {
            Ok(ms) => ms.len() == personal@.len() && ms.to_set() == personal@.map_values(
                |e: (String, String)| entry_member(e),
            ).to_set(),
            Err(_) => false,
        },
{
    let dictionary = serialize_developer_dictionary(values)?;
    let personal_json = json_object_text(&personal)?;
    Ok((dictionary, personal_json))
}

/// What a reply to `/dictate` means before its body is read as a
/// transcription: a status other than success is an error that quotes the
/// status and the body.
pub fn dictate_outcome(success: bool, status: &str, body: &str) -> (r: Result<String, String>)
    ensures
        success ==> (r matches Ok(b) && b@ == body@),
        !success ==> (r matches Err(e) && e@ == "Dictate API returned status "@ + status@ + ": "@
            + body@),
{
    if success {
        Ok(String::from_str(body))
    } else {
        Err(String::from_str("Dictate API returned status ").concat(status).concat(": ").concat(body))
    }
}

} // verus!
