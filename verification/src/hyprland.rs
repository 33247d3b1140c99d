//! Talking to Hyprland: the dispatch replies and window lists that its
//! socket sends back, and where that socket is.
use vstd::prelude::*;
use vstd::string::*;

use crate::dsl::Command;
use crate::json::{
    find_member, json_array_members, json_array_members_of, json_members, json_members_of, member,
    members_view, Members,
};
use crate::text::{
    join_path, path_join, str_equal, trim, trimmed, views,
};

verus! {

/// Carries out commands and reports on the windows of the compositor.
pub trait HyprlandExecutor: Send + Sync {
    fn execute(&self, cmd: &Command) -> Result<(), String>;

    fn get_active_window(&self) -> Result<String, String>;

    fn list_windows(&self) -> Result<Vec<String>, String>;
}

/// What a reply to a dispatch means: `ok` or nothing (around whitespace) is
/// success, anything else is the compositor's complaint.
pub open spec fn dispatch_outcome_spec(reply: Seq<char>) -> Result<(), Seq<char>> {
    let t = trim(reply);
    if t == "ok"@ || t.len() == 0 {
        Ok(())
    } else {
        Err("Hyprland dispatch failed: "@ + t)
    }
}

/// What a reply to a dispatch means.
pub fn dispatch_outcome(reply: &str) -> (r: Result<(), String>)
    ensures
        match r {
            Ok(()) => dispatch_outcome_spec(reply@) is Ok,
            Err(e) => dispatch_outcome_spec(reply@) == Err::<(), Seq<char>>(e@),
        },
{
    let t = trimmed(reply);
    if str_equal(t.as_str(), "ok") || t.as_str().unicode_len() == 0 {
        Ok(())
    } else {
        Err(String::from_str("Hyprland dispatch failed: ").concat(t.as_str()))
    }
}

/// A string member's value, or nothing.
pub open spec fn string_or_empty(m: Option<Option<Seq<char>>>) -> Seq<char> {
    match m {
        Some(Some(s)) => s,
        _ => ""@,
    }
}

/// How a client window is listed: `class — title`.
pub open spec fn window_label(ms: Seq<(Seq<char>, Option<Seq<char>>)>) -> Seq<char> {
    string_or_empty(member(ms, "class"@)) + " — "@ + string_or_empty(member(ms, "title"@))
}

/// The window list made of the reply to `j/clients`.
pub open spec fn window_labels_spec(reply: Seq<char>) -> Result<Seq<Seq<char>>, Seq<char>> {
    match json_array_members_of(reply) {
        Err(e) => Err("Failed to parse clients JSON: "@ + e),
        Ok(items) => Ok(
            items.map_values(|ms: Seq<(Seq<char>, Option<Seq<char>>)>| window_label(ms)),
        ),
    }
}

/// The title made of the reply to `j/activewindow`.
pub open spec fn active_title_spec(reply: Seq<char>) -> Result<Seq<char>, Seq<char>> {
    match json_members_of(reply) {
        Err(e) => Err("Failed to parse active window JSON: "@ + e),
        Ok(ms) => match member(ms, "title"@) {
            Some(Some(t)) => Ok(t),
            _ => Err("No title in active window response"@),
        },
    }
}

/// A string member's value, or nothing.
fn member_or_empty(ms: &Members, key: &str) -> (r: String)
    ensures
        r@ == string_or_empty(member(members_view(ms@), key@)),
{
    match find_member(ms, key) {
        Some(Some(s)) => s,
        _ => String::from_str(""),
    }
}

/// The window list made of the reply to `j/clients`.
pub fn window_labels(reply: &str) -> (r: Result<Vec<String>, String>)
    ensures
        match r {
            Ok(ls) => window_labels_spec(reply@) == Ok::<Seq<Seq<char>>, Seq<char>>(views(ls@)),
            Err(e) => window_labels_spec(reply@) == Err::<Seq<Seq<char>>, Seq<char>>(e@),
        },
{
    match json_array_members(reply) {
        Err(e) => Err(String::from_str("Failed to parse clients JSON: ").concat(e.as_str())),
        Ok(items) => {
            let ghost spec_items = items@.map_values(|m: Members| members_view(m@));
            let mut labels: Vec<String> = Vec::new();
            let mut i: usize = 0;
            while i < items.len()
                invariant
                    i <= items@.len(),
                    spec_items == items@.map_values(|m: Members| members_view(m@)),
                    views(labels@) == spec_items.take(i as int).map_values(
                        |ms: Seq<(Seq<char>, Option<Seq<char>>)>| window_label(ms),
                    ),
                decreases items@.len() - i,
            {
                let class = member_or_empty(&items[i], "class");
                let title = member_or_empty(&items[i], "title");
                let label = class.concat(" — ").concat(title.as_str());
                let ghost before = views(labels@);
                labels.push(label);
                assert(views(labels@) =~= before.push(label@));
                assert(spec_items.take(i + 1) =~= spec_items.take(i as int).push(spec_items[i as int]));
                assert(spec_items.take(i + 1).map_values(
                    |ms: Seq<(Seq<char>, Option<Seq<char>>)>| window_label(ms),
                ) =~= spec_items.take(i as int).map_values(
                    |ms: Seq<(Seq<char>, Option<Seq<char>>)>| window_label(ms),
                ).push(window_label(spec_items[i as int])));
                i = i + 1;
            }
            assert(spec_items.take(items@.len() as int) =~= spec_items);
            Ok(labels)
        },
    }
}

/// The title made of the reply to `j/activewindow`.
pub fn active_window_title(reply: &str) -> (r: Result<String, String>)
    ensures
        match r {
            Ok(t) => active_title_spec(reply@) == Ok::<Seq<char>, Seq<char>>(t@),
            Err(e) => active_title_spec(reply@) == Err::<Seq<char>, Seq<char>>(e@),
        },
{
    match json_members(reply) {
        Err(e) => Err(String::from_str("Failed to parse active window JSON: ").concat(e.as_str())),
        Ok(ms) => match find_member(&ms, "title") {
            Some(Some(t)) => Ok(t),
            _ => Err(String::from_str("No title in active window response")),
        },
    }
}

/// Where Hyprland's command socket is:
/// `<runtime dir>/hypr/<instance signature>/.socket.sock`.
pub open spec fn hyprland_socket_spec(runtime_dir: Seq<char>, signature: Seq<char>) -> Seq<char> {
    path_join(path_join(path_join(runtime_dir, "hypr"@), signature), ".socket.sock"@)
}

/// Where Hyprland's command socket is.
pub fn hyprland_socket_path(runtime_dir: &str, signature: &str) -> (r: String)
    ensures
        r@ == hyprland_socket_spec(runtime_dir@, signature@),
{
    let a = join_path(runtime_dir, "hypr");
    let b = join_path(a.as_str(), signature);
    join_path(b.as_str(), ".socket.sock")
}

} // verus!
