use myr::daemon::{parse_message, Message};
use myr::snippets::{expand_snippets, Snippet};
use myr::cli::{report_reply, text_request, voice_toggle_request, ReplyReport};
use myr::dsl::{parse, parse_selector, Command, ParseError, Selector, Verb};
use myr::hyprland::{active_window_title, dispatch_outcome, hyprland_socket_path, window_labels};

fn printed(r: ReplyReport) -> Option<String> {
    match r {
        ReplyReport::Print(s) => Some(s),
        ReplyReport::Fail(_) => None,
    }
}

fn failed(r: ReplyReport) -> Option<String> {
    match r {
        ReplyReport::Print(_) => None,
        ReplyReport::Fail(s) => Some(s),
    }
}

#[test]
fn client_reports_replies() {
    assert_eq!(printed(report_reply("OK:recording\n")), Some("Recording...".to_string()));
    assert_eq!(printed(report_reply("OK:stopped")), Some("Processing stopped".to_string()));
    assert_eq!(printed(report_reply("OK")), Some("Success".to_string()));
    assert_eq!(failed(report_reply("ERR:parse error: x\n")), Some("Error: parse error: x".to_string()));
    assert_eq!(failed(report_reply("PONG")), Some("Unexpected response: PONG".to_string()));
    assert_eq!(text_request("focus firefox"), "TEXT:focus firefox");
    assert_eq!(voice_toggle_request(), "VOICE_TOGGLE");
}

#[test]
fn dispatch_replies() {
    assert_eq!(dispatch_outcome("ok\n"), Ok(()));
    assert_eq!(dispatch_outcome("  "), Ok(()));
    assert_eq!(
        dispatch_outcome("No such window\n"),
        Err("Hyprland dispatch failed: No such window".to_string())
    );
}

#[test]
fn window_list_from_clients_json() {
    let body = r#"[{"class":"firefox","title":"Mozilla Firefox"},{"class":"kitty"},7]"#;
    assert_eq!(
        window_labels(body),
        Ok(vec![
            "firefox — Mozilla Firefox".to_string(),
            "kitty — ".to_string(),
            " — ".to_string(),
        ])
    );
    assert!(window_labels("{}").unwrap_err().starts_with("Failed to parse clients JSON: "));
    assert_eq!(active_window_title(r#"{"title":"Editor"}"#), Ok("Editor".to_string()));
    assert_eq!(
        active_window_title(r#"{"title":3}"#),
        Err("No title in active window response".to_string())
    );
    assert!(active_window_title("[").unwrap_err().starts_with("Failed to parse active window JSON: "));
}

#[test]
fn hyprland_socket_location() {
    assert_eq!(hyprland_socket_path("/run/user/1000", "abc"), "/run/user/1000/hypr/abc/.socket.sock");
    assert_eq!(hyprland_socket_path("/tmp/", "abc"), "/tmp/hypr/abc/.socket.sock");
}

#[test]
fn selectors_and_errors() {
    assert_eq!(parse_selector("TITLE:a:b"), Ok(Selector::Title("a:b".to_string())));
    assert_eq!(parse_selector("Class:"), Ok(Selector::Class(String::new())));
    assert_eq!(parse_selector("name:x"), Err(ParseError::InvalidSelectorType("name".to_string())));
    assert_eq!(parse_selector("x"), Err(ParseError::MalformedSelector));
    assert_eq!(
        parse_selector("name:x").unwrap_err().to_string(),
        "Invalid selector type: name"
    );
}

#[test]
fn none_discards_earlier_commands() {
    assert_eq!(parse("FOCUS title:A\n  none \nCLOSE title:B").unwrap().len(), 0);
    assert!(parse("BAD title:A\nNONE").is_err());
}

#[test]
fn resize_numbers_follow_i32() {
    assert!(parse("RESIZE title:A -2147483648 +2147483647").is_ok());
    assert!(parse("RESIZE title:A 2147483648 1").is_err());
    assert!(parse("RESIZE title:A - 1").is_err());
    assert!(parse("RESIZE title:A 1 +").is_err());
    assert_eq!(
        parse("RESIZE title:A 1 x").unwrap_err().to_string(),
        "RESIZE height must be numeric"
    );
}

#[test]
fn fallback_swaps_selector_kind() {
    let cmd = Command {
        verb: Verb::Close,
        selector: Selector::Title("Slack".to_string()),
        args: vec![],
    };
    assert_eq!(cmd.to_hyprctl_fallback(), Some("dispatch closewindow class:Slack".to_string()));
    let cmd = Command { verb: Verb::Move, selector: Selector::Class("k".to_string()), args: vec![] };
    assert_eq!(cmd.to_hyprctl(), "dispatch focuswindow class:k ; dispatch movewindow l");
    let cmd = Command {
        verb: Verb::Move,
        selector: Selector::Class("k".to_string()),
        args: vec!["down".to_string()],
    };
    assert_eq!(cmd.to_hyprctl(), "dispatch focuswindow class:k ; dispatch movewindow d");
    let cmd = Command { verb: Verb::Resize, selector: Selector::Class("k".to_string()), args: vec![] };
    assert_eq!(cmd.to_hyprctl(), "dispatch focuswindow class:k ; dispatch resizeactive 50% 50%");
}

#[test]
fn crlf_lines_and_unicode_whitespace() {
    let r = parse("FOCUS\u{00a0}title:A\r\nCLOSE\tclass:B\r\n").unwrap();
    assert_eq!(r.len(), 2);
    assert_eq!(r[0].selector, Selector::Title("A".to_string()));
    assert_eq!(r[1].verb, Verb::Close);
}

#[test]
fn text_request_reaches_daemon_unchanged() {
    assert_eq!(
        parse_message(&text_request("focus firefox")),
        Some(Message::Text("focus firefox".to_string()))
    );
    assert_eq!(parse_message(&voice_toggle_request()), Some(Message::VoiceToggle));
    assert_eq!(parse_message(" \u{3000}VOICE_STOP\t"), parse_message("VOICE_STOP"));
}

#[test]
fn snippet_expansion_ignores_surrounding_whitespace() {
    let snippets = vec![Snippet { trigger: ":sig".to_string(), expand: "Regards".to_string() }];
    assert_eq!(expand_snippets("  :sig  ", &snippets), expand_snippets(":sig", &snippets));
    assert_eq!(expand_snippets("\t:sig now \n", &snippets), Some("Regards now".to_string()));
}

#[test]
fn fallback_twice_is_the_dispatch() {
    let cmd = Command {
        verb: Verb::Swap,
        selector: Selector::Class("a".to_string()),
        args: vec!["title:b".to_string()],
    };
    let swapped = Command {
        verb: Verb::Swap,
        selector: Selector::Title("a".to_string()),
        args: vec!["title:b".to_string()],
    };
    assert_eq!(swapped.to_hyprctl_fallback(), Some(cmd.to_hyprctl()));
    assert_eq!(cmd.to_hyprctl(), "dispatch focuswindow class:a ; dispatch swapwindow title:b");
}

#[test]
fn every_parsed_command_is_valid_for_its_verb() {
    let cmds = parse("move title:a up\nresize class:b 10 20\nswap title:c CLASS:d\n# note\n").unwrap();
    assert_eq!(cmds.len(), 3);
    assert_eq!(cmds[0].args, vec!["up"]);
    assert_eq!(cmds[1].args, vec!["10", "20"]);
    assert_eq!(cmds[2].args, vec!["CLASS:d"]);
    assert_eq!(parse("SWAP title:c nope").unwrap_err(), ParseError::MalformedSelector);
    assert_eq!(parse("MOVE title:c").unwrap_err(), ParseError::MissingDirection);
}
