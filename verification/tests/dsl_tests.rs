use myr::dsl::{parse, Command, Selector, Verb};


#[test]
fn test_parse_focus() {
    let input = "FOCUS title:Firefox";
    let result = parse(input).unwrap();
    assert_eq!(result.len(), 1);
    assert_eq!(result[0].verb, Verb::Focus);
    assert_eq!(result[0].selector, Selector::Title("Firefox".to_string()));
    assert!(result[0].args.is_empty());
}

#[test]
fn test_parse_close() {
    let input = "CLOSE class:Alacritty";
    let result = parse(input).unwrap();
    assert_eq!(result.len(), 1);
    assert_eq!(result[0].verb, Verb::Close);
    assert_eq!(result[0].selector, Selector::Class("Alacritty".to_string()));
}

#[test]
fn test_parse_move() {
    let input = "MOVE title:Terminal LEFT";
    let result = parse(input).unwrap();
    assert_eq!(result.len(), 1);
    assert_eq!(result[0].verb, Verb::Move);
    assert_eq!(result[0].selector, Selector::Title("Terminal".to_string()));
    assert_eq!(result[0].args, vec!["LEFT"]);
}

#[test]
fn test_parse_resize() {
    let input = "RESIZE class:Chrome 1920 1080";
    let result = parse(input).unwrap();
    assert_eq!(result.len(), 1);
    assert_eq!(result[0].verb, Verb::Resize);
    assert_eq!(result[0].selector, Selector::Class("Chrome".to_string()));
    assert_eq!(result[0].args, vec!["1920", "1080"]);
}

#[test]
fn test_parse_fullscreen() {
    let input = "FULLSCREEN title:YouTube";
    let result = parse(input).unwrap();
    assert_eq!(result.len(), 1);
    assert_eq!(result[0].verb, Verb::Fullscreen);
    assert_eq!(result[0].selector, Selector::Title("YouTube".to_string()));
}

#[test]
fn test_parse_swap() {
    let input = "SWAP title:Left class:Right";
    let result = parse(input).unwrap();
    assert_eq!(result.len(), 1);
    assert_eq!(result[0].verb, Verb::Swap);
    assert_eq!(result[0].selector, Selector::Title("Left".to_string()));
    assert_eq!(result[0].args, vec!["class:Right"]);
}

#[test]
fn test_parse_case_insensitive_verb() {
    let input = "focus title:Test";
    let result = parse(input).unwrap();
    assert_eq!(result[0].verb, Verb::Focus);
}

#[test]
fn test_parse_case_insensitive_direction() {
    let input = "MOVE title:Win right";
    let result = parse(input).unwrap();
    assert_eq!(result[0].args, vec!["right"]);
}

#[test]
fn test_parse_none() {
    let input = "NONE";
    let result = parse(input).unwrap();
    assert_eq!(result.len(), 0);
}

#[test]
fn test_parse_blank_lines_and_comments() {
    let input = r#"
# This is a comment
FOCUS title:Firefox

# Another comment
CLOSE class:Terminal
"#;
    let result = parse(input).unwrap();
    assert_eq!(result.len(), 2);
    assert_eq!(result[0].verb, Verb::Focus);
    assert_eq!(result[1].verb, Verb::Close);
}

#[test]
fn test_parse_unknown_verb() {
    let input = "INVALID title:Test";
    let result = parse(input);
    assert!(result.is_err());
    assert!(result
        .unwrap_err()
        .to_string()
        .contains("Unknown verb: INVALID"));
}

#[test]
fn test_parse_missing_selector() {
    let input = "FOCUS";
    let result = parse(input);
    assert!(result.is_err());
    assert!(result.unwrap_err().to_string().contains("Missing selector"));
}

#[test]
fn test_parse_invalid_selector_format() {
    let input = "FOCUS InvalidSelector";
    let result = parse(input);
    assert!(result.is_err());
}

#[test]
fn test_parse_move_missing_direction() {
    let input = "MOVE title:Win";
    let result = parse(input);
    assert!(result.is_err());
    assert!(result.unwrap_err().to_string().contains("direction"));
}

#[test]
fn test_parse_move_invalid_direction() {
    let input = "MOVE title:Win DIAGONAL";
    let result = parse(input);
    assert!(result.is_err());
}

#[test]
fn test_parse_resize_missing_args() {
    let input = "RESIZE class:Win 1920";
    let result = parse(input);
    assert!(result.is_err());
    assert!(result
        .unwrap_err()
        .to_string()
        .contains("two numeric arguments"));
}

#[test]
fn test_parse_resize_non_numeric() {
    let input = "RESIZE class:Win abc 1080";
    let result = parse(input);
    assert!(result.is_err());
}

#[test]
fn test_parse_swap_missing_second_selector() {
    let input = "SWAP title:Win1";
    let result = parse(input);
    assert!(result.is_err());
    assert!(result.unwrap_err().to_string().contains("second selector"));
}

#[test]
fn test_selector_with_spaces_in_value() {
    let input = "FOCUS title:My Window Title";
    let result = parse(input).unwrap();
    assert_eq!(result[0].selector, Selector::Title("My".to_string()));
}

#[test]
fn test_to_hyprctl_focus() {
    let cmd = Command {
        verb: Verb::Focus,
        selector: Selector::Title("Firefox".to_string()),
        args: vec![],
    };
    assert_eq!(cmd.to_hyprctl(), "dispatch focuswindow title:Firefox");
}

#[test]
fn test_to_hyprctl_close() {
    let cmd = Command {
        verb: Verb::Close,
        selector: Selector::Class("Alacritty".to_string()),
        args: vec![],
    };
    assert_eq!(cmd.to_hyprctl(), "dispatch closewindow class:Alacritty");
}

#[test]
fn test_to_hyprctl_move() {
    let cmd = Command {
        verb: Verb::Move,
        selector: Selector::Title("Terminal".to_string()),
        args: vec!["LEFT".to_string()],
    };
    assert_eq!(
        cmd.to_hyprctl(),
        "dispatch focuswindow title:Terminal ; dispatch movewindow l"
    );
}

#[test]
fn test_to_hyprctl_resize() {
    let cmd = Command {
        verb: Verb::Resize,
        selector: Selector::Class("Chrome".to_string()),
        args: vec!["50".to_string(), "50".to_string()],
    };
    assert_eq!(
        cmd.to_hyprctl(),
        "dispatch focuswindow class:Chrome ; dispatch resizeactive 50% 50%"
    );
}

#[test]
fn test_to_hyprctl_fullscreen() {
    let cmd = Command {
        verb: Verb::Fullscreen,
        selector: Selector::Title("Video".to_string()),
        args: vec![],
    };
    assert_eq!(
        cmd.to_hyprctl(),
        "dispatch focuswindow title:Video ; dispatch fullscreen 1"
    );
}

#[test]
fn test_to_hyprctl_swap() {
    let cmd = Command {
        verb: Verb::Swap,
        selector: Selector::Title("Left".to_string()),
        args: vec!["class:Right".to_string()],
    };
    assert_eq!(
        cmd.to_hyprctl(),
        "dispatch focuswindow title:Left ; dispatch swapwindow class:Right"
    );
}
