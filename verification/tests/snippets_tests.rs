use myr::snippets::{expand_snippets, Snippet};

fn mock_snippets() -> Vec<Snippet> {
    vec![
        Snippet {
            trigger: ":sig".to_string(),
            expand: "Best regards,\nZack".to_string(),
        },
        Snippet {
            trigger: ":react".to_string(),
            expand: "import React from 'react';".to_string(),
        },
    ]
}

#[test]
fn test_exact_match() {
    let snippets = mock_snippets();
    assert_eq!(
        expand_snippets(":sig", &snippets),
        Some("Best regards,\nZack".to_string())
    );
}

#[test]
fn test_prefix_match() {
    let snippets = mock_snippets();
    assert_eq!(
        expand_snippets(":sig hello", &snippets),
        Some("Best regards,\nZack hello".to_string())
    );
}

#[test]
fn test_no_match() {
    let snippets = mock_snippets();
    assert_eq!(expand_snippets("hello world", &snippets), None);
    assert_eq!(expand_snippets(":signature", &snippets), None);
}

#[test]
fn test_multiple_snippets() {
    let snippets = vec![
        Snippet {
            trigger: ":a".to_string(),
            expand: "Alpha".to_string(),
        },
        Snippet {
            trigger: ":ab".to_string(),
            expand: "Abbey".to_string(),
        },
    ];
    // First match wins based on iteration order
    assert_eq!(expand_snippets(":a", &snippets), Some("Alpha".to_string()));
    assert_eq!(expand_snippets(":ab", &snippets), Some("Abbey".to_string()));
    assert_eq!(
        expand_snippets(":a something", &snippets),
        Some("Alpha something".to_string())
    );
}
