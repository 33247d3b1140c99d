use std::collections::HashMap;

use myr::client::{
    after_attempt, answer_from_members, command_text, developer_terms, dictate_fields, dictate_outcome,
    serialize_developer_dictionary, AttemptStep,
    DictateResponse, SagaClient,
};
use serde_json::Value;

/// A client that answers every request with the same reply.
struct FixedClient {
    reply: Result<String, String>,
    dictate: Result<DictateResponse, String>,
    expected_text: Option<&'static str>,
}

impl SagaClient for FixedClient {
    fn send_text(&self, text: &str, _context: &str) -> Result<String, String> {
        if let Some(t) = self.expected_text {
            assert_eq!(text, t);
        }
        self.reply.clone()
    }

    fn send_audio(&self, _wav_bytes: &[u8], _context: &str) -> Result<String, String> {
        self.reply.clone()
    }

    fn send_dictate(
        &self,
        _audio_data: &[u8],
        _dictionary: &HashMap<String, String>,
        _personal_dictionary: &HashMap<String, String>,
        _context: &str,
    ) -> Result<DictateResponse, String> {
        self.dictate.clone()
    }

    fn health(&self) -> Result<bool, String> {
        Ok(true)
    }
}

fn client(reply: Result<String, String>) -> FixedClient {
    FixedClient { reply, dictate: Err("unused".to_string()), expected_text: None }
}

#[test]
fn test_mock_saga_client_send_text() {
    let mut mock = client(Ok("FOCUS class:kitty".to_string()));
    mock.expected_text = Some("focus terminal");

    let result = mock.send_text("focus terminal", "");
    assert!(result.is_ok());
    assert_eq!(result.unwrap(), "FOCUS class:kitty");
}

#[test]
fn test_mock_saga_client_send_audio() {
    let mock = client(Ok("CLOSE title:Slack".to_string()));
    let wav_data = vec![0u8; 1024];

    let result = mock.send_audio(&wav_data, "");
    assert!(result.is_ok());
    assert_eq!(result.unwrap(), "CLOSE title:Slack");
}

#[test]
fn test_mock_saga_client_health() {
    let mock = client(Ok(String::new()));

    let result = mock.health();
    assert!(result.is_ok());
    assert!(result.unwrap());
}

#[test]
fn test_mock_saga_client_send_dictate() {
    let mut mock = client(Ok(String::new()));
    mock.dictate = Ok(DictateResponse {
        raw: "hello world".to_string(),
        refined: "Hello, world!".to_string(),
        latency_ms: 150,
    });
    let wav_data = vec![0u8; 512];

    let dict = HashMap::from([("kubernetes".to_string(), "Kubernetes".to_string())]);
    let personal = HashMap::new();

    let result = mock.send_dictate(&wav_data, &dict, &personal, "coding");
    assert!(result.is_ok());
    let resp = result.unwrap();
    assert_eq!(resp.raw, "hello world");
    assert_eq!(resp.refined, "Hello, world!");
    assert_eq!(resp.latency_ms, 150);
}

#[test]
fn test_serialize_developer_dictionary_as_json_string_array() {
    let dictionary = HashMap::from([
        ("nicks".to_string(), "NixOS".to_string()),
        ("kube".to_string(), "Kubernetes".to_string()),
        ("k8s".to_string(), "Kubernetes".to_string()),
    ]);

    let serialized =
        serialize_developer_dictionary(dictionary.values().cloned().collect()).unwrap();
    let parsed: Value = serde_json::from_str(&serialized).unwrap();

    let terms = parsed.as_array().unwrap();
    assert_eq!(terms.len(), 2);
    assert_eq!(terms[0].as_str().unwrap(), "Kubernetes");
    assert_eq!(terms[1].as_str().unwrap(), "NixOS");
}

#[test]
fn test_personal_dictionary_serializes_as_json_object_mapping() {
    let personal = HashMap::from([
        ("nicks".to_string(), "NixOS".to_string()),
        ("dock compose".to_string(), "Docker Compose".to_string()),
    ]);

    let entries: Vec<(String, String)> =
        personal.iter().map(|(k, v)| (k.clone(), v.clone())).collect();
    let (_, serialized) = dictate_fields(vec![], entries).unwrap();
    let parsed: Value = serde_json::from_str(&serialized).unwrap();

    let obj = parsed.as_object().unwrap();
    assert_eq!(obj.get("nicks").and_then(|v| v.as_str()), Some("NixOS"));
    assert_eq!(
        obj.get("dock compose").and_then(|v| v.as_str()),
        Some("Docker Compose")
    );
}

#[test]
fn test_mock_saga_client_error() {
    let mock = client(Err("Connection timeout".to_string()));

    let result = mock.send_text("test", "");
    assert!(result.is_err());
    assert!(result.unwrap_err().to_string().contains("Connection timeout"));
}

#[test]
fn developer_terms_are_sorted_and_distinct() {
    let terms = developer_terms(vec![
        "b".to_string(),
        "a".to_string(),
        "B".to_string(),
        "a".to_string(),
        "ab".to_string(),
        "é".to_string(),
    ]);
    assert_eq!(terms, vec!["B", "a", "ab", "b", "é"]);
    assert_eq!(serialize_developer_dictionary(vec![]).unwrap(), "[]");
}

#[test]
fn command_text_reads_commands_or_text() {
    assert_eq!(command_text(r#"{"commands":"FOCUS title:A"}"#), Ok("FOCUS title:A".to_string()));
    assert_eq!(command_text(r#"{"text":"hello"}"#), Ok("hello".to_string()));
    assert_eq!(
        command_text(r#"{"commands":"X","text":"Y"}"#),
        Ok("X".to_string())
    );
    assert_eq!(command_text(r#"{"error":"bad key"}"#), Err("API error: bad key".to_string()));
    assert_eq!(
        command_text(r#"{"commands":null,"text":"Y"}"#),
        Err(r#"Missing commands/text in response: {"commands":null,"text":"Y"}"#.to_string())
    );
    assert_eq!(
        command_text(r#"[1,2]"#),
        Err("Missing commands/text in response: [1,2]".to_string())
    );
    assert_eq!(command_text("not json"), Err("Failed to parse JSON response".to_string()));
}

#[test]
fn a_failed_first_attempt_is_retried_once() {
    assert!(matches!(after_attempt(1, Err("x".to_string())), AttemptStep::Retry));
    assert!(matches!(after_attempt(1, Ok("r".to_string())), AttemptStep::Done(Ok(_))));
    assert!(matches!(after_attempt(2, Err("x".to_string())), AttemptStep::Done(Err(_))));
}

#[test]
fn dictate_fields_hold_both_dictionaries() {
    let (terms, personal) = dictate_fields(
        vec!["Kubernetes".to_string(), "NixOS".to_string(), "Kubernetes".to_string()],
        vec![("k8s".to_string(), "Kubernetes".to_string())],
    )
    .unwrap();
    assert_eq!(terms, r#"["Kubernetes","NixOS"]"#);
    assert_eq!(personal, r#"{"k8s":"Kubernetes"}"#);
    let (terms, personal) = dictate_fields(vec![], vec![]).unwrap();
    assert_eq!(terms, "[]");
    assert_eq!(personal, "{}");
}

#[test]
fn dictate_outcome_quotes_a_failed_status() {
    assert_eq!(dictate_outcome(true, "200 OK", "{}"), Ok("{}".to_string()));
    assert_eq!(
        dictate_outcome(false, "500 Internal Server Error", "boom"),
        Err("Dictate API returned status 500 Internal Server Error: boom".to_string())
    );
}

#[test]
fn answer_from_members_prefers_error_then_commands() {
    let ms = vec![
        ("text".to_string(), Some("hello".to_string())),
        ("commands".to_string(), Some("FOCUS title:A".to_string())),
    ];
    assert_eq!(answer_from_members(&ms, "b"), Ok("FOCUS title:A".to_string()));
    let ms = vec![
        ("commands".to_string(), None),
        ("text".to_string(), Some("hello".to_string())),
    ];
    assert_eq!(
        answer_from_members(&ms, "body"),
        Err("Missing commands/text in response: body".to_string())
    );
    let ms = vec![("error".to_string(), Some("quota".to_string()))];
    assert_eq!(answer_from_members(&ms, "b"), Err("API error: quota".to_string()));
}
