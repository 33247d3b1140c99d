use std::collections::HashMap;
use std::sync::{Arc, Mutex};

use myr::audio::AudioCapture;
use myr::client::{DictateResponse, SagaClient};
use myr::config::MyrConfig;
use myr::daemon::{
    execute_commands, is_quiet_error, parse_message, socket_path_for, window_context, Daemon,
    Message,
};
use myr::session::{next_step, Action, Event, Stage};
use myr::dsl::{Command, Selector, Verb};
use myr::hyprland::HyprlandExecutor;
use myr::notify::Notifier;

/// Everything the mocks were asked to do, in order.
#[derive(Clone, Default)]
struct Log(Arc<Mutex<Vec<String>>>);

impl Log {
    fn push(&self, entry: String) {
        self.0.lock().unwrap().push(entry);
    }

    fn entries(&self) -> Vec<String> {
        self.0.lock().unwrap().clone()
    }

    fn count(&self, prefix: &str) -> usize {
        self.entries().iter().filter(|e| e.starts_with(prefix)).count()
    }
}

struct MockClient {
    log: Log,
    reply: Result<String, String>,
}

impl SagaClient for MockClient {
    fn send_text(&self, text: &str, context: &str) -> Result<String, String> {
        self.log.push(format!("send_text:{}|{}", text, context));
        self.reply.clone()
    }

    fn send_audio(&self, wav_bytes: &[u8], context: &str) -> Result<String, String> {
        self.log.push(format!("send_audio:{:?}|{}", wav_bytes, context));
        self.reply.clone()
    }

    fn send_dictate(
        &self,
        _audio_data: &[u8],
        _dictionary: &HashMap<String, String>,
        _personal_dictionary: &HashMap<String, String>,
        _context: &str,
    ) -> Result<DictateResponse, String> {
        self.log.push("send_dictate".to_string());
        Err("not expected".to_string())
    }

    fn health(&self) -> Result<bool, String> {
        self.log.push("health".to_string());
        Ok(true)
    }
}

struct MockExecutor {
    log: Log,
    windows: Result<Vec<String>, String>,
    outcome: fn(&Command) -> Result<(), String>,
}

impl HyprlandExecutor for MockExecutor {
    fn execute(&self, cmd: &Command) -> Result<(), String> {
        self.log.push(format!("execute:{:?}", cmd.verb));
        (self.outcome)(cmd)
    }

    fn get_active_window(&self) -> Result<String, String> {
        self.log.push("get_active_window".to_string());
        Err("not expected".to_string())
    }

    fn list_windows(&self) -> Result<Vec<String>, String> {
        self.log.push("list_windows".to_string());
        self.windows.clone()
    }
}

struct MockAudio {
    log: Log,
    recording: bool,
    start: Result<(), String>,
    stop: Result<Vec<u8>, String>,
}

impl AudioCapture for MockAudio {
    fn start(&mut self) -> Result<(), String> {
        self.log.push("start".to_string());
        self.start.clone()
    }

    fn stop(&mut self) -> Result<Vec<u8>, String> {
        self.log.push("stop".to_string());
        self.stop.clone()
    }

    fn is_recording(&self) -> bool {
        self.log.push("is_recording".to_string());
        self.recording
    }
}

struct MockNotifier {
    log: Log,
}

impl Notifier for MockNotifier {
    fn notify(&self, summary: &str, body: &str) -> Result<(), String> {
        self.log.push(format!("notify:{}|{}", summary, body));
        Ok(())
    }

    fn error(&self, summary: &str, body: &str) -> Result<(), String> {
        self.log.push(format!("error:{}|{}", summary, body));
        Ok(())
    }
}

fn ok_all(_: &Command) -> Result<(), String> {
    Ok(())
}

struct Setup {
    log: Log,
    reply: Result<String, String>,
    windows: Result<Vec<String>, String>,
    outcome: fn(&Command) -> Result<(), String>,
    recording: bool,
    start: Result<(), String>,
    stop: Result<Vec<u8>, String>,
}

impl Setup {
    fn new() -> Self {
        Setup {
            log: Log::default(),
            reply: Err("not expected".to_string()),
            windows: Err("not expected".to_string()),
            outcome: ok_all,
            recording: false,
            start: Err("not expected".to_string()),
            stop: Err("not expected".to_string()),
        }
    }

    fn daemon(self) -> (Daemon<MockClient, MockExecutor, MockAudio, MockNotifier>, Log) {
        let log = self.log.clone();
        let config = MyrConfig::from_values(None, None, None, None, None, None, None);
        let daemon = Daemon::new(
            config,
            MockClient { log: self.log.clone(), reply: self.reply },
            MockExecutor { log: self.log.clone(), windows: self.windows, outcome: self.outcome },
            MockAudio {
                log: self.log.clone(),
                recording: self.recording,
                start: self.start,
                stop: self.stop,
            },
            MockNotifier { log: self.log.clone() },
        );
        (daemon, log)
    }
}

#[test]
fn test_parse_message_all_variants() {
    assert_eq!(parse_message("VOICE_START"), Some(Message::VoiceStart));
    assert_eq!(parse_message("VOICE_STOP"), Some(Message::VoiceStop));
    assert_eq!(parse_message("VOICE_TOGGLE"), Some(Message::VoiceToggle));
    assert_eq!(parse_message("PING"), Some(Message::Ping));
    assert_eq!(
        parse_message("TEXT:focus firefox"),
        Some(Message::Text("focus firefox".to_string()))
    );
    assert_eq!(parse_message("TEXT:"), None);
    assert_eq!(parse_message("UNKNOWN"), None);
    assert_eq!(parse_message(""), None);
}

#[test]
fn test_parse_message_with_whitespace() {
    assert_eq!(parse_message("  PING  "), Some(Message::Ping));
    assert_eq!(
        parse_message("  TEXT:hello world  "),
        Some(Message::Text("hello world".to_string()))
    );
}

#[test]
fn test_ping_response() {
    let (mut daemon, log) = Setup::new().daemon();
    let resp = daemon.handle_message(Message::Ping);
    assert_eq!(resp, "PONG");
    assert!(log.entries().is_empty());
}

#[test]
fn test_voice_flow_happy_path() {
    let mut setup = Setup::new();
    setup.stop = Ok(vec![1, 2, 3, 4]);
    setup.windows = Ok(vec!["Firefox".to_string(), "Terminal".to_string()]);
    setup.reply = Ok("FOCUS title:Firefox".to_string());
    let (mut daemon, log) = setup.daemon();

    let resp = daemon.process_voice().unwrap();
    assert_eq!(resp, "OK");
    assert_eq!(log.count("stop"), 1);
    assert_eq!(log.count("list_windows"), 1);
    assert_eq!(
        log.entries().iter().filter(|e| e.as_str() == "send_audio:[1, 2, 3, 4]|Firefox\nTerminal").count(),
        1
    );
    assert_eq!(log.count("execute:"), 1);
    assert_eq!(log.count("notify:"), 1);
}

#[test]
fn test_voice_flow_silence() {
    let mut setup = Setup::new();
    setup.stop = Err("Audio is silent (RMS amplitude: 0.001)".to_string());
    let (mut daemon, log) = setup.daemon();

    let resp = daemon.process_voice().unwrap();
    assert_eq!(resp, "OK:stopped");
    assert_eq!(log.entries(), vec!["stop", "notify:Myr|No speech detected"]);
}

#[test]
fn test_voice_flow_no_audio_samples() {
    let mut setup = Setup::new();
    setup.stop = Err("No audio samples captured".to_string());
    let (mut daemon, log) = setup.daemon();

    let resp = daemon.process_voice().unwrap();
    assert_eq!(resp, "OK:stopped");
    assert_eq!(log.entries(), vec!["stop", "notify:Myr|No speech detected"]);
}

#[test]
fn test_voice_flow_none_response() {
    let mut setup = Setup::new();
    setup.stop = Ok(vec![1, 2, 3]);
    setup.windows = Ok(vec![]);
    setup.reply = Ok("NONE".to_string());
    let (mut daemon, log) = setup.daemon();

    let resp = daemon.process_voice().unwrap();
    assert_eq!(resp, "OK:stopped");
    assert_eq!(log.count("notify:Myr|Not a window command"), 1);
    assert_eq!(log.count("execute:"), 0);
}

#[test]
fn test_voice_flow_invalid_dsl() {
    let mut setup = Setup::new();
    setup.stop = Ok(vec![1, 2, 3]);
    setup.windows = Ok(vec![]);
    setup.reply = Ok("I don't understand that command".to_string());
    let (mut daemon, log) = setup.daemon();

    let resp = daemon.process_voice().unwrap();
    assert!(resp.starts_with("ERR:parse error"));
    let errors: Vec<String> =
        log.entries().into_iter().filter(|e| e.starts_with("error:")).collect();
    assert_eq!(errors.len(), 1);
    assert!(errors[0].contains("Could not understand command"));
}

#[test]
fn test_voice_flow_server_error() {
    let mut setup = Setup::new();
    setup.stop = Ok(vec![1, 2, 3]);
    setup.windows = Ok(vec![]);
    setup.reply = Err("Connection timeout".to_string());
    let (mut daemon, log) = setup.daemon();

    let resp = daemon.process_voice();
    assert!(resp.is_err());
    assert!(resp.unwrap_err().to_string().contains("Connection timeout"));
    assert_eq!(log.count("error:Myr|Cannot reach Saga server"), 1);
}

#[test]
fn test_text_flow_happy_path() {
    let mut setup = Setup::new();
    setup.windows = Ok(vec!["Firefox".to_string()]);
    setup.reply = Ok("FOCUS title:Firefox".to_string());
    let (mut daemon, log) = setup.daemon();

    let resp = daemon.process_text("focus firefox").unwrap();
    assert_eq!(resp, "OK");
    assert_eq!(log.count("send_text:focus firefox|Firefox"), 1);
    assert_eq!(log.count("execute:"), 1);
    let notes: Vec<String> =
        log.entries().into_iter().filter(|e| e.starts_with("notify:")).collect();
    assert_eq!(notes.len(), 1);
    assert!(notes[0].contains("Executed"));
}

fn firefox_only(cmd: &Command) -> Result<(), String> {
    match &cmd.selector {
        Selector::Title(t) if t == "Firefox" => Ok(()),
        _ => Err("Window not found: Missing".to_string()),
    }
}

#[test]
fn test_text_flow_executor_partial_failure() {
    let mut setup = Setup::new();
    setup.windows = Ok(vec!["Firefox".to_string()]);
    setup.reply = Ok("FOCUS title:Firefox\nCLOSE title:Missing".to_string());
    setup.outcome = firefox_only;
    let (mut daemon, log) = setup.daemon();

    let resp = daemon.process_text("focus firefox and close missing").unwrap();
    assert_eq!(resp, "OK");
    assert_eq!(log.count("execute:"), 2);
    let notes: Vec<String> =
        log.entries().into_iter().filter(|e| e.starts_with("notify:")).collect();
    assert_eq!(notes.len(), 1);
    assert!(notes[0].contains("Executed") && notes[0].contains("Focus"));
    let errors: Vec<String> =
        log.entries().into_iter().filter(|e| e.starts_with("error:")).collect();
    assert_eq!(errors.len(), 1);
    assert!(errors[0].contains("Close") && errors[0].contains("Window not found"));
}

#[test]
fn test_voice_toggle_starts_when_not_recording() {
    let mut setup = Setup::new();
    setup.recording = false;
    setup.start = Ok(());
    let (mut daemon, log) = setup.daemon();

    let resp = daemon.handle_message(Message::VoiceToggle);
    assert_eq!(resp, "OK:recording");
    assert_eq!(log.entries(), vec!["is_recording", "start", "notify:Myr|Listening..."]);
}

#[test]
fn test_voice_toggle_stops_when_recording() {
    let mut setup = Setup::new();
    setup.recording = true;
    setup.stop = Ok(vec![1, 2, 3]);
    setup.windows = Ok(vec![]);
    setup.reply = Ok("FOCUS title:Firefox".to_string());
    let (mut daemon, log) = setup.daemon();

    let resp = daemon.handle_message(Message::VoiceToggle);
    assert_eq!(resp, "OK");
    assert_eq!(log.count("is_recording"), 1);
    assert_eq!(log.count("stop"), 1);
    assert_eq!(log.count("execute:"), 1);
    assert_eq!(log.count("notify:"), 1);
}

#[test]
fn test_execute_commands_all_succeed() {
    let executor = MockExecutor { log: Log::default(), windows: Ok(vec![]), outcome: ok_all };

    let commands = vec![
        Command {
            verb: Verb::Focus,
            selector: Selector::Title("Firefox".to_string()),
            args: vec![],
        },
        Command {
            verb: Verb::Close,
            selector: Selector::Class("Terminal".to_string()),
            args: vec![],
        },
    ];

    let results = execute_commands(|c: &Command| executor.execute(c), &commands);
    assert_eq!(results.len(), 2);
    assert!(results[0].is_ok());
    assert!(results[1].is_ok());
    assert_eq!(executor.log.count("execute:"), 2);
}

fn close_fails(cmd: &Command) -> Result<(), String> {
    match cmd.verb {
        Verb::Focus => Ok(()),
        Verb::Close => Err("Window not found".to_string()),
        _ => Ok(()),
    }
}

#[test]
fn test_execute_commands_partial_failure() {
    let executor = MockExecutor { log: Log::default(), windows: Ok(vec![]), outcome: close_fails };

    let commands = vec![
        Command {
            verb: Verb::Focus,
            selector: Selector::Title("Firefox".to_string()),
            args: vec![],
        },
        Command {
            verb: Verb::Close,
            selector: Selector::Title("Ghost".to_string()),
            args: vec![],
        },
    ];

    let results = execute_commands(|c: &Command| executor.execute(c), &commands);
    assert_eq!(results.len(), 2);
    assert!(results[0].is_ok());
    assert!(results[1].is_err());
    assert_eq!(executor.log.count("execute:"), 2);
}

#[test]
fn test_socket_path_ends_with_myr_sock() {
    let path = socket_path_for(None, Some("/run/user/1000".to_string()));
    assert!(std::path::Path::new(&path).ends_with("myr.sock"));
    assert_eq!(path, "/run/user/1000/myr.sock");
    assert_eq!(socket_path_for(None, None), "/tmp/myr.sock");
    assert_eq!(socket_path_for(None, Some("/run/".to_string())), "/run/myr.sock");
}

#[test]
fn voice_start_failure_is_reported_without_notification() {
    let mut setup = Setup::new();
    setup.start = Err("No default input device found".to_string());
    let (mut daemon, log) = setup.daemon();

    let resp = daemon.handle_message(Message::VoiceStart);
    assert_eq!(resp, "ERR:No default input device found");
    assert_eq!(log.entries(), vec!["start"]);
}

#[test]
fn voice_stop_capture_error_is_an_error_reply() {
    let mut setup = Setup::new();
    setup.stop = Err("Failed to finalize WAV".to_string());
    let (mut daemon, log) = setup.daemon();

    let resp = daemon.handle_message(Message::VoiceStop);
    assert_eq!(resp, "ERR:Failed to finalize WAV");
    assert_eq!(log.entries(), vec!["stop", "error:Myr|Failed to finalize WAV"]);
}

fn all_fail(_: &Command) -> Result<(), String> {
    Err("Window not found".to_string())
}

#[test]
fn all_commands_failing_is_an_error_reply() {
    let mut setup = Setup::new();
    setup.windows = Ok(vec![]);
    setup.reply = Ok("FOCUS title:A\nCLOSE class:B".to_string());
    setup.outcome = all_fail;
    let (mut daemon, log) = setup.daemon();

    let resp = daemon.handle_message(Message::Text("do it".to_string()));
    assert_eq!(resp, "ERR:all commands failed");
    assert_eq!(
        log.entries(),
        vec![
            "list_windows",
            "send_text:do it|",
            "execute:Focus",
            "execute:Close",
            "error:Myr|Focus: Window not found",
            "error:Myr|Close: Window not found",
        ]
    );
}

#[test]
fn window_list_failure_stops_the_text_flow() {
    let mut setup = Setup::new();
    setup.windows = Err("Failed to connect to Hyprland socket".to_string());
    let (mut daemon, log) = setup.daemon();

    let resp = daemon.handle_message(Message::Text("focus".to_string()));
    assert_eq!(resp, "ERR:Failed to connect to Hyprland socket");
    assert_eq!(log.entries(), vec!["list_windows", "error:Myr|Failed to connect to Hyprland socket"]);
}

#[test]
fn executed_summary_joins_successes() {
    let mut setup = Setup::new();
    setup.windows = Ok(vec!["a".to_string(), "b".to_string()]);
    setup.reply = Ok("FOCUS title:A\nFULLSCREEN class:B".to_string());
    let (mut daemon, log) = setup.daemon();

    let resp = daemon.handle_message(Message::Text("go".to_string()));
    assert_eq!(resp, "OK");
    assert_eq!(log.count("send_text:go|a\nb"), 1);
    assert_eq!(log.count("notify:Myr|Executed: Focus, Fullscreen"), 1);
}

#[test]
fn handle_line_answers_protocol_lines() {
    let (mut daemon, _log) = Setup::new().daemon();
    assert_eq!(daemon.handle_line("   "), None);
    assert_eq!(daemon.handle_line(" PING "), Some("PONG".to_string()));
    assert_eq!(daemon.handle_line("HELLO"), Some("ERR:unknown command: HELLO".to_string()));
    assert_eq!(daemon.handle_line("TEXT:"), Some("ERR:unknown command: TEXT:".to_string()));
}

#[test]
fn myr_socket_overrides_the_runtime_dir() {
    assert_eq!(
        socket_path_for(Some("/run/custom.sock".to_string()), None),
        "/run/custom.sock"
    );
    assert_eq!(
        socket_path_for(
            Some("/run/custom.sock".to_string()),
            Some("/run/user/1000".to_string())
        ),
        "/run/custom.sock"
    );
}

fn drive(stage: Stage, event: Event, answers: Vec<Event>) -> (Vec<Action>, Action) {
    let mut stage = stage;
    let mut event = event;
    let mut answers = answers.into_iter();
    let mut actions = Vec::new();
    loop {
        let (next, action) = next_step(stage, event);
        match action {
            Action::Reply(_) | Action::Fail(_) => return (actions, action),
            other => {
                actions.push(other);
                stage = next;
                event = answers.next().expect("an answer for each call");
            }
        }
    }
}

#[test]
fn machine_toggle_starts_when_idle() {
    let (calls, end) = drive(
        Stage::Start(false),
        Event::Begin(Message::VoiceToggle),
        vec![Event::Recording(false), Event::Started(Ok(())), Event::Notified],
    );
    assert_eq!(
        calls,
        vec![
            Action::CheckRecording,
            Action::StartAudio,
            Action::Notify("Myr".to_string(), "Listening...".to_string())
        ]
    );
    assert_eq!(end, Action::Reply("OK:recording".to_string()));
}

#[test]
fn machine_start_failure_is_not_announced() {
    let (calls, end) = drive(
        Stage::Start(false),
        Event::Begin(Message::VoiceStart),
        vec![Event::Started(Err("busy".to_string()))],
    );
    assert_eq!(calls, vec![Action::StartAudio]);
    assert_eq!(end, Action::Reply("ERR:busy".to_string()));
}

#[test]
fn machine_voice_flow_sends_the_recording_with_the_windows() {
    let (calls, end) = drive(
        Stage::Start(false),
        Event::Begin(Message::VoiceToggle),
        vec![
            Event::Recording(true),
            Event::Stopped(Ok(vec![1, 2, 3])),
            Event::Windows(Ok(vec!["Firefox".to_string(), "Terminal".to_string()])),
            Event::Answered(Ok("FOCUS title:Firefox\nCLOSE class:Ghost".to_string())),
            Event::Executed(Ok(())),
            Event::Executed(Err("Window not found".to_string())),
            Event::Notified,
            Event::Notified,
        ],
    );
    assert_eq!(calls.len(), 8);
    assert_eq!(calls[0], Action::CheckRecording);
    assert_eq!(calls[1], Action::StopAudio);
    assert_eq!(calls[2], Action::ListWindows);
    assert_eq!(calls[3], Action::SendAudio(vec![1, 2, 3], "Firefox\nTerminal".to_string()));
    match (&calls[4], &calls[5]) {
        (Action::Execute(a), Action::Execute(b)) => {
            assert_eq!(a.verb, Verb::Focus);
            assert_eq!(b.verb, Verb::Close);
            assert_eq!(b.selector, Selector::Class("Ghost".to_string()));
        }
        _ => panic!("expected two executions"),
    }
    assert_eq!(calls[6], Action::Notify("Myr".to_string(), "Executed: Focus".to_string()));
    assert_eq!(calls[7], Action::NotifyError("Myr".to_string(), "Close: Window not found".to_string()));
    assert_eq!(end, Action::Reply("OK".to_string()));
}

#[test]
fn machine_quiet_capture_ends_stopped() {
    let (calls, end) = drive(
        Stage::Start(false),
        Event::Begin(Message::VoiceStop),
        vec![Event::Stopped(Err("Audio is silent".to_string())), Event::Notified],
    );
    assert_eq!(
        calls,
        vec![Action::StopAudio, Action::Notify("Myr".to_string(), "No speech detected".to_string())]
    );
    assert_eq!(end, Action::Reply("OK:stopped".to_string()));
}

#[test]
fn machine_unreachable_server_is_announced_twice_or_handed_on() {
    let answers = vec![
        Event::Windows(Ok(vec![])),
        Event::Answered(Err("timeout".to_string())),
        Event::Notified,
        Event::Notified,
    ];
    let (calls, end) =
        drive(Stage::Start(false), Event::Begin(Message::Text("hi".to_string())), answers);
    assert_eq!(
        calls,
        vec![
            Action::ListWindows,
            Action::SendText("hi".to_string(), "".to_string()),
            Action::NotifyError("Myr".to_string(), "Cannot reach Saga server".to_string()),
            Action::NotifyError("Myr".to_string(), "timeout".to_string()),
        ]
    );
    assert_eq!(end, Action::Reply("ERR:timeout".to_string()));

    let answers = vec![
        Event::Windows(Ok(vec![])),
        Event::Answered(Err("timeout".to_string())),
        Event::Notified,
    ];
    let (calls, end) =
        drive(Stage::Start(true), Event::Begin(Message::Text("hi".to_string())), answers);
    assert_eq!(calls.len(), 3);
    assert_eq!(end, Action::Fail("timeout".to_string()));
}

#[test]
fn machine_response_without_commands_or_unparsable() {
    let (calls, end) = drive(
        Stage::Asking(false),
        Event::Answered(Ok("NONE".to_string())),
        vec![Event::Notified],
    );
    assert_eq!(calls, vec![Action::Notify("Myr".to_string(), "Not a window command".to_string())]);
    assert_eq!(end, Action::Reply("OK:stopped".to_string()));

    let (calls, end) = drive(
        Stage::Asking(false),
        Event::Answered(Ok("JUMP title:A".to_string())),
        vec![Event::Notified],
    );
    assert_eq!(
        calls,
        vec![Action::NotifyError("Myr".to_string(), "Could not understand command: Unknown verb: JUMP".to_string())]
    );
    assert_eq!(end, Action::Reply("ERR:parse error: Unknown verb: JUMP".to_string()));
}

#[test]
fn machine_all_failures_are_an_error_reply() {
    let (calls, end) = drive(
        Stage::Asking(false),
        Event::Answered(Ok("FOCUS title:A".to_string())),
        vec![Event::Executed(Err("gone".to_string())), Event::Notified],
    );
    assert_eq!(calls.len(), 2);
    assert_eq!(calls[1], Action::NotifyError("Myr".to_string(), "Focus: gone".to_string()));
    assert_eq!(end, Action::Reply("ERR:all commands failed".to_string()));
}

#[test]
fn machine_ping_answers_at_once() {
    let (calls, end) = drive(Stage::Start(false), Event::Begin(Message::Ping), vec![]);
    assert!(calls.is_empty());
    assert_eq!(end, Action::Reply("PONG".to_string()));
}

#[test]
fn window_context_and_quiet_errors() {
    assert_eq!(window_context(&vec!["a".to_string(), "b".to_string()]), "a\nb");
    assert_eq!(window_context(&vec![]), "");
    assert!(is_quiet_error("Audio is silent"));
    assert!(is_quiet_error("No audio samples captured"));
    assert!(!is_quiet_error("no audio"));
}

#[test]
fn process_response_of_a_parse_error() {
    let (mut daemon, log) = Setup::new().daemon();
    let r = daemon.process_response("I don't understand that command").unwrap();
    assert!(r.starts_with("ERR:parse error: "));
    assert_eq!(log.count("error:Myr|Could not understand command: "), 1);
    assert_eq!(log.count("execute:"), 0);
}
