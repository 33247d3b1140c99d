//! The daemon: the socket protocol, and the calls it makes on the audio
//! capture, the Saga server, the compositor and the notifier to answer each
//! message, as the machine in `session` decides them.
//!
//! Every reply is `PONG`, begins with `OK`, or begins with `ERR:`.
use vstd::prelude::*;
use vstd::string::*;

use crate::audio::AudioCapture;
use crate::client::SagaClient;
use crate::config::{opt_chars, or_default, MyrConfig};
use crate::dsl::{command_views, verb_name, Command, CommandView};
use crate::hyprland::HyprlandExecutor;
use crate::notify::Notifier;
use crate::session::{
    accepts, answers, is_end, lemma_path_push, lemma_path_replies, lemma_step_continues,
    lemma_step_replies, next_step, path_ok, rank, reach, run_ends, work_left, Action, Event,
    ActionView, EventView, Exchange, Stage, StageView,
};
use crate::text::{
    contains, join, join_path, join_strings, path_join, starts_with, str_contains, str_equal,
    str_starts_with, string_result, strings_result, substring, trim, trimmed, unit_result, views,
};
use crate::tunnel::TunnelConfig;

verus! {

/// A request on the daemon socket.
#[derive(Debug, PartialEq, Eq)]
pub enum Message {
    VoiceStart,
    VoiceStop,
    VoiceToggle,
    Text(String),
    Ping,
}

/// The mathematical value of a [`Message`].
pub enum MessageView {
    VoiceStart,
    VoiceStop,
    VoiceToggle,
    Text(Seq<char>),
    Ping,
}

impl View for Message {
    type V = MessageView;

    open spec fn view(&self) -> MessageView {
        match self {
            Message::VoiceStart => MessageView::VoiceStart,
            Message::VoiceStop => MessageView::VoiceStop,
            Message::VoiceToggle => MessageView::VoiceToggle,
            Message::Text(t) => MessageView::Text(t@),
            Message::Ping => MessageView::Ping,
        }
    }
}

/// The view of an optional message.
pub open spec fn message_opt_view(m: Option<Message>) -> Option<MessageView> {
    match m {
        Some(m) => Some(m@),
        None => None,
    }
}

/// The request that a line of the socket protocol carries: the trimmed line
/// is `VOICE_START`, `VOICE_STOP`, `VOICE_TOGGLE`, `PING`, or `TEXT:` with a
/// non-empty text.
pub open spec fn message_spec(line: Seq<char>) -> Option<MessageView> {
    let t = trim(line);
    if t == "VOICE_START"@ {
        Some(MessageView::VoiceStart)
    } else if t == "VOICE_STOP"@ {
        Some(MessageView::VoiceStop)
    } else if t == "VOICE_TOGGLE"@ {
        Some(MessageView::VoiceToggle)
    } else if t == "PING"@ {
        Some(MessageView::Ping)
    } else if starts_with(t, "TEXT:"@) {
        let text = t.skip(5);
        if text.len() == 0 {
            None
        } else {
            Some(MessageView::Text(text))
        }
    } else {
        None
    }
}

/// The names of the verbs of the first `n` commands that succeeded.
pub open spec fn successes(
    cmds: Seq<CommandView>,
    outcomes: Seq<Result<(), Seq<char>>>,
    n: int,
) -> Seq<Seq<char>>
    decreases n,
{
    if n <= 0 {
        seq![]
    } else {
        let prev = successes(cmds, outcomes, n - 1);
        match outcomes[n - 1] {
            Ok(_) => prev.push(verb_name(cmds[n - 1].verb)),
            Err(_) => prev,
        }
    }
}

/// `verb: error` for each of the first `n` commands that failed.
pub open spec fn failures(
    cmds: Seq<CommandView>,
    outcomes: Seq<Result<(), Seq<char>>>,
    n: int,
) -> Seq<Seq<char>>
    decreases n,
{
    if n <= 0 {
        seq![]
    } else {
        let prev = failures(cmds, outcomes, n - 1);
        match outcomes[n - 1] {
            Ok(_) => prev,
            Err(e) => prev.push(verb_name(cmds[n - 1].verb) + ": "@ + e),
        }
    }
}

/// The reply once a non-empty list of commands was carried out with these
/// results: an error only where every command failed.
pub open spec fn dispatch_reply(cmds: Seq<CommandView>, outcomes: Seq<Result<(), Seq<char>>>) -> Seq<
    char,
> {
    if successes(cmds, outcomes, cmds.len() as int).len() == 0 && failures(
        cmds,
        outcomes,
        cmds.len() as int,
    ).len() > 0 {
        "ERR:all commands failed"@
    } else {
        "OK"@
    }
}

/// A capture error that only means nobody spoke.
pub open spec fn is_quiet(e: Seq<char>) -> bool {
    contains(e, "silent"@) || contains(e, "No audio"@)
}

/// The windows, one per line, as the server's context.
pub open spec fn window_context_spec(windows: Seq<Seq<char>>) -> Seq<char> {
    join(windows, "\n"@)
}

/// The views of execution results.
pub open spec fn results_view(rs: Seq<Result<(), String>>) -> Seq<Result<(), Seq<char>>> {
    rs.map_values(|r: Result<(), String>| unit_result(r))
}

/// The request that a line of the socket protocol carries.
pub fn parse_message(line: &str) -> (r: Option<Message>)
    ensures
        message_opt_view(r) == message_spec(line@),
{
    let t = trimmed(line);
    let ts = t.as_str();
    if str_equal(ts, "VOICE_START") {
        Some(Message::VoiceStart)
    } else if str_equal(ts, "VOICE_STOP") {
        Some(Message::VoiceStop)
    } else if str_equal(ts, "VOICE_TOGGLE") {
        Some(Message::VoiceToggle)
    } else if str_equal(ts, "PING") {
        Some(Message::Ping)
    } else if str_starts_with(ts, "TEXT:") {
        proof {
            reveal_strlit("TEXT:");
        }
        let n = crate::text::chars_of(ts).len();
        let text = substring(ts, 5, n);
        assert(text@ =~= t@.skip(5));
        if n == 5 {
            None
        } else {
            Some(Message::Text(text))
        }
    } else {
        None
    }
}

/// Hands each command, in order, to `execute` (the executor's `execute`)
/// and collects what each call returned, going on after a failure.
pub fn execute_commands<F: Fn(&Command) -> Result<(), String>>(execute: F, commands: &[Command]) -> (r: Vec<
    Result<(), String>,
>)
    requires
        forall|i: int| 0 <= i < commands@.len() ==> execute.requires((&commands@[i],)),
    ensures
        r@.len() == commands@.len(),
        forall|i: int| 0 <= i < commands@.len() ==> execute.ensures((&commands@[i],), #[trigger] r@[i]),
{
    let mut results: Vec<Result<(), String>> = Vec::new();
    let mut i: usize = 0;
    while i < commands.len()
        invariant
            i <= commands@.len(),
            results@.len() == i,
            forall|i: int| 0 <= i < commands@.len() ==> execute.requires((&commands@[i],)),
            forall|j: int| 0 <= j < i ==> execute.ensures((&commands@[j],), #[trigger] results@[j]),
        decreases commands@.len() - i,
    {
        let result = execute(&commands[i]);
        results.push(result);
        i = i + 1;
    }
    results
}

/// The names of the verbs of the commands that succeeded, and `verb: error`
/// for each that failed, in order.
pub fn summarize(commands: &Vec<Command>, results: &Vec<Result<(), String>>) -> (r: (
    Vec<String>,
    Vec<String>,
))
    requires
        results@.len() == commands@.len(),
    ensures
        views(r.0@) == successes(
            command_views(commands@),
            results_view(results@),
            commands@.len() as int,
        ),
        views(r.1@) == failures(
            command_views(commands@),
            results_view(results@),
            commands@.len() as int,
        ),
{
    let ghost cmds = command_views(commands@);
    let ghost outcomes = results_view(results@);
    let mut oks: Vec<String> = Vec::new();
    let mut errs: Vec<String> = Vec::new();
    let mut i: usize = 0;
    assert(views(oks@) =~= Seq::<Seq<char>>::empty());
    assert(views(errs@) =~= Seq::<Seq<char>>::empty());
    while i < commands.len()
        invariant
            i <= commands@.len(),
            results@.len() == commands@.len(),
            cmds == command_views(commands@),
            outcomes == results_view(results@),
            views(oks@) == successes(cmds, outcomes, i as int),
            views(errs@) == failures(cmds, outcomes, i as int),
        decreases commands@.len() - i,
    {
        let name = commands[i].verb.name();
        assert(cmds[i as int].verb == commands@[i as int].verb);
        match &results[i] {
            Ok(_) => {
                let ghost before = views(oks@);
                oks.push(name);
                assert(views(oks@) =~= before.push(name@));
            },
            Err(e) => {
                let entry = name.concat(": ").concat(e.as_str());
                let ghost before = views(errs@);
                errs.push(entry);
                assert(views(errs@) =~= before.push(entry@));
            },
        }
        i = i + 1;
    }
    (oks, errs)
}

/// The tunnel that reaches the Saga voice API that a configuration names.
pub fn tunnel_config_for(config: &MyrConfig) -> (t: TunnelConfig)
    ensures
        t.saga_host@ == config.saga_host@,
        t.saga_voice_ip@ == config.saga_voice_ip@,
        t.saga_voice_port@ == config.saga_voice_port@,
        t.local_port@ == config.myr_local_port@,
{
    TunnelConfig {
        saga_host: config.saga_host.clone(),
        saga_voice_ip: config.saga_voice_ip.clone(),
        saga_voice_port: config.saga_voice_port.clone(),
        local_port: config.myr_local_port.clone(),
    }
}

/// Where the daemon socket is, given `MYR_SOCKET` and `XDG_RUNTIME_DIR`
/// (`None` where unset): the `MYR_SOCKET` path where it is set, otherwise
/// `myr.sock` in the runtime directory, or in `/tmp`.
pub fn socket_path_for(socket: Option<String>, runtime_dir: Option<String>) -> (r: String)
    ensures
        r@ == match socket {
            Some(s) => s@,
            None => path_join(or_default(opt_chars(runtime_dir), "/tmp"@), "myr.sock"@),
        },
{
    match socket {
        Some(s) => s,
        None => {
            let dir = crate::config::env_or_default(runtime_dir, "/tmp");
            join_path(dir.as_str(), "myr.sock")
        },
    }
}

/// The windows, one per line, as the server's context.
pub fn window_context(windows: &Vec<String>) -> (r: String)
    ensures
        r@ == window_context_spec(views(windows@)),
{
    join_strings(windows, "\n")
}

/// Whether a capture error only means that nobody spoke.
pub fn is_quiet_error(e: &str) -> (b: bool)
    ensures
        b == is_quiet(e@),
{
    str_contains(e, "silent") || str_contains(e, "No audio")
}

/// The daemon: it answers messages with the help of the Saga server, the
/// compositor, the audio capture and the notifier. What to call, with which
/// arguments, and what to answer is decided by [`next_step`]; the daemon
/// makes each call and hands the answer back.
pub struct Daemon<C, E, A, N> {
    #[allow(dead_code)]
    config: MyrConfig,
    client: C,
    executor: E,
    audio: A,
    notifier: N,
    record: Ghost<Seq<Exchange>>,
}

impl<C: SagaClient, E: HyprlandExecutor, A: AudioCapture, N: Notifier> Daemon<C, E, A, N> {
    /// The configuration the daemon was made with.
    pub closed spec fn config(&self) -> MyrConfig {
        self.config
    }

    /// The client of the Saga server.
    pub closed spec fn client(&self) -> C {
        self.client
    }

    /// The compositor's executor.
    pub closed spec fn executor(&self) -> E {
        self.executor
    }

    /// The audio capture.
    pub closed spec fn audio(&self) -> A {
        self.audio
    }

    /// The notifier.
    pub closed spec fn notifier(&self) -> N {
        self.notifier
    }

    /// The calls that the daemon made on its parts, each with its answer,
    /// in order.
    pub closed spec fn exchanges(&self) -> Seq<Exchange> {
        self.record@
    }

    /// The two daemons hold the same configuration, client, executor and
    /// notifier.
    pub open spec fn keeps(&self, other: &Self) -> bool {
        &&& self.config() == other.config()
        &&& self.client() == other.client()
        &&& self.executor() == other.executor()
        &&& self.notifier() == other.notifier()
    }

    /// A daemon with these parts, that has made no call yet.
    pub fn new(config: MyrConfig, client: C, executor: E, audio: A, notifier: N) -> (d: Self)
        ensures
            d.config() == config,
            d.client() == client,
            d.executor() == executor,
            d.audio() == audio,
            d.notifier() == notifier,
            d.exchanges() == Seq::<Exchange>::empty(),
    {
        Daemon { config, client, executor, audio, notifier, record: Ghost(Seq::empty()) }
    }

    /// The exchange is a call that the daemon's parts answered so: the
    /// executor, the client and the notifier were called with the action's
    /// arguments and returned the recorded answer, and the capture reported
    /// the recorded recording state. (Starting and stopping the capture
    /// change it, and are taken as recorded.)
    pub open spec fn witnessed(&self, x: Exchange) -> bool {
        match x.0 {
            ActionView::CheckRecording => exists|a: A, b: bool|
                x.1 == EventView::Recording(b) && #[trigger] call_ensures(
                    A::is_recording,
                    (&a,),
                    b,
                ),
            ActionView::StartAudio => x.1 is Started,
            ActionView::StopAudio => x.1 is Stopped,
            ActionView::ListWindows => exists|r: Result<Vec<String>, String>|
                x.1 == EventView::Windows(strings_result(r)) && #[trigger] call_ensures(
                    E::list_windows,
                    (&self.executor(),),
                    r,
                ),
            ActionView::SendText(t, ctx) => exists|ts: &str, cs: &str, r: Result<String, String>|
                ts@ == t && cs@ == ctx && x.1 == EventView::Answered(string_result(r))
                    && #[trigger] call_ensures(C::send_text, (&self.client(), ts, cs), r),
            ActionView::SendAudio(w, ctx) => exists|ws: &[u8], cs: &str, r: Result<String, String>|
                ws@ == w && cs@ == ctx && x.1 == EventView::Answered(string_result(r))
                    && #[trigger] call_ensures(C::send_audio, (&self.client(), ws, cs), r),
            ActionView::Execute(cv) => exists|c: Command, r: Result<(), String>|
                c@ == cv && x.1 == EventView::Executed(unit_result(r)) && #[trigger] call_ensures(
                    E::execute,
                    (&self.executor(), &c),
                    r,
                ),
            ActionView::Notify(t, b) => exists|ts: &str, bs: &str, r: Result<(), String>|
                ts@ == t && bs@ == b && x.1 == EventView::Notified && #[trigger] call_ensures(
                    N::notify,
                    (&self.notifier(), ts, bs),
                    r,
                ),
            ActionView::NotifyError(t, b) => exists|ts: &str, bs: &str, r: Result<(), String>|
                ts@ == t && bs@ == b && x.1 == EventView::Notified && #[trigger] call_ensures(
                    N::error,
                    (&self.notifier(), ts, bs),
                    r,
                ),
            ActionView::Reply(_) => false,
            ActionView::Fail(_) => false,
        }
    }

    /// Every exchange is one that the daemon's parts answered so.
    pub open spec fn all_witnessed(&self, xs: Seq<Exchange>) -> bool {
        forall|k: int| 0 <= k < xs.len() ==> self.witnessed(#[trigger] xs[k])
    }

    /// Makes the call that the action names and hands back its answer.
    fn perform(&mut self, action: &Action) -> (event: Event)
        requires
            !is_end(action@),
        ensures
            answers(action@, event@),
            final(self).exchanges() == old(self).exchanges().push((action@, event@)),
            final(self).keeps(old(self)),
            final(self).witnessed((action@, event@)),
    {
        let event = match action {
            Action::CheckRecording => {
                let b = self.audio.is_recording();
                proof {
                    let a = self.audio;
                    assert(call_ensures(A::is_recording, (&a,), b));
                }
                Event::Recording(b)
            },
            Action::StartAudio => Event::Started(self.audio.start()),
            Action::StopAudio => Event::Stopped(self.audio.stop()),
            Action::ListWindows => {
                let r = self.executor.list_windows();
                proof {
                    assert(call_ensures(E::list_windows, (&self.executor,), r));
                }
                Event::Windows(r)
            },
            Action::SendText(text, context) => {
                let ts = text.as_str();
                let cs = context.as_str();
                let r = self.client.send_text(ts, cs);
                proof {
                    assert(call_ensures(C::send_text, (&self.client, ts, cs), r));
                }
                Event::Answered(r)
            },
            Action::SendAudio(wav, context) => {
                let ws = wav.as_slice();
                let cs = context.as_str();
                let r = self.client.send_audio(ws, cs);
                proof {
                    assert(call_ensures(C::send_audio, (&self.client, ws, cs), r));
                }
                Event::Answered(r)
            },
            Action::Execute(cmd) => {
                let r = self.executor.execute(cmd);
                proof {
                    let c = *cmd;
                    assert(call_ensures(E::execute, (&self.executor, &c), r));
                }
                Event::Executed(r)
            },
            Action::Notify(summary, body) => {
                let ts = summary.as_str();
                let bs = body.as_str();
                let r = self.notifier.notify(ts, bs);
                proof {
                    assert(call_ensures(N::notify, (&self.notifier, ts, bs), r));
                }
                Event::Notified
            },
            Action::NotifyError(summary, body) => {
                let ts = summary.as_str();
                let bs = body.as_str();
                let r = self.notifier.error(ts, bs);
                proof {
                    assert(call_ensures(N::error, (&self.notifier, ts, bs), r));
                }
                Event::Notified
            },
            Action::Reply(_) => Event::Notified,
            Action::Fail(_) => Event::Notified,
        };
        self.record = Ghost(self.record@.push((action@, event@)));
        event
    }

    /// Runs the machine from `stage` with `event`, making each call it asks
    /// for, until it ends.
    fn drive(&mut self, first: Stage, opening: Event) -> (r: Result<String, String>)
        requires
            accepts(first@, opening@),
        ensures
            exists|xs: Seq<Exchange>|
                run_ends(first@, opening@, xs, string_result(r)) && final(self).exchanges()
                    == old(self).exchanges() + xs && final(self).all_witnessed(xs),
            final(self).keeps(old(self)),
    {
        let ghost s0 = first@;
        let ghost e0 = opening@;
        let ghost start = self.exchanges();
        let ghost mut xs = Seq::<Exchange>::empty();
        let mut stage = first;
        let mut event = opening;
        assert(start + xs =~= start);
        loop
            invariant
                accepts(stage@, event@),
                path_ok(s0, e0, xs),
                reach(s0, e0, xs) == (stage@, event@),
                self.exchanges() == start + xs,
                self.all_witnessed(xs),
                start == old(self).exchanges(),
                s0 == first@,
                e0 == opening@,
                self.keeps(old(self)),
            decreases rank(stage@), work_left(stage@),
        {
            let ghost s = stage@;
            let ghost e = event@;
            let (next, action) = next_step(stage, event);
            match action {
                Action::Reply(reply) => {
                    let r: Result<String, String> = Ok(reply);
                    assert(run_ends(s0, e0, xs, string_result(r)) && self.exchanges() == old(
                        self,
                    ).exchanges() + xs && self.all_witnessed(xs));
                    return r;
                },
                Action::Fail(error) => {
                    let r: Result<String, String> = Err(error);
                    assert(run_ends(s0, e0, xs, string_result(r)) && self.exchanges() == old(
                        self,
                    ).exchanges() + xs && self.all_witnessed(xs));
                    return r;
                },
                other => {
                    let ghost before = *self;
                    let answer = self.perform(&other);
                    assert forall|k: int| 0 <= k < xs.len() implies self.witnessed(
                        #[trigger] xs[k],
                    ) by {
                        assert(before.witnessed(xs[k]));
                    }
                    proof {
                        lemma_step_continues(s, e, answer@);
                        lemma_path_push(s0, e0, xs, (other@, answer@));
                        xs = xs.push((other@, answer@));
                    }
                    assert(self.exchanges() =~= start + xs);
                    stage = next;
                    event = answer;
                },
            }
        }
    }

    /// The reply to a message: the outcome of the machine started on it,
    /// with the calls it asked for made on the daemon's parts.
    pub fn handle_message(&mut self, msg: Message) -> (reply: String)
        ensures
            exists|xs: Seq<Exchange>|
                run_ends(
                    StageView::Start(false),
                    EventView::Begin(msg@),
                    xs,
                    Ok::<Seq<char>, Seq<char>>(reply@),
                ) && final(self).exchanges() == old(self).exchanges() + xs && final(self).all_witnessed(xs),
            final(self).keeps(old(self)),
    {
        let ghost m = msg@;
        let r = self.drive(Stage::Start(false), Event::Begin(msg));
        let ghost xs = choose|xs: Seq<Exchange>|
            run_ends(StageView::Start(false), EventView::Begin(m), xs, string_result(r))
                && self.exchanges() == old(self).exchanges() + xs && self.all_witnessed(xs);
        proof {
            lemma_path_replies(StageView::Start(false), EventView::Begin(m), xs);
            let p = reach(StageView::Start(false), EventView::Begin(m), xs);
            lemma_step_replies(p.0, p.1);
        }
        match r {
            Ok(reply) => reply,
            Err(e) => e,
        }
    }

    /// Ends the recording and sends it with the window list, handing an
    /// error on; a capture that heard nothing ends with `OK:stopped`.
    pub fn process_voice(&mut self) -> (r: Result<String, String>)
        ensures
            exists|xs: Seq<Exchange>|
                run_ends(
                    StageView::Start(true),
                    EventView::Begin(MessageView::VoiceStop),
                    xs,
                    string_result(r),
                ) && final(self).exchanges() == old(self).exchanges() + xs && final(self).all_witnessed(xs),
            final(self).keeps(old(self)),
    {
        self.drive(Stage::Start(true), Event::Begin(Message::VoiceStop))
    }

    /// Sends a text command with the window list, handing an error on.
    pub fn process_text(&mut self, text: &str) -> (r: Result<String, String>)
        ensures
            exists|xs: Seq<Exchange>|
                run_ends(
                    StageView::Start(true),
                    EventView::Begin(MessageView::Text(text@)),
                    xs,
                    string_result(r),
                ) && final(self).exchanges() == old(self).exchanges() + xs && final(self).all_witnessed(xs),
            final(self).keeps(old(self)),
    {
        self.drive(Stage::Start(true), Event::Begin(Message::Text(String::from_str(text))))
    }

    /// Acts on the server's response: parses it, executes its commands and
    /// reports.
    pub fn process_response(&mut self, response: &str) -> (r: Result<String, String>)
        ensures
            exists|xs: Seq<Exchange>|
                run_ends(
                    StageView::Asking(true),
                    EventView::Answered(Ok(response@)),
                    xs,
                    string_result(r),
                ) && final(self).exchanges() == old(self).exchanges() + xs && final(self).all_witnessed(xs),
            final(self).keeps(old(self)),
    {
        let answer: Result<String, String> = Ok(String::from_str(response));
        self.drive(Stage::Asking(true), Event::Answered(answer))
    }

    /// The reply to one line of the socket protocol, if any: none for a
    /// blank line, `ERR:unknown command:` for a line that carries no
    /// request, which reaches none of the daemon's parts, and otherwise the
    /// reply to its message.
    pub fn handle_line(&mut self, line: &str) -> (reply: Option<String>)
        ensures
            trim(line@).len() == 0 ==> reply is None,
            trim(line@).len() != 0 && message_spec(line@) is None ==> (reply matches Some(r) && r@
                == "ERR:unknown command: "@ + trim(line@)),
            message_spec(line@) is None ==> *final(self) == *old(self),
            message_spec(line@) matches Some(m) ==> (reply matches Some(r) && exists|
                xs: Seq<Exchange>,
            |
                run_ends(
                    StageView::Start(false),
                    EventView::Begin(m),
                    xs,
                    Ok::<Seq<char>, Seq<char>>(r@),
                ) && final(self).exchanges() == old(self).exchanges() + xs && final(self).all_witnessed(xs)),
            final(self).keeps(old(self)),
    {
        let t = trimmed(line);
        proof {
            crate::text::lemma_trim_idempotent(line@);
        }
        if t.as_str().unicode_len() == 0 {
            assert(message_spec(line@) is None) by {
                reveal_strlit("TEXT:");
                reveal_strlit("PING");
                reveal_strlit("VOICE_START");
                reveal_strlit("VOICE_STOP");
                reveal_strlit("VOICE_TOGGLE");
            }
            return None;
        }
        match parse_message(t.as_str()) {
            None => Some(String::from_str("ERR:unknown command: ").concat(t.as_str())),
            Some(msg) => Some(self.handle_message(msg)),
        }
    }
}

} // verus!
