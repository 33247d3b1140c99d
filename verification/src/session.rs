//! How the daemon handles one message, as a state machine: each step takes
//! what the last call on the daemon's parts answered and says which call to
//! make next, with which arguments, or what the message's outcome is.
use vstd::prelude::*;
use vstd::string::*;

use crate::daemon::{
    dispatch_reply, failures, is_quiet, is_quiet_error, results_view, successes, summarize,
    window_context, window_context_spec, Message, MessageView,
};
use crate::dsl::{command_views, error_message, parse, parse_spec, Command, CommandView};
use crate::text::{
    bytes_result, join, join_strings, string_result, strings_result, unit_result, views,
};

verus! {

/// Where the handling of a message stands. `raw` marks a flow whose errors
/// are handed to the caller rather than turned into an `ERR:` reply.
pub enum Stage {
    /// The message is yet to come.
    Start(bool),
    /// Waiting to learn whether the capture is recording.
    Checking(bool),
    /// Waiting for the capture to start.
    Starting,
    /// Waiting for the capture to stop.
    Stopping(bool),
    /// Waiting for the window list; then the recording, or else the text,
    /// goes to the server.
    Listing(Option<Vec<u8>>, String, bool),
    /// Waiting for the server's answer.
    Asking(bool),
    /// Executing the commands; the results so far.
    Executing(Vec<Command>, Vec<Result<(), String>>),
    /// Sending notifications (each an error or not, and its body): the
    /// index of the next one, and the outcome once they are sent.
    Announcing(Vec<(bool, String)>, usize, Result<String, String>),
    /// Nothing more to do.
    Over,
}

/// What the last call answered.
pub enum Event {
    /// A message arrived.
    Begin(Message),
    /// Whether the capture is recording.
    Recording(bool),
    /// What starting the capture gave.
    Started(Result<(), String>),
    /// What stopping the capture gave: a WAV file, or why there is none.
    Stopped(Result<Vec<u8>, String>),
    /// The window list.
    Windows(Result<Vec<String>, String>),
    /// The server's answer.
    Answered(Result<String, String>),
    /// What executing a command gave.
    Executed(Result<(), String>),
    /// A notification was handed to the notifier.
    Notified,
}

/// What to do next.
#[derive(Debug, PartialEq, Eq)]
pub enum Action {
    CheckRecording,
    StartAudio,
    StopAudio,
    ListWindows,
    /// Send the text with this window context.
    SendText(String, String),
    /// Send the recording with this window context.
    SendAudio(Vec<u8>, String),
    Execute(Command),
    /// Notify the user: the summary, then the body.
    Notify(String, String),
    /// Notify the user of an error: the summary, then the body.
    NotifyError(String, String),
    /// The handling is over with this reply.
    Reply(String),
    /// The handling is over with this error.
    Fail(String),
}

/// The mathematical value of a [`Stage`].
pub enum StageView {
    Start(bool),
    Checking(bool),
    Starting,
    Stopping(bool),
    Listing(Option<Seq<u8>>, Seq<char>, bool),
    Asking(bool),
    Executing(Seq<CommandView>, Seq<Result<(), Seq<char>>>),
    Announcing(Seq<(bool, Seq<char>)>, nat, Result<Seq<char>, Seq<char>>),
    Over,
}

/// The mathematical value of an [`Event`].
pub enum EventView {
    Begin(MessageView),
    Recording(bool),
    Started(Result<(), Seq<char>>),
    Stopped(Result<Seq<u8>, Seq<char>>),
    Windows(Result<Seq<Seq<char>>, Seq<char>>),
    Answered(Result<Seq<char>, Seq<char>>),
    Executed(Result<(), Seq<char>>),
    Notified,
}

/// The mathematical value of an [`Action`].
pub enum ActionView {
    CheckRecording,
    StartAudio,
    StopAudio,
    ListWindows,
    SendText(Seq<char>, Seq<char>),
    SendAudio(Seq<u8>, Seq<char>),
    Execute(CommandView),
    Notify(Seq<char>, Seq<char>),
    NotifyError(Seq<char>, Seq<char>),
    Reply(Seq<char>),
    Fail(Seq<char>),
}

/// The views of notifications.
pub open spec fn notes_view(ns: Seq<(bool, String)>) -> Seq<(bool, Seq<char>)> {
    ns.map_values(|n: (bool, String)| (n.0, n.1@))
}

impl View for Stage {
    type V = StageView;

    open spec fn view(&self) -> StageView {
        match self {
            Stage::Start(raw) => StageView::Start(*raw),
            Stage::Checking(raw) => StageView::Checking(*raw),
            Stage::Starting => StageView::Starting,
            Stage::Stopping(raw) => StageView::Stopping(*raw),
            Stage::Listing(wav, text, raw) => StageView::Listing(
                match wav {
                    Some(w) => Some(w@),
                    None => None,
                },
                text@,
                *raw,
            ),
            Stage::Asking(raw) => StageView::Asking(*raw),
            Stage::Executing(cs, rs) => StageView::Executing(command_views(cs@), results_view(rs@)),
            Stage::Announcing(ns, next, out) => StageView::Announcing(
                notes_view(ns@),
                *next as nat,
                string_result(*out),
            ),
            Stage::Over => StageView::Over,
        }
    }
}

impl View for Event {
    type V = EventView;

    open spec fn view(&self) -> EventView {
        match self {
            Event::Begin(m) => EventView::Begin(m@),
            Event::Recording(b) => EventView::Recording(*b),
            Event::Started(r) => EventView::Started(unit_result(*r)),
            Event::Stopped(r) => EventView::Stopped(bytes_result(*r)),
            Event::Windows(r) => EventView::Windows(strings_result(*r)),
            Event::Answered(r) => EventView::Answered(string_result(*r)),
            Event::Executed(r) => EventView::Executed(unit_result(*r)),
            Event::Notified => EventView::Notified,
        }
    }
}

impl View for Action {
    type V = ActionView;

    open spec fn view(&self) -> ActionView {
        match self {
            Action::CheckRecording => ActionView::CheckRecording,
            Action::StartAudio => ActionView::StartAudio,
            Action::StopAudio => ActionView::StopAudio,
            Action::ListWindows => ActionView::ListWindows,
            Action::SendText(t, c) => ActionView::SendText(t@, c@),
            Action::SendAudio(w, c) => ActionView::SendAudio(w@, c@),
            Action::Execute(c) => ActionView::Execute(c@),
            Action::Notify(t, b) => ActionView::Notify(t@, b@),
            Action::NotifyError(t, b) => ActionView::NotifyError(t@, b@),
            Action::Reply(r) => ActionView::Reply(r@),
            Action::Fail(e) => ActionView::Fail(e@),
        }
    }
}

/// The summary of every notification.
pub open spec fn summary() -> Seq<char> {
    "Myr"@
}

/// The action that sends a notification, under the summary `Myr`.
pub open spec fn note_action(n: (bool, Seq<char>)) -> ActionView {
    if n.0 {
        ActionView::NotifyError(summary(), n.1)
    } else {
        ActionView::Notify(summary(), n.1)
    }
}

/// The action that ends the handling with this outcome.
pub open spec fn end_action(out: Result<Seq<char>, Seq<char>>) -> ActionView {
    match out {
        Ok(r) => ActionView::Reply(r),
        Err(e) => ActionView::Fail(e),
    }
}

/// The handling ends with this action.
pub open spec fn is_end(a: ActionView) -> bool {
    a is Reply || a is Fail
}

/// Send these notifications in order, then end with this outcome.
pub open spec fn finish(notes: Seq<(bool, Seq<char>)>, out: Result<Seq<char>, Seq<char>>) -> (
    StageView,
    ActionView,
) {
    if notes.len() == 0 {
        (StageView::Over, end_action(out))
    } else {
        (StageView::Announcing(notes, 1, out), note_action(notes[0]))
    }
}

/// End with the error `e`: a raw flow hands it on; otherwise it is
/// announced and becomes an `ERR:` reply.
pub open spec fn fail_with(raw: bool, notes: Seq<(bool, Seq<char>)>, e: Seq<char>) -> (
    StageView,
    ActionView,
) {
    if raw {
        finish(notes, Err(e))
    } else {
        finish(notes.push((true, e)), Ok("ERR:"@ + e))
    }
}

/// The notifications after the commands were carried out: the successes
/// together, then each failure on its own.
pub open spec fn report_notes(cmds: Seq<CommandView>, outs: Seq<Result<(), Seq<char>>>) -> Seq<
    (bool, Seq<char>),
> {
    let s = successes(cmds, outs, cmds.len() as int);
    let f = failures(cmds, outs, cmds.len() as int);
    (if s.len() > 0 {
        seq![(false, "Executed: "@ + join(s, ", "@))]
    } else {
        seq![]
    }) + f.map_values(|x: Seq<char>| (true, x))
}

/// Acting on the server's response: a response that does not parse is
/// announced and answered with `ERR:parse error:`; one without commands is
/// announced as no window command; otherwise the first command is executed.
pub open spec fn respond(resp: Seq<char>) -> (StageView, ActionView) {
    match parse_spec(resp) {
        Err(e) => finish(
            seq![(true, "Could not understand command: "@ + error_message(e))],
            Ok("ERR:parse error: "@ + error_message(e)),
        ),
        Ok(cmds) => if cmds.len() == 0 {
            finish(seq![(false, "Not a window command"@)], Ok("OK:stopped"@))
        } else {
            (StageView::Executing(cmds, seq![]), ActionView::Execute(cmds[0]))
        },
    }
}

/// What follows an event that the stage does not wait for.
pub open spec fn stray() -> (StageView, ActionView) {
    (StageView::Over, ActionView::Fail(seq![]))
}

/// The events that each stage waits for.
pub open spec fn accepts(stage: StageView, event: EventView) -> bool {
    match stage {
        StageView::Start(_) => event is Begin,
        StageView::Checking(_) => event is Recording,
        StageView::Starting => event is Started,
        StageView::Stopping(_) => event is Stopped,
        StageView::Listing(_, _, _) => event is Windows,
        StageView::Asking(_) => event is Answered,
        StageView::Executing(cmds, outs) => event is Executed && outs.len() < cmds.len(),
        StageView::Announcing(notes, next, _) => event is Notified && next <= notes.len(),
        StageView::Over => false,
    }
}

/// The event is the kind of answer that the action's call gives.
pub open spec fn answers(action: ActionView, event: EventView) -> bool {
    match action {
        ActionView::CheckRecording => event is Recording,
        ActionView::StartAudio => event is Started,
        ActionView::StopAudio => event is Stopped,
        ActionView::ListWindows => event is Windows,
        ActionView::SendText(_, _) => event is Answered,
        ActionView::SendAudio(_, _) => event is Answered,
        ActionView::Execute(_) => event is Executed,
        ActionView::Notify(_, _) => event is Notified,
        ActionView::NotifyError(_, _) => event is Notified,
        ActionView::Reply(_) => false,
        ActionView::Fail(_) => false,
    }
}

/// One step of handling a message.
///
/// - `PING` is answered `PONG` at once.
/// - `VOICE_START` starts the capture; a start is announced with
///   `Listening...` and answered `OK:recording`, a failure `ERR:` with no
///   notification. `VOICE_TOGGLE` first asks whether the capture is
///   recording, and stops it if so, else starts it.
/// - Stopping: a capture that heard nothing is announced with `No speech
///   detected` and answered `OK:stopped`; another error ends the flow; a
///   recording is sent after the window list is known.
/// - `TEXT:` sends the text after the window list is known.
/// - The request carries the windows, one per line. An unreachable server
///   is announced with `Cannot reach Saga server`, and the error ends the
///   flow.
/// - The response's commands are executed one by one, in order; then the
///   successes are announced together and each failure on its own, and the
///   reply is `ERR:all commands failed` where all failed, `OK` otherwise.
/// - An error that ends a flow is handed on in a raw flow; otherwise it is
///   announced and answered `ERR:` with the error.
pub open spec fn step_spec(stage: StageView, event: EventView) -> (StageView, ActionView) {
    match stage {
        StageView::Start(raw) => match event {
            EventView::Begin(m) => match m {
                MessageView::Ping => (StageView::Over, ActionView::Reply("PONG"@)),
                MessageView::VoiceStart => (StageView::Starting, ActionView::StartAudio),
                MessageView::VoiceStop => (StageView::Stopping(raw), ActionView::StopAudio),
                MessageView::VoiceToggle => (StageView::Checking(raw), ActionView::CheckRecording),
                MessageView::Text(t) => (StageView::Listing(None, t, raw), ActionView::ListWindows),
            },
            _ => stray(),
        },
        StageView::Checking(raw) => match event {
            EventView::Recording(on) => if on {
                (StageView::Stopping(raw), ActionView::StopAudio)
            } else {
                (StageView::Starting, ActionView::StartAudio)
            },
            _ => stray(),
        },
        StageView::Starting => match event {
            EventView::Started(r) => match r {
                Ok(_) => finish(seq![(false, "Listening..."@)], Ok("OK:recording"@)),
                Err(e) => finish(seq![], Ok("ERR:"@ + e)),
            },
            _ => stray(),
        },
        StageView::Stopping(raw) => match event {
            EventView::Stopped(r) => match r {
                Err(e) => if is_quiet(e) {
                    finish(seq![(false, "No speech detected"@)], Ok("OK:stopped"@))
                } else {
                    fail_with(raw, seq![], e)
                },
                Ok(wav) => (StageView::Listing(Some(wav), ""@, raw), ActionView::ListWindows),
            },
            _ => stray(),
        },
        StageView::Listing(wav, text, raw) => match event {
            EventView::Windows(r) => match r {
                Err(e) => fail_with(raw, seq![], e),
                Ok(ws) => (
                    StageView::Asking(raw),
                    match wav {
                        Some(w) => ActionView::SendAudio(w, window_context_spec(ws)),
                        None => ActionView::SendText(text, window_context_spec(ws)),
                    },
                ),
            },
            _ => stray(),
        },
        StageView::Asking(raw) => match event {
            EventView::Answered(r) => match r {
                Err(e) => fail_with(raw, seq![(true, "Cannot reach Saga server"@)], e),
                Ok(resp) => respond(resp),
            },
            _ => stray(),
        },
        StageView::Executing(cmds, outs) => match event {
            EventView::Executed(r) => {
                let o = outs.push(r);
                if o.len() < cmds.len() {
                    (StageView::Executing(cmds, o), ActionView::Execute(cmds[o.len() as int]))
                } else {
                    finish(report_notes(cmds, o), Ok(dispatch_reply(cmds, o)))
                }
            },
            _ => stray(),
        },
        StageView::Announcing(notes, next, out) => match event {
            EventView::Notified => if next < notes.len() {
                (StageView::Announcing(notes, next + 1, out), note_action(notes[next as int]))
            } else {
                (StageView::Over, end_action(out))
            },
            _ => stray(),
        },
        StageView::Over => stray(),
    }
}

/// One call on the daemon's parts and what it answered.
pub type Exchange = (ActionView, EventView);

/// Where the machine stands after the exchanges `xs`, started at `stage`
/// with `event`: the stage, and the event that it waits to take.
pub open spec fn reach(stage: StageView, event: EventView, xs: Seq<Exchange>) -> (
    StageView,
    EventView,
)
    decreases xs.len(),
{
    if xs.len() == 0 {
        (stage, event)
    } else {
        let p = reach(stage, event, xs.drop_last());
        (step_spec(p.0, p.1).0, xs.last().1)
    }
}

/// The exchanges follow the machine: each call is the action that the
/// machine chose, and each answer is of the kind that the call gives.
pub open spec fn path_ok(stage: StageView, event: EventView, xs: Seq<Exchange>) -> bool
    decreases xs.len(),
{
    if xs.len() == 0 {
        true
    } else {
        let p = reach(stage, event, xs.drop_last());
        &&& path_ok(stage, event, xs.drop_last())
        &&& accepts(p.0, p.1)
        &&& step_spec(p.0, p.1).1 == xs.last().0
        &&& answers(xs.last().0, xs.last().1)
    }
}

/// Started at `stage` with `event`, the machine made the exchanges `xs` and
/// then ended with the outcome `out`.
pub open spec fn run_ends(
    stage: StageView,
    event: EventView,
    xs: Seq<Exchange>,
    out: Result<Seq<char>, Seq<char>>,
) -> bool {
    let p = reach(stage, event, xs);
    &&& path_ok(stage, event, xs)
    &&& accepts(p.0, p.1)
    &&& step_spec(p.0, p.1).1 == end_action(out)
}

/// The order in which stages come.
pub open spec fn rank(s: StageView) -> nat {
    match s {
        StageView::Start(_) => 9,
        StageView::Checking(_) => 8,
        StageView::Starting => 7,
        StageView::Stopping(_) => 7,
        StageView::Listing(_, _, _) => 6,
        StageView::Asking(_) => 5,
        StageView::Executing(_, _) => 4,
        StageView::Announcing(_, _, _) => 3,
        StageView::Over => 0,
    }
}

/// The work left within a stage.
pub open spec fn work_left(s: StageView) -> nat {
    match s {
        StageView::Executing(cmds, outs) => (cmds.len() - outs.len()) as nat,
        StageView::Announcing(notes, next, _) => (notes.len() - next) as nat,
        _ => 0,
    }
}

/// A step that does not end the handling leaves a stage that waits for the
/// answer to its action, nearer the end than the stage before.
pub proof fn lemma_step_continues(s: StageView, e: EventView, e2: EventView)
    requires
        accepts(s, e),
        !is_end(step_spec(s, e).1),
        answers(step_spec(s, e).1, e2),
    ensures
        accepts(step_spec(s, e).0, e2),
        rank(step_spec(s, e).0) < rank(s) || (rank(step_spec(s, e).0) == rank(s) && work_left(
            step_spec(s, e).0,
        ) < work_left(s)),
{
    match s {
        StageView::Executing(cmds, outs) => {
            if let EventView::Executed(r) = e {
                let o = outs.push(r);
                if o.len() >= cmds.len() {
                    let notes = report_notes(cmds, o);
                    if notes.len() > 0 {
                        assert(accepts(step_spec(s, e).0, e2));
                    }
                }
            }
        },
        StageView::Asking(raw) => {
            if let EventView::Answered(Ok(resp)) = e {
                if let Ok(cmds) = parse_spec(resp) {
                    if cmds.len() > 0 {
                        assert(accepts(step_spec(s, e).0, e2));
                    }
                }
            }
        },
        _ => {},
    }
}

/// A path that grows by one exchange, made in answer to the machine's
/// action, is still a path.
pub proof fn lemma_path_push(s: StageView, e: EventView, xs: Seq<Exchange>, x: Exchange)
    requires
        path_ok(s, e, xs),
        accepts(reach(s, e, xs).0, reach(s, e, xs).1),
        step_spec(reach(s, e, xs).0, reach(s, e, xs).1).1 == x.0,
        answers(x.0, x.1),
    ensures
        path_ok(s, e, xs.push(x)),
        reach(s, e, xs.push(x)) == (step_spec(reach(s, e, xs).0, reach(s, e, xs).1).0, x.1),
{
    assert(xs.push(x).drop_last() =~= xs);
}

/// The flow hands its errors on: a raw stage, or notifications that end in
/// an error.
pub open spec fn hands_on(s: StageView) -> bool {
    match s {
        StageView::Start(raw) => raw,
        StageView::Checking(raw) => raw,
        StageView::Stopping(raw) => raw,
        StageView::Listing(_, _, raw) => raw,
        StageView::Asking(raw) => raw,
        StageView::Announcing(_, _, out) => out is Err,
        _ => false,
    }
}

/// A flow that does not hand its errors on never fails, and never comes to
/// a stage that does.
pub proof fn lemma_step_replies(s: StageView, e: EventView)
    requires
        accepts(s, e),
        !hands_on(s),
    ensures
        !hands_on(step_spec(s, e).0),
        !(step_spec(s, e).1 is Fail),
{
}

/// Along a path from a stage that does not hand its errors on, no stage
/// does.
pub proof fn lemma_path_replies(s: StageView, e: EventView, xs: Seq<Exchange>)
    requires
        path_ok(s, e, xs),
        !hands_on(s),
    ensures
        !hands_on(reach(s, e, xs).0),
    decreases xs.len(),
{
    if xs.len() > 0 {
        lemma_path_replies(s, e, xs.drop_last());
        let p = reach(s, e, xs.drop_last());
        lemma_step_replies(p.0, p.1);
    }
}

/// No notifications.
fn no_notes() -> (v: Vec<(bool, String)>)
    ensures
        notes_view(v@) == Seq::<(bool, Seq<char>)>::empty(),
{
    let v: Vec<(bool, String)> = Vec::new();
    assert(notes_view(v@) =~= Seq::<(bool, Seq<char>)>::empty());
    v
}

/// One notification.
fn one_note(error: bool, body: String) -> (v: Vec<(bool, String)>)
    ensures
        notes_view(v@) == seq![(error, body@)],
{
    let ghost b = body@;
    let mut v: Vec<(bool, String)> = Vec::new();
    v.push((error, body));
    assert(notes_view(v@) =~= seq![(error, b)]);
    v
}

/// The action that sends a notification.
fn note_of(n: &(bool, String)) -> (a: Action)
    ensures
        a@ == note_action((n.0, n.1@)),
{
    if n.0 {
        Action::NotifyError(String::from_str("Myr"), n.1.clone())
    } else {
        Action::Notify(String::from_str("Myr"), n.1.clone())
    }
}

/// The action that ends the handling with this outcome.
fn end_of(out: Result<String, String>) -> (a: Action)
    ensures
        a@ == end_action(string_result(out)),
{
    match out {
        Ok(r) => Action::Reply(r),
        Err(e) => Action::Fail(e),
    }
}

/// Send these notifications in order, then end with this outcome.
fn finish_with(notes: Vec<(bool, String)>, out: Result<String, String>) -> (r: (Stage, Action))
    ensures
        (r.0@, r.1@) == finish(notes_view(notes@), string_result(out)),
{
    if notes.len() == 0 {
        (Stage::Over, end_of(out))
    } else {
        let first = note_of(&notes[0]);
        (Stage::Announcing(notes, 1, out), first)
    }
}

/// End with the error `e`, handed on in a raw flow, announced and answered
/// otherwise.
fn fail_flow(raw: bool, notes: Vec<(bool, String)>, e: String) -> (r: (Stage, Action))
    ensures
        (r.0@, r.1@) == fail_with(raw, notes_view(notes@), e@),
{
    if raw {
        finish_with(notes, Err(e))
    } else {
        let ghost ev = e@;
        let reply = String::from_str("ERR:").concat(e.as_str());
        let mut notes = notes;
        let ghost before = notes_view(notes@);
        notes.push((true, e));
        assert(notes_view(notes@) =~= before.push((true, ev)));
        finish_with(notes, Ok(reply))
    }
}

/// Acting on the server's response.
fn respond_to(resp: String) -> (r: (Stage, Action))
    ensures
        (r.0@, r.1@) == respond(resp@),
{
    match parse(resp.as_str()) {
        Err(e) => {
            let m = e.to_string();
            let note = String::from_str("Could not understand command: ").concat(m.as_str());
            let reply = String::from_str("ERR:parse error: ").concat(m.as_str());
            finish_with(one_note(true, note), Ok(reply))
        },
        Ok(cmds) => {
            if cmds.len() == 0 {
                finish_with(
                    one_note(false, String::from_str("Not a window command")),
                    Ok(String::from_str("OK:stopped")),
                )
            } else {
                let first = cmds[0].duplicate();
                let results: Vec<Result<(), String>> = Vec::new();
                assert(results_view(results@) =~= Seq::<Result<(), Seq<char>>>::empty());
                (Stage::Executing(cmds, results), Action::Execute(first))
            }
        },
    }
}

/// The notifications and the reply once every command was carried out.
fn report(commands: Vec<Command>, results: Vec<Result<(), String>>) -> (r: (Stage, Action))
    requires
        results@.len() == commands@.len(),
    ensures
        (r.0@, r.1@) == finish(
            report_notes(command_views(commands@), results_view(results@)),
            Ok(dispatch_reply(command_views(commands@), results_view(results@))),
        ),
{
    let (oks, errs) = summarize(&commands, &results);
    let ghost f = views(errs@);
    let mut notes: Vec<(bool, String)> = Vec::new();
    if oks.len() > 0 {
        let joined = join_strings(&oks, ", ");
        notes.push((false, String::from_str("Executed: ").concat(joined.as_str())));
    }
    let ghost head = notes_view(notes@);
    let mut k: usize = 0;
    assert(f.take(0).map_values(|x: Seq<char>| (true, x)) =~= Seq::<(bool, Seq<char>)>::empty());
    assert(head + Seq::<(bool, Seq<char>)>::empty() =~= head);
    while k < errs.len()
        invariant
            k <= errs@.len(),
            f == views(errs@),
            notes_view(notes@) == head + f.take(k as int).map_values(|x: Seq<char>| (true, x)),
        decreases errs@.len() - k,
    {
        let ghost before = notes_view(notes@);
        let e = errs[k].clone();
        notes.push((true, e));
        assert(notes_view(notes@) =~= before.push((true, f[k as int])));
        assert(f.take(k + 1).map_values(|x: Seq<char>| (true, x)) =~= f.take(k as int).map_values(
            |x: Seq<char>| (true, x),
        ).push((true, f[k as int])));
        k = k + 1;
    }
    assert(f.take(errs@.len() as int) =~= f);
    assert(notes_view(notes@) =~= report_notes(command_views(commands@), results_view(results@)));
    let reply = if oks.len() == 0 && errs.len() > 0 {
        String::from_str("ERR:all commands failed")
    } else {
        String::from_str("OK")
    };
    finish_with(notes, Ok(reply))
}

/// One step of handling a message: the stage it leaves, and what to do
/// next.
pub fn next_step(stage: Stage, event: Event) -> (r: (Stage, Action))
    requires
        accepts(stage@, event@),
    ensures
        (r.0@, r.1@) == step_spec(stage@, event@),
{
    match stage {
        Stage::Start(raw) => match event {
            Event::Begin(m) => match m {
                Message::Ping => (Stage::Over, Action::Reply(String::from_str("PONG"))),
                Message::VoiceStart => (Stage::Starting, Action::StartAudio),
                Message::VoiceStop => (Stage::Stopping(raw), Action::StopAudio),
                Message::VoiceToggle => (Stage::Checking(raw), Action::CheckRecording),
                Message::Text(t) => (Stage::Listing(None, t, raw), Action::ListWindows),
            },
            _ => (Stage::Over, Action::Fail(String::from_str(""))),
        },
        Stage::Checking(raw) => match event {
            Event::Recording(on) => {
                if on {
                    (Stage::Stopping(raw), Action::StopAudio)
                } else {
                    (Stage::Starting, Action::StartAudio)
                }
            },
            _ => (Stage::Over, Action::Fail(String::from_str(""))),
        },
        Stage::Starting => match event {
            Event::Started(r) => match r {
                Ok(()) => finish_with(
                    one_note(false, String::from_str("Listening...")),
                    Ok(String::from_str("OK:recording")),
                ),
                Err(e) => finish_with(no_notes(), Ok(String::from_str("ERR:").concat(e.as_str()))),
            },
            _ => (Stage::Over, Action::Fail(String::from_str(""))),
        },
        Stage::Stopping(raw) => match event {
            Event::Stopped(r) => match r {
                Err(e) => {
                    if is_quiet_error(e.as_str()) {
                        finish_with(
                            one_note(false, String::from_str("No speech detected")),
                            Ok(String::from_str("OK:stopped")),
                        )
                    } else {
                        fail_flow(raw, no_notes(), e)
                    }
                },
                Ok(wav) => (Stage::Listing(Some(wav), String::from_str(""), raw), Action::ListWindows),
            },
            _ => (Stage::Over, Action::Fail(String::from_str(""))),
        },
        Stage::Listing(wav, text, raw) => match event {
            Event::Windows(r) => match r {
                Err(e) => fail_flow(raw, no_notes(), e),
                Ok(ws) => {
                    let context = window_context(&ws);
                    let a = match wav {
                        Some(w) => Action::SendAudio(w, context),
                        None => Action::SendText(text, context),
                    };
                    (Stage::Asking(raw), a)
                },
            },
            _ => (Stage::Over, Action::Fail(String::from_str(""))),
        },
        Stage::Asking(raw) => match event {
            Event::Answered(r) => match r {
                Err(e) => fail_flow(raw, one_note(true, String::from_str("Cannot reach Saga server")), e),
                Ok(resp) => respond_to(resp),
            },
            _ => (Stage::Over, Action::Fail(String::from_str(""))),
        },
        Stage::Executing(cmds, results) => match event {
            Event::Executed(r) => {
                let ghost before = results_view(results@);
                let ghost rv = unit_result(r);
                let mut results = results;
                results.push(r);
                assert(results_view(results@) =~= before.push(rv));
                if results.len() < cmds.len() {
                    let c = cmds[results.len()].duplicate();
                    (Stage::Executing(cmds, results), Action::Execute(c))
                } else {
                    report(cmds, results)
                }
            },
            _ => (Stage::Over, Action::Fail(String::from_str(""))),
        },
        Stage::Announcing(notes, next, out) => match event {
            Event::Notified => {
                if next < notes.len() {
                    let a = note_of(&notes[next]);
                    (Stage::Announcing(notes, next + 1, out), a)
                } else {
                    (Stage::Over, end_of(out))
                }
            },
            _ => (Stage::Over, Action::Fail(String::from_str(""))),
        },
        Stage::Over => (Stage::Over, Action::Fail(String::from_str(""))),
    }
}

} // verus!
