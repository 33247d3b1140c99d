//! Properties that hold across the library's functions.
use vstd::prelude::*;

use crate::cli::{report_spec, ReplyReportView};
use crate::daemon::{dispatch_reply, failures, message_spec, successes, MessageView};
use crate::client::answer_of_members;
use crate::hyprland::dispatch_outcome_spec;
use crate::json::member;
use crate::dsl::{
    arg_error, hyprctl_spec, line_outcome, parse_from, parse_spec, selector_spec, selector_text,
    split_at_colon, swapped, verb_keyword, verb_name, CommandView, LineOutcome, ParseErrorView,
    SelectorView, Verb,
};
use crate::daemon::is_quiet;
use crate::dsl::error_message;
use crate::session::{
    accepts, answers, finish, note_action, report_notes, path_ok, reach, run_ends, step_spec, summary,
    ActionView, EventView, Exchange, StageView,
};
use crate::snippets::{exact_match, expansion, prefix_match, SnippetView};
use crate::tunnel::{
    tunnel_accepts, tunnel_spec, TunnelConfig, TunnelEvent, TunnelState, TunnelStepView,
};
use crate::text::{
    contains, eq_ignore_ascii_case, is_ws, join, lemma_trim_end_fixed, lemma_trim_end_keeps,
    lemma_trim_idempotent, lemma_trim_start_fixed, lines, starts_with, trim, trim_end, trim_start,
    ascii_upper_char, lowercase_of, uppercase_of, words,
};

verus! {

/// A reply that the socket protocol allows: `PONG`, or one that begins with
/// `OK` or `ERR:`.
pub open spec fn protocol_reply(r: Seq<char>) -> bool {
    r == "PONG"@ || starts_with(r, "OK"@) || starts_with(r, "ERR:"@)
}

proof fn lemma_starts_with_concat(a: Seq<char>, b: Seq<char>)
    ensures
        starts_with(a + b, a),
{
    assert((a + b).subrange(0, a.len() as int) =~= a);
}

proof fn lemma_ok_replies()
    ensures
        starts_with("OK"@, "OK"@),
        starts_with("OK:stopped"@, "OK"@),
        starts_with("OK:recording"@, "OK"@),
        starts_with("ERR:all commands failed"@, "ERR:"@),
        "ERR:parse error: "@ == "ERR:"@ + "parse error: "@,
        "ERR:unknown command: "@ == "ERR:"@ + "unknown command: "@,
{
    reveal_strlit("OK");
    reveal_strlit("OK:stopped");
    reveal_strlit("OK:recording");
    reveal_strlit("ERR:all commands failed");
    reveal_strlit("ERR:");
    reveal_strlit("ERR:parse error: ");
    reveal_strlit("parse error: ");
    reveal_strlit("ERR:unknown command: ");
    reveal_strlit("unknown command: ");
    assert("OK"@.subrange(0, 2) =~= "OK"@);
    assert("OK:stopped"@.subrange(0, 2) =~= "OK"@);
    assert("OK:recording"@.subrange(0, 2) =~= "OK"@);
    assert("ERR:all commands failed"@.subrange(0, 4) =~= "ERR:"@);
    assert("ERR:parse error: "@ =~= "ERR:"@ + "parse error: "@);
    assert("ERR:unknown command: "@ =~= "ERR:"@ + "unknown command: "@);
}

proof fn lemma_trim_keeps_prefix(r: Seq<char>, p: Seq<char>)
    requires
        p.len() > 0,
        !is_ws(p[0]),
        !is_ws(p.last()),
        starts_with(r, p),
    ensures
        starts_with(trim(r), p),
{
    assert(r[0] == p[0]);
    lemma_trim_start_fixed(r);
    assert(r[p.len() - 1] == p.last());
    assert(trim_start(r) == r);
    lemma_trim_end_keeps(r, p.len() as int);
    crate::text::lemma_trim_end_prefix(r);
    let l = trim_end(r).len() as int;
    assert(p.len() <= l <= r.len());
    assert(trim(r) == r.take(l));
    assert(r.take(l).subrange(0, p.len() as int) =~= r.subrange(0, p.len() as int));
}

/// A reply that begins with `OK` or `ERR:`.
pub open spec fn tagged(r: Seq<char>) -> bool {
    starts_with(r, "OK"@) || starts_with(r, "ERR:"@)
}

/// Every reply that the stage can still end with is tagged.
pub open spec fn tagged_stage(s: StageView) -> bool {
    match s {
        StageView::Announcing(_, _, out) => out matches Ok(r) ==> tagged(r),
        StageView::Start(_) => false,
        _ => true,
    }
}

proof fn lemma_err_tagged(e: Seq<char>)
    ensures
        tagged("ERR:"@ + e),
{
    lemma_starts_with_concat("ERR:"@, e);
}

proof fn lemma_step_tagged(s: StageView, e: EventView)
    requires
        accepts(s, e),
        tagged_stage(s),
    ensures
        tagged_stage(step_spec(s, e).0) || step_spec(s, e).0 is Over,
        step_spec(s, e).1 matches ActionView::Reply(r) ==> tagged(r),
{
    lemma_ok_replies();
    match s {
        StageView::Starting => {
            if let EventView::Started(Err(x)) = e {
                lemma_err_tagged(x);
            }
        },
        StageView::Stopping(_) => {
            if let EventView::Stopped(Err(x)) = e {
                lemma_err_tagged(x);
            }
        },
        StageView::Listing(_, _, _) => {
            if let EventView::Windows(Err(x)) = e {
                lemma_err_tagged(x);
            }
        },
        StageView::Asking(_) => {
            if let EventView::Answered(r) = e {
                match r {
                    Err(x) => lemma_err_tagged(x),
                    Ok(resp) => {
                        if let Err(pe) = parse_spec(resp) {
                            let m = crate::dsl::error_message(pe);
                            assert("ERR:parse error: "@ + m =~= "ERR:"@ + ("parse error: "@ + m));
                            lemma_err_tagged("parse error: "@ + m);
                        }
                    },
                }
            }
        },
        _ => {},
    }
}

proof fn lemma_first_exchange(s: StageView, e: EventView, xs: Seq<Exchange>)
    requires
        path_ok(s, e, xs),
        xs.len() > 0,
    ensures
        accepts(s, e),
        step_spec(s, e).1 == xs[0].0,
        answers(xs[0].0, xs[0].1),
    decreases xs.len(),
{
    if xs.len() > 1 {
        lemma_first_exchange(s, e, xs.drop_last());
    }
}

proof fn lemma_path_tagged(m: MessageView, xs: Seq<Exchange>)
    requires
        path_ok(StageView::Start(false), EventView::Begin(m), xs),
        xs.len() > 0,
    ensures
        tagged_stage(reach(StageView::Start(false), EventView::Begin(m), xs).0),
    decreases xs.len(),
{
    let s0 = StageView::Start(false);
    let e0 = EventView::Begin(m);
    if xs.len() > 1 {
        lemma_path_tagged(m, xs.drop_last());
        let p = reach(s0, e0, xs.drop_last());
        lemma_step_tagged(p.0, p.1);
        if step_spec(p.0, p.1).0 is Over {
            assert(!accepts(reach(s0, e0, xs).0, reach(s0, e0, xs).1));
        }
    } else {
        lemma_first_exchange(s0, e0, xs);
    }
}

/// Every reply of the daemon to a message is `PONG`, or begins with `OK` or
/// `ERR:`, whatever its parts answered; only `PING` is answered `PONG`.
pub proof fn law_replies_follow_protocol(msg: MessageView, xs: Seq<Exchange>, reply: Seq<char>)
    requires
        run_ends(StageView::Start(false), EventView::Begin(msg), xs, Ok(reply)),
    ensures
        protocol_reply(reply),
        msg != MessageView::Ping ==> tagged(reply),
        msg == MessageView::Ping ==> reply == "PONG"@,
{
    let s0 = StageView::Start(false);
    let e0 = EventView::Begin(msg);
    if xs.len() == 0 {
        lemma_ok_replies();
    } else {
        lemma_first_exchange(s0, e0, xs);
        lemma_path_tagged(msg, xs);
        let p = reach(s0, e0, xs);
        lemma_step_tagged(p.0, p.1);
    }
}

/// `PING` reaches none of the daemon's parts: a run on it makes no call and
/// ends with `PONG`.
pub proof fn law_ping_calls_nothing(raw: bool, xs: Seq<Exchange>, out: Result<Seq<char>, Seq<char>>)
    requires
        run_ends(StageView::Start(raw), EventView::Begin(MessageView::Ping), xs, out),
    ensures
        xs.len() == 0,
        out == Ok::<Seq<char>, Seq<char>>("PONG"@),
{
    if xs.len() > 0 {
        lemma_first_exchange(StageView::Start(raw), EventView::Begin(MessageView::Ping), xs);
    }
}

/// The reply to a line that carries no request begins with `ERR:`.
pub proof fn law_unknown_line_reply(t: Seq<char>)
    ensures
        tagged("ERR:unknown command: "@ + t),
{
    lemma_ok_replies();
    assert("ERR:unknown command: "@ + t =~= "ERR:"@ + ("unknown command: "@ + t));
    lemma_err_tagged("unknown command: "@ + t);
}

/// The command-line client understands every reply of the daemon to the
/// requests it sends: it reports an `OK` reply as success and an `ERR:`
/// reply as an error, never as an unexpected response.
pub proof fn law_client_understands_replies(r: Seq<char>)
    requires
        tagged(r),
    ensures
        starts_with(r, "OK"@) ==> report_spec(r) is Print,
        starts_with(r, "ERR:"@) ==> report_spec(r) == ReplyReportView::Fail(
            "Error: "@ + trim(r).skip(4),
        ),
        !starts_with(trim(r), "OK"@) ==> starts_with(trim(r), "ERR:"@),
{
    reveal_strlit("OK");
    reveal_strlit("ERR:");
    if starts_with(r, "OK"@) {
        lemma_trim_keeps_prefix(r, "OK"@);
    } else {
        lemma_trim_keeps_prefix(r, "ERR:"@);
    }
    let t = trim(r);
    if starts_with(r, "ERR:"@) && starts_with(t, "OK"@) {
        lemma_trim_keeps_prefix(r, "ERR:"@);
        assert(t.subrange(0, 4) =~= "ERR:"@);
        assert(t.subrange(0, 2) =~= "OK"@);
        assert(t.subrange(0, 4)[0] == t[0]);
        assert(t.subrange(0, 2)[0] == t[0]);
        assert("ERR:"@[0] == 'E');
        assert("OK"@[0] == 'O');
    }
}

proof fn lemma_path_front(s: StageView, e: EventView, xs: Seq<Exchange>)
    requires
        path_ok(s, e, xs),
        xs.len() > 0,
    ensures
        accepts(s, e),
        step_spec(s, e).1 == xs[0].0,
        answers(xs[0].0, xs[0].1),
        path_ok(step_spec(s, e).0, xs[0].1, xs.drop_first()),
        reach(s, e, xs) == reach(step_spec(s, e).0, xs[0].1, xs.drop_first()),
    decreases xs.len(),
{
    let s1 = step_spec(s, e).0;
    let e1 = xs[0].1;
    if xs.len() == 1 {
        assert(xs.drop_last() =~= Seq::<Exchange>::empty());
        assert(xs.drop_first() =~= Seq::<Exchange>::empty());
    } else {
        let ys = xs.drop_last();
        lemma_path_front(s, e, ys);
        let zs = xs.drop_first();
        assert(zs.drop_last() =~= ys.drop_first());
        assert(ys[0] == xs[0]);
        assert(zs.last() == xs.last());
    }
}

/// A run is its first exchange, which makes the call that the machine's
/// first step names and answers it, followed by a run from where that step
/// leaves the machine.
pub proof fn law_run_unfolds(s: StageView, e: EventView, xs: Seq<Exchange>, out: Result<Seq<char>, Seq<char>>)
    requires
        run_ends(s, e, xs, out),
        xs.len() > 0,
    ensures
        accepts(s, e),
        step_spec(s, e).1 == xs[0].0,
        answers(xs[0].0, xs[0].1),
        run_ends(step_spec(s, e).0, xs[0].1, xs.drop_first(), out),
{
    lemma_path_front(s, e, xs);
}

proof fn lemma_announce_run(
    notes: Seq<(bool, Seq<char>)>,
    k: nat,
    o: Result<Seq<char>, Seq<char>>,
    xs: Seq<Exchange>,
    out: Result<Seq<char>, Seq<char>>,
)
    requires
        k <= notes.len(),
        run_ends(StageView::Announcing(notes, k, o), EventView::Notified, xs, out),
    ensures
        out == o,
        xs.len() == notes.len() - k,
        forall|j: int| 0 <= j < xs.len() ==> #[trigger] xs[j].0 == note_action(notes[k + j]),
    decreases notes.len() - k,
{
    let s = StageView::Announcing(notes, k, o);
    if xs.len() == 0 {
        if k < notes.len() {
            assert(step_spec(s, EventView::Notified).1 == note_action(notes[k as int]));
        }
        match (o, out) {
            (Ok(_), Ok(_)) => {},
            (Err(_), Err(_)) => {},
            _ => {},
        }
    } else {
        law_run_unfolds(s, EventView::Notified, xs, out);
        assert(k < notes.len());
        assert(xs[0].1 is Notified);
        lemma_announce_run(notes, k + 1, o, xs.drop_first(), out);
        assert forall|j: int| 0 <= j < xs.len() implies #[trigger] xs[j].0 == note_action(
            notes[k + j],
        ) by {
            if j > 0 {
                assert(xs[j] == xs.drop_first()[j - 1]);
            }
        }
    }
}

/// Where a step sends notifications and then ends, a run from it makes
/// exactly those calls, in order, and ends with that outcome.
pub proof fn law_notifications_then_outcome(
    s: StageView,
    e: EventView,
    notes: Seq<(bool, Seq<char>)>,
    o: Result<Seq<char>, Seq<char>>,
    xs: Seq<Exchange>,
    out: Result<Seq<char>, Seq<char>>,
)
    requires
        step_spec(s, e) == finish(notes, o),
        run_ends(s, e, xs, out),
    ensures
        out == o,
        xs.len() == notes.len(),
        forall|j: int| 0 <= j < xs.len() ==> #[trigger] xs[j].0 == note_action(notes[j]),
{
    if notes.len() == 0 {
        if xs.len() > 0 {
            law_run_unfolds(s, e, xs, out);
        }
        match (o, out) {
            (Ok(_), Ok(_)) => {},
            (Err(_), Err(_)) => {},
            _ => {},
        }
    } else {
        if xs.len() == 0 {
            assert(step_spec(s, e).1 == note_action(notes[0]));
        } else {
            law_run_unfolds(s, e, xs, out);
            assert(xs[0].1 is Notified);
            lemma_announce_run(notes, 1, o, xs.drop_first(), out);
            assert forall|j: int| 0 <= j < xs.len() implies #[trigger] xs[j].0 == note_action(
                notes[j],
            ) by {
                if j > 0 {
                    assert(xs[j] == xs.drop_first()[j - 1]);
                }
            }
        }
    }
}

/// A server response that does not parse makes one call, the notification
/// `Could not understand command:` with the error, and is answered
/// `ERR:parse error:` with the error; nothing is executed.
pub proof fn law_unparsable_response(
    raw: bool,
    resp: Seq<char>,
    xs: Seq<Exchange>,
    out: Result<Seq<char>, Seq<char>>,
)
    requires
        parse_spec(resp) is Err,
        run_ends(StageView::Asking(raw), EventView::Answered(Ok(resp)), xs, out),
    ensures
        ({
            let m = error_message(parse_spec(resp)->Err_0);
            &&& out == Ok::<Seq<char>, Seq<char>>("ERR:parse error: "@ + m)
            &&& xs.len() == 1
            &&& xs[0].0 == ActionView::NotifyError(summary(), "Could not understand command: "@ + m)
        }),
{
    let m = error_message(parse_spec(resp)->Err_0);
    let notes = seq![(true, "Could not understand command: "@ + m)];
    law_notifications_then_outcome(
        StageView::Asking(raw),
        EventView::Answered(Ok(resp)),
        notes,
        Ok("ERR:parse error: "@ + m),
        xs,
        out,
    );
}

/// A server response without commands makes one call, the notification
/// `Not a window command`, and is answered `OK:stopped`; nothing is
/// executed.
pub proof fn law_response_without_commands(
    raw: bool,
    resp: Seq<char>,
    xs: Seq<Exchange>,
    out: Result<Seq<char>, Seq<char>>,
)
    requires
        parse_spec(resp) == Ok::<Seq<CommandView>, crate::dsl::ParseErrorView>(seq![]),
        run_ends(StageView::Asking(raw), EventView::Answered(Ok(resp)), xs, out),
    ensures
        out == Ok::<Seq<char>, Seq<char>>("OK:stopped"@),
        xs.len() == 1,
        xs[0].0 == ActionView::Notify(summary(), "Not a window command"@),
{
    law_notifications_then_outcome(
        StageView::Asking(raw),
        EventView::Answered(Ok(resp)),
        seq![(false, "Not a window command"@)],
        Ok("OK:stopped"@),
        xs,
        out,
    );
}

/// When stopping the capture fails, nothing more is asked of the
/// compositor or the server: a capture that heard nothing is announced with
/// `No speech detected` and answered `OK:stopped`; another error is handed
/// on unannounced in a raw flow, and otherwise announced and answered
/// `ERR:` with the error.
pub proof fn law_stop_error(raw: bool, e: Seq<char>, xs: Seq<Exchange>, out: Result<Seq<char>, Seq<char>>)
    requires
        run_ends(StageView::Stopping(raw), EventView::Stopped(Err(e)), xs, out),
    ensures
        is_quiet(e) ==> out == Ok::<Seq<char>, Seq<char>>("OK:stopped"@) && xs.len() == 1
            && xs[0].0 == ActionView::Notify(summary(), "No speech detected"@),
        !is_quiet(e) && raw ==> out == Err::<Seq<char>, Seq<char>>(e) && xs.len() == 0,
        !is_quiet(e) && !raw ==> out == Ok::<Seq<char>, Seq<char>>("ERR:"@ + e) && xs.len() == 1
            && xs[0].0 == ActionView::NotifyError(summary(), e),
{
    let s = StageView::Stopping(raw);
    let ev = EventView::Stopped(Err(e));
    if is_quiet(e) {
        law_notifications_then_outcome(s, ev, seq![(false, "No speech detected"@)], Ok("OK:stopped"@), xs, out);
    } else if raw {
        law_notifications_then_outcome(s, ev, seq![], Err(e), xs, out);
    } else {
        assert(Seq::<(bool, Seq<char>)>::empty().push((true, e)) =~= seq![(true, e)]);
        law_notifications_then_outcome(s, ev, seq![(true, e)], Ok("ERR:"@ + e), xs, out);
    }
}

/// When starting the capture fails, the reply is `ERR:` with the error and
/// no notification is sent.
pub proof fn law_start_error(e: Seq<char>, xs: Seq<Exchange>, out: Result<Seq<char>, Seq<char>>)
    requires
        run_ends(StageView::Starting, EventView::Started(Err(e)), xs, out),
    ensures
        out == Ok::<Seq<char>, Seq<char>>("ERR:"@ + e),
        xs.len() == 0,
{
    law_notifications_then_outcome(StageView::Starting, EventView::Started(Err(e)), seq![], Ok("ERR:"@ + e), xs, out);
}

/// The results that the first `n` exchanges answered to executions.
pub open spec fn executed_results(xs: Seq<Exchange>, n: nat) -> Seq<Result<(), Seq<char>>> {
    Seq::new(n, |i: int| xs[i].1->Executed_0)
}

proof fn lemma_exec_run(
    cmds: Seq<CommandView>,
    o: Seq<Result<(), Seq<char>>>,
    r: Result<(), Seq<char>>,
    xs: Seq<Exchange>,
    out: Result<Seq<char>, Seq<char>>,
)
    requires
        o.len() < cmds.len(),
        run_ends(StageView::Executing(cmds, o), EventView::Executed(r), xs, out),
    ensures
        ({
            let n = (cmds.len() - o.len() - 1) as nat;
            let full = o.push(r) + executed_results(xs, n);
            let notes = report_notes(cmds, full);
            &&& xs.len() == n + notes.len()
            &&& forall|i: int|
                0 <= i < n ==> #[trigger] xs[i].0 == ActionView::Execute(cmds[o.len() + 1 + i])
                    && xs[i].1 is Executed
            &&& forall|j: int| 0 <= j < notes.len() ==> #[trigger] xs[n + j].0 == note_action(notes[j])
            &&& out == Ok::<Seq<char>, Seq<char>>(dispatch_reply(cmds, full))
        }),
    decreases cmds.len() - o.len(),
{
    let s = StageView::Executing(cmds, o);
    let e = EventView::Executed(r);
    let o2 = o.push(r);
    let n = (cmds.len() - o.len() - 1) as nat;
    if o2.len() < cmds.len() {
        if xs.len() == 0 {
            assert(step_spec(s, e).1 == ActionView::Execute(cmds[o2.len() as int]));
        }
        law_run_unfolds(s, e, xs, out);
        let r2 = xs[0].1->Executed_0;
        assert(xs[0].1 == EventView::Executed(r2));
        let ys = xs.drop_first();
        lemma_exec_run(cmds, o2, r2, ys, out);
        let n2 = (n - 1) as nat;
        assert(o2.push(r2) + executed_results(ys, n2) =~= o2 + executed_results(xs, n)) by {
            assert forall|i: int| 0 <= i < n2 implies #[trigger] ys[i] == xs[i + 1] by {}
        }
        let full = o2 + executed_results(xs, n);
        let notes = report_notes(cmds, full);
        assert forall|i: int| 0 <= i < n implies #[trigger] xs[i].0 == ActionView::Execute(
            cmds[o.len() + 1 + i],
        ) && xs[i].1 is Executed by {
            if i > 0 {
                assert(xs[i] == ys[i - 1]);
            }
        }
        assert forall|j: int| 0 <= j < notes.len() implies #[trigger] xs[n + j].0 == note_action(
            notes[j],
        ) by {
            assert(xs[n + j] == ys[n2 + j]);
        }
    } else {
        assert(n == 0);
        assert(o2 + executed_results(xs, 0) =~= o2);
        law_notifications_then_outcome(
            s,
            e,
            report_notes(cmds, o2),
            Ok(dispatch_reply(cmds, o2)),
            xs,
            out,
        );
    }
}

/// A server response with commands executes each of them once, in order,
/// going on after a failure; then the successes are announced together and
/// each failure on its own, and the reply is `ERR:all commands failed` where
/// every command failed, `OK` otherwise.
pub proof fn law_commands_executed_in_order(
    raw: bool,
    resp: Seq<char>,
    xs: Seq<Exchange>,
    out: Result<Seq<char>, Seq<char>>,
)
    requires
        parse_spec(resp) matches Ok(cmds) && cmds.len() > 0,
        run_ends(StageView::Asking(raw), EventView::Answered(Ok(resp)), xs, out),
    ensures
        ({
            let cmds = parse_spec(resp)->Ok_0;
            let outs = executed_results(xs, cmds.len());
            let notes = report_notes(cmds, outs);
            &&& xs.len() == cmds.len() + notes.len()
            &&& forall|i: int|
                0 <= i < cmds.len() ==> #[trigger] xs[i].0 == ActionView::Execute(cmds[i])
                    && xs[i].1 is Executed
            &&& forall|j: int|
                0 <= j < notes.len() ==> #[trigger] xs[cmds.len() + j].0 == note_action(notes[j])
            &&& out == Ok::<Seq<char>, Seq<char>>(dispatch_reply(cmds, outs))
        }),
{
    let cmds = parse_spec(resp)->Ok_0;
    let s = StageView::Asking(raw);
    let e = EventView::Answered(Ok(resp));
    if xs.len() == 0 {
        assert(step_spec(s, e).1 == ActionView::Execute(cmds[0]));
    }
    law_run_unfolds(s, e, xs, out);
    let r0 = xs[0].1->Executed_0;
    assert(xs[0].1 == EventView::Executed(r0));
    let ys = xs.drop_first();
    let n = (cmds.len() - 1) as nat;
    lemma_exec_run(cmds, seq![], r0, ys, out);
    let outs = executed_results(xs, cmds.len());
    assert(Seq::<Result<(), Seq<char>>>::empty().push(r0) + executed_results(ys, n) =~= outs) by {
        assert forall|i: int| 0 <= i < n implies #[trigger] ys[i] == xs[i + 1] by {}
    }
    let notes = report_notes(cmds, outs);
    assert forall|i: int| 0 <= i < cmds.len() implies #[trigger] xs[i].0 == ActionView::Execute(
        cmds[i],
    ) && xs[i].1 is Executed by {
        if i > 0 {
            assert(xs[i] == ys[i - 1]);
        }
    }
    assert forall|j: int| 0 <= j < notes.len() implies #[trigger] xs[cmds.len() + j].0
        == note_action(notes[j]) by {
        assert(xs[cmds.len() + j] == ys[n + j]);
    }
}

/// What `myr do` sends reaches the daemon as the same text: a request
/// `TEXT:` followed by a non-empty text that does not end in whitespace is
/// that text.
pub proof fn law_text_request_round_trip(t: Seq<char>)
    requires
        t.len() > 0,
        !is_ws(t.last()),
    ensures
        message_spec("TEXT:"@ + t) == Some(MessageView::Text(t)),
{
    reveal_strlit("TEXT:");
    reveal_strlit("VOICE_START");
    reveal_strlit("VOICE_STOP");
    reveal_strlit("VOICE_TOGGLE");
    reveal_strlit("PING");
    let s = "TEXT:"@ + t;
    assert(s[0] == 'T');
    lemma_trim_start_fixed(s);
    assert(s.last() == t.last());
    lemma_trim_end_fixed(s);
    assert(trim(s) == s);
    assert(s.subrange(0, 5) =~= "TEXT:"@);
    assert(s.skip(5) =~= t);
    assert(s != "PING"@) by {
        assert(s[0] != "PING"@[0]);
    }
    assert(s != "VOICE_START"@) by {
        assert(s[0] != "VOICE_START"@[0]);
    }
    assert(s != "VOICE_STOP"@) by {
        assert(s[0] != "VOICE_STOP"@[0]);
    }
    assert(s != "VOICE_TOGGLE"@) by {
        assert(s[0] != "VOICE_TOGGLE"@[0]);
    }
}

/// Whitespace around a protocol line does not change the request.
pub proof fn law_message_ignores_surrounding_whitespace(line: Seq<char>)
    ensures
        message_spec(trim(line)) == message_spec(line),
{
    lemma_trim_idempotent(line);
}

/// Whitespace around a text does not change its snippet expansion.
pub proof fn law_expansion_ignores_surrounding_whitespace(
    text: Seq<char>,
    snippets: Seq<SnippetView>,
)
    ensures
        expansion(trim(text), snippets) == expansion(text, snippets),
{
    lemma_trim_idempotent(text);
}

/// Every command is valid for its verb.
pub open spec fn all_valid(cs: Seq<CommandView>) -> bool {
    forall|i: int| 0 <= i < cs.len() ==> arg_error(#[trigger] cs[i].verb, cs[i].args) is None
}

proof fn lemma_parse_from_valid(ls: Seq<Seq<char>>, acc: Seq<CommandView>)
    requires
        all_valid(acc),
    ensures
        parse_from(ls, acc) matches Ok(cs) ==> all_valid(cs),
    decreases ls.len(),
{
    if ls.len() > 0 {
        match line_outcome(ls[0]) {
            LineOutcome::Skip => lemma_parse_from_valid(ls.drop_first(), acc),
            LineOutcome::Cmd(c) => {
                assert(arg_error(c.verb, c.args) is None);
                assert(all_valid(acc.push(c))) by {
                    assert forall|i: int| 0 <= i < acc.push(c).len() implies arg_error(
                        #[trigger] acc.push(c)[i].verb,
                        acc.push(c)[i].args,
                    ) is None by {
                        if i < acc.len() {
                            assert(acc.push(c)[i] == acc[i]);
                        }
                    }
                }
                lemma_parse_from_valid(ls.drop_first(), acc.push(c));
            },
            _ => {},
        }
    }
}

/// Every command that a response parses into has the arguments its verb
/// needs: `MOVE` a direction, `RESIZE` two numbers, `SWAP` a second selector.
pub proof fn law_parsed_commands_are_valid(input: Seq<char>)
    ensures
        parse_spec(input) matches Ok(cs) ==> all_valid(cs),
{
    lemma_parse_from_valid(lines(input), seq![]);
}

/// Reading lines in which no line before `k` fails or says `NONE`, and line
/// `k` says `NONE`, gives no commands.
pub proof fn law_none_discards(ls: Seq<Seq<char>>, acc: Seq<CommandView>, k: int)
    requires
        0 <= k < ls.len(),
        eq_ignore_ascii_case(trim(ls[k]), "NONE"@),
        forall|j: int|
            0 <= j < k ==> (#[trigger] line_outcome(ls[j]) is Skip || line_outcome(ls[j]) is Cmd),
    ensures
        parse_from(ls, acc) == Ok::<Seq<CommandView>, crate::dsl::ParseErrorView>(seq![]),
    decreases k,
{
    if k == 0 {
        reveal_strlit("NONE");
        let t = trim(ls[0]);
        assert(t.len() == 4);
        assert(crate::text::ascii_fold(t[0]) == crate::text::ascii_fold("NONE"@[0]));
        assert(t[0] != '#');
        assert(line_outcome(ls[0]) is Stop);
    } else {
        assert(line_outcome(ls[0]) is Skip || line_outcome(ls[0]) is Cmd);
        let next = match line_outcome(ls[0]) {
            LineOutcome::Cmd(c) => acc.push(c),
            _ => acc,
        };
        assert forall|j: int| 0 <= j < k - 1 implies (#[trigger] line_outcome(
            ls.drop_first()[j],
        ) is Skip || line_outcome(ls.drop_first()[j]) is Cmd) by {
            assert(ls.drop_first()[j] == ls[j + 1]);
            assert(line_outcome(ls[j + 1]) is Skip || line_outcome(ls[j + 1]) is Cmd);
        }
        law_none_discards(ls.drop_first(), next, k - 1);
    }
}

/// A response with a line `NONE` (in any ASCII case, around whitespace),
/// before which no line fails, holds no commands, whatever came before it.
pub proof fn law_none_response_is_empty(input: Seq<char>, k: int)
    requires
        0 <= k < lines(input).len(),
        eq_ignore_ascii_case(trim(lines(input)[k]), "NONE"@),
        forall|j: int|
            0 <= j < k ==> (#[trigger] line_outcome(lines(input)[j]) is Skip || line_outcome(
                lines(input)[j],
            ) is Cmd),
    ensures
        parse_spec(input) == Ok::<Seq<CommandView>, crate::dsl::ParseErrorView>(seq![]),
{
    law_none_discards(lines(input), seq![], k);
}

/// A blank or comment line anywhere among the lines of a response does not
/// change what the response means.
pub proof fn law_skipped_line_changes_nothing(
    ls: Seq<Seq<char>>,
    acc: Seq<CommandView>,
    k: int,
    line: Seq<char>,
)
    requires
        0 <= k <= ls.len(),
        line_outcome(line) is Skip,
    ensures
        parse_from(ls.insert(k, line), acc) == parse_from(ls, acc),
    decreases k,
{
    if k == 0 {
        assert(ls.insert(0, line).drop_first() =~= ls);
    } else {
        assert(ls.insert(k, line)[0] == ls[0]);
        assert(ls.insert(k, line).drop_first() =~= ls.drop_first().insert(k - 1, line));
        match line_outcome(ls[0]) {
            LineOutcome::Skip => law_skipped_line_changes_nothing(ls.drop_first(), acc, k - 1, line),
            LineOutcome::Cmd(c) => law_skipped_line_changes_nothing(
                ls.drop_first(),
                acc.push(c),
                k - 1,
                line,
            ),
            _ => {},
        }
    }
}

proof fn lemma_counts(cmds: Seq<CommandView>, outcomes: Seq<Result<(), Seq<char>>>, n: int)
    requires
        0 <= n <= outcomes.len(),
    ensures
        successes(cmds, outcomes, n).len() + failures(cmds, outcomes, n).len() == n,
        successes(cmds, outcomes, n).len() == 0 <==> forall|i: int|
            0 <= i < n ==> #[trigger] outcomes[i] is Err,
    decreases n,
{
    if n > 0 {
        lemma_counts(cmds, outcomes, n - 1);
        if outcomes[n - 1] is Ok {
            assert(!(forall|i: int| 0 <= i < n ==> #[trigger] outcomes[i] is Err));
        }
    }
}

/// Executing commands is reported as a failure exactly when every command
/// failed; otherwise the reply is `OK`.
pub proof fn law_failure_only_when_all_fail(
    cmds: Seq<CommandView>,
    outcomes: Seq<Result<(), Seq<char>>>,
)
    requires
        cmds.len() > 0,
        outcomes.len() == cmds.len(),
    ensures
        dispatch_reply(cmds, outcomes) == (if forall|i: int|
            0 <= i < outcomes.len() ==> #[trigger] outcomes[i] is Err {
            "ERR:all commands failed"@
        } else {
            "OK"@
        }),
{
    lemma_counts(cmds, outcomes, cmds.len() as int);
}

/// Taking the other kind of selector twice gives the selector back, so the
/// fallback of the fallback is the first dispatch again.
pub proof fn law_fallback_involution(c: CommandView)
    ensures
        swapped(swapped(c.selector)) == c.selector,
        hyprctl_spec(c, swapped(swapped(c.selector))) == hyprctl_spec(c, c.selector),
{
}

/// Every dispatch first addresses the command's window: it focuses it, or
/// closes it.
pub proof fn law_dispatch_targets_selector(c: CommandView, sel: SelectorView)
    ensures
        starts_with(hyprctl_spec(c, sel), "dispatch focuswindow "@ + selector_text(sel))
            || starts_with(hyprctl_spec(c, sel), "dispatch closewindow "@ + selector_text(sel)),
{
    let st = selector_text(sel);
    let focus = "dispatch focuswindow "@ + st;
    let h = hyprctl_spec(c, sel);
    match c.verb {
        crate::dsl::Verb::Close => {
            assert(h.subrange(0, ("dispatch closewindow "@ + st).len() as int) =~= "dispatch closewindow "@ + st);
        },
        _ => {
            assert(h.subrange(0, focus.len() as int) =~= focus);
        },
    }
}

/// How many steps setting up the tunnel can still take from a state.
pub open spec fn steps_left(s: TunnelState) -> nat {
    match s {
        TunnelState::Idle => 5,
        TunnelState::FirstCheck => 4,
        TunnelState::Killing => 3,
        TunnelState::Spawning => 2,
        TunnelState::SecondCheck => 1,
        TunnelState::Done => 0,
    }
}

/// Setting up the tunnel always ends: every step leaves a state nearer the
/// end, and the state is over exactly when the step reuses the tunnel,
/// declares it ready, or fails.
pub proof fn law_tunnel_setup_ends(c: TunnelConfig, s: TunnelState, e: TunnelEvent)
    requires
        tunnel_accepts(s, e),
    ensures
        steps_left(tunnel_spec(c, s, e).0) < steps_left(s),
        (tunnel_spec(c, s, e).0 == TunnelState::Done) <==> (tunnel_spec(c, s, e).1 is Reuse
            || tunnel_spec(c, s, e).1 is Ready || tunnel_spec(c, s, e).1 is Fail),
{
}

/// The commands of the lines that hold one, in order.
pub open spec fn commands_of(ls: Seq<Seq<char>>) -> Seq<CommandView>
    decreases ls.len(),
{
    if ls.len() == 0 {
        seq![]
    } else {
        match line_outcome(ls[0]) {
            LineOutcome::Cmd(c) => seq![c] + commands_of(ls.drop_first()),
            _ => commands_of(ls.drop_first()),
        }
    }
}

/// Every line is blank, a comment, or a command.
pub open spec fn all_lines_valid(ls: Seq<Seq<char>>) -> bool {
    forall|j: int|
        0 <= j < ls.len() ==> (#[trigger] line_outcome(ls[j]) is Skip || line_outcome(ls[j]) is Cmd)
}

proof fn lemma_valid_lines(ls: Seq<Seq<char>>, acc: Seq<CommandView>)
    requires
        all_lines_valid(ls),
    ensures
        parse_from(ls, acc) == Ok::<Seq<CommandView>, crate::dsl::ParseErrorView>(
            acc + commands_of(ls),
        ),
    decreases ls.len(),
{
    if ls.len() == 0 {
        assert(acc + Seq::<CommandView>::empty() =~= acc);
    } else {
        let rest = ls.drop_first();
        assert(line_outcome(ls[0]) is Skip || line_outcome(ls[0]) is Cmd);
        assert(all_lines_valid(rest)) by {
            assert forall|j: int| 0 <= j < rest.len() implies (#[trigger] line_outcome(rest[j]) is Skip
                || line_outcome(rest[j]) is Cmd) by {
                assert(rest[j] == ls[j + 1]);
                assert(line_outcome(ls[j + 1]) is Skip || line_outcome(ls[j + 1]) is Cmd);
            }
        }
        match line_outcome(ls[0]) {
            LineOutcome::Cmd(c) => {
                lemma_valid_lines(rest, acc.push(c));
                assert(acc.push(c) + commands_of(rest) =~= acc + (seq![c] + commands_of(rest)));
            },
            _ => lemma_valid_lines(rest, acc),
        }
    }
}

/// A response whose every line is blank, a comment or a command parses into
/// the commands of its lines, in order.
pub proof fn law_valid_lines_parse(input: Seq<char>)
    requires
        all_lines_valid(lines(input)),
    ensures
        parse_spec(input) == Ok::<Seq<CommandView>, crate::dsl::ParseErrorView>(
            commands_of(lines(input)),
        ),
{
    lemma_valid_lines(lines(input), seq![]);
    assert(Seq::<CommandView>::empty() + commands_of(lines(input)) =~= commands_of(lines(input)));
}

/// No line before `k` fails or says `NONE`.
pub open spec fn clean_before(ls: Seq<Seq<char>>, k: int) -> bool {
    forall|j: int|
        0 <= j < k ==> (#[trigger] line_outcome(ls[j]) is Skip || line_outcome(ls[j]) is Cmd)
}

proof fn lemma_error_at(ls: Seq<Seq<char>>, acc: Seq<CommandView>, k: int, e: crate::dsl::ParseErrorView)
    requires
        0 <= k < ls.len(),
        line_outcome(ls[k]) == LineOutcome::Fail(e),
        clean_before(ls, k),
    ensures
        parse_from(ls, acc) == Err::<Seq<CommandView>, crate::dsl::ParseErrorView>(e),
    decreases k,
{
    if k > 0 {
        let rest = ls.drop_first();
        assert(line_outcome(ls[0]) is Skip || line_outcome(ls[0]) is Cmd);
        assert(rest[k - 1] == ls[k]);
        assert(clean_before(rest, k - 1)) by {
            assert forall|j: int| 0 <= j < k - 1 implies (#[trigger] line_outcome(rest[j]) is Skip
                || line_outcome(rest[j]) is Cmd) by {
                assert(rest[j] == ls[j + 1]);
                assert(line_outcome(ls[j + 1]) is Skip || line_outcome(ls[j + 1]) is Cmd);
            }
        }
        match line_outcome(ls[0]) {
            LineOutcome::Cmd(c) => lemma_error_at(rest, acc.push(c), k - 1, e),
            _ => lemma_error_at(rest, acc, k - 1, e),
        }
    }
}

proof fn lemma_error_has_line(ls: Seq<Seq<char>>, acc: Seq<CommandView>)
    ensures
        parse_from(ls, acc) matches Err(e) ==> exists|k: int|
            0 <= k < ls.len() && line_outcome(ls[k]) == LineOutcome::Fail(e) && clean_before(ls, k),
    decreases ls.len(),
{
    if ls.len() > 0 {
        let rest = ls.drop_first();
        match line_outcome(ls[0]) {
            LineOutcome::Fail(e) => {
                assert(clean_before(ls, 0));
            },
            LineOutcome::Stop => {},
            _ => {
                let next = match line_outcome(ls[0]) {
                    LineOutcome::Cmd(c) => acc.push(c),
                    _ => acc,
                };
                lemma_error_has_line(rest, next);
                if let Err(e) = parse_from(ls, acc) {
                    let k = choose|k: int|
                        0 <= k < rest.len() && line_outcome(rest[k]) == LineOutcome::Fail(e)
                            && clean_before(rest, k);
                    assert(ls[k + 1] == rest[k]);
                    assert(clean_before(ls, k + 1)) by {
                        assert forall|j: int| 0 <= j < k + 1 implies (#[trigger] line_outcome(
                            ls[j],
                        ) is Skip || line_outcome(ls[j]) is Cmd) by {
                            if j > 0 {
                                assert(ls[j] == rest[j - 1]);
                                assert(line_outcome(rest[j - 1]) is Skip || line_outcome(
                                    rest[j - 1],
                                ) is Cmd);
                            }
                        }
                    }
                }
            },
        }
    }
}

/// A response fails to parse exactly where a line fails before any line
/// says `NONE`: the error is that of the first line that fails.
pub proof fn law_parse_error_is_first_bad_line(input: Seq<char>, k: int, e: crate::dsl::ParseErrorView)
    ensures
        (0 <= k < lines(input).len() && line_outcome(lines(input)[k]) == LineOutcome::Fail(e)
            && clean_before(lines(input), k)) ==> parse_spec(input) == Err::<
            Seq<CommandView>,
            crate::dsl::ParseErrorView,
        >(e),
        parse_spec(input) matches Err(err) ==> exists|i: int|
            0 <= i < lines(input).len() && line_outcome(lines(input)[i]) == LineOutcome::Fail(err)
                && clean_before(lines(input), i),
{
    if 0 <= k < lines(input).len() && line_outcome(lines(input)[k]) == LineOutcome::Fail(e)
        && clean_before(lines(input), k) {
        lemma_error_at(lines(input), seq![], k, e);
    }
    lemma_error_has_line(lines(input), seq![]);
}

/// The first snippet whose trigger is exactly the text wins.
pub proof fn law_first_exact_trigger_wins(t: Seq<char>, sn: Seq<SnippetView>, i: int)
    requires
        0 <= i < sn.len(),
        sn[i].trigger == t,
        forall|j: int| 0 <= j < i ==> #[trigger] sn[j].trigger != t,
    ensures
        exact_match(t, sn) == Some(sn[i].expand),
    decreases i,
{
    if i > 0 {
        let rest = sn.drop_first();
        assert(sn[0].trigger != t);
        assert(rest[i - 1] == sn[i]);
        assert forall|j: int| 0 <= j < i - 1 implies #[trigger] rest[j].trigger != t by {
            assert(rest[j] == sn[j + 1]);
            assert(sn[j + 1].trigger != t);
        }
        law_first_exact_trigger_wins(t, rest, i - 1);
    }
}

/// Where no trigger is exactly the text, the first snippet whose trigger and
/// a space begin the text wins.
pub proof fn law_first_prefix_trigger_wins(t: Seq<char>, sn: Seq<SnippetView>, i: int)
    requires
        0 <= i < sn.len(),
        starts_with(t, sn[i].trigger + " "@),
        forall|j: int| 0 <= j < i ==> !starts_with(t, #[trigger] sn[j].trigger + " "@),
    ensures
        prefix_match(t, sn) == Some(sn[i].expand + t.skip(sn[i].trigger.len() as int)),
    decreases i,
{
    if i > 0 {
        let rest = sn.drop_first();
        assert(!starts_with(t, sn[0].trigger + " "@));
        assert(rest[i - 1] == sn[i]);
        assert forall|j: int| 0 <= j < i - 1 implies !starts_with(t, #[trigger] rest[j].trigger + " "@) by {
            assert(rest[j] == sn[j + 1]);
            assert(!starts_with(t, sn[j + 1].trigger + " "@));
        }
        law_first_prefix_trigger_wins(t, rest, i - 1);
    }
}

/// The directions that `MOVE` takes, in any case.
pub open spec fn names_direction(d: Seq<char>) -> bool {
    let u = uppercase_of(d);
    u == "LEFT"@ || u == "RIGHT"@ || u == "UP"@ || u == "DOWN"@
}

/// `MOVE` accepts its first argument exactly where its uppercase is `LEFT`,
/// `RIGHT`, `UP` or `DOWN`, whatever follows it.
pub proof fn law_move_takes_four_directions(d: Seq<char>, rest: Seq<Seq<char>>)
    ensures
        arg_error(Verb::Move, seq![d] + rest) == if names_direction(d) {
            None::<ParseErrorView>
        } else {
            Some(ParseErrorView::InvalidDirection)
        },
{
    assert((seq![d] + rest)[0] == d);
}

/// A line `MOVE selector direction` (the verb in any case, the direction one
/// of the four in any case) is one `Move` command at that selector with that
/// direction as its only argument; with any other direction it fails.
pub proof fn law_move_line(line: Seq<char>, v: Seq<char>, s: Seq<char>, d: Seq<char>, sel: SelectorView)
    requires
        trim(line).len() > 0,
        trim(line)[0] != '#',
        !eq_ignore_ascii_case(trim(line), "NONE"@),
        words(trim(line)) == seq![v, s, d],
        uppercase_of(v) == "MOVE"@,
        selector_spec(s) == Ok::<SelectorView, ParseErrorView>(sel),
    ensures
        names_direction(d) ==> line_outcome(line) == LineOutcome::Cmd(
            CommandView { verb: Verb::Move, selector: sel, args: seq![d] },
        ),
        !names_direction(d) ==> line_outcome(line) == LineOutcome::Fail(
            ParseErrorView::InvalidDirection,
        ),
{
    reveal_strlit("MOVE");
    reveal_strlit("FOCUS");
    assert("MOVE"@ != "FOCUS"@) by {
        assert("MOVE"@[0] != "FOCUS"@[0]);
    }
    let toks = words(trim(line));
    assert(toks.skip(2) =~= seq![d]);
    law_move_takes_four_directions(d, seq![]);
    assert(seq![d] + Seq::<Seq<char>>::empty() =~= seq![d]);
}

/// The text by which a dispatch addresses a window.
pub open spec fn address(sel: SelectorView) -> Seq<char> {
    match sel {
        SelectorView::Title(v) => "title:"@ + v,
        SelectorView::Class(v) => "class:"@ + v,
    }
}

/// What each verb dispatches: `CLOSE` closes the window; every other verb
/// focuses it first, then `MOVE` moves it in the first letter of its
/// direction (left where the direction is missing or unknown), `RESIZE`
/// resizes it to the first argument's percentage in width and the second's
/// in height (50 where missing), `FULLSCREEN` makes it fullscreen, and
/// `SWAP` swaps it with the first argument.
pub proof fn law_dispatch_of_each_verb(c: CommandView, sel: SelectorView)
    ensures
        ({
            let focus = "dispatch focuswindow "@ + address(sel);
            let a = c.args;
            let h = hyprctl_spec(c, sel);
            &&& c.verb == Verb::Focus ==> h == focus
            &&& c.verb == Verb::Close ==> h == "dispatch closewindow "@ + address(sel)
            &&& c.verb == Verb::Fullscreen ==> h == focus + " ; dispatch fullscreen 1"@
            &&& (c.verb == Verb::Resize && a.len() >= 2) ==> h == focus
                + " ; dispatch resizeactive "@ + a[0] + "% "@ + a[1] + "%"@
            &&& (c.verb == Verb::Resize && a.len() == 1) ==> h == focus
                + " ; dispatch resizeactive "@ + a[0] + "% 50%"@
            &&& (c.verb == Verb::Resize && a.len() == 0) ==> h == focus
                + " ; dispatch resizeactive 50% 50%"@
            &&& (c.verb == Verb::Swap && a.len() >= 1) ==> h == focus + " ; dispatch swapwindow "@
                + a[0]
            &&& (c.verb == Verb::Swap && a.len() == 0) ==> h == focus + " ; dispatch swapwindow "@
            &&& (c.verb == Verb::Move && a.len() >= 1 && uppercase_of(a[0]) == "RIGHT"@) ==> h
                == focus + " ; dispatch movewindow r"@
            &&& (c.verb == Verb::Move && a.len() >= 1 && uppercase_of(a[0]) == "UP"@) ==> h
                == focus + " ; dispatch movewindow u"@
            &&& (c.verb == Verb::Move && a.len() >= 1 && uppercase_of(a[0]) == "DOWN"@) ==> h
                == focus + " ; dispatch movewindow d"@
            &&& (c.verb == Verb::Move && a.len() >= 1 && uppercase_of(a[0]) == "LEFT"@) ==> h
                == focus + " ; dispatch movewindow l"@
        }),
{
    reveal_strlit("LEFT");
    reveal_strlit("RIGHT");
    reveal_strlit("UP");
    reveal_strlit("DOWN");
    reveal_strlit("% 50%");
    reveal_strlit("% ");
    reveal_strlit("%");
    reveal_strlit("50");
    reveal_strlit(" ; dispatch resizeactive 50% 50%");
    reveal_strlit(" ; dispatch resizeactive ");
    reveal_strlit(" ; dispatch movewindow r");
    reveal_strlit(" ; dispatch movewindow u");
    reveal_strlit(" ; dispatch movewindow d");
    reveal_strlit(" ; dispatch movewindow l");
    reveal_strlit(" ; dispatch movewindow ");
    reveal_strlit("r");
    reveal_strlit("u");
    reveal_strlit("d");
    reveal_strlit("l");
    let focus = "dispatch focuswindow "@ + address(sel);
    let a = c.args;
    assert(selector_text(sel) == address(sel));
    assert(focus + " ; dispatch resizeactive "@ + "50"@ + "% "@ + "50"@ + "%"@ =~= focus
        + " ; dispatch resizeactive 50% 50%"@);
    if a.len() >= 1 {
        assert(focus + " ; dispatch resizeactive "@ + a[0] + "% "@ + "50"@ + "%"@ =~= focus
            + " ; dispatch resizeactive "@ + a[0] + "% 50%"@);
    }
    reveal_strlit("");
    assert(focus + " ; dispatch swapwindow "@ + ""@ =~= focus + " ; dispatch swapwindow "@);
    assert(focus + " ; dispatch movewindow "@ + "r"@ =~= focus + " ; dispatch movewindow r"@);
    assert(focus + " ; dispatch movewindow "@ + "u"@ =~= focus + " ; dispatch movewindow u"@);
    assert(focus + " ; dispatch movewindow "@ + "d"@ =~= focus + " ; dispatch movewindow d"@);
    assert(focus + " ; dispatch movewindow "@ + "l"@ =~= focus + " ; dispatch movewindow l"@);
    assert("LEFT"@ != "RIGHT"@ && "LEFT"@ != "UP"@ && "LEFT"@ != "DOWN"@) by {
        assert("LEFT"@.len() != "RIGHT"@.len());
        assert("LEFT"@.len() != "UP"@.len());
        assert("LEFT"@[0] != "DOWN"@[0]);
    }
    assert("RIGHT"@ != "UP"@ && "RIGHT"@ != "DOWN"@ && "UP"@ != "DOWN"@) by {
        assert("RIGHT"@.len() != "UP"@.len());
        assert("RIGHT"@.len() != "DOWN"@.len());
        assert("UP"@.len() != "DOWN"@.len());
    }
}

/// What a reply to `/command` answers: an `error` member with a string value
/// is the server's complaint; otherwise (an `error` member that is absent or
/// not a string counts for nothing) a string `commands` member is the answer,
/// and where `commands` is absent a string `text` member is; anything else is
/// an error that quotes the body.
pub proof fn law_command_answer(ms: Seq<(Seq<char>, Option<Seq<char>>)>, body: Seq<char>)
    ensures
        member(ms, "error"@) matches Some(Some(e)) ==> answer_of_members(ms, body) == Err::<
            Seq<char>,
            Seq<char>,
        >("API error: "@ + e),
        !(member(ms, "error"@) matches Some(Some(_))) ==> ({
            let r = answer_of_members(ms, body);
            &&& member(ms, "commands"@) matches Some(Some(c)) ==> r == Ok::<Seq<char>, Seq<char>>(c)
            &&& member(ms, "commands"@) is None ==> (member(ms, "text"@) matches Some(Some(t)) ==> r
                == Ok::<Seq<char>, Seq<char>>(t))
            &&& member(ms, "commands"@) == Some(None::<Seq<char>>) ==> r == Err::<
                Seq<char>,
                Seq<char>,
            >("Missing commands/text in response: "@ + body)
            &&& member(ms, "commands"@) is None && !(member(ms, "text"@) matches Some(Some(_)))
                ==> r == Err::<Seq<char>, Seq<char>>("Missing commands/text in response: "@ + body)
        }),
{
}

/// Setting up the tunnel checks the health endpoint at the configured local
/// port, kills and spawns `ssh` with the configured forwarding and host, and
/// names that endpoint when it fails.
pub proof fn law_tunnel_uses_its_config(c: TunnelConfig)
    ensures
        ({
            let url = "http://localhost:"@ + c.local_port@ + "/health"@;
            let fwd = c.local_port@ + ":"@ + c.saga_voice_ip@ + ":"@ + c.saga_voice_port@;
            &&& tunnel_spec(c, TunnelState::Idle, TunnelEvent::Begin) == (
                TunnelState::FirstCheck,
                TunnelStepView::Check(url),
            )
            &&& tunnel_spec(c, TunnelState::FirstCheck, TunnelEvent::Health(false)) == (
                TunnelState::Killing,
                TunnelStepView::Kill("ssh.*-L.*"@ + fwd),
            )
            &&& tunnel_spec(c, TunnelState::Killing, TunnelEvent::Killed) == (
                TunnelState::Spawning,
                TunnelStepView::Spawn(fwd, "root@"@ + c.saga_host@),
            )
            &&& tunnel_spec(c, TunnelState::Spawning, TunnelEvent::Spawned(true)) == (
                TunnelState::SecondCheck,
                TunnelStepView::Recheck(url),
            )
            &&& tunnel_spec(c, TunnelState::SecondCheck, TunnelEvent::Health(false)) == (
                TunnelState::Done,
                TunnelStepView::Fail("Cannot reach Voice API at "@ + url + ". Check SSH connection."@),
            )
        }),
{
}

/// Two configurations that differ in their local port check different
/// health endpoints.
pub proof fn law_health_url_follows_local_port(a: TunnelConfig, b: TunnelConfig)
    requires
        a.local_port@ != b.local_port@,
    ensures
        tunnel_spec(a, TunnelState::Idle, TunnelEvent::Begin) != tunnel_spec(
            b,
            TunnelState::Idle,
            TunnelEvent::Begin,
        ),
{
    law_tunnel_uses_its_config(a);
    law_tunnel_uses_its_config(b);
    let pre = "http://localhost:"@;
    let post = "/health"@;
    let ua = pre + a.local_port@ + post;
    let ub = pre + b.local_port@ + post;
    if ua == ub {
        assert(ua.len() == ub.len());
        assert(a.local_port@.len() == b.local_port@.len());
        assert forall|i: int| 0 <= i < a.local_port@.len() implies a.local_port@[i]
            == b.local_port@[i] by {
            assert(ua[pre.len() + i] == a.local_port@[i]);
            assert(ub[pre.len() + i] == b.local_port@[i]);
        }
        assert(a.local_port@ =~= b.local_port@);
    }
}

/// `s` with `'a'..='z'` mapped to `'A'..='Z'`.
pub open spec fn upper_ascii(s: Seq<char>) -> Seq<char> {
    s.map_values(|c: char| ascii_upper_char(c))
}

/// The verb keywords are the verbs' names in upper case, and nothing else
/// names a verb.
pub proof fn law_verb_keywords(v: Verb, k: Seq<char>)
    ensures
        verb_keyword(upper_ascii(verb_name(v))) == Some(v),
        verb_keyword(k) matches Some(w) ==> k == upper_ascii(verb_name(w)),
{
    reveal_strlit("Focus");
    reveal_strlit("FOCUS");
    reveal_strlit("Move");
    reveal_strlit("MOVE");
    reveal_strlit("Resize");
    reveal_strlit("RESIZE");
    reveal_strlit("Close");
    reveal_strlit("CLOSE");
    reveal_strlit("Fullscreen");
    reveal_strlit("FULLSCREEN");
    reveal_strlit("Swap");
    reveal_strlit("SWAP");
    assert(upper_ascii("Focus"@) =~= "FOCUS"@);
    assert(upper_ascii("Move"@) =~= "MOVE"@);
    assert(upper_ascii("Resize"@) =~= "RESIZE"@);
    assert(upper_ascii("Close"@) =~= "CLOSE"@);
    assert(upper_ascii("Fullscreen"@) =~= "FULLSCREEN"@);
    assert(upper_ascii("Swap"@) =~= "SWAP"@);
    assert("FOCUS"@ != "MOVE"@ && "FOCUS"@ != "RESIZE"@ && "FOCUS"@ != "CLOSE"@ && "FOCUS"@
        != "FULLSCREEN"@ && "FOCUS"@ != "SWAP"@) by {
        assert("FOCUS"@[0] != "MOVE"@[0]);
        assert("FOCUS"@[0] != "RESIZE"@[0]);
        assert("FOCUS"@[0] != "CLOSE"@[0]);
        assert("FOCUS"@[1] != "FULLSCREEN"@[1]);
        assert("FOCUS"@[0] != "SWAP"@[0]);
    }
    assert("MOVE"@ != "RESIZE"@ && "MOVE"@ != "CLOSE"@ && "MOVE"@ != "FULLSCREEN"@ && "MOVE"@
        != "SWAP"@) by {
        assert("MOVE"@[0] != "RESIZE"@[0]);
        assert("MOVE"@[0] != "CLOSE"@[0]);
        assert("MOVE"@[0] != "FULLSCREEN"@[0]);
        assert("MOVE"@[0] != "SWAP"@[0]);
    }
    assert("RESIZE"@ != "CLOSE"@ && "RESIZE"@ != "FULLSCREEN"@ && "RESIZE"@ != "SWAP"@) by {
        assert("RESIZE"@[0] != "CLOSE"@[0]);
        assert("RESIZE"@[0] != "FULLSCREEN"@[0]);
        assert("RESIZE"@[0] != "SWAP"@[0]);
    }
    assert("CLOSE"@ != "FULLSCREEN"@ && "CLOSE"@ != "SWAP"@) by {
        assert("CLOSE"@[0] != "FULLSCREEN"@[0]);
        assert("CLOSE"@[0] != "SWAP"@[0]);
    }
    assert("FULLSCREEN"@ != "SWAP"@) by {
        assert("FULLSCREEN"@[0] != "SWAP"@[0]);
    }
}

/// No `':'` in the text.
pub open spec fn no_colon(t: Seq<char>) -> bool {
    forall|i: int| 0 <= i < t.len() ==> t[i] != ':'
}

proof fn lemma_split_at_first_colon(t: Seq<char>, v: Seq<char>)
    requires
        no_colon(t),
    ensures
        split_at_colon(t + ":"@ + v) == Some((t, v)),
        split_at_colon(t) is None,
    decreases t.len(),
{
    reveal_strlit(":");
    let s = t + ":"@ + v;
    if t.len() == 0 {
        assert(s[0] == ':');
        assert(s.drop_first() =~= v);
    } else {
        assert(no_colon(t.drop_first()));
        lemma_split_at_first_colon(t.drop_first(), v);
        assert(s.drop_first() =~= t.drop_first() + ":"@ + v);
        assert(seq![t[0]] + t.drop_first() =~= t);
    }
}

/// A selector is its type, the first `':'`, and its value (which may hold
/// more colons): the type `title` or `class` in any case picks the window by
/// title or by class; any other type is refused by name, and text without a
/// colon is malformed.
pub proof fn law_selector_text(t: Seq<char>, v: Seq<char>)
    requires
        no_colon(t),
    ensures
        lowercase_of(t) == "title"@ ==> selector_spec(t + ":"@ + v) == Ok::<
            SelectorView,
            ParseErrorView,
        >(SelectorView::Title(v)),
        lowercase_of(t) == "class"@ ==> selector_spec(t + ":"@ + v) == Ok::<
            SelectorView,
            ParseErrorView,
        >(SelectorView::Class(v)),
        lowercase_of(t) != "title"@ && lowercase_of(t) != "class"@ ==> selector_spec(t + ":"@ + v)
            == Err::<SelectorView, ParseErrorView>(ParseErrorView::InvalidSelectorType(t)),
        selector_spec(t) == Err::<SelectorView, ParseErrorView>(ParseErrorView::MalformedSelector),
{
    lemma_split_at_first_colon(t, v);
    reveal_strlit("title");
    reveal_strlit("class");
    assert("title"@ != "class"@) by {
        assert("title"@[0] != "class"@[0]);
    }
}

/// A capture that starts is announced with `Listening...` and answered
/// `OK:recording`, with no other call.
pub proof fn law_start_success(xs: Seq<Exchange>, out: Result<Seq<char>, Seq<char>>)
    requires
        run_ends(StageView::Starting, EventView::Started(Ok(())), xs, out),
    ensures
        out == Ok::<Seq<char>, Seq<char>>("OK:recording"@),
        xs.len() == 1,
        xs[0].0 == ActionView::Notify("Myr"@, "Listening..."@),
{
    law_notifications_then_outcome(
        StageView::Starting,
        EventView::Started(Ok(())),
        seq![(false, "Listening..."@)],
        Ok("OK:recording"@),
        xs,
        out,
    );
}

/// `VOICE_TOGGLE` first asks whether the capture is recording; then it
/// stops the capture where it is, and starts it where it is not.
pub proof fn law_toggle_follows_recording(raw: bool, on: bool)
    ensures
        step_spec(StageView::Start(raw), EventView::Begin(MessageView::VoiceToggle)).1
            == ActionView::CheckRecording,
        step_spec(StageView::Checking(raw), EventView::Recording(on)).1 == if on {
            ActionView::StopAudio
        } else {
            ActionView::StartAudio
        },
{
}

/// Once the windows are known, the text, or else the recording, goes to the
/// server with the windows one per line as context; an error in listing
/// them sends nothing.
pub proof fn law_request_carries_windows(
    wav: Option<Seq<u8>>,
    text: Seq<char>,
    raw: bool,
    ws: Seq<Seq<char>>,
    e: Seq<char>,
)
    ensures
        step_spec(StageView::Listing(wav, text, raw), EventView::Windows(Ok(ws))).1 == match wav {
            Some(w) => ActionView::SendAudio(w, join(ws, "\n"@)),
            None => ActionView::SendText(text, join(ws, "\n"@)),
        },
        !(step_spec(StageView::Listing(wav, text, raw), EventView::Windows(Err(e))).1 is SendText),
        !(step_spec(StageView::Listing(wav, text, raw), EventView::Windows(Err(e))).1 is SendAudio),
{
}

/// A recording goes on to the window list; a text does too.
pub proof fn law_recording_and_text_list_windows(raw: bool, wav: Seq<u8>, t: Seq<char>)
    ensures
        step_spec(StageView::Stopping(raw), EventView::Stopped(Ok(wav))) == (
            StageView::Listing(Some(wav), ""@, raw),
            ActionView::ListWindows,
        ),
        step_spec(StageView::Start(raw), EventView::Begin(MessageView::Text(t))) == (
            StageView::Listing(None, t, raw),
            ActionView::ListWindows,
        ),
{
}

/// An unreachable server is announced with `Cannot reach Saga server`; the
/// error is then handed on in a raw flow, or announced and answered `ERR:`
/// with the error.
pub proof fn law_unreachable_server(raw: bool, e: Seq<char>, xs: Seq<Exchange>, out: Result<Seq<char>, Seq<char>>)
    requires
        run_ends(StageView::Asking(raw), EventView::Answered(Err(e)), xs, out),
    ensures
        xs.len() >= 1,
        xs[0].0 == ActionView::NotifyError("Myr"@, "Cannot reach Saga server"@),
        raw ==> out == Err::<Seq<char>, Seq<char>>(e) && xs.len() == 1,
        !raw ==> out == Ok::<Seq<char>, Seq<char>>("ERR:"@ + e) && xs.len() == 2 && xs[1].0
            == ActionView::NotifyError("Myr"@, e),
{
    let s = StageView::Asking(raw);
    let ev = EventView::Answered(Err(e));
    let first = seq![(true, "Cannot reach Saga server"@)];
    if raw {
        law_notifications_then_outcome(s, ev, first, Err(e), xs, out);
    } else {
        assert(first.push((true, e)) =~= seq![(true, "Cannot reach Saga server"@), (true, e)]);
        law_notifications_then_outcome(s, ev, first.push((true, e)), Ok("ERR:"@ + e), xs, out);
    }
}

/// The names of the commands' verbs, in order.
pub open spec fn verb_names(cmds: Seq<CommandView>) -> Seq<Seq<char>> {
    cmds.map_values(|c: CommandView| verb_name(c.verb))
}

proof fn lemma_all_ok(cmds: Seq<CommandView>, outs: Seq<Result<(), Seq<char>>>, n: int)
    requires
        0 <= n <= outs.len() == cmds.len(),
        forall|i: int| 0 <= i < outs.len() ==> #[trigger] outs[i] is Ok,
    ensures
        successes(cmds, outs, n) == verb_names(cmds.take(n)),
        failures(cmds, outs, n) == Seq::<Seq<char>>::empty(),
    decreases n,
{
    if n > 0 {
        lemma_all_ok(cmds, outs, n - 1);
        assert(outs[n - 1] is Ok);
        assert(verb_names(cmds.take(n)) =~= verb_names(cmds.take(n - 1)).push(
            verb_name(cmds[n - 1].verb),
        ));
    } else {
        assert(verb_names(cmds.take(0)) =~= Seq::<Seq<char>>::empty());
    }
}

proof fn lemma_all_err(cmds: Seq<CommandView>, outs: Seq<Result<(), Seq<char>>>, n: int)
    requires
        0 <= n <= outs.len() == cmds.len(),
        forall|i: int| 0 <= i < outs.len() ==> #[trigger] outs[i] is Err,
    ensures
        successes(cmds, outs, n) == Seq::<Seq<char>>::empty(),
        failures(cmds, outs, n) == Seq::new(
            n as nat,
            |i: int| verb_name(cmds[i].verb) + ": "@ + outs[i]->Err_0,
        ),
    decreases n,
{
    if n > 0 {
        lemma_all_err(cmds, outs, n - 1);
        assert(outs[n - 1] is Err);
        assert(Seq::new(n as nat, |i: int| verb_name(cmds[i].verb) + ": "@ + outs[i]->Err_0)
            =~= Seq::new((n - 1) as nat, |i: int| verb_name(cmds[i].verb) + ": "@ + outs[i]->Err_0).push(
            verb_name(cmds[n - 1].verb) + ": "@ + outs[n - 1]->Err_0,
        ));
    } else {
        assert(Seq::new(0, |i: int| verb_name(cmds[i].verb) + ": "@ + outs[i]->Err_0) =~= Seq::<
            Seq<char>,
        >::empty());
    }
}

/// When every command succeeded, one notification names all their verbs,
/// `Executed: ` and the names separated by `, `, and the reply is `OK`.
pub proof fn law_report_when_all_succeed(cmds: Seq<CommandView>, outs: Seq<Result<(), Seq<char>>>)
    requires
        outs.len() == cmds.len(),
        cmds.len() > 0,
        forall|i: int| 0 <= i < outs.len() ==> #[trigger] outs[i] is Ok,
    ensures
        report_notes(cmds, outs) == seq![(false, "Executed: "@ + join(verb_names(cmds), ", "@))],
        dispatch_reply(cmds, outs) == "OK"@,
{
    lemma_all_ok(cmds, outs, cmds.len() as int);
    assert(cmds.take(cmds.len() as int) =~= cmds);
    assert(verb_names(cmds).len() > 0);
    let f = failures(cmds, outs, cmds.len() as int);
    assert(f.map_values(|x: Seq<char>| (true, x)) =~= Seq::<(bool, Seq<char>)>::empty());
    assert(seq![(false, "Executed: "@ + join(verb_names(cmds), ", "@))] + Seq::<
        (bool, Seq<char>),
    >::empty() =~= seq![(false, "Executed: "@ + join(verb_names(cmds), ", "@))]);
}

/// When every command failed, each failure is announced on its own, in
/// order, as the verb's name, `: ` and the error, and the reply is
/// `ERR:all commands failed`.
pub proof fn law_report_when_all_fail(cmds: Seq<CommandView>, outs: Seq<Result<(), Seq<char>>>)
    requires
        outs.len() == cmds.len(),
        cmds.len() > 0,
        forall|i: int| 0 <= i < outs.len() ==> #[trigger] outs[i] is Err,
    ensures
        report_notes(cmds, outs) == Seq::new(
            cmds.len(),
            |i: int| (true, verb_name(cmds[i].verb) + ": "@ + outs[i]->Err_0),
        ),
        dispatch_reply(cmds, outs) == "ERR:all commands failed"@,
{
    lemma_all_err(cmds, outs, cmds.len() as int);
    let f = failures(cmds, outs, cmds.len() as int);
    assert(Seq::<(bool, Seq<char>)>::empty() + f.map_values(|x: Seq<char>| (true, x)) =~= Seq::new(
        cmds.len(),
        |i: int| (true, verb_name(cmds[i].verb) + ": "@ + outs[i]->Err_0),
    ));
}

proof fn lemma_contains_inside(a: Seq<char>, n: Seq<char>, b: Seq<char>)
    ensures
        contains(a + n + b, n),
{
    let s = a + n + b;
    assert(s.subrange(a.len() as int, (a.len() + n.len()) as int) =~= n);
}

proof fn lemma_contains_splits(e: Seq<char>, n: Seq<char>)
    requires
        contains(e, n),
    ensures
        exists|x: Seq<char>, y: Seq<char>| e == x + n + y,
{
    let i = choose|i: int|
        0 <= i <= e.len() - n.len() && #[trigger] e.subrange(i, i + n.len()) == n;
    let x = e.subrange(0, i);
    let y = e.subrange(i + n.len(), e.len() as int);
    assert(e =~= x + n + y);
}

/// A capture error means that nobody spoke exactly where `silent` or
/// `No audio` occurs in it, wherever it stands.
pub proof fn law_quiet_errors(a: Seq<char>, b: Seq<char>, e: Seq<char>)
    ensures
        is_quiet(a + "silent"@ + b),
        is_quiet(a + "No audio"@ + b),
        is_quiet(e) ==> (exists|x: Seq<char>, y: Seq<char>| e == x + "silent"@ + y) || (exists|
            x: Seq<char>,
            y: Seq<char>,
        | e == x + "No audio"@ + y),
{
    lemma_contains_inside(a, "silent"@, b);
    lemma_contains_inside(a, "No audio"@, b);
    if contains(e, "silent"@) {
        lemma_contains_splits(e, "silent"@);
    }
    if contains(e, "No audio"@) {
        lemma_contains_splits(e, "No audio"@);
    }
}

/// The requests of the socket protocol, around whitespace: `VOICE_START`,
/// `VOICE_STOP`, `VOICE_TOGGLE`, `PING`, and `TEXT:` followed by a
/// non-empty text, which is the request's text.
pub proof fn law_protocol_words(line: Seq<char>, t: Seq<char>)
    ensures
        message_spec(line) == Some(MessageView::VoiceStart) <==> trim(line) == "VOICE_START"@,
        message_spec(line) == Some(MessageView::VoiceStop) <==> trim(line) == "VOICE_STOP"@,
        message_spec(line) == Some(MessageView::VoiceToggle) <==> trim(line) == "VOICE_TOGGLE"@,
        message_spec(line) == Some(MessageView::Ping) <==> trim(line) == "PING"@,
        message_spec(line) == Some(MessageView::Text(t)) <==> (t.len() > 0 && trim(line)
            == "TEXT:"@ + t),
{
    reveal_strlit("TEXT:");
    reveal_strlit("VOICE_START");
    reveal_strlit("VOICE_STOP");
    reveal_strlit("VOICE_TOGGLE");
    reveal_strlit("PING");
    let s = trim(line);
    assert("VOICE_START"@ != "VOICE_STOP"@) by {
        assert("VOICE_START"@.len() != "VOICE_STOP"@.len());
    }
    assert("VOICE_START"@ != "VOICE_TOGGLE"@) by {
        assert("VOICE_START"@[6] != "VOICE_TOGGLE"@[6]);
    }
    assert("VOICE_STOP"@ != "VOICE_TOGGLE"@) by {
        assert("VOICE_STOP"@.len() != "VOICE_TOGGLE"@.len());
    }
    if s == "TEXT:"@ + t {
        assert(s.subrange(0, 5) =~= "TEXT:"@);
        assert(s.skip(5) =~= t);
        assert(s[0] == 'T');
    }
    if starts_with(s, "TEXT:"@) {
        assert(s =~= "TEXT:"@ + s.skip(5));
        assert(s[0] == 'T');
    }
}

/// What the user is told of a reply: `OK:recording` is recording,
/// `OK:stopped` is stopped, any other `OK` reply is success, an `ERR:`
/// reply shows its error, and anything else is unexpected.
pub proof fn law_reply_report(r: Seq<char>, e: Seq<char>)
    ensures
        trim(r) == "OK:recording"@ ==> report_spec(r) == ReplyReportView::Print("Recording..."@),
        trim(r) == "OK:stopped"@ ==> report_spec(r) == ReplyReportView::Print(
            "Processing stopped"@,
        ),
        (starts_with(trim(r), "OK"@) && trim(r) != "OK:recording"@ && trim(r) != "OK:stopped"@)
            ==> report_spec(r) == ReplyReportView::Print("Success"@),
        trim(r) == "ERR:"@ + e ==> report_spec(r) == ReplyReportView::Fail("Error: "@ + e),
        (!starts_with(trim(r), "OK"@) && !starts_with(trim(r), "ERR:"@)) ==> report_spec(r)
            == ReplyReportView::Fail("Unexpected response: "@ + trim(r)),
{
    reveal_strlit("OK:recording");
    reveal_strlit("OK:stopped");
    reveal_strlit("OK");
    reveal_strlit("ERR:");
    let s = trim(r);
    if s == "OK:recording"@ {
        assert(s.subrange(0, 2) =~= "OK"@);
    }
    if s == "OK:stopped"@ {
        assert(s.subrange(0, 2) =~= "OK"@);
    }
    if s == "ERR:"@ + e {
        assert(s.subrange(0, 4) =~= "ERR:"@);
        assert(s.skip(4) =~= e);
        if starts_with(s, "OK"@) {
            assert(s[0] == 'E');
            assert(s.subrange(0, 2)[0] == 'O');
        }
    }
}

/// A dispatch succeeded where Hyprland answered `ok` or nothing, around
/// whitespace; anything else is its complaint.
pub proof fn law_dispatch_reply_meaning(reply: Seq<char>)
    ensures
        (trim(reply) == "ok"@ || trim(reply).len() == 0) ==> dispatch_outcome_spec(reply) is Ok,
        !(trim(reply) == "ok"@ || trim(reply).len() == 0) ==> dispatch_outcome_spec(reply) == Err::<
            (),
            Seq<char>,
        >("Hyprland dispatch failed: "@ + trim(reply)),
{
}

} // verus!
