//! The command-line side of the socket protocol: what `myr do` and
//! `myr voice-toggle` send, and what the user is told of the reply.
use vstd::prelude::*;
use vstd::string::*;

use crate::text::{chars_of, starts_with, str_equal, str_starts_with, substring, trim, trimmed};

verus! {

/// The request that `myr do <text>` sends.
pub fn text_request(text: &str) -> (r: String)
    ensures
        r@ == "TEXT:"@ + text@,
{
    String::from_str("TEXT:").concat(text)
}

/// The request that `myr voice-toggle` sends.
pub fn voice_toggle_request() -> (r: String)
    ensures
        r@ == "VOICE_TOGGLE"@,
{
    String::from_str("VOICE_TOGGLE")
}

/// What the user is told of a reply: a line on standard output (and
/// success), or a line on standard error (and exit status 1).
pub enum ReplyReport {
    Print(String),
    Fail(String),
}

/// The mathematical value of a [`ReplyReport`].
pub enum ReplyReportView {
    Print(Seq<char>),
    Fail(Seq<char>),
}

impl View for ReplyReport {
    type V = ReplyReportView;

    open spec fn view(&self) -> ReplyReportView {
        match self {
            ReplyReport::Print(s) => ReplyReportView::Print(s@),
            ReplyReport::Fail(s) => ReplyReportView::Fail(s@),
        }
    }
}

/// What the user is told of a reply line: `OK` replies succeed (recording,
/// stopped, or plain success), `ERR:` replies print the error, and anything
/// else is unexpected.
pub open spec fn report_spec(reply: Seq<char>) -> ReplyReportView {
    let r = trim(reply);
    if starts_with(r, "OK"@) {
        if r == "OK:recording"@ {
            ReplyReportView::Print("Recording..."@)
        } else if r == "OK:stopped"@ {
            ReplyReportView::Print("Processing stopped"@)
        } else {
            ReplyReportView::Print("Success"@)
        }
    } else if starts_with(r, "ERR:"@) {
        ReplyReportView::Fail("Error: "@ + r.skip(4))
    } else {
        ReplyReportView::Fail("Unexpected response: "@ + r)
    }
}

/// What the user is told of a reply line.
pub fn report_reply(reply: &str) -> (r: ReplyReport)
    ensures
        r@ == report_spec(reply@),
{
    let t = trimmed(reply);
    let ts = t.as_str();
    if str_starts_with(ts, "OK") {
        if str_equal(ts, "OK:recording") {
            ReplyReport::Print(String::from_str("Recording..."))
        } else if str_equal(ts, "OK:stopped") {
            ReplyReport::Print(String::from_str("Processing stopped"))
        } else {
            ReplyReport::Print(String::from_str("Success"))
        }
    } else if str_starts_with(ts, "ERR:") {
        proof {
            reveal_strlit("ERR:");
        }
        let n = chars_of(ts).len();
        let rest = substring(ts, 4, n);
        assert(rest@ =~= t@.skip(4));
        ReplyReport::Fail(String::from_str("Error: ").concat(rest.as_str()))
    } else {
        ReplyReport::Fail(String::from_str("Unexpected response: ").concat(ts))
    }
}

} // verus!
