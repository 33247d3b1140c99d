//! Desktop notifications, as the daemon sends them.
use vstd::prelude::*;

verus! {

/// Sends notifications to the user; `summary` is the title, `body` the text.
pub trait Notifier: Send + Sync {
    fn notify(&self, summary: &str, body: &str) -> Result<(), String>;

    fn error(&self, summary: &str, body: &str) -> Result<(), String>;
}

} // verus!
