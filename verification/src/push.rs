//! The notify_push client's rules.
//!
//! notify_push turns Nextcloud's Redis pub/sub into a WebSocket stream with
//! about a second of latency. It says only *that* something changed, never
//! *what*, which is exactly the right shape here: the socket wakes the
//! watcher, and the ETag check decides whether the change was real. It is an
//! accelerator, never a dependency: a dropped socket costs latency rather than
//! correctness. The service holds the socket; what a message means and how
//! long to wait before reconnecting is decided here.

use vstd::prelude::*;
use crate::text::{
    chars_of, push_str, replace_first, replace_first_exec, str_eq, string_from_chars,
    trim_end_char, trim_end_chars, trim_end_pat, trim_end_pat_exec, trim_white, trim_whitespace,
};

verus! {

/// Messages notify_push sends that mean "files changed".
pub const FILE_EVENTS: [&'static str; 2] = ["notify_file", "notify_storage_update"];

pub open spec fn file_event(text: Seq<char>) -> bool {
    text == "notify_file"@ || text == "notify_storage_update"@
}

/// Whether a message announces changed files.
pub fn is_file_event(text: &str) -> (res: bool)
    ensures
        res == file_event(text@),
{
    str_eq(text, "notify_file") || str_eq(text, "notify_storage_update")
}

/// What to do with a message from the socket.
#[derive(Debug, Clone, PartialEq, Eq)]
pub enum PushAction {
    /// Nothing to act on.
    Ignore,
    /// The credentials were accepted.
    Authenticated,
    /// Wake the watcher: files changed.
    Wake,
    /// The credentials were refused; the connection is given up with this
    /// message.
    Refused(String),
}

/// One connection: notify_push takes the user name and the password as two
/// text messages and answers `authenticated`.
#[derive(Debug, Clone)]
pub struct PushSession {
    pub authenticated: bool,
}

pub open spec fn refusal_message(text: Seq<char>) -> Seq<char> {
    "notify_push refused the credentials: "@ + text
}

impl PushSession {
    pub fn new() -> (res: Self)
        ensures
            !res.authenticated,
    {
        PushSession { authenticated: false }
    }

    /// Takes in one text message. Before authentication anything but
    /// `authenticated` is a refusal; after it, file events wake the watcher
    /// and everything else is ignored.
    pub fn on_text(&mut self, text: &str) -> (res: PushAction)
        ensures
            ({
                let t = trim_white(text@);
                if !old(self).authenticated {
                    if t == "authenticated"@ {
                        res == PushAction::Authenticated && final(self).authenticated
                    } else {
                        (res matches PushAction::Refused(m) && m@ == refusal_message(t))
                            && !final(self).authenticated
                    }
                } else {
                    final(self).authenticated && (res == if file_event(t) {
                        PushAction::Wake
                    } else {
                        PushAction::Ignore
                    })
                }
            }),
    {
        let t = string_from_chars(&trim_whitespace(&chars_of(text)));
        if !self.authenticated {
            if str_eq(t.as_str(), "authenticated") {
                self.authenticated = true;
                return PushAction::Authenticated;
            }
            let mut m = chars_of("notify_push refused the credentials: ");
            push_str(&mut m, t.as_str());
            return PushAction::Refused(string_from_chars(&m));
        }
        if is_file_event(t.as_str()) {
            PushAction::Wake
        } else {
            PushAction::Ignore
        }
    }
}

/// The wait before the next connection attempt: one second after a
/// connection that closed cleanly, doubling after each failure up to a
/// minute.
#[derive(Debug, Clone)]
pub struct Backoff {
    pub secs: u64,
}

pub open spec fn doubled(secs: u64) -> u64 {
    if secs >= 30 { 60 } else { (2 * secs) as u64 }
}

impl Backoff {
    pub open spec fn wf(&self) -> bool {
        1 <= self.secs <= 60
    }

    pub fn new() -> (res: Self)
        ensures
            res.wf(),
            res.secs == 1,
    {
        Backoff { secs: 1 }
    }

    /// After a connection ended, cleanly or not: the seconds to wait before
    /// reconnecting.
    pub fn after_session(&mut self, clean: bool) -> (res: u64)
        requires
            old(self).wf(),
        ensures
            final(self).wf(),
            res == if clean { 1 } else { old(self).secs },
            final(self).secs == doubled(res),
            1 <= res <= 60,
    {
        if clean {
            self.secs = 1;
        }
        let wait = self.secs;
        self.secs = if self.secs >= 30 { 60 } else { 2 * self.secs };
        wait
    }
}

/// `ws://host:port/ws` → `http://host:port`, for the self-test endpoint.
pub open spec fn http_base_of(ws_url: Seq<char>) -> Seq<char> {
    let base = replace_first(
        replace_first(trim_end_pat(ws_url, "/ws"@), "wss://"@, "https://"@),
        "ws://"@,
        "http://"@,
    );
    trim_end_char(base, '/')
}

pub fn http_base(ws_url: &str) -> (res: String)
    ensures
        res@ == http_base_of(ws_url@),
{
    let s = trim_end_pat_exec(&chars_of(ws_url), &chars_of("/ws"));
    let s = replace_first_exec(&s, &chars_of("wss://"), &chars_of("https://"));
    let s = replace_first_exec(&s, &chars_of("ws://"), &chars_of("http://"));
    string_from_chars(&trim_end_chars(&s, '/'))
}

/// The self-test endpoint of notify_push, which reports the problems most
/// deployments actually hit (wrong `trusted_proxies` above all).
pub fn self_test_url(base_url: &str) -> (res: String)
    ensures
        res@ == trim_end_char(base_url@, '/') + "/test/cookie"@,
{
    let mut u = trim_end_chars(&chars_of(base_url), '/');
    push_str(&mut u, "/test/cookie");
    string_from_chars(&u)
}

} // verus!
