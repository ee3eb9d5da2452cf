//! Status reporting: what reaches the operator.
//!
//! Moving off a CI service costs a dashboard: it used to write failures in
//! your face, a dead background service says nothing at all. This is the
//! channel that reaches the operator when nobody is looking, which is the
//! normal state of a personal site that has been publishing fine for months.
//! The service posts the message; whether there is one, and what it says, is
//! decided here.

use vstd::prelude::*;
use crate::config::Config;
use crate::pipeline::Outcome;
use crate::text::{chars_of, join_strings, join_with, owned, push_all, push_str, string_from_chars, strs};

verus! {

/// A message for the ntfy topic.
#[derive(Debug, Clone)]
pub struct Notification {
    pub topic: String,
    pub title: String,
    pub priority: String,
    pub body: String,
}

pub open spec fn unchanged_note() -> Seq<char> {
    "\n\nThe live site is unchanged."@
}

/// The title, priority and body of the message about a run, if it needs a
/// human: a failed build, a build the publish gate refused, or conflict copies.
pub open spec fn message_for(result: Result<Outcome, String>) -> Option<(Seq<char>, Seq<char>, Seq<char>)> {
    match result {
        Err(e) => Some(("ncpages build failed"@, "high"@, e@ + unchanged_note())),
        Ok(o) => if o.violations@.len() > 0 {
            Some((
                "ncpages gate refused a build"@,
                "high"@,
                "trigger: "@ + o.trigger@ + "\n"@ + join_with(strs(o.violations@), "\n"@) + unchanged_note(),
            ))
        } else if o.conflict_copies@.len() > 0 {
            Some((
                "ncpages found conflict copies"@,
                "default"@,
                "trigger: "@ + o.trigger@
                    + "\nExcluded from the build, and a sign that work is about to be lost:\n"@
                    + join_with(strs(o.conflict_copies@), "\n"@),
            ))
        } else {
            None
        },
    }
}

/// The notification about a run, where `result` is the run's outcome or the
/// message of its error. Successful publishes stay quiet on purpose: a
/// notification per blog post trains you to ignore the channel. Without a
/// topic nothing is sent.
pub fn notification(config: &Config, result: &Result<Outcome, String>) -> (res: Option<Notification>)
    ensures
        match (config.report.ntfy_topic, message_for(*result)) {
            (Some(topic), Some((title, priority, body))) => res matches Some(n) && n.topic@ == topic@
                && n.title@ == title && n.priority@ == priority && n.body@ == body,
            _ => res is None,
        },
{
    let topic = match &config.report.ntfy_topic {
        Some(t) => t,
        None => return None,
    };
    let (title, priority, body) = match result {
        Err(e) => {
            let mut b = chars_of(e.as_str());
            push_str(&mut b, "\n\nThe live site is unchanged.");
            (owned("ncpages build failed"), owned("high"), b)
        },
        Ok(o) => {
            if o.violations.len() > 0 {
                let mut b = chars_of("trigger: ");
                push_str(&mut b, o.trigger.as_str());
                push_str(&mut b, "\n");
                push_all(&mut b, &join_strings(&o.violations, "\n"));
                push_str(&mut b, "\n\nThe live site is unchanged.");
                (owned("ncpages gate refused a build"), owned("high"), b)
            } else if o.conflict_copies.len() > 0 {
                let mut b = chars_of("trigger: ");
                push_str(&mut b, o.trigger.as_str());
                push_str(&mut b, "\nExcluded from the build, and a sign that work is about to be lost:\n");
                push_all(&mut b, &join_strings(&o.conflict_copies, "\n"));
                (owned("ncpages found conflict copies"), owned("default"), b)
            } else {
                return None;
            }
        },
    };
    Some(Notification { topic: topic.clone(), title, priority, body: string_from_chars(&body) })
}

/// A successful publish without conflict copies is never announced, whatever
/// the configuration.
pub proof fn lemma_success_is_quiet(o: Outcome)
    requires
        o.violations@.len() == 0,
        o.conflict_copies@.len() == 0,
    ensures
        message_for(Ok(o)) is None,
{
}

} // verus!
