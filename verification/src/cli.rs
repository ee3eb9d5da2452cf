//! The command line's rules: the log level, and what the one-shot commands
//! print and exit with.

use vstd::prelude::*;
use crate::doctor::Level;
use crate::pipeline::Outcome;
use crate::text::{chars_of, decimal, decimal_chars, push_all, push_str, string_from_chars};

verus! {

/// The verbosity of the log.
#[derive(Debug, Clone, Copy, PartialEq, Eq, Structural)]
pub enum LogLevel {
    Trace,
    Debug,
    Info,
    Warn,
    Error,
}

/// The code of a character with ASCII letters folded to lower case.
pub open spec fn folded_code(c: char) -> u32 {
    if 'A' <= c && c <= 'Z' {
        (c as u32 + 32) as u32
    } else {
        c as u32
    }
}

/// A string with ASCII letters folded to lower case, as character codes.
pub open spec fn folded(s: Seq<char>) -> Seq<u32> {
    s.map_values(|c: char| folded_code(c))
}

/// Whether `s` equals `word` (in lower case) ignoring ASCII case.
pub open spec fn names(s: Seq<char>, word: Seq<char>) -> bool {
    folded(s) == folded(word)
}

/// The level a value of `NCPAGES_LOG` names, in any case; anything else is
/// `info`. A regex-based directive filter would be nicer and costs about a
/// megabyte of binary for a service with nine modules.
pub open spec fn level_named(name: Seq<char>) -> LogLevel {
    if names(name, "trace"@) {
        LogLevel::Trace
    } else if names(name, "debug"@) {
        LogLevel::Debug
    } else if names(name, "warn"@) {
        LogLevel::Warn
    } else if names(name, "error"@) {
        LogLevel::Error
    } else {
        LogLevel::Info
    }
}

fn fold_code(c: char) -> (res: u32)
    ensures
        res == folded_code(c),
{
    if 'A' <= c && c <= 'Z' {
        c as u32 + 32
    } else {
        c as u32
    }
}

fn fold(s: &str) -> (res: Vec<u32>)
    ensures
        res@ == folded(s@),
{
    let v = chars_of(s);
    let mut out: Vec<u32> = Vec::new();
    let mut i: usize = 0;
    while i < v.len()
        invariant
            i <= v@.len(),
            v@ == s@,
            out@ == folded(v@.take(i as int)),
        decreases v@.len() - i,
    {
        out.push(fold_code(v[i]));
        assert(folded(v@.take(i + 1)) =~= folded(v@.take(i as int)).push(folded_code(v@[i as int])));
        i = i + 1;
    }
    assert(v@.take(v@.len() as int) =~= v@);
    out
}

fn codes_eq(a: &Vec<u32>, b: &Vec<u32>) -> (res: bool)
    ensures
        res == (a@ == b@),
{
    if a.len() != b.len() {
        return false;
    }
    let mut i: usize = 0;
    while i < a.len()
        invariant
            i <= a@.len() == b@.len(),
            forall|j: int| 0 <= j < i ==> a@[j] == b@[j],
        decreases a@.len() - i,
    {
        if a[i] != b[i] {
            return false;
        }
        i = i + 1;
    }
    assert(a@ =~= b@);
    true
}

pub fn log_level(name: &str) -> (res: LogLevel)
    ensures
        res == level_named(name@),
{
    let n = fold(name);
    if codes_eq(&n, &fold("trace")) {
        LogLevel::Trace
    } else if codes_eq(&n, &fold("debug")) {
        LogLevel::Debug
    } else if codes_eq(&n, &fold("warn")) {
        LogLevel::Warn
    } else if codes_eq(&n, &fold("error")) {
        LogLevel::Error
    } else {
        LogLevel::Info
    }
}

/// What `ncpages check` prints for a valid configuration.
pub fn check_report(config_path: &str, schema_version: u32) -> (res: String)
    ensures
        res@ == config_path@ + ": valid (schema_version "@ + decimal(schema_version as nat) + ")"@,
{
    let mut out = chars_of(config_path);
    push_str(&mut out, ": valid (schema_version ");
    push_all(&mut out, &decimal_chars(schema_version as u64));
    push_str(&mut out, ")");
    string_from_chars(&out)
}

/// `ncpages build` fails when the run neither published nor found nothing
/// to do: the publish gate refused the build.
pub fn build_failed(outcome: &Outcome) -> (res: bool)
    ensures
        res == (!outcome.published && !outcome.skipped),
{
    !outcome.published && !outcome.skipped
}

/// `ncpages doctor` fails when a check failed.
pub fn doctor_failed(worst: Level) -> (res: bool)
    ensures
        res == (worst == Level::Fail),
{
    match worst {
        Level::Fail => true,
        _ => false,
    }
}

} // verus!
