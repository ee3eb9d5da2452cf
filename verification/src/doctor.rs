//! `ncpages doctor`: the failure catalogue as checks.
//!
//! Most issues in a published tool are other people's deployments: broken
//! notify_push, wrong `trusted_proxies`, S3 storage, encryption. A check that
//! only prints FAIL moves the work back to the maintainer, so every check says
//! what it verified, what it found, and what to do about it. The service looks
//! at the disk and the network; the findings become checks here.

use vstd::prelude::*;
use crate::agent::byte_len;
use crate::config::{opt_string_view, report_endpoint, BuildKind, Config, Hook, SourceKind};
use crate::paths::{join, join_path};
use crate::text::{
    chars_of, decimal, decimal_chars, owned, padded, padded_chars, push_all, push_str,
    slice_chars, string_from_chars,
};

verus! {

#[derive(Debug, Clone, Copy, PartialEq, Eq, Structural)]
pub enum Level {
    Pass,
    Warn,
    Fail,
}

impl Level {
    pub open spec fn label_text(self) -> Seq<char> {
        match self {
            Level::Pass => "ok  "@,
            Level::Warn => "warn"@,
            Level::Fail => "FAIL"@,
        }
    }

    /// The four-character label printed before a check.
    pub fn label(self) -> (res: &'static str)
        ensures
            res@ == self.label_text(),
    {
        match self {
            Level::Pass => "ok  ",
            Level::Warn => "warn",
            Level::Fail => "FAIL",
        }
    }
}

#[derive(Debug, Clone)]
pub struct Check {
    pub name: String,
    pub level: Level,
    pub detail: String,
}

pub type CheckView = (Seq<char>, Level, Seq<char>);

pub open spec fn check_view(c: Check) -> CheckView {
    (c.name@, c.level, c.detail@)
}

pub open spec fn check_views(v: Seq<Check>) -> Seq<CheckView> {
    v.map_values(|c: Check| check_view(c))
}

impl Check {
    pub fn pass(name: &str, detail: String) -> (res: Self)
        ensures
            check_view(res) == (name@, Level::Pass, detail@),
    {
        Check { name: owned(name), level: Level::Pass, detail }
    }

    pub fn warn(name: &str, detail: String) -> (res: Self)
        ensures
            check_view(res) == (name@, Level::Warn, detail@),
    {
        Check { name: owned(name), level: Level::Warn, detail }
    }

    pub fn fail(name: &str, detail: String) -> (res: Self)
        ensures
            check_view(res) == (name@, Level::Fail, detail@),
    {
        Check { name: owned(name), level: Level::Fail, detail }
    }
}

// ---------------------------------------------------------------------------
// Printing

/// `s` left-aligned in a field of `width` characters (`format!("{s:<width$}")`).
pub open spec fn left_aligned(s: Seq<char>, width: nat) -> Seq<char> {
    if s.len() < width {
        s + Seq::new((width - s.len()) as nat, |i: int| ' ')
    } else {
        s
    }
}

/// The printed line of a check: `[label] name detail`, the name padded to
/// 22 characters.
pub open spec fn check_line_text(c: CheckView) -> Seq<char> {
    "["@ + c.1.label_text() + "] "@ + left_aligned(c.0, 22) + " "@ + c.2
}

pub fn check_line(check: &Check) -> (res: String)
    ensures
        res@ == check_line_text(check_view(*check)),
{
    let mut out = chars_of("[");
    push_str(&mut out, check.level.label());
    push_str(&mut out, "] ");
    let name = chars_of(check.name.as_str());
    push_all(&mut out, &name);
    if name.len() < 22 {
        let mut pad: Vec<char> = Vec::new();
        let mut i: usize = 0;
        while i < 22 - name.len()
            invariant
                name.len() < 22,
                i <= 22 - name@.len(),
                pad@ == Seq::new(i as nat, |k: int| ' '),
            decreases 22 - name@.len() - i,
        {
            pad.push(' ');
            assert(pad@ =~= Seq::new((i + 1) as nat, |k: int| ' '));
            i = i + 1;
        }
        push_all(&mut out, &pad);
    }
    push_str(&mut out, " ");
    push_str(&mut out, check.detail.as_str());
    string_from_chars(&out)
}

/// The number of checks at `level`.
pub open spec fn count_level(v: Seq<CheckView>, level: Level) -> nat
    decreases v.len(),
{
    if v.len() == 0 {
        0
    } else {
        count_level(v.drop_last(), level) + if v.last().1 == level { 1nat } else { 0nat }
    }
}

/// The worst level among the checks: any failure fails, else any warning
/// warns.
pub open spec fn worst_of(v: Seq<CheckView>) -> Level {
    if count_level(v, Level::Fail) > 0 {
        Level::Fail
    } else if count_level(v, Level::Warn) > 0 {
        Level::Warn
    } else {
        Level::Pass
    }
}

/// The totals of a doctor run.
#[derive(Debug, Clone, Copy)]
pub struct Tally {
    pub worst: Level,
    pub fails: usize,
    pub warnings: usize,
}

pub fn tally(checks: &Vec<Check>) -> (res: Tally)
    ensures
        res.worst == worst_of(check_views(checks@)),
        res.fails == count_level(check_views(checks@), Level::Fail),
        res.warnings == count_level(check_views(checks@), Level::Warn),
{
    let ghost v = check_views(checks@);
    let mut fails: usize = 0;
    let mut warnings: usize = 0;
    let mut i: usize = 0;
    assert(v.take(0) =~= Seq::<CheckView>::empty());
    while i < checks.len()
        invariant
            i <= checks@.len(),
            v == check_views(checks@),
            fails == count_level(v.take(i as int), Level::Fail),
            warnings == count_level(v.take(i as int), Level::Warn),
            fails + warnings <= i,
        decreases checks@.len() - i,
    {
        assert(v.take(i + 1).drop_last() =~= v.take(i as int));
        assert(v.take(i + 1).last() == check_view(checks@[i as int]));
        match checks[i].level {
            Level::Fail => fails = fails + 1,
            Level::Warn => warnings = warnings + 1,
            Level::Pass => {},
        }
        i = i + 1;
    }
    assert(v.take(checks@.len() as int) =~= v);
    let worst = if fails > 0 {
        Level::Fail
    } else if warnings > 0 {
        Level::Warn
    } else {
        Level::Pass
    };
    Tally { worst, fails, warnings }
}

/// The closing line: how many checks ran, failed and warned.
pub fn tally_line(checks: &Vec<Check>) -> (res: String)
    ensures
        res@ == "\n"@ + decimal(checks@.len() as nat) + " checks, "@ + decimal(
            count_level(check_views(checks@), Level::Fail),
        ) + " failed, "@ + decimal(count_level(check_views(checks@), Level::Warn)) + " warnings"@,
{
    let t = tally(checks);
    let mut out = chars_of("\n");
    push_all(&mut out, &decimal_chars(checks.len() as u64));
    push_str(&mut out, " checks, ");
    push_all(&mut out, &decimal_chars(t.fails as u64));
    push_str(&mut out, " failed, ");
    push_all(&mut out, &decimal_chars(t.warnings as u64));
    push_str(&mut out, " warnings");
    string_from_chars(&out)
}

// ---------------------------------------------------------------------------
// Durations as `{:?}` shows them

/// The digits of a fraction of a second in thousandths, without trailing
/// zeros.
pub open spec fn millis_fraction(rem: nat) -> Seq<char> {
    let p = padded(rem, 3);
    if p[2] != '0' {
        p
    } else if p[1] != '0' {
        p.take(2)
    } else {
        p.take(1)
    }
}

/// A whole number of milliseconds as `Debug for Duration` prints it: `60s`,
/// `1.5s`, `250ms`, `0ns`.
pub open spec fn duration_text(ms: nat) -> Seq<char> {
    if ms == 0 {
        "0ns"@
    } else if ms < 1000 {
        decimal(ms) + "ms"@
    } else if ms % 1000 == 0 {
        decimal(ms / 1000) + "s"@
    } else {
        decimal(ms / 1000) + "."@ + millis_fraction(ms % 1000) + "s"@
    }
}

pub fn duration_debug(ms: u64) -> (res: String)
    ensures
        res@ == duration_text(ms as nat),
{
    if ms == 0 {
        return owned("0ns");
    }
    if ms < 1000 {
        let mut out = decimal_chars(ms);
        push_str(&mut out, "ms");
        return string_from_chars(&out);
    }
    let mut out = decimal_chars(ms / 1000);
    let rem = ms % 1000;
    if rem != 0 {
        proof {
            reveal_strlit(".");
        }
        out.push('.');
        let p = padded_chars(rem, 3);
        proof {
            crate::text::lemma_decimal_len(rem as nat);
            crate::text::lemma_decimal_len((rem / 10) as nat);
            crate::text::lemma_decimal_len((rem / 100) as nat);
        }
        assert(p@.len() == 3);
        let frac = if p[2] != '0' {
            slice_chars(&p, 0, 3)
        } else if p[1] != '0' {
            slice_chars(&p, 0, 2)
        } else {
            slice_chars(&p, 0, 1)
        };
        assert(p@.subrange(0, 3) =~= p@);
        assert(p@.subrange(0, 2) =~= p@.take(2));
        assert(p@.subrange(0, 1) =~= p@.take(1));
        push_all(&mut out, &frac);
    }
    push_str(&mut out, "s");
    string_from_chars(&out)
}

// ---------------------------------------------------------------------------
// The checks

/// What the service found about a hook script.
#[derive(Debug, Clone, Copy, PartialEq, Eq, Structural)]
pub enum FileState {
    Missing,
    NotExecutable,
    Executable,
}

/// What the service found when it tried the source.
#[derive(Debug, Clone)]
pub enum SourceProbe {
    /// The configuration describes no usable source.
    BadConfig { message: String },
    /// The probe failed.
    Unreachable { message: String },
    /// The probe answered with a change token.
    Reachable { describe: String, token: String },
}

/// What the service found on disk and on the network, in the order the
/// configuration lists hooks and overlay entries.
#[derive(Debug, Clone)]
pub struct Findings {
    pub src_exists: bool,
    pub state_exists: bool,
    pub config_dir_exists: bool,
    /// Whether the build tree and the publish root share a filesystem, when
    /// both exist.
    pub same_filesystem: Option<bool>,
    /// Why no file can be written in the publish root; `None` when one can.
    pub publish_write_error: Option<String>,
    /// The release `current` resolves to.
    pub current_release: Option<String>,
    pub pre_build_hooks: Vec<FileState>,
    pub post_build_hooks: Vec<FileState>,
    pub post_publish_hooks: Vec<FileState>,
    pub overlay_present: Vec<bool>,
    pub source: SourceProbe,
}

pub open spec fn aligned(c: Config, f: Findings) -> bool {
    &&& f.pre_build_hooks@.len() == c.hooks.pre_build@.len()
    &&& f.post_build_hooks@.len() == c.hooks.post_build@.len()
    &&& f.post_publish_hooks@.len() == c.hooks.post_publish@.len()
    &&& f.overlay_present@.len() == c.assemble.overlay@.len()
}

/// The first characters of a change token: at most twelve bytes.
pub open spec fn token_head(t: Seq<char>) -> Seq<char> {
    t.take(crate::agent::boundary_from(t, 12, 0))
}

/// Whether twelve bytes into the token fall on a character boundary (or the
/// token is shorter), so that its head can be cut there.
pub open spec fn token_cuts_cleanly(t: Seq<char>) -> bool {
    byte_len(t) <= 12 || byte_len(token_head(t)) == 12
}

pub open spec fn head_checks(c: Config) -> Seq<CheckView> {
    seq![
        ("config/overlap"@, Level::Pass, "hook directory "@ + join(c.paths.config_dir@, "hooks"@)
            + " is outside the working copy "@ + c.paths.src@),
        ("source/read-only"@, Level::Pass, "ncpages never writes to the source; the vault is yours alone"@),
    ] + match report_endpoint(&c.report, opt_string_view(c.source.url)) {
        Some(e) => seq![("report/app"@, Level::Pass, "reports go to "@ + e + " when the companion app is installed"@)],
        None => seq![("report/app"@, Level::Warn, "companion app reporting is off; results are visible in the log and /healthz"@)],
    } + if c.report.ntfy_topic is None {
        seq![("report/ntfy"@, Level::Warn, "no ntfy topic; a failed build will not reach you unless you look"@)]
    } else {
        seq![]
    }
}

pub open spec fn dir_check(name: Seq<char>, path: Seq<char>, exists: bool) -> CheckView {
    if exists {
        (name, Level::Pass, path + " exists"@)
    } else {
        (name, Level::Warn, path + " does not exist yet"@)
    }
}

pub open spec fn publish_checks(c: Config, f: Findings) -> Seq<CheckView> {
    seq![
        dir_check("paths/src"@, c.paths.src@, f.src_exists),
        dir_check("paths/state"@, c.paths.state@, f.state_exists),
        dir_check("paths/config_dir"@, c.paths.config_dir@, f.config_dir_exists),
        match f.same_filesystem {
            Some(true) => ("publish/filesystem"@, Level::Pass,
                "build tree and publish root share a filesystem, so releases are moved atomically"@),
            Some(false) => ("publish/filesystem"@, Level::Fail, c.paths.build@ + " and "@ + c.publish.root@
                + " are on different filesystems; the release move degrades to a copy"@),
            None => ("publish/filesystem"@, Level::Warn, "cannot compare filesystems yet; both paths need to exist"@),
        },
        match f.publish_write_error {
            None => ("publish/writable"@, Level::Pass, c.publish.root@ + " is writable by this process"@),
            Some(e) => ("publish/writable"@, Level::Fail, c.publish.root@ + " is not writable: "@ + e@
                + ". If the build runs in its own container, it must use the same fixed UID as this one."@),
        },
        match f.current_release {
            Some(r) => ("publish/current"@, Level::Pass, "current \u{2192} "@ + r@),
            None => ("publish/current"@, Level::Warn, "no current release; a holding page is created at startup"@),
        },
    ]
}

pub open spec fn hook_check(phase: Seq<char>, dir: Seq<char>, hook: Hook, state: FileState) -> CheckView {
    match state {
        FileState::Missing => ("hooks"@, Level::Fail, phase + ": "@ + join(dir, hook.run@) + " not found"@),
        FileState::NotExecutable => ("hooks"@, Level::Fail, phase + ": "@ + join(dir, hook.run@) + " is not executable"@),
        FileState::Executable => ("hooks"@, Level::Pass, phase + ": "@ + hook.run@),
    }
}

pub open spec fn hook_checks(phase: Seq<char>, dir: Seq<char>, hooks: Seq<Hook>, states: Seq<FileState>) -> Seq<CheckView>
    decreases hooks.len(),
{
    if hooks.len() == 0 {
        seq![]
    } else {
        hook_checks(phase, dir, hooks.drop_last(), states.drop_last()).push(
            hook_check(phase, dir, hooks.last(), states[hooks.len() - 1]),
        )
    }
}

pub open spec fn overlay_check(config_dir: Seq<char>, entry: Seq<char>, present: bool) -> CheckView {
    if present {
        ("assemble/overlay"@, Level::Pass, entry + " present"@)
    } else {
        ("assemble/overlay"@, Level::Fail, join(config_dir, entry) + " is missing; the build tree cannot be assembled"@)
    }
}

pub open spec fn overlay_checks(config_dir: Seq<char>, entries: Seq<Seq<char>>, present: Seq<bool>) -> Seq<CheckView>
    decreases entries.len(),
{
    if entries.len() == 0 {
        seq![]
    } else {
        overlay_checks(config_dir, entries.drop_last(), present.drop_last()).push(
            overlay_check(config_dir, entries.last(), present[entries.len() - 1]),
        )
    }
}

pub open spec fn local_build_note() -> Seq<char> {
    "builds run here as a subprocess. A generator bug reaches this container's credentials and network; a read-only share token keeps that blast radius small, and build.kind = \"agent\" removes it entirely."@
}

pub open spec fn build_checks(c: Config) -> Seq<CheckView> {
    seq![
        match c.build.kind {
            BuildKind::Agent => ("build/isolation"@, Level::Pass, "builds run in the isolated builder at "@
                + match c.build.url {
                Some(u) => u@,
                None => "?"@,
            }),
            BuildKind::Local => ("build/isolation"@, Level::Pass, local_build_note()),
        },
    ] + if c.build.kind == BuildKind::Agent && c.build.token_file is None {
        seq![("build/token"@, Level::Warn, "no build.token_file; the builder endpoint is unauthenticated"@)]
    } else {
        seq![]
    }
}

pub open spec fn source_checks(c: Config, f: Findings) -> Seq<CheckView> {
    seq![
        match f.source {
            SourceProbe::BadConfig { message } => ("source/config"@, Level::Fail, message@),
            SourceProbe::Unreachable { message } => ("source/reachable"@, Level::Fail, message@),
            SourceProbe::Reachable { describe, token } => ("source/reachable"@, Level::Pass, describe@
                + " responded, change token "@ + token_head(token@)),
        },
    ] + (if c.source.kind == SourceKind::Webdav && c.source.host_header is None {
        seq![("source/host_header"@, Level::Warn, "no source.host_header; if source.url is an internal name, server_name matching and trusted_domains will not apply"@)]
    } else {
        seq![]
    }) + if c.triggers.push is None {
        seq![("triggers/push"@, Level::Warn, "no notify_push configured; changes are detected by polling every "@
            + duration_text(c.triggers.poll_ms as nat))]
    } else {
        seq![]
    }
}

/// Every check of a doctor run, in order.
pub open spec fn doctor_checks(c: Config, f: Findings) -> Seq<CheckView> {
    let dir = join(c.paths.config_dir@, "hooks"@);
    head_checks(c) + publish_checks(c, f) + hook_checks("pre_build"@, dir, c.hooks.pre_build@, f.pre_build_hooks@)
        + hook_checks("post_build"@, dir, c.hooks.post_build@, f.post_build_hooks@) + hook_checks(
        "post_publish"@,
        dir,
        c.hooks.post_publish@,
        f.post_publish_hooks@,
    ) + overlay_checks(c.paths.config_dir@, crate::text::strs(c.assemble.overlay@), f.overlay_present@)
        + build_checks(c) + source_checks(c, f)
}

fn add_check(out: &mut Vec<Check>, name: &str, level: Level, detail: Vec<char>)
    ensures
        check_views(final(out)@) == check_views(old(out)@).push((name@, level, detail@)),
{
    let ghost before = check_views(out@);
    out.push(Check { name: owned(name), level, detail: string_from_chars(&detail) });
    assert(check_views(out@) =~= before.push((name@, level, detail@)));
}

fn add_head(out: &mut Vec<Check>, c: &Config)
    ensures
        check_views(final(out)@) == check_views(old(out)@) + head_checks(*c),
{
    let ghost start = check_views(out@);
    let hooks_dir = c.paths.hooks_dir();
    let mut d = chars_of("hook directory ");
    push_str(&mut d, hooks_dir.as_str());
    push_str(&mut d, " is outside the working copy ");
    push_str(&mut d, c.paths.src.as_str());
    add_check(out, "config/overlap", Level::Pass, d);
    add_check(out, "source/read-only", Level::Pass, chars_of("ncpages never writes to the source; the vault is yours alone"));
    let url = match &c.source.url {
        Some(u) => Some(u.as_str()),
        None => None,
    };
    match c.report.endpoint(url) {
        Some(e) => {
            let mut d = chars_of("reports go to ");
            push_str(&mut d, e.as_str());
            push_str(&mut d, " when the companion app is installed");
            add_check(out, "report/app", Level::Pass, d);
        },
        None => add_check(
            out,
            "report/app",
            Level::Warn,
            chars_of("companion app reporting is off; results are visible in the log and /healthz"),
        ),
    }
    if c.report.ntfy_topic.is_none() {
        add_check(out, "report/ntfy", Level::Warn, chars_of("no ntfy topic; a failed build will not reach you unless you look"));
    }
    assert(check_views(out@) =~= start + head_checks(*c));
}

fn dir_line(out: &mut Vec<Check>, name: &str, path: &str, exists: bool)
    ensures
        check_views(final(out)@) == check_views(old(out)@).push(dir_check(name@, path@, exists)),
{
    let mut d = chars_of(path);
    if exists {
        push_str(&mut d, " exists");
        add_check(out, name, Level::Pass, d);
    } else {
        push_str(&mut d, " does not exist yet");
        add_check(out, name, Level::Warn, d);
    }
}

fn add_publish(out: &mut Vec<Check>, c: &Config, f: &Findings)
    ensures
        check_views(final(out)@) == check_views(old(out)@) + publish_checks(*c, *f),
{
    let ghost start = check_views(out@);
    dir_line(out, "paths/src", c.paths.src.as_str(), f.src_exists);
    dir_line(out, "paths/state", c.paths.state.as_str(), f.state_exists);
    dir_line(out, "paths/config_dir", c.paths.config_dir.as_str(), f.config_dir_exists);
    match f.same_filesystem {
        Some(true) => add_check(
            out,
            "publish/filesystem",
            Level::Pass,
            chars_of("build tree and publish root share a filesystem, so releases are moved atomically"),
        ),
        Some(false) => {
            let mut d = chars_of(c.paths.build.as_str());
            push_str(&mut d, " and ");
            push_str(&mut d, c.publish.root.as_str());
            push_str(&mut d, " are on different filesystems; the release move degrades to a copy");
            add_check(out, "publish/filesystem", Level::Fail, d);
        },
        None => add_check(
            out,
            "publish/filesystem",
            Level::Warn,
            chars_of("cannot compare filesystems yet; both paths need to exist"),
        ),
    }
    match &f.publish_write_error {
        None => {
            let mut d = chars_of(c.publish.root.as_str());
            push_str(&mut d, " is writable by this process");
            add_check(out, "publish/writable", Level::Pass, d);
        },
        Some(e) => {
            let mut d = chars_of(c.publish.root.as_str());
            push_str(&mut d, " is not writable: ");
            push_str(&mut d, e.as_str());
            push_str(&mut d, ". If the build runs in its own container, it must use the same fixed UID as this one.");
            add_check(out, "publish/writable", Level::Fail, d);
        },
    }
    match &f.current_release {
        Some(r) => {
            let mut d = chars_of("current \u{2192} ");
            push_str(&mut d, r.as_str());
            add_check(out, "publish/current", Level::Pass, d);
        },
        None => add_check(
            out,
            "publish/current",
            Level::Warn,
            chars_of("no current release; a holding page is created at startup"),
        ),
    }
    assert(check_views(out@) =~= start + publish_checks(*c, *f));
}

fn add_hooks(out: &mut Vec<Check>, phase: &str, dir: &str, hooks: &Vec<Hook>, states: &Vec<FileState>)
    requires
        hooks@.len() == states@.len(),
    ensures
        check_views(final(out)@) == check_views(old(out)@) + hook_checks(phase@, dir@, hooks@, states@),
{
    let ghost start = check_views(out@);
    let mut i: usize = 0;
    assert(start + hook_checks(phase@, dir@, hooks@.take(0), states@.take(0)) =~= start);
    while i < hooks.len()
        invariant
            i <= hooks@.len() == states@.len(),
            check_views(out@) == start + hook_checks(phase@, dir@, hooks@.take(i as int), states@.take(i as int)),
        decreases hooks@.len() - i,
    {
        assert(hooks@.take(i + 1).drop_last() =~= hooks@.take(i as int));
        assert(states@.take(i + 1).drop_last() =~= states@.take(i as int));
        let ghost before = hook_checks(phase@, dir@, hooks@.take(i as int), states@.take(i as int));
        let hook = &hooks[i];
        match states[i] {
            FileState::Missing => {
                let mut d = chars_of(phase);
                push_str(&mut d, ": ");
                push_str(&mut d, join_path(dir, hook.run.as_str()).as_str());
                push_str(&mut d, " not found");
                add_check(out, "hooks", Level::Fail, d);
            },
            FileState::NotExecutable => {
                let mut d = chars_of(phase);
                push_str(&mut d, ": ");
                push_str(&mut d, join_path(dir, hook.run.as_str()).as_str());
                push_str(&mut d, " is not executable");
                add_check(out, "hooks", Level::Fail, d);
            },
            FileState::Executable => {
                let mut d = chars_of(phase);
                push_str(&mut d, ": ");
                push_str(&mut d, hook.run.as_str());
                add_check(out, "hooks", Level::Pass, d);
            },
        }
        assert(check_views(out@) =~= start + before.push(hook_check(phase@, dir@, hooks@[i as int], states@[i as int])));
        i = i + 1;
    }
    assert(hooks@.take(hooks@.len() as int) =~= hooks@);
    assert(states@.take(states@.len() as int) =~= states@);
}

fn add_overlay(out: &mut Vec<Check>, config_dir: &str, entries: &Vec<String>, present: &Vec<bool>)
    requires
        entries@.len() == present@.len(),
    ensures
        check_views(final(out)@) == check_views(old(out)@) + overlay_checks(config_dir@, crate::text::strs(entries@), present@),
{
    let ghost start = check_views(out@);
    let ghost es = crate::text::strs(entries@);
    let mut i: usize = 0;
    assert(start + overlay_checks(config_dir@, es.take(0), present@.take(0)) =~= start);
    while i < entries.len()
        invariant
            i <= entries@.len() == present@.len(),
            es == crate::text::strs(entries@),
            check_views(out@) == start + overlay_checks(config_dir@, es.take(i as int), present@.take(i as int)),
        decreases entries@.len() - i,
    {
        assert(es.take(i + 1).drop_last() =~= es.take(i as int));
        assert(present@.take(i + 1).drop_last() =~= present@.take(i as int));
        let ghost before = overlay_checks(config_dir@, es.take(i as int), present@.take(i as int));
        if present[i] {
            let mut d = chars_of(entries[i].as_str());
            push_str(&mut d, " present");
            add_check(out, "assemble/overlay", Level::Pass, d);
        } else {
            let mut d = chars_of(join_path(config_dir, entries[i].as_str()).as_str());
            push_str(&mut d, " is missing; the build tree cannot be assembled");
            add_check(out, "assemble/overlay", Level::Fail, d);
        }
        assert(check_views(out@) =~= start + before.push(overlay_check(config_dir@, es[i as int], present@[i as int])));
        i = i + 1;
    }
    assert(es.take(es.len() as int) =~= es);
    assert(present@.take(present@.len() as int) =~= present@);
}

fn add_build(out: &mut Vec<Check>, c: &Config)
    ensures
        check_views(final(out)@) == check_views(old(out)@) + build_checks(*c),
{
    let ghost start = check_views(out@);
    match c.build.kind {
        BuildKind::Agent => {
            let mut d = chars_of("builds run in the isolated builder at ");
            match &c.build.url {
                Some(u) => push_str(&mut d, u.as_str()),
                None => push_str(&mut d, "?"),
            }
            add_check(out, "build/isolation", Level::Pass, d);
        },
        BuildKind::Local => add_check(
            out,
            "build/isolation",
            Level::Pass,
            chars_of("builds run here as a subprocess. A generator bug reaches this container's credentials and network; a read-only share token keeps that blast radius small, and build.kind = \"agent\" removes it entirely."),
        ),
    }
    if c.build.kind == BuildKind::Agent && c.build.token_file.is_none() {
        add_check(out, "build/token", Level::Warn, chars_of("no build.token_file; the builder endpoint is unauthenticated"));
    }
    assert(check_views(out@) =~= start + build_checks(*c));
}

fn add_source(out: &mut Vec<Check>, c: &Config, f: &Findings)
    ensures
        check_views(final(out)@) == check_views(old(out)@) + source_checks(*c, *f),
{
    let ghost start = check_views(out@);
    match &f.source {
        SourceProbe::BadConfig { message } => add_check(out, "source/config", Level::Fail, chars_of(message.as_str())),
        SourceProbe::Unreachable { message } => add_check(out, "source/reachable", Level::Fail, chars_of(message.as_str())),
        SourceProbe::Reachable { describe, token } => {
            let mut d = chars_of(describe.as_str());
            push_str(&mut d, " responded, change token ");
            let t = chars_of(token.as_str());
            let k = crate::agent::boundary_exec(&t, 12);
            push_all(&mut d, &slice_chars(&t, 0, k));
            assert(t@.subrange(0, k as int) =~= t@.take(k as int));
            add_check(out, "source/reachable", Level::Pass, d);
        },
    }
    if c.source.kind == SourceKind::Webdav && c.source.host_header.is_none() {
        add_check(
            out,
            "source/host_header",
            Level::Warn,
            chars_of("no source.host_header; if source.url is an internal name, server_name matching and trusted_domains will not apply"),
        );
    }
    if c.triggers.push.is_none() {
        let mut d = chars_of("no notify_push configured; changes are detected by polling every ");
        push_str(&mut d, duration_debug(c.triggers.poll_ms).as_str());
        add_check(out, "triggers/push", Level::Warn, d);
    }
    assert(check_views(out@) =~= start + source_checks(*c, *f));
}

/// The checks of a doctor run from what the service found. Configuration
/// rules already refused startup if broken; saying so explicitly is worth a
/// line, because their absence is invisible.
pub fn checks(config: &Config, findings: &Findings) -> (res: Vec<Check>)
    requires
        aligned(*config, *findings),
        findings.source matches SourceProbe::Reachable { token, .. } ==> token_cuts_cleanly(token@),
    ensures
        check_views(res@) == doctor_checks(*config, *findings),
{
    let mut out: Vec<Check> = Vec::new();
    assert(check_views(out@) =~= Seq::<CheckView>::empty());
    add_head(&mut out, config);
    add_publish(&mut out, config, findings);
    let dir = config.paths.hooks_dir();
    add_hooks(&mut out, "pre_build", dir.as_str(), &config.hooks.pre_build, &findings.pre_build_hooks);
    add_hooks(&mut out, "post_build", dir.as_str(), &config.hooks.post_build, &findings.post_build_hooks);
    add_hooks(&mut out, "post_publish", dir.as_str(), &config.hooks.post_publish, &findings.post_publish_hooks);
    add_overlay(&mut out, config.paths.config_dir.as_str(), &config.assemble.overlay, &findings.overlay_present);
    add_build(&mut out, config);
    add_source(&mut out, config, findings);
    assert(check_views(out@) =~= doctor_checks(*config, *findings));
    out
}

} // verus!
