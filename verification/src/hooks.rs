//! The executor's rules.
//!
//! One way to run a program, used by all four phases: `pre_build`, `build`,
//! `post_build`, `post_publish`. Programs plus environment variables — no
//! plugin API, no dynamically loaded modules. Spawning is the service's job;
//! what the exit code means and what environment a program sees is decided
//! here.
//!
//! Two things are deliberately *not* shared, because the phases differ in kind:
//!
//! * **Exit codes.** For hooks, `1` is a warning the build survives and `2` is
//!   an abort. For a build, any non-zero is a failure.
//! * **The environment.** Hooks get a cleared environment plus the documented
//!   contract, because they sit closest to the secrets. A build inherits the
//!   container's environment, minus the names it is denied.

use vstd::prelude::*;
use crate::config::Hook;
use crate::strmap::{env_map, StrMap};
use crate::text::{
    chars_of, decimal_int, decimal_int_chars, first_line_chars, first_line_of, owned, push_all,
    push_str, push_string, strs, string_from_chars,
};

verus! {

#[derive(Debug, Clone, Copy, PartialEq, Eq, Structural)]
pub enum Phase {
    PreBuild,
    Build,
    PostBuild,
    PostPublish,
}

pub open spec fn phase_name(p: Phase) -> Seq<char> {
    match p {
        Phase::PreBuild => "pre_build"@,
        Phase::Build => "build"@,
        Phase::PostBuild => "post_build"@,
        Phase::PostPublish => "post_publish"@,
    }
}

impl Phase {
    pub fn as_str(self) -> (res: &'static str)
        ensures
            res@ == phase_name(self),
    {
        match self {
            Phase::PreBuild => "pre_build",
            Phase::Build => "build",
            Phase::PostBuild => "post_build",
            Phase::PostPublish => "post_publish",
        }
    }
}

#[derive(Debug, Clone)]
pub struct HookOutcome {
    pub warnings: Vec<String>,
}

/// Whether a program starts from a cleared environment or the container's.
#[derive(Debug, Clone, Copy, PartialEq, Eq, Structural)]
pub enum Env {
    /// Only `PATH`, the `NCPAGES_*` contract and explicit passthrough.
    Cleared,
    /// Everything this process has, minus the denied names.
    Inherited,
}

/// What a program did. Interpreting the code is the caller's job.
#[derive(Debug, Clone)]
pub struct Execution {
    /// The exit code, or -1 when the program was ended by a signal.
    pub code: i32,
    /// Standard error, trimmed.
    pub stderr: String,
    pub elapsed_ms: u64,
}

/// One program to run, and the policy it runs under.
pub struct Run<'a> {
    pub phase: Phase,
    pub program: &'a str,
    pub args: &'a [String],
    pub workdir: &'a str,
    /// The `NCPAGES_*` contract.
    pub env: &'a StrMap,
    /// Variables copied from this process, named explicitly.
    pub passthrough: &'a [String],
    /// Variables removed after the policy is applied.
    pub deny: &'a [String],
    pub env_policy: Env,
    pub timeout_ms: u64,
}

/// The `PATH` a cleared environment gets when this process has none.
pub open spec fn default_path() -> Seq<char> {
    "/usr/bin:/bin"@
}

/// `base` plus, for every name in `names` that `from` holds, that value.
pub open spec fn copy_from(
    base: Map<Seq<char>, Seq<char>>,
    from: Map<Seq<char>, Seq<char>>,
    names: Seq<Seq<char>>,
) -> Map<Seq<char>, Seq<char>>
    decreases names.len(),
{
    if names.len() == 0 {
        base
    } else {
        let m = copy_from(base, from, names.drop_last());
        if from.contains_key(names.last()) {
            m.insert(names.last(), from[names.last()])
        } else {
            m
        }
    }
}

/// `m` without the names in `names`.
pub open spec fn without_names(m: Map<Seq<char>, Seq<char>>, names: Seq<Seq<char>>) -> Map<Seq<char>, Seq<char>>
    decreases names.len(),
{
    if names.len() == 0 {
        m
    } else {
        without_names(m, names.drop_last()).remove(names.last())
    }
}

pub proof fn lemma_without_names(m: Map<Seq<char>, Seq<char>>, names: Seq<Seq<char>>, k: Seq<char>)
    ensures
        names.contains(k) ==> !without_names(m, names).contains_key(k),
        !names.contains(k) ==> without_names(m, names).contains_key(k) == m.contains_key(k),
        !names.contains(k) && m.contains_key(k) ==> without_names(m, names)[k] == m[k],
    decreases names.len(),
{
    if names.len() > 0 {
        lemma_without_names(m, names.drop_last(), k);
        if names.contains(k) && names.last() != k {
            let i = choose|i: int| 0 <= i < names.len() && names[i] == k;
            assert(names.drop_last()[i] == k);
        }
        if names.drop_last().contains(k) {
            let i = choose|i: int| 0 <= i < names.drop_last().len() && names.drop_last()[i] == k;
            assert(names[i] == k);
        }
    }
}

/// The environment a child process sees.
///
/// The policy gives the starting point (only `PATH`, or everything this
/// process has); the contract is laid over it, then each passthrough name this
/// process has, and finally the denied names are removed.
pub open spec fn child_env_map(
    policy: Env,
    inherited: Map<Seq<char>, Seq<char>>,
    contract: Map<Seq<char>, Seq<char>>,
    passthrough: Seq<Seq<char>>,
    deny: Seq<Seq<char>>,
) -> Map<Seq<char>, Seq<char>> {
    let base = match policy {
        Env::Cleared => Map::empty().insert(
            "PATH"@,
            if inherited.contains_key("PATH"@) { inherited["PATH"@] } else { default_path() },
        ),
        Env::Inherited => inherited,
    };
    without_names(copy_from(base.union_prefer_right(contract), inherited, passthrough), deny)
}

/// The environment for one run, computed from this process's own variables.
pub fn child_env(
    policy: Env,
    inherited: &StrMap,
    contract: &StrMap,
    passthrough: &[String],
    deny: &[String],
) -> (res: StrMap)
    ensures
        res.view_map() == child_env_map(
            policy,
            inherited.view_map(),
            contract.view_map(),
            strs(passthrough@),
            strs(deny@),
        ),
{
    let mut out = StrMap::new();
    match policy {
        Env::Cleared => {
            let path = match inherited.get("PATH") {
                Some(p) => p,
                None => owned("/usr/bin:/bin"),
            };
            out.set("PATH", path.as_str());
        },
        Env::Inherited => {
            let mut i: usize = 0;
            while i < inherited.len()
                invariant
                    i <= inherited.pairs().len(),
                    out.view_map() == env_map(inherited.pairs().take(i as int)),
                decreases inherited.pairs().len() - i,
            {
                assert(inherited.pairs().take(i + 1).drop_last() =~= inherited.pairs().take(i as int));
                let (k, v) = inherited.entry(i);
                out.set(k.as_str(), v.as_str());
                i = i + 1;
            }
            assert(inherited.pairs().take(inherited.pairs().len() as int) =~= inherited.pairs());
        },
    }
    let ghost base = out.view_map();
    assert(env_map(contract.pairs().take(0)) =~= Map::<Seq<char>, Seq<char>>::empty());
    assert(base =~= base.union_prefer_right(env_map(contract.pairs().take(0))));
    let mut i: usize = 0;
    while i < contract.len()
        invariant
            i <= contract.pairs().len(),
            out.view_map() == base.union_prefer_right(env_map(contract.pairs().take(i as int))),
        decreases contract.pairs().len() - i,
    {
        let ghost prev = env_map(contract.pairs().take(i as int));
        assert(contract.pairs().take(i + 1).drop_last() =~= contract.pairs().take(i as int));
        let (k, v) = contract.entry(i);
        out.set(k.as_str(), v.as_str());
        assert(out.view_map() =~= base.union_prefer_right(env_map(contract.pairs().take(i + 1))));
        i = i + 1;
    }
    assert(contract.pairs().take(contract.pairs().len() as int) =~= contract.pairs());
    let ghost layered = out.view_map();
    let mut j: usize = 0;
    let ghost names = strs(passthrough@);
    assert(names.take(0) =~= Seq::<Seq<char>>::empty());
    while j < passthrough.len()
        invariant
            j <= passthrough@.len(),
            names == strs(passthrough@),
            out.view_map() == copy_from(layered, inherited.view_map(), names.take(j as int)),
        decreases passthrough@.len() - j,
    {
        assert(names.take(j + 1).drop_last() =~= names.take(j as int));
        assert(names.take(j + 1).last() == passthrough@[j as int]@);
        match inherited.get(passthrough[j].as_str()) {
            Some(v) => {
                out.set(passthrough[j].as_str(), v.as_str());
            },
            None => {},
        }
        j = j + 1;
    }
    assert(names.take(passthrough@.len() as int) =~= names);
    let ghost copied = out.view_map();
    let ghost denied = strs(deny@);
    let mut k: usize = 0;
    assert(denied.take(0) =~= Seq::<Seq<char>>::empty());
    while k < deny.len()
        invariant
            k <= deny@.len(),
            denied == strs(deny@),
            out.view_map() == without_names(copied, denied.take(k as int)),
        decreases deny@.len() - k,
    {
        out.remove(deny[k].as_str());
        assert(denied.take(k + 1) =~= denied.take(k as int).push(deny@[k as int]@));
        assert(denied.take(k + 1).drop_last() =~= denied.take(k as int));
        k = k + 1;
    }
    assert(denied.take(deny@.len() as int) =~= denied);
    out
}

/// A hook's environment holds nothing but `PATH`, the contract and its
/// explicit passthrough names — nothing ambient reaches it.
pub proof fn lemma_cleared_env_is_closed(
    inherited: Map<Seq<char>, Seq<char>>,
    contract: Map<Seq<char>, Seq<char>>,
    passthrough: Seq<Seq<char>>,
    deny: Seq<Seq<char>>,
    name: Seq<char>,
)
    requires
        child_env_map(Env::Cleared, inherited, contract, passthrough, deny).contains_key(name),
    ensures
        name == "PATH"@ || contract.contains_key(name) || passthrough.contains(name),
{
    let base = Map::empty().insert(
        "PATH"@,
        if inherited.contains_key("PATH"@) { inherited["PATH"@] } else { default_path() },
    );
    lemma_copy_from_keys(base.union_prefer_right(contract), inherited, passthrough, name);
    lemma_without_names(copy_from(base.union_prefer_right(contract), inherited, passthrough), deny, name);
}

proof fn lemma_copy_from_keys(
    base: Map<Seq<char>, Seq<char>>,
    from: Map<Seq<char>, Seq<char>>,
    names: Seq<Seq<char>>,
    k: Seq<char>,
)
    ensures
        copy_from(base, from, names).contains_key(k) ==> base.contains_key(k) || names.contains(k),
        !names.contains(k) ==> copy_from(base, from, names).contains_key(k) == base.contains_key(k),
        !names.contains(k) && base.contains_key(k) ==> copy_from(base, from, names)[k] == base[k],
    decreases names.len(),
{
    if names.len() > 0 {
        lemma_copy_from_keys(base, from, names.drop_last(), k);
        if names.drop_last().contains(k) {
            let i = choose|i: int| 0 <= i < names.drop_last().len() && names.drop_last()[i] == k;
            assert(names[i] == k);
        }
    }
}

/// A denied name never reaches the child, whatever the policy.
pub proof fn lemma_denied_never_reach(
    policy: Env,
    inherited: Map<Seq<char>, Seq<char>>,
    contract: Map<Seq<char>, Seq<char>>,
    passthrough: Seq<Seq<char>>,
    deny: Seq<Seq<char>>,
    name: Seq<char>,
)
    requires
        deny.contains(name),
    ensures
        !child_env_map(policy, inherited, contract, passthrough, deny).contains_key(name),
{
    let base = match policy {
        Env::Cleared => Map::empty().insert(
            "PATH"@,
            if inherited.contains_key("PATH"@) { inherited["PATH"@] } else { default_path() },
        ),
        Env::Inherited => inherited,
    };
    lemma_without_names(copy_from(base.union_prefer_right(contract), inherited, passthrough), deny, name);
}

/// Every contract variable reaches the child with its documented value,
/// unless a passthrough name or a denied name of the same name overrides it.
pub proof fn lemma_contract_reaches(
    policy: Env,
    inherited: Map<Seq<char>, Seq<char>>,
    contract: Map<Seq<char>, Seq<char>>,
    passthrough: Seq<Seq<char>>,
    deny: Seq<Seq<char>>,
    name: Seq<char>,
)
    requires
        contract.contains_key(name),
        !passthrough.contains(name),
        !deny.contains(name),
    ensures
        child_env_map(policy, inherited, contract, passthrough, deny).contains_key(name),
        child_env_map(policy, inherited, contract, passthrough, deny)[name] == contract[name],
{
    let base = match policy {
        Env::Cleared => Map::empty().insert(
            "PATH"@,
            if inherited.contains_key("PATH"@) { inherited["PATH"@] } else { default_path() },
        ),
        Env::Inherited => inherited,
    };
    lemma_copy_from_keys(base.union_prefer_right(contract), inherited, passthrough, name);
    lemma_without_names(copy_from(base.union_prefer_right(contract), inherited, passthrough), deny, name);
}

/// A build keeps the container's environment: every inherited name that
/// is neither denied, nor in the contract, nor passed through, arrives
/// unchanged.
pub proof fn lemma_build_keeps_inherited(
    inherited: Map<Seq<char>, Seq<char>>,
    contract: Map<Seq<char>, Seq<char>>,
    passthrough: Seq<Seq<char>>,
    deny: Seq<Seq<char>>,
    name: Seq<char>,
)
    requires
        inherited.contains_key(name),
        !contract.contains_key(name),
        !passthrough.contains(name),
        !deny.contains(name),
    ensures
        child_env_map(Env::Inherited, inherited, contract, passthrough, deny).contains_key(name),
        child_env_map(Env::Inherited, inherited, contract, passthrough, deny)[name] == inherited[name],
{
    lemma_copy_from_keys(inherited.union_prefer_right(contract), inherited, passthrough, name);
    lemma_without_names(copy_from(inherited.union_prefer_right(contract), inherited, passthrough), deny, name);
}

/// The first line of a program's output, for messages.
pub open spec fn first_line_text(text: Seq<char>) -> Seq<char> {
    match first_line_of(text) {
        Some(l) => l,
        None => "(no output)"@,
    }
}

pub fn first_line(text: &str) -> (res: String)
    ensures
        res@ == first_line_text(text@),
{
    let v = chars_of(text);
    match first_line_chars(&v) {
        Some(l) => string_from_chars(&l),
        None => owned("(no output)"),
    }
}

/// What one hook's exit means for its phase.
#[derive(Debug, Clone)]
pub enum HookVerdict {
    /// Exit 0.
    Passed,
    /// Exit 1: a warning the build survives.
    Warned(String),
    /// Anything else: the pipeline stops.
    Aborted(String),
}

pub open spec fn warned_message(phase: Phase, hook: Seq<char>, stderr: Seq<char>) -> Seq<char> {
    phase_name(phase) + ": "@ + hook + " warned: "@ + first_line_text(stderr)
}

pub open spec fn aborted_message(phase: Phase, hook: Seq<char>, code: int, stderr: Seq<char>) -> Seq<char> {
    phase_name(phase) + ": hook "@ + hook + " aborted with exit code "@ + decimal_int(code) + ": "@
        + first_line_text(stderr)
}

pub open spec fn missing_hook_message(phase: Phase, hook: Seq<char>, hooks_dir: Seq<char>) -> Seq<char> {
    phase_name(phase) + ": hook "@ + hook + " not found (hooks live in "@ + hooks_dir
        + ", never in the vault)"@
}

/// The hook contract: 0 passes, 1 warns, anything else aborts.
pub fn judge_hook_exit(phase: Phase, hook: &str, code: i32, stderr: &str) -> (res: HookVerdict)
    ensures
        code == 0 ==> res is Passed,
        code == 1 ==> (res matches HookVerdict::Warned(m) && m@ == warned_message(phase, hook@, stderr@)),
        code != 0 && code != 1 ==> (res matches HookVerdict::Aborted(m) && m@ == aborted_message(
            phase,
            hook@,
            code as int,
            stderr@,
        )),
{
    if code == 0 {
        return HookVerdict::Passed;
    }
    let line = first_line(stderr);
    let mut m: Vec<char> = Vec::new();
    push_str(&mut m, phase.as_str());
    if code == 1 {
        push_str(&mut m, ": ");
        push_str(&mut m, hook);
        push_str(&mut m, " warned: ");
        push_str(&mut m, line.as_str());
        HookVerdict::Warned(string_from_chars(&m))
    } else {
        push_str(&mut m, ": hook ");
        push_str(&mut m, hook);
        push_str(&mut m, " aborted with exit code ");
        push_all(&mut m, &decimal_int_chars(code as i64));
        push_str(&mut m, ": ");
        push_str(&mut m, line.as_str());
        HookVerdict::Aborted(string_from_chars(&m))
    }
}

/// The error for a hook whose program is not in the hook directory.
pub fn missing_hook(phase: Phase, hook: &str, hooks_dir: &str) -> (res: String)
    ensures
        res@ == missing_hook_message(phase, hook@, hooks_dir@),
{
    let mut m: Vec<char> = Vec::new();
    push_str(&mut m, phase.as_str());
    push_str(&mut m, ": hook ");
    push_str(&mut m, hook);
    push_str(&mut m, " not found (hooks live in ");
    push_str(&mut m, hooks_dir);
    push_str(&mut m, ", never in the vault)");
    string_from_chars(&m)
}

pub open spec fn build_failed_message(code: int, stderr: Seq<char>) -> Seq<char> {
    "build failed with exit code "@ + decimal_int(code) + ": "@ + first_line_text(stderr)
}

/// The build phase: any non-zero exit is a failure — generators follow the
/// Unix convention and know nothing about the hook contract.
pub fn judge_build_exit(code: i32, stderr: &str) -> (res: Result<(), String>)
    ensures
        code == 0 ==> res is Ok,
        code != 0 ==> (res matches Err(m) && m@ == build_failed_message(code as int, stderr@)),
{
    if code == 0 {
        return Ok(());
    }
    let line = first_line(stderr);
    let mut m: Vec<char> = Vec::new();
    push_str(&mut m, "build failed with exit code ");
    push_all(&mut m, &decimal_int_chars(code as i64));
    push_str(&mut m, ": ");
    push_str(&mut m, line.as_str());
    Err(string_from_chars(&m))
}

/// The program and arguments of a build command; an empty command is refused.
pub fn split_command(command: &Vec<String>) -> (res: Result<(String, Vec<String>), String>)
    ensures
        command@.len() == 0 ==> (res matches Err(m) && m@ == "build.command is empty"@),
        command@.len() > 0 ==> (res matches Ok((p, a)) && p@ == command@[0]@ && strs(a@) == strs(
            command@.drop_first(),
        )),
{
    if command.len() == 0 {
        return Err(owned("build.command is empty"));
    }
    let mut args: Vec<String> = Vec::new();
    let mut i: usize = 1;
    while i < command.len()
        invariant
            1 <= i <= command@.len(),
            strs(args@) == strs(command@.subrange(1, i as int)),
        decreases command@.len() - i,
    {
        push_string(&mut args, command[i].clone());
        assert(strs(command@.subrange(1, i + 1)) =~= strs(command@.subrange(1, i as int)).push(
            command@[i as int]@,
        ));
        i = i + 1;
    }
    assert(command@.subrange(1, command@.len() as int) =~= command@.drop_first());
    Ok((command[0].clone(), args))
}

/// Where a phase stands.
#[derive(Debug, Clone, Copy, PartialEq, Eq, Structural)]
pub enum PhaseStage {
    /// About to check that hook `next` exists.
    Probing,
    /// Hook `next` exists and is to be run.
    Running,
    /// Every hook ran without aborting.
    Completed,
    /// A hook was missing, failed to run, or aborted.
    Failed,
}

/// What the executor is asked to do next.
#[derive(Debug, Clone, Copy, PartialEq, Eq, Structural)]
pub enum PhaseAction {
    /// Check that the program of hook `index` exists in the hook directory.
    Probe { index: usize },
    /// Run hook `index` under the cleared environment policy.
    Execute { index: usize },
    /// Nothing more to do; see [`PhaseRun::result`].
    Finish,
}

/// What the executor observed.
pub enum PhaseEvent {
    /// Whether the program of the probed hook exists.
    Probed { exists: bool },
    /// The hook ran to completion with this exit code and standard error.
    Exited { code: i32, stderr: String },
    /// The hook could not be run at all (spawn failure or timeout).
    Unrunnable { message: String },
}

/// One phase of hooks, run in order: a warning is collected and the phase
/// goes on; a missing hook or an abort ends it.
pub struct PhaseRun {
    pub phase: Phase,
    pub stage: PhaseStage,
    /// The hook being probed or run.
    pub next: usize,
    pub count: usize,
    pub warnings: Vec<String>,
    pub error: Option<String>,
}

impl PhaseRun {
    pub open spec fn wf(&self) -> bool {
        &&& self.next <= self.count
        &&& (self.stage == PhaseStage::Probing || self.stage == PhaseStage::Running) ==> self.next < self.count
        &&& self.stage == PhaseStage::Completed ==> self.next == self.count && self.error is None
        &&& self.stage == PhaseStage::Failed <==> self.error is Some
    }

    /// The action the run is waiting to see performed.
    pub open spec fn pending(&self) -> PhaseAction {
        match self.stage {
            PhaseStage::Probing => PhaseAction::Probe { index: self.next },
            PhaseStage::Running => PhaseAction::Execute { index: self.next },
            _ => PhaseAction::Finish,
        }
    }

    /// Starts a phase over `count` hooks.
    pub fn start(phase: Phase, count: usize) -> (res: (PhaseRun, PhaseAction))
        ensures
            res.0.wf(),
            res.0.phase == phase,
            res.0.count == count,
            res.0.next == 0,
            res.0.warnings@.len() == 0,
            count == 0 ==> res.0.stage == PhaseStage::Completed,
            count > 0 ==> res.0.stage == PhaseStage::Probing,
            res.1 == res.0.pending(),
    {
        let stage = if count == 0 { PhaseStage::Completed } else { PhaseStage::Probing };
        let run = PhaseRun { phase, stage, next: 0, count, warnings: Vec::new(), error: None };
        let action = if count == 0 { PhaseAction::Finish } else { PhaseAction::Probe { index: 0 } };
        (run, action)
    }

    /// Takes what the executor observed for the pending action; `hook` and
    /// `hooks_dir` name the hook at `self.next` for messages.
    pub fn advance(&mut self, event: PhaseEvent, hook: &Hook, hooks_dir: &str) -> (res: PhaseAction)
        requires
            old(self).wf(),
        ensures
            final(self).wf(),
            res == final(self).pending(),
            final(self).phase == old(self).phase,
            final(self).count == old(self).count,
            // Finished phases stay finished.
            (old(self).stage == PhaseStage::Completed || old(self).stage == PhaseStage::Failed)
                ==> *final(self) == *old(self),
            // A missing hook ends the phase with its own message.
            event matches PhaseEvent::Probed { exists } ==> (old(self).stage == PhaseStage::Probing
                && !exists ==> (final(self).stage == PhaseStage::Failed && (final(self).error matches Some(m)
                && m@ == missing_hook_message(old(self).phase, hook.run@, hooks_dir@)))),
            // An existing hook is run next.
            event matches PhaseEvent::Probed { exists } ==> (old(self).stage == PhaseStage::Probing
                && exists ==> (final(self).stage == PhaseStage::Running && final(self).next == old(self).next
                && strs(final(self).warnings@) == strs(old(self).warnings@))),
            // Exit 0 moves on; exit 1 moves on with a warning; anything else aborts.
            event matches PhaseEvent::Exited { code, stderr } ==> (old(self).stage == PhaseStage::Running
                && (code == 0 || code == 1) ==> (final(self).next == old(self).next + 1
                && final(self).stage == (if old(self).next + 1 < old(self).count {
                PhaseStage::Probing
            } else {
                PhaseStage::Completed
            }) && strs(final(self).warnings@) == (if code == 1 {
                strs(old(self).warnings@).push(warned_message(old(self).phase, hook.run@, stderr@))
            } else {
                strs(old(self).warnings@)
            }))),
            event matches PhaseEvent::Exited { code, stderr } ==> (old(self).stage == PhaseStage::Running
                && code != 0 && code != 1 ==> (final(self).stage == PhaseStage::Failed
                && (final(self).error matches Some(m) && m@ == aborted_message(
                old(self).phase,
                hook.run@,
                code as int,
                stderr@,
            )))),
            event matches PhaseEvent::Unrunnable { message } ==> (old(self).stage == PhaseStage::Running
                ==> (final(self).stage == PhaseStage::Failed && (final(self).error matches Some(m)
                && m@ == message@))),
            // An event that does not answer the pending action is refused.
            old(self).stage == PhaseStage::Probing && !(event is Probed) ==> *final(self) == *old(self),
            old(self).stage == PhaseStage::Running && event is Probed ==> *final(self) == *old(self),
    {
        match self.stage {
            PhaseStage::Probing => {
                if let PhaseEvent::Probed { exists } = event {
                    if exists {
                        self.stage = PhaseStage::Running;
                    } else {
                        self.error = Some(missing_hook(self.phase, hook.run.as_str(), hooks_dir));
                        self.stage = PhaseStage::Failed;
                    }
                }
            },
            PhaseStage::Running => {
                match event {
                    PhaseEvent::Exited { code, stderr } => {
                        match judge_hook_exit(self.phase, hook.run.as_str(), code, stderr.as_str()) {
                            HookVerdict::Passed => {
                                self.next = self.next + 1;
                                self.stage = if self.next < self.count {
                                    PhaseStage::Probing
                                } else {
                                    PhaseStage::Completed
                                };
                            },
                            HookVerdict::Warned(m) => {
                                push_string(&mut self.warnings, m);
                                self.next = self.next + 1;
                                self.stage = if self.next < self.count {
                                    PhaseStage::Probing
                                } else {
                                    PhaseStage::Completed
                                };
                            },
                            HookVerdict::Aborted(m) => {
                                self.error = Some(m);
                                self.stage = PhaseStage::Failed;
                            },
                        }
                    },
                    PhaseEvent::Unrunnable { message } => {
                        self.error = Some(message);
                        self.stage = PhaseStage::Failed;
                    },
                    PhaseEvent::Probed { .. } => {},
                }
            },
            _ => {},
        }
        match self.stage {
            PhaseStage::Probing => PhaseAction::Probe { index: self.next },
            PhaseStage::Running => PhaseAction::Execute { index: self.next },
            _ => PhaseAction::Finish,
        }
    }

    /// The phase's result once it is finished: its warnings, or its error.
    pub fn result(&self) -> (res: Option<Result<HookOutcome, String>>)
        requires
            self.wf(),
        ensures
            self.stage == PhaseStage::Completed ==> (res matches Some(Ok(o)) && strs(o.warnings@)
                == strs(self.warnings@)),
            self.stage == PhaseStage::Failed ==> (res matches Some(Err(m)) && Some(m) == self.error),
            (self.stage == PhaseStage::Probing || self.stage == PhaseStage::Running) ==> res is None,
    {
        match self.stage {
            PhaseStage::Completed => {
                let mut w: Vec<String> = Vec::new();
                crate::text::extend_strings(&mut w, &self.warnings);
                assert(strs(w@) =~= strs(self.warnings@));
                Some(Ok(HookOutcome { warnings: w }))
            },
            PhaseStage::Failed => {
                match &self.error {
                    Some(m) => Some(Err(m.clone())),
                    None => None,
                }
            },
            _ => None,
        }
    }
}

} // verus!
