//! The ten steps from trigger to report, as a state machine.
//!
//! The service performs each step — syncing, assembling, running hooks and the
//! build, moving the output, gating, swapping, hashing, retention — and hands
//! the result to [`PipelineRun::advance`], which decides what happens next.
//!
//! If any step fails, `current` keeps pointing where it pointed before: the
//! site is never in an intermediate state. `post_publish` is only ever asked
//! for after the atomic swap succeeded, because everything in it is
//! irreversible.

use vstd::prelude::*;
use crate::config::{hook_env, Config};
use crate::strmap::StrMap;
use crate::gate::Verdict;
use crate::hooks::Phase;
use crate::text::{
    decimal, decimal_chars, extend_strings, join_strings, join_with, owned, push_all, push_str,
    push_string, str_eq, strs, string_from_chars,
};

verus! {

#[derive(Debug, Clone)]
pub struct Outcome {
    pub trigger: String,
    pub release: Option<String>,
    pub pages: usize,
    pub published: bool,
    pub skipped: bool,
    pub warnings: Vec<String>,
    pub violations: Vec<String>,
    pub conflict_copies: Vec<String>,
}

/// The one-line summary of a run's outcome.
pub open spec fn summary_of(o: &Outcome) -> Seq<char> {
    if o.skipped {
        "no change"@
    } else if o.published {
        "published "@ + (match o.release {
            Some(r) => r@,
            None => "?"@,
        }) + " ("@ + decimal(o.pages as nat) + " pages)"@
    } else {
        "gate refused: "@ + join_with(strs(o.violations@), "; "@)
    }
}

impl Outcome {
    pub fn summary(&self) -> (res: String)
        ensures
            res@ == summary_of(self),
    {
        if self.skipped {
            return owned("no change");
        }
        let mut m: Vec<char> = Vec::new();
        if self.published {
            push_str(&mut m, "published ");
            match &self.release {
                Some(r) => push_str(&mut m, r.as_str()),
                None => push_str(&mut m, "?"),
            }
            push_str(&mut m, " (");
            push_all(&mut m, &decimal_chars(self.pages as u64));
            push_str(&mut m, " pages)");
        } else {
            push_str(&mut m, "gate refused: ");
            push_all(&mut m, &join_strings(&self.violations, "; "));
        }
        string_from_chars(&m)
    }
}

/// Where a run stands: the step whose result it is waiting for.
#[derive(Debug, Clone, Copy, PartialEq, Eq, Structural)]
pub enum Stage {
    Syncing,
    Assembling,
    PreBuild,
    Building,
    CheckingOutput,
    PostBuild,
    Moving,
    Gating,
    Publishing,
    Hashing,
    PostPublish,
    Retaining,
    Finished,
}

/// The position of a stage in the documented order.
pub open spec fn rank(s: Stage) -> int {
    match s {
        Stage::Syncing => 1,
        Stage::Assembling => 2,
        Stage::PreBuild => 3,
        Stage::Building => 4,
        Stage::CheckingOutput => 5,
        Stage::PostBuild => 6,
        Stage::Moving => 7,
        Stage::Gating => 8,
        Stage::Publishing => 9,
        Stage::Hashing => 10,
        Stage::PostPublish => 11,
        Stage::Retaining => 12,
        Stage::Finished => 13,
    }
}

/// What the service is asked to do next.
#[derive(Debug, Clone, Copy, PartialEq, Eq, Structural)]
pub enum Action {
    /// Sync the source into the working copy.
    Sync,
    /// Rebuild the build tree; report the release being served and its pages.
    Assemble,
    /// Run the hooks of a phase with [`PipelineRun::hook_env`].
    RunHooks { phase: Phase },
    /// Run the build.
    Build,
    /// Check that the build produced its output directory.
    CheckOutput,
    /// Move the output to a new release directory.
    Move,
    /// Evaluate the publish gate on the new release.
    Judge,
    /// Point `current` at the new release, atomically.
    Swap,
    /// Hash the assembled content for the persisted state.
    HashContent,
    /// Apply release retention.
    Retain,
    /// The run is over; see [`PipelineRun::result`].
    Finish,
}

/// What the service observed when performing the pending action.
pub enum Event {
    Synced { changed: bool, conflict_copies: Vec<String> },
    Assembled { prev_dir: Option<String>, prev_pages: Option<usize> },
    HooksDone { warnings: Vec<String> },
    Built,
    OutputChecked { present: bool },
    Moved { release_id: String, release_dir: String },
    Judged { verdict: Verdict },
    Swapped,
    Hashed { hash: String },
    Retained,
    Failed { message: String },
}

/// Why a run ended without an outcome, and in which step.
#[derive(Debug, Clone)]
pub struct Failure {
    pub stage: Stage,
    pub message: String,
}

/// One pipeline run.
pub struct PipelineRun {
    pub stage: Stage,
    pub outcome: Outcome,
    /// Whether the state held a published release when the run started.
    pub had_release: bool,
    /// Whether the sync found a change, once it reported.
    pub changed: Option<bool>,
    /// The generator output directory, for messages.
    pub out_dir: String,
    /// The release being served when the run started, and its page count.
    pub prev_dir: Option<String>,
    pub prev_pages: Option<usize>,
    /// The directory of the new release, once it exists.
    pub release_dir: Option<String>,
    /// Whether the publish gate accepted the new release.
    pub gate_passed: bool,
    /// The content hash to persist, once the release is live.
    pub content_hash: Option<String>,
    pub failure: Option<Failure>,
}

/// Whether a trigger rebuilds even when nothing changed.
pub open spec fn forces_build(trigger: Seq<char>) -> bool {
    trigger == "timer"@ || trigger == "manual"@
}

pub open spec fn no_output_message(out_dir: Seq<char>) -> Seq<char> {
    "the build produced no output directory at "@ + out_dir + " \u{2014} check build.output"@
}

pub open spec fn post_publish_failed_message(m: Seq<char>) -> Seq<char> {
    "post_publish failed: "@ + m
}

pub open spec fn hash_failed_message(m: Seq<char>) -> Seq<char> {
    "hashing the published content failed: "@ + m
}

pub open spec fn retention_failed_message(m: Seq<char>) -> Seq<char> {
    "retention failed: "@ + m
}

/// Whether `event` answers the step a run waits in; a failure answers any
/// step but the last.
pub open spec fn answers(stage: Stage, event: Event) -> bool {
    match event {
        Event::Failed { .. } => stage != Stage::Finished,
        Event::Synced { .. } => stage == Stage::Syncing,
        Event::Assembled { .. } => stage == Stage::Assembling,
        Event::HooksDone { .. } => stage == Stage::PreBuild || stage == Stage::PostBuild
            || stage == Stage::PostPublish,
        Event::Built => stage == Stage::Building,
        Event::OutputChecked { .. } => stage == Stage::CheckingOutput,
        Event::Moved { .. } => stage == Stage::Moving,
        Event::Judged { .. } => stage == Stage::Gating,
        Event::Swapped => stage == Stage::Publishing,
        Event::Hashed { .. } => stage == Stage::Hashing,
        Event::Retained => stage == Stage::Retaining,
    }
}

/// Whether a run skips the build: nothing changed, the trigger does not force
/// a build, and a release is already published.
pub open spec fn skips(changed: bool, trigger: Seq<char>, had_release: bool) -> bool {
    !changed && !forces_build(trigger) && had_release
}

/// Only a run that found nothing changed, with a release already published,
/// and started by a trigger other than `timer` or `manual` is skipped: a
/// manual or timer build always rebuilds, and an ordinary trigger skips
/// exactly when nothing changed and a release exists.
pub proof fn lemma_only_unforced_unchanged_runs_skip(changed: bool, trigger: Seq<char>, had_release: bool)
    ensures
        !skips(changed, "manual"@, had_release),
        !skips(changed, "timer"@, had_release),
        skips(changed, trigger, had_release) ==> !changed && had_release && trigger != "manual"@
            && trigger != "timer"@,
        (trigger != "manual"@ && trigger != "timer"@) ==> (skips(changed, trigger, had_release) <==> (
        !changed && had_release)),
{
}

impl PipelineRun {
    /// The action the run waits to see performed.
    pub open spec fn pending(&self) -> Action {
        match self.stage {
            Stage::Syncing => Action::Sync,
            Stage::Assembling => Action::Assemble,
            Stage::PreBuild => Action::RunHooks { phase: Phase::PreBuild },
            Stage::Building => Action::Build,
            Stage::CheckingOutput => Action::CheckOutput,
            Stage::PostBuild => Action::RunHooks { phase: Phase::PostBuild },
            Stage::Moving => Action::Move,
            Stage::Gating => Action::Judge,
            Stage::Publishing => Action::Swap,
            Stage::Hashing => Action::HashContent,
            Stage::PostPublish => Action::RunHooks { phase: Phase::PostPublish },
            Stage::Retaining => Action::Retain,
            Stage::Finished => Action::Finish,
        }
    }

    /// The run's invariant: what is published was accepted by the publish gate and
    /// swapped in; nothing is published before the swap step.
    pub open spec fn wf(&self) -> bool {
        &&& self.outcome.published ==> self.gate_passed
        &&& self.outcome.published ==> self.outcome.release is Some
        &&& self.outcome.published ==> rank(self.stage) >= rank(Stage::Hashing) || (
        self.stage == Stage::Finished)
        &&& rank(self.stage) <= rank(Stage::Publishing) ==> !self.outcome.published
        &&& (self.stage == Stage::Hashing || self.stage == Stage::PostPublish) ==> self.outcome.published
        &&& self.stage == Stage::Publishing ==> self.gate_passed && self.outcome.release is Some
        &&& self.gate_passed ==> self.outcome.violations@.len() == 0
        &&& rank(self.stage) <= rank(Stage::Gating) ==> self.outcome.violations@.len() == 0
        &&& rank(self.stage) <= rank(Stage::Gating) ==> !self.gate_passed
        &&& rank(self.stage) >= rank(Stage::Gating) && self.stage != Stage::Finished
            ==> self.outcome.release is Some
        &&& self.failure is Some ==> self.stage == Stage::Finished
        &&& self.failure is Some ==> !self.outcome.published
        &&& self.outcome.skipped ==> self.stage == Stage::Finished && !self.outcome.published
        &&& self.outcome.skipped ==> self.outcome.release is None && !self.gate_passed
        &&& (self.outcome.release is Some) == (self.release_dir is Some)
        &&& rank(self.stage) <= rank(Stage::Moving) ==> self.outcome.release is None
        &&& self.stage == Stage::Syncing ==> self.changed is None
        &&& (self.changed is None && self.stage != Stage::Syncing) ==> (self.failure matches Some(f)
            && f.stage == Stage::Syncing)
        &&& self.outcome.skipped <==> (self.changed matches Some(c) && skips(
            c,
            self.outcome.trigger@,
            self.had_release,
        ))
    }

    /// Starts a run for `trigger`.
    pub fn start(trigger: &str, had_release: bool, out_dir: &str) -> (res: (PipelineRun, Action))
        ensures
            res.0.wf(),
            res.0.stage == Stage::Syncing,
            res.1 == Action::Sync,
            res.0.outcome.trigger@ == trigger@,
            res.0.outcome.release is None,
            res.0.outcome.pages == 0,
            !res.0.outcome.published,
            !res.0.outcome.skipped,
            res.0.outcome.warnings@.len() == 0,
            res.0.outcome.violations@.len() == 0,
            res.0.outcome.conflict_copies@.len() == 0,
            res.0.had_release == had_release,
            res.0.out_dir@ == out_dir@,
            res.0.failure is None,
            !res.0.gate_passed,
            res.0.changed is None,
            res.0.release_dir is None,
            res.0.prev_dir is None,
            res.0.prev_pages is None,
            res.0.content_hash is None,
    {
        let run = PipelineRun {
            stage: Stage::Syncing,
            outcome: Outcome {
                trigger: owned(trigger),
                release: None,
                pages: 0,
                published: false,
                skipped: false,
                warnings: Vec::new(),
                violations: Vec::new(),
                conflict_copies: Vec::new(),
            },
            had_release,
            changed: None,
            out_dir: owned(out_dir),
            prev_dir: None,
            prev_pages: None,
            release_dir: None,
            gate_passed: false,
            content_hash: None,
            failure: None,
        };
        (run, Action::Sync)
    }

    fn fail(&mut self, message: String)
        requires
            old(self).wf(),
            rank(old(self).stage) < rank(Stage::Finished),
            !old(self).outcome.published,
        ensures
            final(self).wf(),
            final(self).stage == Stage::Finished,
            final(self).failure matches Some(f) && f.stage == old(self).stage && f.message@ == message@,
            final(self).outcome == old(self).outcome,
            final(self).gate_passed == old(self).gate_passed,
            final(self).content_hash == old(self).content_hash,
            final(self).release_dir == old(self).release_dir,
            final(self).prev_dir == old(self).prev_dir,
            final(self).prev_pages == old(self).prev_pages,
            final(self).had_release == old(self).had_release,
            final(self).changed == old(self).changed,
            final(self).out_dir == old(self).out_dir,
    {
        self.failure = Some(Failure { stage: self.stage, message });
        self.stage = Stage::Finished;
    }

    /// Takes the result of the pending action and returns the next one.
    ///
    /// An event that does not answer the pending action leaves the run as it
    /// is and asks for the same action again.
    pub fn advance(&mut self, event: Event) -> (res: Action)
        requires
            old(self).wf(),
        ensures
            final(self).wf(),
            res == final(self).pending(),
            // Steps only ever move forward, in the documented order.
            rank(final(self).stage) >= rank(old(self).stage),
            final(self).stage != old(self).stage ==> final(self).stage == Stage::Finished || rank(
                final(self).stage,
            ) == rank(old(self).stage) + 1 || (old(self).stage == Stage::Gating
                && final(self).stage == Stage::Retaining),
            final(self).outcome.trigger == old(self).outcome.trigger,
            final(self).had_release == old(self).had_release,
            final(self).out_dir == old(self).out_dir,
            // A finished run stays finished.
            old(self).stage == Stage::Finished ==> *final(self) == *old(self),
            // An event that does not answer the pending step changes nothing.
            !answers(old(self).stage, event) ==> *final(self) == *old(self),
            // What each step records stays as it was recorded.
            !(old(self).stage == Stage::Syncing && event is Synced) ==> final(self).outcome.skipped
                == old(self).outcome.skipped && final(self).changed == old(self).changed
                && final(self).outcome.conflict_copies == old(self).outcome.conflict_copies,
            !(old(self).stage == Stage::Assembling && event is Assembled) ==> final(self).prev_dir
                == old(self).prev_dir && final(self).prev_pages == old(self).prev_pages,
            !(old(self).stage == Stage::Moving && event is Moved) ==> final(self).release_dir
                == old(self).release_dir && final(self).outcome.release == old(self).outcome.release,
            !(old(self).stage == Stage::Gating && event is Judged) ==> final(self).gate_passed
                == old(self).gate_passed && final(self).outcome.violations
                == old(self).outcome.violations && final(self).outcome.pages == old(self).outcome.pages,
            !(old(self).stage == Stage::Hashing && event is Hashed) ==> final(self).content_hash
                == old(self).content_hash,
            // The swap is asked for only for a release the publish gate accepted.
            res == Action::Swap ==> final(self).gate_passed && final(self).outcome.violations@.len() == 0,
            // post_publish is asked for only once the swap succeeded.
            res == (Action::RunHooks { phase: Phase::PostPublish }) ==> final(self).outcome.published,
            // The release is published exactly by a successful swap, and then
            // the run goes on to hash the content.
            final(self).outcome.published != old(self).outcome.published ==> old(self).stage
                == Stage::Publishing && event is Swapped,
            event is Swapped && old(self).stage == Stage::Publishing ==> final(self).outcome.published
                && final(self).stage == Stage::Hashing,
            // A failure before the swap leaves the served release as it was.
            event is Failed && rank(old(self).stage) <= rank(Stage::Publishing) ==> !final(self).outcome.published,
            // Once the release is live, a failure is a warning and the run goes on:
            // post_publish follows a failed hash; a failed post_publish or
            // retention leaves a published outcome.
            event matches Event::Failed { message } ==> (old(self).stage == Stage::Hashing ==> (
            final(self).stage == Stage::PostPublish && final(self).failure is None && strs(
                final(self).outcome.warnings@,
            ) == strs(old(self).outcome.warnings@).push(hash_failed_message(message@)))),
            event matches Event::Failed { message } ==> (old(self).stage == Stage::PostPublish ==> (
            final(self).stage == Stage::Retaining && final(self).failure is None && strs(
                final(self).outcome.warnings@,
            ) == strs(old(self).outcome.warnings@).push(post_publish_failed_message(message@)))),
            event matches Event::Failed { message } ==> (old(self).stage == Stage::Retaining
                && old(self).outcome.published ==> (final(self).stage == Stage::Finished
                && final(self).failure is None && strs(final(self).outcome.warnings@) == strs(
                old(self).outcome.warnings@,
            ).push(retention_failed_message(message@)))),
            // Any other failure ends the run in its step.
            event matches Event::Failed { message } ==> (rank(old(self).stage) < rank(
                Stage::Finished,
            ) && !old(self).outcome.published ==> (final(self).stage == Stage::Finished
                && (final(self).failure matches Some(f) && f.stage == old(self).stage
                && f.message@ == message@))),
            // Nothing changed and nothing forces a build: the run is skipped.
            event matches Event::Synced { changed, conflict_copies } ==> (old(self).stage
                == Stage::Syncing ==> (strs(final(self).outcome.conflict_copies@) == strs(
                conflict_copies@) && final(self).changed == Some(changed) && (final(self).outcome.skipped
                <==> skips(changed, old(self).outcome.trigger@, old(self).had_release)) && (
            final(self).stage == if skips(changed, old(self).outcome.trigger@, old(self).had_release) {
                Stage::Finished
            } else {
                Stage::Assembling
            }))),
            event matches Event::Assembled { prev_dir, prev_pages } ==> (old(self).stage
                == Stage::Assembling ==> (final(self).stage == Stage::PreBuild && final(self).prev_dir
                == prev_dir && final(self).prev_pages == prev_pages)),
            // Hook warnings are collected in order, and each phase leads to the next step.
            event matches Event::HooksDone { warnings } ==> ((old(self).stage == Stage::PreBuild
                || old(self).stage == Stage::PostBuild || old(self).stage == Stage::PostPublish) ==> strs(
                final(self).outcome.warnings@,
            ) == strs(old(self).outcome.warnings@) + strs(warnings@)),
            event is HooksDone && old(self).stage == Stage::PreBuild ==> final(self).stage == Stage::Building,
            event is HooksDone && old(self).stage == Stage::PostBuild ==> final(self).stage == Stage::Moving,
            event is HooksDone && old(self).stage == Stage::PostPublish ==> final(self).stage
                == Stage::Retaining,
            event is Built && old(self).stage == Stage::Building ==> final(self).stage
                == Stage::CheckingOutput,
            // A missing output directory ends the run.
            event matches Event::OutputChecked { present } ==> (old(self).stage == Stage::CheckingOutput
                ==> (if present {
                final(self).stage == Stage::PostBuild
            } else {
                final(self).stage == Stage::Finished && (final(self).failure matches Some(f)
                    && f.message@ == no_output_message(old(self).out_dir@))
            })),
            event matches Event::Moved { release_id, release_dir } ==> (old(self).stage == Stage::Moving
                ==> (final(self).stage == Stage::Gating && final(self).outcome.release == Some(
                release_id) && final(self).release_dir == Some(release_dir))),
            // The publish gate's verdict decides between the swap and retention alone.
            event matches Event::Judged { verdict } ==> (old(self).stage == Stage::Gating ==> (
            final(self).outcome.pages == verdict.pages && strs(final(self).outcome.warnings@)
                == strs(old(self).outcome.warnings@) + strs(verdict.warnings@) && (if verdict.violations@.len()
                == 0 {
                final(self).stage == Stage::Publishing && final(self).gate_passed
            } else {
                final(self).stage == Stage::Retaining && !final(self).gate_passed && strs(
                    final(self).outcome.violations@,
                ) == strs(verdict.violations@)
            }))),
            event matches Event::Hashed { hash } ==> (old(self).stage == Stage::Hashing ==> (
            final(self).stage == Stage::PostPublish && final(self).content_hash == Some(hash))),
            event is Retained && old(self).stage == Stage::Retaining ==> final(self).stage
                == Stage::Finished && final(self).failure is None,
    {
        if self.stage == Stage::Finished {
            return Action::Finish;
        }
        match event {
            Event::Failed { message } => {
                if self.stage == Stage::Hashing {
                    let mut m: Vec<char> = Vec::new();
                    push_str(&mut m, "hashing the published content failed: ");
                    push_str(&mut m, message.as_str());
                    push_string(&mut self.outcome.warnings, string_from_chars(&m));
                    self.stage = Stage::PostPublish;
                } else if self.stage == Stage::PostPublish {
                    let mut m: Vec<char> = Vec::new();
                    push_str(&mut m, "post_publish failed: ");
                    push_str(&mut m, message.as_str());
                    push_string(&mut self.outcome.warnings, string_from_chars(&m));
                    self.stage = Stage::Retaining;
                } else if self.stage == Stage::Retaining && self.outcome.published {
                    let mut m: Vec<char> = Vec::new();
                    push_str(&mut m, "retention failed: ");
                    push_str(&mut m, message.as_str());
                    push_string(&mut self.outcome.warnings, string_from_chars(&m));
                    self.stage = Stage::Finished;
                } else {
                    self.fail(message);
                }
            },
            Event::Synced { changed, conflict_copies } => {
                if self.stage == Stage::Syncing {
                    self.outcome.conflict_copies = conflict_copies;
                    self.changed = Some(changed);
                    let forced = str_eq(self.outcome.trigger.as_str(), "timer") || str_eq(
                        self.outcome.trigger.as_str(),
                        "manual",
                    );
                    // A timer run rebuilds even without content changes: that is
                    // the whole point of having one, since hooks pull data from
                    // outside.
                    if !changed && !forced && self.had_release {
                        self.outcome.skipped = true;
                        self.stage = Stage::Finished;
                    } else {
                        self.stage = Stage::Assembling;
                    }
                }
            },
            Event::Assembled { prev_dir, prev_pages } => {
                if self.stage == Stage::Assembling {
                    self.prev_dir = prev_dir;
                    self.prev_pages = prev_pages;
                    self.stage = Stage::PreBuild;
                }
            },
            Event::HooksDone { warnings } => {
                if self.stage == Stage::PreBuild {
                    extend_strings(&mut self.outcome.warnings, &warnings);
                    self.stage = Stage::Building;
                } else if self.stage == Stage::PostBuild {
                    extend_strings(&mut self.outcome.warnings, &warnings);
                    self.stage = Stage::Moving;
                } else if self.stage == Stage::PostPublish {
                    extend_strings(&mut self.outcome.warnings, &warnings);
                    self.stage = Stage::Retaining;
                }
            },
            Event::Built => {
                if self.stage == Stage::Building {
                    self.stage = Stage::CheckingOutput;
                }
            },
            Event::OutputChecked { present } => {
                if self.stage == Stage::CheckingOutput {
                    if present {
                        self.stage = Stage::PostBuild;
                    } else {
                        let mut m: Vec<char> = Vec::new();
                        push_str(&mut m, "the build produced no output directory at ");
                        push_str(&mut m, self.out_dir.as_str());
                        push_str(&mut m, " \u{2014} check build.output");
                        self.fail(string_from_chars(&m));
                    }
                }
            },
            Event::Moved { release_id, release_dir } => {
                if self.stage == Stage::Moving {
                    self.outcome.release = Some(release_id);
                    self.release_dir = Some(release_dir);
                    self.stage = Stage::Gating;
                }
            },
            Event::Judged { verdict } => {
                if self.stage == Stage::Gating {
                    self.outcome.pages = verdict.pages;
                    extend_strings(&mut self.outcome.warnings, &verdict.warnings);
                    if verdict.passed() {
                        self.gate_passed = true;
                        self.stage = Stage::Publishing;
                    } else {
                        self.outcome.violations = verdict.violations;
                        // The release stays on disk for inspection; retention
                        // will clear it.
                        self.stage = Stage::Retaining;
                    }
                }
            },
            Event::Swapped => {
                if self.stage == Stage::Publishing {
                    self.outcome.published = true;
                    self.stage = Stage::Hashing;
                }
            },
            Event::Hashed { hash } => {
                if self.stage == Stage::Hashing {
                    self.content_hash = Some(hash);
                    self.stage = Stage::PostPublish;
                }
            },
            Event::Retained => {
                if self.stage == Stage::Retaining {
                    self.stage = Stage::Finished;
                }
            },
        }
        match self.stage {
            Stage::Syncing => Action::Sync,
            Stage::Assembling => Action::Assemble,
            Stage::PreBuild => Action::RunHooks { phase: Phase::PreBuild },
            Stage::Building => Action::Build,
            Stage::CheckingOutput => Action::CheckOutput,
            Stage::PostBuild => Action::RunHooks { phase: Phase::PostBuild },
            Stage::Moving => Action::Move,
            Stage::Gating => Action::Judge,
            Stage::Publishing => Action::Swap,
            Stage::Hashing => Action::HashContent,
            Stage::PostPublish => Action::RunHooks { phase: Phase::PostPublish },
            Stage::Retaining => Action::Retain,
            Stage::Finished => Action::Finish,
        }
    }

    /// The environment for the hooks of `phase`: `post_publish` sees the new
    /// release, every phase sees the release that was served before.
    pub fn hook_env(&self, config: &Config, phase: Phase) -> (res: StrMap)
        ensures
            res.pairs() == crate::config::hook_env_pairs(
                config,
                if phase == Phase::PostPublish {
                    match self.release_dir {
                        Some(d) => Some(d@),
                        None => None,
                    }
                } else {
                    None
                },
                match self.prev_dir {
                    Some(d) => Some(d@),
                    None => None,
                },
                self.outcome.trigger@,
            ),
    {
        let release = if phase == Phase::PostPublish {
            match &self.release_dir {
                Some(d) => Some(d.as_str()),
                None => None,
            }
        } else {
            None
        };
        let prev = match &self.prev_dir {
            Some(d) => Some(d.as_str()),
            None => None,
        };
        hook_env(config, release, prev, self.outcome.trigger.as_str())
    }

    /// The release the persisted state should record as published, if any.
    pub fn published_release(&self) -> (res: Option<String>)
        ensures
            res == (if self.outcome.published { self.outcome.release } else { None }),
    {
        if self.outcome.published {
            self.outcome.release.clone()
        } else {
            None
        }
    }

    /// The result of a finished run.
    pub fn result(self) -> (res: Option<Result<Outcome, Failure>>)
        requires
            self.wf(),
        ensures
            self.stage != Stage::Finished ==> res is None,
            self.stage == Stage::Finished && self.failure is None ==> res == Some(
                Ok::<Outcome, Failure>(self.outcome),
            ),
            self.stage == Stage::Finished && self.failure is Some ==> res == Some(
                Err::<Outcome, Failure>(self.failure->0),
            ),
    {
        if self.stage != Stage::Finished {
            return None;
        }
        match self.failure {
            Some(f) => Some(Err(f)),
            None => Some(Ok(self.outcome)),
        }
    }
}

/// A release the publish gate refused is never published: once a verdict's
/// violations are recorded, the swap has not happened and will not be asked
/// for, and the served release stays as it was.
pub proof fn lemma_refused_release_is_not_published(run: PipelineRun)
    requires
        run.wf(),
        run.outcome.violations@.len() > 0,
    ensures
        !run.gate_passed,
        !run.outcome.published,
        run.pending() != Action::Swap,
{
}

/// What a finished run holds: one that ends without failure was skipped
/// exactly when the sync found nothing changed, the trigger forces no build
/// and a release was already published; a skipped run built and published
/// nothing; a run that ends in failure never published; a published run
/// published the release the publish gate accepted, from the directory it
/// was moved to.
pub proof fn lemma_finished_run(run: PipelineRun)
    requires
        run.wf(),
        run.stage == Stage::Finished,
    ensures
        run.failure is None ==> (run.changed matches Some(c) && (run.outcome.skipped <==> skips(
            c,
            run.outcome.trigger@,
            run.had_release,
        ))),
        run.outcome.skipped ==> !run.outcome.published && run.outcome.release is None,
        run.failure is Some ==> !run.outcome.published,
        run.outcome.published ==> run.gate_passed && run.outcome.release is Some && run.release_dir is Some
            && run.outcome.violations@.len() == 0,
{
}

} // verus!
