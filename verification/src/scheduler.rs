//! Triggers, debouncing, and the busy policy.
//!
//! All sources feed one decision point. At most one build runs, plus one
//! waiting slot that newer events overwrite — never a cancellation, because an
//! abort between the swap and `post_publish` leaves a state with no clean way
//! back.
//!
//! Times are milliseconds on the service's monotonic clock; the service reads
//! the clock and hands the value in.

use vstd::prelude::*;
use crate::config::Config;
use crate::text::{str_eq};

verus! {

/// The default time to sleep when nothing is pending: one hour.
pub open spec fn idle_wait_ms() -> int {
    3_600_000
}

/// When the pending build should start: after the debounce quiet period, but
/// never later than the hard deadline, and never in the past.
pub open spec fn wake_time(debounce: int, max_delay: int, now: int, first: Option<u64>, last: Option<u64>) -> int {
    match (first, last) {
        (Some(f), Some(l)) => {
            let debounced = l + debounce;
            let hard = f + max_delay;
            let m = if debounced <= hard { debounced } else { hard };
            if m >= now { m } else { now }
        },
        _ => now + idle_wait_ms(),
    }
}

/// Debounce, bounded by the hard deadline: a vault that is being edited
/// continuously still gets built.
pub fn next_wake(config: &Config, now: u64, first_seen: Option<u64>, last_event: Option<u64>) -> (res: u64)
    requires
        now + 3_600_000 <= u64::MAX,
        first_seen matches Some(f) ==> f + config.schedule.max_delay_ms <= u64::MAX,
        last_event matches Some(l) ==> l + config.schedule.debounce_ms <= u64::MAX,
    ensures
        res == wake_time(
            config.schedule.debounce_ms as int,
            config.schedule.max_delay_ms as int,
            now as int,
            first_seen,
            last_event,
        ),
{
    match (first_seen, last_event) {
        (Some(first), Some(last)) => {
            let debounced = last + config.schedule.debounce_ms;
            let hard = first + config.schedule.max_delay_ms;
            let m = if debounced <= hard { debounced } else { hard };
            if m >= now { m } else { now }
        },
        _ => now + 3_600_000,
    }
}

/// The quiet period runs from the latest event: a pending build never wakes
/// before `last + debounce` unless the hard deadline `first + max_delay`
/// comes first. Together with `lemma_wake_bounded` this fixes the wake time:
/// the earlier of the two, or now if both have passed.
pub proof fn lemma_wake_waits_for_quiet(debounce: int, max_delay: int, now: int, first: u64, last: u64)
    ensures
        wake_time(debounce, max_delay, now, Some(first), Some(last)) >= last + debounce
            || wake_time(debounce, max_delay, now, Some(first), Some(last)) >= first + max_delay,
        last + debounce <= first + max_delay ==> wake_time(debounce, max_delay, now, Some(first), Some(last))
            >= last + debounce,
        wake_time(debounce, max_delay, now, None, None) == now + 3_600_000,
{
}

/// The wake never comes after the hard deadline `first + max_delay`
/// (unless that moment has already passed, in which case it is now), and
/// never before now.
pub proof fn lemma_wake_bounded(debounce: int, max_delay: int, now: int, first: u64, last: u64)
    ensures
        wake_time(debounce, max_delay, now, Some(first), Some(last)) >= now,
        wake_time(debounce, max_delay, now, Some(first), Some(last)) <= if first + max_delay >= now {
            first + max_delay
        } else {
            now
        },
        wake_time(debounce, max_delay, now, Some(first), Some(last)) <= if last + debounce >= now {
            last + debounce
        } else {
            now
        },
{
}

/// Parts per million of `base`, rounded down, for `fraction` millionths of
/// the configured `jitter` (itself in parts per million, at most one).
pub open spec fn jittered(base: nat, jitter_ppm: nat, nanos: nat) -> nat {
    let jitter = if jitter_ppm > 1_000_000 { 1_000_000 } else { jitter_ppm };
    let fraction = nanos % 1_000_000;
    base + (base * jitter * fraction) / 1_000_000_000_000
}

/// Spread timer builds across installations so they do not all hit the same
/// external APIs in the same second. `nanos` is the sub-second part of the
/// wall clock, the service's source of spread.
pub fn with_jitter(base_ms: u64, jitter_ppm: u32, nanos: u32) -> (res: u64)
    requires
        base_ms <= u64::MAX / 2,
    ensures
        res == jittered(base_ms as nat, jitter_ppm as nat, nanos as nat),
{
    let jitter: u128 = if jitter_ppm > 1_000_000 { 1_000_000 } else { jitter_ppm as u128 };
    if jitter == 0 {
        assert(jittered(base_ms as nat, jitter_ppm as nat, nanos as nat) == base_ms) by (nonlinear_arith)
            requires
                jitter == 0,
                jitter == (if jitter_ppm > 1_000_000 { 1_000_000 } else { jitter_ppm as int }),
        ;
        return base_ms;
    }
    let fraction = (nanos % 1_000_000) as u128;
    let b = base_ms as u128;
    assert(b * jitter <= 0xffff_ffff_ffff_ffff_u128 * 1_000_000) by (nonlinear_arith)
        requires
            b <= 0xffff_ffff_ffff_ffff_u128,
            jitter <= 1_000_000,
    ;
    assert(b * jitter * fraction <= 0xffff_ffff_ffff_ffff_u128 * 1_000_000 * 1_000_000) by (nonlinear_arith)
        requires
            b * jitter <= 0xffff_ffff_ffff_ffff_u128 * 1_000_000,
            fraction < 1_000_000,
    ;
    let extra = (b * jitter * fraction) / 1_000_000_000_000;
    assert(extra <= b) by (nonlinear_arith)
        requires
            extra == (b * jitter * fraction) / 1_000_000_000_000,
            jitter <= 1_000_000,
            fraction < 1_000_000,
    ;
    (b + extra) as u64
}

/// Jitter only ever extends the period, and by at most `jitter` of it.
pub proof fn lemma_jitter_bounds(base: nat, jitter_ppm: nat, nanos: nat)
    requires
        jitter_ppm <= 1_000_000,
    ensures
        base <= jittered(base, jitter_ppm, nanos),
        jittered(base, jitter_ppm, nanos) * 1_000_000 <= base * (1_000_000 + jitter_ppm),
        jitter_ppm == 0 ==> jittered(base, jitter_ppm, nanos) == base,
{
    let fraction = nanos % 1_000_000;
    let p = base * jitter_ppm * fraction;
    assert(p <= base * jitter_ppm * 1_000_000) by (nonlinear_arith)
        requires
            fraction < 1_000_000,
            p == base * jitter_ppm * fraction,
    ;
    assert((p / 1_000_000_000_000) * 1_000_000 <= base * jitter_ppm) by (nonlinear_arith)
        requires
            p <= base * jitter_ppm * 1_000_000,
    ;
    assert(base * (1_000_000 + jitter_ppm) == base * 1_000_000 + base * jitter_ppm) by (nonlinear_arith);
    if jitter_ppm == 0 {
        assert(p == 0) by (nonlinear_arith)
            requires
                p == base * jitter_ppm * fraction,
                jitter_ppm == 0,
        ;
    }
}

/// The stretch is the configured share of the period, scaled by where the
/// clock stands within its second: it is `base * jitter * fraction`
/// millionths of millionths, rounded down, where `fraction` is the
/// microsecond within the second; a later point in the second never gives a
/// shorter period.
pub proof fn lemma_jitter_is_proportional(base: nat, jitter_ppm: nat, nanos: nat, later: nat)
    requires
        jitter_ppm <= 1_000_000,
        nanos % 1_000_000 <= later % 1_000_000,
    ensures
        jittered(base, jitter_ppm, nanos) >= base,
        (jittered(base, jitter_ppm, nanos) - base) * 1_000_000_000_000 <= base * jitter_ppm * (nanos
            % 1_000_000),
        base * jitter_ppm * (nanos % 1_000_000) < (jittered(base, jitter_ppm, nanos) - base + 1)
            * 1_000_000_000_000,
        jittered(base, jitter_ppm, nanos) <= jittered(base, jitter_ppm, later),
{
    let f = nanos % 1_000_000;
    let g = later % 1_000_000;
    let p = base * jitter_ppm * f;
    let q = base * jitter_ppm * g;
    assert(p <= q) by (nonlinear_arith)
        requires
            f <= g,
            p == base * jitter_ppm * f,
            q == base * jitter_ppm * g,
    ;
    assert(p / 1_000_000_000_000 <= q / 1_000_000_000_000) by (nonlinear_arith)
        requires
            p <= q,
    ;
    assert((p / 1_000_000_000_000) * 1_000_000_000_000 <= p) by (nonlinear_arith);
    assert(p < (p / 1_000_000_000_000 + 1) * 1_000_000_000_000) by (nonlinear_arith);
}

/// The nanoseconds within the current second of the wall clock
/// (`SystemTime::now`, `duration_since(UNIX_EPOCH)`, `subsec_nanos`; zero for a
/// clock before the epoch). Nothing is claimed of the value: it depends on
/// the time of the call.
#[verifier::external_body]
fn clock_subsec_nanos() -> (res: u32) {
    std::time::SystemTime::now().duration_since(std::time::UNIX_EPOCH).map(|d| d.subsec_nanos()).unwrap_or(0)
}

/// The period of the timer trigger: `base_ms` stretched by a part of
/// `jitter_ppm` that the wall clock picks.
pub fn timer_period(base_ms: u64, jitter_ppm: u32) -> (res: u64)
    requires
        base_ms <= u64::MAX / 2,
    ensures
        exists|nanos: nat| res == jittered(base_ms as nat, jitter_ppm as nat, nanos),
        base_ms <= res,
        jitter_ppm <= 1_000_000 ==> res * 1_000_000 <= base_ms * (1_000_000 + jitter_ppm),
        jitter_ppm == 0 ==> res == base_ms,
{
    let nanos = clock_subsec_nanos();
    let res = with_jitter(base_ms, jitter_ppm, nanos);
    proof {
        let j: nat = if jitter_ppm > 1_000_000 { 1_000_000 } else { jitter_ppm as nat };
        lemma_jitter_bounds(base_ms as nat, j, nanos as nat);
        assert(jittered(base_ms as nat, jitter_ppm as nat, nanos as nat) == jittered(base_ms as nat, j, nanos as nat));
    }
    res
}

/// What started a build.
#[derive(Debug, Clone, Copy, PartialEq, Eq, Structural)]
pub enum Trigger {
    Manual,
    Poll,
    Timer,
}

pub open spec fn trigger_name(t: Trigger) -> Seq<char> {
    match t {
        Trigger::Manual => "manual"@,
        Trigger::Poll => "poll"@,
        Trigger::Timer => "timer"@,
    }
}

impl Trigger {
    pub fn as_str(self) -> (res: &'static str)
        ensures
            res@ == trigger_name(self),
    {
        match self {
            Trigger::Manual => "manual",
            Trigger::Poll => "poll",
            Trigger::Timer => "timer",
        }
    }
}

/// How the source looked at the last check, for `/healthz`.
#[derive(Debug, Clone, Copy, PartialEq, Eq, Structural)]
pub enum SourceStatus {
    Starting,
    Healthy,
    /// A periodic check failed; the site is still served.
    Degraded,
    /// The source could not be reached at startup.
    Unreachable,
}

pub open spec fn status_name(s: SourceStatus) -> Seq<char> {
    match s {
        SourceStatus::Starting => "starting"@,
        SourceStatus::Healthy => "ok"@,
        SourceStatus::Degraded => "degraded"@,
        SourceStatus::Unreachable => "unreachable"@,
    }
}

impl SourceStatus {
    pub fn as_str(self) -> (res: &'static str)
        ensures
            res@ == status_name(self),
    {
        match self {
            SourceStatus::Starting => "starting",
            SourceStatus::Healthy => "ok",
            SourceStatus::Degraded => "degraded",
            SourceStatus::Unreachable => "unreachable",
        }
    }
}

/// Whether a probe token differs from the persisted root ETag.
pub open spec fn token_differs(token: Seq<char>, root_etag: Option<Seq<char>>) -> bool {
    root_etag != Some(token)
}

fn token_differs_exec(token: &str, root_etag: Option<&str>) -> (res: bool)
    ensures
        res == token_differs(token@, crate::config::opt_view(root_etag)),
{
    match root_etag {
        Some(e) => !str_eq(e, token),
        None => true,
    }
}

/// The waiting slot: whether a build is pending, since when, the latest event
/// that extended it, and what will be reported as its trigger.
#[derive(Debug, Clone)]
pub struct Scheduler {
    pub first_seen: Option<u64>,
    pub last_event: Option<u64>,
    pub trigger: Trigger,
}

impl Scheduler {
    /// The slot holds one pending build or none, and its two times go together.
    pub open spec fn wf(&self) -> bool {
        &&& (self.first_seen is Some <==> self.last_event is Some)
        &&& self.first_seen matches Some(f) ==> (self.last_event matches Some(l) && f <= l)
    }

    /// Reconciles persisted state against reality at startup.
    ///
    /// `probe` is the source's change token, or the reason it could not be
    /// read. A missing release or a changed token makes a build pending from
    /// `now`. An unreachable source is fatal only if the source is required.
    pub fn start(
        now: u64,
        has_release: bool,
        probe: Result<&str, &str>,
        root_etag: Option<&str>,
        required: bool,
    ) -> (res: Result<(Scheduler, SourceStatus), ()>)
        ensures
            probe is Err && required ==> res is Err,
            !(probe is Err && required) ==> (res matches Ok((s, status)) && s.wf() && (match probe {
                Ok(t) => status == SourceStatus::Healthy && (s.first_seen is Some <==> (!has_release
                    || token_differs(t@, crate::config::opt_view(root_etag)))) && s.trigger == (if token_differs(
                    t@,
                    crate::config::opt_view(root_etag),
                ) {
                    Trigger::Poll
                } else {
                    Trigger::Manual
                }),
                Err(_) => status == SourceStatus::Unreachable && (s.first_seen is Some <==> !has_release)
                    && s.trigger == Trigger::Manual,
            }) && (s.first_seen matches Some(f) ==> f == now)),
    {
        let mut dirty = !has_release;
        let mut trigger = Trigger::Manual;
        let status;
        match probe {
            Ok(token) => {
                if token_differs_exec(token, root_etag) {
                    dirty = true;
                    trigger = Trigger::Poll;
                }
                status = SourceStatus::Healthy;
            },
            Err(_) => {
                if required {
                    return Err(());
                }
                status = SourceStatus::Unreachable;
            },
        }
        let first_seen = if dirty { Some(now) } else { None };
        Ok((Scheduler { first_seen, last_event: first_seen, trigger }, status))
    }

    /// A poll tick. A changed token opens the waiting slot (as a `poll` build)
    /// or extends it; a failed check only degrades the status.
    pub fn on_poll(&mut self, now: u64, probe: Result<&str, &str>, root_etag: Option<&str>) -> (res: SourceStatus)
        requires
            old(self).wf(),
            old(self).last_event matches Some(l) ==> l <= now,
        ensures
            final(self).wf(),
            probe is Err ==> res == SourceStatus::Degraded && *final(self) == *old(self),
            probe matches Ok(t) ==> (res == SourceStatus::Healthy && (if token_differs(t@, crate::config::opt_view(root_etag)) {
                final(self).last_event == Some(now) && (old(self).first_seen is None ==> (
                final(self).first_seen == Some(now) && final(self).trigger == Trigger::Poll))
                    && (old(self).first_seen is Some ==> final(self).first_seen == old(self).first_seen
                    && final(self).trigger == old(self).trigger)
            } else {
                *final(self) == *old(self)
            })),
    {
        match probe {
            Ok(token) => {
                if token_differs_exec(token, root_etag) {
                    if self.first_seen.is_none() {
                        self.first_seen = Some(now);
                        self.trigger = Trigger::Poll;
                    }
                    self.last_event = Some(now);
                }
                SourceStatus::Healthy
            },
            Err(_) => SourceStatus::Degraded,
        }
    }

    /// A timer tick: always a build, reported as `timer`.
    pub fn on_timer(&mut self, now: u64)
        requires
            old(self).wf(),
            old(self).last_event matches Some(l) ==> l <= now,
        ensures
            final(self).wf(),
            final(self).trigger == Trigger::Timer,
            final(self).last_event == Some(now),
            final(self).first_seen == (match old(self).first_seen {
                Some(f) => Some(f),
                None => Some(now),
            }),
    {
        if self.first_seen.is_none() {
            self.first_seen = Some(now);
        }
        self.trigger = Trigger::Timer;
        self.last_event = Some(now);
    }

    /// Whether a build is waiting.
    pub fn pending(&self) -> (res: bool)
        ensures
            res == self.first_seen is Some,
    {
        self.first_seen.is_some()
    }

    /// When to wake for the pending build (or in an hour, when none is).
    pub fn wake_at(&self, config: &Config, now: u64) -> (res: u64)
        requires
            now + 3_600_000 <= u64::MAX,
            self.first_seen matches Some(f) ==> f + config.schedule.max_delay_ms <= u64::MAX,
            self.last_event matches Some(l) ==> l + config.schedule.debounce_ms <= u64::MAX,
        ensures
            res == wake_time(
                config.schedule.debounce_ms as int,
                config.schedule.max_delay_ms as int,
                now as int,
                self.first_seen,
                self.last_event,
            ),
    {
        next_wake(config, now, self.first_seen, self.last_event)
    }

    /// The pending build starts: the slot empties, and the next build will be
    /// reported as `poll` unless something else triggers it.
    pub fn take(&mut self) -> (res: Trigger)
        requires
            old(self).wf(),
        ensures
            final(self).wf(),
            res == old(self).trigger,
            final(self).first_seen is None,
            final(self).last_event is None,
            final(self).trigger == Trigger::Poll,
    {
        let t = self.trigger;
        self.first_seen = None;
        self.last_event = None;
        self.trigger = Trigger::Poll;
        t
    }
}

} // verus!
