use ncpages::config::{Config, Source, SourceKind};
use ncpages::scheduler::{next_wake, timer_period, with_jitter, Scheduler, SourceStatus, Trigger};

fn schedule_config() -> Config {
    let mut c = Config::new(1, Source::new(SourceKind::Fs, "/tmp/vault"));
    c.schedule.debounce_ms = 10_000;
    c.schedule.max_delay_ms = 120_000;
    c.build.command = Some(vec!["true".into()]);
    c
}

const NOW: u64 = 1_000_000_000;

#[test]
fn a_quiet_vault_waits_for_the_debounce() {
    let config = schedule_config();
    let wake = next_wake(&config, NOW, Some(NOW), Some(NOW));
    assert!(wake - NOW >= 9_000);
    assert!(wake - NOW <= 11_000);
}

#[test]
fn continuous_editing_still_builds_at_the_hard_deadline() {
    let config = schedule_config();
    let first = NOW - 119_000;
    let last = NOW; // still typing
    let wake = next_wake(&config, NOW, Some(first), Some(last));
    assert!(wake - NOW <= 2_000, "the hard deadline did not cap the debounce");
}

#[test]
fn jitter_only_ever_extends_and_stays_within_bounds() {
    let base = 6 * 3600 * 1000;
    for _ in 0..50 {
        let jittered = timer_period(base, 100_000);
        assert!(jittered >= base);
        assert!(jittered <= base + base / 10);
    }
    assert_eq!(timer_period(base, 0), base);
}

#[test]
fn jitter_is_a_fraction_of_the_configured_spread() {
    assert_eq!(with_jitter(1_000_000, 100_000, 500_000), 1_050_000);
    assert_eq!(with_jitter(1_000_000, 2_000_000, 250_000), 1_250_000);
    assert_eq!(with_jitter(1_000_000, 100_000, 1_999_999), 1_099_999);
}

#[test]
fn without_a_pending_build_the_scheduler_sleeps_an_hour() {
    assert_eq!(next_wake(&schedule_config(), NOW, None, None), NOW + 3_600_000);
}

#[test]
fn a_changed_source_while_down_builds_at_startup() {
    let (s, status) = Scheduler::start(NOW, true, Ok("new"), Some("old"), false).unwrap();
    assert_eq!(status, SourceStatus::Healthy);
    assert!(s.pending());
    assert_eq!(s.trigger, Trigger::Poll);
    let (s, _) = Scheduler::start(NOW, true, Ok("same"), Some("same"), false).unwrap();
    assert!(!s.pending());
    let (s, _) = Scheduler::start(NOW, false, Ok("same"), Some("same"), false).unwrap();
    assert!(s.pending());
    assert_eq!(s.trigger, Trigger::Manual);
}

#[test]
fn an_unreachable_required_source_stops_the_service() {
    assert!(Scheduler::start(NOW, true, Err("down"), None, true).is_err());
    let (_, status) = Scheduler::start(NOW, true, Err("down"), None, false).unwrap();
    assert_eq!(status, SourceStatus::Unreachable);
    assert_eq!(status.as_str(), "unreachable");
}

#[test]
fn events_coalesce_into_one_waiting_build() {
    let (mut s, _) = Scheduler::start(NOW, true, Ok("a"), Some("a"), false).unwrap();
    assert_eq!(s.on_poll(NOW + 1, Ok("b"), Some("a")), SourceStatus::Healthy);
    assert_eq!(s.first_seen, Some(NOW + 1));
    s.on_poll(NOW + 5, Ok("c"), Some("a"));
    assert_eq!(s.first_seen, Some(NOW + 1));
    assert_eq!(s.last_event, Some(NOW + 5));
    assert_eq!(s.on_poll(NOW + 6, Err("timeout"), Some("a")), SourceStatus::Degraded);
    s.on_timer(NOW + 7);
    assert_eq!(s.take(), Trigger::Timer);
    assert!(!s.pending());
    assert_eq!(s.trigger, Trigger::Poll);
    assert_eq!(Trigger::Timer.as_str(), "timer");
}
