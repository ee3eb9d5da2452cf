use ncpages::gate::Verdict;
use ncpages::hooks::Phase;
use ncpages::pipeline::{Action, Event, Outcome, PipelineRun, Stage};

fn verdict(pages: usize, violations: Vec<&str>) -> Verdict {
    Verdict {
        violations: violations.into_iter().map(String::from).collect(),
        warnings: vec![],
        pages,
    }
}

fn run_to_gate(trigger: &str) -> PipelineRun {
    let (mut run, _) = PipelineRun::start(trigger, true, "/work/build/site");
    run.advance(Event::Synced { changed: true, conflict_copies: vec![] });
    run.advance(Event::Assembled {
        prev_dir: Some("/work/publish/releases/20260814T101500Z".into()),
        prev_pages: Some(46),
    });
    run.advance(Event::HooksDone { warnings: vec![] });
    run.advance(Event::Built);
    run.advance(Event::OutputChecked { present: true });
    run.advance(Event::HooksDone { warnings: vec![] });
    let action = run.advance(Event::Moved {
        release_id: "20260815T101500Z".into(),
        release_dir: "/work/publish/releases/20260815T101500Z".into(),
    });
    assert_eq!(action, Action::Judge);
    run
}

#[test]
fn phases_run_in_the_documented_order() {
    let (mut run, first) = PipelineRun::start("manual", false, "/out");
    let mut actions = vec![first];
    actions.push(run.advance(Event::Synced { changed: false, conflict_copies: vec![] }));
    actions.push(run.advance(Event::Assembled { prev_dir: None, prev_pages: None }));
    actions.push(run.advance(Event::HooksDone { warnings: vec![] }));
    actions.push(run.advance(Event::Built));
    actions.push(run.advance(Event::OutputChecked { present: true }));
    actions.push(run.advance(Event::HooksDone { warnings: vec![] }));
    actions.push(run.advance(Event::Moved { release_id: "r".into(), release_dir: "/p/r".into() }));
    actions.push(run.advance(Event::Judged { verdict: verdict(3, vec![]) }));
    actions.push(run.advance(Event::Swapped));
    actions.push(run.advance(Event::Hashed { hash: "h".into() }));
    actions.push(run.advance(Event::HooksDone { warnings: vec![] }));
    actions.push(run.advance(Event::Retained));
    assert_eq!(
        actions,
        vec![
            Action::Sync,
            Action::Assemble,
            Action::RunHooks { phase: Phase::PreBuild },
            Action::Build,
            Action::CheckOutput,
            Action::RunHooks { phase: Phase::PostBuild },
            Action::Move,
            Action::Judge,
            Action::Swap,
            Action::HashContent,
            Action::RunHooks { phase: Phase::PostPublish },
            Action::Retain,
            Action::Finish,
        ],
        "phases must run in the documented order"
    );
    let outcome = run.result().unwrap().unwrap();
    assert!(outcome.published);
    assert_eq!(outcome.summary(), "published r (3 pages)");
}

#[test]
fn a_refused_gate_goes_straight_to_retention() {
    let mut run = run_to_gate("manual");
    let action = run.advance(Event::Judged { verdict: verdict(1, vec!["page count dropped 98% (46 → 1), limit is 40%"]) });
    assert_eq!(action, Action::Retain, "irreversible phase ran after a refused gate");
    assert_eq!(run.advance(Event::Retained), Action::Finish);
    let outcome: Outcome = run.result().unwrap().unwrap();
    assert!(!outcome.published);
    assert_eq!(outcome.summary(), "gate refused: page count dropped 98% (46 → 1), limit is 40%");
}

#[test]
fn a_failed_step_before_the_swap_leaves_the_live_site() {
    let (mut run, _) = PipelineRun::start("poll", true, "/out");
    run.advance(Event::Synced { changed: true, conflict_copies: vec![] });
    run.advance(Event::Assembled { prev_dir: None, prev_pages: None });
    let action = run.advance(Event::Failed { message: "pre_build: hook record.sh aborted".into() });
    assert_eq!(action, Action::Finish);
    let failure = run.result().unwrap().unwrap_err();
    assert_eq!(failure.stage, Stage::PreBuild);
    assert!(failure.message.contains("aborted"));
}

#[test]
fn a_failed_post_publish_is_a_warning_on_a_live_site() {
    let mut run = run_to_gate("poll");
    run.advance(Event::Judged { verdict: verdict(46, vec![]) });
    run.advance(Event::Swapped);
    run.advance(Event::Hashed { hash: "h".into() });
    assert_eq!(run.advance(Event::Failed { message: "webmention timeout".into() }), Action::Retain);
    run.advance(Event::Retained);
    let outcome = run.result().unwrap().unwrap();
    assert!(outcome.published);
    assert_eq!(outcome.warnings, vec!["post_publish failed: webmention timeout".to_string()]);
}

#[test]
fn an_unchanged_vault_does_not_rebuild_but_a_timer_does() {
    let (mut run, _) = PipelineRun::start("poll", true, "/out");
    assert_eq!(run.advance(Event::Synced { changed: false, conflict_copies: vec![] }), Action::Finish);
    assert!(run.result().unwrap().unwrap().skipped);
    let (mut timer, _) = PipelineRun::start("timer", true, "/out");
    assert_eq!(timer.advance(Event::Synced { changed: false, conflict_copies: vec![] }), Action::Assemble);
}

#[test]
fn a_missing_output_directory_ends_the_run() {
    let (mut run, _) = PipelineRun::start("manual", true, "/work/build/site");
    run.advance(Event::Synced { changed: true, conflict_copies: vec![] });
    run.advance(Event::Assembled { prev_dir: None, prev_pages: None });
    run.advance(Event::HooksDone { warnings: vec![] });
    run.advance(Event::Built);
    run.advance(Event::OutputChecked { present: false });
    let failure = run.result().unwrap().unwrap_err();
    assert_eq!(
        failure.message,
        "the build produced no output directory at /work/build/site — check build.output"
    );
}

#[test]
fn hooks_see_the_previous_release_and_post_publish_the_new_one() {
    let mut run = run_to_gate("poll");
    let config = ncpages::config::Config::new(
        1,
        ncpages::config::Source::new(ncpages::config::SourceKind::Fs, "/v"),
    );
    let pre = run.hook_env(&config, Phase::PreBuild);
    assert_eq!(pre.get("NCPAGES_PREV_DIR"), Some("/work/publish/releases/20260814T101500Z".to_string()));
    assert_eq!(pre.get("NCPAGES_RELEASE_DIR"), Some(String::new()));
    run.advance(Event::Judged { verdict: verdict(46, vec![]) });
    run.advance(Event::Swapped);
    let post = run.hook_env(&config, Phase::PostPublish);
    assert_eq!(post.get("NCPAGES_RELEASE_DIR"), Some("/work/publish/releases/20260815T101500Z".to_string()));
    assert_eq!(run.published_release(), Some("20260815T101500Z".to_string()));
}

#[test]
fn a_failed_hash_after_the_swap_still_reports_the_publish() {
    let mut run = run_to_gate("poll");
    run.advance(Event::Judged { verdict: verdict(46, vec![]) });
    run.advance(Event::Swapped);
    let action = run.advance(Event::Failed { message: "read error".into() });
    assert_eq!(action, Action::RunHooks { phase: Phase::PostPublish });
    assert_eq!(run.advance(Event::HooksDone { warnings: vec![] }), Action::Retain);
    assert_eq!(run.advance(Event::Retained), Action::Finish);
    let outcome = run.result().unwrap().unwrap();
    assert!(outcome.published);
    assert_eq!(outcome.release, Some("20260815T101500Z".to_string()));
    assert_eq!(outcome.warnings, vec!["hashing the published content failed: read error".to_string()]);
}

#[test]
fn a_failed_retention_after_the_swap_is_a_warning() {
    let mut run = run_to_gate("manual");
    run.advance(Event::Judged { verdict: verdict(46, vec![]) });
    run.advance(Event::Swapped);
    run.advance(Event::Hashed { hash: "h".into() });
    run.advance(Event::HooksDone { warnings: vec![] });
    assert_eq!(run.advance(Event::Failed { message: "permission denied".into() }), Action::Finish);
    let outcome = run.result().unwrap().unwrap();
    assert!(outcome.published);
    assert_eq!(outcome.warnings, vec!["retention failed: permission denied".to_string()]);
}

#[test]
fn a_collapsed_vault_is_refused_and_the_live_release_stays() {
    let gate = ncpages::config::Gate {
        min_pages: 1,
        require_files: vec!["index.html".to_string()],
        ..Default::default()
    };
    let first = ncpages::gate::evaluate(&gate, 11, &vec![true], None, &vec![]);
    assert!(first.passed());
    let (mut run, _) = PipelineRun::start("manual", true, "/work/build/site");
    run.advance(Event::Synced { changed: true, conflict_copies: vec![] });
    run.advance(Event::Assembled { prev_dir: Some("/p/releases/a".into()), prev_pages: Some(11) });
    run.advance(Event::HooksDone { warnings: vec![] });
    run.advance(Event::Built);
    run.advance(Event::OutputChecked { present: true });
    run.advance(Event::HooksDone { warnings: vec![] });
    run.advance(Event::Moved { release_id: "b".into(), release_dir: "/p/releases/b".into() });
    let second = ncpages::gate::evaluate(&gate, 1, &vec![true], Some(11), &vec![]);
    assert!(second.violations[0].contains("dropped"), "{:?}", second.violations);
    assert_eq!(run.advance(Event::Judged { verdict: second }), Action::Retain);
    assert_eq!(run.advance(Event::Retained), Action::Finish);
    let outcome = run.result().unwrap().unwrap();
    assert!(!outcome.published);
    assert!(outcome.violations[0].contains("dropped"));
}
