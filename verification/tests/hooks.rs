use ncpages::config::Hook;
use ncpages::hooks::{
    child_env, first_line, judge_build_exit, judge_hook_exit, missing_hook, split_command, Env,
    HookVerdict, Phase, PhaseAction, PhaseEvent, PhaseRun,
};
use ncpages::strmap::StrMap;

fn hook(run: &str) -> Hook {
    Hook { run: run.into(), args: vec![], env_passthrough: vec![] }
}

#[test]
fn the_exit_code_decides_what_a_hook_means() {
    assert!(matches!(judge_hook_exit(Phase::PreBuild, "ok.sh", 0, ""), HookVerdict::Passed));
    match judge_hook_exit(Phase::PreBuild, "warn.sh", 1, "api unreachable\nmore") {
        HookVerdict::Warned(m) => assert_eq!(m, "pre_build: warn.sh warned: api unreachable"),
        other => panic!("{other:?}"),
    }
    match judge_hook_exit(Phase::PostBuild, "abort.sh", 2, "boom\n") {
        HookVerdict::Aborted(m) => assert_eq!(m, "post_build: hook abort.sh aborted with exit code 2: boom"),
        other => panic!("{other:?}"),
    }
    match judge_hook_exit(Phase::PostPublish, "sig.sh", -9, "") {
        HookVerdict::Aborted(m) => {
            assert_eq!(m, "post_publish: hook sig.sh aborted with exit code -9: (no output)")
        }
        other => panic!("{other:?}"),
    }
}

#[test]
fn a_build_treats_any_non_zero_exit_as_a_failure() {
    assert!(judge_build_exit(0, "").is_ok());
    assert_eq!(
        judge_build_exit(1, "template error\n").unwrap_err(),
        "build failed with exit code 1: template error"
    );
}

#[test]
fn missing_hooks_name_the_hook_directory() {
    assert_eq!(
        missing_hook(Phase::PreBuild, "absent.sh", "/etc/ncpages/hooks"),
        "pre_build: hook absent.sh not found (hooks live in /etc/ncpages/hooks, never in the vault)"
    );
}

#[test]
fn first_lines_skip_nothing_but_the_rest() {
    assert_eq!(first_line("a\nb"), "a");
    assert_eq!(first_line(""), "(no output)");
}

#[test]
fn an_empty_build_command_is_refused() {
    assert_eq!(split_command(&vec![]).unwrap_err(), "build.command is empty");
    let (p, a) = split_command(&vec!["hugo".into(), "--minify".into()]).unwrap();
    assert_eq!(p, "hugo");
    assert_eq!(a, vec!["--minify".to_string()]);
}

#[test]
fn ambient_environment_does_not_reach_hooks() {
    let mut inherited = StrMap::new();
    inherited.set("PATH", "/opt/bin");
    inherited.set("NCPAGES_TEST_SECRET", "leaked");
    inherited.set("LANG", "C.UTF-8");
    let mut contract = StrMap::new();
    contract.set("NCPAGES_TRIGGER", "manual");
    let env = child_env(Env::Cleared, &inherited, &contract, &["LANG".to_string()], &[]);
    assert_eq!(env.get("NCPAGES_TEST_SECRET"), None);
    assert_eq!(env.get("PATH"), Some("/opt/bin".to_string()));
    assert_eq!(env.get("LANG"), Some("C.UTF-8".to_string()));
    assert_eq!(env.get("NCPAGES_TRIGGER"), Some("manual".to_string()));
}

#[test]
fn the_build_inherits_the_environment_but_never_the_secrets() {
    let mut inherited = StrMap::new();
    inherited.set("NCPAGES_TEST_GENERATOR_VAR", "needed");
    inherited.set("NCPAGES_TEST_SECRET_VAR", "secret");
    let contract = StrMap::new();
    let env = child_env(
        Env::Inherited,
        &inherited,
        &contract,
        &[],
        &["NCPAGES_TEST_SECRET_VAR".to_string()],
    );
    assert_eq!(env.get("NCPAGES_TEST_GENERATOR_VAR"), Some("needed".to_string()));
    assert_eq!(env.get("NCPAGES_TEST_SECRET_VAR"), None);
}

#[test]
fn a_phase_collects_warnings_and_stops_at_an_abort() {
    let hooks = vec![hook("nav.py"), hook("warn.sh"), hook("abort.sh"), hook("never.sh")];
    let (mut run, mut action) = PhaseRun::start(Phase::PreBuild, hooks.len());
    assert_eq!(action, PhaseAction::Probe { index: 0 });
    action = run.advance(PhaseEvent::Probed { exists: true }, &hooks[0], "/h");
    assert_eq!(action, PhaseAction::Execute { index: 0 });
    action = run.advance(PhaseEvent::Exited { code: 0, stderr: String::new() }, &hooks[0], "/h");
    assert_eq!(action, PhaseAction::Probe { index: 1 });
    run.advance(PhaseEvent::Probed { exists: true }, &hooks[1], "/h");
    action = run.advance(PhaseEvent::Exited { code: 1, stderr: "slow api".into() }, &hooks[1], "/h");
    assert_eq!(action, PhaseAction::Probe { index: 2 });
    run.advance(PhaseEvent::Probed { exists: true }, &hooks[2], "/h");
    action = run.advance(PhaseEvent::Exited { code: 2, stderr: "nav aggregation failed".into() }, &hooks[2], "/h");
    assert_eq!(action, PhaseAction::Finish);
    let err = run.result().unwrap().unwrap_err();
    assert!(err.contains("aborted"), "{err}");
    assert_eq!(run.warnings, vec!["pre_build: warn.sh warned: slow api".to_string()]);
}

#[test]
fn a_missing_hook_is_an_error_not_a_skip() {
    let hooks = vec![hook("absent.sh")];
    let (mut run, _) = PhaseRun::start(Phase::PostBuild, 1);
    let action = run.advance(PhaseEvent::Probed { exists: false }, &hooks[0], "/etc/ncpages/hooks");
    assert_eq!(action, PhaseAction::Finish);
    assert!(run.result().unwrap().unwrap_err().contains("not found"));
}

#[test]
fn a_phase_without_hooks_completes_at_once() {
    let (run, action) = PhaseRun::start(Phase::PostPublish, 0);
    assert_eq!(action, PhaseAction::Finish);
    assert!(run.result().unwrap().unwrap().warnings.is_empty());
}
