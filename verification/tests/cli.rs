use ncpages::cli::{build_failed, check_report, doctor_failed, log_level, LogLevel};
use ncpages::doctor::Level;
use ncpages::pipeline::Outcome;

#[test]
fn log_levels_are_named_in_any_case() {
    assert_eq!(log_level("trace"), LogLevel::Trace);
    assert_eq!(log_level("DEBUG"), LogLevel::Debug);
    assert_eq!(log_level("Warn"), LogLevel::Warn);
    assert_eq!(log_level("error"), LogLevel::Error);
    assert_eq!(log_level(""), LogLevel::Info);
    assert_eq!(log_level("verbose"), LogLevel::Info);
}

#[test]
fn check_names_the_schema_version() {
    assert_eq!(
        check_report("/etc/ncpages/ncpages.toml", 1),
        "/etc/ncpages/ncpages.toml: valid (schema_version 1)"
    );
}

#[test]
fn only_a_refused_build_and_a_failed_check_fail_the_command() {
    let mut o = Outcome {
        trigger: "manual".into(),
        release: None,
        pages: 0,
        published: false,
        skipped: true,
        warnings: vec![],
        violations: vec![],
        conflict_copies: vec![],
    };
    assert!(!build_failed(&o));
    o.skipped = false;
    assert!(build_failed(&o));
    o.published = true;
    assert!(!build_failed(&o));
    assert!(doctor_failed(Level::Fail));
    assert!(!doctor_failed(Level::Warn));
}
