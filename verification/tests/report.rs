use ncpages::config::{Config, Source, SourceKind};
use ncpages::pipeline::Outcome;
use ncpages::report::notification;

fn report_config(topic: Option<&str>) -> Config {
    let mut c = Config::new(1, Source::new(SourceKind::Fs, "/tmp/vault"));
    c.build.command = Some(vec!["true".into()]);
    c.report.ntfy_topic = topic.map(str::to_string);
    c
}

fn outcome() -> Outcome {
    Outcome {
        trigger: "poll".into(),
        release: None,
        pages: 0,
        published: true,
        skipped: false,
        warnings: vec![],
        violations: vec![],
        conflict_copies: vec![],
    }
}

#[test]
fn without_a_topic_nothing_is_sent() {
    assert!(notification(&report_config(None), &Ok(outcome())).is_none());
    assert!(notification(&report_config(None), &Err("boom".into())).is_none());
}

#[test]
fn a_successful_publish_is_not_announced() {
    assert!(notification(&report_config(Some("http://127.0.0.1:1/never")), &Ok(outcome())).is_none());
}

#[test]
fn a_failed_build_is_announced_urgently() {
    let n = notification(&report_config(Some("https://ntfy.sh/x")), &Err("sync failed".into())).unwrap();
    assert_eq!(n.topic, "https://ntfy.sh/x");
    assert_eq!(n.title, "ncpages build failed");
    assert_eq!(n.priority, "high");
    assert_eq!(n.body, "sync failed\n\nThe live site is unchanged.");
}

#[test]
fn a_refused_gate_lists_its_violations() {
    let mut o = outcome();
    o.published = false;
    o.violations = vec!["a".into(), "b".into()];
    let n = notification(&report_config(Some("t")), &Ok(o)).unwrap();
    assert_eq!(n.title, "ncpages gate refused a build");
    assert_eq!(n.body, "trigger: poll\na\nb\n\nThe live site is unchanged.");
}

#[test]
fn conflict_copies_are_announced_as_lost_work() {
    let mut o = outcome();
    o.conflict_copies = vec!["note (conflicted copy).md".into()];
    let n = notification(&report_config(Some("t")), &Ok(o)).unwrap();
    assert_eq!(n.title, "ncpages found conflict copies");
    assert_eq!(n.priority, "default");
    assert_eq!(
        n.body,
        "trigger: poll\nExcluded from the build, and a sign that work is about to be lost:\nnote (conflicted copy).md"
    );
}
