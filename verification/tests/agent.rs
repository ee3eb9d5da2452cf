use ncpages::agent::{authorized, build_endpoint, build_reply, plan_build, tail, BuildEnd, BuildPlan, BuildReply, TAIL_LIMIT};
use ncpages::config::{BuildKind, Config, Source, SourceKind};

#[test]
fn long_output_is_truncated_from_the_front() {
    let text = "x".repeat(20_000);
    let out = tail(&text);
    assert!(out.len() < text.len());
    assert!(out.starts_with('…'));
}

#[test]
fn short_output_is_untouched() {
    assert_eq!(tail("boom"), "boom");
}

#[test]
fn truncation_does_not_split_a_character() {
    let text = "ä".repeat(20_000);
    let out = tail(&text);
    assert!(out.chars().filter(|c| *c == 'ä').count() > 0);
}

#[test]
fn the_tail_keeps_exactly_the_limit_of_single_byte_text() {
    let text = format!("{}{}", "a".repeat(100), "b".repeat(TAIL_LIMIT));
    let out = tail(&text);
    assert_eq!(out, format!("…{}", "b".repeat(TAIL_LIMIT)));
}

#[test]
fn text_of_exactly_the_limit_is_kept_whole() {
    let text = "c".repeat(TAIL_LIMIT);
    assert_eq!(tail(&text), text);
}

#[test]
fn a_cut_inside_a_character_moves_to_the_next_boundary() {
    // 4097 two-byte characters: 8194 bytes, so the cut falls two bytes in;
    // the first character is dropped whole.
    let text = "ä".repeat(4097);
    let out = tail(&text);
    assert_eq!(out, format!("…{}", "ä".repeat(4096)));
}

#[test]
fn without_a_token_every_request_may_build() {
    assert!(authorized(None, None));
    assert!(authorized(None, Some("Bearer anything")));
}

#[test]
fn a_token_must_be_presented_as_a_bearer_token() {
    assert!(authorized(Some("s3cret"), Some("Bearer s3cret")));
    assert!(!authorized(Some("s3cret"), Some("Bearer wrong")));
    assert!(!authorized(Some("s3cret"), Some("s3cret")));
    assert!(!authorized(Some("s3cret"), Some("bearer s3cret")));
    assert!(!authorized(Some("s3cret"), None));
}

fn config_with(command: Option<Vec<&str>>) -> Config {
    let mut c = Config::new(1, Source::new(SourceKind::Fs, "/tmp/vault"));
    c.build.kind = BuildKind::Local;
    c.build.command = command.map(|v| v.into_iter().map(String::from).collect());
    c
}

#[test]
fn the_build_runs_the_configured_command() {
    let c = config_with(Some(vec!["zensical", "build", "--clean"]));
    match plan_build(&c, None, None) {
        BuildPlan::Run { program, args } => {
            assert_eq!(program, "zensical");
            assert_eq!(args, vec!["build".to_string(), "--clean".to_string()]);
        }
        other => panic!("{other:?}"),
    }
}

#[test]
fn a_wrong_token_is_refused_before_anything_runs() {
    let c = config_with(Some(vec!["true"]));
    match plan_build(&c, Some("t"), Some("Bearer x")) {
        BuildPlan::Refuse { status, message } => {
            assert_eq!(status, 401);
            assert_eq!(message, "invalid token");
        }
        other => panic!("{other:?}"),
    }
}

#[test]
fn a_missing_or_empty_command_is_a_server_error() {
    match plan_build(&config_with(None), None, None) {
        BuildPlan::Refuse { status, message } => {
            assert_eq!(status, 500);
            assert_eq!(message, "build.command is not configured in the builder");
        }
        other => panic!("{other:?}"),
    }
    match plan_build(&config_with(Some(vec![])), None, None) {
        BuildPlan::Refuse { status, message } => {
            assert_eq!(status, 500);
            assert_eq!(message, "build.command is empty");
        }
        other => panic!("{other:?}"),
    }
}

#[test]
fn build_replies_carry_the_status_and_the_log_tails() {
    match build_reply(BuildEnd::TimedOut, 5) {
        BuildReply::Text { status, message } => {
            assert_eq!(status, 504);
            assert_eq!(message, "build timed out");
        }
        other => panic!("{other:?}"),
    }
    match build_reply(BuildEnd::SpawnFailed { detail: "No such file".into() }, 5) {
        BuildReply::Text { status, message } => {
            assert_eq!(status, 500);
            assert_eq!(message, "spawning build: No such file");
        }
        other => panic!("{other:?}"),
    }
    let end = BuildEnd::Exited {
        code: Some(2),
        success: false,
        stdout: b"built 3 pages".to_vec(),
        stderr: vec![0xff, b'x'],
    };
    match build_reply(end, 1234) {
        BuildReply::Json { status, result } => {
            assert_eq!(status, 422);
            assert_eq!(result.exit_code, 2);
            assert_eq!(result.duration_ms, 1234);
            assert_eq!(result.stdout, "built 3 pages");
            assert_eq!(result.stderr, "\u{fffd}x");
        }
        other => panic!("{other:?}"),
    }
    let killed = BuildEnd::Exited { code: None, success: true, stdout: vec![], stderr: vec![] };
    match build_reply(killed, 0) {
        BuildReply::Json { status, result } => {
            assert_eq!(status, 200);
            assert_eq!(result.exit_code, -1);
        }
        other => panic!("{other:?}"),
    }
}

#[test]
fn the_builder_is_asked_at_its_build_path() {
    assert_eq!(build_endpoint("http://builder:8080/"), "http://builder:8080/build");
    assert_eq!(build_endpoint("http://builder:8080"), "http://builder:8080/build");
}
