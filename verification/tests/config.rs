use ncpages::config::{hook_env, secret_value, BuildKind, Config, Source, SourceKind};

fn base() -> Config {
    let mut c = Config::new(1, Source::new(SourceKind::Fs, "/tmp/vault"));
    c.build.kind = BuildKind::Local;
    c.build.command = Some(vec!["true".to_string()]);
    c
}

#[test]
fn defaults_are_the_documented_ones() {
    let c = base();
    assert_eq!(c.triggers.poll_ms, 30_000);
    assert_eq!(c.schedule.debounce_ms, 10_000);
    assert_eq!(c.schedule.max_delay_ms, 120_000);
    assert_eq!(c.publish.keep_releases, 5);
    assert_eq!(c.assemble.source_subdir, "docs");
    assert!(c.validate().is_ok());
}

#[test]
fn hook_directory_inside_the_vault_is_refused() {
    let mut c = base();
    c.paths.src = "/work/src".into();
    c.paths.config_dir = "/work/src/.ncpages".into();
    let err = c.validate().unwrap_err().message();
    assert!(err.contains("refusing to start"), "{err}");
}

#[test]
fn a_config_directory_that_only_looks_inside_is_refused_too() {
    let mut c = base();
    c.paths.src = "/work/src".into();
    c.paths.config_dir = "/etc/../work/src/./cfg".into();
    assert!(c.validate().unwrap_err().message().contains("refusing to start"));
    c.paths.config_dir = "/work/src-config".into();
    assert!(c.validate().is_ok());
}

#[test]
fn the_report_endpoint_is_derived_from_the_source_when_not_given() {
    let c = base();
    assert_eq!(
        c.report.endpoint(Some("https://cloud.example.org/")).as_deref(),
        Some("https://cloud.example.org/index.php/apps/ncpages/api/v1/reports"),
        "installing the app should be enough; no extra configuration"
    );
}

#[test]
fn reporting_to_nextcloud_can_be_switched_off_entirely() {
    let mut c = base();
    c.report.app = false;
    assert_eq!(c.report.endpoint(Some("https://cloud.example.org")), None);
}

#[test]
fn an_explicit_endpoint_wins_over_the_derived_one() {
    let mut c = base();
    c.report.app_url = Some("http://reports.internal/api".into());
    assert_eq!(
        c.report.endpoint(Some("https://cloud.example.org")).as_deref(),
        Some("http://reports.internal/api")
    );
}

#[test]
fn cancelling_builds_is_not_configurable() {
    let mut c = base();
    c.schedule.on_busy = "restart".into();
    assert!(c.validate().is_err());
}

#[test]
fn every_startup_rule_has_its_message() {
    let mut c = base();
    c.schema_version = 2;
    assert_eq!(
        c.validate().unwrap_err().message(),
        "schema_version 2 is not supported by this build (expected 1)"
    );
    let mut c = base();
    c.build.command = None;
    assert_eq!(c.validate().unwrap_err().message(), "build.command is required for kind = \"local\"");
    let mut c = base();
    c.build.kind = BuildKind::Agent;
    assert_eq!(c.validate().unwrap_err().message(), "build.url is required for kind = \"agent\"");
    let mut c = base();
    c.gate.max_page_drop_ppm = 1_000_001;
    assert_eq!(c.validate().unwrap_err().message(), "gate.max_page_drop must be between 0.0 and 1.0");
    let mut c = base();
    c.source.kind = SourceKind::Webdav;
    assert_eq!(c.validate().unwrap_err().message(), "source.url is required for kind = \"webdav\"");
    c.source.url = Some("https://cloud".into());
    assert!(c.validate().unwrap_err().message().starts_with("kind = \"webdav\" needs either"));
    c.source.user = Some("u".into());
    assert_eq!(
        c.validate().unwrap_err().message(),
        "source.user and source.password_file must be given together"
    );
}

fn value(env: &ncpages::strmap::StrMap, name: &str) -> String {
    env.get(name).unwrap()
}

#[test]
fn the_hook_environment_matches_the_documented_contract() {
    let c = base();
    let release = "/work/publish/releases/20260815T101500Z";
    let prev = "/work/publish/releases/20260814T101500Z";
    let env = hook_env(&c, Some(release), Some(prev), "push");

    // Renaming any of these is a breaking change for every recipe.
    assert_eq!(
        env.keys(),
        vec![
            "NCPAGES_BUILD_DIR",
            "NCPAGES_OUT_DIR",
            "NCPAGES_PREV_DIR",
            "NCPAGES_RELEASE_DIR",
            "NCPAGES_SRC_DIR",
            "NCPAGES_TRIGGER",
        ]
    );
    assert_eq!(value(&env, "NCPAGES_TRIGGER"), "push");
    assert_eq!(value(&env, "NCPAGES_RELEASE_DIR"), release);
    assert_eq!(value(&env, "NCPAGES_PREV_DIR"), prev);
    assert!(value(&env, "NCPAGES_OUT_DIR").ends_with("/build/site"));
}

#[test]
fn the_first_build_reports_an_empty_previous_release_rather_than_omitting_it() {
    let env = hook_env(&base(), None, None, "manual");
    assert_eq!(value(&env, "NCPAGES_PREV_DIR"), "");
    assert_eq!(value(&env, "NCPAGES_RELEASE_DIR"), "");
}

#[test]
fn secrets_are_read_from_files_and_trimmed() {
    assert_eq!(secret_value("app-password\n"), "app-password");
    assert_eq!(secret_value("  x y \t\r\n"), "x y");
}

#[test]
fn derived_directories_live_in_the_build_tree() {
    let c = base();
    assert_eq!(c.out_dir(), "/work/build/site");
    assert_eq!(c.content_dir(), "/work/build/docs");
    assert_eq!(c.paths.hooks_dir(), "/etc/ncpages/hooks");
    assert_eq!(c.publish.current(), "/work/publish/current");
}

#[test]
fn the_refused_busy_policy_is_quoted_as_debug_does() {
    let mut c = base();
    c.schedule.on_busy = "re\"start\n".into();
    assert_eq!(
        c.validate().unwrap_err().message(),
        format!(
            "schedule.on_busy = {:?} is not supported; only \"queue_latest\" is. Cancelling a running build can leave a published state whose irreversible post_publish effects half-fired.",
            "re\"start\n"
        )
    );
}

#[test]
fn a_hook_directory_inside_the_watched_folder_is_refused() {
    let mut c = base();
    c.paths.src = "/work/src".into();
    c.paths.config_dir = "/tmp/vault/.ncpages".into();
    let err = c.validate().unwrap_err().message();
    assert!(err.contains("refusing to start"), "{err}");
    assert!(err.contains("/tmp/vault"), "{err}");
    c.paths.config_dir = "/tmp/vault-config".into();
    assert!(c.validate().is_ok());
}
