use ncpages::config::{BuildKind, Config, Hook, Source, SourceKind};
use ncpages::doctor::{
    check_line, checks, duration_debug, tally, tally_line, Check, FileState, Findings, Level,
    SourceProbe,
};

fn doctor_config() -> Config {
    let mut c = Config::new(1, Source::new(SourceKind::Fs, "/tmp/vault"));
    c.build.kind = BuildKind::Local;
    c.build.command = Some(vec!["true".into()]);
    c
}

fn findings() -> Findings {
    Findings {
        src_exists: true,
        state_exists: false,
        config_dir_exists: true,
        same_filesystem: None,
        publish_write_error: None,
        current_release: Some("/work/publish/releases/r1".into()),
        pre_build_hooks: vec![],
        post_build_hooks: vec![],
        post_publish_hooks: vec![],
        overlay_present: vec![],
        source: SourceProbe::Reachable {
            describe: "/tmp/vault".into(),
            token: "0123456789abcdef".into(),
        },
    }
}

fn find<'a>(all: &'a [Check], name: &str) -> Vec<&'a Check> {
    all.iter().filter(|c| c.name == name).collect()
}

#[test]
fn every_check_says_what_it_found() {
    let all = checks(&doctor_config(), &findings());
    let names: Vec<&str> = all.iter().map(|c| c.name.as_str()).collect();
    assert_eq!(
        names,
        vec![
            "config/overlap",
            "source/read-only",
            "report/app",
            "report/ntfy",
            "paths/src",
            "paths/state",
            "paths/config_dir",
            "publish/filesystem",
            "publish/writable",
            "publish/current",
            "build/isolation",
            "source/reachable",
            "triggers/push",
        ]
    );
    assert_eq!(
        find(&all, "config/overlap")[0].detail,
        "hook directory /etc/ncpages/hooks is outside the working copy /work/src"
    );
    assert_eq!(find(&all, "paths/state")[0].level, Level::Warn);
    assert_eq!(find(&all, "paths/state")[0].detail, "/work/state does not exist yet");
    assert_eq!(find(&all, "publish/current")[0].detail, "current → /work/publish/releases/r1");
    assert_eq!(find(&all, "source/reachable")[0].detail, "/tmp/vault responded, change token 0123456789ab");
    assert_eq!(
        find(&all, "triggers/push")[0].detail,
        "no notify_push configured; changes are detected by polling every 30s"
    );
}

#[test]
fn missing_paths_are_inconclusive_rather_than_a_failure() {
    let all = checks(&doctor_config(), &findings());
    let fs = find(&all, "publish/filesystem");
    assert_eq!(fs[0].level, Level::Warn);
    assert_eq!(fs[0].detail, "cannot compare filesystems yet; both paths need to exist");
}

#[test]
fn hooks_and_overlay_entries_are_checked_in_order() {
    let mut c = doctor_config();
    c.hooks.pre_build = vec![
        Hook { run: "nav.py".into(), args: vec![], env_passthrough: vec![] },
        Hook { run: "gone.sh".into(), args: vec![], env_passthrough: vec![] },
    ];
    c.hooks.post_publish = vec![Hook { run: "ping.sh".into(), args: vec![], env_passthrough: vec![] }];
    c.assemble.overlay = vec!["mkdocs.yml".into(), "theme".into()];
    let mut f = findings();
    f.pre_build_hooks = vec![FileState::Executable, FileState::Missing];
    f.post_publish_hooks = vec![FileState::NotExecutable];
    f.overlay_present = vec![true, false];
    let all = checks(&c, &f);
    let hooks: Vec<(Level, &str)> = find(&all, "hooks").iter().map(|c| (c.level, c.detail.as_str())).collect();
    assert_eq!(
        hooks,
        vec![
            (Level::Pass, "pre_build: nav.py"),
            (Level::Fail, "pre_build: /etc/ncpages/hooks/gone.sh not found"),
            (Level::Fail, "post_publish: /etc/ncpages/hooks/ping.sh is not executable"),
        ]
    );
    let overlay: Vec<&str> = find(&all, "assemble/overlay").iter().map(|c| c.detail.as_str()).collect();
    assert_eq!(
        overlay,
        vec!["mkdocs.yml present", "/etc/ncpages/theme is missing; the build tree cannot be assembled"]
    );
    assert_eq!(tally(&all).worst, Level::Fail);
}

#[test]
fn an_unauthenticated_agent_and_a_webdav_source_without_host_header_warn() {
    let mut c = doctor_config();
    c.build.kind = BuildKind::Agent;
    c.build.url = Some("http://builder:8080".into());
    c.source.kind = SourceKind::Webdav;
    c.triggers.push = Some("ws://notify-push:7867/ws".into());
    c.report.ntfy_topic = Some("t".into());
    let mut f = findings();
    f.source = SourceProbe::Unreachable { message: "http://x: 401 Unauthorized".into() };
    let all = checks(&c, &f);
    assert_eq!(find(&all, "build/isolation")[0].detail, "builds run in the isolated builder at http://builder:8080");
    assert_eq!(find(&all, "build/token")[0].level, Level::Warn);
    assert_eq!(find(&all, "source/host_header")[0].level, Level::Warn);
    assert_eq!(find(&all, "source/reachable")[0].level, Level::Fail);
    assert!(find(&all, "triggers/push").is_empty());
    assert!(find(&all, "report/ntfy").is_empty());
}

#[test]
fn the_printout_aligns_names_and_counts_levels() {
    let all = vec![
        Check::pass("paths/src", "/work/src exists".into()),
        Check::warn("report/ntfy", "no topic".into()),
    ];
    assert_eq!(check_line(&all[0]), "[ok  ] paths/src              /work/src exists");
    assert_eq!(check_line(&all[1]), "[warn] report/ntfy            no topic");
    let t = tally(&all);
    assert_eq!((t.worst, t.fails, t.warnings), (Level::Warn, 0, 1));
    assert_eq!(tally_line(&all), "\n2 checks, 0 failed, 1 warnings");
    assert_eq!(Level::Fail.label(), "FAIL");
}

#[test]
fn durations_print_as_debug_shows_them() {
    assert_eq!(duration_debug(30_000), "30s");
    assert_eq!(duration_debug(1_500), "1.5s");
    assert_eq!(duration_debug(1_250), "1.25s");
    assert_eq!(duration_debug(61_005), "61.005s");
    assert_eq!(duration_debug(250), "250ms");
    assert_eq!(duration_debug(0), "0ns");
}
