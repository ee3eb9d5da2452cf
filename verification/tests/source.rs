use ncpages::config::{Config, Source as SourceConfig, SourceKind};
use ncpages::source::{
    check_status, finish_sync, is_safe_relative, is_unchanged, multistatus_entries_of, parse_multistatus, plan_fs_copy,
    plan_remote, remote_paths, root_etag_of, stale_paths, Auth, Crawl, Entry, RemoteAction, Source,
    SourceError, Webdav,
};
use ncpages::state::State;
use ncpages::strmap::StrMap;

const RESPONSE: &str = r#"<?xml version="1.0"?>
<d:multistatus xmlns:d="DAV:">
  <d:response>
    <d:href>/remote.php/dav/files/publisher/Notes/blog/</d:href>
    <d:propstat><d:prop>
      <d:getetag>"rootetag"</d:getetag>
      <d:resourcetype><d:collection/></d:resourcetype>
    </d:prop></d:propstat>
  </d:response>
  <d:response>
    <d:href>/remote.php/dav/files/publisher/Notes/blog/bounded%20context.md</d:href>
    <d:propstat><d:prop>
      <d:getetag>"abc123"</d:getetag>
      <d:resourcetype/>
    </d:prop></d:propstat>
  </d:response>
  <d:response>
    <d:href>/remote.php/dav/files/publisher/Notes/blog/assets/</d:href>
    <d:propstat><d:prop>
      <d:getetag>"dir2"</d:getetag>
      <d:resourcetype><d:collection/></d:resourcetype>
    </d:prop></d:propstat>
  </d:response>
</d:multistatus>"#;

#[test]
fn multistatus_yields_relative_paths_and_etags() {
    let entries = parse_multistatus(
        RESPONSE,
        "http://nginx/remote.php/dav/files/publisher",
        "Notes/blog",
    )
    .unwrap();

    assert_eq!(entries.len(), 3);
    assert_eq!(entries[0].rel, "");
    assert_eq!(entries[0].etag, "rootetag");
    assert!(entries[0].is_dir);

    assert_eq!(entries[1].rel, "bounded context.md", "href must be percent-decoded");
    assert_eq!(entries[1].etag, "abc123");
    assert!(!entries[1].is_dir);

    assert_eq!(entries[2].rel, "assets");
    assert!(entries[2].is_dir);
}

#[test]
fn an_answer_that_is_not_xml_is_a_bad_response() {
    let err = parse_multistatus("<d:multistatus", "http://x/dav", "").unwrap_err();
    assert!(matches!(err, SourceError::BadResponse { .. }));
    assert_eq!(err.message(), "parsing PROPFIND response");
}

#[test]
fn responses_outside_the_watched_root_are_left_out() {
    let xml = r#"<multistatus xmlns="DAV:"><response><href>/elsewhere/a.md</href></response>
        <response><href>/dav/root/b.md</href><propstat><prop><getetag>"e"</getetag></prop></propstat></response></multistatus>"#;
    let entries = parse_multistatus(xml, "https://h/dav", "root").unwrap();
    assert_eq!(entries.len(), 1);
    assert_eq!(entries[0].rel, "b.md");
    assert_eq!(entries[0].etag, "e");
}

#[test]
fn the_root_etag_is_that_of_the_first_entry() {
    let entries = parse_multistatus(RESPONSE, "http://nginx/remote.php/dav/files/publisher", "Notes/blog").unwrap();
    assert_eq!(root_etag_of(&entries).unwrap(), "rootetag");
    let err = root_etag_of(&vec![]).unwrap_err();
    assert_eq!(err.message(), "PROPFIND returned no response element for the watched root");
}

fn account_webdav(path: &str) -> Webdav {
    Webdav {
        base: "http://nginx/remote.php/dav/files/publisher".into(),
        path: path.into(),
        host_header: None,
        auth: Auth::Account { user: "publisher".into(), password: "x".into() },
    }
}

#[test]
fn spaces_and_umlauts_survive_url_building() {
    let dav = account_webdav("Notizen/Mein Blog");
    assert_eq!(
        dav.url_for("Über Bäume.md"),
        "http://nginx/remote.php/dav/files/publisher/Notizen/Mein%20Blog/%C3%9Cber%20B%C3%A4ume.md",
        "path segments must be percent-encoded, separators must not"
    );
}

#[test]
fn the_root_url_has_no_trailing_slash() {
    assert_eq!(account_webdav("").url_for(""), "http://nginx/remote.php/dav/files/publisher");
}

fn share_config(dir: &str) -> Config {
    let mut source = SourceConfig::new(SourceKind::Webdav, "");
    source.url = Some("https://cloud.example.org".into());
    source.share_token = Some("abc123XYZ".into());
    let mut config = Config::new(1, source);
    config.build.command = Some(vec!["true".into()]);
    config.paths.src = format!("{dir}/src");
    config.paths.build = format!("{dir}/build");
    config.paths.state = format!("{dir}/state");
    config.paths.config_dir = format!("{dir}/etc");
    config
}

#[test]
fn a_share_token_selects_the_public_endpoint() {
    let config = share_config("/tmp/ncpages-test");
    assert!(config.validate().is_ok(), "a share token is a complete credential");

    let dav = Webdav::new(&config, None, None).unwrap();
    assert_eq!(
        dav.url_for("note.md"),
        "https://cloud.example.org/public.php/dav/files/abc123XYZ/note.md"
    );
    // The share id is the credential: it is both the path segment and the
    // username, which is the part that is easy to get wrong.
    assert!(matches!(
        &dav.auth,
        Auth::Share { token, password: None } if token == "abc123XYZ"
    ));
}

#[test]
fn an_account_and_a_share_token_together_are_refused() {
    let mut source = SourceConfig::new(SourceKind::Webdav, "Notes");
    source.url = Some("https://cloud.example.org".into());
    source.user = Some("publisher".into());
    source.password_file = Some("/run/secrets/pw".into());
    source.share_token = Some("abc123".into());
    let mut config = Config::new(1, source);
    config.build.command = Some(vec!["true".into()]);
    let err = config.validate().unwrap_err().message();
    assert!(err.contains("pick one"), "{err}");
}

#[test]
fn an_account_needs_a_user_and_a_password() {
    let mut source = SourceConfig::new(SourceKind::Webdav, "/Notes/");
    source.url = Some("https://cloud.example.org/".into());
    source.user = Some("publisher".into());
    let config = Config::new(1, source);
    assert!(matches!(Webdav::new(&config, None, None), Err(SourceError::MissingPassword)));
    let dav = Webdav::new(&config, Some("pw".into()), None).unwrap();
    assert_eq!(dav.base, "https://cloud.example.org/remote.php/dav/files/publisher");
    assert_eq!(dav.path, "Notes");
    assert_eq!(dav.credentials(false), ("publisher".to_string(), "pw".to_string()));
    let mut no_url = config.clone();
    no_url.source.url = None;
    assert!(matches!(Webdav::new(&no_url, None, None), Err(SourceError::MissingUrl)));
}

#[test]
fn a_password_protected_share_retries_a_401_as_anonymous() {
    let config = share_config("/tmp/x");
    let dav = Webdav::new(&config, None, Some("sharepw".into())).unwrap();
    assert!(dav.retry_as_anonymous(401));
    assert!(!dav.retry_as_anonymous(403));
    assert_eq!(dav.credentials(false), ("abc123XYZ".to_string(), "sharepw".to_string()));
    assert_eq!(dav.credentials(true), ("anonymous".to_string(), "sharepw".to_string()));
    let open = Webdav::new(&config, None, None).unwrap();
    assert!(!open.retry_as_anonymous(401));
    assert_eq!(open.credentials(false).1, "");
}

#[test]
fn server_supplied_paths_that_escape_the_working_copy_are_rejected() {
    assert!(is_safe_relative("notes/a.md"));
    assert!(is_safe_relative("Über Bäume.md"));

    assert!(!is_safe_relative("../outside.md"));
    assert!(!is_safe_relative("a/../../etc/cron.d/evil"));
    assert!(!is_safe_relative("/etc/passwd"));
    assert!(!is_safe_relative("C:\\Windows\\system32"));
    assert!(!is_safe_relative(""));
}

#[test]
fn unauthorized_stops_instead_of_retrying() {
    let err = check_status(401, "http://x").unwrap_err();
    assert!(err.message().contains("brute-force"));
}

#[test]
fn statuses_are_told_apart() {
    assert!(check_status(200, "u").is_ok());
    assert!(check_status(207, "u").is_ok());
    assert!(check_status(204, "u").is_ok());
    assert!(check_status(503, "http://x").unwrap_err().message().contains("maintenance mode"));
    assert_eq!(check_status(404, "http://x").unwrap_err().message(), "http://x: unexpected status 404 Not Found");
}

fn entry(rel: &str, etag: &str, is_dir: bool) -> Entry {
    Entry { rel: rel.into(), etag: etag.into(), is_dir }
}

#[test]
fn the_crawl_descends_and_passes_over_hostile_paths() {
    let mut crawl = Crawl::new();
    let root = crawl.next_dir().unwrap();
    assert_eq!(root, "");
    let refused = crawl.absorb(
        &root,
        &vec![
            entry("", "r", true),
            entry("a.md", "1", false),
            entry("../escaped.md", "x", false),
            entry("sub", "d", true),
        ],
    );
    assert_eq!(refused, vec!["../escaped.md".to_string()]);
    let sub = crawl.next_dir().unwrap();
    assert_eq!(sub, "sub");
    crawl.absorb(&sub, &vec![entry("sub", "d", true), entry("sub/b.md", "2", false)]);
    assert!(crawl.next_dir().is_none());
    let files = crawl.into_files();
    assert_eq!(files.get("a.md"), Some("1".to_string()));
    assert_eq!(files.get("sub/b.md"), Some("2".to_string()));
    assert_eq!(files.get("../escaped.md"), None);
    assert_eq!(remote_paths(&files), vec!["a.md".to_string(), "sub/b.md".to_string()]);
}

#[test]
fn only_changed_files_are_fetched_and_conflict_copies_never() {
    let mut known = StrMap::new();
    known.set("a.md", "1");
    assert_eq!(plan_remote("a.md", "1", &known, true), RemoteAction::UpToDate);
    assert_eq!(plan_remote("a.md", "1", &known, false), RemoteAction::Fetch);
    assert_eq!(plan_remote("a.md", "2", &known, true), RemoteAction::Fetch);
    assert_eq!(plan_remote("b.md", "1", &known, false), RemoteAction::Fetch);
    assert_eq!(
        plan_remote("dir/note (conflicted copy 2026-08-14 120000).md", "3", &known, false),
        RemoteAction::ConflictCopy
    );
}

#[test]
fn files_gone_remotely_are_removed_locally() {
    let mut remote = StrMap::new();
    remote.set("a.md", "1");
    let local = vec!["a.md".to_string(), "b.md".to_string(), "sub/c.md".to_string()];
    assert_eq!(stale_paths(&local, &remote), vec!["b.md".to_string(), "sub/c.md".to_string()]);
}

#[test]
fn an_unchanged_root_with_a_working_copy_needs_nothing() {
    let mut state = State::new();
    assert!(!is_unchanged(&state, "t", true));
    state.root_etag = Some("t".into());
    assert!(is_unchanged(&state, "t", true));
    assert!(!is_unchanged(&state, "t", false));
    assert!(!is_unchanged(&state, "u", true));
}

#[test]
fn a_finished_sync_records_the_etags() {
    let mut state = State::new();
    let mut remote = StrMap::new();
    remote.set("a.md", "1");
    let report = finish_sync(&mut state, remote, "root".into(), 0, 0, vec![]);
    assert!(!report.changed);
    assert_eq!(state.root_etag.as_deref(), Some("root"));
    assert_eq!(state.file_etags.get("a.md"), Some("1".to_string()));
    let report = finish_sync(&mut state, StrMap::new(), "root2".into(), 0, 1, vec!["x".into()]);
    assert!(report.changed);
    assert_eq!(report.deleted, 1);
    assert_eq!(report.conflict_copies, vec!["x".to_string()]);
}

#[test]
fn fs_sync_copies_everything_but_conflict_copies() {
    let plan = plan_fs_copy(&vec![
        "a.md".to_string(),
        "a (conflicted copy 2026-08-14 120000).md".to_string(),
        "sub/b.md".to_string(),
    ]);
    assert_eq!(plan.copy, vec!["a.md".to_string(), "sub/b.md".to_string()]);
    assert_eq!(plan.conflict_copies, vec!["a (conflicted copy 2026-08-14 120000).md".to_string()]);
}

#[test]
fn a_source_describes_where_it_reads_from() {
    let config = Config::new(1, SourceConfig::new(SourceKind::Fs, "/tmp/vault"));
    let source = Source::from_config(&config, None, None).unwrap();
    assert_eq!(source.describe(), "/tmp/vault");
    let share = Source::from_config(&share_config("/tmp/y"), None, None).unwrap();
    assert_eq!(share.describe(), "https://cloud.example.org/public.php/dav/files/abc123XYZ");
}

fn node(parent: Option<usize>, name: &str, text: Option<&str>) -> ncpages::xml::XmlNode {
    ncpages::xml::XmlNode {
        parent,
        element: true,
        name: name.to_string(),
        text: text.map(String::from),
    }
}

#[test]
fn entries_come_from_an_outline_of_responses() {
    let ns = vec![
        node(None, "multistatus", None),
        node(Some(0), "response", None),
        node(Some(1), "href", Some("/dav/root/")),
        node(Some(1), "getetag", Some("\"r1\"")),
        node(Some(1), "collection", None),
        node(Some(0), "response", None),
        node(Some(5), "href", Some("/dav/root/a%20b.md")),
        node(Some(5), "getetag", Some("\"e2\"")),
        node(Some(0), "response", None),
        node(Some(8), "href", Some("/elsewhere/x.md")),
    ];
    let entries = multistatus_entries_of(&ns, "https://h/dav", "root");
    assert_eq!(entries.len(), 2);
    assert_eq!((entries[0].rel.as_str(), entries[0].etag.as_str(), entries[0].is_dir), ("", "r1", true));
    assert_eq!((entries[1].rel.as_str(), entries[1].etag.as_str(), entries[1].is_dir), ("a b.md", "e2", false));
}
