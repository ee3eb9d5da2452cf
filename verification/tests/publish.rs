use ncpages::publish::{
    bootstrap_release_id, civil_from_unix, current_link, new_release_id, release_id_at,
    release_id_since_epoch, releases_dir, retention_plan,
};

#[test]
fn release_ids_sort_chronologically() {
    let earlier =
        new_release_id(std::time::UNIX_EPOCH + std::time::Duration::from_secs(1_760_000_000));
    let later =
        new_release_id(std::time::UNIX_EPOCH + std::time::Duration::from_secs(1_770_000_000));
    assert!(earlier < later, "{earlier} !< {later}");
    assert_eq!(earlier.len(), 16);
}

#[test]
fn release_ids_name_the_utc_time() {
    assert_eq!(release_id_at(0), "19700101T000000Z");
    assert_eq!(release_id_at(1_760_000_000), "20251009T085320Z");
    assert_eq!(release_id_at(951_782_400), "20000229T000000Z");
    assert_eq!(release_id_at(253_402_300_799), "99991231T235959Z");
}

#[test]
fn the_calendar_knows_leap_years() {
    assert_eq!(civil_from_unix(951_782_400), (2000, 2, 29, 0, 0, 0));
    assert_eq!(civil_from_unix(4_107_542_400), (2100, 3, 1, 0, 0, 0));
    assert_eq!(civil_from_unix(1_709_164_799), (2024, 2, 28, 23, 59, 59));
    assert_eq!(civil_from_unix(-1), (1969, 12, 31, 23, 59, 59));
}

#[test]
fn the_publish_root_is_laid_out_as_documented() {
    assert_eq!(releases_dir("/work/publish"), "/work/publish/releases");
    assert_eq!(current_link("/work/publish"), "/work/publish/current");
}

#[test]
fn the_holding_page_sorts_before_every_real_release() {
    let bootstrap = bootstrap_release_id();
    assert_eq!(bootstrap, "00000000T000000Z-bootstrap");
    assert!(bootstrap < release_id_at(0));
}

fn ids(v: &[&str]) -> Vec<String> {
    v.iter().map(|s| s.to_string()).collect()
}

#[test]
fn retention_keeps_the_newest_and_never_the_served_one() {
    let dir = "/work/publish/releases";
    let found = ids(&["e", "c", "a", "d", "b"]);
    let removed = retention_plan(dir, &found, 2, Some("/work/publish/releases/a"));
    assert_eq!(removed, vec!["b".to_string(), "c".to_string()]);
    assert!(!removed.contains(&"a".to_string()), "served release was removed");
    assert!(!removed.contains(&"e".to_string()));
}

#[test]
fn retention_keeps_at_least_one_release() {
    let dir = "/p/releases";
    let removed = retention_plan(dir, &ids(&["r1", "r2", "r3"]), 0, None);
    assert_eq!(removed, ids(&["r1", "r2"]));
}

#[test]
fn retention_with_few_releases_removes_nothing() {
    assert!(retention_plan("/p/releases", &ids(&["a", "b"]), 5, None).is_empty());
}

#[test]
fn the_served_release_is_recognised_by_path_components() {
    let removed = retention_plan("/p/releases", &ids(&["a", "b", "c"]), 1, Some("/p//releases/./a/"));
    assert_eq!(removed, ids(&["b"]));
}

#[test]
fn a_clock_before_the_epoch_gives_the_epoch_id() {
    assert_eq!(release_id_since_epoch(None), "19700101T000000Z");
    assert_eq!(release_id_since_epoch(Some(1_760_000_000)), "20251009T085320Z");
    let before = std::time::UNIX_EPOCH - std::time::Duration::from_secs(3600);
    assert_eq!(new_release_id(before), "19700101T000000Z");
    assert_eq!(
        new_release_id(std::time::UNIX_EPOCH + std::time::Duration::from_secs(1_760_000_000)),
        "20251009T085320Z"
    );
}
