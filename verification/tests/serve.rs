use ncpages::serve::{cache_control, health_status_code, is_immutable_asset, Health};

#[test]
fn only_asset_paths_are_immutable() {
    assert!(is_immutable_asset("/assets/stylesheets/main.a1b2c3.css"));
    assert!(!is_immutable_asset("/index.html"));
    assert!(!is_immutable_asset("/"));
    assert!(!is_immutable_asset("/some-post/"));
}

#[test]
fn assets_are_cached_forever_and_html_never() {
    let a = "public, max-age=31536000, immutable";
    assert_eq!(cache_control("/assets/app.js", a, "no-cache"), a);
    assert_eq!(cache_control("/post/", a, "no-cache"), "no-cache");
}

#[test]
fn an_unreachable_source_is_unhealthy_only_before_the_first_release() {
    let mut h = Health::default();
    h.source_status = "unreachable".into();
    assert_eq!(health_status_code(&h), 503);
    h.last_release = Some("20260101T000000Z".into());
    assert_eq!(health_status_code(&h), 200);
    let mut d = Health::default();
    d.source_status = "degraded".into();
    assert_eq!(health_status_code(&d), 200);
}
