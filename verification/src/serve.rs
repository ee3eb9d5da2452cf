//! Serving the current release, and the health endpoint: the rules.
//!
//! The server opens files through the `current` symlink on every request, so
//! a swap takes effect immediately. The service runs the listeners; which
//! responses may be cached and what the health endpoint answers is decided
//! here.

use vstd::prelude::*;
use crate::text::{contains, contains_str, owned, str_eq};

verus! {

/// What the health endpoint reports.
#[derive(Debug, Clone)]
pub struct Health {
    pub source: String,
    /// `ok`, `degraded` (source unreachable, site still served), `starting`
    /// or `unreachable`.
    pub source_status: String,
    pub last_check_seconds_ago: Option<u64>,
    pub last_build_finished: Option<String>,
    pub last_result: Option<String>,
    pub last_release: Option<String>,
    pub building: bool,
    pub queued: bool,
    /// Set when a timer is configured and no build has happened for twice
    /// its interval: the trigger loop itself is then suspect.
    pub liveness_overdue: bool,
}

impl Default for Health {
    fn default() -> (res: Self)
        ensures
            res.source@.len() == 0,
            res.source_status@.len() == 0,
            res.last_check_seconds_ago is None,
            res.last_build_finished is None,
            res.last_result is None,
            res.last_release is None,
            !res.building,
            !res.queued,
            !res.liveness_overdue,
    {
        Health {
            source: String::new(),
            source_status: String::new(),
            last_check_seconds_ago: None,
            last_build_finished: None,
            last_result: None,
            last_release: None,
            building: false,
            queued: false,
            liveness_overdue: false,
        }
    }
}

/// The status code of the health endpoint: 503 only when the source is
/// unreachable and nothing was ever published. Degraded is not unhealthy:
/// an unreachable source still leaves a correct site being served, which is
/// a different situation from a crash.
pub fn health_status_code(health: &Health) -> (res: u16)
    ensures
        res == if health.source_status@ == "unreachable"@ && health.last_release is None {
            503u16
        } else {
            200u16
        },
{
    if str_eq(health.source_status.as_str(), "unreachable") && health.last_release.is_none() {
        503
    } else {
        200
    }
}

pub open spec fn immutable_asset(path: Seq<char>) -> bool {
    contains(path, "/assets/"@)
}

/// Generators emit content-hashed asset names, which are safe to cache
/// forever. Everything else must not be cached, or a swap leaves old HTML
/// referencing asset names that no longer exist.
pub fn is_immutable_asset(path: &str) -> (res: bool)
    ensures
        res == immutable_asset(path@),
{
    contains_str(path, "/assets/")
}

/// The `Cache-Control` value for a request path.
pub fn cache_control(path: &str, assets: &str, html: &str) -> (res: String)
    ensures
        res@ == if immutable_asset(path@) { assets@ } else { html@ },
{
    if is_immutable_asset(path) {
        owned(assets)
    } else {
        owned(html)
    }
}

} // verus!
