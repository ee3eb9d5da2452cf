//! Persisted state.
//!
//! Without this, every `compose up` causes a full rebuild — and the reconcile
//! path stays untested until the day it is actually needed. The service reads
//! and writes it as `state.json` in `paths.state`.

use vstd::prelude::*;
use crate::paths::{join, join_path};
use crate::strmap::StrMap;

verus! {

#[derive(Debug, Clone)]
pub struct State {
    /// ETag of the watched root. One PROPFIND answers "did anything change".
    pub root_etag: Option<String>,
    /// Per-file ETags of the working copy, keyed by path relative to the root.
    pub file_etags: StrMap,
    /// Content hash of the assembled content directory at the last build.
    pub content_hash: Option<String>,
    /// Release id of the last successful publish.
    pub last_release: Option<String>,
    pub last_result: Option<String>,
    pub last_build_finished: Option<String>,
    /// Fingerprint of the status report this service last wrote itself, so it
    /// does not treat its own write as a change.
    pub self_write_fingerprint: Option<String>,
}

impl State {
    /// The state of a service that has never run: nothing known.
    pub fn new() -> (res: Self)
        ensures
            res.root_etag is None,
            res.file_etags.view_map() == Map::<Seq<char>, Seq<char>>::empty(),
            res.content_hash is None,
            res.last_release is None,
            res.last_result is None,
            res.last_build_finished is None,
            res.self_write_fingerprint is None,
    {
        State {
            root_etag: None,
            file_etags: StrMap::new(),
            content_hash: None,
            last_release: None,
            last_result: None,
            last_build_finished: None,
            self_write_fingerprint: None,
        }
    }

    /// `dir/state.json`.
    pub fn file(dir: &str) -> (res: String)
        ensures
            res@ == join(dir@, "state.json"@),
    {
        join_path(dir, "state.json")
    }
}

} // verus!
