//! Configuration surface: the contents of `ncpages.toml`.
//!
//! Durations are held in milliseconds and the two ratios (`triggers.jitter`,
//! `gate.max_page_drop`) in parts per million, so that every rule applied to
//! them is exact integer arithmetic.
//!
//! Two rules are load-bearing and enforced in [`Config::validate`] rather than
//! documented and hoped for: the hook directory must not live inside the
//! source working copy, because a build is code execution and the vault is
//! writable by anyone the folder is shared with; and a running build is never
//! cancelled, because an abort between the swap and `post_publish` leaves a
//! state with no clean way back.

use vstd::prelude::*;
use crate::strmap::{env_map, lemma_without_absent, StrMap};
use crate::paths::{join, join_path, path_within, path_within_exec};
use crate::text::{
    chars_of, decimal, decimal_chars, owned, push_all, push_str, str_eq, string_from_chars,
    trim_end_char, trim_end_chars,
};

verus! {

/// The only configuration schema this build understands.
pub const SCHEMA_VERSION: u32 = 1;

/// One in parts per million: the largest valid ratio.
pub const PPM_ONE: u32 = 1_000_000;

#[derive(Debug, Clone)]
pub struct Config {
    pub schema_version: u32,
    pub source: Source,
    pub paths: Paths,
    pub triggers: Triggers,
    pub schedule: Schedule,
    pub assemble: Assemble,
    pub build: Build,
    pub hooks: Hooks,
    pub gate: Gate,
    pub publish: Publish,
    pub serve: Serve,
    pub health: Health,
    pub report: Report,
}

#[derive(Debug, Clone)]
pub struct Source {
    /// `webdav` or `fs`.
    pub kind: SourceKind,
    /// Base URL of the *HTTP* frontend. With an FPM image this is nginx, never
    /// the FPM container, which does not speak HTTP.
    pub url: Option<String>,
    /// Real public domain, sent as `Host:` so `trusted_domains` still matches.
    pub host_header: Option<String>,
    /// Remote path below the user's files root, or a local path for `fs`.
    pub path: String,
    pub user: Option<String>,
    pub password_file: Option<String>,
    /// Token of a public share link, used instead of an account.
    pub share_token: Option<String>,
    /// Only for a password-protected share.
    pub share_password_file: Option<String>,
    /// Refuse to start when the source is unreachable.
    pub required: bool,
}

#[derive(Debug, Clone, Copy, PartialEq, Eq, Structural)]
pub enum SourceKind {
    Webdav,
    Fs,
}

impl Source {
    /// A source of the given kind and path with every optional key absent.
    pub fn new(kind: SourceKind, path: &str) -> (res: Self)
        ensures
            res.kind == kind,
            res.path@ == path@,
            res.url is None,
            res.host_header is None,
            res.user is None,
            res.password_file is None,
            res.share_token is None,
            res.share_password_file is None,
            !res.required,
    {
        Source {
            kind,
            url: None,
            host_header: None,
            path: owned(path),
            user: None,
            password_file: None,
            share_token: None,
            share_password_file: None,
            required: false,
        }
    }
}

#[derive(Debug, Clone)]
pub struct Paths {
    /// Working copy of the vault.
    pub src: String,
    /// Assembled build tree. Must share a filesystem with `publish.root`.
    pub build: String,
    /// Persisted ETags, hashes and build history.
    pub state: String,
    /// Hook scripts and overlay files. Read-only, outside the vault.
    pub config_dir: String,
}

impl Default for Paths {
    fn default() -> (res: Self)
        ensures
            res.src@ == "/work/src"@,
            res.build@ == "/work/build"@,
            res.state@ == "/work/state"@,
            res.config_dir@ == "/etc/ncpages"@,
    {
        Paths {
            src: owned("/work/src"),
            build: owned("/work/build"),
            state: owned("/work/state"),
            config_dir: owned("/etc/ncpages"),
        }
    }
}

impl Paths {
    /// `config_dir/hooks`.
    pub fn hooks_dir(&self) -> (res: String)
        ensures
            res@ == join(self.config_dir@, "hooks"@),
    {
        join_path(self.config_dir.as_str(), "hooks")
    }
}

#[derive(Debug, Clone)]
pub struct Triggers {
    /// notify_push WebSocket URL. Absent disables push.
    pub push: Option<String>,
    /// Safety net, in milliseconds. Keeps running even when push is healthy.
    pub poll_ms: u64,
    /// Timer period in milliseconds, for builds that pull external data.
    pub timer_ms: Option<u64>,
    /// Spread of timer builds, in parts per million of the period.
    pub jitter_ppm: u32,
}

impl Default for Triggers {
    fn default() -> (res: Self)
        ensures
            res.push is None,
            res.poll_ms == 30_000,
            res.timer_ms is None,
            res.jitter_ppm == 100_000,
    {
        Triggers { push: None, poll_ms: 30_000, timer_ms: None, jitter_ppm: 100_000 }
    }
}

#[derive(Debug, Clone)]
pub struct Schedule {
    /// Quiet period after the last change, in milliseconds.
    pub debounce_ms: u64,
    /// Upper bound on debouncing, in milliseconds, so a continuously edited
    /// vault still builds.
    pub max_delay_ms: u64,
    /// Only `queue_latest` is supported; cancelling a running build is unsafe.
    pub on_busy: String,
}

impl Default for Schedule {
    fn default() -> (res: Self)
        ensures
            res.debounce_ms == 10_000,
            res.max_delay_ms == 120_000,
            res.on_busy@ == "queue_latest"@,
    {
        Schedule { debounce_ms: 10_000, max_delay_ms: 120_000, on_busy: owned("queue_latest") }
    }
}

#[derive(Debug, Clone)]
pub struct Assemble {
    /// Entries copied from `paths.config_dir` into the build tree.
    pub overlay: Vec<String>,
    /// Where the vault content lands inside the build tree.
    pub source_subdir: String,
}

impl Default for Assemble {
    fn default() -> (res: Self)
        ensures
            res.overlay@.len() == 0,
            res.source_subdir@ == "docs"@,
    {
        Assemble { overlay: Vec::new(), source_subdir: owned("docs") }
    }
}

#[derive(Debug, Clone)]
pub struct Build {
    /// `agent` runs the build in the isolated builder container; `local` runs
    /// it as a subprocess of this service.
    pub kind: BuildKind,
    /// Builder endpoint for `kind = "agent"`.
    pub url: Option<String>,
    pub token_file: Option<String>,
    /// Command for `kind = "local"`.
    pub command: Option<Vec<String>>,
    /// In milliseconds.
    pub timeout_ms: u64,
    /// Generator output directory, relative to the build tree.
    pub output: String,
}

impl Default for Build {
    fn default() -> (res: Self)
        ensures
            res.kind == BuildKind::Local,
            res.url is None,
            res.token_file is None,
            res.command is None,
            res.timeout_ms == 600_000,
            res.output@ == "site"@,
    {
        Build {
            kind: BuildKind::Local,
            url: None,
            token_file: None,
            command: None,
            timeout_ms: 600_000,
            output: owned("site"),
        }
    }
}

#[derive(Debug, Clone, Copy, PartialEq, Eq, Structural)]
pub enum BuildKind {
    Agent,
    Local,
}

#[derive(Debug, Clone)]
pub struct Hooks {
    pub pre_build: Vec<Hook>,
    pub post_build: Vec<Hook>,
    pub post_publish: Vec<Hook>,
}

impl Default for Hooks {
    fn default() -> (res: Self)
        ensures
            res.pre_build@.len() == 0,
            res.post_build@.len() == 0,
            res.post_publish@.len() == 0,
    {
        Hooks { pre_build: Vec::new(), post_build: Vec::new(), post_publish: Vec::new() }
    }
}

#[derive(Debug, Clone)]
pub struct Hook {
    /// Program to run, resolved against the hook directory.
    pub run: String,
    pub args: Vec<String>,
    /// Variables forwarded from the service environment. Nothing else reaches a
    /// hook; secrets are opt-in per hook.
    pub env_passthrough: Vec<String>,
}

#[derive(Debug, Clone)]
pub struct Gate {
    pub require_files: Vec<String>,
    pub min_pages: usize,
    /// Maximum tolerated drop in page count against the previous release, in
    /// parts per million of the previous count.
    pub max_page_drop_ppm: u32,
    /// Fail instead of warn when two content files share a basename.
    pub forbid_duplicate_basenames: bool,
}

impl Default for Gate {
    fn default() -> (res: Self)
        ensures
            res.require_files@.len() == 0,
            res.min_pages == 0,
            res.max_page_drop_ppm == 400_000,
            res.forbid_duplicate_basenames,
    {
        Gate {
            require_files: Vec::new(),
            min_pages: 0,
            max_page_drop_ppm: 400_000,
            forbid_duplicate_basenames: true,
        }
    }
}

#[derive(Debug, Clone)]
pub struct Publish {
    pub root: String,
    pub keep_releases: usize,
}

impl Default for Publish {
    fn default() -> (res: Self)
        ensures
            res.root@ == "/work/publish"@,
            res.keep_releases == 5,
    {
        Publish { root: owned("/work/publish"), keep_releases: 5 }
    }
}

impl Publish {
    /// `root/current`, the link the web server follows.
    pub fn current(&self) -> (res: String)
        ensures
            res@ == join(self.root@, "current"@),
    {
        join_path(self.root.as_str(), "current")
    }
}

#[derive(Debug, Clone)]
pub struct Serve {
    pub enabled: bool,
    pub listen: String,
    /// `Cache-Control` for hashed asset paths.
    pub cache_control_assets: String,
    /// `Cache-Control` for everything else.
    pub cache_control_html: String,
}

impl Default for Serve {
    fn default() -> (res: Self)
        ensures
            res.enabled,
            res.listen@ == "0.0.0.0:8080"@,
            res.cache_control_assets@ == "public, max-age=31536000, immutable"@,
            res.cache_control_html@ == "no-cache"@,
    {
        Serve {
            enabled: true,
            listen: owned("0.0.0.0:8080"),
            cache_control_assets: owned("public, max-age=31536000, immutable"),
            cache_control_html: owned("no-cache"),
        }
    }
}

#[derive(Debug, Clone)]
pub struct Health {
    pub listen: String,
}

impl Default for Health {
    fn default() -> (res: Self)
        ensures
            res.listen@ == "0.0.0.0:9090"@,
    {
        Health { listen: owned("0.0.0.0:9090") }
    }
}

/// Where build results go. Never into the source: ncpages treats the watched
/// folder as read-only.
#[derive(Debug, Clone)]
pub struct Report {
    /// Deliver reports to the Nextcloud companion app, if it is installed.
    pub app: bool,
    /// Endpoint of the companion app. Derived from `source.url` when unset.
    pub app_url: Option<String>,
    /// Independent of Nextcloud on purpose.
    pub ntfy_topic: Option<String>,
}

impl Default for Report {
    fn default() -> (res: Self)
        ensures
            res.app,
            res.app_url is None,
            res.ntfy_topic is None,
    {
        Report { app: true, app_url: None, ntfy_topic: None }
    }
}

/// The path of the companion app's report endpoint below a Nextcloud URL.
pub open spec fn report_suffix() -> Seq<char> {
    "/index.php/apps/ncpages/api/v1/reports"@
}

/// Where reports are delivered, if anywhere.
pub open spec fn report_endpoint(report: &Report, source_url: Option<Seq<char>>) -> Option<Seq<char>> {
    if !report.app {
        None
    } else if report.app_url is Some {
        Some(report.app_url->0@)
    } else {
        match source_url {
            Some(u) => Some(trim_end_char(u, '/') + report_suffix()),
            None => None,
        }
    }
}

pub open spec fn opt_view(s: Option<&str>) -> Option<Seq<char>> {
    match s {
        Some(x) => Some(x@),
        None => None,
    }
}

pub open spec fn opt_string_view(s: Option<String>) -> Option<Seq<char>> {
    match s {
        Some(x) => Some(x@),
        None => None,
    }
}

impl Report {
    /// `https://cloud.example.org` → the app's report endpoint.
    pub fn endpoint(&self, source_url: Option<&str>) -> (res: Option<String>)
        ensures
            opt_string_view(res) == report_endpoint(self, opt_view(source_url)),
    {
        if !self.app {
            return None;
        }
        if let Some(url) = &self.app_url {
            return Some(url.clone());
        }
        match source_url {
            Some(url) => {
                let v = chars_of(url);
                let mut out = trim_end_chars(&v, '/');
                push_str(&mut out, "/index.php/apps/ncpages/api/v1/reports");
                Some(string_from_chars(&out))
            },
            None => None,
        }
    }
}

/// A startup rule that a configuration can break, in the order they are checked.
#[derive(Debug, Clone, Copy, PartialEq, Eq, Structural)]
pub enum Rule {
    SchemaVersion,
    OnBusy,
    HooksOutsideSource,
    ConfigOutsideSource,
    HooksOutsideWatched,
    ConfigOutsideWatched,
    WebdavUrl,
    OneCredential,
    SomeCredential,
    CompleteAccount,
    AgentUrl,
    LocalCommand,
    PageDropRange,
}

/// Why a configuration was refused.
#[derive(Debug, Clone)]
pub enum ConfigError {
    UnsupportedSchema { found: u32 },
    UnsupportedOnBusy { value: String },
    HooksInsideSource { hooks: String, src: String },
    ConfigDirInsideSource { config_dir: String, src: String },
    /// The hook directory lies inside the folder an `fs` source watches.
    HooksInsideWatched { hooks: String, folder: String },
    /// The config directory lies inside the folder an `fs` source watches.
    ConfigDirInsideWatched { config_dir: String, folder: String },
    MissingWebdavUrl,
    AccountAndShare,
    MissingCredential,
    IncompleteAccount,
    MissingAgentUrl,
    MissingLocalCommand,
    PageDropOutOfRange,
}

impl ConfigError {
    /// The rule the error reports.
    pub open spec fn rule(&self) -> Rule {
        match self {
            ConfigError::UnsupportedSchema { .. } => Rule::SchemaVersion,
            ConfigError::UnsupportedOnBusy { .. } => Rule::OnBusy,
            ConfigError::HooksInsideSource { .. } => Rule::HooksOutsideSource,
            ConfigError::ConfigDirInsideSource { .. } => Rule::ConfigOutsideSource,
            ConfigError::HooksInsideWatched { .. } => Rule::HooksOutsideWatched,
            ConfigError::ConfigDirInsideWatched { .. } => Rule::ConfigOutsideWatched,
            ConfigError::MissingWebdavUrl => Rule::WebdavUrl,
            ConfigError::AccountAndShare => Rule::OneCredential,
            ConfigError::MissingCredential => Rule::SomeCredential,
            ConfigError::IncompleteAccount => Rule::CompleteAccount,
            ConfigError::MissingAgentUrl => Rule::AgentUrl,
            ConfigError::MissingLocalCommand => Rule::LocalCommand,
            ConfigError::PageDropOutOfRange => Rule::PageDropRange,
        }
    }

    /// The values the error names are the configuration's own.
    pub open spec fn names_values_of(&self, c: &Config) -> bool {
        match self {
            ConfigError::UnsupportedSchema { found } => *found == c.schema_version,
            ConfigError::UnsupportedOnBusy { value } => value@ == c.schedule.on_busy@,
            ConfigError::HooksInsideSource { hooks, src } => hooks@ == join(
                c.paths.config_dir@,
                "hooks"@,
            ) && src@ == c.paths.src@,
            ConfigError::ConfigDirInsideSource { config_dir, src } => config_dir@
                == c.paths.config_dir@ && src@ == c.paths.src@,
            ConfigError::HooksInsideWatched { hooks, folder } => hooks@ == join(
                c.paths.config_dir@,
                "hooks"@,
            ) && folder@ == c.source.path@,
            ConfigError::ConfigDirInsideWatched { config_dir, folder } => config_dir@
                == c.paths.config_dir@ && folder@ == c.source.path@,
            _ => true,
        }
    }

    /// The message shown to the operator.
    pub open spec fn spec_message(&self) -> Seq<char> {
        match self {
            ConfigError::UnsupportedSchema { found } => "schema_version "@ + decimal(
                *found as nat,
            ) + " is not supported by this build (expected 1)"@,
            ConfigError::UnsupportedOnBusy { value } => "schedule.on_busy = "@ + seq!['"']
                + crate::text::debug_text(value@) + seq!['"']
                + " is not supported; only \"queue_latest\" is. Cancelling a running build can leave a published state whose irreversible post_publish effects half-fired."@,
            ConfigError::HooksInsideSource { hooks, src } => "refusing to start: hook directory "@
                + hooks@ + " is inside the source working copy "@ + src@
                + ". A build is code execution; scripts must live outside the vault."@,
            ConfigError::ConfigDirInsideSource { config_dir, src } =>
                "refusing to start: config directory "@ + config_dir@
                + " is inside the source working copy "@ + src@,
            ConfigError::HooksInsideWatched { hooks, folder } => "refusing to start: hook directory "@
                + hooks@ + " is inside the watched folder "@ + folder@
                + ". A build is code execution; scripts must live outside the vault."@,
            ConfigError::ConfigDirInsideWatched { config_dir, folder } =>
                "refusing to start: config directory "@ + config_dir@
                + " is inside the watched folder "@ + folder@,
            ConfigError::MissingWebdavUrl => "source.url is required for kind = \"webdav\""@,
            ConfigError::AccountAndShare =>
                "source has both an account (user/password_file) and a share_token; pick one"@,
            ConfigError::MissingCredential =>
                "kind = \"webdav\" needs either source.user with source.password_file, or source.share_token for a public share link"@,
            ConfigError::IncompleteAccount =>
                "source.user and source.password_file must be given together"@,
            ConfigError::MissingAgentUrl => "build.url is required for kind = \"agent\""@,
            ConfigError::MissingLocalCommand => "build.command is required for kind = \"local\""@,
            ConfigError::PageDropOutOfRange => "gate.max_page_drop must be between 0.0 and 1.0"@,
        }
    }

    pub fn message(&self) -> (res: String)
        ensures
            res@ == self.spec_message(),
    {
        let mut out: Vec<char> = Vec::new();
        match self {
            ConfigError::UnsupportedSchema { found } => {
                push_str(&mut out, "schema_version ");
                let d = decimal_chars(*found as u64);
                push_all(&mut out, &d);
                push_str(&mut out, " is not supported by this build (expected 1)");
            },
            ConfigError::UnsupportedOnBusy { value } => {
                push_str(&mut out, "schedule.on_busy = ");
                push_all(&mut out, &crate::text::debug_quoted(value.as_str()));
                push_str(
                    &mut out,
                    " is not supported; only \"queue_latest\" is. Cancelling a running build can leave a published state whose irreversible post_publish effects half-fired.",
                );
            },
            ConfigError::HooksInsideSource { hooks, src } => {
                push_str(&mut out, "refusing to start: hook directory ");
                push_str(&mut out, hooks.as_str());
                push_str(&mut out, " is inside the source working copy ");
                push_str(&mut out, src.as_str());
                push_str(
                    &mut out,
                    ". A build is code execution; scripts must live outside the vault.",
                );
            },
            ConfigError::ConfigDirInsideSource { config_dir, src } => {
                push_str(&mut out, "refusing to start: config directory ");
                push_str(&mut out, config_dir.as_str());
                push_str(&mut out, " is inside the source working copy ");
                push_str(&mut out, src.as_str());
            },
            ConfigError::HooksInsideWatched { hooks, folder } => {
                push_str(&mut out, "refusing to start: hook directory ");
                push_str(&mut out, hooks.as_str());
                push_str(&mut out, " is inside the watched folder ");
                push_str(&mut out, folder.as_str());
                push_str(
                    &mut out,
                    ". A build is code execution; scripts must live outside the vault.",
                );
            },
            ConfigError::ConfigDirInsideWatched { config_dir, folder } => {
                push_str(&mut out, "refusing to start: config directory ");
                push_str(&mut out, config_dir.as_str());
                push_str(&mut out, " is inside the watched folder ");
                push_str(&mut out, folder.as_str());
            },
            ConfigError::MissingWebdavUrl => {
                push_str(&mut out, "source.url is required for kind = \"webdav\"");
            },
            ConfigError::AccountAndShare => {
                push_str(
                    &mut out,
                    "source has both an account (user/password_file) and a share_token; pick one",
                );
            },
            ConfigError::MissingCredential => {
                push_str(
                    &mut out,
                    "kind = \"webdav\" needs either source.user with source.password_file, or source.share_token for a public share link",
                );
            },
            ConfigError::IncompleteAccount => {
                push_str(&mut out, "source.user and source.password_file must be given together");
            },
            ConfigError::MissingAgentUrl => {
                push_str(&mut out, "build.url is required for kind = \"agent\"");
            },
            ConfigError::MissingLocalCommand => {
                push_str(&mut out, "build.command is required for kind = \"local\"");
            },
            ConfigError::PageDropOutOfRange => {
                push_str(&mut out, "gate.max_page_drop must be between 0.0 and 1.0");
            },
        }
        string_from_chars(&out)
    }
}

/// Whether the local build command is absent or empty.
pub open spec fn command_missing(c: &Config) -> bool {
    match c.build.command {
        None => true,
        Some(cmd) => cmd@.len() == 0,
    }
}

/// The first startup rule `c` breaks, checking in order; `None` when `c` is
/// acceptable.
pub open spec fn broken_rule(c: &Config) -> Option<Rule> {
    let account = c.source.user is Some || c.source.password_file is Some;
    let share = c.source.share_token is Some;
    if c.schema_version != SCHEMA_VERSION {
        Some(Rule::SchemaVersion)
    } else if c.schedule.on_busy@ != "queue_latest"@ {
        Some(Rule::OnBusy)
    } else if path_within(join(c.paths.config_dir@, "hooks"@), c.paths.src@) {
        Some(Rule::HooksOutsideSource)
    } else if path_within(c.paths.config_dir@, c.paths.src@) {
        Some(Rule::ConfigOutsideSource)
    } else if c.source.kind == SourceKind::Fs && path_within(
        join(c.paths.config_dir@, "hooks"@),
        c.source.path@,
    ) {
        Some(Rule::HooksOutsideWatched)
    } else if c.source.kind == SourceKind::Fs && path_within(c.paths.config_dir@, c.source.path@) {
        Some(Rule::ConfigOutsideWatched)
    } else if c.source.kind == SourceKind::Webdav && c.source.url is None {
        Some(Rule::WebdavUrl)
    } else if c.source.kind == SourceKind::Webdav && account && share {
        Some(Rule::OneCredential)
    } else if c.source.kind == SourceKind::Webdav && !account && !share {
        Some(Rule::SomeCredential)
    } else if c.source.kind == SourceKind::Webdav && account && (c.source.user is None
        || c.source.password_file is None) {
        Some(Rule::CompleteAccount)
    } else if c.build.kind == BuildKind::Agent && c.build.url is None {
        Some(Rule::AgentUrl)
    } else if c.build.kind == BuildKind::Local && command_missing(c) {
        Some(Rule::LocalCommand)
    } else if c.gate.max_page_drop_ppm > PPM_ONE {
        Some(Rule::PageDropRange)
    } else {
        None
    }
}

impl Config {
    /// A configuration with the given schema version and source, and every
    /// other section at its documented default.
    pub fn new(schema_version: u32, source: Source) -> (res: Self)
        ensures
            res.schema_version == schema_version,
            res.source == source,
            res.paths.src@ == "/work/src"@,
            res.paths.build@ == "/work/build"@,
            res.paths.state@ == "/work/state"@,
            res.paths.config_dir@ == "/etc/ncpages"@,
            res.triggers.poll_ms == 30_000,
            res.triggers.push is None,
            res.triggers.timer_ms is None,
            res.triggers.jitter_ppm == 100_000,
            res.schedule.debounce_ms == 10_000,
            res.schedule.max_delay_ms == 120_000,
            res.schedule.on_busy@ == "queue_latest"@,
            res.assemble.overlay@.len() == 0,
            res.assemble.source_subdir@ == "docs"@,
            res.build.kind == BuildKind::Local,
            res.build.url is None,
            res.build.token_file is None,
            res.build.command is None,
            res.build.timeout_ms == 600_000,
            res.build.output@ == "site"@,
            res.hooks.pre_build@.len() == 0,
            res.hooks.post_build@.len() == 0,
            res.hooks.post_publish@.len() == 0,
            res.gate.require_files@.len() == 0,
            res.gate.min_pages == 0,
            res.gate.max_page_drop_ppm == 400_000,
            res.gate.forbid_duplicate_basenames,
            res.publish.root@ == "/work/publish"@,
            res.publish.keep_releases == 5,
            res.serve.enabled,
            res.serve.listen@ == "0.0.0.0:8080"@,
            res.serve.cache_control_assets@ == "public, max-age=31536000, immutable"@,
            res.serve.cache_control_html@ == "no-cache"@,
            res.health.listen@ == "0.0.0.0:9090"@,
            res.report.app,
            res.report.app_url is None,
            res.report.ntfy_topic is None,
    {
        Config {
            schema_version,
            source,
            paths: Paths::default(),
            triggers: Triggers::default(),
            schedule: Schedule::default(),
            assemble: Assemble::default(),
            build: Build::default(),
            hooks: Hooks::default(),
            gate: Gate::default(),
            publish: Publish::default(),
            serve: Serve::default(),
            health: Health::default(),
            report: Report::default(),
        }
    }

    /// Startup checks that are fail-closed on purpose. A warning would be
    /// taken as advice and ignored exactly once.
    pub fn validate(&self) -> (res: Result<(), ConfigError>)
        ensures
            res is Ok <==> broken_rule(self) is None,
            res matches Err(e) ==> broken_rule(self) == Some(e.rule()) && e.names_values_of(self),
    {
        if self.schema_version != SCHEMA_VERSION {
            return Err(ConfigError::UnsupportedSchema { found: self.schema_version });
        }
        if !str_eq(self.schedule.on_busy.as_str(), "queue_latest") {
            return Err(ConfigError::UnsupportedOnBusy { value: self.schedule.on_busy.clone() });
        }
        // A hook directory inside the working copy means anyone with write
        // access to the shared folder has a shell on this host.
        let hooks = self.paths.hooks_dir();
        if path_within_exec(hooks.as_str(), self.paths.src.as_str()) {
            return Err(ConfigError::HooksInsideSource { hooks, src: self.paths.src.clone() });
        }
        if path_within_exec(self.paths.config_dir.as_str(), self.paths.src.as_str()) {
            return Err(
                ConfigError::ConfigDirInsideSource {
                    config_dir: self.paths.config_dir.clone(),
                    src: self.paths.src.clone(),
                },
            );
        }
        // An `fs` source watches a local folder: the same holds for it.
        if self.source.kind == SourceKind::Fs {
            if path_within_exec(hooks.as_str(), self.source.path.as_str()) {
                return Err(ConfigError::HooksInsideWatched { hooks, folder: self.source.path.clone() });
            }
            if path_within_exec(self.paths.config_dir.as_str(), self.source.path.as_str()) {
                return Err(
                    ConfigError::ConfigDirInsideWatched {
                        config_dir: self.paths.config_dir.clone(),
                        folder: self.source.path.clone(),
                    },
                );
            }
        }
        match self.source.kind {
            SourceKind::Webdav => {
                if self.source.url.is_none() {
                    return Err(ConfigError::MissingWebdavUrl);
                }
                let account = self.source.user.is_some() || self.source.password_file.is_some();
                let share = self.source.share_token.is_some();
                if account && share {
                    return Err(ConfigError::AccountAndShare);
                }
                if !account && !share {
                    return Err(ConfigError::MissingCredential);
                }
                if account && (self.source.user.is_none() || self.source.password_file.is_none()) {
                    return Err(ConfigError::IncompleteAccount);
                }
            },
            SourceKind::Fs => {},
        }
        match self.build.kind {
            BuildKind::Agent => {
                if self.build.url.is_none() {
                    return Err(ConfigError::MissingAgentUrl);
                }
            },
            BuildKind::Local => {
                let missing = match &self.build.command {
                    None => true,
                    Some(c) => c.len() == 0,
                };
                if missing {
                    return Err(ConfigError::MissingLocalCommand);
                }
            },
        }
        if self.gate.max_page_drop_ppm > PPM_ONE {
            return Err(ConfigError::PageDropOutOfRange);
        }
        Ok(())
    }

    /// `paths.build/build.output`: where the generator writes the site.
    pub fn out_dir(&self) -> (res: String)
        ensures
            res@ == join(self.paths.build@, self.build.output@),
    {
        join_path(self.paths.build.as_str(), self.build.output.as_str())
    }

    /// `paths.build/assemble.source_subdir`: where the vault content lands.
    pub fn content_dir(&self) -> (res: String)
        ensures
            res@ == join(self.paths.build@, self.assemble.source_subdir@),
    {
        join_path(self.paths.build.as_str(), self.assemble.source_subdir.as_str())
    }
}

/// The documented hook environment, one pair per variable, in name order.
pub open spec fn hook_env_pairs(
    c: &Config,
    release_dir: Option<Seq<char>>,
    prev_dir: Option<Seq<char>>,
    trigger: Seq<char>,
) -> Seq<(Seq<char>, Seq<char>)> {
    seq![
        ("NCPAGES_BUILD_DIR"@, c.paths.build@),
        ("NCPAGES_OUT_DIR"@, join(c.paths.build@, c.build.output@)),
        ("NCPAGES_PREV_DIR"@, match prev_dir { Some(p) => p, None => Seq::empty() }),
        ("NCPAGES_RELEASE_DIR"@, match release_dir { Some(p) => p, None => Seq::empty() }),
        ("NCPAGES_SRC_DIR"@, c.paths.src@),
        ("NCPAGES_TRIGGER"@, trigger),
    ]
}

/// Each documented variable of the hook environment names its own value:
/// `NCPAGES_SRC_DIR` the source working copy, `NCPAGES_BUILD_DIR` the build
/// tree, `NCPAGES_OUT_DIR` the generator's output inside it, the previous and
/// new release directories (empty when there is none), and the trigger.
pub proof fn lemma_hook_env_names_its_directories(
    c: &Config,
    release_dir: Option<Seq<char>>,
    prev_dir: Option<Seq<char>>,
    trigger: Seq<char>,
)
    ensures
        ({
            let m = env_map(hook_env_pairs(c, release_dir, prev_dir, trigger));
            &&& m.dom().len() == 6
            &&& m.contains_key("NCPAGES_SRC_DIR"@) && m["NCPAGES_SRC_DIR"@] == c.paths.src@
            &&& m.contains_key("NCPAGES_BUILD_DIR"@) && m["NCPAGES_BUILD_DIR"@] == c.paths.build@
            &&& m.contains_key("NCPAGES_OUT_DIR"@) && m["NCPAGES_OUT_DIR"@] == join(c.paths.build@, c.build.output@)
            &&& m.contains_key("NCPAGES_PREV_DIR"@) && m["NCPAGES_PREV_DIR"@] == match prev_dir {
                Some(p) => p,
                None => Seq::empty(),
            }
            &&& m.contains_key("NCPAGES_RELEASE_DIR"@) && m["NCPAGES_RELEASE_DIR"@] == match release_dir {
                Some(p) => p,
                None => Seq::empty(),
            }
            &&& m.contains_key("NCPAGES_TRIGGER"@) && m["NCPAGES_TRIGGER"@] == trigger
        }),
{
    reveal_strlit("NCPAGES_BUILD_DIR");
    reveal_strlit("NCPAGES_OUT_DIR");
    reveal_strlit("NCPAGES_PREV_DIR");
    reveal_strlit("NCPAGES_RELEASE_DIR");
    reveal_strlit("NCPAGES_SRC_DIR");
    reveal_strlit("NCPAGES_TRIGGER");
    let p = hook_env_pairs(c, release_dir, prev_dir, trigger);
    let n: Seq<Seq<char>> = seq![
        "NCPAGES_BUILD_DIR"@,
        "NCPAGES_OUT_DIR"@,
        "NCPAGES_PREV_DIR"@,
        "NCPAGES_RELEASE_DIR"@,
        "NCPAGES_SRC_DIR"@,
        "NCPAGES_TRIGGER"@,
    ];
    assert(n[0][8] != n[1][8] && n[0][8] != n[2][8] && n[0][8] != n[3][8] && n[0][8] != n[4][8] && n[0][8] != n[5][8]);
    assert(n[1][8] != n[2][8] && n[1][8] != n[3][8] && n[1][8] != n[4][8] && n[1][8] != n[5][8]);
    assert(n[2][8] != n[3][8] && n[2][8] != n[4][8] && n[2][8] != n[5][8]);
    assert(n[3][8] != n[4][8] && n[3][8] != n[5][8]);
    assert(n[4][8] != n[5][8]);
    reveal_with_fuel(env_map, 7);
    assert(p.drop_last().drop_last().drop_last().drop_last().drop_last().drop_last() =~= Seq::<(Seq<char>, Seq<char>)>::empty());
    let m = env_map(p);
    assert(m.dom() =~= set![n[0], n[1], n[2], n[3], n[4], n[5]]);
}

/// The value of a secret read from a file: its text without surrounding
/// whitespace, so that the newline an editor adds is not part of it. Secrets
/// are read from files, never taken from inline configuration values.
pub fn secret_value(raw: &str) -> (res: String)
    ensures
        res@ == crate::text::trim_white(raw@),
{
    crate::text::trim_str(raw)
}

/// Environment handed to every hook, per the documented contract. An absent
/// release or previous release is an empty value, never an unset variable.
pub fn hook_env(
    config: &Config,
    release_dir: Option<&str>,
    prev_dir: Option<&str>,
    trigger: &str,
) -> (res: StrMap)
    ensures
        res.pairs() == hook_env_pairs(config, opt_view(release_dir), opt_view(prev_dir), trigger@),
{
    let mut env = StrMap::new();
    let out = config.out_dir();
    let prev = match prev_dir {
        Some(p) => owned(p),
        None => String::new(),
    };
    let release = match release_dir {
        Some(p) => owned(p),
        None => String::new(),
    };
    proof {
        reveal_strlit("NCPAGES_BUILD_DIR");
        reveal_strlit("NCPAGES_OUT_DIR");
        reveal_strlit("NCPAGES_PREV_DIR");
        reveal_strlit("NCPAGES_RELEASE_DIR");
        reveal_strlit("NCPAGES_SRC_DIR");
        reveal_strlit("NCPAGES_TRIGGER");
    }
    let ghost names: Seq<Seq<char>> = seq![
        "NCPAGES_BUILD_DIR"@,
        "NCPAGES_OUT_DIR"@,
        "NCPAGES_PREV_DIR"@,
        "NCPAGES_RELEASE_DIR"@,
        "NCPAGES_SRC_DIR"@,
        "NCPAGES_TRIGGER"@,
    ];
    assert(names[0][8] != names[1][8]);
    assert(names[0][8] != names[2][8]);
    assert(names[0][8] != names[3][8]);
    assert(names[0][8] != names[4][8]);
    assert(names[0][8] != names[5][8]);
    assert(names[1][8] != names[2][8]);
    assert(names[1][8] != names[3][8]);
    assert(names[1][8] != names[4][8]);
    assert(names[1][8] != names[5][8]);
    assert(names[2][8] != names[3][8]);
    assert(names[2][8] != names[4][8]);
    assert(names[2][8] != names[5][8]);
    assert(names[3][8] != names[4][8]);
    assert(names[3][8] != names[5][8]);
    assert(names[4][8] != names[5][8]);
    let ghost expected = hook_env_pairs(config, opt_view(release_dir), opt_view(prev_dir), trigger@);
    env.set("NCPAGES_BUILD_DIR", config.paths.build.as_str());
    assert(env.pairs() =~= expected.take(1));
    proof { lemma_without_absent(env.pairs(), names[1]); }
    env.set("NCPAGES_OUT_DIR", out.as_str());
    assert(env.pairs() =~= expected.take(2));
    proof { lemma_without_absent(env.pairs(), names[2]); }
    env.set("NCPAGES_PREV_DIR", prev.as_str());
    assert(env.pairs() =~= expected.take(3));
    proof { lemma_without_absent(env.pairs(), names[3]); }
    env.set("NCPAGES_RELEASE_DIR", release.as_str());
    assert(env.pairs() =~= expected.take(4));
    proof { lemma_without_absent(env.pairs(), names[4]); }
    env.set("NCPAGES_SRC_DIR", config.paths.src.as_str());
    assert(env.pairs() =~= expected.take(5));
    proof { lemma_without_absent(env.pairs(), names[5]); }
    env.set("NCPAGES_TRIGGER", trigger);
    assert(env.pairs() =~= expected);
    env
}

} // verus!
