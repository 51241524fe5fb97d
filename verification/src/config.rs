//! The bridge's configuration (`bridge.toml`) and its validation.
use vstd::prelude::*;

use crate::text::{eq_ignore_case, eq_ignore_case_str, str_is_blank, str_of, string_eq, trim};

verus! {

#[derive(Debug, Clone)]
pub struct Config {
    pub service: ServiceConfig,
    pub telegram: TelegramConfig,
    pub codex: CodexConfig,
    pub storage: StorageConfig,
    pub policy: PolicyConfig,
    pub checks: ChecksConfig,
    pub workspaces: Vec<WorkspaceConfig>,
}

#[derive(Debug, Clone)]
pub struct ServiceConfig {
    pub run_mode: RunMode,
    pub poll_timeout_sec: u64,
    pub shutdown_grace_sec: u64,
}

#[derive(Debug, Clone, Copy, PartialEq, Eq, Structural)]
pub enum RunMode {
    Console,
    Service,
}

#[derive(Debug, Clone)]
pub struct TelegramConfig {
    pub token_secret_ref: String,
    pub allowed_chat_types: Vec<String>,
    pub admin_sender_ids: Vec<i64>,
    pub api_base_url: String,
    pub file_base_url: String,
}

#[derive(Debug, Clone)]
pub struct CodexConfig {
    pub binary: String,
    pub model: String,
    pub sandbox: String,
    pub approval: String,
    pub transport: CodexTransport,
    pub profile: Option<String>,
}

#[derive(Debug, Clone, Copy, PartialEq, Eq, Structural)]
pub enum CodexTransport {
    Exec,
    AppServer,
}

/// Paths of the bridge's storage, as the configuration file gives them.
#[derive(Debug, Clone)]
pub struct StorageConfig {
    pub db_path: String,
    pub state_dir: String,
    pub temp_dir: String,
    pub log_dir: String,
}

#[derive(Debug, Clone)]
pub struct PolicyConfig {
    pub default_mode: LaneMode,
    pub progress_edit_interval_ms: u64,
    pub max_output_chars: usize,
    pub max_turns_limit: i64,
}

/// A named checks profile.
#[derive(Debug, Clone, PartialEq, Eq)]
pub struct NamedCheckProfile {
    pub name: String,
    pub profile: CheckProfile,
}

/// The checks profiles, each under its own name: `Config::validate` refuses
/// a name given twice.
#[derive(Debug, Clone)]
pub struct ChecksConfig {
    pub profiles: Vec<NamedCheckProfile>,
}

#[derive(Debug, Clone, PartialEq, Eq)]
pub struct CheckProfile {
    pub commands: Vec<CheckCommand>,
}

#[derive(Debug, Clone, PartialEq, Eq)]
pub struct CheckCommand {
    pub name: String,
    pub program: String,
    pub args: Vec<String>,
    pub timeout_sec: u64,
}

#[derive(Debug, Clone)]
pub struct WorkspaceConfig {
    pub id: String,
    pub path: String,
    pub writable_roots: Vec<String>,
    pub default_mode: LaneMode,
    pub continue_prompt: String,
    pub checks_profile: String,
}

#[derive(Debug, Clone, Copy, PartialEq, Eq, Structural)]
pub enum LaneMode {
    AwaitReply,
    Infinite,
    CompletionChecks,
    MaxTurns,
}

pub const DEFAULT_MAX_TURNS_BUDGET: i64 = 3;


/// The index of the first workspace whose id is `id`.
pub open spec fn spec_workspace_index(ws: Seq<WorkspaceConfig>, id: Seq<char>, i: int) -> Option<int>
    decreases ws.len() - i,
{
    if 0 <= i < ws.len() {
        if ws[i].id@ == id {
            Some(i)
        } else {
            spec_workspace_index(ws, id, i + 1)
        }
    } else {
        None
    }
}

impl Config {
    /// The first workspace of the configuration.
    pub fn default_workspace(&self) -> (r: &WorkspaceConfig)
        requires
            self.workspaces@.len() > 0,
        ensures
            *r == self.workspaces@[0],
    {
        &self.workspaces[0]
    }

    pub fn workspace_index(&self, workspace_id: &str) -> (r: Option<usize>)
        ensures
            match r {
                Some(i) => i < self.workspaces@.len() && spec_workspace_index(
                    self.workspaces@,
                    workspace_id@,
                    0,
                ) == Some(i as int),
                None => spec_workspace_index(self.workspaces@, workspace_id@, 0) is None,
            },
    {
        let mut i: usize = 0;
        while i < self.workspaces.len()
            invariant
                i <= self.workspaces.len(),
                spec_workspace_index(self.workspaces@, workspace_id@, 0) == spec_workspace_index(
                    self.workspaces@,
                    workspace_id@,
                    i as int,
                ),
            decreases self.workspaces.len() - i,
        {
            if string_eq(self.workspaces[i].id.as_str(), workspace_id) {
                return Some(i);
            }
            i = i + 1;
        }
        None
    }

    /// The first workspace whose id is `workspace_id`.
    pub fn workspace(&self, workspace_id: &str) -> (r: Option<&WorkspaceConfig>)
        ensures
            match r {
                Some(w) => exists|i: int|
                    0 <= i < self.workspaces@.len() && spec_workspace_index(
                        self.workspaces@,
                        workspace_id@,
                        0,
                    ) == Some(i) && *w == self.workspaces@[i],
                None => spec_workspace_index(self.workspaces@, workspace_id@, 0) is None,
            },
    {
        match self.workspace_index(workspace_id) {
            Some(i) => Some(&self.workspaces[i]),
            None => None,
        }
    }

    /// The checks profile named `name` (the first, should two share it).
    pub fn check_profile(&self, name: &str) -> (r: Option<&CheckProfile>)
        ensures
            match r {
                Some(p) => exists|i: int|
                    0 <= i < self.checks.profiles@.len() && self.checks.profiles@[i].name@ == name@
                        && *p == self.checks.profiles@[i].profile && forall|k: int|
                        0 <= k < i ==> self.checks.profiles@[k].name@ != name@,
                None => !has_profile(self.checks.profiles@, name@),
            },
    {
        let profiles = &self.checks.profiles;
        let mut i: usize = 0;
        while i < profiles.len()
            invariant
                i <= profiles.len(),
                profiles == &self.checks.profiles,
                forall|k: int| 0 <= k < i ==> profiles@[k].name@ != name@,
            decreases profiles.len() - i,
        {
            if string_eq(profiles[i].name.as_str(), name) {
                return Some(&profiles[i].profile);
            }
            i = i + 1;
        }
        None
    }
}


// ---------------------------------------------------------------------------
// URLs of the Telegram API
// ---------------------------------------------------------------------------

/// The parts of a parsed URL that the configuration checks.
pub struct UrlParts {
    pub scheme: String,
    pub host: Option<String>,
    pub port: Option<u16>,
    pub username: String,
    pub password: Option<String>,
    pub path: String,
    pub query: Option<String>,
    pub fragment: Option<String>,
}

pub struct UrlPartsView {
    pub scheme: Seq<char>,
    pub host: Option<Seq<char>>,
    pub port: Option<u16>,
    pub username: Seq<char>,
    pub password: Option<Seq<char>>,
    pub path: Seq<char>,
    pub query: Option<Seq<char>>,
    pub fragment: Option<Seq<char>>,
}

pub open spec fn ov(o: Option<String>) -> Option<Seq<char>> {
    match o {
        Some(s) => Some(s@),
        None => None,
    }
}

impl View for UrlParts {
    type V = UrlPartsView;

    open spec fn view(&self) -> UrlPartsView {
        UrlPartsView {
            scheme: self.scheme@,
            host: ov(self.host),
            port: self.port,
            username: self.username@,
            password: ov(self.password),
            path: self.path@,
            query: ov(self.query),
            fragment: ov(self.fragment),
        }
    }
}

pub open spec fn url_parts_view(o: Option<UrlParts>) -> Option<UrlPartsView> {
    match o {
        Some(u) => Some(u@),
        None => None,
    }
}

/// What `url::Url::parse` makes of a text: `None` when it is no URL.
pub uninterp spec fn spec_parse_url(value: Seq<char>) -> Option<UrlPartsView>;

/// Calls `reqwest::Url::parse` (the `url` crate's parser) and reads the parts
/// of the result: scheme, host, port, user name, password, path, query and
/// fragment. Claims only that the result depends on the text alone.
#[verifier::external_body]
fn parse_url(value: &str) -> (r: Option<UrlParts>)
    ensures
        url_parts_view(r) == spec_parse_url(value@),
{
    let url = reqwest::Url::parse(value).ok()?;
    Some(UrlParts {
        scheme: url.scheme().to_owned(),
        host: url.host_str().map(str::to_owned),
        port: url.port(),
        username: url.username().to_owned(),
        password: url.password().map(str::to_owned),
        path: url.path().to_owned(),
        query: url.query().map(str::to_owned),
        fragment: url.fragment().map(str::to_owned),
    })
}

pub open spec fn base_path_ok(path: Seq<char>, file: bool) -> bool {
    if file {
        path == "/file"@ || path == "/file/"@
    } else {
        path == ""@ || path == "/"@
    }
}

/// The official API server, or a local test server over HTTP(S), with no
/// credentials, query or fragment and the expected base path.
pub open spec fn spec_base_url_error(field: Seq<char>, parts: Option<UrlPartsView>, file: bool) -> Option<
    Seq<char>,
> {
    match parts {
        None => Some(field + " must be a valid URL"@),
        Some(u) => match u.host {
            None => Some(field + " must include a host"@),
            Some(host) => {
                let clean = u.username.len() == 0 && u.password is None && base_path_ok(u.path, file)
                    && u.query is None && u.fragment is None;
                let official = u.scheme == "https"@ && eq_ignore_case(host, "api.telegram.org"@)
                    && u.port is None && clean;
                let local = (host == "localhost"@ || host == "127.0.0.1"@ || host == "::1"@) && (
                u.scheme == "http"@ || u.scheme == "https"@) && clean;
                if !official && !local {
                    Some(
                        field
                            + " must point to `https://api.telegram.org` or a localhost test server"@,
                    )
                } else {
                    None
                }
            },
        },
    }
}

fn path_is(v: &String, lit: &str) -> (r: bool)
    ensures
        r == (v@ == lit@),
{
    string_eq(v.as_str(), lit)
}

/// Checks the parsed form of a Telegram base URL.
pub fn check_base_url(field: &str, parts: Option<UrlParts>, file: bool) -> (r: Result<(), String>)
    ensures
        match spec_base_url_error(field@, url_parts_view(parts), file) {
            Some(e) => r matches Err(m) && m@ == e,
            None => r is Ok,
        },
{
    let u = match parts {
        None => {
            let mut m = str_of(field);
            m.append(" must be a valid URL");
            return Err(m);
        },
        Some(u) => u,
    };
    let host = match &u.host {
        None => {
            let mut m = str_of(field);
            m.append(" must include a host");
            return Err(m);
        },
        Some(h) => h,
    };
    let path_ok = if file {
        path_is(&u.path, "/file") || path_is(&u.path, "/file/")
    } else {
        path_is(&u.path, "") || path_is(&u.path, "/")
    };
    let clean = u.username.as_str().unicode_len() == 0 && u.password.is_none() && path_ok
        && u.query.is_none() && u.fragment.is_none();
    let host_chars = crate::text::chars_of(host.as_str());
    let official = path_is(&u.scheme, "https") && eq_ignore_case_str(&host_chars, "api.telegram.org")
        && u.port.is_none() && clean;
    let local = (path_is(host, "localhost") || path_is(host, "127.0.0.1") || path_is(host, "::1")) && (
    path_is(&u.scheme, "http") || path_is(&u.scheme, "https")) && clean;
    if !official && !local {
        let mut m = str_of(field);
        m.append(" must point to `https://api.telegram.org` or a localhost test server");
        return Err(m);
    }
    Ok(())
}

pub fn validate_telegram_api_base_url(value: &str) -> (r: Result<(), String>)
    ensures
        match spec_base_url_error("telegram.api_base_url"@, spec_parse_url(value@), false) {
            Some(e) => r matches Err(m) && m@ == e,
            None => r is Ok,
        },
{
    check_base_url("telegram.api_base_url", parse_url(value), false)
}

pub fn validate_telegram_file_base_url(value: &str) -> (r: Result<(), String>)
    ensures
        match spec_base_url_error("telegram.file_base_url"@, spec_parse_url(value@), true) {
            Some(e) => r matches Err(m) && m@ == e,
            None => r is Ok,
        },
{
    check_base_url("telegram.file_base_url", parse_url(value), true)
}


// ---------------------------------------------------------------------------
// Storage paths relative to the config file
// ---------------------------------------------------------------------------

/// A path that is relative on every platform: no `:`, and no leading `/`
/// or `\`.
pub open spec fn plainly_relative(path: Seq<char>) -> bool {
    &&& forall|i: int| 0 <= i < path.len() ==> path[i] != ':'
    &&& !(path.len() > 0 && (path[0] == '/' || path[0] == '\\'))
}

/// `std::path::Path::is_absolute`. Which paths are absolute depends on the
/// platform; a plainly relative path is relative on every one.
#[verifier::external_body]
fn path_is_absolute(path: &str) -> (r: bool)
    ensures
        plainly_relative(path@) ==> !r,
{
    std::path::Path::new(path).is_absolute()
}

/// No verbatim Windows prefix (`\\?\`) can start in a path without `?`.
pub open spec fn no_question_mark(path: Seq<char>) -> bool {
    forall|i: int| 0 <= i < path.len() ==> path[i] != '?'
}

/// `joined` is `path` appended to `base`, directly or after one separator.
pub open spec fn joined_path(base: Seq<char>, path: Seq<char>, joined: Seq<char>) -> bool {
    ||| joined == base + path
    ||| joined == base + seq!['/'] + path
    ||| joined == base + seq!['\\'] + path
}

/// `std::path::Path::join`, displayed. For a plainly relative `path` on a
/// base without a verbatim prefix, `PathBuf::push` appends `path`, after
/// the platform's separator unless `base` is empty or already ends in one
/// (or is a bare drive); which separator depends on the platform.
#[verifier::external_body]
fn path_join(base_dir: &str, path: &str) -> (r: String)
    ensures
        plainly_relative(path@) && no_question_mark(base_dir@) ==> joined_path(base_dir@, path@, r@),
{
    std::path::Path::new(base_dir).join(path).display().to_string()
}

/// `std::path::Path::parent`, displayed: none for the empty path. For a
/// path whose last component is plain and follows a separator, it is a
/// non-empty start of the path that ends before that component; what else
/// it strips depends on the platform's separators and prefixes.
#[verifier::external_body]
fn path_parent(path: &str) -> (r: Option<String>)
    ensures
        path@.len() == 0 ==> r is None,
        match r {
            Some(q) => forall|name: Seq<char>|
                #![trigger crate::config_workspace::plain_last_component(path@, name)]
                crate::config_workspace::plain_last_component(path@, name) && name.len() < path@.len()
                    ==> parent_of(path@, name, q@),
            None => forall|name: Seq<char>|
                #![trigger crate::config_workspace::plain_last_component(path@, name)]
                !(crate::config_workspace::plain_last_component(path@, name) && name.len()
                    < path@.len()),
        },
{
    std::path::Path::new(path).parent().map(|parent| parent.display().to_string())
}

/// `parent` is a non-empty start of `path` that ends before its last
/// component `name`.
pub open spec fn parent_of(path: Seq<char>, name: Seq<char>, parent: Seq<char>) -> bool {
    &&& parent.len() > 0
    &&& parent.len() <= path.len() - name.len()
    &&& path.take(parent.len() as int) == parent
}

/// A storage path after resolution against `base`: a plainly relative one
/// is appended to `base`.
pub open spec fn path_resolved(before: Seq<char>, after: Seq<char>, base: Seq<char>) -> bool {
    plainly_relative(before) ==> joined_path(base, before, after)
}

pub open spec fn storage_resolved(before: StorageConfig, after: StorageConfig, base: Seq<char>) -> bool {
    &&& path_resolved(before.db_path@, after.db_path@, base)
    &&& path_resolved(before.state_dir@, after.state_dir@, base)
    &&& path_resolved(before.temp_dir@, after.temp_dir@, base)
    &&& path_resolved(before.log_dir@, after.log_dir@, base)
}

/// `value` as is when it is absolute, else joined to `base_dir`.
pub fn resolve_relative_path(base_dir: &str, value: &str) -> (r: String)
    ensures
        plainly_relative(value@) && no_question_mark(base_dir@) ==> joined_path(base_dir@, value@, r@),
{
    if path_is_absolute(value) {
        str_of(value)
    } else {
        path_join(base_dir, value)
    }
}

impl Config {
    /// Resolves the storage paths against the directory of the config file
    /// at `config_path`; nothing else changes, and nothing at all when the
    /// path has no parent.
    pub fn resolve_relative_paths(&mut self, config_path: &str)
        ensures
            final(self).service == old(self).service,
            final(self).telegram == old(self).telegram,
            final(self).codex == old(self).codex,
            final(self).policy == old(self).policy,
            final(self).checks == old(self).checks,
            final(self).workspaces == old(self).workspaces,
            config_path@.len() == 0 ==> *final(self) == *old(self),
            forall|name: Seq<char>|
                #![trigger crate::config_workspace::plain_last_component(config_path@, name)]
                crate::config_workspace::plain_last_component(config_path@, name) && name.len()
                    < config_path@.len() && no_question_mark(config_path@) ==> exists|base: Seq<char>|
                    #![trigger parent_of(config_path@, name, base)]
                    parent_of(config_path@, name, base) && storage_resolved(
                        old(self).storage,
                        final(self).storage,
                        base,
                    ),
    {
        let base_dir = match path_parent(config_path) {
            Some(dir) => dir,
            None => {
                return;
            },
        };
        let ghost before = self.storage;
        self.storage.db_path = resolve_relative_path(base_dir.as_str(), self.storage.db_path.as_str());
        self.storage.state_dir = resolve_relative_path(base_dir.as_str(), self.storage.state_dir.as_str());
        self.storage.temp_dir = resolve_relative_path(base_dir.as_str(), self.storage.temp_dir.as_str());
        self.storage.log_dir = resolve_relative_path(base_dir.as_str(), self.storage.log_dir.as_str());
        proof {
            assert forall|name: Seq<char>|
                crate::config_workspace::plain_last_component(config_path@, name) && name.len()
                    < config_path@.len() && no_question_mark(config_path@) implies exists|base: Seq<char>|
                    #![trigger parent_of(config_path@, name, base)]
                    parent_of(config_path@, name, base) && storage_resolved(before, self.storage, base) by {
                assert(parent_of(config_path@, name, base_dir@));
                assert forall|i: int| 0 <= i < base_dir@.len() implies base_dir@[i] != '?' by {
                    assert(config_path@.take(base_dir@.len() as int)[i] == config_path@[i]);
                }
                assert(no_question_mark(base_dir@));
                assert(storage_resolved(before, self.storage, base_dir@));
            }
        }
    }
}

// ---------------------------------------------------------------------------
// Validation
// ---------------------------------------------------------------------------

pub open spec fn has_profile(profiles: Seq<NamedCheckProfile>, name: Seq<char>) -> bool {
    exists|i: int| 0 <= i < profiles.len() && profiles[i].name@ == name
}

/// The error of the `i`-th workspace, given that the ones before it passed.
pub open spec fn spec_workspace_error(c: Config, i: int) -> Option<Seq<char>> {
    let w = c.workspaces@[i];
    if trim(w.id@).len() == 0 {
        Some("workspace id must not be empty"@)
    } else if exists|j: int| 0 <= j < i && c.workspaces@[j].id@ == w.id@ {
        Some("duplicate workspace id '"@ + w.id@ + "'"@)
    } else if !has_profile(c.checks.profiles@, w.checks_profile@) {
        Some(
            "workspace '"@ + w.id@ + "' references unknown checks profile '"@ + w.checks_profile@
                + "'"@,
        )
    } else {
        None
    }
}

pub open spec fn spec_first_workspace_error(c: Config, i: int) -> Option<Seq<char>>
    decreases c.workspaces@.len() - i,
{
    if 0 <= i < c.workspaces@.len() {
        match spec_workspace_error(c, i) {
            Some(e) => Some(e),
            None => spec_first_workspace_error(c, i + 1),
        }
    } else {
        None
    }
}

pub open spec fn spec_command_error(profile_name: Seq<char>, command: CheckCommand) -> Option<
    Seq<char>,
> {
    if trim(command.name@).len() == 0 {
        Some("checks profile '"@ + profile_name + "' has a command with an empty name"@)
    } else if trim(command.program@).len() == 0 {
        Some(
            "checks profile '"@ + profile_name + "' has a command '"@ + command.name@
                + "' with an empty program"@,
        )
    } else if command.timeout_sec == 0 {
        Some(
            "checks profile '"@ + profile_name + "' has a command '"@ + command.name@
                + "' with timeout_sec = 0"@,
        )
    } else {
        None
    }
}

pub open spec fn spec_first_command_error(p: NamedCheckProfile, k: int) -> Option<Seq<char>>
    decreases p.profile.commands@.len() - k,
{
    if 0 <= k < p.profile.commands@.len() {
        match spec_command_error(p.name@, p.profile.commands@[k]) {
            Some(e) => Some(e),
            None => spec_first_command_error(p, k + 1),
        }
    } else {
        None
    }
}

pub open spec fn spec_first_profile_error(profiles: Seq<NamedCheckProfile>, i: int) -> Option<
    Seq<char>,
>
    decreases profiles.len() - i,
{
    if 0 <= i < profiles.len() {
        if exists|j: int| 0 <= j < i && profiles[j].name@ == profiles[i].name@ {
            Some("duplicate checks profile '"@ + profiles[i].name@ + "'"@)
        } else {
            match spec_first_command_error(profiles[i], 0) {
                Some(e) => Some(e),
                None => spec_first_profile_error(profiles, i + 1),
            }
        }
    } else {
        None
    }
}

/// The first problem of a configuration, in the order the bridge checks them.
pub open spec fn spec_validate(c: Config) -> Option<Seq<char>> {
    if trim(c.telegram.api_base_url@).len() == 0 {
        Some("telegram.api_base_url must not be empty"@)
    } else if trim(c.telegram.file_base_url@).len() == 0 {
        Some("telegram.file_base_url must not be empty"@)
    } else if spec_base_url_error(
        "telegram.api_base_url"@,
        spec_parse_url(c.telegram.api_base_url@),
        false,
    ) is Some {
        spec_base_url_error("telegram.api_base_url"@, spec_parse_url(c.telegram.api_base_url@), false)
    } else if spec_base_url_error(
        "telegram.file_base_url"@,
        spec_parse_url(c.telegram.file_base_url@),
        true,
    ) is Some {
        spec_base_url_error("telegram.file_base_url"@, spec_parse_url(c.telegram.file_base_url@), true)
    } else if c.codex.profile matches Some(p) && trim(p@).len() == 0 {
        Some("codex.profile must not be blank"@)
    } else if c.workspaces@.len() == 0 {
        Some("workspaces must not be empty"@)
    } else if spec_first_workspace_error(c, 0) is Some {
        spec_first_workspace_error(c, 0)
    } else if spec_first_profile_error(c.checks.profiles@, 0) is Some {
        spec_first_profile_error(c.checks.profiles@, 0)
    } else if c.policy.max_turns_limit <= 0 {
        Some("policy.max_turns_limit must be greater than zero"@)
    } else {
        None
    }
}

fn profile_exists(profiles: &Vec<NamedCheckProfile>, name: &str) -> (r: bool)
    ensures
        r == has_profile(profiles@, name@),
{
    let mut i: usize = 0;
    while i < profiles.len()
        invariant
            i <= profiles.len(),
            forall|k: int| 0 <= k < i ==> profiles@[k].name@ != name@,
        decreases profiles.len() - i,
    {
        if string_eq(profiles[i].name.as_str(), name) {
            return true;
        }
        i = i + 1;
    }
    false
}

fn profile_seen_before(profiles: &Vec<NamedCheckProfile>, i: usize) -> (r: bool)
    requires
        i < profiles@.len(),
    ensures
        r == exists|j: int| 0 <= j < i && profiles@[j].name@ == profiles@[i as int].name@,
{
    let mut j: usize = 0;
    while j < i
        invariant
            i < profiles@.len(),
            j <= i,
            forall|k: int| 0 <= k < j ==> profiles@[k].name@ != profiles@[i as int].name@,
        decreases i - j,
    {
        if string_eq(profiles[j].name.as_str(), profiles[i].name.as_str()) {
            return true;
        }
        j = j + 1;
    }
    false
}

/// No two profiles share a name.
pub open spec fn profile_names_distinct(profiles: Seq<NamedCheckProfile>) -> bool {
    forall|i: int, j: int| 0 <= i < j < profiles.len() ==> profiles[i].name@ != profiles[j].name@
}

proof fn lemma_no_profile_error_names_distinct(profiles: Seq<NamedCheckProfile>, i: int)
    requires
        0 <= i <= profiles.len(),
        spec_first_profile_error(profiles, i) is None,
    ensures
        forall|a: int, b: int| 0 <= a < b && i <= b < profiles.len() ==> profiles[a].name@ != profiles[b].name@,
    decreases profiles.len() - i,
{
    if i < profiles.len() {
        lemma_no_profile_error_names_distinct(profiles, i + 1);
    }
}

fn id_seen_before(workspaces: &Vec<WorkspaceConfig>, i: usize) -> (r: bool)
    requires
        i < workspaces@.len(),
    ensures
        r == exists|j: int| 0 <= j < i && workspaces@[j].id@ == workspaces@[i as int].id@,
{
    let mut j: usize = 0;
    while j < i
        invariant
            i < workspaces@.len(),
            j <= i,
            forall|k: int| 0 <= k < j ==> workspaces@[k].id@ != workspaces@[i as int].id@,
        decreases i - j,
    {
        if string_eq(workspaces[j].id.as_str(), workspaces[i].id.as_str()) {
            return true;
        }
        j = j + 1;
    }
    false
}

impl Config {
    /// Checks the configuration; the error names the first problem found.
    #[verifier::loop_isolation(false)]
    pub fn validate(&self) -> (r: Result<(), String>)
        ensures
            match spec_validate(*self) {
                Some(e) => r matches Err(m) && m@ == e,
                None => r is Ok,
            },
            r is Ok ==> profile_names_distinct(self.checks.profiles@),
    {
        if str_is_blank(self.telegram.api_base_url.as_str()) {
            return Err(str_of("telegram.api_base_url must not be empty"));
        }
        if str_is_blank(self.telegram.file_base_url.as_str()) {
            return Err(str_of("telegram.file_base_url must not be empty"));
        }
        validate_telegram_api_base_url(self.telegram.api_base_url.as_str())?;
        validate_telegram_file_base_url(self.telegram.file_base_url.as_str())?;
        match &self.codex.profile {
            Some(p) => {
                if str_is_blank(p.as_str()) {
                    return Err(str_of("codex.profile must not be blank"));
                }
            },
            None => {},
        }
        if self.workspaces.len() == 0 {
            return Err(str_of("workspaces must not be empty"));
        }
        let mut i: usize = 0;
        while i < self.workspaces.len()
            invariant
                i <= self.workspaces.len(),
                spec_first_workspace_error(*self, 0) == spec_first_workspace_error(*self, i as int),
            decreases self.workspaces.len() - i,
        {
            let w = &self.workspaces[i];
            if str_is_blank(w.id.as_str()) {
                return Err(str_of("workspace id must not be empty"));
            }
            if id_seen_before(&self.workspaces, i) {
                let mut m = str_of("duplicate workspace id '");
                m.append(w.id.as_str());
                m.append("'");
                return Err(m);
            }
            if !profile_exists(&self.checks.profiles, w.checks_profile.as_str()) {
                let mut m = str_of("workspace '");
                m.append(w.id.as_str());
                m.append("' references unknown checks profile '");
                m.append(w.checks_profile.as_str());
                m.append("'");
                return Err(m);
            }
            i = i + 1;
        }
        let profiles = &self.checks.profiles;
        let mut p: usize = 0;
        while p < profiles.len()
            invariant
                p <= profiles.len(),
                spec_first_profile_error(profiles@, 0) == spec_first_profile_error(profiles@, p as int),
                spec_first_workspace_error(*self, 0) is None,
                profiles == &self.checks.profiles,
            decreases profiles.len() - p,
        {
            let named = &profiles[p];
            if profile_seen_before(profiles, p) {
                let mut m = str_of("duplicate checks profile '");
                m.append(named.name.as_str());
                m.append("'");
                return Err(m);
            }
            let mut k: usize = 0;
            while k < named.profile.commands.len()
                invariant
                    k <= named.profile.commands.len(),
                    spec_first_command_error(*named, 0) == spec_first_command_error(*named, k as int),
                decreases named.profile.commands.len() - k,
            {
                let command = &named.profile.commands[k];
                if str_is_blank(command.name.as_str()) {
                    let mut m = str_of("checks profile '");
                    m.append(named.name.as_str());
                    m.append("' has a command with an empty name");
                    return Err(m);
                }
                if str_is_blank(command.program.as_str()) {
                    let mut m = str_of("checks profile '");
                    m.append(named.name.as_str());
                    m.append("' has a command '");
                    m.append(command.name.as_str());
                    m.append("' with an empty program");
                    return Err(m);
                }
                if command.timeout_sec == 0 {
                    let mut m = str_of("checks profile '");
                    m.append(named.name.as_str());
                    m.append("' has a command '");
                    m.append(command.name.as_str());
                    m.append("' with timeout_sec = 0");
                    return Err(m);
                }
                k = k + 1;
            }
            p = p + 1;
        }
        if self.policy.max_turns_limit <= 0 {
            return Err(str_of("policy.max_turns_limit must be greater than zero"));
        }
        proof {
            lemma_no_profile_error_names_distinct(self.checks.profiles@, 0);
        }
        Ok(())
    }
}

} // verus!
