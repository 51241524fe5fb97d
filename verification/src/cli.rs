//! The command line of the `remotty` program.
use vstd::prelude::*;

use crate::text::{eq_str, str_of, str_views};

verus! {

pub const DEFAULT_CONFIG_PATH: &'static str = "bridge.toml";

#[derive(Debug, Clone, PartialEq, Eq)]
pub enum CliCommand {
    Run { config_path: String },
    /// `config_path` is `None` when the default file in the user's
    /// application data is meant (see `default_config_path`).
    RemoteControl { config_path: Option<String>, workspace_path: String },
    Config(ConfigCommand),
    Secret(SecretCommand),
    Service(ServiceCommand),
    Telegram(TelegramCommand),
}

#[derive(Debug, Clone, PartialEq, Eq)]
pub enum ConfigCommand {
    WorkspaceUpsert { config_path: Option<String>, workspace_path: String },
}

#[derive(Debug, Clone, PartialEq, Eq)]
pub enum SecretCommand {
    Put { key: String, value: String },
    Delete { key: String },
}

#[derive(Debug, Clone, PartialEq, Eq)]
pub enum ServiceCommand {
    Run { config_path: String },
    Install { config_path: String },
    Uninstall,
    Start,
    Stop,
    Status,
}

#[derive(Debug, Clone, PartialEq, Eq)]
pub enum TelegramCommand {
    Configure { config_path: String },
    Pair { config_path: String },
    AccessPair { code: String, config_path: String },
    PolicyAllowlist { config_path: String },
    LiveEnvCheck { config_path: String },
    Smoke { scenario: TelegramSmokeScenario, config_path: String },
}

#[derive(Debug, Clone, Copy, PartialEq, Eq, Structural)]
pub enum TelegramSmokeScenario {
    ApprovalAccept,
    ApprovalDecline,
}

// ---------------------------------------------------------------------------
// Mathematical content of a command line
// ---------------------------------------------------------------------------

pub enum CliView {
    Run(Seq<char>),
    RemoteControl(Option<Seq<char>>, Seq<char>),
    WorkspaceUpsert(Option<Seq<char>>, Seq<char>),
    SecretSet(Seq<char>, Seq<char>),
    SecretDelete(Seq<char>),
    ServiceRun(Seq<char>),
    ServiceInstall(Seq<char>),
    ServiceUninstall,
    ServiceStart,
    ServiceStop,
    ServiceStatus,
    TelegramConfigure(Seq<char>),
    TelegramPair(Seq<char>),
    TelegramAccessPair(Seq<char>, Seq<char>),
    TelegramPolicyAllowlist(Seq<char>),
    TelegramLiveEnvCheck(Seq<char>),
    TelegramSmoke(TelegramSmokeScenario, Seq<char>),
}

impl View for CliCommand {
    type V = CliView;

    open spec fn view(&self) -> CliView {
        match self {
            CliCommand::Run { config_path } => CliView::Run(config_path@),
            CliCommand::RemoteControl { config_path, workspace_path } => CliView::RemoteControl(
                opt_view(config_path),
                workspace_path@,
            ),
            CliCommand::Config(ConfigCommand::WorkspaceUpsert { config_path, workspace_path }) =>
                CliView::WorkspaceUpsert(opt_view(config_path), workspace_path@),
            CliCommand::Secret(SecretCommand::Put { key, value }) => CliView::SecretSet(key@, value@),
            CliCommand::Secret(SecretCommand::Delete { key }) => CliView::SecretDelete(key@),
            CliCommand::Service(ServiceCommand::Run { config_path }) => CliView::ServiceRun(
                config_path@,
            ),
            CliCommand::Service(ServiceCommand::Install { config_path }) => CliView::ServiceInstall(
                config_path@,
            ),
            CliCommand::Service(ServiceCommand::Uninstall) => CliView::ServiceUninstall,
            CliCommand::Service(ServiceCommand::Start) => CliView::ServiceStart,
            CliCommand::Service(ServiceCommand::Stop) => CliView::ServiceStop,
            CliCommand::Service(ServiceCommand::Status) => CliView::ServiceStatus,
            CliCommand::Telegram(TelegramCommand::Configure { config_path }) =>
                CliView::TelegramConfigure(config_path@),
            CliCommand::Telegram(TelegramCommand::Pair { config_path }) => CliView::TelegramPair(
                config_path@,
            ),
            CliCommand::Telegram(TelegramCommand::AccessPair { code, config_path }) =>
                CliView::TelegramAccessPair(code@, config_path@),
            CliCommand::Telegram(TelegramCommand::PolicyAllowlist { config_path }) =>
                CliView::TelegramPolicyAllowlist(config_path@),
            CliCommand::Telegram(TelegramCommand::LiveEnvCheck { config_path }) =>
                CliView::TelegramLiveEnvCheck(config_path@),
            CliCommand::Telegram(TelegramCommand::Smoke { scenario, config_path }) =>
                CliView::TelegramSmoke(*scenario, config_path@),
        }
    }
}

pub open spec fn result_view(r: Result<CliCommand, String>) -> Result<CliView, Seq<char>> {
    match r {
        Ok(c) => Ok(c@),
        Err(e) => Err(e@),
    }
}

pub open spec fn telegram_usage() -> Seq<char> {
    "usage: telegram configure [--config <path>] | telegram pair [--config <path>] | telegram access-pair <code> [--config <path>] | telegram policy allowlist [--config <path>] | telegram live-env-check [--config <path>] | telegram smoke approval <accept|decline> [--config <path>]"@
}

pub open spec fn service_usage() -> Seq<char> {
    "usage: service install [--config <path>] | service run --config <path> | service start | service stop | service status | service uninstall"@
}

pub open spec fn opt_view(s: &Option<String>) -> Option<Seq<char>> {
    match s {
        Some(x) => Some(x@),
        None => None,
    }
}

/// The config file that `remote-control` and `config workspace upsert` use
/// when none is given: `remotty\bridge.toml` under the user's application
/// data directory (`APPDATA`), or `bridge.toml` where that is unknown.
pub open spec fn spec_default_config_path(app_data: Option<Seq<char>>) -> Seq<char> {
    match app_data {
        Some(d) => d + "\\remotty\\bridge.toml"@,
        None => "bridge.toml"@,
    }
}

pub fn default_config_path(app_data: Option<&str>) -> (r: String)
    ensures
        r@ == spec_default_config_path(
            match app_data {
                Some(d) => Some(d@),
                None => None,
            },
        ),
{
    match app_data {
        Some(d) => {
            let mut r = str_of(d);
            r.append("\\remotty\\bridge.toml");
            r
        },
        None => default_path(),
    }
}

pub open spec fn remote_control_usage() -> Seq<char> {
    "usage: remote-control [--config <path>] [--workspace <path>]"@
}

/// The config file (none for the default one) and the project directory
/// (the current directory by default) that `--config` and `--workspace`
/// give, each at most once, in either order.
pub open spec fn spec_config_and_workspace(a: Seq<Seq<char>>) -> Option<(Option<Seq<char>>, Seq<char>)> {
    let d = None::<Seq<char>>;
    let here = "."@;
    if a.len() == 0 {
        Some((d, here))
    } else if a.len() == 2 && a[0] == "--config"@ {
        Some((Some(a[1]), here))
    } else if a.len() == 2 && a[0] == "--workspace"@ {
        Some((d, a[1]))
    } else if a.len() == 4 && a[0] == "--config"@ && a[2] == "--workspace"@ {
        Some((Some(a[1]), a[3]))
    } else if a.len() == 4 && a[0] == "--workspace"@ && a[2] == "--config"@ {
        Some((Some(a[3]), a[1]))
    } else {
        None
    }
}

/// The meaning of the arguments after `remote-control`.
pub open spec fn spec_remote_control_command(a: Seq<Seq<char>>) -> Result<CliView, Seq<char>> {
    match spec_config_and_workspace(a) {
        Some((c, w)) => Ok(CliView::RemoteControl(c, w)),
        None => Err(remote_control_usage()),
    }
}

pub open spec fn config_usage() -> Seq<char> {
    "usage: config workspace upsert [--config <path>] [--workspace <path>]"@
}

/// The meaning of the arguments after `config`.
pub open spec fn spec_config_command(a: Seq<Seq<char>>) -> Result<CliView, Seq<char>> {
    if a.len() >= 2 && a[0] == "workspace"@ && a[1] == "upsert"@ {
        match spec_config_and_workspace(a.skip(2)) {
            Some((c, w)) => Ok(CliView::WorkspaceUpsert(c, w)),
            None => Err(config_usage()),
        }
    } else {
        Err(config_usage())
    }
}

pub open spec fn secret_usage() -> Seq<char> {
    "usage: secret set <key> <value> | secret delete <key>"@
}

pub open spec fn spec_smoke_scenario(value: Seq<char>) -> Result<TelegramSmokeScenario, Seq<char>> {
    if value == "accept"@ {
        Ok(TelegramSmokeScenario::ApprovalAccept)
    } else if value == "decline"@ {
        Ok(TelegramSmokeScenario::ApprovalDecline)
    } else {
        Err("unknown smoke scenario: "@ + value)
    }
}

pub open spec fn smoke_view(value: Seq<char>, config_path: Seq<char>) -> Result<CliView, Seq<char>> {
    match spec_smoke_scenario(value) {
        Ok(s) => Ok(CliView::TelegramSmoke(s, config_path)),
        Err(e) => Err(e),
    }
}

/// The meaning of the arguments after `telegram`.
pub open spec fn spec_telegram_command(a: Seq<Seq<char>>) -> Result<CliView, Seq<char>> {
    let d = "bridge.toml"@;
    if a.len() == 1 && a[0] == "configure"@ {
        Ok(CliView::TelegramConfigure(d))
    } else if a.len() == 3 && a[0] == "configure"@ && a[1] == "--config"@ {
        Ok(CliView::TelegramConfigure(a[2]))
    } else if a.len() == 1 && a[0] == "pair"@ {
        Ok(CliView::TelegramPair(d))
    } else if a.len() == 3 && a[0] == "pair"@ && a[1] == "--config"@ {
        Ok(CliView::TelegramPair(a[2]))
    } else if a.len() == 2 && a[0] == "access-pair"@ {
        Ok(CliView::TelegramAccessPair(a[1], d))
    } else if a.len() == 4 && a[0] == "access-pair"@ && a[2] == "--config"@ {
        Ok(CliView::TelegramAccessPair(a[1], a[3]))
    } else if a.len() == 2 && a[0] == "policy"@ && a[1] == "allowlist"@ {
        Ok(CliView::TelegramPolicyAllowlist(d))
    } else if a.len() == 4 && a[0] == "policy"@ && a[1] == "allowlist"@ && a[2] == "--config"@ {
        Ok(CliView::TelegramPolicyAllowlist(a[3]))
    } else if a.len() == 1 && a[0] == "live-env-check"@ {
        Ok(CliView::TelegramLiveEnvCheck(d))
    } else if a.len() == 3 && a[0] == "live-env-check"@ && a[1] == "--config"@ {
        Ok(CliView::TelegramLiveEnvCheck(a[2]))
    } else if a.len() == 3 && a[0] == "smoke"@ && a[1] == "approval"@ {
        smoke_view(a[2], d)
    } else if a.len() == 5 && a[0] == "smoke"@ && a[1] == "approval"@ && a[3] == "--config"@ {
        smoke_view(a[2], a[4])
    } else {
        Err(telegram_usage())
    }
}

/// The meaning of the arguments after `secret`.
pub open spec fn spec_secret_command(a: Seq<Seq<char>>) -> Result<CliView, Seq<char>> {
    if a.len() == 3 && a[0] == "set"@ {
        Ok(CliView::SecretSet(a[1], a[2]))
    } else if a.len() == 2 && a[0] == "delete"@ {
        Ok(CliView::SecretDelete(a[1]))
    } else {
        Err(secret_usage())
    }
}

/// The meaning of the arguments after `service`.
pub open spec fn spec_service_command(a: Seq<Seq<char>>) -> Result<CliView, Seq<char>> {
    if a.len() == 1 && a[0] == "uninstall"@ {
        Ok(CliView::ServiceUninstall)
    } else if a.len() == 1 && a[0] == "start"@ {
        Ok(CliView::ServiceStart)
    } else if a.len() == 1 && a[0] == "stop"@ {
        Ok(CliView::ServiceStop)
    } else if a.len() == 1 && a[0] == "status"@ {
        Ok(CliView::ServiceStatus)
    } else if a.len() == 1 && a[0] == "install"@ {
        Ok(CliView::ServiceInstall("bridge.toml"@))
    } else if a.len() == 3 && a[0] == "install"@ && a[1] == "--config"@ {
        Ok(CliView::ServiceInstall(a[2]))
    } else if a.len() == 3 && a[0] == "run"@ && a[1] == "--config"@ {
        Ok(CliView::ServiceRun(a[2]))
    } else {
        Err(service_usage())
    }
}

/// The meaning of a command line (the program name left out).
pub open spec fn spec_parse_args(a: Seq<Seq<char>>) -> Result<CliView, Seq<char>> {
    if a.len() == 0 {
        Ok(CliView::Run("bridge.toml"@))
    } else if a[0] == "remote-control"@ {
        spec_remote_control_command(a.skip(1))
    } else if a[0] == "config"@ {
        spec_config_command(a.skip(1))
    } else if a[0] == "secret"@ {
        spec_secret_command(a.skip(1))
    } else if a[0] == "service"@ {
        spec_service_command(a.skip(1))
    } else if a[0] == "telegram"@ {
        spec_telegram_command(a.skip(1))
    } else if a[0] == "--config"@ {
        if a.len() < 2 {
            Err("missing config path after --config"@)
        } else if a.len() != 2 {
            Err("unexpected arguments after --config"@)
        } else {
            Ok(CliView::Run(a[1]))
        }
    } else {
        Err("unknown command: "@ + a[0])
    }
}

proof fn lemma_top_level(word: Seq<char>, rest: Seq<Seq<char>>)
    ensures
        word == "telegram"@ ==> spec_parse_args(seq![word] + rest) == spec_telegram_command(rest),
        word == "service"@ ==> spec_parse_args(seq![word] + rest) == spec_service_command(rest),
        word == "remote-control"@ ==> spec_parse_args(seq![word] + rest) == spec_remote_control_command(
            rest,
        ),
{
    reveal_strlit("telegram");
    reveal_strlit("service");
    reveal_strlit("secret");
    reveal_strlit("remote-control");
    reveal_strlit("config");
    assert("telegram"@.len() == 8 && "service"@.len() == 7 && "secret"@.len() == 6);
    assert("remote-control"@.len() == 14 && "config"@.len() == 6);
    assert("service"@ != "secret"@) by {
        assert("service"@.len() != "secret"@.len());
    }
    let a = seq![word] + rest;
    assert(a[0] == word);
    assert(a.skip(1) =~= rest);
}

proof fn lemma_telegram_words(p: Seq<char>, code: Seq<char>)
    ensures
        spec_telegram_command(seq!["configure"@, "--config"@, p]) == Ok::<CliView, Seq<char>>(
            CliView::TelegramConfigure(p),
        ),
        spec_telegram_command(seq!["configure"@]) == Ok::<CliView, Seq<char>>(
            CliView::TelegramConfigure("bridge.toml"@),
        ),
        spec_telegram_command(seq!["pair"@, "--config"@, p]) == Ok::<CliView, Seq<char>>(
            CliView::TelegramPair(p),
        ),
        spec_telegram_command(seq!["access-pair"@, code, "--config"@, p]) == Ok::<CliView, Seq<char>>(
            CliView::TelegramAccessPair(code, p),
        ),
        spec_telegram_command(seq!["policy"@, "allowlist"@, "--config"@, p]) == Ok::<CliView, Seq<char>>(
            CliView::TelegramPolicyAllowlist(p),
        ),
        spec_telegram_command(seq!["live-env-check"@, "--config"@, p]) == Ok::<CliView, Seq<char>>(
            CliView::TelegramLiveEnvCheck(p),
        ),
{
    reveal_strlit("configure");
    reveal_strlit("--config");
    reveal_strlit("pair");
    reveal_strlit("access-pair");
    reveal_strlit("policy");
    reveal_strlit("allowlist");
    reveal_strlit("live-env-check");
    assert("configure"@.len() == 9 && "pair"@.len() == 4 && "access-pair"@.len() == 11);
    assert("policy"@.len() == 6 && "live-env-check"@.len() == 14);
}

proof fn lemma_service_words(p: Seq<char>)
    ensures
        spec_service_command(seq!["install"@, "--config"@, p]) == Ok::<CliView, Seq<char>>(
            CliView::ServiceInstall(p),
        ),
        spec_service_command(seq!["run"@, "--config"@, p]) == Ok::<CliView, Seq<char>>(
            CliView::ServiceRun(p),
        ),
{
    reveal_strlit("install");
    reveal_strlit("run");
    reveal_strlit("--config");
    assert("install"@.len() == 7 && "run"@.len() == 3);
}

/// A `--config <path>` given on the command line is the config file the
/// command uses, for every command that takes one; without it the command
/// uses `bridge.toml`.
pub proof fn lemma_config_path_is_kept(p: Seq<char>, code: Seq<char>)
    ensures
        spec_parse_args(seq!["telegram"@, "configure"@, "--config"@, p]) == Ok::<CliView, Seq<char>>(
            CliView::TelegramConfigure(p),
        ),
        spec_parse_args(seq!["telegram"@, "configure"@]) == Ok::<CliView, Seq<char>>(
            CliView::TelegramConfigure("bridge.toml"@),
        ),
        spec_parse_args(seq!["telegram"@, "pair"@, "--config"@, p]) == Ok::<CliView, Seq<char>>(
            CliView::TelegramPair(p),
        ),
        spec_parse_args(seq!["telegram"@, "access-pair"@, code, "--config"@, p]) == Ok::<
            CliView,
            Seq<char>,
        >(CliView::TelegramAccessPair(code, p)),
        spec_parse_args(seq!["telegram"@, "policy"@, "allowlist"@, "--config"@, p]) == Ok::<
            CliView,
            Seq<char>,
        >(CliView::TelegramPolicyAllowlist(p)),
        spec_parse_args(seq!["telegram"@, "live-env-check"@, "--config"@, p]) == Ok::<
            CliView,
            Seq<char>,
        >(CliView::TelegramLiveEnvCheck(p)),
        spec_parse_args(seq!["service"@, "install"@, "--config"@, p]) == Ok::<CliView, Seq<char>>(
            CliView::ServiceInstall(p),
        ),
        spec_parse_args(seq!["service"@, "run"@, "--config"@, p]) == Ok::<CliView, Seq<char>>(
            CliView::ServiceRun(p),
        ),
        spec_parse_args(seq!["remote-control"@, "--config"@, p]) == Ok::<CliView, Seq<char>>(
            CliView::RemoteControl(Some(p), "."@),
        ),
{
    lemma_telegram_words(p, code);
    lemma_service_words(p);
    reveal_strlit("--config");
    let t = "telegram"@;
    lemma_top_level(t, seq!["configure"@, "--config"@, p]);
    assert(seq![t] + seq!["configure"@, "--config"@, p] =~= seq![t, "configure"@, "--config"@, p]);
    lemma_top_level(t, seq!["configure"@]);
    assert(seq![t] + seq!["configure"@] =~= seq![t, "configure"@]);
    lemma_top_level(t, seq!["pair"@, "--config"@, p]);
    assert(seq![t] + seq!["pair"@, "--config"@, p] =~= seq![t, "pair"@, "--config"@, p]);
    lemma_top_level(t, seq!["access-pair"@, code, "--config"@, p]);
    assert(seq![t] + seq!["access-pair"@, code, "--config"@, p] =~= seq![
        t,
        "access-pair"@,
        code,
        "--config"@,
        p,
    ]);
    lemma_top_level(t, seq!["policy"@, "allowlist"@, "--config"@, p]);
    assert(seq![t] + seq!["policy"@, "allowlist"@, "--config"@, p] =~= seq![
        t,
        "policy"@,
        "allowlist"@,
        "--config"@,
        p,
    ]);
    lemma_top_level(t, seq!["live-env-check"@, "--config"@, p]);
    assert(seq![t] + seq!["live-env-check"@, "--config"@, p] =~= seq![
        t,
        "live-env-check"@,
        "--config"@,
        p,
    ]);
    let sv = "service"@;
    lemma_top_level(sv, seq!["install"@, "--config"@, p]);
    assert(seq![sv] + seq!["install"@, "--config"@, p] =~= seq![sv, "install"@, "--config"@, p]);
    lemma_top_level(sv, seq!["run"@, "--config"@, p]);
    assert(seq![sv] + seq!["run"@, "--config"@, p] =~= seq![sv, "run"@, "--config"@, p]);
    let rc = "remote-control"@;
    lemma_top_level(rc, seq!["--config"@, p]);
    assert(seq![rc] + seq!["--config"@, p] =~= seq![rc, "--config"@, p]);
    reveal_strlit("remote-control");
    reveal_strlit("telegram");
    reveal_strlit("service");
    reveal_strlit("secret");
    reveal_strlit("config");
    assert("--config"@.len() == 8 && "remote-control"@.len() == 14 && "config"@.len() == 6);
    assert("--config"@ != "secret"@ && "--config"@ != "service"@) by {
        assert("secret"@.len() == 6 && "service"@.len() == 7);
    }
    assert("--config"@ != "telegram"@) by {
        assert("--config"@[0] != "telegram"@[0]);
    }
}

// ---------------------------------------------------------------------------
// Parsing
// ---------------------------------------------------------------------------

fn is_word(arg: &String, word: &str) -> (r: bool)
    ensures
        r == (arg@ == word@),
{
    let v = crate::text::chars_of(arg.as_str());
    eq_str(&v, word)
}

fn default_path() -> (r: String)
    ensures
        r@ == "bridge.toml"@,
{
    str_of(DEFAULT_CONFIG_PATH)
}

pub fn parse_smoke_scenario(value: &String) -> (r: Result<TelegramSmokeScenario, String>)
    ensures
        match r {
            Ok(s) => spec_smoke_scenario(value@) == Ok::<TelegramSmokeScenario, Seq<char>>(s),
            Err(e) => spec_smoke_scenario(value@) == Err::<TelegramSmokeScenario, Seq<char>>(e@),
        },
{
    if is_word(value, "accept") {
        Ok(TelegramSmokeScenario::ApprovalAccept)
    } else if is_word(value, "decline") {
        Ok(TelegramSmokeScenario::ApprovalDecline)
    } else {
        let mut e = str_of("unknown smoke scenario: ");
        e.append(value.as_str());
        Err(e)
    }
}

fn smoke(value: &String, config_path: String) -> (r: Result<CliCommand, String>)
    ensures
        result_view(r) == smoke_view(value@, config_path@),
{
    match parse_smoke_scenario(value) {
        Ok(scenario) => Ok(CliCommand::Telegram(TelegramCommand::Smoke { scenario, config_path })),
        Err(e) => Err(e),
    }
}

pub fn parse_telegram_command(a: &[String]) -> (r: Result<CliCommand, String>)
    ensures
        result_view(r) == spec_telegram_command(str_views(a@)),
{
    let ghost v = str_views(a@);
    let n = a.len();
    if n == 1 && is_word(&a[0], "configure") {
        return Ok(CliCommand::Telegram(TelegramCommand::Configure { config_path: default_path() }));
    }
    if n == 3 && is_word(&a[0], "configure") && is_word(&a[1], "--config") {
        return Ok(
            CliCommand::Telegram(TelegramCommand::Configure { config_path: a[2].clone() }),
        );
    }
    if n == 1 && is_word(&a[0], "pair") {
        return Ok(CliCommand::Telegram(TelegramCommand::Pair { config_path: default_path() }));
    }
    if n == 3 && is_word(&a[0], "pair") && is_word(&a[1], "--config") {
        return Ok(CliCommand::Telegram(TelegramCommand::Pair { config_path: a[2].clone() }));
    }
    if n == 2 && is_word(&a[0], "access-pair") {
        return Ok(
            CliCommand::Telegram(
                TelegramCommand::AccessPair { code: a[1].clone(), config_path: default_path() },
            ),
        );
    }
    if n == 4 && is_word(&a[0], "access-pair") && is_word(&a[2], "--config") {
        return Ok(
            CliCommand::Telegram(
                TelegramCommand::AccessPair { code: a[1].clone(), config_path: a[3].clone() },
            ),
        );
    }
    if n == 2 && is_word(&a[0], "policy") && is_word(&a[1], "allowlist") {
        return Ok(
            CliCommand::Telegram(TelegramCommand::PolicyAllowlist { config_path: default_path() }),
        );
    }
    if n == 4 && is_word(&a[0], "policy") && is_word(&a[1], "allowlist") && is_word(
        &a[2],
        "--config",
    ) {
        return Ok(
            CliCommand::Telegram(TelegramCommand::PolicyAllowlist { config_path: a[3].clone() }),
        );
    }
    if n == 1 && is_word(&a[0], "live-env-check") {
        return Ok(
            CliCommand::Telegram(TelegramCommand::LiveEnvCheck { config_path: default_path() }),
        );
    }
    if n == 3 && is_word(&a[0], "live-env-check") && is_word(&a[1], "--config") {
        return Ok(
            CliCommand::Telegram(TelegramCommand::LiveEnvCheck { config_path: a[2].clone() }),
        );
    }
    if n == 3 && is_word(&a[0], "smoke") && is_word(&a[1], "approval") {
        return smoke(&a[2], default_path());
    }
    if n == 5 && is_word(&a[0], "smoke") && is_word(&a[1], "approval") && is_word(
        &a[3],
        "--config",
    ) {
        return smoke(&a[2], a[4].clone());
    }
    Err(
        str_of(
            "usage: telegram configure [--config <path>] | telegram pair [--config <path>] | telegram access-pair <code> [--config <path>] | telegram policy allowlist [--config <path>] | telegram live-env-check [--config <path>] | telegram smoke approval <accept|decline> [--config <path>]",
        ),
    )
}

fn parse_config_and_workspace(a: &[String]) -> (r: Option<(Option<String>, String)>)
    ensures
        match spec_config_and_workspace(str_views(a@)) {
            Some((c, w)) => r matches Some((rc, rw)) && opt_view(&rc) == c && rw@ == w,
            None => r is None,
        },
{
    let n = a.len();
    if n == 0 {
        return Some((None, str_of(".")));
    }
    if n == 2 && is_word(&a[0], "--config") {
        return Some((Some(a[1].clone()), str_of(".")));
    }
    if n == 2 && is_word(&a[0], "--workspace") {
        return Some((None, a[1].clone()));
    }
    if n == 4 && is_word(&a[0], "--config") && is_word(&a[2], "--workspace") {
        return Some((Some(a[1].clone()), a[3].clone()));
    }
    if n == 4 && is_word(&a[0], "--workspace") && is_word(&a[2], "--config") {
        return Some((Some(a[3].clone()), a[1].clone()));
    }
    None
}

pub fn parse_remote_control_command(a: &[String]) -> (r: Result<CliCommand, String>)
    ensures
        result_view(r) == spec_remote_control_command(str_views(a@)),
{
    match parse_config_and_workspace(a) {
        Some((config_path, workspace_path)) => Ok(CliCommand::RemoteControl { config_path, workspace_path }),
        None => Err(str_of("usage: remote-control [--config <path>] [--workspace <path>]")),
    }
}

pub fn parse_config_command(a: &[String]) -> (r: Result<CliCommand, String>)
    ensures
        result_view(r) == spec_config_command(str_views(a@)),
{
    let usage = "usage: config workspace upsert [--config <path>] [--workspace <path>]";
    if a.len() >= 2 && is_word(&a[0], "workspace") && is_word(&a[1], "upsert") {
        let rest = a.split_at(2).1;
        assert(str_views(rest@) =~= str_views(a@).skip(2));
        return match parse_config_and_workspace(rest) {
            Some((config_path, workspace_path)) => Ok(
                CliCommand::Config(ConfigCommand::WorkspaceUpsert { config_path, workspace_path }),
            ),
            None => Err(str_of(usage)),
        };
    }
    Err(str_of(usage))
}

pub fn parse_secret_command(a: &[String]) -> (r: Result<CliCommand, String>)
    ensures
        result_view(r) == spec_secret_command(str_views(a@)),
{
    let n = a.len();
    if n == 3 && is_word(&a[0], "set") {
        return Ok(CliCommand::Secret(SecretCommand::Put { key: a[1].clone(), value: a[2].clone() }));
    }
    if n == 2 && is_word(&a[0], "delete") {
        return Ok(CliCommand::Secret(SecretCommand::Delete { key: a[1].clone() }));
    }
    Err(str_of("usage: secret set <key> <value> | secret delete <key>"))
}

pub fn parse_service_command(a: &[String]) -> (r: Result<CliCommand, String>)
    ensures
        result_view(r) == spec_service_command(str_views(a@)),
{
    let n = a.len();
    if n == 1 && is_word(&a[0], "uninstall") {
        return Ok(CliCommand::Service(ServiceCommand::Uninstall));
    }
    if n == 1 && is_word(&a[0], "start") {
        return Ok(CliCommand::Service(ServiceCommand::Start));
    }
    if n == 1 && is_word(&a[0], "stop") {
        return Ok(CliCommand::Service(ServiceCommand::Stop));
    }
    if n == 1 && is_word(&a[0], "status") {
        return Ok(CliCommand::Service(ServiceCommand::Status));
    }
    if n == 1 && is_word(&a[0], "install") {
        return Ok(CliCommand::Service(ServiceCommand::Install { config_path: default_path() }));
    }
    if n == 3 && is_word(&a[0], "install") && is_word(&a[1], "--config") {
        return Ok(CliCommand::Service(ServiceCommand::Install { config_path: a[2].clone() }));
    }
    if n == 3 && is_word(&a[0], "run") && is_word(&a[1], "--config") {
        return Ok(CliCommand::Service(ServiceCommand::Run { config_path: a[2].clone() }));
    }
    Err(
        str_of(
            "usage: service install [--config <path>] | service run --config <path> | service start | service stop | service status | service uninstall",
        ),
    )
}

/// Reads the command line (without the program name).
pub fn parse_args(args: Vec<String>) -> (r: Result<CliCommand, String>)
    ensures
        result_view(r) == spec_parse_args(str_views(args@)),
{
    let ghost v = str_views(args@);
    if args.len() == 0 {
        return Ok(CliCommand::Run { config_path: default_path() });
    }
    let rest = args.as_slice().split_at(1).1;
    assert(str_views(rest@) =~= v.skip(1));
    if is_word(&args[0], "remote-control") {
        return parse_remote_control_command(rest);
    }
    if is_word(&args[0], "config") {
        return parse_config_command(rest);
    }
    if is_word(&args[0], "secret") {
        return parse_secret_command(rest);
    }
    if is_word(&args[0], "service") {
        return parse_service_command(rest);
    }
    if is_word(&args[0], "telegram") {
        return parse_telegram_command(rest);
    }
    if is_word(&args[0], "--config") {
        if args.len() < 2 {
            return Err(str_of("missing config path after --config"));
        }
        if args.len() != 2 {
            return Err(str_of("unexpected arguments after --config"));
        }
        return Ok(CliCommand::Run { config_path: args[1].clone() });
    }
    let mut e = str_of("unknown command: ");
    e.append(args[0].as_str());
    Err(e)
}

} // verus!
