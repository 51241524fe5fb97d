//! The Windows service the bridge installs: its name, the command it runs
//! and how its status reads.
use vstd::prelude::*;

use crate::text::{str_of, str_views};

verus! {

pub const SERVICE_NAME: &'static str = "codex_telegram_bridge";

pub fn service_name() -> (r: &'static str)
    ensures
        r@ == SERVICE_NAME@,
{
    SERVICE_NAME
}

/// The status of the installed service, as the service manager reports it
/// (`service_manager::ServiceStatus`, which the caller converts variant by
/// variant).
#[derive(Debug, Clone, PartialEq, Eq)]
pub enum ServiceState {
    NotInstalled,
    Running,
    Stopped(Option<String>),
}

pub open spec fn spec_state_text(state: ServiceState) -> Seq<char> {
    match state {
        ServiceState::NotInstalled => "not_installed"@,
        ServiceState::Running => "running"@,
        ServiceState::Stopped(Some(reason)) => "stopped ("@ + reason@ + ")"@,
        ServiceState::Stopped(None) => "stopped"@,
    }
}

/// The status line of `service status`.
pub fn format_service_status(state: &ServiceState) -> (r: String)
    ensures
        r@ == spec_state_text(*state),
{
    match state {
        ServiceState::NotInstalled => str_of("not_installed"),
        ServiceState::Running => str_of("running"),
        ServiceState::Stopped(Some(reason)) => {
            let mut r = str_of("stopped (");
            r.append(reason.as_str());
            r.append(")");
            r
        },
        ServiceState::Stopped(None) => str_of("stopped"),
    }
}

/// The arguments the service runs the bridge with.
pub fn service_run_args(config_path: &str) -> (r: Vec<String>)
    ensures
        str_views(r@) == seq!["service"@, "run"@, "--config"@, config_path@],
{
    let r = vec![str_of("service"), str_of("run"), str_of("--config"), str_of(config_path)];
    assert(str_views(r@) =~= seq!["service"@, "run"@, "--config"@, config_path@]);
    r
}

/// The service runs in the directory of its configuration file.
pub fn service_working_directory(config_parent: Option<String>) -> (r: Result<String, String>)
    ensures
        match config_parent {
            Some(p) => r matches Ok(d) && d@ == p@,
            None => r matches Err(e) && e@ == "config path must have a parent directory"@,
        },
{
    match config_parent {
        Some(p) => Ok(p),
        None => Err(str_of("config path must have a parent directory")),
    }
}

} // verus!
