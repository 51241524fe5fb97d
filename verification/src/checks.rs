//! Results of running a checks profile after a completed turn.
use vstd::prelude::*;

use crate::text::{dec, int_str, push_chars, str_of, u64_chars, i64_chars};

verus! {

#[derive(Debug, Clone, PartialEq, Eq)]
pub struct CheckRunSummary {
    pub profile_name: String,
    pub total_commands: usize,
    pub completed_commands: usize,
    pub success: bool,
    pub timed_out: bool,
    pub failed_command: Option<String>,
    pub exit_code: Option<i32>,
}

impl CheckRunSummary {
    pub open spec fn failed_name(&self) -> Seq<char> {
        match self.failed_command {
            Some(name) => name@,
            None => "unknown"@,
        }
    }

    /// The one-line report of the run.
    pub open spec fn summary_text(&self) -> Seq<char> {
        if self.success {
            "completion checks passed for profile '"@ + self.profile_name@ + "' ("@ + dec(
                self.completed_commands as nat,
            ) + "/"@ + dec(self.total_commands as nat) + " commands)"@
        } else if self.timed_out {
            "completion checks timed out on '"@ + self.failed_name() + "' in profile '"@
                + self.profile_name@ + "'"@
        } else {
            match self.exit_code {
                Some(code) => "completion checks failed on '"@ + self.failed_name()
                    + "' in profile '"@ + self.profile_name@ + "' (exit code "@ + int_str(
                    code as int,
                ) + ")"@,
                None => "completion checks failed on '"@ + self.failed_name() + "' in profile '"@
                    + self.profile_name@ + "'"@,
            }
        }
    }

    pub fn summary(&self) -> (r: String)
        ensures
            r@ == self.summary_text(),
    {
        if self.success {
            let mut r = str_of("completion checks passed for profile '");
            r.append(self.profile_name.as_str());
            r.append("' (");
            let done = u64_chars(self.completed_commands as u64);
            push_chars(&mut r, done.as_slice());
            r.append("/");
            let total = u64_chars(self.total_commands as u64);
            push_chars(&mut r, total.as_slice());
            r.append(" commands)");
            return r;
        }
        let failed: &str = match &self.failed_command {
            Some(name) => name.as_str(),
            None => "unknown",
        };
        if self.timed_out {
            let mut r = str_of("completion checks timed out on '");
            r.append(failed);
            r.append("' in profile '");
            r.append(self.profile_name.as_str());
            r.append("'");
            return r;
        }
        let mut r = str_of("completion checks failed on '");
        r.append(failed);
        r.append("' in profile '");
        r.append(self.profile_name.as_str());
        match self.exit_code {
            Some(code) => {
                r.append("' (exit code ");
                let digits = i64_chars(code as i64);
                push_chars(&mut r, digits.as_slice());
                r.append(")");
            },
            None => {
                r.append("'");
            },
        }
        r
    }
}

/// How one check command ended.
#[derive(Debug, Clone, Copy, PartialEq, Eq)]
pub enum CommandOutcome {
    Passed,
    Failed { exit_code: Option<i32> },
    TimedOut,
}

/// A profile run in progress: the commands of the profile are run in order,
/// and the run stops at the first one that fails or times out.
#[derive(Debug, Clone)]
pub struct CheckRun {
    pub profile_name: String,
    pub total_commands: usize,
    pub completed_commands: usize,
}

/// A run of `total_commands` commands of the profile `profile_name`, none run yet.
pub fn start_check_run(profile_name: &str, total_commands: usize) -> (r: CheckRun)
    ensures
        r.profile_name@ == profile_name@,
        r.total_commands == total_commands,
        r.completed_commands == 0,
{
    CheckRun { profile_name: str_of(profile_name), total_commands, completed_commands: 0 }
}

/// The summary of a run that stopped at `command_name`.
pub open spec fn stopped_at(
    s: CheckRunSummary,
    run: CheckRun,
    command_name: Seq<char>,
    timed_out: bool,
    exit_code: Option<i32>,
) -> bool {
    &&& s.profile_name@ == run.profile_name@
    &&& s.total_commands == run.total_commands
    &&& s.completed_commands == run.completed_commands
    &&& !s.success
    &&& s.timed_out == timed_out
    &&& (s.failed_command matches Some(n) && n@ == command_name)
    &&& s.exit_code == exit_code
}

/// Records the outcome of the next command, `command_name`: a pass is
/// counted and the run goes on (`None`); a failure or a timeout ends the run
/// with its summary.
pub fn record_check_outcome(run: &mut CheckRun, command_name: &str, outcome: CommandOutcome) -> (r:
    Option<CheckRunSummary>)
    requires
        old(run).completed_commands < old(run).total_commands,
    ensures
        final(run).profile_name@ == old(run).profile_name@,
        final(run).total_commands == old(run).total_commands,
        outcome is Passed ==> r is None && final(run).completed_commands == old(run).completed_commands
            + 1,
        !(outcome is Passed) ==> final(run).completed_commands == old(run).completed_commands,
        outcome matches CommandOutcome::Failed { exit_code } ==> (r matches Some(s) && stopped_at(
            s,
            *old(run),
            command_name@,
            false,
            exit_code,
        )),
        outcome is TimedOut ==> (r matches Some(s) && stopped_at(s, *old(run), command_name@, true, None)),
{
    match outcome {
        CommandOutcome::Passed => {
            run.completed_commands = run.completed_commands + 1;
            None
        },
        CommandOutcome::Failed { exit_code } => Some(
            CheckRunSummary {
                profile_name: str_of(run.profile_name.as_str()),
                total_commands: run.total_commands,
                completed_commands: run.completed_commands,
                success: false,
                timed_out: false,
                failed_command: Some(str_of(command_name)),
                exit_code,
            },
        ),
        CommandOutcome::TimedOut => Some(
            CheckRunSummary {
                profile_name: str_of(run.profile_name.as_str()),
                total_commands: run.total_commands,
                completed_commands: run.completed_commands,
                success: false,
                timed_out: true,
                failed_command: Some(str_of(command_name)),
                exit_code: None,
            },
        ),
    }
}

/// The summary of a run whose commands all passed.
pub fn finish_check_run(run: &CheckRun) -> (r: CheckRunSummary)
    ensures
        r.profile_name@ == run.profile_name@,
        r.total_commands == run.total_commands,
        r.completed_commands == run.completed_commands,
        r.success,
        !r.timed_out,
        r.failed_command is None,
        r.exit_code is None,
{
    CheckRunSummary {
        profile_name: str_of(run.profile_name.as_str()),
        total_commands: run.total_commands,
        completed_commands: run.completed_commands,
        success: true,
        timed_out: false,
        failed_command: None,
        exit_code: None,
    }
}

} // verus!
