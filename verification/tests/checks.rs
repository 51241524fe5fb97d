use remotty::checks::{finish_check_run, record_check_outcome, start_check_run, CommandOutcome};

#[test]
fn a_run_stops_at_the_first_failed_command() {
    let mut run = start_check_run("default", 3);
    assert!(record_check_outcome(&mut run, "fmt", CommandOutcome::Passed).is_none());
    let summary = record_check_outcome(
        &mut run,
        "clippy",
        CommandOutcome::Failed { exit_code: Some(2) },
    )
    .expect("a failure ends the run");
    assert_eq!(summary.completed_commands, 1);
    assert_eq!(summary.total_commands, 3);
    assert_eq!(
        summary.summary(),
        "completion checks failed on 'clippy' in profile 'default' (exit code 2)"
    );
}

#[test]
fn a_timed_out_command_is_reported() {
    let mut run = start_check_run("default", 1);
    let summary = record_check_outcome(&mut run, "test", CommandOutcome::TimedOut)
        .expect("a timeout ends the run");
    assert!(summary.timed_out);
    assert_eq!(
        summary.summary(),
        "completion checks timed out on 'test' in profile 'default'"
    );
}

#[test]
fn a_run_whose_commands_all_pass_succeeds() {
    let mut run = start_check_run("default", 2);
    assert!(record_check_outcome(&mut run, "fmt", CommandOutcome::Passed).is_none());
    assert!(record_check_outcome(&mut run, "test", CommandOutcome::Passed).is_none());
    let summary = finish_check_run(&run);
    assert!(summary.success);
    assert_eq!(
        summary.summary(),
        "completion checks passed for profile 'default' (2/2 commands)"
    );
}

#[test]
fn an_empty_profile_passes() {
    let summary = finish_check_run(&start_check_run("empty", 0));
    assert_eq!(
        summary.summary(),
        "completion checks passed for profile 'empty' (0/0 commands)"
    );
}
