use remotty::checks::CheckRunSummary;
use remotty::config::LaneMode;
use remotty::engine::{
    dispatch_step, DispatchOutcome, DispatchStep,
    admit_update, completion_check_step, keep_visible_message, runs_completion_checks, CompletionCheckStep,
    UpdateAdmission,
};
use remotty::store::AuthorizedSender;

fn sender(sender_id: i64, source: &str) -> AuthorizedSender {
    AuthorizedSender {
        sender_id,
        platform: "telegram".to_owned(),
        display_name: None,
        status: "active".to_owned(),
        approved_at_ms: 1,
        source: source.to_owned(),
    }
}

fn chat_types() -> Vec<String> {
    vec!["private".to_owned(), "group".to_owned()]
}

#[test]
fn authorize_sender_for_update_accepts_config_sender_in_group_chat() {
    let stored = sender(42, "config");
    assert_eq!(
        admit_update(&chat_types(), "group", Some(42), Some(&stored)),
        UpdateAdmission::Handle(42)
    );
}

#[test]
fn authorize_sender_for_update_rejects_paired_sender_in_group_chat() {
    let stored = sender(77, "paired");
    assert_eq!(
        admit_update(&chat_types(), "group", Some(77), Some(&stored)),
        UpdateAdmission::Ignore
    );
    assert_eq!(
        admit_update(&chat_types(), "private", Some(77), Some(&stored)),
        UpdateAdmission::Handle(77)
    );
}

#[test]
fn unknown_senders_are_offered_pairing_only_in_private_chats() {
    assert_eq!(
        admit_update(&chat_types(), "private", Some(5), None),
        UpdateAdmission::OfferPairing(5)
    );
    assert_eq!(
        admit_update(&chat_types(), "group", Some(5), None),
        UpdateAdmission::Ignore
    );
    assert_eq!(
        admit_update(&chat_types(), "private", None, None),
        UpdateAdmission::Ignore
    );
}

#[test]
fn chats_of_other_types_are_ignored() {
    let stored = sender(42, "config");
    assert_eq!(
        admit_update(&vec!["private".to_owned()], "supergroup", Some(42), Some(&stored)),
        UpdateAdmission::Ignore
    );
}

fn failed_summary() -> CheckRunSummary {
    CheckRunSummary {
        profile_name: "default".to_owned(),
        total_commands: 2,
        completed_commands: 1,
        success: false,
        timed_out: false,
        failed_command: Some("test".to_owned()),
        exit_code: Some(1),
    }
}

#[test]
fn completion_checks_run_only_in_their_mode_without_pending_approval() {
    assert!(runs_completion_checks(LaneMode::CompletionChecks, false));
    assert!(!runs_completion_checks(LaneMode::CompletionChecks, true));
    assert!(!runs_completion_checks(LaneMode::AwaitReply, false));
}

#[test]
fn failed_checks_are_sent_back_for_repair_until_the_repairs_are_used_up() {
    match completion_check_step(0, failed_summary(), Some("thread-1"), "continue") {
        CompletionCheckStep::Retry { session_id, prompt } => {
            assert_eq!(session_id, "thread-1");
            assert_eq!(
                prompt,
                "continue\n\n以下の確認に失敗しました。原因を直し、必要ならテストを追加してから続けてください。\ncompletion checks failed on 'test' in profile 'default' (exit code 1)\n"
            );
        }
        CompletionCheckStep::Settled(_) => panic!("the first failure is repaired"),
    }
    assert!(matches!(
        completion_check_step(2, failed_summary(), Some("thread-1"), "continue"),
        CompletionCheckStep::Settled(Some(_))
    ));
    assert!(matches!(
        completion_check_step(0, failed_summary(), None, "continue"),
        CompletionCheckStep::Settled(Some(_))
    ));
    let mut passed = failed_summary();
    passed.success = true;
    assert!(matches!(
        completion_check_step(1, passed, Some("thread-1"), "continue"),
        CompletionCheckStep::Settled(None)
    ));
}

#[test]
fn automatic_turns_keep_the_last_visible_message() {
    assert_eq!(keep_visible_message("done".to_owned(), "CHANNEL_WAITING"), "done");
    assert_eq!(keep_visible_message("done".to_owned(), "   "), "done");
    assert_eq!(keep_visible_message("done".to_owned(), "more work"), "more work");
}

#[test]
fn approval_pending_message_counts_notices() {
    assert_eq!(
        remotty::engine::format_approval_pending_message(1),
        "Approval is pending. Use the approval message below to continue."
    );
    assert_eq!(
        remotty::engine::format_approval_pending_message(3),
        "Approval is pending. 3 approval messages were sent; handle them in order."
    );
}

fn notice(request_id: &str, message_id: i64) -> remotty::engine::DispatchedNotice {
    remotty::engine::DispatchedNotice {
        request_id: request_id.to_owned(),
        message_id,
        text: format!("notice {request_id}"),
    }
}

#[test]
fn a_failed_notice_rolls_back_the_ones_sent_before() {
    let mut dispatched = Vec::new();
    assert!(matches!(
        dispatch_step(&mut dispatched, "req-1", DispatchOutcome::Sent(notice("req-1", 10))),
        DispatchStep::Continue
    ));
    assert!(matches!(
        dispatch_step(&mut dispatched, "req-2", DispatchOutcome::Skipped),
        DispatchStep::Continue
    ));
    assert_eq!(dispatched.len(), 1);
    match dispatch_step(&mut dispatched, "req-3", DispatchOutcome::SendFailed) {
        DispatchStep::RollBack { failed_request, notices } => {
            assert_eq!(failed_request.as_deref(), Some("req-3"));
            assert_eq!(notices.len(), 1);
            assert_eq!(notices[0].request_id, "req-1");
            assert_eq!(notices[0].message_id, 10);
        }
        DispatchStep::Continue => panic!("a failed send must roll back"),
    }
    assert!(dispatched.is_empty());

    let mut dispatched = vec![notice("req-1", 10)];
    match dispatch_step(&mut dispatched, "req-2", DispatchOutcome::SentUnrecorded(notice("req-2", 11))) {
        DispatchStep::RollBack { failed_request, notices } => {
            assert_eq!(failed_request, None);
            let ids: Vec<&str> = notices.iter().map(|n| n.request_id.as_str()).collect();
            assert_eq!(ids, vec!["req-1", "req-2"]);
        }
        DispatchStep::Continue => panic!("an unrecorded notice must roll back"),
    }
}
