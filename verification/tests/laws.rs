use remotty::config_workspace::render_workspace_path;
use remotty::app_server::stable_approval_request_id;
use remotty::config::LaneMode;
use remotty::engine::{
    approval_callback_locator, approval_dispatch_version, build_approval_notice_parts,
    classify_lookup, encode_base36, lane_mode_name, parse_lane_mode_name, plan_locator_lookup,
    ApprovalRequestLookup,
};
use remotty::store::{
    source_statuses, transition, ApprovalRequestKind, ApprovalRequestRecord,
    ApprovalRequestStatus, ApprovalRequestTransport, ApprovalTransition,
};
use remotty::telegram::{parse_callback_command, TelegramControlCommand};

fn record(request_id: &str, requested_at_ms: i64) -> ApprovalRequestRecord {
    ApprovalRequestRecord {
        request_id: request_id.to_owned(),
        transport_request_id: "7".to_owned(),
        lane_id: "lane-1".to_owned(),
        run_id: "run-1".to_owned(),
        thread_id: "thread-1".to_owned(),
        turn_id: "turn-1".to_owned(),
        item_id: "item-1".to_owned(),
        transport: ApprovalRequestTransport::AppServer,
        request_kind: ApprovalRequestKind::CommandExecution,
        summary_text: "Run cargo test".to_owned(),
        raw_payload_json: "{}".to_owned(),
        status: ApprovalRequestStatus::Pending,
        requested_at_ms,
        resolved_at_ms: None,
        resolved_by_sender_id: None,
        telegram_message_id: Some(42),
    }
}

const ALL_STATUSES: [ApprovalRequestStatus; 7] = [
    ApprovalRequestStatus::Dispatching,
    ApprovalRequestStatus::Pending,
    ApprovalRequestStatus::Resolving,
    ApprovalRequestStatus::Invalidated,
    ApprovalRequestStatus::Approved,
    ApprovalRequestStatus::Declined,
    ApprovalRequestStatus::TimedOut,
];

fn all_transitions() -> Vec<ApprovalTransition> {
    vec![
        ApprovalTransition::Redispatch,
        ApprovalTransition::MarkPending,
        ApprovalTransition::BeginResolution,
        ApprovalTransition::Resolve(ApprovalRequestStatus::Approved),
        ApprovalTransition::Resolve(ApprovalRequestStatus::Declined),
        ApprovalTransition::Invalidate,
        ApprovalTransition::FailResolving,
        ApprovalTransition::Expire,
        ApprovalTransition::InvalidateForRestart,
    ]
}

#[test]
fn base36_encodes_request_times() {
    assert_eq!(encode_base36(0), "0");
    assert_eq!(encode_base36(35), "z");
    assert_eq!(encode_base36(36), "10");
    assert_eq!(encode_base36(1_700_000_000_000), "loyw3v28");
    assert_eq!(approval_dispatch_version(-5), "0");
}

#[test]
fn approval_button_reads_back_as_decision_on_its_request() {
    let requested_at_ms = 1_700_000_000_000;
    let request = record("approval-abc123", requested_at_ms);
    let locator = approval_callback_locator(&request.request_id, requested_at_ms);
    assert_eq!(locator, "abc123:loyw3v28");

    let notice = build_approval_notice_parts(
        &request.summary_text,
        &request.request_id,
        requested_at_ms,
        request.request_kind,
    );
    let buttons = notice.buttons.expect("command approvals carry buttons");
    assert_eq!(buttons[0].callback_data, "approve:abc123:loyw3v28");
    assert_eq!(buttons[1].callback_data, "deny:abc123:loyw3v28");

    assert_eq!(
        parse_callback_command(&buttons[0].callback_data),
        Some(TelegramControlCommand::Approve { request_id: locator.clone() })
    );
    assert_eq!(
        parse_callback_command(&buttons[1].callback_data),
        Some(TelegramControlCommand::Deny { request_id: locator.clone() })
    );

    let lookup = plan_locator_lookup(&locator);
    assert!(lookup.candidates.contains(&request.request_id));
    let version = lookup.dispatch_version.expect("a button carries a version");
    match classify_lookup(request.clone(), Some(&version)) {
        ApprovalRequestLookup::Found(found) => assert_eq!(found.request_id, "approval-abc123"),
        _ => panic!("the notice's own version must find the request"),
    }
}

#[test]
fn a_redispatched_request_makes_old_buttons_stale() {
    let old = approval_callback_locator("approval-abc123", 1_000);
    let lookup = plan_locator_lookup(&old);
    let version = lookup.dispatch_version.expect("version");
    let redispatched = record("approval-abc123", 2_000);
    assert!(matches!(
        classify_lookup(redispatched, Some(&version)),
        ApprovalRequestLookup::Stale(_)
    ));
}

#[test]
fn lane_mode_names_read_back() {
    for mode in [
        LaneMode::AwaitReply,
        LaneMode::Infinite,
        LaneMode::CompletionChecks,
        LaneMode::MaxTurns,
    ] {
        assert_eq!(parse_lane_mode_name(lane_mode_name(mode)), Ok(mode));
    }
}

#[test]
fn decided_requests_are_never_changed_again() {
    for op in all_transitions() {
        assert_eq!(transition(op, ApprovalRequestStatus::Approved), None);
        assert_eq!(transition(op, ApprovalRequestStatus::Declined), None);
    }
}

#[test]
fn only_dead_requests_are_redispatched() {
    for status in ALL_STATUSES {
        let expected = matches!(
            status,
            ApprovalRequestStatus::Invalidated | ApprovalRequestStatus::TimedOut
        );
        assert_eq!(
            transition(ApprovalTransition::Redispatch, status).is_some(),
            expected
        );
    }
}

#[test]
fn a_request_resolves_through_resolving() {
    let resolving =
        transition(ApprovalTransition::BeginResolution, ApprovalRequestStatus::Pending);
    assert_eq!(resolving, Some(ApprovalRequestStatus::Resolving));
    assert_eq!(
        transition(
            ApprovalTransition::Resolve(ApprovalRequestStatus::Approved),
            ApprovalRequestStatus::Resolving
        ),
        Some(ApprovalRequestStatus::Approved)
    );
    assert_eq!(
        transition(ApprovalTransition::FailResolving, ApprovalRequestStatus::Resolving),
        Some(ApprovalRequestStatus::Invalidated)
    );
    assert_eq!(
        transition(ApprovalTransition::InvalidateForRestart, ApprovalRequestStatus::Resolving),
        None
    );
}

#[test]
fn source_statuses_are_the_statuses_an_operation_changes() {
    for op in all_transitions() {
        let sources = source_statuses(op);
        for status in ALL_STATUSES {
            assert_eq!(sources.contains(&status), transition(op, status).is_some());
        }
    }
}

#[test]
fn request_ids_made_by_the_bridge_survive_the_buttons() {
    let request_id = stable_approval_request_id(
        "thread-1",
        "turn-1",
        "item-1",
        ApprovalRequestKind::CommandExecution,
    );
    assert!(request_id.starts_with("approval-"));
    assert_eq!(request_id.len(), 9 + 36);
    for requested_at_ms in [0, 1, 1_700_000_000_000, i64::MAX] {
        let locator = approval_callback_locator(&request_id, requested_at_ms);
        assert_eq!(
            parse_callback_command(&format!("deny:{locator}")),
            Some(TelegramControlCommand::Deny { request_id: locator.clone() })
        );
        let lookup = plan_locator_lookup(&locator);
        assert!(lookup.candidates.contains(&request_id));
        assert_eq!(
            lookup.dispatch_version,
            Some(approval_dispatch_version(requested_at_ms))
        );
    }
}

#[test]
fn base36_text_reads_back_to_its_number() {
    assert_eq!(encode_base36(1_776_644_085_000), "mo6g0ljc");
    for v in [0u64, 1, 35, 36, 1295, 1296, 1_776_644_085_000, u64::MAX] {
        let text = encode_base36(v);
        assert_eq!(u64::from_str_radix(&text, 36), Ok(v));
        assert!(!text.is_empty());
        assert!(v == 0 || !text.starts_with('0'));
        assert!(text.chars().all(|c| c.is_ascii_digit() || c.is_ascii_lowercase()));
    }
}

#[test]
fn rendering_a_rendered_path_changes_nothing() {
    for raw in [r"\\?\C:\work\repo", r"\\?\UNC\server\share", r"C:\a\b", "/home/me/repo", ""] {
        let once = render_workspace_path(raw);
        assert!(!once.contains('\\'));
        assert_eq!(render_workspace_path(&once), once);
    }
}

fn ending(ended_at_ms: Option<i64>, reason: Option<&str>) -> remotty::store::RunEnding {
    remotty::store::RunEnding {
        ended_at_ms,
        completion_reason: reason.map(ToOwned::to_owned),
        approval_pending: true,
    }
}

#[test]
fn a_restart_ends_the_run_and_frees_the_lane() {
    let open_run = remotty::store::run_after_restart(&ending(None, None), 500);
    assert_eq!(open_run, remotty::store::RunEnding {
        ended_at_ms: Some(500),
        completion_reason: Some("restarted".to_owned()),
        approval_pending: false,
    });
    let failed_run = remotty::store::run_after_restart(&ending(Some(100), Some("failed")), 500);
    assert_eq!(failed_run.ended_at_ms, Some(100));
    assert_eq!(failed_run.completion_reason.as_deref(), Some("failed"));
    let done_run = remotty::store::run_after_restart(&ending(Some(100), Some("completed")), 500);
    assert_eq!(done_run.completion_reason.as_deref(), Some("restarted"));

    let lane = remotty::store::LaneRecord {
        lane_id: "lane-1".to_owned(),
        chat_id: 10,
        thread_key: "dm".to_owned(),
        workspace_id: "main".to_owned(),
        mode: LaneMode::AwaitReply,
        state: remotty::store::LaneState::NeedsLocalApproval,
        codex_session_id: Some("session".to_owned()),
        extra_turn_budget: 2,
        waiting_since_ms: Some(7),
    };
    let freed = remotty::store::lane_after_restart(&lane);
    assert_eq!(freed.state, remotty::store::LaneState::WaitingReply);
    assert_eq!(freed.codex_session_id, None);
    assert_eq!(freed.waiting_since_ms, None);
    assert_eq!(freed.extra_turn_budget, 2);

    let failed = remotty::store::lane_after_failure(&lane);
    assert_eq!(failed.state, remotty::store::LaneState::Failed);
    assert_eq!(failed.codex_session_id, None);
    let still_failed = remotty::store::lane_after_restart(&failed);
    assert_eq!(still_failed.state, remotty::store::LaneState::Failed);

    let failed_run = remotty::store::run_after_failure(&ending(None, Some("completed")), 9);
    assert_eq!(failed_run.ended_at_ms, Some(9));
    assert_eq!(failed_run.completion_reason.as_deref(), Some("failed"));
    assert!(!failed_run.approval_pending);
}
