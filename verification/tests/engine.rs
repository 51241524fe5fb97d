use remotty::app_server::CodexThreadSummary;
use remotty::checks::CheckRunSummary;
use remotty::codex::CodexOutcome;
use remotty::config::{
    resolve_relative_path, CheckProfile, NamedCheckProfile, ChecksConfig, CodexConfig, CodexTransport, Config, LaneMode, PolicyConfig, RunMode,
    ServiceConfig, StorageConfig, TelegramConfig, WorkspaceConfig,
};
use remotty::engine::{
    automatic_turn_limit, build_approval_notice_parts, build_completion_retry_prompt,
    build_user_request, find_selected_thread, format_auto_continue_waiting_message,
    format_reply_with_failed_checks, format_runtime_failure_message, format_sessions_message,
    format_status_message, format_thread_not_found_message, parse_lane_mode_name,
    resolve_workspace_for_message, sanitize_auto_continue_message, selected_codex_session_id,
    should_continue_automatically, AUTO_CONTINUE_STOP_MARKER,
};
use remotty::store::{ApprovalRequestKind, CodexThreadBinding, LaneRecord, LaneState};
use remotty::telegram::{
    SavedTelegramAttachment, TelegramAttachment, TelegramAttachmentKind, TelegramRemoteFile,
};

fn failed_summary() -> CheckRunSummary {
    CheckRunSummary {
        profile_name: "quick".to_owned(),
        total_commands: 2,
        completed_commands: 1,
        success: false,
        timed_out: false,
        failed_command: Some("cargo test".to_owned()),
        exit_code: Some(101),
    }
}

fn saved_attachment(
    kind: TelegramAttachmentKind,
    local_path: &str,
    file_name: Option<&str>,
    remote_path: &str,
) -> SavedTelegramAttachment {
    SavedTelegramAttachment {
        attachment: TelegramAttachment {
            kind,
            file_id: "file-id".to_owned(),
            file_unique_id: "unique-id".to_owned(),
            file_name: file_name.map(ToOwned::to_owned),
            mime_type: None,
            file_size: Some(12),
            width: None,
            height: None,
        },
        remote_file: TelegramRemoteFile {
            file_id: "file-id".to_owned(),
            file_unique_id: "unique-id".to_owned(),
            file_path: remote_path.to_owned(),
            file_size: Some(12),
        },
        local_path: local_path.to_owned(),
        bytes_written: 12,
    }
}

fn test_workspace(id: &str, path: &str) -> WorkspaceConfig {
    WorkspaceConfig {
        id: id.to_owned(),
        path: path.to_owned(),
        writable_roots: vec![path.to_owned()],
        default_mode: LaneMode::AwaitReply,
        continue_prompt: "continue".to_owned(),
        checks_profile: "default".to_owned(),
    }
}

fn test_config() -> Config {
    Config {
        service: ServiceConfig {
            run_mode: RunMode::Console,
            poll_timeout_sec: 30,
            shutdown_grace_sec: 15,
        },
        telegram: TelegramConfig {
            token_secret_ref: "token".to_owned(),
            allowed_chat_types: vec!["private".to_owned()],
            admin_sender_ids: vec![1],
            api_base_url: "https://api.telegram.org".to_owned(),
            file_base_url: "https://api.telegram.org/file".to_owned(),
        },
        codex: CodexConfig {
            binary: "codex".to_owned(),
            model: "gpt-5.4".to_owned(),
            sandbox: "workspace-write".to_owned(),
            approval: "on-request".to_owned(),
            transport: CodexTransport::Exec,
            profile: None,
        },
        storage: StorageConfig {
            db_path: "bridge.db".to_owned(),
            state_dir: "state".to_owned(),
            temp_dir: "temp".to_owned(),
            log_dir: "logs".to_owned(),
        },
        policy: PolicyConfig {
            default_mode: LaneMode::AwaitReply,
            progress_edit_interval_ms: 5000,
            max_output_chars: 12000,
            max_turns_limit: 3,
        },
        checks: ChecksConfig {
            profiles: Vec::new(),
        },
        workspaces: vec![
            test_workspace("main", "C:/workspace"),
            test_workspace("docs", "C:/docs"),
        ],
    }
}

fn lane(workspace_id: &str, state: LaneState, session: Option<&str>) -> LaneRecord {
    LaneRecord {
        lane_id: "lane-1".to_owned(),
        chat_id: 10,
        thread_key: "dm".to_owned(),
        workspace_id: workspace_id.to_owned(),
        mode: LaneMode::AwaitReply,
        state,
        codex_session_id: session.map(ToOwned::to_owned),
        extra_turn_budget: 0,
        waiting_since_ms: None,
    }
}

fn binding(workspace_id: &str) -> CodexThreadBinding {
    CodexThreadBinding {
        chat_id: 10,
        thread_key: "dm".to_owned(),
        codex_thread_id: "saved-thread".to_owned(),
        workspace_id: workspace_id.to_owned(),
        title: None,
        cwd: None,
        model: None,
        codex_updated_at: None,
        created_at_ms: 1,
        updated_at_ms: 1,
    }
}

fn outcome(last_message: &str, exit_code: Option<i32>) -> CodexOutcome {
    CodexOutcome {
        session_id: Some("session-1".to_owned()),
        turn_id: None,
        last_message: last_message.to_owned(),
        exit_code,
        approval_pending: false,
        approval_requests: Vec::new(),
        approval_request_count: 0,
        approval_resolved_count: 0,
    }
}

#[test]
fn completion_retry_prompt_mentions_summary_and_continue_prompt() {
    let prompt = build_completion_retry_prompt("必要な確認を進めてください。", &failed_summary());
    assert!(prompt.contains("必要な確認を進めてください。"));
    assert!(prompt.contains("以下の確認に失敗しました。"));
    assert!(prompt.contains("completion checks failed on 'cargo test'"));
}

#[test]
fn failed_check_reply_includes_agent_message_and_summary() {
    let reply = format_reply_with_failed_checks("修正を試しました。", &failed_summary(), 2);
    assert!(reply.contains("修正を試しました。"));
    assert!(reply.contains("自動継続を 2 回実行"));
    assert!(reply.contains("確認で失敗しました。"));
    assert!(reply.contains("completion checks failed on 'cargo test'"));
}

#[test]
fn runtime_failure_message_prompts_retry() {
    let message = format_runtime_failure_message();
    assert!(message.contains("失敗しました"));
    assert!(message.contains("再送"));
}

#[test]
fn auto_continue_waiting_message_is_clear() {
    assert_eq!(
        format_auto_continue_waiting_message(0),
        "この依頼は完了しました。次の入力を待ちます。"
    );
    assert!(format_auto_continue_waiting_message(2).contains("自動継続を 2 回実行"));
}

#[test]
fn build_user_request_sends_images_and_mentions_document_paths() {
    let request = build_user_request(
        "確認してください。",
        &vec![
            saved_attachment(
                TelegramAttachmentKind::Photo,
                "C:/tmp/photo.png",
                None,
                "photos/file.png",
            ),
            saved_attachment(
                TelegramAttachmentKind::Document,
                "C:/tmp/report.pdf",
                Some("report.pdf"),
                "documents/report.pdf",
            ),
        ],
        LaneMode::MaxTurns,
        "必要なら続けてください。",
    );

    assert_eq!(request.image_paths, vec!["C:/tmp/photo.png".to_owned()]);
    assert!(request.prompt.contains("確認してください。"));
    assert!(request.prompt.contains("C:/tmp/report.pdf"));
    assert!(request.prompt.contains(AUTO_CONTINUE_STOP_MARKER));
}

#[test]
fn format_status_message_without_lane_is_clear() {
    assert_eq!(
        format_status_message(None, 3, Vec::new()),
        "この会話にはまだレーンがありません。"
    );
}

#[test]
fn parse_lane_mode_name_accepts_completion_checks() {
    assert_eq!(
        parse_lane_mode_name("completion_checks").expect("mode should parse"),
        LaneMode::CompletionChecks
    );
}

#[test]
fn parse_lane_mode_name_rejects_unknown_mode() {
    let error = parse_lane_mode_name("unknown").expect_err("mode should fail");
    assert!(error.contains("不正なモード"));
}

#[test]
fn status_message_includes_workspace() {
    let mut lane = lane("docs", LaneState::WaitingReply, Some("session-1"));
    lane.chat_id = 1;
    lane.waiting_since_ms = Some(1);

    let message = format_status_message(Some(lane), 3, Vec::new());
    assert!(message.contains("workspace: `docs`"));
}

#[test]
fn status_message_includes_pending_approval_summary() {
    let mut lane = lane("main", LaneState::NeedsLocalApproval, Some("session-1"));
    lane.chat_id = 1;

    let message =
        format_status_message(Some(lane), 3, vec!["req-1".to_owned(), "req-2".to_owned()]);
    assert!(message.contains("pending approval requests: 2"));
    assert!(message.contains("latest approval request: req-2"));
}

#[test]
fn command_approval_notice_includes_buttons() {
    let notice = build_approval_notice_parts(
        "command approval",
        "approval-11111111-1111-1111-1111-111111111111",
        1_776_644_085_000,
        ApprovalRequestKind::CommandExecution,
    );

    assert!(notice
        .text
        .contains("Request ID: `approval-11111111-1111-1111-1111-111111111111`"));
    assert_eq!(notice.buttons.as_ref().map(Vec::len), Some(2));
    assert_eq!(
        notice
            .buttons
            .as_ref()
            .and_then(|buttons| buttons.first())
            .map(|button| button.text.as_str()),
        Some("Approve")
    );
    assert_eq!(
        notice
            .buttons
            .as_ref()
            .and_then(|buttons| buttons.get(1))
            .map(|button| button.text.as_str()),
        Some("Deny")
    );
    assert_eq!(
        notice
            .buttons
            .as_ref()
            .and_then(|buttons| buttons.first())
            .map(|button| button.callback_data.as_str()),
        Some("approve:11111111-1111-1111-1111-111111111111:mo6g0ljc")
    );
}

#[test]
fn tool_user_input_notice_skips_buttons() {
    let notice = build_approval_notice_parts(
        "need more input",
        "req-2",
        1_776_644_085_000,
        ApprovalRequestKind::ToolUserInput,
    );

    assert!(notice.text.contains("cannot be answered from Telegram yet"));
    assert!(notice.buttons.is_none());
}

#[test]
fn format_sessions_message_includes_selection_command() {
    let message = format_sessions_message(&vec![CodexThreadSummary {
        thread_id: "thread-1".to_owned(),
        title: Some("Fix tests".to_owned()),
        cwd: None,
        model: None,
        updated_at: None,
    }]);

    assert!(message.contains("thread-1"));
    assert!(message.contains("Fix tests"));
    assert!(message.contains("/remotty-sessions <thread_id>"));
}

#[test]
fn find_selected_thread_accepts_prefix_match() {
    let threads = vec![CodexThreadSummary {
        thread_id: "thread-abcdef".to_owned(),
        title: None,
        cwd: None,
        model: None,
        updated_at: None,
    }];

    let selected =
        find_selected_thread(&threads, "thread-abc").expect("prefix should select the thread");

    assert_eq!(selected.thread_id, "thread-abcdef");
}

#[test]
fn format_thread_not_found_message_points_to_fresh_list() {
    let message = format_thread_not_found_message("thread-old");

    assert!(message.contains("thread-old"));
    assert!(message.contains("/remotty-sessions"));
}

#[test]
fn selected_codex_session_id_prefers_live_lane_session() {
    let lane = lane("main", LaneState::WaitingReply, Some("live-thread"));
    let binding = binding("main");

    assert_eq!(
        selected_codex_session_id(&lane, Some(&binding)),
        Some("live-thread")
    );
}

#[test]
fn selected_codex_session_id_uses_saved_thread_binding() {
    let lane = lane("main", LaneState::WaitingReply, None);
    let binding = binding("main");

    assert_eq!(
        selected_codex_session_id(&lane, Some(&binding)),
        Some("saved-thread")
    );
}

#[test]
fn resolve_workspace_for_message_uses_binding_when_lane_is_missing() {
    let config = test_config();
    let binding = binding("docs");

    let workspace = resolve_workspace_for_message(&config, None, Some(&binding))
        .expect("workspace should resolve");

    assert_eq!(workspace.id, "docs");
}

#[test]
fn automatic_turn_limit_uses_default_for_zero_budget() {
    assert_eq!(automatic_turn_limit(LaneMode::MaxTurns, 0, 4), Some(4));
    assert_eq!(automatic_turn_limit(LaneMode::MaxTurns, 8, 4), Some(4));
}

#[test]
fn sanitize_auto_continue_message_hides_stop_marker() {
    assert_eq!(sanitize_auto_continue_message(AUTO_CONTINUE_STOP_MARKER), "");
    assert_eq!(
        sanitize_auto_continue_message("修正しました。"),
        "修正しました。"
    );
}

#[test]
fn should_continue_automatically_for_max_turns_until_limit() {
    let outcome = outcome("続けます", Some(0));

    assert!(should_continue_automatically(
        LaneMode::MaxTurns,
        Some(2),
        1,
        &outcome,
        None,
    ));
    assert!(!should_continue_automatically(
        LaneMode::MaxTurns,
        Some(2),
        2,
        &outcome,
        None,
    ));
}

#[test]
fn should_not_continue_automatically_after_non_zero_exit() {
    let outcome = outcome("失敗しました", Some(1));

    assert!(!should_continue_automatically(
        LaneMode::Infinite,
        None,
        0,
        &outcome,
        None,
    ));
}

#[test]
fn check_profiles_are_found_by_name() {
    let mut config = test_config();
    assert!(config.check_profile("default").is_none());
    config.checks.profiles = vec![
        remotty::config::NamedCheckProfile {
            name: "default".to_owned(),
            profile: remotty::config::CheckProfile { commands: Vec::new() },
        },
        remotty::config::NamedCheckProfile {
            name: "strict".to_owned(),
            profile: remotty::config::CheckProfile {
                commands: vec![remotty::config::CheckCommand {
                    name: "test".to_owned(),
                    program: "cargo".to_owned(),
                    args: vec!["test".to_owned()],
                    timeout_sec: 300,
                }],
            },
        },
    ];
    assert_eq!(config.check_profile("strict").map(|p| p.commands.len()), Some(1));
    assert_eq!(config.check_profile("default").map(|p| p.commands.len()), Some(0));
    assert!(config.check_profile("missing").is_none());
}

#[test]
fn help_lists_every_command_including_answer() {
    let help = remotty::engine::format_help_message();
    let lines: Vec<&str> = help.lines().collect();
    assert!(lines.contains(&"/answer <request_id> <value>"));
    let deny = lines.iter().position(|l| *l == "/deny <request_id>").expect("deny listed");
    assert_eq!(lines[deny + 1], "/answer <request_id> <value>");
    assert_eq!(lines.len(), 15);
}

#[test]
fn remote_control_reports_that_it_listens() {
    assert_eq!(
        remotty::config_workspace::remote_control_active_message(),
        "Remote Control active\nListening for Telegram channel messages from: remotty:telegram"
    );
}

#[test]
fn validate_refuses_a_checks_profile_named_twice() {
    let named = |name: &str| NamedCheckProfile {
        name: name.to_owned(),
        profile: CheckProfile { commands: Vec::new() },
    };
    let mut config = test_config();
    config.checks.profiles = vec![named("default")];
    assert_eq!(config.validate(), Ok(()));
    config.checks.profiles = vec![named("default"), named("quick"), named("default")];
    assert_eq!(
        config.validate(),
        Err("duplicate checks profile 'default'".to_owned())
    );
}

#[test]
fn storage_paths_resolve_against_the_config_directory() {
    assert_eq!(resolve_relative_path("/etc/remotty", "state"), "/etc/remotty/state");
    assert_eq!(resolve_relative_path("/etc/remotty", "/var/lib/remotty"), "/var/lib/remotty");
    let mut config = test_config();
    config.storage.log_dir = "/var/log/remotty".to_owned();
    config.resolve_relative_paths("/etc/remotty/bridge.toml");
    assert_eq!(config.storage.db_path, "/etc/remotty/bridge.db");
    assert_eq!(config.storage.state_dir, "/etc/remotty/state");
    assert_eq!(config.storage.temp_dir, "/etc/remotty/temp");
    assert_eq!(config.storage.log_dir, "/var/log/remotty");
    assert_eq!(config.workspaces.len(), 2);
    let mut unchanged = test_config();
    unchanged.resolve_relative_paths("");
    assert_eq!(unchanged.storage.db_path, "bridge.db");
}
