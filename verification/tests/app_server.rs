use remotty::app_server::{
    answer_for, app_server_spawn_args, approval_request_kind_key, configured_model,
    parse_keyed_tool_user_input_answers, read_codex_version_from_user_agent,
    stable_approval_request_id, summarize_inline_text, summarize_multiline_text,
    turn_status_exit_code, workspace_readable_roots,
};
use remotty::config::{CodexConfig, CodexTransport, LaneMode, WorkspaceConfig};
use remotty::store::ApprovalRequestKind;

fn codex_config(model: &str, profile: Option<&str>) -> CodexConfig {
    CodexConfig {
        binary: "codex".to_owned(),
        model: model.to_owned(),
        sandbox: "workspace-write".to_owned(),
        approval: "on-request".to_owned(),
        transport: CodexTransport::AppServer,
        profile: profile.map(|p| p.to_owned()),
    }
}

#[test]
fn summarize_multiline_text_keeps_exact_limit_without_ellipsis() {
    let exact = "x".repeat(320);

    assert_eq!(summarize_multiline_text(&exact, 320), exact);
}

#[test]
fn summarize_multiline_text_truncates_to_total_limit() {
    let over_limit = "x".repeat(321);
    let summary = summarize_multiline_text(&over_limit, 320);

    assert_eq!(summary.chars().count(), 320);
    assert!(summary.ends_with('…'));
}

#[test]
fn summarize_multiline_text_with_zero_limit_is_empty() {
    assert_eq!(summarize_multiline_text("abc", 0), "");
    assert_eq!(summarize_multiline_text("", 0), "");
}

#[test]
fn summarize_inline_text_collapses_whitespace() {
    assert_eq!(summarize_inline_text("  a \n b\tc  ", 80), "a b c");
    assert_eq!(summarize_inline_text("abcdef", 4), "abc…");
}

#[test]
fn app_server_spawn_args_include_profile_when_present() {
    let args = app_server_spawn_args(&codex_config("gpt-5.4", Some("work")));

    assert_eq!(
        args,
        vec![
            "--profile".to_owned(),
            "work".to_owned(),
            "app-server".to_owned(),
        ]
    );
}

#[test]
fn app_server_spawn_args_skip_blank_profile() {
    assert_eq!(
        app_server_spawn_args(&codex_config("gpt-5.4", Some("   "))),
        vec!["app-server".to_owned()]
    );
    assert_eq!(
        app_server_spawn_args(&codex_config("gpt-5.4", Some(" work "))),
        vec!["--profile".to_owned(), "work".to_owned(), "app-server".to_owned()]
    );
}

#[test]
fn configured_model_omits_blank_model() {
    assert_eq!(configured_model(&codex_config("", None)), None);
    assert_eq!(configured_model(&codex_config("  ", None)), None);
    assert_eq!(
        configured_model(&codex_config(" gpt-5.4 ", None)),
        Some("gpt-5.4".to_owned())
    );
}

#[test]
fn read_codex_version_from_user_agent_accepts_codex_product_prefix() {
    assert_eq!(
        read_codex_version_from_user_agent("Codex/0.118.1 (windows)"),
        Some("0.118.1".to_owned())
    );
}

#[test]
fn read_codex_version_from_user_agent_accepts_desktop_origin_prefix() {
    assert_eq!(
        read_codex_version_from_user_agent("Codex Desktop/0.118.1 (windows)"),
        Some("0.118.1".to_owned())
    );
}

#[test]
fn read_codex_version_strips_suffixes_and_rejects_malformed() {
    assert_eq!(
        read_codex_version_from_user_agent("codex_cli_rs/0.120.0-alpha.3 (Linux)"),
        Some("0.120.0".to_owned())
    );
    assert_eq!(
        read_codex_version_from_user_agent("Codex/1.2.3+build"),
        Some("1.2.3".to_owned())
    );
    assert_eq!(read_codex_version_from_user_agent("Codex/1.2"), None);
    assert_eq!(read_codex_version_from_user_agent("Codex/1..3"), None);
    assert_eq!(read_codex_version_from_user_agent("Codex 0.118.0"), None);
    assert_eq!(read_codex_version_from_user_agent(""), None);
}

#[test]
fn readable_roots_start_with_workspace_and_skip_duplicates() {
    let workspace = WorkspaceConfig {
        id: "main".to_owned(),
        path: "C:/workspace".to_owned(),
        writable_roots: vec![
            "C:/workspace".to_owned(),
            "C:/cache".to_owned(),
            "C:/cache".to_owned(),
        ],
        default_mode: LaneMode::AwaitReply,
        continue_prompt: "continue".to_owned(),
        checks_profile: "default".to_owned(),
    };
    assert_eq!(
        workspace_readable_roots(&workspace),
        vec!["C:/workspace".to_owned(), "C:/cache".to_owned()]
    );
}

#[test]
fn turn_status_exit_codes() {
    assert_eq!(turn_status_exit_code("completed"), 0);
    assert_eq!(turn_status_exit_code("interrupted"), 130);
    assert_eq!(turn_status_exit_code("failed"), 1);
}

#[test]
fn approval_request_kind_keys() {
    assert_eq!(
        approval_request_kind_key(ApprovalRequestKind::CommandExecution),
        "command_execution"
    );
    assert_eq!(
        approval_request_kind_key(ApprovalRequestKind::ToolUserInput),
        "tool_user_input"
    );
}

#[test]
fn keyed_answers_take_trimmed_pairs_and_later_lines_win() {
    let answers = parse_keyed_tool_user_input_answers(" a = 1 \n\nnoise\nb=\n=c\nb = 2\r\na=3");
    assert_eq!(
        answers,
        vec![
            ("a".to_owned(), "1".to_owned()),
            ("b".to_owned(), "2".to_owned()),
            ("a".to_owned(), "3".to_owned()),
        ]
    );
    assert_eq!(answer_for(&answers, "a"), Some("3".to_owned()));
    assert_eq!(answer_for(&answers, "b"), Some("2".to_owned()));
    assert_eq!(answer_for(&answers, "c"), None);
}

#[test]
fn stable_request_id_differs_by_approval_kind() {
    let command = stable_approval_request_id(
        "thread-1",
        "turn-1",
        "item-1",
        ApprovalRequestKind::CommandExecution,
    );
    let permissions = stable_approval_request_id(
        "thread-1",
        "turn-1",
        "item-1",
        ApprovalRequestKind::Permissions,
    );

    assert_ne!(command, permissions);
    assert!(command.starts_with("approval-"));
    assert_eq!(command.len(), "approval-".len() + 36);
    assert_eq!(
        command,
        stable_approval_request_id(
            "thread-1",
            "turn-1",
            "item-1",
            ApprovalRequestKind::CommandExecution,
        )
    );
}

#[test]
fn stable_request_id_matches_uuid_v5_of_seed() {
    let seed = "thread-1\u{1f}turn-1\u{1f}item-1\u{1f}command_execution";
    let expected = format!(
        "approval-{}",
        uuid::Uuid::new_v5(&uuid::Uuid::NAMESPACE_URL, seed.as_bytes())
    );
    assert_eq!(
        stable_approval_request_id(
            "thread-1",
            "turn-1",
            "item-1",
            ApprovalRequestKind::CommandExecution,
        ),
        expected
    );
}
