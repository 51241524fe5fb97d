use remotty::config::{
    ChecksConfig, CodexConfig, CodexTransport, Config, LaneMode, PolicyConfig, RunMode,
    ServiceConfig, StorageConfig, TelegramConfig, WorkspaceConfig,
};
use remotty::smoke::{
    build_prompt, check_live_workspace, check_workspace_outcome, ensure_app_server_mode,
    expected_reply, infer_single_sender_id, live_codex_profile, live_timeout_sec, nonce_prefix,
    optional_env, render_live_config, resolve_live_bot_token, resolve_live_chat_id,
    resolve_live_sender_id, smoke_file_name, success_message, toml_string, unique_nonce,
    LiveConfigInputs, SmokeScenario,
};

#[test]
fn toml_string_keeps_non_ascii_valid_for_toml() {
    let original = "必要な確認を進めて、\"止まる\"理由\\path\n";
    let encoded = toml_string(original);

    assert!(!encoded.contains("\\u{"));
    let parsed: toml::Value =
        toml::from_str(&format!("value = {encoded}")).expect("string should parse as toml");
    assert_eq!(parsed["value"].as_str(), Some(original));
}

#[test]
fn toml_string_escapes_control_characters() {
    assert_eq!(toml_string("a\u{1}b\u{7f}"), "\"a\\u0001b\\u007F\"");
    assert_eq!(toml_string("\t\r\u{8}\u{c}"), "\"\\t\\r\\b\\f\"");
}

#[test]
fn smoke_labels_and_prompts() {
    assert_eq!(SmokeScenario::ApprovalAccept.label(), "approval-accept");
    assert_eq!(SmokeScenario::ApprovalDecline.label(), "approval-decline");
    assert_eq!(nonce_prefix(SmokeScenario::ApprovalDecline), "SMOKE_DENY");
    assert_eq!(unique_nonce("SMOKE_APPROVE", 12, 345), "SMOKE_APPROVE_12_345");
    assert_eq!(smoke_file_name("N"), "N.txt");
    assert_eq!(expected_reply(SmokeScenario::ApprovalDecline, "N"), "DENIED_N");
    assert_eq!(expected_reply(SmokeScenario::ApprovalAccept, "N"), "N");
    assert_eq!(
        build_prompt(SmokeScenario::ApprovalAccept, "N.txt", "N", "N"),
        "Create a file named N.txt in the workspace root with the exact text N. After it succeeds, reply with the exact text N and nothing else."
    );
    assert!(success_message(SmokeScenario::ApprovalDecline, "req-1").contains("reached `declined`"));
}

#[test]
fn smoke_checks_the_workspace_outcome() {
    assert!(check_workspace_outcome(SmokeScenario::ApprovalAccept, "N", Some(" N\n"), "p").is_ok());
    assert_eq!(
        check_workspace_outcome(SmokeScenario::ApprovalAccept, "N", None, "p"),
        Err("expected file was not created: p".to_owned())
    );
    assert_eq!(
        check_workspace_outcome(SmokeScenario::ApprovalAccept, "N", Some("M"), "p"),
        Err("approval accept wrote unexpected file content. expected N, got M".to_owned())
    );
    assert!(check_workspace_outcome(SmokeScenario::ApprovalDecline, "N", None, "p").is_ok());
    assert!(check_workspace_outcome(SmokeScenario::ApprovalDecline, "N", Some("N"), "p").is_err());
    assert!(ensure_app_server_mode("app_server").is_ok());
    assert!(ensure_app_server_mode("exec").is_err());
}

#[test]
fn smoke_environment_resolution() {
    assert_eq!(optional_env(Some("  v ".to_owned())), Some("v".to_owned()));
    assert_eq!(optional_env(Some("   ".to_owned())), None);
    assert_eq!(
        resolve_live_bot_token(None, Some("stored".to_owned())),
        Ok("stored".to_owned())
    );
    assert!(resolve_live_bot_token(None, None).is_err());
    assert_eq!(infer_single_sender_id(&vec![5], &vec![5]), Ok(5));
    assert!(infer_single_sender_id(&Vec::new(), &Vec::new())
        .expect_err("no sender")
        .contains("no paired Telegram sender"));
    assert!(infer_single_sender_id(&vec![1], &vec![2])
        .expect_err("two senders")
        .contains("multiple Telegram senders"));
    assert_eq!(resolve_live_sender_id(Some(" 42 ".to_owned()), &Vec::new(), &Vec::new()), Ok(42));
    assert!(resolve_live_sender_id(Some("x".to_owned()), &Vec::new(), &Vec::new()).is_err());
    assert_eq!(resolve_live_sender_id(None, &Vec::new(), &vec![9]), Ok(9));
    assert_eq!(resolve_live_chat_id(None, 7), Ok(7));
    assert_eq!(resolve_live_chat_id(Some("-3".to_owned()), 7), Ok(-3));
    assert_eq!(
        live_codex_profile(Some("  ".to_owned()), Some("base".to_owned())),
        Some("base".to_owned())
    );
    assert_eq!(live_timeout_sec(Some("x".to_owned())), 240);
    assert_eq!(live_timeout_sec(Some("30".to_owned())), 30);
}

#[test]
fn validated_live_workspace_requires_marker_file() {
    let error = check_live_workspace(true, true, false, false, "C:/w").expect_err("no marker");
    assert!(error.contains(".remotty-live-smoke-ok"));
    assert!(check_live_workspace(true, true, false, true, "C:/w").is_ok());
    assert!(check_live_workspace(false, true, false, true, "C:/w").is_err());
    assert!(check_live_workspace(true, false, false, true, "C:/").is_err());
    assert!(check_live_workspace(true, true, true, true, "C:/Users/me").is_err());
}

#[test]
fn live_config_parses_as_toml() {
    let base = Config {
        service: ServiceConfig {
            run_mode: RunMode::Console,
            poll_timeout_sec: 30,
            shutdown_grace_sec: 15,
        },
        telegram: TelegramConfig {
            token_secret_ref: "token".to_owned(),
            allowed_chat_types: vec!["private".to_owned(), "group".to_owned()],
            admin_sender_ids: vec![1],
            api_base_url: "https://api.telegram.org".to_owned(),
            file_base_url: "https://api.telegram.org/file".to_owned(),
        },
        codex: CodexConfig {
            binary: "codex".to_owned(),
            model: "gpt-5.4".to_owned(),
            sandbox: "workspace-write".to_owned(),
            approval: "on-request".to_owned(),
            transport: CodexTransport::AppServer,
            profile: None,
        },
        storage: StorageConfig {
            db_path: "bridge.db".to_owned(),
            state_dir: "state".to_owned(),
            temp_dir: "temp".to_owned(),
            log_dir: "logs".to_owned(),
        },
        policy: PolicyConfig {
            default_mode: LaneMode::MaxTurns,
            progress_edit_interval_ms: 5000,
            max_output_chars: 12000,
            max_turns_limit: 3,
        },
        checks: ChecksConfig {
            profiles: Vec::new(),
        },
        workspaces: vec![WorkspaceConfig {
            id: "main".to_owned(),
            path: "C:/w".to_owned(),
            writable_roots: vec!["C:/w".to_owned()],
            default_mode: LaneMode::AwaitReply,
            continue_prompt: "go \"on\"".to_owned(),
            checks_profile: "default".to_owned(),
        }],
    };
    let live = LiveConfigInputs {
        sender_id: 42,
        codex_bin: "codex".to_owned(),
        codex_profile: Some("work".to_owned()),
        workspace: "C:/live".to_owned(),
        db_path: "C:/tmp/state/bridge.db".to_owned(),
        state_dir: "C:/tmp/state".to_owned(),
        temp_dir: "C:/tmp/state/tmp".to_owned(),
        log_dir: "C:/tmp/state/logs".to_owned(),
    };
    let text = render_live_config(&base, &live, "go \"on\"", LaneMode::AwaitReply);
    let parsed: toml::Value = toml::from_str(&text).expect("live config should parse");
    assert_eq!(parsed["telegram"]["admin_sender_ids"][0].as_integer(), Some(42));
    assert_eq!(parsed["codex"]["profile"].as_str(), Some("work"));
    assert_eq!(parsed["policy"]["default_mode"].as_str(), Some("max_turns"));
    assert_eq!(parsed["workspaces"][0]["continue_prompt"].as_str(), Some("go \"on\""));
    assert_eq!(parsed["telegram"]["allowed_chat_types"][1].as_str(), Some("group"));
}

#[test]
fn smoke_needs_polling_mode() {
    assert!(remotty::smoke::ensure_polling_mode("  ").is_ok());
    assert_eq!(
        remotty::smoke::ensure_polling_mode("https://example.test/hook"),
        Err("manual smoke requires polling mode, but this bot still has a webhook configured: https://example.test/hook. Remove or restore the webhook outside this command, then rerun the smoke check.".to_owned())
    );
}
