use chrono::Utc;
use remotty::app_server::CodexThreadSummary;
use remotty::pairing::{
    access_pair_code_message, access_pair_record, allows_private_chats, ensure_polling_mode_for_pairing,
    ensure_private_access_pair_candidate, ensure_private_pair_candidate, entered_token, env_presence,
    format_allowlist_summary, format_live_env_check, format_sessions_summary, generate_pair_code, pair_code_from_bytes,
    inferred_sender_count, is_pairing_intent, latest_pair_candidate, live_chat_presence,
    live_sender_presence, live_token_presence, live_webhook_presence, live_workspace_presence,
    load_token, paired_message, paired_sender, policy_allowlist, resolve_secret_ref, token_saved_message,
    LiveEnvReport, PairCandidate, PAIR_CODE_TTL_SECONDS,
};
use remotty::store::{AuthorizedSender, PendingAccessPairCode};
use remotty::telegram::{PairingMessage, PairingUpdate};

fn pairing_update(update_id: i64, chat_type: &str, text: &str, sent_at_s: i64) -> PairingUpdate {
    PairingUpdate {
        update_id,
        message: PairingMessage {
            chat_id: 22,
            chat_type: chat_type.to_owned(),
            sender_id: 202,
            text: text.to_owned(),
            sent_at_s,
        },
    }
}

#[test]
fn resolve_secret_ref_defaults_without_config() {
    assert_eq!(resolve_secret_ref(None), "remotty-telegram-bot");
    assert_eq!(resolve_secret_ref(Some("custom".to_owned())), "custom");
}

#[test]
fn format_allowlist_summary_includes_static_and_dynamic_senders() {
    let summary = format_allowlist_summary(
        &vec![11],
        &vec![AuthorizedSender {
            sender_id: 22,
            platform: "telegram".to_owned(),
            display_name: None,
            status: "active".to_owned(),
            approved_at_ms: 1,
            source: "paired".to_owned(),
        }],
    );

    assert!(summary.contains("`11` (bridge.toml admin)"));
    assert!(summary.contains("`22` (telegram)"));
}

#[test]
fn format_allowlist_summary_skips_admins_and_reports_empty_list() {
    let admin_again = AuthorizedSender {
        sender_id: 11,
        platform: "telegram".to_owned(),
        display_name: None,
        status: "active".to_owned(),
        approved_at_ms: 1,
        source: "paired".to_owned(),
    };
    let summary = format_allowlist_summary(&vec![11], &vec![admin_again]);
    assert_eq!(
        summary,
        "allowlist は有効です。許可済み sender:\n- `11` (bridge.toml admin)"
    );
    assert_eq!(
        format_allowlist_summary(&Vec::new(), &Vec::new()),
        "allowlist は有効ですが、まだ許可済み sender はありません。`telegram pair` を実行してください。"
    );
}

#[test]
fn ensure_private_pair_candidate_rejects_non_private_chat() {
    let error = ensure_private_pair_candidate(&PairCandidate {
        chat_id: 22,
        sender_id: 202,
        chat_type: "group".to_owned(),
    })
    .expect_err("group pair candidate should fail");
    assert!(error.contains("`private`"));
}

#[test]
fn ensure_private_access_pair_candidate_accepts_private_chat() {
    let mut candidate = PendingAccessPairCode {
        code: "ABC".to_owned(),
        sender_id: 1,
        chat_id: 2,
        chat_type: "private".to_owned(),
        issued_at_ms: 0,
        expires_at_ms: 180_000,
    };
    assert!(ensure_private_access_pair_candidate(&candidate).is_ok());
    candidate.chat_type = "group".to_owned();
    assert!(ensure_private_access_pair_candidate(&candidate)
        .expect_err("group should fail")
        .contains("DM でやり直してください"));
}

#[test]
fn latest_pair_candidate_prefers_latest_allowed_chat() {
    let now = Utc::now().timestamp();
    let mut group = pairing_update(1, "group", "/pair 123456", now);
    group.message.chat_id = 11;
    group.message.sender_id = 101;
    let updates = vec![group, pairing_update(2, "private", "/pair 123456", now)];

    let candidate =
        latest_pair_candidate(&updates, Some("remotty_test_bot"), "123456", now - 1, now)
            .expect("candidate");
    assert_eq!(candidate.chat_id, 22);
    assert_eq!(candidate.sender_id, 202);
    assert_eq!(candidate.chat_type, "private");
}

#[test]
fn latest_pair_candidate_errors_when_no_allowed_message_exists() {
    let now = Utc::now().timestamp();
    let updates = vec![pairing_update(1, "private", "ignored", now)];

    let error = latest_pair_candidate(&updates, Some("remotty_test_bot"), "123456", now - 1, now)
        .expect_err("candidate should fail");
    assert!(error.contains("一致メッセージ"));
}

#[test]
fn latest_pair_candidate_rejects_stale_pair_message() {
    let now = Utc::now().timestamp();
    let updates = vec![pairing_update(
        1,
        "private",
        "/pair 123456",
        now - (PAIR_CODE_TTL_SECONDS + 1),
    )];

    let error = latest_pair_candidate(
        &updates,
        Some("remotty_test_bot"),
        "123456",
        now - (PAIR_CODE_TTL_SECONDS + 2),
        now,
    )
    .expect_err("stale pair message should fail");
    assert!(error.contains("一致メッセージ"));
}

#[test]
fn latest_pair_candidate_rejects_pair_command_for_other_bot() {
    let now = Utc::now().timestamp();
    let updates = vec![pairing_update(1, "private", "/pair@otherbot 123456", now)];

    let error = latest_pair_candidate(&updates, Some("remotty_test_bot"), "123456", now - 1, now)
        .expect_err("foreign bot pair command should fail");
    assert!(error.contains("一致メッセージ"));
}

#[test]
fn latest_pair_candidate_accepts_pair_command_for_current_bot() {
    let now = Utc::now().timestamp();
    let updates = vec![pairing_update(
        1,
        "private",
        "/pair@remotty_test_bot 123456",
        now,
    )];

    let candidate =
        latest_pair_candidate(&updates, Some("remotty_test_bot"), "123456", now - 1, now)
            .expect("pair command for current bot should pass");
    assert_eq!(candidate.sender_id, 202);
}

#[test]
fn latest_pair_candidate_rejects_messages_older_than_pair_start() {
    let issued_after_s = Utc::now().timestamp();
    let updates = vec![pairing_update(1, "private", "/pair 123456", issued_after_s - 1)];

    let error = latest_pair_candidate(
        &updates,
        Some("remotty_test_bot"),
        "123456",
        issued_after_s,
        issued_after_s,
    )
    .expect_err("older pair command should fail");
    assert!(error.contains("一致メッセージ"));
}

#[test]
fn latest_pair_candidate_ignores_group_pair_message_even_if_config_allows_group() {
    let now = Utc::now().timestamp();
    let updates = vec![pairing_update(1, "group", "/pair 123456", now)];

    let error = latest_pair_candidate(&updates, Some("remotty_test_bot"), "123456", now - 1, now)
        .expect_err("group pair message should fail");
    assert!(error.contains("一致メッセージ"));
}

#[test]
fn pairing_intent_requires_code_and_matching_bot() {
    assert!(is_pairing_intent("/pair ABC", None, "ABC"));
    assert!(is_pairing_intent("  /pair   ABC  ", Some("bot"), "ABC"));
    assert!(is_pairing_intent("/pair@BOT ABC", Some("bot"), "ABC"));
    assert!(!is_pairing_intent("/pair@bot ABC", None, "ABC"));
    assert!(!is_pairing_intent("/pair ABD", None, "ABC"));
    assert!(!is_pairing_intent("/pair ABC extra", None, "ABC"));
    assert!(!is_pairing_intent("/pair", None, "ABC"));
}

#[test]
fn generate_pair_code_uses_twelve_alphanumeric_characters() {
    let code = generate_pair_code().expect("the system supplies random bytes");
    assert_eq!(code.len(), 12);
    assert!(code
        .chars()
        .all(|ch| ch.is_ascii_uppercase() || ch.is_ascii_digit()));
}

#[test]
fn token_loading_prefers_stored_secret_and_rejects_blank() {
    assert_eq!(
        load_token(Some("stored".to_owned()), Some("env".to_owned())),
        Ok("stored".to_owned())
    );
    assert_eq!(load_token(None, Some("env".to_owned())), Ok("env".to_owned()));
    assert_eq!(
        load_token(None, None),
        Err("TELEGRAM_BOT_TOKEN is not set".to_owned())
    );
    assert_eq!(
        load_token(Some("  ".to_owned()), Some("env".to_owned())),
        Err("Telegram token must not be empty".to_owned())
    );
    assert_eq!(entered_token("  t0k  "), Ok("t0k".to_owned()));
    assert_eq!(
        entered_token("   "),
        Err("Telegram bot token must not be empty".to_owned())
    );
    assert_eq!(
        token_saved_message("ref"),
        "Telegram token を `ref` へ保存しました。"
    );
}

#[test]
fn paired_sender_and_messages() {
    let sender = paired_sender(7, 1234);
    assert_eq!(sender.sender_id, 7);
    assert_eq!(sender.platform, "telegram");
    assert_eq!(sender.status, "active");
    assert_eq!(sender.source, "paired");
    assert_eq!(sender.approved_at_ms, 1234);
    assert_eq!(
        paired_message(7, -9),
        "Telegram sender `7` を allowlist へ追加しました。chat_id=`-9`"
    );
    let record = access_pair_record("CODE".to_owned(), 1, 2, "private", 1000);
    assert_eq!(record.expires_at_ms, 181_000);
    assert!(access_pair_code_message("CODE").contains("/remotty-access-pair CODE"));
    assert!(allows_private_chats(&vec!["group".to_owned(), "private".to_owned()]));
    assert!(!allows_private_chats(&vec!["group".to_owned()]));
}

#[test]
fn polling_mode_is_required_for_pairing() {
    assert!(ensure_polling_mode_for_pairing("").is_ok());
    assert!(ensure_polling_mode_for_pairing("https://example.test/hook")
        .expect_err("webhook should fail")
        .ends_with("https://example.test/hook"));
}

#[test]
fn sessions_summary_lists_threads() {
    assert_eq!(format_sessions_summary(&Vec::new()), "No Codex threads returned.");
    let summary = format_sessions_summary(&vec![CodexThreadSummary {
        thread_id: "t-1".to_owned(),
        title: None,
        cwd: Some("C:/w".to_owned()),
        model: None,
        updated_at: None,
    }]);
    assert_eq!(
        summary,
        "Codex threads:\n- `t-1` untitled\n  cwd: `C:/w`\nTelegram select: `/remotty-sessions <thread_id>`"
    );
}

#[test]
fn live_env_presences() {
    assert_eq!(env_presence(Some(" x ")), "set");
    assert_eq!(env_presence(Some("  ")), "missing");
    assert_eq!(env_presence(None), "missing");
    assert_eq!(live_token_presence(Some("t"), false), "set");
    assert_eq!(live_token_presence(None, true), "stored");
    assert_eq!(live_token_presence(None, false), "missing");
    assert_eq!(live_sender_presence(None, 1), "inferred");
    assert_eq!(live_sender_presence(None, 0), "missing");
    assert_eq!(live_sender_presence(None, 2), "ambiguous");
    assert_eq!(live_chat_presence(Some("5"), 2), "set");
    assert_eq!(live_workspace_presence(None), "default");
    assert_eq!(live_webhook_presence(None), "unknown");
    assert_eq!(live_webhook_presence(Some("")), "polling-ready");
    assert_eq!(live_webhook_presence(Some("https://x")), "webhook-configured");
    assert_eq!(inferred_sender_count(&vec![1, 2], &vec![2, 3, 3]), 3);
    assert_eq!(inferred_sender_count(&Vec::new(), &Vec::new()), 0);
}

#[test]
fn live_env_report_lists_every_variable() {
    let report = LiveEnvReport {
        token: "set".to_owned(),
        chat: "inferred".to_owned(),
        sender: "inferred".to_owned(),
        workspace: "default".to_owned(),
        webhook: "polling-ready".to_owned(),
        codex_bin: "missing".to_owned(),
        codex_profile: "missing".to_owned(),
        timeout_sec: "missing".to_owned(),
        approval_mode: "missing".to_owned(),
    };
    let text = format_live_env_check(&report);
    assert!(text.starts_with("live environment check\nrequired:\n"));
    assert!(text.contains("- `LIVE_TELEGRAM_BOT_TOKEN`: set"));
    assert!(text.contains("- Telegram webhook: polling-ready"));
    assert!(text.ends_with("- `LIVE_APPROVAL_MODE`: missing"));
}

#[test]
fn live_env_check_reports_missing_when_env_is_absent() {
    assert_eq!(env_presence(None), "missing");
}

#[test]
fn policy_allowlist_does_not_create_storage_when_database_is_absent() {
    let summary = policy_allowlist(&vec![11], None);
    assert!(summary.contains("`11` (bridge.toml admin)"));
    let empty = policy_allowlist(&vec![], None);
    assert_eq!(
        empty,
        "allowlist は有効ですが、まだ許可済み sender はありません。`telegram pair` を実行してください。"
    );
}

#[test]
fn pair_codes_upper_case_the_drawn_characters() {
    assert_eq!(pair_code_from_bytes(&b"aZ09xyQr5mNb".to_vec()), "AZ09XYQR5MNB");
}
