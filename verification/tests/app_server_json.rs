use remotty::app_server::{
    approval_response, assert_turn_steer_accepted, classify_call_reply, completed_outcome,
    ensure_turn_accepts_steer, initialize_params, list_threads_params, parse_approval_request,
    parse_thread_list_response, read_last_agent_message, response_id, sandbox_policy_for_workspace,
    server_request_reply, stable_approval_request_id, thread_result_thread_id,
    thread_start_params, tool_user_input_response, turn_result_turn_id, turn_start_params,
    turn_steer_params, turn_step, unknown_server_request_response, add_model_param,
    validate_tool_user_input_answer, CallReply, CodexThreadSummary, TurnProgress, TurnStep,
};
use remotty::codex::{base_args, parse_exec_stdout_event, CodexRequest};
use remotty::config::{CodexConfig, CodexTransport, LaneMode, WorkspaceConfig};
use remotty::json::Json;
use remotty::store::{
    ApprovalRequestKind, ApprovalRequestRecord, ApprovalRequestStatus, ApprovalRequestTransport,
};
use remotty::version::assert_supported_app_server_version;
use serde_json::Value;

fn to_json(v: &Value) -> Json {
    match v {
        Value::Null => Json::Null,
        Value::Bool(b) => Json::Bool(*b),
        Value::Number(n) => Json::Number(n.to_string()),
        Value::String(s) => Json::Str(s.clone()),
        Value::Array(items) => Json::Array(items.iter().map(to_json).collect()),
        Value::Object(map) => Json::Object(
            map.iter()
                .map(|(k, v)| (k.clone(), to_json(v)))
                .collect(),
        ),
    }
}

fn to_value(j: &Json) -> Value {
    match j {
        Json::Null => Value::Null,
        Json::Bool(b) => Value::Bool(*b),
        Json::Number(n) => serde_json::from_str(n).expect("number text"),
        Json::Str(s) => Value::String(s.clone()),
        Json::Array(items) => Value::Array(items.iter().map(to_value).collect()),
        Json::Object(entries) => Value::Object(
            entries
                .iter()
                .map(|(k, v)| (k.clone(), to_value(v)))
                .collect(),
        ),
    }
}

fn parse(text: &str) -> Json {
    to_json(&serde_json::from_str::<Value>(text).expect("test JSON should parse"))
}

fn value(text: &str) -> Value {
    serde_json::from_str(text).expect("expected JSON should parse")
}

fn params_text(message: &str) -> String {
    let v: Value = serde_json::from_str(message).expect("message");
    v["params"].to_string()
}

fn record(kind: ApprovalRequestKind, payload: &str) -> ApprovalRequestRecord {
    ApprovalRequestRecord {
        request_id: "req-1".to_owned(),
        transport_request_id: "transport-req-1".to_owned(),
        lane_id: "lane-1".to_owned(),
        run_id: "run-1".to_owned(),
        thread_id: "thread-1".to_owned(),
        turn_id: "turn-1".to_owned(),
        item_id: "item-1".to_owned(),
        transport: ApprovalRequestTransport::AppServer,
        request_kind: kind,
        summary_text: "summary".to_owned(),
        raw_payload_json: payload.to_owned(),
        status: ApprovalRequestStatus::Pending,
        requested_at_ms: 0,
        resolved_at_ms: None,
        resolved_by_sender_id: None,
        telegram_message_id: None,
    }
}

fn payload_of(request: &ApprovalRequestRecord) -> Option<Json> {
    serde_json::from_str::<Value>(&request.raw_payload_json)
        .ok()
        .map(|v| to_json(&v))
}

fn config(model: &str, sandbox: &str, profile: Option<&str>) -> CodexConfig {
    CodexConfig {
        binary: "codex".to_owned(),
        model: model.to_owned(),
        sandbox: sandbox.to_owned(),
        approval: "on-request".to_owned(),
        transport: CodexTransport::AppServer,
        profile: profile.map(ToOwned::to_owned),
    }
}

fn workspace() -> WorkspaceConfig {
    WorkspaceConfig {
        id: "main".to_owned(),
        path: "C:/workspace".to_owned(),
        writable_roots: vec!["C:/workspace".to_owned()],
        default_mode: LaneMode::AwaitReply,
        continue_prompt: "continue".to_owned(),
        checks_profile: "default".to_owned(),
    }
}

fn parse_request(message: &str) -> remotty::app_server::CodexApprovalRequest {
    parse_approval_request(&parse(message), &params_text(message))
        .expect("approval should parse")
        .expect("approval should exist")
}

#[test]
fn parses_command_approval_request() {
    let request = parse_request(
        r#"{"id": "req-1", "method": "item/commandExecution/requestApproval",
            "params": {"threadId": "thread-1", "turnId": "turn-1", "itemId": "item-1",
                       "command": "npm test", "cwd": "C:/workspace"}}"#,
    );

    assert_eq!(request.request_kind, ApprovalRequestKind::CommandExecution);
    assert_eq!(
        request.request_id,
        stable_approval_request_id(
            "thread-1",
            "turn-1",
            "item-1",
            ApprovalRequestKind::CommandExecution,
        )
    );
    assert_eq!(request.transport_request_id, "req-1");
    let callback_target = format!(
        "{}:1",
        request
            .request_id
            .strip_prefix("approval-")
            .unwrap_or(&request.request_id)
    );
    assert!(format!("approve:{callback_target}").len() <= 64);
    assert!(format!("deny:{callback_target}").len() <= 64);
    assert!(request.summary_text.contains("npm test"));
    assert!(request.summary_text.contains("C:/workspace"));
}

#[test]
fn parses_permissions_approval_request() {
    let request = parse_request(
        r#"{"id": "req-2", "method": "item/permissions/requestApproval",
            "params": {"threadId": "thread-1", "turnId": "turn-1", "itemId": "item-1",
                       "reason": "network access required",
                       "permissions": {"network": {"kind": "full"}, "fileSystem": null}}}"#,
    );

    assert_eq!(request.request_kind, ApprovalRequestKind::Permissions);
    assert_eq!(
        request.request_id,
        stable_approval_request_id(
            "thread-1",
            "turn-1",
            "item-1",
            ApprovalRequestKind::Permissions,
        )
    );
    assert_eq!(request.transport_request_id, "req-2");
    assert!(request.summary_text.contains("network access required"));
}

#[test]
fn parses_tool_user_input_request_with_visible_summary() {
    let request = parse_request(
        r#"{"id": "req-3", "method": "item/tool/requestUserInput",
            "params": {"threadId": "thread-1", "turnId": "turn-1", "itemId": "item-1",
              "questions": [
                {"id": "confirm_path", "question": "Approve app tool call?", "isSecret": false,
                 "options": [{"label": "Allow once"}, {"label": "Allow for session"}, {"label": "Decline"}]},
                {"id": "remember_choice", "question": "Remember this choice?", "isSecret": false,
                 "options": [{"label": "Yes"}, {"label": "No"}]}
              ]}}"#,
    );

    assert_eq!(request.request_kind, ApprovalRequestKind::ToolUserInput);
    assert!(request.summary_text.contains("追加の入力待ち: 質問数 2"));
    assert!(request.summary_text.contains("id `confirm_path`"));
    assert!(request.summary_text.contains("Approve app tool call?"));
    assert!(request.summary_text.contains("Allow once"));
    assert!(request.summary_text.contains("id `remember_choice`"));
    assert!(request.summary_text.contains("Remember this choice?"));
    assert!(request.summary_text.contains("Yes"));
}

#[test]
fn parses_tool_user_input_summary_keeps_full_question_id() {
    let long_id = "field_abcdefghijklmnopqrstuvwxyz_0123456789_extra";
    let message = format!(
        r#"{{"id": "req-long-id", "method": "item/tool/requestUserInput",
             "params": {{"threadId": "thread-1", "turnId": "turn-1", "itemId": "item-1",
                        "questions": [{{"id": "{long_id}", "question": "Target?", "isSecret": false}}]}}}}"#
    );
    let request = parse_request(&message);

    assert!(request.summary_text.contains(&format!("id `{long_id}`")));
    assert!(!request.summary_text.contains('…'));
}

#[test]
fn parses_secret_tool_user_input_without_leaking_prompt() {
    let request = parse_request(
        r#"{"id": "req-4", "method": "item/tool/requestUserInput",
            "params": {"threadId": "thread-1", "turnId": "turn-1", "itemId": "item-1",
                       "questions": [{"id": "token", "question": "Paste the API token", "isSecret": true}]}}"#,
    );

    assert_eq!(request.request_kind, ApprovalRequestKind::ToolUserInput);
    assert!(request.summary_text.contains("id `token`"));
    assert!(request.summary_text.contains("秘密入力"));
    assert!(!request.summary_text.contains("Paste the API token"));
}

#[test]
fn approval_request_parsing_reports_missing_fields() {
    let no_id = parse(r#"{"method": "item/permissions/requestApproval", "params": {}}"#);
    assert!(matches!(parse_approval_request(&no_id, "{}"), Ok(None)));
    let no_method = parse(r#"{"id": 3, "params": {}}"#);
    assert_eq!(
        parse_approval_request(&no_method, "{}").err(),
        Some("server request missing method".to_owned())
    );
    let no_params = parse(r#"{"id": 3, "method": "x"}"#);
    assert_eq!(
        parse_approval_request(&no_params, "{}").err(),
        Some("server request missing params".to_owned())
    );
    let unknown = parse(r#"{"id": 3, "method": "item/unknown", "params": {}}"#);
    assert!(matches!(parse_approval_request(&unknown, "{}"), Ok(None)));
    let no_turn = parse(
        r#"{"id": 3, "method": "execCommandApproval", "params": {"threadId": "t", "itemId": "i"}}"#,
    );
    assert_eq!(
        parse_approval_request(&no_turn, "{}").err(),
        Some("approval params missing `turnId`".to_owned())
    );
    let numeric = parse(
        r#"{"id": 7, "method": "applyPatchApproval",
            "params": {"threadId": "t", "turnId": "u", "itemId": "i", "grantRoot": "C:/w"}}"#,
    );
    let request = parse_approval_request(&numeric, "{}")
        .expect("parse")
        .expect("request");
    assert_eq!(request.transport_request_id, "7");
    assert_eq!(request.request_kind, ApprovalRequestKind::FileChange);
    assert_eq!(
        request.summary_text,
        "File change approval requested: write access to `C:/w`"
    );
    assert_eq!(response_id(&parse(r#"{"id": true}"#)), None);
}

#[test]
fn builds_decline_response_for_command_execution() {
    let request = record(ApprovalRequestKind::CommandExecution, "{}");

    let response = approval_response(&request, payload_of(&request).as_ref(), false)
        .expect("response should build");
    assert_eq!(to_value(&response), value(r#"{"decision": "decline"}"#));
}

#[test]
fn builds_decline_response_for_unknown_server_request() {
    let response = unknown_server_request_response(&parse(
        r#"{"id": "transport-req-unknown", "method": "item/unknown/requestApproval",
            "params": {"threadId": "thread-1", "turnId": "turn-1", "itemId": "item-1"}}"#,
    ))
    .expect("response should build");
    let response = to_value(&response);

    assert_eq!(
        response["id"],
        Value::String("transport-req-unknown".to_owned())
    );
    assert_eq!(
        response["response"]["decision"],
        Value::String("decline".to_owned())
    );
    assert_eq!(
        response["result"]["decision"],
        Value::String("decline".to_owned())
    );
}

#[test]
fn builds_accept_response_for_permissions_request() {
    let request = record(
        ApprovalRequestKind::Permissions,
        r#"{"permissions": {"network": {"kind": "full"}, "fileSystem": null}}"#,
    );

    let response = approval_response(&request, payload_of(&request).as_ref(), true)
        .expect("response should build");
    assert_eq!(
        to_value(&response),
        value(
            r#"{"permissions": {"network": {"kind": "full"}, "fileSystem": null}, "scope": "turn"}"#
        )
    );
}

#[test]
fn approval_responses_for_other_cases() {
    let tool = record(ApprovalRequestKind::ToolUserInput, "{}");
    assert_eq!(
        approval_response(&tool, payload_of(&tool).as_ref(), true).err(),
        Some("tool user input approvals are not implemented yet".to_owned())
    );
    assert_eq!(
        to_value(&approval_response(&tool, payload_of(&tool).as_ref(), false).expect("decline")),
        value(r#"{"answers": {}}"#)
    );
    let broken = record(ApprovalRequestKind::CommandExecution, "not json");
    assert_eq!(
        approval_response(&broken, payload_of(&broken).as_ref(), true).err(),
        Some("invalid approval payload JSON".to_owned())
    );
    let permissions = record(ApprovalRequestKind::Permissions, "{}");
    assert_eq!(
        to_value(&approval_response(&permissions, payload_of(&permissions).as_ref(), false).expect("deny")),
        value(r#"{"permissions": {}, "scope": "turn"}"#)
    );
}

#[test]
fn builds_tool_user_input_response_for_single_question() {
    let request = record(
        ApprovalRequestKind::ToolUserInput,
        r#"{"questions": [{"id": "confirm_path", "header": "Path", "question": "Use this path?", "isSecret": false}]}"#,
    );

    let response = tool_user_input_response(&request, payload_of(&request).as_ref(), "yes")
        .expect("response should build");
    assert_eq!(
        to_value(&response),
        value(r#"{"answers": {"confirm_path": {"answers": ["yes"]}}}"#)
    );
}

#[test]
fn single_tool_user_input_preserves_key_value_text() {
    let request = record(
        ApprovalRequestKind::ToolUserInput,
        r#"{"questions": [{"id": "token_text", "question": "Token text?", "isSecret": false}]}"#,
    );

    let response = tool_user_input_response(
        &request,
        payload_of(&request).as_ref(),
        "KEY=https://example.com:8443/path",
    )
    .expect("response should build");
    assert_eq!(
        to_value(&response),
        value(r#"{"answers": {"token_text": {"answers": ["KEY=https://example.com:8443/path"]}}}"#)
    );
}

#[test]
fn builds_tool_user_input_response_for_multiple_questions() {
    let request = record(
        ApprovalRequestKind::ToolUserInput,
        r#"{"questions": [{"id": "target", "question": "Target?", "isSecret": false},
                          {"id": "mode", "question": "Mode?", "isSecret": false}]}"#,
    );

    let response = tool_user_input_response(
        &request,
        payload_of(&request).as_ref(),
        "target=docs\nmode=review",
    )
    .expect("response should build");
    assert_eq!(
        to_value(&response),
        value(r#"{"answers": {"target": {"answers": ["docs"]}, "mode": {"answers": ["review"]}}}"#)
    );
}

#[test]
fn rejects_multiple_tool_user_input_missing_question_id_with_expected_ids() {
    let request = record(
        ApprovalRequestKind::ToolUserInput,
        r#"{"questions": [{"id": "target", "question": "Target?", "isSecret": false},
                          {"id": "mode", "question": "Mode?", "isSecret": false}]}"#,
    );

    let error = tool_user_input_response(&request, payload_of(&request).as_ref(), "target=docs")
        .expect_err("missing answer should be rejected");
    assert!(error.contains("mode"));
    assert!(error.contains("target, mode"));
}

#[test]
fn rejects_tool_user_input_response_for_wrong_request_kind() {
    let request = record(
        ApprovalRequestKind::CommandExecution,
        r#"{"questions": [{"id": "target", "question": "Target?"}]}"#,
    );

    let error = tool_user_input_response(&request, payload_of(&request).as_ref(), "target=docs")
        .expect_err("wrong request kind should be rejected");
    assert!(error.contains("not a tool user input request"));
}

#[test]
fn rejects_secret_tool_user_input_from_telegram() {
    let request = record(
        ApprovalRequestKind::ToolUserInput,
        r#"{"questions": [{"id": "token", "question": "Token?", "isSecret": true}]}"#,
    );

    let error = tool_user_input_response(&request, payload_of(&request).as_ref(), "secret")
        .expect_err("secret input should be rejected");
    assert!(error.contains("cannot be answered from Telegram"));
    assert!(validate_tool_user_input_answer(&request, payload_of(&request).as_ref(), "x").is_err());
}

#[test]
fn tool_user_input_rejects_empty_and_malformed_payloads() {
    let empty = record(ApprovalRequestKind::ToolUserInput, r#"{"questions": []}"#);
    assert_eq!(
        tool_user_input_response(&empty, payload_of(&empty).as_ref(), "x").err(),
        Some("tool user input payload has no questions".to_owned())
    );
    let missing = record(ApprovalRequestKind::ToolUserInput, "{}");
    assert_eq!(
        tool_user_input_response(&missing, payload_of(&missing).as_ref(), "x").err(),
        Some("tool user input payload missing questions".to_owned())
    );
    let blank = record(
        ApprovalRequestKind::ToolUserInput,
        r#"{"questions": [{"id": "a", "question": "A?"}]}"#,
    );
    assert_eq!(
        tool_user_input_response(&blank, payload_of(&blank).as_ref(), "   ").err(),
        Some("answer for question `a` is empty".to_owned())
    );
}

#[test]
fn add_model_param_omits_blank_model() {
    let mut params = parse("{}");
    add_model_param(&mut params, &config("", "workspace-write", None));

    assert!(to_value(&params).get("model").is_none());
}

#[test]
fn add_model_param_includes_configured_model() {
    let mut params = parse("{}");
    add_model_param(&mut params, &config("gpt-5.4", "workspace-write", None));

    assert_eq!(to_value(&params)["model"], Value::String("gpt-5.4".to_owned()));
}

#[test]
fn workspace_write_sandbox_policy_enables_network_access() {
    let policy = to_value(&sandbox_policy_for_workspace(
        &config("gpt-5.4", "workspace-write", None),
        &workspace(),
    ));

    assert_eq!(policy["type"], Value::String("workspaceWrite".to_owned()));
    assert_eq!(policy["networkAccess"], Value::Bool(true));
    assert_eq!(
        policy["readOnlyAccess"]["type"],
        Value::String("restricted".to_owned())
    );
    assert_eq!(
        policy["readOnlyAccess"]["readableRoots"],
        value(r#"["C:/workspace"]"#)
    );
}

#[test]
fn read_only_sandbox_policy_enables_network_access() {
    let policy = to_value(&sandbox_policy_for_workspace(
        &config("gpt-5.4", "read-only", None),
        &workspace(),
    ));

    assert_eq!(policy["type"], Value::String("readOnly".to_owned()));
    assert_eq!(policy["networkAccess"], Value::Bool(true));
    assert_eq!(
        policy["access"]["type"],
        Value::String("restricted".to_owned())
    );
    assert_eq!(policy["access"]["readableRoots"], value(r#"["C:/workspace"]"#));
}

#[test]
fn unknown_sandbox_falls_back_to_workspace_write() {
    let policy = to_value(&sandbox_policy_for_workspace(
        &config("gpt-5.4", "custom-box", None),
        &workspace(),
    ));
    assert_eq!(policy["type"], Value::String("workspaceWrite".to_owned()));
    assert_eq!(policy["fallbackSandbox"], Value::String("custom-box".to_owned()));
    let full = to_value(&sandbox_policy_for_workspace(
        &config("gpt-5.4", "danger-full-access", None),
        &workspace(),
    ));
    assert_eq!(full, value(r#"{"type": "dangerFullAccess"}"#));
}

#[test]
fn initialize_params_enable_experimental_api() {
    let params = to_value(&initialize_params("0.1.0"));
    assert_eq!(params["capabilities"]["experimentalApi"], Value::Bool(true));
    assert_eq!(params["clientInfo"]["version"], Value::String("0.1.0".to_owned()));
}

#[test]
fn assert_supported_app_server_version_rejects_old_versions() {
    let error = assert_supported_app_server_version(&parse(r#"{"userAgent": "Codex/0.117.9"}"#))
        .expect_err("old version should fail");

    assert!(error.contains("0.118.0 or newer"));
    assert!(error.contains("0.117.9"));
}

#[test]
fn assert_supported_app_server_version_accepts_minimum_version() {
    assert_supported_app_server_version(&parse(r#"{"userAgent": "Codex/0.118.0"}"#))
        .expect("minimum version should pass");
}

#[test]
fn assert_supported_app_server_version_needs_a_user_agent() {
    let error = assert_supported_app_server_version(&parse("{}")).expect_err("no agent");
    assert!(error.contains("could not determine the running Codex version"));
}

#[test]
fn parse_thread_list_response_accepts_threads_key() {
    let threads = parse_thread_list_response(&parse(
        r#"{"threads": [{"threadId": "thread-1", "title": "Fix tests", "cwd": "C:/workspace",
                         "model": "gpt-5.4", "updatedAt": "2026-04-22T00:00:00Z"}]}"#,
    ))
    .expect("threads should parse");

    assert_eq!(
        threads,
        vec![CodexThreadSummary {
            thread_id: "thread-1".to_owned(),
            title: Some("Fix tests".to_owned()),
            cwd: Some("C:/workspace".to_owned()),
            model: Some("gpt-5.4".to_owned()),
            updated_at: Some("2026-04-22T00:00:00Z".to_owned()),
        }]
    );
}

#[test]
fn parse_thread_list_response_accepts_items_key_and_id_fallback() {
    let threads = parse_thread_list_response(&parse(
        r#"{"items": [{"id": "thread-2", "summary": "Continue work", "lastUpdatedAt": "2026-04-22T01:00:00Z"}]}"#,
    ))
    .expect("threads should parse");

    assert_eq!(threads[0].thread_id, "thread-2");
    assert_eq!(threads[0].title.as_deref(), Some("Continue work"));
    assert_eq!(
        threads[0].updated_at.as_deref(),
        Some("2026-04-22T01:00:00Z")
    );
}

#[test]
fn parse_thread_list_response_rejects_entries_without_id() {
    let error = parse_thread_list_response(&parse(r#"{"threads": [{"title": "Missing id"}]}"#))
        .expect_err("missing id should fail");

    assert!(error.contains("thread id"));
    assert_eq!(
        parse_thread_list_response(&parse(r#"{"nothing": 1}"#)).err(),
        Some("thread/list result missing threads".to_owned())
    );
    assert_eq!(
        parse_thread_list_response(&parse(r#"[{"id": " t "}]"#)).expect("array")[0].thread_id,
        "t"
    );
}

#[test]
fn turn_steer_params_include_expected_turn_id_and_input() {
    let params = to_value(&turn_steer_params(
        "thread-1",
        "turn-1",
        CodexRequest::new("follow up".to_owned()),
    ));

    assert_eq!(params["threadId"], Value::String("thread-1".to_owned()));
    assert_eq!(params["expectedTurnId"], Value::String("turn-1".to_owned()));
    assert_eq!(params["input"][0]["type"], Value::String("text".to_owned()));
    assert_eq!(
        params["input"][0]["text"],
        Value::String("follow up".to_owned())
    );
}

#[test]
fn steer_turn_rejects_negative_server_response() {
    assert!(assert_turn_steer_accepted(&parse(r#"{"accepted": true}"#)).is_ok());
    assert_eq!(
        assert_turn_steer_accepted(&parse(r#"{"queued": false}"#)).err(),
        Some("app-server `turn/steer` rejected follow-up".to_owned())
    );
    assert_eq!(
        assert_turn_steer_accepted(&parse(r#"{"status": "canceled"}"#)).err(),
        Some("app-server `turn/steer` returned status `canceled`".to_owned())
    );
}

#[test]
fn steer_turn_rejects_completed_turn_before_writing_followup() {
    let response = parse(
        r#"{"thread": {"turns": [{"id": "turn-1", "status": "completed"}, {"id": "turn-2", "status": "running"}]}}"#,
    );
    assert_eq!(
        ensure_turn_accepts_steer(&response, "thread-1", "turn-1").err(),
        Some("turn `turn-1` is already completed".to_owned())
    );
    assert!(ensure_turn_accepts_steer(&response, "thread-1", "turn-2").is_ok());
    assert_eq!(
        ensure_turn_accepts_steer(&response, "thread-1", "turn-3").err(),
        Some("turn `turn-3` was not found in thread `thread-1`".to_owned())
    );
}

#[test]
fn steer_turn_rejects_unknown_turn_status_before_writing_followup() {
    let response = parse(r#"{"thread": {"turns": [{"id": "turn-1", "status": "mystery"}]}}"#);
    assert_eq!(
        ensure_turn_accepts_steer(&response, "thread-1", "turn-1").err(),
        Some("turn `turn-1` has unsupported status `mystery`".to_owned())
    );
    assert_eq!(
        ensure_turn_accepts_steer(&parse("{}"), "thread-1", "turn-1").err(),
        Some("thread/read missing turns".to_owned())
    );
}

#[test]
fn last_agent_message_reads_the_latest_item_of_the_turn() {
    let response = parse(
        r#"{"thread": {"turns": [
            {"id": "turn-1", "items": [{"type": "agentMessage", "text": "first"},
                                       {"type": "agentMessage", "text": "second"},
                                       {"type": "toolCall"}]},
            {"id": "turn-2", "items": []}]}}"#,
    );
    assert_eq!(read_last_agent_message(&response, "turn-1"), Ok("second".to_owned()));
    assert_eq!(read_last_agent_message(&response, "turn-2"), Ok(String::new()));
    assert!(read_last_agent_message(&parse("{}"), "turn-1").is_err());
}

#[test]
fn turn_and_thread_results_carry_ids() {
    assert_eq!(
        turn_result_turn_id(&parse(r#"{"turn": {"id": "u-1"}}"#)),
        Ok("u-1".to_owned())
    );
    assert!(turn_result_turn_id(&parse(r#"{"turn": {}}"#)).is_err());
    assert_eq!(
        thread_result_thread_id(&parse(r#"{"thread": {"id": "t-1"}}"#)),
        Ok("t-1".to_owned())
    );
    assert_eq!(
        thread_result_thread_id(&parse("{}")).err(),
        Some("thread result missing thread.id".to_owned())
    );
}

#[test]
fn request_parameters() {
    let start = to_value(&thread_start_params(&config("gpt-5.4", "read-only", None), &workspace()));
    assert_eq!(start["model"], Value::String("gpt-5.4".to_owned()));
    assert_eq!(start["serviceName"], Value::String("remotty".to_owned()));
    let turn = to_value(&turn_start_params(
        "thread-1",
        CodexRequest::with_images("hi".to_owned(), vec!["C:/a.png".to_owned()]),
        &config("gpt-5.4", "read-only", None),
        &workspace(),
        false,
    ));
    assert!(turn.get("model").is_none());
    assert_eq!(turn["input"][1]["path"], Value::String("C:/a.png".to_owned()));
    assert_eq!(turn["sandboxPolicy"]["type"], Value::String("readOnly".to_owned()));
    assert_eq!(
        to_value(&list_threads_params(10, Some("  fix "))),
        value(r#"{"limit": 10, "filter": "fix"}"#)
    );
    assert_eq!(to_value(&list_threads_params(10, Some("  "))), value(r#"{"limit": 10}"#));
    assert_eq!(
        to_value(&server_request_reply("req-1", &parse(r#"{"decision": "accept"}"#))),
        value(r#"{"id": "req-1", "response": {"decision": "accept"}, "result": {"decision": "accept"}}"#)
    );
}

#[test]
fn call_replies_are_sorted_by_id() {
    let ok = parse(r#"{"id": "client-1", "result": {"x": 1}}"#);
    assert!(matches!(classify_call_reply(&ok, "client-1"), CallReply::Result(_)));
    assert!(matches!(classify_call_reply(&ok, "client-2"), CallReply::Other));
    let failed = parse(r#"{"id": "client-1", "error": {"code": 1}}"#);
    assert!(matches!(classify_call_reply(&failed, "client-1"), CallReply::Failed(_)));
    let empty = parse(r#"{"id": "client-1"}"#);
    assert!(matches!(classify_call_reply(&empty, "client-1"), CallReply::Missing));
}

#[test]
fn turn_steps_follow_the_running_turn() {
    let mut progress = TurnProgress {
        delta_message: String::new(),
        approval_resolved_count: 0,
    };
    let delta = parse(
        r#"{"method": "item/agentMessage/delta", "params": {"threadId": "t", "turnId": "u", "delta": "Hel"}}"#,
    );
    let other_turn = parse(
        r#"{"method": "item/agentMessage/delta", "params": {"threadId": "t", "turnId": "v", "delta": "xx"}}"#,
    );
    let delta2 = parse(
        r#"{"method": "item/agentMessage/delta", "params": {"threadId": "t", "turnId": "u", "delta": "lo"}}"#,
    );
    assert!(matches!(turn_step(&mut progress, &delta, "t", "u"), Ok(TurnStep::Continue)));
    assert!(matches!(turn_step(&mut progress, &other_turn, "t", "u"), Ok(TurnStep::Continue)));
    assert!(matches!(turn_step(&mut progress, &delta2, "t", "u"), Ok(TurnStep::Continue)));
    assert_eq!(progress.delta_message, "Hello");
    let resolved = parse(r#"{"method": "serverRequest/resolved", "params": {"threadId": "t"}}"#);
    assert!(matches!(turn_step(&mut progress, &resolved, "t", "u"), Ok(TurnStep::Continue)));
    assert_eq!(progress.approval_resolved_count, 1);
    let request = parse(r#"{"id": 5, "method": "item/tool/requestUserInput", "params": {}}"#);
    assert!(matches!(turn_step(&mut progress, &request, "t", "u"), Ok(TurnStep::ServerRequest)));
    let reply = parse(r#"{"id": "client-9", "result": {}}"#);
    assert!(matches!(turn_step(&mut progress, &reply, "t", "u"), Ok(TurnStep::Backlog)));
    let done = parse(r#"{"method": "turn/completed", "params": {"turn": {"id": "u", "status": "interrupted"}}}"#);
    match turn_step(&mut progress, &done, "t", "u") {
        Ok(TurnStep::Completed(status)) => {
            let outcome = completed_outcome(progress, "t", "u", &status, None);
            assert_eq!(outcome.exit_code, Some(130));
            assert_eq!(outcome.last_message, "Hello");
            assert_eq!(outcome.approval_resolved_count, 1);
        }
        _ => panic!("turn should complete"),
    }
    let mut fresh = TurnProgress {
        delta_message: String::new(),
        approval_resolved_count: 0,
    };
    let broken = parse(r#"{"method": "turn/completed", "params": {}}"#);
    assert_eq!(
        turn_step(&mut fresh, &broken, "t", "u").err(),
        Some("turn/completed missing turn".to_owned())
    );
}

#[test]
fn base_args_omit_profile_when_not_configured() {
    let mut c = config("gpt-5.4", "read-only", None);
    c.approval = "never".to_owned();
    let args = base_args(&c, &workspace());

    assert!(!args.iter().any(|arg| arg == "--profile"));
}

#[test]
fn base_args_omit_model_when_not_configured() {
    let mut c = config("", "read-only", None);
    c.approval = "never".to_owned();
    let args = base_args(&c, &workspace());

    assert!(!args.iter().any(|arg| arg == "--model"));
}

#[test]
fn base_args_include_model_when_configured() {
    let mut c = config("gpt-5.4", "read-only", None);
    c.approval = "never".to_owned();
    let args = base_args(&c, &workspace());
    let model_index = args
        .iter()
        .position(|arg| arg == "--model")
        .expect("missing --model");

    assert_eq!(args.get(model_index + 1), Some(&"gpt-5.4".to_owned()));
    assert!(args.contains(&"approval_policy=\"never\"".to_owned()));
}

#[test]
fn base_args_include_profile_when_configured() {
    let mut c = config("gpt-5.4", "read-only", Some("work"));
    c.approval = "never".to_owned();
    let args = base_args(&c, &workspace());
    let profile_index = args
        .iter()
        .position(|arg| arg == "--profile")
        .expect("missing --profile");

    assert_eq!(args.get(profile_index + 1), Some(&"work".to_owned()));
}

#[test]
fn parses_current_exec_json_agent_message() {
    let mut session_id = None;
    let mut last_message = String::new();
    let mut approval_pending = false;

    parse_exec_stdout_event(
        &parse(r#"{"type": "thread.started", "thread_id": "thread-1"}"#),
        &mut session_id,
        &mut last_message,
        &mut approval_pending,
    );
    parse_exec_stdout_event(
        &parse(r#"{"type": "item.completed", "item": {"type": "agent_message", "text": "こんにちは。何から始めますか？"}}"#),
        &mut session_id,
        &mut last_message,
        &mut approval_pending,
    );

    assert_eq!(session_id.as_deref(), Some("thread-1"));
    assert_eq!(last_message, "こんにちは。何から始めますか？");
    assert!(!approval_pending);
    parse_exec_stdout_event(
        &parse(r#"{"msg": {"type": "exec_approval_request"}}"#),
        &mut session_id,
        &mut last_message,
        &mut approval_pending,
    );
    assert!(approval_pending);
}

fn answer_step_text(step: &remotty::engine::ApprovalDecisionStep) -> Option<(String, String)> {
    match step {
        remotty::engine::ApprovalDecisionStep::Reply(reply) => {
            Some((reply.reply_text.clone(), reply.callback_text.clone()))
        }
        _ => None,
    }
}

#[test]
fn answer_resumes_a_pending_input_request() {
    let request = record(
        ApprovalRequestKind::ToolUserInput,
        r#"{"questions": [{"id": "confirm_path", "question": "Use this path?", "isSecret": false}]}"#,
    );
    let step = remotty::engine::decide_answer_step(&request, "lane-1", payload_of(&request).as_ref(), "yes");
    assert!(matches!(step, remotty::engine::ApprovalDecisionStep::ResumeAppServerTurn));
}

#[test]
fn answer_is_refused_for_other_requests() {
    let request = record(ApprovalRequestKind::CommandExecution, "{}");
    let step = remotty::engine::decide_answer_step(&request, "lane-1", payload_of(&request).as_ref(), "yes");
    assert_eq!(
        answer_step_text(&step),
        Some((
            "Approval request `req-1` does not wait for an answer. Use /approve or /deny.".to_owned(),
            "Use /approve or /deny for this request.".to_owned()
        ))
    );
    let input = record(
        ApprovalRequestKind::ToolUserInput,
        r#"{"questions": [{"id": "confirm_path", "question": "Use this path?"}]}"#,
    );
    let other_lane = remotty::engine::decide_answer_step(&input, "lane-2", payload_of(&input).as_ref(), "yes");
    assert_eq!(
        answer_step_text(&other_lane),
        Some((
            "This approval request belongs to a different chat.".to_owned(),
            "Wrong chat for this request.".to_owned()
        ))
    );
}

#[test]
fn answer_that_misses_a_question_is_refused() {
    let request = record(
        ApprovalRequestKind::ToolUserInput,
        r#"{"questions": [{"id": "a", "question": "A?"}, {"id": "b", "question": "B?"}]}"#,
    );
    let expected = validate_tool_user_input_answer(&request, payload_of(&request).as_ref(), "a=1")
        .expect_err("b is missing");
    let step = remotty::engine::decide_answer_step(&request, "lane-1", payload_of(&request).as_ref(), "a=1");
    assert_eq!(
        answer_step_text(&step),
        Some((expected, "The answer does not fit the request.".to_owned()))
    );
}
