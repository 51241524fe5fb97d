//! The bridge's decisions: how a lane continues after a turn, what each
//! chat reply says, how approval notices are built and read back, and how
//! an approval decision from Telegram is handled.
use vstd::prelude::*;

use crate::app_server::CodexThreadSummary;
use crate::checks::CheckRunSummary;
use crate::codex::{CodexOutcome, CodexRequest};
use crate::config::{CodexTransport, Config, LaneMode, WorkspaceConfig};
use crate::store::{
    AuthorizedSender, ApprovalRequestKind, ApprovalRequestRecord, ApprovalRequestStatus, ApprovalRequestTransport,
    CodexThreadBinding, LaneRecord, LaneState,
};
use crate::telegram::{TelegramControlCommand, InlineKeyboardButton, SavedTelegramAttachment, TelegramAttachmentKind};
use crate::text::{
    chars_of, dec, eq_str, i64_chars, int_str, join, join_strings, lower_seq, push_chars,
    str_of, str_views, string_of, subvec, to_lower_vec, trim, trim_str, trim_ws, u64_chars,
    split_once, split_once_char, starts_with_str,
};

verus! {

pub const MAX_COMPLETION_REPAIR_TURNS: usize = 2;

pub const MAX_TELEGRAM_ATTACHMENT_BYTES: usize = 20971520;

pub const MAX_INFINITE_AUTO_TURNS: usize = 16;

pub const AUTO_CONTINUE_STOP_MARKER: &'static str = "CHANNEL_WAITING";

pub open spec fn stop_marker() -> Seq<char> {
    "CHANNEL_WAITING"@
}

// ---------------------------------------------------------------------------
// Turn budgets and automatic continuation
// ---------------------------------------------------------------------------

pub open spec fn spec_extra_turn_budget(
    mode: LaneMode,
    requested_budget: Option<i64>,
    default_max_turns_limit: i64,
) -> i64 {
    match mode {
        LaneMode::MaxTurns => {
            let chosen = match requested_budget {
                Some(v) => if v > 0 {
                    v
                } else {
                    default_max_turns_limit
                },
                None => default_max_turns_limit,
            };
            if chosen < default_max_turns_limit {
                chosen
            } else {
                default_max_turns_limit
            }
        },
        _ => 0,
    }
}

/// The extra turns a lane in `mode` may run on its own: for `max_turns`, the
/// requested positive budget capped by the configured limit (the limit when
/// none was requested); for the other modes, none.
pub fn configured_extra_turn_budget(
    mode: LaneMode,
    requested_budget: Option<i64>,
    default_max_turns_limit: i64,
) -> (r: i64)
    ensures
        r == spec_extra_turn_budget(mode, requested_budget, default_max_turns_limit),
        mode == LaneMode::MaxTurns && default_max_turns_limit > 0 ==> 0 < r
            <= default_max_turns_limit,
        mode != LaneMode::MaxTurns ==> r == 0,
{
    match mode {
        LaneMode::MaxTurns => {
            let chosen = match requested_budget {
                Some(v) => if v > 0 {
                    v
                } else {
                    default_max_turns_limit
                },
                None => default_max_turns_limit,
            };
            if chosen < default_max_turns_limit {
                chosen
            } else {
                default_max_turns_limit
            }
        },
        _ => 0,
    }
}

/// `/mode max_turns <n>` gives the lane exactly `n` extra turns when `n` is
/// positive and within the configured limit, and never more than the limit;
/// without a positive `n` it gets the limit. The automatic turn limit of a
/// `max_turns` lane is that budget.
pub proof fn lemma_requested_budget_is_kept(requested: i64, limit: i64)
    ensures
        0 < requested <= limit ==> spec_extra_turn_budget(LaneMode::MaxTurns, Some(requested), limit)
            == requested,
        spec_extra_turn_budget(LaneMode::MaxTurns, Some(requested), limit) <= limit,
        requested > limit ==> spec_extra_turn_budget(LaneMode::MaxTurns, Some(requested), limit)
            == limit,
        requested <= 0 ==> spec_extra_turn_budget(LaneMode::MaxTurns, Some(requested), limit) == limit,
        spec_extra_turn_budget(LaneMode::MaxTurns, None, limit) == limit,
        0 < requested <= limit ==> spec_automatic_turn_limit(LaneMode::MaxTurns, requested, limit)
            == Some(requested as usize),
        spec_automatic_turn_limit(LaneMode::Infinite, requested, limit) is None,
{
}

pub open spec fn spec_automatic_turn_limit(
    mode: LaneMode,
    configured_budget: i64,
    default_max_turns_limit: i64,
) -> Option<usize> {
    match mode {
        LaneMode::Infinite => None,
        LaneMode::MaxTurns => Some(
            spec_extra_turn_budget(mode, Some(configured_budget), default_max_turns_limit) as usize,
        ),
        _ => Some(0),
    }
}

pub fn automatic_turn_limit(mode: LaneMode, configured_budget: i64, default_max_turns_limit: i64) -> (r:
    Option<usize>)
    ensures
        r == spec_automatic_turn_limit(mode, configured_budget, default_max_turns_limit),
{
    match mode {
        LaneMode::Infinite => None,
        LaneMode::MaxTurns => {
            let budget = configured_extra_turn_budget(
                mode,
                Some(configured_budget),
                default_max_turns_limit,
            );
            Some(budget as usize)
        },
        _ => Some(0),
    }
}

pub open spec fn spec_should_continue(
    mode: LaneMode,
    auto_turn_limit: Option<usize>,
    auto_turns_completed: usize,
    outcome: CodexOutcome,
    has_unresolved_checks: bool,
) -> bool {
    if mode == LaneMode::AwaitReply || mode == LaneMode::CompletionChecks {
        false
    } else if outcome.approval_pending || has_unresolved_checks || outcome.session_id is None
        || trim(outcome.last_message@).len() == 0 || trim(outcome.last_message@) == stop_marker()
        || outcome.exit_code != Some(0i32) {
        false
    } else {
        match mode {
            LaneMode::Infinite => auto_turns_completed < MAX_INFINITE_AUTO_TURNS,
            LaneMode::MaxTurns => match auto_turn_limit {
                Some(limit) => auto_turns_completed < limit,
                None => false,
            },
            _ => false,
        }
    }
}

/// A lane never continues on its own when Codex ended its turn with the
/// stop marker `CHANNEL_WAITING` (it waits for the user), when an approval
/// is pending, or when the turn did not exit cleanly.
pub proof fn lemma_stop_marker_ends_automatic_turns(
    mode: LaneMode,
    auto_turn_limit: Option<usize>,
    auto_turns_completed: usize,
    outcome: CodexOutcome,
    has_unresolved_checks: bool,
)
    ensures
        trim(outcome.last_message@) == "CHANNEL_WAITING"@ ==> !spec_should_continue(
            mode,
            auto_turn_limit,
            auto_turns_completed,
            outcome,
            has_unresolved_checks,
        ),
        outcome.approval_pending ==> !spec_should_continue(
            mode,
            auto_turn_limit,
            auto_turns_completed,
            outcome,
            has_unresolved_checks,
        ),
        outcome.exit_code != Some(0i32) ==> !spec_should_continue(
            mode,
            auto_turn_limit,
            auto_turns_completed,
            outcome,
            has_unresolved_checks,
        ),
{
    reveal_strlit("CHANNEL_WAITING");
}

/// Whether a lane runs one more turn on its own after `outcome`.
pub fn should_continue_automatically(
    mode: LaneMode,
    auto_turn_limit: Option<usize>,
    auto_turns_completed: usize,
    outcome: &CodexOutcome,
    unresolved_checks: Option<&CheckRunSummary>,
) -> (r: bool)
    ensures
        r == spec_should_continue(
            mode,
            auto_turn_limit,
            auto_turns_completed,
            *outcome,
            unresolved_checks is Some,
        ),
        r && mode == LaneMode::Infinite ==> auto_turns_completed < MAX_INFINITE_AUTO_TURNS,
        r && mode == LaneMode::MaxTurns ==> (auto_turn_limit matches Some(limit)
            && auto_turns_completed < limit),
        r ==> mode == LaneMode::Infinite || mode == LaneMode::MaxTurns,
{
    match mode {
        LaneMode::AwaitReply | LaneMode::CompletionChecks => {
            return false;
        },
        _ => {},
    }
    let message = trim_str(outcome.last_message.as_str());
    let is_stop = eq_str(&message, AUTO_CONTINUE_STOP_MARKER);
    let exit_ok = match outcome.exit_code {
        Some(code) => code == 0,
        None => false,
    };
    if outcome.approval_pending || unresolved_checks.is_some() || outcome.session_id.is_none()
        || message.len() == 0 || is_stop || !exit_ok {
        return false;
    }
    match mode {
        LaneMode::Infinite => auto_turns_completed < MAX_INFINITE_AUTO_TURNS,
        LaneMode::MaxTurns => match auto_turn_limit {
            Some(limit) => auto_turns_completed < limit,
            None => false,
        },
        _ => false,
    }
}

/// The message that a lane shows for a reply that is only the stop marker.
pub fn sanitize_auto_continue_message(message: &str) -> (r: String)
    ensures
        r@ == (if trim(message@) == stop_marker() {
            Seq::<char>::empty()
        } else {
            message@
        }),
{
    let t = trim_str(message);
    if eq_str(&t, AUTO_CONTINUE_STOP_MARKER) {
        String::new()
    } else {
        str_of(message)
    }
}

/// The message a lane keeps showing after an automatic turn: the turn's own
/// visible message when it has one, else the one shown before.
pub fn keep_visible_message(previous: String, next_message: &str) -> (r: String)
    ensures
        ({
            let visible = if trim(next_message@) == stop_marker() {
                Seq::<char>::empty()
            } else {
                next_message@
            };
            r@ == if trim(visible).len() > 0 {
                visible
            } else {
                previous@
            }
        }),
{
    let visible = sanitize_auto_continue_message(next_message);
    if crate::text::str_is_blank(visible.as_str()) {
        previous
    } else {
        visible
    }
}

/// The state a lane takes after a turn: waiting for a local approval, failed
/// checks, or waiting for the next reply.
pub open spec fn spec_next_lane_state(approval_pending: bool, has_unresolved_checks: bool) -> LaneState {
    if approval_pending {
        LaneState::NeedsLocalApproval
    } else if has_unresolved_checks {
        LaneState::Failed
    } else {
        LaneState::WaitingReply
    }
}

pub fn next_lane_state(approval_pending: bool, has_unresolved_checks: bool) -> (r: LaneState)
    ensures
        r == spec_next_lane_state(approval_pending, has_unresolved_checks),
{
    if approval_pending {
        LaneState::NeedsLocalApproval
    } else if has_unresolved_checks {
        LaneState::Failed
    } else {
        LaneState::WaitingReply
    }
}

// ---------------------------------------------------------------------------
// Names
// ---------------------------------------------------------------------------

pub open spec fn mode_name(mode: LaneMode) -> Seq<char> {
    match mode {
        LaneMode::AwaitReply => "await_reply"@,
        LaneMode::CompletionChecks => "completion_checks"@,
        LaneMode::Infinite => "infinite"@,
        LaneMode::MaxTurns => "max_turns"@,
    }
}

pub fn lane_mode_name(mode: LaneMode) -> (r: &'static str)
    ensures
        r@ == mode_name(mode),
{
    match mode {
        LaneMode::AwaitReply => "await_reply",
        LaneMode::CompletionChecks => "completion_checks",
        LaneMode::Infinite => "infinite",
        LaneMode::MaxTurns => "max_turns",
    }
}

pub fn lane_state_name(state: LaneState) -> (r: &'static str)
    ensures
        r@ == state.name(),
{
    state.as_str()
}

pub fn approval_status_name(status: ApprovalRequestStatus) -> (r: &'static str)
    ensures
        r@ == status.name(),
{
    status.as_str()
}

pub fn approval_request_transport(transport: CodexTransport) -> (r: ApprovalRequestTransport)
    ensures
        transport == CodexTransport::Exec ==> r == ApprovalRequestTransport::Exec,
        transport == CodexTransport::AppServer ==> r == ApprovalRequestTransport::AppServer,
{
    match transport {
        CodexTransport::Exec => ApprovalRequestTransport::Exec,
        CodexTransport::AppServer => ApprovalRequestTransport::AppServer,
    }
}

/// Reads a lane mode name, ignoring surrounding whitespace and ASCII case.
pub fn parse_lane_mode_name(value: &str) -> (r: Result<LaneMode, String>)
    ensures
        r matches Ok(mode) ==> mode_name(mode) == lower_seq(trim(value@)),
        r is Err ==> forall|m: LaneMode| mode_name(m) != lower_seq(trim(value@)),
        r matches Err(message) ==> message@
            == "不正なモードです。`await_reply`、`completion_checks`、`infinite`、`max_turns` を使ってください。"@,
{
    let t = trim_str(value);
    let v = to_lower_vec(&t);
    if eq_str(&v, "await_reply") {
        Ok(LaneMode::AwaitReply)
    } else if eq_str(&v, "completion_checks") {
        Ok(LaneMode::CompletionChecks)
    } else if eq_str(&v, "infinite") {
        Ok(LaneMode::Infinite)
    } else if eq_str(&v, "max_turns") {
        Ok(LaneMode::MaxTurns)
    } else {
        Err(
            str_of(
                "不正なモードです。`await_reply`、`completion_checks`、`infinite`、`max_turns` を使ってください。",
            ),
        )
    }
}

/// Every lane mode name reads back as its mode.
pub proof fn lemma_mode_names_round_trip(m: LaneMode)
    ensures
        lower_seq(trim(mode_name(m))) == mode_name(m),
        forall|a: LaneMode, b: LaneMode| mode_name(a) == mode_name(b) ==> a == b,
{
    reveal_strlit("await_reply");
    reveal_strlit("completion_checks");
    reveal_strlit("infinite");
    reveal_strlit("max_turns");
    let n = mode_name(m);
    assert(!crate::text::is_ws(n[0]));
    assert(!crate::text::is_ws(n[n.len() - 1]));
    assert(crate::text::skip_from(n, 0, crate::text::ws_pred()) == 0);
    assert(n.skip(0) =~= n);
    assert(crate::text::back_to(n, n.len() as int, crate::text::ws_pred()) == n.len());
    assert(n.take(n.len() as int) =~= n);
    assert(trim(n) == n);
    assert(lower_seq(n) =~= n);
    assert forall|a: LaneMode, b: LaneMode| mode_name(a) == mode_name(b) implies a == b by {
        assert(mode_name(a).len() == mode_name(b).len());
    }
}

// ---------------------------------------------------------------------------
// Replies
// ---------------------------------------------------------------------------

pub open spec fn spec_lane_mode_details(mode: LaneMode, extra_turn_budget: i64) -> Seq<char> {
    match mode {
        LaneMode::MaxTurns => "追加ターン上限: "@ + int_str(extra_turn_budget as int),
        LaneMode::Infinite => "自動継続: 安全上限 "@ + dec(MAX_INFINITE_AUTO_TURNS as nat) + " 回/入力"@,
        _ => "追加ターン上限: なし"@,
    }
}

pub fn format_lane_mode_details(mode: LaneMode, extra_turn_budget: i64) -> (r: String)
    ensures
        r@ == spec_lane_mode_details(mode, extra_turn_budget),
{
    match mode {
        LaneMode::MaxTurns => {
            let mut r = str_of("追加ターン上限: ");
            let digits = i64_chars(extra_turn_budget);
            push_chars(&mut r, digits.as_slice());
            r
        },
        LaneMode::Infinite => {
            let mut r = str_of("自動継続: 安全上限 ");
            let digits = u64_chars(MAX_INFINITE_AUTO_TURNS as u64);
            push_chars(&mut r, digits.as_slice());
            r.append(" 回/入力");
            r
        },
        _ => str_of("追加ターン上限: なし"),
    }
}

pub fn format_processing_message(is_resume: bool) -> (r: String)
    ensures
        r@ == (if is_resume {
            "前回の続きとして処理しています。完了したら、このメッセージを更新します。"@
        } else {
            "処理を開始しました。完了したら、このメッセージを更新します。"@
        }),
{
    if is_resume {
        str_of("前回の続きとして処理しています。完了したら、このメッセージを更新します。")
    } else {
        str_of("処理を開始しました。完了したら、このメッセージを更新します。")
    }
}

pub fn format_workspace_dirty_warning() -> (r: String)
    ensures
        r@
            == "このリポジトリには未コミットの変更があります。remotty は処理を続けます。必要なら完了後に `git status` を確認してください。"@,
{
    str_of(
        "このリポジトリには未コミットの変更があります。remotty は処理を続けます。必要なら完了後に `git status` を確認してください。",
    )
}

pub fn format_runtime_failure_message() -> (r: String)
    ensures
        r@
            == "処理中に失敗しました。少し待ってから再送してください。必要ならローカルのログを確認します。"@,
{
    str_of(
        "処理中に失敗しました。少し待ってから再送してください。必要ならローカルのログを確認します。",
    )
}

pub fn format_approval_pending_message(request_count: usize) -> (r: String)
    ensures
        r@ == (if request_count <= 1 {
            "Approval is pending. Use the approval message below to continue."@
        } else {
            "Approval is pending. "@ + dec(request_count as nat)
                + " approval messages were sent; handle them in order."@
        }),
{
    if request_count <= 1 {
        str_of("Approval is pending. Use the approval message below to continue.")
    } else {
        let mut r = str_of("Approval is pending. ");
        let digits = u64_chars(request_count as u64);
        push_chars(&mut r, digits.as_slice());
        r.append(" approval messages were sent; handle them in order.");
        r
    }
}

pub open spec fn spec_resolution_message(request_id: Seq<char>, approved: bool) -> Seq<char> {
    "Approval request `"@ + request_id + "` was "@ + (if approved {
        "approved"@
    } else {
        "declined"@
    }) + "."@
}

pub fn format_approval_resolution_message(request_id: &str, approved: bool) -> (r: String)
    ensures
        r@ == spec_resolution_message(request_id@, approved),
{
    let mut r = str_of("Approval request `");
    r.append(request_id);
    r.append("` was ");
    if approved {
        r.append("approved");
    } else {
        r.append("declined");
    }
    r.append(".");
    r
}

pub open spec fn spec_waiting_message(auto_turns_completed: usize) -> Seq<char> {
    if auto_turns_completed == 0 {
        "この依頼は完了しました。次の入力を待ちます。"@
    } else {
        "自動継続を "@ + dec(auto_turns_completed as nat)
            + " 回実行し、この依頼は完了しました。次の入力を待ちます。"@
    }
}

pub fn format_auto_continue_waiting_message(auto_turns_completed: usize) -> (r: String)
    ensures
        r@ == spec_waiting_message(auto_turns_completed),
{
    if auto_turns_completed == 0 {
        str_of("この依頼は完了しました。次の入力を待ちます。")
    } else {
        let mut r = str_of("自動継続を ");
        let digits = u64_chars(auto_turns_completed as u64);
        push_chars(&mut r, digits.as_slice());
        r.append(" 回実行し、この依頼は完了しました。次の入力を待ちます。");
        r
    }
}

pub open spec fn help_lines() -> Seq<Seq<char>> {
    seq![
        "使えるコマンド:"@,
        "/help"@,
        "/status"@,
        "/stop"@,
        "/approve <request_id>"@,
        "/deny <request_id>"@,
        "/answer <request_id> <value>"@,
        "/workspace"@,
        "/workspace <id>"@,
        "/remotty-sessions"@,
        "/remotty-sessions <thread_id>"@,
        "/mode await_reply"@,
        "/mode completion_checks"@,
        "/mode infinite"@,
        "/mode max_turns [count]"@,
    ]
}

pub fn format_help_message() -> (r: String)
    ensures
        r@ == join(help_lines(), "\n"@),
{
    let lines = vec![
        str_of("使えるコマンド:"),
        str_of("/help"),
        str_of("/status"),
        str_of("/stop"),
        str_of("/approve <request_id>"),
        str_of("/deny <request_id>"),
        str_of("/answer <request_id> <value>"),
        str_of("/workspace"),
        str_of("/workspace <id>"),
        str_of("/remotty-sessions"),
        str_of("/remotty-sessions <thread_id>"),
        str_of("/mode await_reply"),
        str_of("/mode completion_checks"),
        str_of("/mode infinite"),
        str_of("/mode max_turns [count]"),
    ];
    assert(str_views(lines@) =~= help_lines());
    join_strings(&lines, "\n")
}

pub fn format_thread_not_found_message(thread_id: &str) -> (r: String)
    ensures
        r@ == "Codex スレッド `"@ + thread_id@
            + "` は見つかりませんでした。\n`/remotty-sessions` で最新の一覧を確認し、表示された ID を指定してください。"@,
{
    let mut r = str_of("Codex スレッド `");
    r.append(thread_id);
    r.append(
        "` は見つかりませんでした。\n`/remotty-sessions` で最新の一覧を確認し、表示された ID を指定してください。",
    );
    r
}


/// `text` cut to `max_chars` characters, with a marker when it was cut.
pub open spec fn spec_truncate(text: Seq<char>, max_chars: usize) -> Seq<char> {
    if text.len() <= max_chars {
        text
    } else {
        text.take(max_chars as int) + "\n\n[truncated]"@
    }
}

pub fn truncate(text: &str, max_chars: usize) -> (r: String)
    ensures
        r@ == spec_truncate(text@, max_chars),
        r@.len() <= max_chars + 13,
{
    proof {
        reveal_strlit("\n\n[truncated]");
    }
    let v = chars_of(text);
    if v.len() <= max_chars {
        return str_of(text);
    }
    let head = subvec(&v, 0, max_chars);
    let mut r = string_of(head.as_slice());
    r.append("\n\n[truncated]");
    r
}

pub open spec fn spec_status_message(
    lane: Option<LaneRecord>,
    default_max_turns_limit: i64,
    pending_request_ids: Seq<Seq<char>>,
) -> Seq<char> {
    match lane {
        None => "この会話にはまだレーンがありません。"@,
        Some(lane) => "status: `"@ + lane.state.name() + "`\nworkspace: `"@ + lane.workspace_id@
            + "`\nmode: `"@ + mode_name(lane.mode) + "`\n"@ + spec_lane_mode_details(
            lane.mode,
            spec_extra_turn_budget(lane.mode, Some(lane.extra_turn_budget), default_max_turns_limit),
        ) + "\nsession: "@ + (if lane.codex_session_id is Some {
            "yes"@
        } else {
            "no"@
        }) + "\npending approval requests: "@ + dec(pending_request_ids.len())
            + "\nlatest approval request: "@ + (if pending_request_ids.len() > 0 {
            pending_request_ids.last()
        } else {
            "none"@
        }),
    }
}

/// The reply to `/status`.
pub fn format_status_message(
    lane: Option<LaneRecord>,
    default_max_turns_limit: i64,
    pending_request_ids: Vec<String>,
) -> (r: String)
    ensures
        r@ == spec_status_message(lane, default_max_turns_limit, str_views(pending_request_ids@)),
{
    let lane = match lane {
        None => {
            return str_of("この会話にはまだレーンがありません。");
        },
        Some(lane) => lane,
    };
    let budget = configured_extra_turn_budget(
        lane.mode,
        Some(lane.extra_turn_budget),
        default_max_turns_limit,
    );
    let mut r = str_of("status: `");
    r.append(lane_state_name(lane.state));
    r.append("`\nworkspace: `");
    r.append(lane.workspace_id.as_str());
    r.append("`\nmode: `");
    r.append(lane_mode_name(lane.mode));
    r.append("`\n");
    let details = format_lane_mode_details(lane.mode, budget);
    r.append(details.as_str());
    r.append("\nsession: ");
    if lane.codex_session_id.is_some() {
        r.append("yes");
    } else {
        r.append("no");
    }
    r.append("\npending approval requests: ");
    let count = u64_chars(pending_request_ids.len() as u64);
    push_chars(&mut r, count.as_slice());
    r.append("\nlatest approval request: ");
    let n = pending_request_ids.len();
    if n > 0 {
        r.append(pending_request_ids[n - 1].as_str());
    } else {
        r.append("none");
    }
    r
}

pub open spec fn workspace_line(w: WorkspaceConfig) -> Seq<char> {
    "- `"@ + w.id@ + "`"@
}

pub open spec fn spec_workspace_message(
    current_workspace_id: Seq<char>,
    workspaces: Seq<WorkspaceConfig>,
    default_max_turns_limit: i64,
    lane_mode: Option<LaneMode>,
    extra_turn_budget: Option<i64>,
) -> Seq<char> {
    let mode = match lane_mode {
        Some(m) => m,
        None => workspaces[0].default_mode,
    };
    "現在の workspace: `"@ + current_workspace_id + "`\n利用可能:\n"@ + join(
        workspaces.map_values(|w: WorkspaceConfig| workspace_line(w)),
        "\n"@,
    ) + "\n現在のモード: `"@ + mode_name(mode) + "`\n"@ + spec_lane_mode_details(
        mode,
        spec_extra_turn_budget(mode, extra_turn_budget, default_max_turns_limit),
    ) + "\n切り替え: `/workspace <id>`"@
}

/// The reply to `/workspace` without an argument.
pub fn format_workspace_message(
    current_workspace_id: &str,
    workspaces: &Vec<WorkspaceConfig>,
    default_max_turns_limit: i64,
    lane_mode: Option<LaneMode>,
    extra_turn_budget: Option<i64>,
) -> (r: String)
    requires
        lane_mode is Some || workspaces@.len() > 0,
    ensures
        r@ == spec_workspace_message(
            current_workspace_id@,
            workspaces@,
            default_max_turns_limit,
            lane_mode,
            extra_turn_budget,
        ),
{
    let mode = match lane_mode {
        Some(m) => m,
        None => workspaces[0].default_mode,
    };
    let budget = configured_extra_turn_budget(mode, extra_turn_budget, default_max_turns_limit);
    let mut lines: Vec<String> = Vec::new();
    let mut i: usize = 0;
    while i < workspaces.len()
        invariant
            i <= workspaces.len(),
            str_views(lines@) =~= workspaces@.take(i as int).map_values(
                |w: WorkspaceConfig| workspace_line(w),
            ),
        decreases workspaces.len() - i,
    {
        let mut line = str_of("- `");
        line.append(workspaces[i].id.as_str());
        line.append("`");
        let ghost before = lines@;
        assert(line@ == workspace_line(workspaces@[i as int]));
        lines.push(line);
        assert(str_views(lines@) =~= str_views(before).push(line@));
        i = i + 1;
        assert(workspaces@.take(i as int) =~= workspaces@.take((i - 1) as int).push(
            workspaces@[i - 1],
        ));
    }
    assert(workspaces@.take(workspaces.len() as int) =~= workspaces@);
    let list = join_strings(&lines, "\n");
    let mut r = str_of("現在の workspace: `");
    r.append(current_workspace_id);
    r.append("`\n利用可能:\n");
    r.append(list.as_str());
    r.append("\n現在のモード: `");
    r.append(lane_mode_name(mode));
    r.append("`\n");
    let details = format_lane_mode_details(mode, budget);
    r.append(details.as_str());
    r.append("\n切り替え: `/workspace <id>`");
    r
}

pub open spec fn session_line(t: CodexThreadSummary) -> Seq<char> {
    "- `"@ + t.thread_id@ + "` "@ + (match t.title {
        Some(title) => title@,
        None => "タイトルなし"@,
    })
}

pub open spec fn spec_sessions_message(threads: Seq<CodexThreadSummary>) -> Seq<char> {
    if threads.len() == 0 {
        "保存済みの Codex スレッドは見つかりませんでした。"@
    } else {
        let shown = if threads.len() <= 10 {
            threads
        } else {
            threads.take(10)
        };
        join(
            seq!["保存済みの Codex スレッド:"@] + shown.map_values(
                |t: CodexThreadSummary| session_line(t),
            ) + seq!["選択: `/remotty-sessions <thread_id>`"@],
            "\n"@,
        )
    }
}

/// The reply to `/remotty-sessions` without an argument: at most ten threads.
pub fn format_sessions_message(threads: &Vec<CodexThreadSummary>) -> (r: String)
    ensures
        r@ == spec_sessions_message(threads@),
{
    if threads.len() == 0 {
        return str_of("保存済みの Codex スレッドは見つかりませんでした。");
    }
    let shown: usize = if threads.len() <= 10 {
        threads.len()
    } else {
        10
    };
    let ghost shown_seq = if threads@.len() <= 10 {
        threads@
    } else {
        threads@.take(10)
    };
    assert(shown_seq =~= threads@.take(shown as int));
    let mut lines: Vec<String> = Vec::new();
    lines.push(str_of("保存済みの Codex スレッド:"));
    let mut i: usize = 0;
    while i < shown
        invariant
            shown <= threads.len(),
            i <= shown,
            str_views(lines@) =~= seq!["保存済みの Codex スレッド:"@] + threads@.take(
                i as int,
            ).map_values(|t: CodexThreadSummary| session_line(t)),
        decreases shown - i,
    {
        let mut line = str_of("- `");
        line.append(threads[i].thread_id.as_str());
        line.append("` ");
        match &threads[i].title {
            Some(title) => line.append(title.as_str()),
            None => line.append("タイトルなし"),
        }
        let ghost before = lines@;
        assert(line@ == session_line(threads@[i as int]));
        lines.push(line);
        assert(str_views(lines@) =~= str_views(before).push(line@));
        i = i + 1;
        assert(threads@.take(i as int) =~= threads@.take((i - 1) as int).push(threads@[i - 1]));
    }
    let ghost before = lines@;
    lines.push(str_of("選択: `/remotty-sessions <thread_id>`"));
    assert(str_views(lines@) =~= str_views(before).push("選択: `/remotty-sessions <thread_id>`"@));
    assert(str_views(lines@) =~= seq!["保存済みの Codex スレッド:"@] + shown_seq.map_values(
        |t: CodexThreadSummary| session_line(t),
    ) + seq!["選択: `/remotty-sessions <thread_id>`"@]);
    join_strings(&lines, "\n")
}

pub open spec fn spec_first_exact(ts: Seq<CodexThreadSummary>, id: Seq<char>, i: int) -> Option<int>
    decreases ts.len() - i,
{
    if 0 <= i < ts.len() {
        if crate::text::eq_ignore_case(ts[i].thread_id@, id) {
            Some(i)
        } else {
            spec_first_exact(ts, id, i + 1)
        }
    } else {
        None
    }
}

pub open spec fn spec_first_prefix(ts: Seq<CodexThreadSummary>, id: Seq<char>, i: int) -> Option<int>
    decreases ts.len() - i,
{
    if 0 <= i < ts.len() {
        if id.len() <= ts[i].thread_id@.len() && ts[i].thread_id@.take(id.len() as int) == id {
            Some(i)
        } else {
            spec_first_prefix(ts, id, i + 1)
        }
    } else {
        None
    }
}

/// The thread a `/remotty-sessions <id>` selects: the first whose id equals
/// `id` ignoring ASCII case, else the first whose id starts with `id`.
pub open spec fn spec_selected_thread(ts: Seq<CodexThreadSummary>, id: Seq<char>) -> Option<int> {
    match spec_first_exact(ts, id, 0) {
        Some(i) => Some(i),
        None => spec_first_prefix(ts, id, 0),
    }
}

pub fn find_selected_thread_index(threads: &Vec<CodexThreadSummary>, thread_id: &str) -> (r: Option<
    usize,
>)
    ensures
        match r {
            Some(i) => spec_selected_thread(threads@, thread_id@) == Some(i as int) && i
                < threads@.len(),
            None => spec_selected_thread(threads@, thread_id@) is None,
        },
{
    let id = chars_of(thread_id);
    let mut i: usize = 0;
    while i < threads.len()
        invariant
            i <= threads.len(),
            id@ == thread_id@,
            spec_first_exact(threads@, id@, 0) == spec_first_exact(threads@, id@, i as int),
        decreases threads.len() - i,
    {
        let tid = chars_of(threads[i].thread_id.as_str());
        if crate::text::eq_ignore_case_vec(&tid, &id) {
            return Some(i);
        }
        i = i + 1;
    }
    let mut j: usize = 0;
    while j < threads.len()
        invariant
            j <= threads.len(),
            id@ == thread_id@,
            spec_first_exact(threads@, id@, 0) is None,
            spec_first_prefix(threads@, id@, 0) == spec_first_prefix(threads@, id@, j as int),
        decreases threads.len() - j,
    {
        let tid = chars_of(threads[j].thread_id.as_str());
        if crate::text::starts_with(&tid, &id) {
            return Some(j);
        }
        j = j + 1;
    }
    None
}

pub fn find_selected_thread<'a>(threads: &'a Vec<CodexThreadSummary>, thread_id: &str) -> (r: Option<
    &'a CodexThreadSummary,
>)
    ensures
        match r {
            Some(t) => exists|i: int|
                0 <= i < threads@.len() && spec_selected_thread(threads@, thread_id@) == Some(i)
                    && *t == threads@[i],
            None => spec_selected_thread(threads@, thread_id@) is None,
        },
{
    match find_selected_thread_index(threads, thread_id) {
        Some(i) => Some(&threads[i]),
        None => None,
    }
}


// ---------------------------------------------------------------------------
// Workspaces and sessions of a lane
// ---------------------------------------------------------------------------

/// The workspace id a message runs in: the lane's, else the saved thread
/// binding's, else the first configured workspace's.
pub open spec fn spec_message_workspace_id(
    config: Config,
    lane: Option<LaneRecord>,
    binding: Option<CodexThreadBinding>,
) -> Seq<char> {
    match lane {
        Some(l) => l.workspace_id@,
        None => match binding {
            Some(b) => b.workspace_id@,
            None => config.workspaces@[0].id@,
        },
    }
}

pub open spec fn workspace_missing_message(id: Seq<char>) -> Seq<char> {
    "workspace `"@ + id + "` が設定に見つかりません。"@
}

pub fn resolve_workspace_for_message<'a>(
    config: &'a Config,
    lane: Option<&LaneRecord>,
    binding: Option<&CodexThreadBinding>,
) -> (r: Result<&'a WorkspaceConfig, String>)
    requires
        config.workspaces@.len() > 0,
    ensures
        ({
            let id = spec_message_workspace_id(
                *config,
                match lane {
                    Some(l) => Some(*l),
                    None => None,
                },
                match binding {
                    Some(b) => Some(*b),
                    None => None,
                },
            );
            match r {
                Ok(w) => exists|i: int|
                    0 <= i < config.workspaces@.len() && crate::config::spec_workspace_index(
                        config.workspaces@,
                        id,
                        0,
                    ) == Some(i) && *w == config.workspaces@[i],
                Err(message) => crate::config::spec_workspace_index(config.workspaces@, id, 0) is None
                    && message@ == workspace_missing_message(id),
            }
        }),
{
    let workspace_id: &str = match lane {
        Some(l) => l.workspace_id.as_str(),
        None => match binding {
            Some(b) => b.workspace_id.as_str(),
            None => config.default_workspace().id.as_str(),
        },
    };
    match config.workspace(workspace_id) {
        Some(w) => Ok(w),
        None => {
            let mut message = str_of("workspace `");
            message.append(workspace_id);
            message.append("` が設定に見つかりません。");
            Err(message)
        },
    }
}

/// The workspace of a lane, else the first configured one.
pub fn resolve_workspace<'a>(config: &'a Config, lane: Option<&LaneRecord>) -> (r: Result<
    &'a WorkspaceConfig,
    String,
>)
    requires
        config.workspaces@.len() > 0,
    ensures
        ({
            let id = spec_message_workspace_id(
                *config,
                match lane {
                    Some(l) => Some(*l),
                    None => None,
                },
                None,
            );
            match r {
                Ok(w) => exists|i: int|
                    0 <= i < config.workspaces@.len() && crate::config::spec_workspace_index(
                        config.workspaces@,
                        id,
                        0,
                    ) == Some(i) && *w == config.workspaces@[i],
                Err(message) => crate::config::spec_workspace_index(config.workspaces@, id, 0) is None
                    && message@ == workspace_missing_message(id),
            }
        }),
{
    resolve_workspace_for_message(config, lane, None)
}

/// The Codex session a lane resumes: its live session, else the saved thread.
pub fn selected_codex_session_id<'a>(
    lane: &'a LaneRecord,
    binding: Option<&'a CodexThreadBinding>,
) -> (r: Option<&'a str>)
    ensures
        match lane.codex_session_id {
            Some(s) => r matches Some(x) && x@ == s@,
            None => match binding {
                Some(b) => r matches Some(x) && x@ == b.codex_thread_id@,
                None => r is None,
            },
        },
{
    match &lane.codex_session_id {
        Some(s) => Some(s.as_str()),
        None => match binding {
            Some(b) => Some(b.codex_thread_id.as_str()),
            None => None,
        },
    }
}

// ---------------------------------------------------------------------------
// Prompts
// ---------------------------------------------------------------------------

pub open spec fn spec_auto_continue_instruction(prompt: Seq<char>, continue_prompt: Seq<char>) -> Seq<
    char,
> {
    prompt
        + "\n\n補足:\n- まだ続ける作業がある時だけ、そのまま続けてください。\n- 区切りがついたら `CHANNEL_WAITING` とだけ返してください。\n- 次に進む時は次の方針を優先してください: "@
        + continue_prompt
}

pub fn append_auto_continue_instruction(prompt: &str, continue_prompt: &str) -> (r: String)
    ensures
        r@ == spec_auto_continue_instruction(prompt@, continue_prompt@),
{
    let mut r = str_of(prompt);
    r.append(
        "\n\n補足:\n- まだ続ける作業がある時だけ、そのまま続けてください。\n- 区切りがついたら `CHANNEL_WAITING` とだけ返してください。\n- 次に進む時は次の方針を優先してください: ",
    );
    r.append(continue_prompt);
    r
}

pub fn build_auto_continue_prompt(continue_prompt: &str) -> (r: String)
    ensures
        r@ == continue_prompt@
            + "\n\nまだ続ける作業がある時だけ続けてください。区切りがついたら `CHANNEL_WAITING` とだけ返してください。"@,
{
    let mut r = str_of(continue_prompt);
    r.append(
        "\n\nまだ続ける作業がある時だけ続けてください。区切りがついたら `CHANNEL_WAITING` とだけ返してください。",
    );
    r
}

pub fn build_completion_retry_prompt(continue_prompt: &str, summary: &CheckRunSummary) -> (r: String)
    ensures
        r@ == continue_prompt@
            + "\n\n以下の確認に失敗しました。原因を直し、必要ならテストを追加してから続けてください。\n"@
            + summary.summary_text() + "\n"@,
{
    let mut r = str_of(continue_prompt);
    r.append(
        "\n\n以下の確認に失敗しました。原因を直し、必要ならテストを追加してから続けてください。\n",
    );
    let text = summary.summary();
    r.append(text.as_str());
    r.append("\n");
    r
}

/// Whether a finished turn of a lane in `lane_mode` runs the workspace's
/// checks: only in `completion_checks` mode, and not while an approval waits.
pub fn runs_completion_checks(lane_mode: LaneMode, approval_pending: bool) -> (r: bool)
    ensures
        r == (lane_mode == LaneMode::CompletionChecks && !approval_pending),
{
    lane_mode == LaneMode::CompletionChecks && !approval_pending
}

/// What follows a run of the checks.
pub enum CompletionCheckStep {
    /// The checks are settled: `None` when they passed, else the failed run.
    Settled(Option<CheckRunSummary>),
    /// Resume the session with a prompt to repair the failure, then check again.
    Retry { session_id: String, prompt: String },
}

/// Decides after the checks ran for the `attempt`-th time (from 0): a pass
/// settles them; a failure is sent back to the session for repair at most
/// `MAX_COMPLETION_REPAIR_TURNS` times, and settles as failed once the
/// repairs are used up or when there is no session to resume.
pub fn completion_check_step(
    attempt: usize,
    summary: CheckRunSummary,
    session_id: Option<&str>,
    continue_prompt: &str,
) -> (r: CompletionCheckStep)
    ensures
        summary.success ==> r matches CompletionCheckStep::Settled(None),
        !summary.success && (attempt >= MAX_COMPLETION_REPAIR_TURNS || session_id is None) ==> r
            == CompletionCheckStep::Settled(Some(summary)),
        !summary.success && attempt < MAX_COMPLETION_REPAIR_TURNS && session_id is Some ==> (r matches CompletionCheckStep::Retry {
            session_id: s,
            prompt,
        } && s@ == session_id.unwrap()@ && prompt@ == continue_prompt@
            + "\n\n以下の確認に失敗しました。原因を直し、必要ならテストを追加してから続けてください。\n"@
            + summary.summary_text() + "\n"@),
{
    if summary.success {
        return CompletionCheckStep::Settled(None);
    }
    if attempt >= MAX_COMPLETION_REPAIR_TURNS {
        return CompletionCheckStep::Settled(Some(summary));
    }
    match session_id {
        None => CompletionCheckStep::Settled(Some(summary)),
        Some(s) => {
            let prompt = build_completion_retry_prompt(continue_prompt, &summary);
            CompletionCheckStep::Retry { session_id: str_of(s), prompt }
        },
    }
}

pub open spec fn spec_failed_checks_sections(
    last_message: Seq<char>,
    summary: CheckRunSummary,
    auto_turns_completed: usize,
) -> Seq<Seq<char>> {
    (if trim(last_message).len() > 0 {
        seq![spec_truncate(last_message, usize::MAX)]
    } else {
        Seq::<Seq<char>>::empty()
    }) + (if auto_turns_completed > 0 {
        seq!["自動継続を "@ + dec(auto_turns_completed as nat) + " 回実行したあとで止まりました。"@]
    } else {
        Seq::<Seq<char>>::empty()
    }) + seq!["確認で失敗しました。ローカルで追加の修正が必要です。\n"@ + summary.summary_text()]
}

/// The reply after checks that still fail: the agent's message, how many
/// automatic turns ran, and the checks summary, separated by blank lines.
pub fn format_reply_with_failed_checks(
    last_message: &str,
    summary: &CheckRunSummary,
    auto_turns_completed: usize,
) -> (r: String)
    ensures
        r@ == join(
            spec_failed_checks_sections(last_message@, *summary, auto_turns_completed),
            "\n\n"@,
        ),
{
    let mut sections: Vec<String> = Vec::new();
    let ghost s0 = sections@;
    if !crate::text::str_is_blank(last_message) {
        let t = truncate(last_message, usize::MAX);
        sections.push(t);
        assert(str_views(sections@) =~= seq![spec_truncate(last_message@, usize::MAX)]);
    } else {
        assert(str_views(sections@) =~= Seq::<Seq<char>>::empty());
    }
    let ghost s1 = sections@;
    if auto_turns_completed > 0 {
        let mut line = str_of("自動継続を ");
        let digits = u64_chars(auto_turns_completed as u64);
        push_chars(&mut line, digits.as_slice());
        line.append(" 回実行したあとで止まりました。");
        sections.push(line);
        assert(str_views(sections@) =~= str_views(s1).push(line@));
    }
    let ghost s2 = sections@;
    let mut last = str_of("確認で失敗しました。ローカルで追加の修正が必要です。\n");
    let text = summary.summary();
    last.append(text.as_str());
    sections.push(last);
    assert(str_views(sections@) =~= str_views(s2).push(last@));
    assert(str_views(sections@) =~= spec_failed_checks_sections(
        last_message@,
        *summary,
        auto_turns_completed,
    ));
    join_strings(&sections, "\n\n")
}

pub open spec fn photo_paths(attachments: Seq<SavedTelegramAttachment>) -> Seq<Seq<char>>
    decreases attachments.len(),
{
    if attachments.len() == 0 {
        Seq::<Seq<char>>::empty()
    } else {
        let rest = photo_paths(attachments.drop_last());
        let a = attachments.last();
        if a.attachment.kind == TelegramAttachmentKind::Photo {
            rest.push(a.local_path@)
        } else {
            rest
        }
    }
}

pub open spec fn document_lines(attachments: Seq<SavedTelegramAttachment>) -> Seq<Seq<char>>
    decreases attachments.len(),
{
    if attachments.len() == 0 {
        Seq::<Seq<char>>::empty()
    } else {
        let rest = document_lines(attachments.drop_last());
        let a = attachments.last();
        if a.attachment.kind == TelegramAttachmentKind::Document {
            rest.push("- "@ + a.local_path@)
        } else {
            rest
        }
    }
}

/// The prompt of a chat message: its text, then the saved documents' paths,
/// then the automatic-continuation instruction in `infinite` and `max_turns`.
pub open spec fn spec_user_prompt(
    text: Seq<char>,
    attachments: Seq<SavedTelegramAttachment>,
    lane_mode: LaneMode,
    continue_prompt: Seq<char>,
) -> Seq<char> {
    let docs = document_lines(attachments);
    let prompt = if docs.len() == 0 {
        text
    } else {
        text + "\n\n添付ファイルを保存しました。必要なら内容を確認してください。\n"@ + join(
            docs,
            "\n"@,
        )
    };
    if lane_mode == LaneMode::Infinite || lane_mode == LaneMode::MaxTurns {
        spec_auto_continue_instruction(prompt, continue_prompt)
    } else {
        prompt
    }
}

/// The request for a chat message: its prompt, with the saved photos as images.
pub fn build_user_request(
    text: &str,
    attachments: &Vec<SavedTelegramAttachment>,
    lane_mode: LaneMode,
    continue_prompt: &str,
) -> (r: CodexRequest)
    ensures
        r.prompt@ == spec_user_prompt(text@, attachments@, lane_mode, continue_prompt@),
        str_views(r.image_paths@) == photo_paths(attachments@),
{
    let mut images: Vec<String> = Vec::new();
    let mut docs: Vec<String> = Vec::new();
    let mut i: usize = 0;
    while i < attachments.len()
        invariant
            i <= attachments.len(),
            str_views(images@) == photo_paths(attachments@.take(i as int)),
            str_views(docs@) == document_lines(attachments@.take(i as int)),
        decreases attachments.len() - i,
    {
        let a = &attachments[i];
        proof {
            assert(attachments@.take(i + 1).drop_last() =~= attachments@.take(i as int));
            assert(attachments@.take(i + 1).last() == attachments@[i as int]);
        }
        let ghost before_images = images@;
        let ghost before_docs = docs@;
        match a.attachment.kind {
            TelegramAttachmentKind::Photo => {
                images.push(a.local_path.clone());
                assert(str_views(images@) =~= str_views(before_images).push(a.local_path@));
            },
            TelegramAttachmentKind::Document => {
                let mut line = str_of("- ");
                line.append(a.local_path.as_str());
                docs.push(line);
                assert(str_views(docs@) =~= str_views(before_docs).push("- "@ + a.local_path@));
            },
        }
        i = i + 1;
    }
    assert(attachments@.take(attachments.len() as int) =~= attachments@);
    let prompt = if docs.len() == 0 {
        str_of(text)
    } else {
        let mut p = str_of(text);
        p.append("\n\n添付ファイルを保存しました。必要なら内容を確認してください。\n");
        let list = join_strings(&docs, "\n");
        p.append(list.as_str());
        p
    };
    let prompt = match lane_mode {
        LaneMode::Infinite | LaneMode::MaxTurns => append_auto_continue_instruction(
            prompt.as_str(),
            continue_prompt,
        ),
        _ => prompt,
    };
    if images.len() == 0 {
        CodexRequest::new(prompt)
    } else {
        CodexRequest::with_images(prompt, images)
    }
}


// ---------------------------------------------------------------------------
// Approval notices and their buttons
// ---------------------------------------------------------------------------

pub open spec fn b36_digit(d: int) -> char {
    if d < 10 {
        ((d + 48) as u8) as char
    } else {
        ((d + 87) as u8) as char
    }
}

/// Base-36 digits (`0-9a-z`) of a natural number.
pub open spec fn base36(n: nat) -> Seq<char>
    decreases n,
{
    if n < 36 {
        seq![b36_digit(n as int)]
    } else {
        base36(n / 36).push(b36_digit((n % 36) as int))
    }
}

fn base36_chars(value: u64) -> (r: Vec<char>)
    ensures
        r@ == base36(value as nat),
    decreases value,
{
    let d: u8 = (value % 36) as u8;
    let c: char = if d < 10 {
        (d + 48) as char
    } else {
        (d + 87) as char
    };
    if value < 36 {
        let mut r: Vec<char> = Vec::new();
        r.push(c);
        r
    } else {
        let mut r = base36_chars(value / 36);
        r.push(c);
        r
    }
}

pub fn encode_base36(value: u64) -> (r: String)
    ensures
        r@ == base36(value as nat),
{
    let v = base36_chars(value);
    string_of(v.as_slice())
}

pub open spec fn spec_dispatch_version(requested_at_ms: i64) -> Seq<char> {
    base36(
        if requested_at_ms > 0 {
            requested_at_ms as nat
        } else {
            0
        },
    )
}

/// The version of a dispatched notice: its request time in base 36.
pub fn approval_dispatch_version(requested_at_ms: i64) -> (r: String)
    ensures
        r@ == spec_dispatch_version(requested_at_ms),
{
    let v: u64 = if requested_at_ms > 0 {
        requested_at_ms as u64
    } else {
        0
    };
    encode_base36(v)
}

pub open spec fn strip_approval_prefix(request_id: Seq<char>) -> Seq<char> {
    if 9 <= request_id.len() && request_id.take(9) == "approval-"@ {
        request_id.skip(9)
    } else {
        request_id
    }
}

pub open spec fn spec_callback_locator(request_id: Seq<char>, requested_at_ms: i64) -> Seq<char> {
    strip_approval_prefix(request_id) + ":"@ + spec_dispatch_version(requested_at_ms)
}

/// What a notice's buttons carry to name its request: the request id without
/// its `approval-` prefix, `:`, and the dispatch version.
pub fn approval_callback_locator(request_id: &str, requested_at_ms: i64) -> (r: String)
    ensures
        r@ == spec_callback_locator(request_id@, requested_at_ms),
{
    proof {
        reveal_strlit("approval-");
    }
    let v = chars_of(request_id);
    let mut r = if starts_with_str(&v, "approval-") {
        let rest = subvec(&v, 9, v.len());
        assert(rest@ =~= request_id@.skip(9));
        string_of(rest.as_slice())
    } else {
        str_of(request_id)
    };
    r.append(":");
    let version = approval_dispatch_version(requested_at_ms);
    r.append(version.as_str());
    r
}

pub open spec fn spec_id_candidates(request_key: Seq<char>) -> Seq<Seq<char>> {
    if 9 <= request_key.len() && request_key.take(9) == "approval-"@ {
        seq![request_key]
    } else {
        seq!["approval-"@ + request_key, request_key]
    }
}

/// The stored request ids a button's request key may stand for.
pub fn approval_request_id_candidates(request_key: &str) -> (r: Vec<String>)
    ensures
        str_views(r@) == spec_id_candidates(request_key@),
{
    proof {
        reveal_strlit("approval-");
    }
    let v = chars_of(request_key);
    if starts_with_str(&v, "approval-") {
        let r = vec![str_of(request_key)];
        assert(str_views(r@) =~= spec_id_candidates(request_key@));
        r
    } else {
        let mut prefixed = str_of("approval-");
        prefixed.append(request_key);
        let r = vec![prefixed, str_of(request_key)];
        assert(str_views(r@) =~= spec_id_candidates(request_key@));
        r
    }
}

pub struct ApprovalNotice {
    pub text: String,
    pub buttons: Option<Vec<InlineKeyboardButton>>,
}

pub open spec fn spec_notice_text(
    summary_text: Seq<char>,
    request_id: Seq<char>,
    request_kind: ApprovalRequestKind,
) -> Seq<char> {
    if request_kind == ApprovalRequestKind::ToolUserInput {
        summary_text + "\n\nRequest ID: `"@ + request_id
            + "`\n\nThis request type cannot be answered from Telegram yet. Additional local input is required."@
    } else {
        summary_text + "\n\nRequest ID: `"@ + request_id + "`"@
    }
}

/// The notice sent for an approval request: its summary and id, with
/// Approve and Deny buttons unless the request asks for input.
pub fn build_approval_notice_parts(
    summary_text: &str,
    request_id: &str,
    requested_at_ms: i64,
    request_kind: ApprovalRequestKind,
) -> (r: ApprovalNotice)
    ensures
        r.text@ == spec_notice_text(summary_text@, request_id@, request_kind),
        request_kind == ApprovalRequestKind::ToolUserInput ==> r.buttons is None,
        request_kind != ApprovalRequestKind::ToolUserInput ==> (r.buttons matches Some(b) && b@.len()
            == 2 && b@[0].text@ == "Approve"@ && b@[0].callback_data@ == "approve:"@
            + spec_callback_locator(request_id@, requested_at_ms) && b@[1].text@ == "Deny"@
            && b@[1].callback_data@ == "deny:"@ + spec_callback_locator(
            request_id@,
            requested_at_ms,
        )),
{
    let mut text = str_of(summary_text);
    text.append("\n\nRequest ID: `");
    text.append(request_id);
    if request_kind == ApprovalRequestKind::ToolUserInput {
        text.append(
            "`\n\nThis request type cannot be answered from Telegram yet. Additional local input is required.",
        );
        return ApprovalNotice { text, buttons: None };
    }
    text.append("`");
    let target = approval_callback_locator(request_id, requested_at_ms);
    let mut approve_data = str_of("approve:");
    approve_data.append(target.as_str());
    let mut deny_data = str_of("deny:");
    deny_data.append(target.as_str());
    let buttons = vec![
        InlineKeyboardButton { text: str_of("Approve"), callback_data: approve_data },
        InlineKeyboardButton { text: str_of("Deny"), callback_data: deny_data },
    ];
    ApprovalNotice { text, buttons: Some(buttons) }
}

pub fn build_approval_notice(request: &ApprovalRequestRecord) -> (r: ApprovalNotice)
    ensures
        r.text@ == spec_notice_text(request.summary_text@, request.request_id@, request.request_kind),
        request.request_kind == ApprovalRequestKind::ToolUserInput ==> r.buttons is None,
        request.request_kind != ApprovalRequestKind::ToolUserInput ==> (r.buttons matches Some(b)
            && b@.len() == 2 && b@[0].callback_data@ == "approve:"@ + spec_callback_locator(
            request.request_id@,
            request.requested_at_ms,
        ) && b@[1].callback_data@ == "deny:"@ + spec_callback_locator(
            request.request_id@,
            request.requested_at_ms,
        )),
{
    build_approval_notice_parts(
        request.summary_text.as_str(),
        request.request_id.as_str(),
        request.requested_at_ms,
        request.request_kind,
    )
}

/// How a request is looked up from the id a decision names.
pub struct LocatorLookup {
    /// The stored request ids to try, in order.
    pub candidates: Vec<String>,
    /// The dispatch version the button carried, if it was a button.
    pub dispatch_version: Option<String>,
}

pub open spec fn spec_locator_candidates(locator: Seq<char>) -> Seq<Seq<char>> {
    match split_once(locator, ':') {
        Some((key, _)) => spec_id_candidates(key),
        None => seq![locator],
    }
}

pub open spec fn spec_locator_version(locator: Seq<char>) -> Option<Seq<char>> {
    match split_once(locator, ':') {
        Some((_, version)) => Some(version),
        None => None,
    }
}

pub fn plan_locator_lookup(locator: &str) -> (r: LocatorLookup)
    ensures
        str_views(r.candidates@) == spec_locator_candidates(locator@),
        opt_view(r.dispatch_version) == spec_locator_version(locator@),
{
    let v = chars_of(locator);
    match split_once_char(&v, ':') {
        Some((key, version)) => {
            let key_text = string_of(key.as_slice());
            LocatorLookup {
                candidates: approval_request_id_candidates(key_text.as_str()),
                dispatch_version: Some(string_of(version.as_slice())),
            }
        },
        None => {
            let r = vec![str_of(locator)];
            assert(str_views(r@) =~= seq![locator@]);
            LocatorLookup { candidates: r, dispatch_version: None }
        },
    }
}

pub open spec fn opt_view(o: Option<String>) -> Option<Seq<char>> {
    match o {
        Some(s) => Some(s@),
        None => None,
    }
}

pub enum ApprovalRequestLookup {
    Found(ApprovalRequestRecord),
    Stale(ApprovalRequestRecord),
    Missing,
}

/// A stored request found for a locator is current unless the button carried
/// another dispatch version.
pub fn classify_lookup(request: ApprovalRequestRecord, dispatch_version: Option<&str>) -> (r:
    ApprovalRequestLookup)
    ensures
        match dispatch_version {
            None => r == ApprovalRequestLookup::Found(request),
            Some(v) => if spec_dispatch_version(request.requested_at_ms) == v@ {
                r == ApprovalRequestLookup::Found(request)
            } else {
                r == ApprovalRequestLookup::Stale(request)
            },
        },
{
    match dispatch_version {
        None => ApprovalRequestLookup::Found(request),
        Some(v) => {
            let current = approval_dispatch_version(request.requested_at_ms);
            if crate::text::string_eq(current.as_str(), v) {
                ApprovalRequestLookup::Found(request)
            } else {
                ApprovalRequestLookup::Stale(request)
            }
        },
    }
}


/// Base-36 text is never empty and holds only ASCII letters and digits.
pub proof fn lemma_base36_alnum(n: nat)
    ensures
        base36(n).len() > 0,
        forall|i: int| 0 <= i < base36(n).len() ==> crate::text::is_ascii_alnum(#[trigger] base36(n)[i]),
    decreases n,
{
    let d = (n % 36) as int;
    assert(crate::text::is_ascii_alnum(b36_digit(d)));
    if n >= 36 {
        lemma_base36_alnum(n / 36);
        assert forall|i: int| 0 <= i < base36(n).len() implies crate::text::is_ascii_alnum(
            #[trigger] base36(n)[i],
        ) by {
            if i < base36(n / 36).len() {
                assert(base36(n)[i] == base36(n / 36)[i]);
            }
        }
    } else {
        assert(crate::text::is_ascii_alnum(b36_digit(n as int)));
    }
}

/// The value of one base-36 digit (`0-9a-z`).
pub open spec fn b36_value(c: char) -> int {
    if c <= '9' {
        c as int - 48
    } else {
        c as int - 87
    }
}

/// The number that base-36 digits read back to, most significant first.
pub open spec fn from_base36(s: Seq<char>) -> int
    decreases s.len(),
{
    if s.len() == 0 {
        0
    } else {
        from_base36(s.drop_last()) * 36 + b36_value(s.last())
    }
}

/// Reading base-36 text back gives the number it was written from, and the
/// text has no leading zero unless the number is zero.
pub proof fn lemma_base36_round_trip(n: nat)
    ensures
        from_base36(base36(n)) == n,
        n > 0 ==> base36(n)[0] != '0',
    decreases n,
{
    let d = (n % 36) as int;
    assert(b36_value(b36_digit(d)) == d) by {
        if d < 10 {
            assert(((d + 48) as u8) as char as int == d + 48);
        } else {
            assert(((d + 87) as u8) as char as int == d + 87);
        }
    }
    if n >= 36 {
        lemma_base36_round_trip(n / 36);
        let s = base36(n);
        assert(s.drop_last() =~= base36(n / 36));
        assert(s.last() == b36_digit(d));
        assert(n == (n / 36) * 36 + d);
        assert(from_base36(s) == from_base36(base36(n / 36)) * 36 + d);
        assert(s[0] == base36(n / 36)[0]);
    } else {
        let s = base36(n);
        assert(s.drop_last() =~= Seq::<char>::empty());
        assert(from_base36(s.drop_last()) == 0);
        assert(d == n);
        assert(from_base36(s) == d);
        if n > 0 {
            assert((((n as int) + 48) as u8) as char as int == (n as int) + 48);
            assert(s[0] == b36_digit(n as int));
        }
    }
}

/// The locator of a notice looks its request up again, with the notice's
/// dispatch version.
pub proof fn lemma_locator_finds_request(request_id: Seq<char>, requested_at_ms: i64)
    requires
        !strip_approval_prefix(request_id).contains(':'),
        !(9 <= strip_approval_prefix(request_id).len() && strip_approval_prefix(request_id).take(9)
            == "approval-"@),
    ensures
        spec_locator_candidates(spec_callback_locator(request_id, requested_at_ms)).contains(
            request_id,
        ),
        spec_locator_version(spec_callback_locator(request_id, requested_at_ms)) == Some(
            spec_dispatch_version(requested_at_ms),
        ),
{
    reveal_strlit(":");
    reveal_strlit("approval-");
    let k = strip_approval_prefix(request_id);
    let ver = spec_dispatch_version(requested_at_ms);
    let locator = spec_callback_locator(request_id, requested_at_ms);
    assert(locator =~= k + seq![':'] + ver);
    crate::text::lemma_first_index_of(locator, ':', k.len() as int);
    assert(locator.take(k.len() as int) =~= k);
    assert(locator.skip(k.len() as int + 1) =~= ver);
    if 9 <= request_id.len() && request_id.take(9) == "approval-"@ {
        assert(request_id =~= "approval-"@ + k);
        assert(spec_id_candidates(k)[0] == request_id);
    } else {
        assert(spec_id_candidates(k)[1] == request_id);
    }
}

/// The data of a notice's buttons reads as the decision on the notice's locator.
pub proof fn lemma_button_data_reads_back(request_id: Seq<char>, requested_at_ms: i64, approve: bool)
    requires
        !(strip_approval_prefix(request_id).len() > 0 && crate::text::is_ws(
            strip_approval_prefix(request_id)[0],
        )),
    ensures
        crate::telegram::spec_parse_callback_command(
            (if approve {
                "approve:"@
            } else {
                "deny:"@
            }) + spec_callback_locator(request_id, requested_at_ms),
        ) == Some(
            if approve {
                crate::telegram::ControlCommandView::Approve(
                    spec_callback_locator(request_id, requested_at_ms),
                )
            } else {
                crate::telegram::ControlCommandView::Deny(
                    spec_callback_locator(request_id, requested_at_ms),
                )
            },
        ),
{
    reveal_strlit(":");
    let k = strip_approval_prefix(request_id);
    let n: nat = if requested_at_ms > 0 {
        requested_at_ms as nat
    } else {
        0
    };
    let ver = spec_dispatch_version(requested_at_ms);
    assert(ver == base36(n));
    lemma_base36_alnum(n);
    let locator = spec_callback_locator(request_id, requested_at_ms);
    assert(locator =~= k + seq![':'] + ver);
    let last = ver[ver.len() - 1];
    assert(crate::text::is_ascii_alnum(last));
    assert(locator[locator.len() - 1] == last);
    if k.len() > 0 {
        assert(locator[0] == k[0]);
    } else {
        assert(locator[0] == ':');
    }
    crate::telegram::lemma_decision_button_data(approve, locator);
}

/// Pressing a notice's button reads back as the decision on that notice's
/// request: the button's data parses as `approve`/`deny` with the notice's
/// locator, and that locator looks up the request's id with the notice's
/// dispatch version.
pub proof fn lemma_approval_button_round_trip(request_id: Seq<char>, requested_at_ms: i64, approve: bool)
    requires
        !strip_approval_prefix(request_id).contains(':'),
        !(strip_approval_prefix(request_id).len() > 0 && crate::text::is_ws(
            strip_approval_prefix(request_id)[0],
        )),
        !(9 <= strip_approval_prefix(request_id).len() && strip_approval_prefix(request_id).take(9)
            == "approval-"@),
    ensures
        crate::telegram::spec_parse_callback_command(
            (if approve {
                "approve:"@
            } else {
                "deny:"@
            }) + spec_callback_locator(request_id, requested_at_ms),
        ) == Some(
            if approve {
                crate::telegram::ControlCommandView::Approve(
                    spec_callback_locator(request_id, requested_at_ms),
                )
            } else {
                crate::telegram::ControlCommandView::Deny(
                    spec_callback_locator(request_id, requested_at_ms),
                )
            },
        ),
        spec_locator_candidates(spec_callback_locator(request_id, requested_at_ms)).contains(
            request_id,
        ),
        spec_locator_version(spec_callback_locator(request_id, requested_at_ms)) == Some(
            spec_dispatch_version(requested_at_ms),
        ),
{
    lemma_button_data_reads_back(request_id, requested_at_ms, approve);
    lemma_locator_finds_request(request_id, requested_at_ms);
}


/// The request ids the bridge makes, `approval-` and a UUID, always come back
/// through a notice's buttons: whichever request time the notice carries,
/// pressing a button reads as the decision on that request, and its locator
/// looks the request up again with the notice's dispatch version.
pub proof fn lemma_bridge_request_ids_round_trip(uuid: Seq<u8>, requested_at_ms: i64, approve: bool)
    requires
        uuid.len() == 16,
    ensures
        ({
            let request_id = "approval-"@ + crate::ids::hyphenated_hex(uuid);
            let locator = spec_callback_locator(request_id, requested_at_ms);
            &&& crate::telegram::spec_parse_callback_command(
                (if approve {
                    "approve:"@
                } else {
                    "deny:"@
                }) + locator,
            ) == Some(
                if approve {
                    crate::telegram::ControlCommandView::Approve(locator)
                } else {
                    crate::telegram::ControlCommandView::Deny(locator)
                },
            )
            &&& spec_locator_candidates(locator).contains(request_id)
            &&& spec_locator_version(locator) == Some(spec_dispatch_version(requested_at_ms))
        }),
{
    reveal_strlit("approval-");
    let hx = crate::ids::hyphenated_hex(uuid);
    crate::ids::lemma_hyphenated_hex_chars(uuid);
    let request_id = "approval-"@ + hx;
    assert(request_id.take(9) =~= "approval-"@);
    assert(request_id.skip(9) =~= hx);
    assert(strip_approval_prefix(request_id) == hx);
    assert(!hx.contains(':')) by {
        if hx.contains(':') {
            let k = choose|k: int| 0 <= k < hx.len() && hx[k] == ':';
            assert(crate::ids::is_uuid_char(hx[k]));
        }
    }
    assert(crate::ids::is_uuid_char(hx[0]));
    assert(!crate::text::is_ws(hx[0]));
    assert(crate::ids::is_uuid_char(hx[1]));
    assert("approval-"@[1] == 'p');
    assert(hx.take(9)[1] == hx[1]);
    lemma_approval_button_round_trip(request_id, requested_at_ms, approve);
}

// ---------------------------------------------------------------------------
// Decisions on approval requests from Telegram
// ---------------------------------------------------------------------------

/// What the bridge answers to a decision: the chat reply, and the short
/// text shown for the pressed button.
pub struct ApprovalDecisionReply {
    pub reply_text: String,
    pub callback_text: String,
}

impl ApprovalDecisionReply {
    pub fn new(reply_text: String, callback_text: String) -> (r: Self)
        ensures
            r.reply_text@ == reply_text@,
            r.callback_text@ == callback_text@,
    {
        ApprovalDecisionReply { reply_text, callback_text }
    }
}

pub open spec fn reply_is(r: ApprovalDecisionReply, reply: Seq<char>, callback: Seq<char>) -> bool {
    r.reply_text@ == reply && r.callback_text@ == callback
}

fn reply_of(reply: String, callback: &str) -> (r: ApprovalDecisionReply)
    ensures
        reply_is(r, reply@, callback@),
{
    ApprovalDecisionReply { reply_text: reply, callback_text: str_of(callback) }
}

fn id_sentence(request_id: &str, tail: &str) -> (r: String)
    ensures
        r@ == "Approval request `"@ + request_id@ + tail@,
{
    let mut r = str_of("Approval request `");
    r.append(request_id);
    r.append(tail);
    r
}

/// The answer when a decision names no current request: a stale button, or
/// an id that is not stored. The same reply text replaces the pressed notice.
pub fn lookup_failure_reply(lookup: &ApprovalRequestLookup, locator: &str) -> (r: Option<
    ApprovalDecisionReply,
>)
    ensures
        match lookup {
            ApprovalRequestLookup::Found(_) => r is None,
            ApprovalRequestLookup::Stale(request) => r matches Some(reply) && reply_is(
                reply,
                "Approval request `"@ + request.request_id@
                    + "` is stale. Use the latest notification."@,
                "This button is stale. Use the latest notification."@,
            ),
            ApprovalRequestLookup::Missing => r matches Some(reply) && reply_is(
                reply,
                "Approval request `"@ + locator@ + "` was not found."@,
                "Approval request not found."@,
            ),
        },
{
    match lookup {
        ApprovalRequestLookup::Found(_) => None,
        ApprovalRequestLookup::Stale(request) => Some(
            reply_of(
                id_sentence(request.request_id.as_str(), "` is stale. Use the latest notification."),
                "This button is stale. Use the latest notification.",
            ),
        ),
        ApprovalRequestLookup::Missing => Some(
            reply_of(id_sentence(locator, "` was not found."), "Approval request not found."),
        ),
    }
}

/// The answer when the decision comes from a chat that does not own the
/// request; `None` when the chat's lane owns it.
pub fn lane_mismatch_reply(request: &ApprovalRequestRecord, lane: Option<&LaneRecord>) -> (r: Option<
    ApprovalDecisionReply,
>)
    ensures
        match lane {
            None => r matches Some(reply) && reply_is(
                reply,
                "This chat has no lane for the approval request."@,
                "This chat cannot handle that request."@,
            ),
            Some(l) => if l.lane_id@ == request.lane_id@ {
                r is None
            } else {
                r matches Some(reply) && reply_is(
                    reply,
                    "This approval request belongs to a different chat."@,
                    "Wrong chat for this request."@,
                )
            },
        },
{
    match lane {
        None => Some(
            reply_of(
                str_of("This chat has no lane for the approval request."),
                "This chat cannot handle that request.",
            ),
        ),
        Some(l) => {
            if crate::text::string_eq(l.lane_id.as_str(), request.lane_id.as_str()) {
                None
            } else {
                Some(
                    reply_of(
                        str_of("This approval request belongs to a different chat."),
                        "Wrong chat for this request.",
                    ),
                )
            }
        },
    }
}

pub open spec fn already_handled_text(request_id: Seq<char>, status_name: Seq<char>) -> Seq<char> {
    "Approval request `"@ + request_id + "` was already handled. Current status: `"@ + status_name
        + "`"@
}

/// The answer for a request that another decision handled first.
pub fn already_handled_reply(request_id: &str, current_status: Option<ApprovalRequestStatus>) -> (r:
    ApprovalDecisionReply)
    ensures
        ({
            let name = match current_status {
                Some(s) => s.name(),
                None => "unknown"@,
            };
            reply_is(r, already_handled_text(request_id@, name), "Already `"@ + name + "`."@)
        }),
{
    let name: &str = match current_status {
        Some(s) => approval_status_name(s),
        None => "unknown",
    };
    let mut reply = id_sentence(request_id, "` was already handled. Current status: `");
    reply.append(name);
    reply.append("`");
    let mut callback = str_of("Already `");
    callback.append(name);
    callback.append("`.");
    ApprovalDecisionReply { reply_text: reply, callback_text: callback }
}

/// The next step for a decision on a request that the chat's lane owns.
pub enum ApprovalDecisionStep {
    /// Answer without changing the request.
    Reply(ApprovalDecisionReply),
    /// Record the decision on an `exec` request.
    RecordExecDecision,
    /// Expire an app-server request stored without its transport id.
    ExpireOldFormat,
    /// Mark the request resolving and resume its app-server turn.
    ResumeAppServerTurn,
}

pub open spec fn step_is_reply(r: ApprovalDecisionStep, reply: Seq<char>, callback: Seq<char>) -> bool {
    match r {
        ApprovalDecisionStep::Reply(x) => reply_is(x, reply, callback),
        _ => false,
    }
}

/// Decides what a decision on `request` does, given the lane that the chat
/// has now: only a pending request of this lane, that is no input request,
/// is decided; `exec` requests are recorded, app-server requests resume
/// their turn unless they lack a transport id.
pub fn decide_approval_step(request: &ApprovalRequestRecord, current_lane_id: &str) -> (r:
    ApprovalDecisionStep)
    ensures
        current_lane_id@ != request.lane_id@ ==> step_is_reply(
            r,
            "This approval request belongs to a different chat."@,
            "Wrong chat for this request."@,
        ),
        current_lane_id@ == request.lane_id@ && request.request_kind
            == ApprovalRequestKind::ToolUserInput ==> step_is_reply(
            r,
            "Approval request `"@ + request.request_id@
                + "` needs additional input and cannot be handled from Telegram yet."@,
            "This request type cannot be answered from Telegram."@,
        ),
        current_lane_id@ == request.lane_id@ && request.request_kind
            != ApprovalRequestKind::ToolUserInput && request.status
            == ApprovalRequestStatus::Dispatching ==> step_is_reply(
            r,
            "Approval request `"@ + request.request_id@
                + "` was just sent. Wait a few seconds and try again."@,
            "Wait a few seconds and try again."@,
        ),
        current_lane_id@ == request.lane_id@ && request.request_kind
            != ApprovalRequestKind::ToolUserInput && request.status
            != ApprovalRequestStatus::Dispatching && request.status
            != ApprovalRequestStatus::Pending ==> step_is_reply(
            r,
            already_handled_text(request.request_id@, request.status.name()),
            "Already `"@ + request.status.name() + "`."@,
        ),
        current_lane_id@ == request.lane_id@ && request.request_kind
            != ApprovalRequestKind::ToolUserInput && request.status
            == ApprovalRequestStatus::Pending ==> (if request.transport
            == ApprovalRequestTransport::Exec {
            r == ApprovalDecisionStep::RecordExecDecision
        } else if trim(request.transport_request_id@).len() == 0 {
            r == ApprovalDecisionStep::ExpireOldFormat
        } else {
            r == ApprovalDecisionStep::ResumeAppServerTurn
        }),
{
    let request_id = request.request_id.as_str();
    if !crate::text::string_eq(current_lane_id, request.lane_id.as_str()) {
        return ApprovalDecisionStep::Reply(
            reply_of(
                str_of("This approval request belongs to a different chat."),
                "Wrong chat for this request.",
            ),
        );
    }
    if request.request_kind == ApprovalRequestKind::ToolUserInput {
        return ApprovalDecisionStep::Reply(
            reply_of(
                id_sentence(
                    request_id,
                    "` needs additional input and cannot be handled from Telegram yet.",
                ),
                "This request type cannot be answered from Telegram.",
            ),
        );
    }
    if request.status == ApprovalRequestStatus::Dispatching {
        return ApprovalDecisionStep::Reply(
            reply_of(
                id_sentence(request_id, "` was just sent. Wait a few seconds and try again."),
                "Wait a few seconds and try again.",
            ),
        );
    }
    if request.status != ApprovalRequestStatus::Pending {
        return ApprovalDecisionStep::Reply(already_handled_reply(request_id, Some(request.status)));
    }
    if request.transport == ApprovalRequestTransport::Exec {
        return ApprovalDecisionStep::RecordExecDecision;
    }
    if crate::text::str_is_blank(request.transport_request_id.as_str()) {
        return ApprovalDecisionStep::ExpireOldFormat;
    }
    ApprovalDecisionStep::ResumeAppServerTurn
}

/// Decides what `/answer` does with `answer_text` for `request`, given the
/// lane that the chat has now: only a pending input request of this lane
/// takes an answer, and only an answer that fits its questions resumes the
/// turn.
pub fn decide_answer_step(
    request: &ApprovalRequestRecord,
    current_lane_id: &str,
    payload: Option<&crate::json::Json>,
    answer_text: &str,
) -> (r: ApprovalDecisionStep)
    ensures
        current_lane_id@ != request.lane_id@ ==> step_is_reply(
            r,
            "This approval request belongs to a different chat."@,
            "Wrong chat for this request."@,
        ),
        current_lane_id@ == request.lane_id@ && request.request_kind
            != ApprovalRequestKind::ToolUserInput ==> step_is_reply(
            r,
            "Approval request `"@ + request.request_id@
                + "` does not wait for an answer. Use /approve or /deny."@,
            "Use /approve or /deny for this request."@,
        ),
        current_lane_id@ == request.lane_id@ && request.request_kind
            == ApprovalRequestKind::ToolUserInput && request.status
            == ApprovalRequestStatus::Dispatching ==> step_is_reply(
            r,
            "Approval request `"@ + request.request_id@
                + "` was just sent. Wait a few seconds and try again."@,
            "Wait a few seconds and try again."@,
        ),
        current_lane_id@ == request.lane_id@ && request.request_kind
            == ApprovalRequestKind::ToolUserInput && request.status
            != ApprovalRequestStatus::Dispatching && request.status
            != ApprovalRequestStatus::Pending ==> step_is_reply(
            r,
            already_handled_text(request.request_id@, request.status.name()),
            "Already `"@ + request.status.name() + "`."@,
        ),
        current_lane_id@ == request.lane_id@ && request.request_kind
            == ApprovalRequestKind::ToolUserInput && request.status
            == ApprovalRequestStatus::Pending ==> match crate::app_server::spec_tool_user_input_response(
            request.request_kind,
            crate::json::opt_json_view(payload),
            answer_text@,
        ) {
            Err(e) => step_is_reply(r, e, "The answer does not fit the request."@),
            Ok(_) => if trim(request.transport_request_id@).len() == 0 {
                r == ApprovalDecisionStep::ExpireOldFormat
            } else {
                r == ApprovalDecisionStep::ResumeAppServerTurn
            },
        },
{
    let request_id = request.request_id.as_str();
    if !crate::text::string_eq(current_lane_id, request.lane_id.as_str()) {
        return ApprovalDecisionStep::Reply(
            reply_of(
                str_of("This approval request belongs to a different chat."),
                "Wrong chat for this request.",
            ),
        );
    }
    if request.request_kind != ApprovalRequestKind::ToolUserInput {
        return ApprovalDecisionStep::Reply(
            reply_of(
                id_sentence(request_id, "` does not wait for an answer. Use /approve or /deny."),
                "Use /approve or /deny for this request.",
            ),
        );
    }
    if request.status == ApprovalRequestStatus::Dispatching {
        return ApprovalDecisionStep::Reply(
            reply_of(
                id_sentence(request_id, "` was just sent. Wait a few seconds and try again."),
                "Wait a few seconds and try again.",
            ),
        );
    }
    if request.status != ApprovalRequestStatus::Pending {
        return ApprovalDecisionStep::Reply(already_handled_reply(request_id, Some(request.status)));
    }
    match crate::app_server::tool_user_input_response(request, payload, answer_text) {
        Err(e) => {
            return ApprovalDecisionStep::Reply(reply_of(e, "The answer does not fit the request."));
        },
        Ok(_) => {},
    }
    if crate::text::str_is_blank(request.transport_request_id.as_str()) {
        return ApprovalDecisionStep::ExpireOldFormat;
    }
    ApprovalDecisionStep::ResumeAppServerTurn
}

/// The status a decision records.
pub fn decided_status(approved: bool) -> (r: ApprovalRequestStatus)
    ensures
        r == (if approved {
            ApprovalRequestStatus::Approved
        } else {
            ApprovalRequestStatus::Declined
        }),
{
    if approved {
        ApprovalRequestStatus::Approved
    } else {
        ApprovalRequestStatus::Declined
    }
}

pub fn exec_decision_recorded_reply(request_id: &str, approved: bool) -> (r: ApprovalDecisionReply)
    ensures
        reply_is(
            r,
            "Approval request `"@ + request_id@ + "` was recorded as "@ + (if approved {
                "approved"@
            } else {
                "declined"@
            }) + ". Enable `app_server` to resume the same turn."@,
            if approved {
                "Approval recorded."@
            } else {
                "Decline recorded."@
            },
        ),
{
    let mut reply = id_sentence(request_id, "` was recorded as ");
    if approved {
        reply.append("approved");
    } else {
        reply.append("declined");
    }
    reply.append(". Enable `app_server` to resume the same turn.");
    if approved {
        reply_of(reply, "Approval recorded.")
    } else {
        reply_of(reply, "Decline recorded.")
    }
}

/// The text that replaces the notice of an expired old-format request.
pub fn old_format_notice_text(request_id: &str) -> (r: String)
    ensures
        r@ == "Approval request `"@ + request_id@
            + "` used an old format and was invalidated. Send the original request again."@,
{
    id_sentence(request_id, "` used an old format and was invalidated. Send the original request again.")
}

pub fn old_format_reply(request_id: &str) -> (r: ApprovalDecisionReply)
    ensures
        reply_is(
            r,
            "Approval request `"@ + request_id@
                + "` uses an old format and cannot continue. Send the original request again."@,
            "Old-format request invalidated."@,
        ),
{
    reply_of(
        id_sentence(
            request_id,
            "` uses an old format and cannot continue. Send the original request again.",
        ),
        "Old-format request invalidated.",
    )
}

/// The text that replaces the notice when resuming the turn failed.
pub fn unknown_continuation_notice_text(request_id: &str) -> (r: String)
    ensures
        r@ == "Approval request `"@ + request_id@
            + "` has an unknown continuation result. Check local logs before deciding what to do."@,
{
    id_sentence(
        request_id,
        "` has an unknown continuation result. Check local logs before deciding what to do.",
    )
}

pub fn unknown_continuation_reply(request_id: &str) -> (r: ApprovalDecisionReply)
    ensures
        reply_is(
            r,
            "Approval request `"@ + request_id@
                + "` has an unknown continuation result. Check local logs and do not resend until the state is clear."@,
            "Continuation result unknown. Check local logs."@,
        ),
{
    reply_of(
        id_sentence(
            request_id,
            "` has an unknown continuation result. Check local logs and do not resend until the state is clear.",
        ),
        "Continuation result unknown. Check local logs.",
    )
}

pub fn post_approval_failure_reply(request_id: &str) -> (r: ApprovalDecisionReply)
    ensures
        reply_is(
            r,
            "Approval request `"@ + request_id@
                + "` was recorded, but post-approval processing failed. Check local logs."@,
            "Post-approval processing failed. Check local logs."@,
        ),
{
    reply_of(
        id_sentence(
            request_id,
            "` was recorded, but post-approval processing failed. Check local logs.",
        ),
        "Post-approval processing failed. Check local logs.",
    )
}

pub fn next_notification_failure_reply(request_id: &str) -> (r: ApprovalDecisionReply)
    ensures
        reply_is(
            r,
            "Approval request `"@ + request_id@
                + "` was recorded, but saving the next approval notification failed. Check local logs."@,
            "Failed to save the next approval notification."@,
        ),
{
    reply_of(
        id_sentence(
            request_id,
            "` was recorded, but saving the next approval notification failed. Check local logs.",
        ),
        "Failed to save the next approval notification.",
    )
}

/// The chat reply after a turn: the failed checks report, the agent's last
/// message, or a note that no message came back; cut to `max_output_chars`.
pub open spec fn spec_turn_reply(
    outcome: CodexOutcome,
    unresolved_checks: Option<CheckRunSummary>,
    auto_turns_completed: usize,
    max_output_chars: usize,
    empty_text: Seq<char>,
) -> Seq<char> {
    match unresolved_checks {
        Some(summary) => spec_truncate(
            join(
                spec_failed_checks_sections(outcome.last_message@, summary, auto_turns_completed),
                "\n\n"@,
            ),
            max_output_chars,
        ),
        None => if trim(outcome.last_message@).len() == 0 {
            empty_text
        } else {
            spec_truncate(outcome.last_message@, max_output_chars)
        },
    }
}

fn turn_reply_with(
    outcome: &CodexOutcome,
    unresolved_checks: Option<&CheckRunSummary>,
    auto_turns_completed: usize,
    max_output_chars: usize,
    empty_text: &str,
) -> (r: String)
    ensures
        r@ == spec_turn_reply(
            *outcome,
            match unresolved_checks {
                Some(s) => Some(*s),
                None => None,
            },
            auto_turns_completed,
            max_output_chars,
            empty_text@,
        ),
{
    match unresolved_checks {
        Some(summary) => {
            let full = format_reply_with_failed_checks(
                outcome.last_message.as_str(),
                summary,
                auto_turns_completed,
            );
            truncate(full.as_str(), max_output_chars)
        },
        None => {
            if crate::text::str_is_blank(outcome.last_message.as_str()) {
                str_of(empty_text)
            } else {
                truncate(outcome.last_message.as_str(), max_output_chars)
            }
        },
    }
}

/// The reply to a chat message once its turn and automatic turns are done.
pub fn turn_reply(
    outcome: &CodexOutcome,
    unresolved_checks: Option<&CheckRunSummary>,
    auto_turns_completed: usize,
    max_output_chars: usize,
) -> (r: String)
    ensures
        r@ == spec_turn_reply(
            *outcome,
            match unresolved_checks {
                Some(s) => Some(*s),
                None => None,
            },
            auto_turns_completed,
            max_output_chars,
            "応答本文を取得できませんでした。ローカルのログを確認してください。"@,
        ),
{
    turn_reply_with(
        outcome,
        unresolved_checks,
        auto_turns_completed,
        max_output_chars,
        "応答本文を取得できませんでした。ローカルのログを確認してください。",
    )
}

/// The answer after an approved or declined request resumed its turn.
pub fn approval_outcome_reply(
    request_id: &str,
    approved: bool,
    outcome: &CodexOutcome,
    unresolved_checks: Option<&CheckRunSummary>,
    auto_turns_completed: usize,
    max_output_chars: usize,
) -> (r: ApprovalDecisionReply)
    ensures
        outcome.approval_pending ==> reply_is(
            r,
            spec_resolution_message(request_id@, approved) + " Sent the next approval request."@,
            if approved {
                "Approval applied; sent the next approval request."@
            } else {
                "Decline applied; sent the next approval request."@
            },
        ),
        !outcome.approval_pending ==> reply_is(
            r,
            spec_turn_reply(
                *outcome,
                match unresolved_checks {
                    Some(s) => Some(*s),
                    None => None,
                },
                auto_turns_completed,
                max_output_chars,
                "Could not read the response after approval. Check local logs."@,
            ),
            if approved {
                "Approval applied."@
            } else {
                "Decline applied."@
            },
        ),
{
    if outcome.approval_pending {
        let mut reply = format_approval_resolution_message(request_id, approved);
        reply.append(" Sent the next approval request.");
        if approved {
            return reply_of(reply, "Approval applied; sent the next approval request.");
        } else {
            return reply_of(reply, "Decline applied; sent the next approval request.");
        }
    }
    let reply = turn_reply_with(
        outcome,
        unresolved_checks,
        auto_turns_completed,
        max_output_chars,
        "Could not read the response after approval. Check local logs.",
    );
    if approved {
        reply_of(reply, "Approval applied.")
    } else {
        reply_of(reply, "Decline applied.")
    }
}

// ---------------------------------------------------------------------------
// Decisions on chat messages
// ---------------------------------------------------------------------------

/// A message to a lane whose app-server turn is running goes to that turn.
pub fn routes_to_running_turn(transport: CodexTransport, lane: Option<&LaneRecord>) -> (r: bool)
    ensures
        r == (transport == CodexTransport::AppServer && (match lane {
            Some(l) => l.state == LaneState::Running,
            None => false,
        })),
{
    match lane {
        Some(l) => transport == CodexTransport::AppServer && l.state == LaneState::Running,
        None => false,
    }
}

/// The reply to a message sent while a turn runs: attachments are refused,
/// text goes to the turn when it still takes input.
pub fn running_turn_reply(has_attachments: bool, forwarded: bool) -> (r: String)
    ensures
        r@ == (if has_attachments {
            "処理中のターンへ送れる追加入力はテキストだけです。添付は完了後に送ってください。"@
        } else if forwarded {
            "実行中のターンへ追加入力を送りました。"@
        } else {
            "現在の処理が続いています。完了後にもう一度送ってください。"@
        }),
{
    if has_attachments {
        str_of("処理中のターンへ送れる追加入力はテキストだけです。添付は完了後に送ってください。")
    } else if forwarded {
        str_of("実行中のターンへ追加入力を送りました。")
    } else {
        str_of("現在の処理が続いています。完了後にもう一度送ってください。")
    }
}

/// The kind of run a message starts.
pub fn run_kind(resumes_session: bool) -> (r: String)
    ensures
        r@ == (if resumes_session {
            "resume"@
        } else {
            "start"@
        }),
{
    if resumes_session {
        str_of("resume")
    } else {
        str_of("start")
    }
}

/// The text of the answer to a pressed button.
pub fn callback_answer_text(callback_text: Option<&str>) -> (r: String)
    ensures
        r@ == match callback_text {
            Some(t) => t@,
            None => "操作を処理しました。"@,
        },
{
    match callback_text {
        Some(t) => str_of(t),
        None => str_of("操作を処理しました。"),
    }
}

/// The callback text when handling a decision failed.
pub fn decision_error_callback_text() -> (r: String)
    ensures
        r@ == "Could not process the approval decision."@,
{
    str_of("Could not process the approval decision.")
}

/// The message a lane shows after its automatic turns: the last visible
/// agent message, or, when that is empty in an automatic mode that ended
/// without an approval or failed checks, a note that the request is done.
pub fn final_visible_message(
    last_visible_message: String,
    mode: LaneMode,
    approval_pending: bool,
    has_unresolved_checks: bool,
    auto_turns_completed: usize,
) -> (r: String)
    ensures
        r@ == (if trim(last_visible_message@).len() == 0 && (mode == LaneMode::Infinite || mode
            == LaneMode::MaxTurns) && !approval_pending && !has_unresolved_checks {
            spec_waiting_message(auto_turns_completed)
        } else {
            last_visible_message@
        }),
{
    let automatic = match mode {
        LaneMode::Infinite | LaneMode::MaxTurns => true,
        _ => false,
    };
    if crate::text::str_is_blank(last_visible_message.as_str()) && automatic && !approval_pending
        && !has_unresolved_checks {
        format_auto_continue_waiting_message(auto_turns_completed)
    } else {
        last_visible_message
    }
}

/// A stored sender may act in this chat: senders paired over Telegram only
/// in private chats, senders from the configuration anywhere.
pub fn accepts_sender(sender: &AuthorizedSender, chat_type: &str) -> (r: bool)
    ensures
        r == !(sender.source@ == "paired"@ && chat_type@ != "private"@),
{
    let paired = crate::text::string_eq(sender.source.as_str(), "paired");
    let private = crate::text::string_eq(chat_type, "private");
    !(paired && !private)
}

/// What the bridge does with an update before handling it.
#[derive(Debug, Clone, Copy, PartialEq, Eq)]
pub enum UpdateAdmission {
    /// Drop it.
    Ignore,
    /// An unknown sender wrote in a private chat: send them a pairing code.
    OfferPairing(i64),
    /// Handle it on behalf of this authorized sender.
    Handle(i64),
}

/// Admits an update from a chat of type `chat_type`: chats of other types
/// than the configured ones are ignored; a known active sender (`stored`)
/// is handled where `accepts_sender` lets them act; an unknown sender is
/// offered pairing in a private chat.
pub fn admit_update(
    allowed_chat_types: &Vec<String>,
    chat_type: &str,
    sender_id: Option<i64>,
    stored: Option<&AuthorizedSender>,
) -> (r: UpdateAdmission)
    ensures
        !str_views(allowed_chat_types@).contains(chat_type@) ==> r == UpdateAdmission::Ignore,
        str_views(allowed_chat_types@).contains(chat_type@) ==> r == match sender_id {
            None => UpdateAdmission::Ignore,
            Some(id) => match stored {
                Some(s) => if !(s.source@ == "paired"@ && chat_type@ != "private"@) {
                    UpdateAdmission::Handle(id)
                } else {
                    UpdateAdmission::Ignore
                },
                None => if chat_type@ == "private"@ {
                    UpdateAdmission::OfferPairing(id)
                } else {
                    UpdateAdmission::Ignore
                },
            },
        },
{
    let mut allowed = false;
    let mut i: usize = 0;
    while i < allowed_chat_types.len()
        invariant
            i <= allowed_chat_types.len(),
            allowed == (exists|k: int| 0 <= k < i && allowed_chat_types@[k]@ == chat_type@),
        decreases allowed_chat_types.len() - i,
    {
        if crate::text::string_eq(allowed_chat_types[i].as_str(), chat_type) {
            allowed = true;
        }
        i = i + 1;
    }
    proof {
        if allowed {
            let k = choose|k: int| 0 <= k < allowed_chat_types@.len() && allowed_chat_types@[k]@
                == chat_type@;
            assert(str_views(allowed_chat_types@)[k] == chat_type@);
        } else {
            assert forall|k: int| 0 <= k < str_views(allowed_chat_types@).len() implies str_views(
                allowed_chat_types@,
            )[k] != chat_type@ by {
                assert(str_views(allowed_chat_types@)[k] == allowed_chat_types@[k]@);
            }
        }
    }
    if !allowed {
        return UpdateAdmission::Ignore;
    }
    match sender_id {
        None => UpdateAdmission::Ignore,
        Some(id) => match stored {
            Some(s) => {
                if accepts_sender(s, chat_type) {
                    UpdateAdmission::Handle(id)
                } else {
                    UpdateAdmission::Ignore
                }
            },
            None => {
                if crate::text::string_eq(chat_type, "private") {
                    UpdateAdmission::OfferPairing(id)
                } else {
                    UpdateAdmission::Ignore
                }
            },
        },
    }
}

/// The reply to `/stop`.
pub fn stop_reply(had_lane: bool) -> (r: String)
    ensures
        r@ == (if had_lane {
            "現在のセッションを止めました。次の入力は新しい開始として扱います。"@
        } else {
            "停止する対象はありません。"@
        }),
{
    if had_lane {
        str_of("現在のセッションを止めました。次の入力は新しい開始として扱います。")
    } else {
        str_of("停止する対象はありません。")
    }
}

/// The reply after `/mode` changed a lane's mode.
pub fn mode_updated_reply(mode: LaneMode, extra_turn_budget: i64) -> (r: String)
    ensures
        r@ == "この会話のモードを "@ + mode_name(mode) + " に更新しました。"@
            + spec_lane_mode_details(mode, extra_turn_budget),
{
    let mut r = str_of("この会話のモードを ");
    r.append(lane_mode_name(mode));
    r.append(" に更新しました。");
    let details = format_lane_mode_details(mode, extra_turn_budget);
    r.append(details.as_str());
    r
}

/// The replies of the synchronous command path to commands that it leaves
/// to the asynchronous handlers.
pub fn internal_path_reply(command: &TelegramControlCommand) -> (r: Option<String>)
    ensures
        match command {
            TelegramControlCommand::Sessions { .. } => r matches Some(t) && t@
                == "This internal path does not handle session selection. Use the async handler."@,
            TelegramControlCommand::Approve { .. } | TelegramControlCommand::Deny { .. } => r matches Some(t) && t@
                == "This internal path does not handle approval decisions. Use a normal Telegram message or button."@,
            _ => r is None,
        },
{
    match command {
        TelegramControlCommand::Sessions { .. } => Some(
            str_of("This internal path does not handle session selection. Use the async handler."),
        ),
        TelegramControlCommand::Approve { .. } | TelegramControlCommand::Deny { .. } => Some(
            str_of(
                "This internal path does not handle approval decisions. Use a normal Telegram message or button.",
            ),
        ),
        _ => None,
    }
}

/// The reply to `/workspace <id>`: an unknown id is refused, the lane's own
/// workspace is kept, another one is switched to.
pub fn workspace_switch_reply(workspace_id: Option<&str>, current_lane_workspace: Option<&str>) -> (r:
    Result<String, String>)
    ensures
        match workspace_id {
            None => r matches Err(e) && e@
                == "不明な workspace です。`/workspace` で利用可能な一覧を確認してください。"@,
            Some(id) => match current_lane_workspace {
                Some(cur) => if cur@ == id@ {
                    r matches Ok(t) && t@ == "この会話はすでに workspace `"@ + id@
                        + "` を使っています。"@
                } else {
                    r matches Ok(t) && t@ == "この会話の workspace を `"@ + id@
                        + "` に更新しました。進行中のセッションはリセットしました。"@
                },
                None => r matches Ok(t) && t@ == "この会話の workspace を `"@ + id@
                    + "` に更新しました。進行中のセッションはリセットしました。"@,
            },
        },
{
    let id = match workspace_id {
        None => {
            return Err(
                str_of("不明な workspace です。`/workspace` で利用可能な一覧を確認してください。"),
            );
        },
        Some(id) => id,
    };
    let same = match current_lane_workspace {
        Some(cur) => crate::text::string_eq(cur, id),
        None => false,
    };
    if same {
        let mut r = str_of("この会話はすでに workspace `");
        r.append(id);
        r.append("` を使っています。");
        Ok(r)
    } else {
        let mut r = str_of("この会話の workspace を `");
        r.append(id);
        r.append("` に更新しました。進行中のセッションはリセットしました。");
        Ok(r)
    }
}

/// The reply after `/remotty-sessions <id>` bound the chat to a thread.
pub fn thread_bound_reply(thread_id: &str) -> (r: String)
    ensures
        r@ == "この会話を Codex スレッド `"@ + thread_id@
            + "` に対応付けました。\n次の入力から、このスレッドへ戻せるようになります。"@,
{
    let mut r = str_of("この会話を Codex スレッド `");
    r.append(thread_id);
    r.append("` に対応付けました。\n次の入力から、このスレッドへ戻せるようになります。");
    r
}

/// The text that replaces a notice invalidated by a bridge restart.
pub fn restart_invalidated_text(request_id: &str) -> (r: String)
    ensures
        r@ == "Approval request `"@ + request_id@
            + "` was invalidated by a bridge restart. Send the original request again."@,
{
    id_sentence(request_id, "` was invalidated by a bridge restart. Send the original request again.")
}

/// The text that replaces a notice whose resolution a restart interrupted.
pub fn restart_inconclusive_text(request_id: &str) -> (r: String)
    ensures
        r@ == "Approval request `"@ + request_id@
            + "` could not be finalized during bridge restart. The state is unknown; check local logs before resending the original request."@,
{
    id_sentence(
        request_id,
        "` could not be finalized during bridge restart. The state is unknown; check local logs before resending the original request.",
    )
}

/// The text that replaces a notice dispatched before a failure.
pub fn dispatch_invalidated_text(notice_text: &str) -> (r: String)
    ensures
        r@ == notice_text@
            + "\n\nThis approval notification was invalidated by an internal error. Send the original request again."@,
{
    let mut r = str_of(notice_text);
    r.append(
        "\n\nThis approval notification was invalidated by an internal error. Send the original request again.",
    );
    r
}

// ---------------------------------------------------------------------------
// Sending approval notices, and rolling back when one cannot be sent
// ---------------------------------------------------------------------------

/// An approval notice that went out: its request, message and text.
#[derive(Debug)]
pub struct DispatchedNotice {
    pub request_id: String,
    pub message_id: i64,
    pub text: String,
}

pub open spec fn notice_view(n: DispatchedNotice) -> (Seq<char>, i64, Seq<char>) {
    (n.request_id@, n.message_id, n.text@)
}

pub open spec fn notice_views(ns: Seq<DispatchedNotice>) -> Seq<(Seq<char>, i64, Seq<char>)> {
    ns.map_values(|n: DispatchedNotice| notice_view(n))
}

/// What became of one request's notice.
pub enum DispatchOutcome {
    /// The request was not to be sent (already stored and live).
    Skipped,
    /// Telegram refused the message.
    SendFailed,
    /// The message went out and the store recorded it.
    Sent(DispatchedNotice),
    /// The message went out, but the store could not record it.
    SentUnrecorded(DispatchedNotice),
}

/// What the bridge does next.
pub enum DispatchStep {
    /// Go on with the next request.
    Continue,
    /// Stop: invalidate the request that failed, if it is named, then every
    /// listed notice (request and message), and report the error.
    RollBack { failed_request: Option<String>, notices: Vec<DispatchedNotice> },
}

/// One step of sending the notices of a turn's approval requests:
/// `dispatched` holds the notices sent so far. A notice that went out and
/// was recorded joins them; when a send fails, the failed request and all
/// notices sent so far are rolled back; when a sent notice cannot be
/// recorded, it is rolled back with them.
pub fn dispatch_step(
    dispatched: &mut Vec<DispatchedNotice>,
    request_id: &str,
    outcome: DispatchOutcome,
) -> (r: DispatchStep)
    ensures
        match outcome {
            DispatchOutcome::Skipped => r is Continue && notice_views(final(dispatched)@) == notice_views(
                old(dispatched)@,
            ),
            DispatchOutcome::Sent(n) => r is Continue && notice_views(final(dispatched)@) == notice_views(
                old(dispatched)@,
            ).push(notice_view(n)),
            DispatchOutcome::SendFailed => r matches DispatchStep::RollBack { failed_request, notices }
                && failed_request matches Some(f) && f@ == request_id@ && notice_views(notices@)
                == notice_views(old(dispatched)@) && final(dispatched)@.len() == 0,
            DispatchOutcome::SentUnrecorded(n) => r matches DispatchStep::RollBack {
                failed_request,
                notices,
            } && failed_request is None && notice_views(notices@) == notice_views(old(dispatched)@).push(
                notice_view(n),
            ) && final(dispatched)@.len() == 0,
        },
{
    match outcome {
        DispatchOutcome::Skipped => DispatchStep::Continue,
        DispatchOutcome::Sent(n) => {
            let ghost before = dispatched@;
            let ghost nv = notice_view(n);
            dispatched.push(n);
            assert(notice_views(dispatched@) =~= notice_views(before).push(nv));
            DispatchStep::Continue
        },
        DispatchOutcome::SendFailed => {
            let mut notices: Vec<DispatchedNotice> = Vec::new();
            std::mem::swap(&mut notices, dispatched);
            DispatchStep::RollBack { failed_request: Some(str_of(request_id)), notices }
        },
        DispatchOutcome::SentUnrecorded(n) => {
            let mut notices: Vec<DispatchedNotice> = Vec::new();
            std::mem::swap(&mut notices, dispatched);
            let ghost before = notices@;
            let ghost nv = notice_view(n);
            notices.push(n);
            assert(notice_views(notices@) =~= notice_views(before).push(nv));
            DispatchStep::RollBack { failed_request: None, notices }
        },
    }
}

} // verus!
