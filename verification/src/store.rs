//! Records kept by the bridge's store, the names under which their states
//! are stored, and the life cycle of approval requests: which stored
//! statuses each store operation may change, and into what.
use vstd::prelude::*;

use crate::config::LaneMode;
use crate::text::{chars_of, eq_str, str_of};

verus! {

#[derive(Debug, Clone, Copy, PartialEq, Eq, Structural)]
pub enum LaneState {
    Running,
    WaitingReply,
    Idle,
    NeedsLocalApproval,
    Failed,
}

impl LaneState {
    pub open spec fn name(self) -> Seq<char> {
        match self {
            LaneState::Running => "running"@,
            LaneState::WaitingReply => "waiting_reply"@,
            LaneState::Idle => "idle"@,
            LaneState::NeedsLocalApproval => "needs_local_approval"@,
            LaneState::Failed => "failed"@,
        }
    }

    pub fn as_str(self) -> (r: &'static str)
        ensures
            r@ == self.name(),
    {
        match self {
            LaneState::Running => "running",
            LaneState::WaitingReply => "waiting_reply",
            LaneState::Idle => "idle",
            LaneState::NeedsLocalApproval => "needs_local_approval",
            LaneState::Failed => "failed",
        }
    }

    pub fn from_str(value: &str) -> (r: Result<Self, String>)
        ensures
            r matches Ok(state) ==> state.name() == value@,
            r is Err ==> (forall|s: LaneState| s.name() != value@),
            r matches Err(message) ==> message@ == "unknown lane state: "@ + value@,
    {
        let v = chars_of(value);
        if eq_str(&v, "running") {
            Ok(LaneState::Running)
        } else if eq_str(&v, "waiting_reply") {
            Ok(LaneState::WaitingReply)
        } else if eq_str(&v, "idle") {
            Ok(LaneState::Idle)
        } else if eq_str(&v, "needs_local_approval") {
            Ok(LaneState::NeedsLocalApproval)
        } else if eq_str(&v, "failed") {
            Ok(LaneState::Failed)
        } else {
            let mut message = str_of("unknown lane state: ");
            message.append(value);
            Err(message)
        }
    }
}

#[derive(Debug, Clone, Copy, PartialEq, Eq, Structural)]
pub enum ApprovalRequestKind {
    CommandExecution,
    FileChange,
    Permissions,
    ToolUserInput,
}

impl ApprovalRequestKind {
    pub open spec fn name(self) -> Seq<char> {
        match self {
            ApprovalRequestKind::CommandExecution => "command_execution"@,
            ApprovalRequestKind::FileChange => "file_change"@,
            ApprovalRequestKind::Permissions => "permissions"@,
            ApprovalRequestKind::ToolUserInput => "tool_user_input"@,
        }
    }

    pub fn as_str(self) -> (r: &'static str)
        ensures
            r@ == self.name(),
    {
        match self {
            ApprovalRequestKind::CommandExecution => "command_execution",
            ApprovalRequestKind::FileChange => "file_change",
            ApprovalRequestKind::Permissions => "permissions",
            ApprovalRequestKind::ToolUserInput => "tool_user_input",
        }
    }

    pub fn from_str(value: &str) -> (r: Result<Self, String>)
        ensures
            r matches Ok(kind) ==> kind.name() == value@,
            r is Err ==> (forall|k: ApprovalRequestKind| k.name() != value@),
            r matches Err(message) ==> message@ == "unknown approval request kind: "@ + value@,
    {
        let v = chars_of(value);
        if eq_str(&v, "command_execution") {
            Ok(ApprovalRequestKind::CommandExecution)
        } else if eq_str(&v, "file_change") {
            Ok(ApprovalRequestKind::FileChange)
        } else if eq_str(&v, "permissions") {
            Ok(ApprovalRequestKind::Permissions)
        } else if eq_str(&v, "tool_user_input") {
            Ok(ApprovalRequestKind::ToolUserInput)
        } else {
            let mut message = str_of("unknown approval request kind: ");
            message.append(value);
            Err(message)
        }
    }
}

#[derive(Debug, Clone, Copy, PartialEq, Eq, Structural)]
pub enum ApprovalRequestStatus {
    Dispatching,
    Pending,
    Resolving,
    Invalidated,
    Approved,
    Declined,
    TimedOut,
}

impl ApprovalRequestStatus {
    pub open spec fn name(self) -> Seq<char> {
        match self {
            ApprovalRequestStatus::Dispatching => "dispatching"@,
            ApprovalRequestStatus::Pending => "pending"@,
            ApprovalRequestStatus::Resolving => "resolving"@,
            ApprovalRequestStatus::Invalidated => "invalidated"@,
            ApprovalRequestStatus::Approved => "approved"@,
            ApprovalRequestStatus::Declined => "declined"@,
            ApprovalRequestStatus::TimedOut => "timed_out"@,
        }
    }

    pub fn as_str(self) -> (r: &'static str)
        ensures
            r@ == self.name(),
    {
        match self {
            ApprovalRequestStatus::Dispatching => "dispatching",
            ApprovalRequestStatus::Pending => "pending",
            ApprovalRequestStatus::Resolving => "resolving",
            ApprovalRequestStatus::Invalidated => "invalidated",
            ApprovalRequestStatus::Approved => "approved",
            ApprovalRequestStatus::Declined => "declined",
            ApprovalRequestStatus::TimedOut => "timed_out",
        }
    }

    pub fn from_str(value: &str) -> (r: Result<Self, String>)
        ensures
            r matches Ok(status) ==> status.name() == value@,
            r is Err ==> (forall|s: ApprovalRequestStatus| s.name() != value@),
            r matches Err(message) ==> message@ == "unknown approval request status: "@ + value@,
    {
        let v = chars_of(value);
        if eq_str(&v, "dispatching") {
            Ok(ApprovalRequestStatus::Dispatching)
        } else if eq_str(&v, "pending") {
            Ok(ApprovalRequestStatus::Pending)
        } else if eq_str(&v, "resolving") {
            Ok(ApprovalRequestStatus::Resolving)
        } else if eq_str(&v, "invalidated") {
            Ok(ApprovalRequestStatus::Invalidated)
        } else if eq_str(&v, "approved") {
            Ok(ApprovalRequestStatus::Approved)
        } else if eq_str(&v, "declined") {
            Ok(ApprovalRequestStatus::Declined)
        } else if eq_str(&v, "timed_out") {
            Ok(ApprovalRequestStatus::TimedOut)
        } else {
            let mut message = str_of("unknown approval request status: ");
            message.append(value);
            Err(message)
        }
    }
}

#[derive(Debug, Clone, Copy, PartialEq, Eq, Structural)]
pub enum ApprovalRequestTransport {
    AppServer,
    Exec,
}

impl ApprovalRequestTransport {
    pub open spec fn name(self) -> Seq<char> {
        match self {
            ApprovalRequestTransport::AppServer => "app_server"@,
            ApprovalRequestTransport::Exec => "exec"@,
        }
    }

    pub fn as_str(self) -> (r: &'static str)
        ensures
            r@ == self.name(),
    {
        match self {
            ApprovalRequestTransport::AppServer => "app_server",
            ApprovalRequestTransport::Exec => "exec",
        }
    }

    pub fn from_str(value: &str) -> (r: Result<Self, String>)
        ensures
            r matches Ok(transport) ==> transport.name() == value@,
            r is Err ==> (forall|t: ApprovalRequestTransport| t.name() != value@),
            r matches Err(message) ==> message@ == "unknown approval request transport: "@
                + value@,
    {
        let v = chars_of(value);
        if eq_str(&v, "app_server") {
            Ok(ApprovalRequestTransport::AppServer)
        } else if eq_str(&v, "exec") {
            Ok(ApprovalRequestTransport::Exec)
        } else {
            let mut message = str_of("unknown approval request transport: ");
            message.append(value);
            Err(message)
        }
    }
}

#[derive(Debug, Clone)]
pub struct AuthorizedSender {
    pub sender_id: i64,
    pub platform: String,
    pub display_name: Option<String>,
    pub status: String,
    pub approved_at_ms: i64,
    pub source: String,
}

#[derive(Debug, Clone, PartialEq, Eq)]
pub struct PendingAccessPairCode {
    pub code: String,
    pub sender_id: i64,
    pub chat_id: i64,
    pub chat_type: String,
    pub issued_at_ms: i64,
    pub expires_at_ms: i64,
}

#[derive(Debug, Clone)]
pub struct LaneRecord {
    pub lane_id: String,
    pub chat_id: i64,
    pub thread_key: String,
    pub workspace_id: String,
    pub mode: LaneMode,
    pub state: LaneState,
    pub codex_session_id: Option<String>,
    pub extra_turn_budget: i64,
    pub waiting_since_ms: Option<i64>,
}

#[derive(Debug, Clone, PartialEq, Eq)]
pub struct CodexThreadBinding {
    pub chat_id: i64,
    pub thread_key: String,
    pub codex_thread_id: String,
    pub workspace_id: String,
    pub title: Option<String>,
    pub cwd: Option<String>,
    pub model: Option<String>,
    pub codex_updated_at: Option<String>,
    pub created_at_ms: i64,
    pub updated_at_ms: i64,
}

#[derive(Debug, Clone)]
pub struct NewCodexThreadBinding {
    pub chat_id: i64,
    pub thread_key: String,
    pub codex_thread_id: String,
    pub workspace_id: String,
    pub title: Option<String>,
    pub cwd: Option<String>,
    pub model: Option<String>,
    pub codex_updated_at: Option<String>,
}

#[derive(Debug, Clone)]
pub struct NewRun {
    pub lane_id: String,
    pub run_kind: String,
}

#[derive(Debug, Clone)]
pub struct RunRecord {
    pub run_id: String,
    pub lane_id: String,
}

#[derive(Debug, Clone)]
pub struct ApprovalRequestRecord {
    pub request_id: String,
    pub transport_request_id: String,
    pub lane_id: String,
    pub run_id: String,
    pub thread_id: String,
    pub turn_id: String,
    pub item_id: String,
    pub transport: ApprovalRequestTransport,
    pub request_kind: ApprovalRequestKind,
    pub summary_text: String,
    pub raw_payload_json: String,
    pub status: ApprovalRequestStatus,
    pub requested_at_ms: i64,
    pub resolved_at_ms: Option<i64>,
    pub resolved_by_sender_id: Option<i64>,
    pub telegram_message_id: Option<i64>,
}

#[derive(Debug, Clone)]
pub struct PendingApprovalNotification {
    pub request: ApprovalRequestRecord,
    pub chat_id: i64,
}

#[derive(Debug, Clone)]
pub struct NewApprovalRequest {
    pub request_id: String,
    pub transport_request_id: String,
    pub lane_id: String,
    pub run_id: String,
    pub thread_id: String,
    pub turn_id: String,
    pub item_id: String,
    pub transport: ApprovalRequestTransport,
    pub request_kind: ApprovalRequestKind,
    pub summary_text: String,
    pub raw_payload_json: String,
    pub status: ApprovalRequestStatus,
}

// ---------------------------------------------------------------------------
// Life cycle of approval requests
// ---------------------------------------------------------------------------

/// A store operation that changes the status of one approval request.
#[derive(Debug, Clone, Copy, PartialEq, Eq, Structural)]
pub enum ApprovalTransition {
    /// `prepare_approval_request_for_dispatch`: (re)inserts the request as `dispatching`.
    Redispatch,
    /// `mark_approval_request_pending`: the notification was delivered.
    MarkPending,
    /// `begin_approval_resolution`: a decision arrived for an app-server request.
    BeginResolution,
    /// `resolve_approval_request` with the decided status.
    Resolve(ApprovalRequestStatus),
    /// `invalidate_approval_request`.
    Invalidate,
    /// `fail_resolving_approval_request`: the continuation result is unknown.
    FailResolving,
    /// `expire_approval_request`.
    Expire,
    /// `invalidate_pending_approval_notifications_for_restart`.
    InvalidateForRestart,
}

/// The status a stored request gets from `op`, or `None` when the store
/// leaves the row unchanged (its current status does not admit `op`).
pub open spec fn spec_transition(op: ApprovalTransition, from: ApprovalRequestStatus) -> Option<
    ApprovalRequestStatus,
> {
    match op {
        ApprovalTransition::Redispatch => match from {
            ApprovalRequestStatus::Invalidated | ApprovalRequestStatus::TimedOut => Some(
                ApprovalRequestStatus::Dispatching,
            ),
            _ => None,
        },
        ApprovalTransition::MarkPending => match from {
            ApprovalRequestStatus::Dispatching | ApprovalRequestStatus::Resolving => Some(
                ApprovalRequestStatus::Pending,
            ),
            _ => None,
        },
        ApprovalTransition::BeginResolution => match from {
            ApprovalRequestStatus::Pending => Some(ApprovalRequestStatus::Resolving),
            _ => None,
        },
        ApprovalTransition::Resolve(to) => match from {
            ApprovalRequestStatus::Pending | ApprovalRequestStatus::Resolving => Some(to),
            _ => None,
        },
        ApprovalTransition::Invalidate => match from {
            ApprovalRequestStatus::Dispatching
            | ApprovalRequestStatus::Pending
            | ApprovalRequestStatus::Resolving => Some(ApprovalRequestStatus::Invalidated),
            _ => None,
        },
        ApprovalTransition::FailResolving => match from {
            ApprovalRequestStatus::Resolving => Some(ApprovalRequestStatus::Invalidated),
            _ => None,
        },
        ApprovalTransition::Expire => match from {
            ApprovalRequestStatus::Pending
            | ApprovalRequestStatus::Dispatching
            | ApprovalRequestStatus::Resolving => Some(ApprovalRequestStatus::TimedOut),
            _ => None,
        },
        ApprovalTransition::InvalidateForRestart => match from {
            ApprovalRequestStatus::Pending | ApprovalRequestStatus::Dispatching => Some(
                ApprovalRequestStatus::Invalidated,
            ),
            _ => None,
        },
    }
}

pub fn transition(op: ApprovalTransition, from: ApprovalRequestStatus) -> (r: Option<
    ApprovalRequestStatus,
>)
    ensures
        r == spec_transition(op, from),
{
    match op {
        ApprovalTransition::Redispatch => match from {
            ApprovalRequestStatus::Invalidated | ApprovalRequestStatus::TimedOut => Some(
                ApprovalRequestStatus::Dispatching,
            ),
            _ => None,
        },
        ApprovalTransition::MarkPending => match from {
            ApprovalRequestStatus::Dispatching | ApprovalRequestStatus::Resolving => Some(
                ApprovalRequestStatus::Pending,
            ),
            _ => None,
        },
        ApprovalTransition::BeginResolution => match from {
            ApprovalRequestStatus::Pending => Some(ApprovalRequestStatus::Resolving),
            _ => None,
        },
        ApprovalTransition::Resolve(to) => match from {
            ApprovalRequestStatus::Pending | ApprovalRequestStatus::Resolving => Some(to),
            _ => None,
        },
        ApprovalTransition::Invalidate => match from {
            ApprovalRequestStatus::Dispatching
            | ApprovalRequestStatus::Pending
            | ApprovalRequestStatus::Resolving => Some(ApprovalRequestStatus::Invalidated),
            _ => None,
        },
        ApprovalTransition::FailResolving => match from {
            ApprovalRequestStatus::Resolving => Some(ApprovalRequestStatus::Invalidated),
            _ => None,
        },
        ApprovalTransition::Expire => match from {
            ApprovalRequestStatus::Pending
            | ApprovalRequestStatus::Dispatching
            | ApprovalRequestStatus::Resolving => Some(ApprovalRequestStatus::TimedOut),
            _ => None,
        },
        ApprovalTransition::InvalidateForRestart => match from {
            ApprovalRequestStatus::Pending | ApprovalRequestStatus::Dispatching => Some(
                ApprovalRequestStatus::Invalidated,
            ),
            _ => None,
        },
    }
}

/// The statuses from which `op` changes a stored request: the store's
/// `WHERE status IN (...)` guard for `op`.
pub fn source_statuses(op: ApprovalTransition) -> (r: Vec<ApprovalRequestStatus>)
    ensures
        forall|s: ApprovalRequestStatus| r@.contains(s) <==> spec_transition(op, s) is Some,
{
    let r = match op {
        ApprovalTransition::Redispatch => vec![
            ApprovalRequestStatus::Invalidated,
            ApprovalRequestStatus::TimedOut,
        ],
        ApprovalTransition::MarkPending => vec![
            ApprovalRequestStatus::Dispatching,
            ApprovalRequestStatus::Resolving,
        ],
        ApprovalTransition::BeginResolution => vec![ApprovalRequestStatus::Pending],
        ApprovalTransition::Resolve(_) => vec![
            ApprovalRequestStatus::Pending,
            ApprovalRequestStatus::Resolving,
        ],
        ApprovalTransition::Invalidate => vec![
            ApprovalRequestStatus::Dispatching,
            ApprovalRequestStatus::Pending,
            ApprovalRequestStatus::Resolving,
        ],
        ApprovalTransition::FailResolving => vec![ApprovalRequestStatus::Resolving],
        ApprovalTransition::Expire => vec![
            ApprovalRequestStatus::Pending,
            ApprovalRequestStatus::Dispatching,
            ApprovalRequestStatus::Resolving,
        ],
        ApprovalTransition::InvalidateForRestart => vec![
            ApprovalRequestStatus::Pending,
            ApprovalRequestStatus::Dispatching,
        ],
    };
    proof {
        assert forall|s: ApprovalRequestStatus| r@.contains(s) <==> spec_transition(op, s) is Some by {
            if spec_transition(op, s) is Some {
                let k: int = choose|k: int| 0 <= k < r@.len() && r@[k] == s;
            }
        }
    }
    r
}

/// A request that was decided (approved or declined) is never changed
/// again by any store operation.
pub proof fn lemma_decided_requests_are_final(op: ApprovalTransition, s: ApprovalRequestStatus)
    requires
        s == ApprovalRequestStatus::Approved || s == ApprovalRequestStatus::Declined,
    ensures
        spec_transition(op, s) is None,
{
}

/// Only invalidated and timed-out requests are dispatched again; a request
/// that is dispatching, pending or resolving keeps its live row.
pub proof fn lemma_only_dead_requests_are_redispatched(s: ApprovalRequestStatus)
    ensures
        spec_transition(ApprovalTransition::Redispatch, s) is Some <==> (s
            == ApprovalRequestStatus::Invalidated || s == ApprovalRequestStatus::TimedOut),
{
}

/// Marking a request pending never revives a request that was decided,
/// invalidated or timed out.
pub proof fn lemma_mark_pending_does_not_revive(s: ApprovalRequestStatus)
    requires
        spec_transition(ApprovalTransition::MarkPending, s) is Some,
    ensures
        s == ApprovalRequestStatus::Dispatching || s == ApprovalRequestStatus::Resolving,
{
}

/// Once its notice is delivered, a request that was just dispatched (or
/// dispatched again) becomes pending, and so does one whose resolution was
/// put back; marking pending only ever yields `pending`, from which a
/// decision can begin.
pub proof fn lemma_delivered_notice_makes_request_pending(s: ApprovalRequestStatus)
    ensures
        spec_transition(ApprovalTransition::MarkPending, ApprovalRequestStatus::Dispatching) == Some(
            ApprovalRequestStatus::Pending,
        ),
        spec_transition(ApprovalTransition::MarkPending, ApprovalRequestStatus::Resolving) == Some(
            ApprovalRequestStatus::Pending,
        ),
        spec_transition(ApprovalTransition::Redispatch, s) matches Some(d) ==> spec_transition(
            ApprovalTransition::MarkPending,
            d,
        ) == Some(ApprovalRequestStatus::Pending),
        spec_transition(ApprovalTransition::MarkPending, s) matches Some(t) ==> t
            == ApprovalRequestStatus::Pending && spec_transition(ApprovalTransition::BeginResolution, t)
            == Some(ApprovalRequestStatus::Resolving),
{
}

/// A decision is recorded only for a request that is pending or being
/// resolved, and the recorded status is the decided one.
pub proof fn lemma_resolution_path(decided: ApprovalRequestStatus)
    ensures
        spec_transition(ApprovalTransition::BeginResolution, ApprovalRequestStatus::Pending)
            == Some(ApprovalRequestStatus::Resolving),
        spec_transition(ApprovalTransition::Resolve(decided), ApprovalRequestStatus::Resolving)
            == Some(decided),
        forall|s: ApprovalRequestStatus|
            spec_transition(ApprovalTransition::Resolve(decided), s) is Some ==> (s
                == ApprovalRequestStatus::Pending || s == ApprovalRequestStatus::Resolving),
{
}

/// Every stored name reads back as the state, kind, status or transport it
/// was written from.
pub proof fn lemma_names_are_distinct()
    ensures
        forall|a: LaneState, b: LaneState| a.name() == b.name() ==> a == b,
        forall|a: ApprovalRequestKind, b: ApprovalRequestKind| a.name() == b.name() ==> a == b,
        forall|a: ApprovalRequestStatus, b: ApprovalRequestStatus| a.name() == b.name() ==> a == b,
        forall|a: ApprovalRequestTransport, b: ApprovalRequestTransport|
            a.name() == b.name() ==> a == b,
{
        reveal_strlit("running");
        reveal_strlit("waiting_reply");
        reveal_strlit("idle");
        reveal_strlit("needs_local_approval");
        reveal_strlit("failed");
        reveal_strlit("command_execution");
        reveal_strlit("file_change");
        reveal_strlit("permissions");
        reveal_strlit("tool_user_input");
        reveal_strlit("dispatching");
        reveal_strlit("pending");
        reveal_strlit("resolving");
        reveal_strlit("invalidated");
        reveal_strlit("approved");
        reveal_strlit("declined");
        reveal_strlit("timed_out");
        reveal_strlit("app_server");
        reveal_strlit("exec");
    assert forall|a: LaneState, b: LaneState| a.name() == b.name() implies a == b by {
        assert(a.name().len() == b.name().len());
    }
    assert forall|a: ApprovalRequestKind, b: ApprovalRequestKind| a.name() == b.name() implies a
        == b by {
        assert(a.name().len() == b.name().len());
        assert(a.name()[0] == b.name()[0]);
    }
    assert forall|a: ApprovalRequestStatus, b: ApprovalRequestStatus| a.name() == b.name() implies a
        == b by {
        assert(a.name().len() == b.name().len());
        assert(a.name()[0] == b.name()[0]);
    }
    assert forall|a: ApprovalRequestTransport, b: ApprovalRequestTransport| a.name() == b.name()
        implies a == b by {
        assert(a.name().len() == b.name().len());
    }
}

// ---------------------------------------------------------------------------
// Lane and run rows when a request cannot continue
// ---------------------------------------------------------------------------

/// The columns of a run row that its end sets.
#[derive(Debug, Clone, PartialEq, Eq)]
pub struct RunEnding {
    pub ended_at_ms: Option<i64>,
    pub completion_reason: Option<String>,
    pub approval_pending: bool,
}

pub open spec fn ended_at(run: RunEnding, now_ms: i64) -> Option<i64> {
    match run.ended_at_ms {
        Some(t) => Some(t),
        None => Some(now_ms),
    }
}

pub open spec fn reason_is(run: RunEnding, reason: Seq<char>) -> bool {
    run.completion_reason matches Some(c) && c@ == reason
}

/// A run that a restart cut off: it ends now unless it had ended, it keeps
/// a `failed` reason and is otherwise `restarted`, and it waits for no
/// approval.
pub fn run_after_restart(run: &RunEnding, now_ms: i64) -> (r: RunEnding)
    ensures
        r.ended_at_ms == ended_at(*run, now_ms),
        reason_is(r, if reason_is(*run, "failed"@) { "failed"@ } else { "restarted"@ }),
        !r.approval_pending,
{
    let failed = match &run.completion_reason {
        Some(c) => crate::text::string_eq(c.as_str(), "failed"),
        None => false,
    };
    RunEnding {
        ended_at_ms: match run.ended_at_ms {
            Some(t) => Some(t),
            None => Some(now_ms),
        },
        completion_reason: Some(
            if failed {
                str_of("failed")
            } else {
                str_of("restarted")
            },
        ),
        approval_pending: false,
    }
}

/// A run whose request could not be continued: it ends now unless it had
/// ended, as `failed`, and waits for no approval.
pub fn run_after_failure(run: &RunEnding, now_ms: i64) -> (r: RunEnding)
    ensures
        r.ended_at_ms == ended_at(*run, now_ms),
        reason_is(r, "failed"@),
        !r.approval_pending,
{
    RunEnding {
        ended_at_ms: match run.ended_at_ms {
            Some(t) => Some(t),
            None => Some(now_ms),
        },
        completion_reason: Some(str_of("failed")),
        approval_pending: false,
    }
}

/// The lane fields that change; everything else of the lane stays.
pub open spec fn same_lane_but_state(a: LaneRecord, b: LaneRecord) -> bool {
    &&& a.lane_id@ == b.lane_id@
    &&& a.chat_id == b.chat_id
    &&& a.thread_key@ == b.thread_key@
    &&& a.workspace_id@ == b.workspace_id@
    &&& a.mode == b.mode
    &&& a.extra_turn_budget == b.extra_turn_budget
}

/// A lane after a restart dropped its pending request: a failed lane stays
/// as it is; any other waits for a reply with no Codex session.
pub fn lane_after_restart(lane: &LaneRecord) -> (r: LaneRecord)
    ensures
        same_lane_but_state(r, *lane),
        lane.state == LaneState::Failed ==> r.state == LaneState::Failed && r.codex_session_id
            == lane.codex_session_id && r.waiting_since_ms == lane.waiting_since_ms,
        lane.state != LaneState::Failed ==> r.state == LaneState::WaitingReply && r.codex_session_id
            is None && r.waiting_since_ms is None,
{
    let failed = lane.state == LaneState::Failed;
    LaneRecord {
        lane_id: lane.lane_id.clone(),
        chat_id: lane.chat_id,
        thread_key: lane.thread_key.clone(),
        workspace_id: lane.workspace_id.clone(),
        mode: lane.mode,
        state: if failed {
            LaneState::Failed
        } else {
            LaneState::WaitingReply
        },
        codex_session_id: if failed {
            lane.codex_session_id.clone()
        } else {
            None
        },
        extra_turn_budget: lane.extra_turn_budget,
        waiting_since_ms: if failed {
            lane.waiting_since_ms
        } else {
            None
        },
    }
}

/// A lane whose request could not be continued: failed, with no Codex
/// session and no waiting time.
pub fn lane_after_failure(lane: &LaneRecord) -> (r: LaneRecord)
    ensures
        same_lane_but_state(r, *lane),
        r.state == LaneState::Failed,
        r.codex_session_id is None,
        r.waiting_since_ms is None,
{
    LaneRecord {
        lane_id: lane.lane_id.clone(),
        chat_id: lane.chat_id,
        thread_key: lane.thread_key.clone(),
        workspace_id: lane.workspace_id.clone(),
        mode: lane.mode,
        state: LaneState::Failed,
        codex_session_id: None,
        extra_turn_budget: lane.extra_turn_budget,
        waiting_since_ms: None,
    }
}

} // verus!
