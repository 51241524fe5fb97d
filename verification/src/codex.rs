//! Requests handed to Codex and the outcome of a Codex turn.
use vstd::prelude::*;

use crate::app_server::CodexApprovalRequest;
use crate::config::{CodexConfig, WorkspaceConfig};
use crate::json::{jget, jget_str, Json, JsonView};
use crate::text::{str_of, str_views, string_eq, string_of, trim, trim_str};

verus! {

#[derive(Debug, Clone)]
pub struct CodexOutcome {
    pub session_id: Option<String>,
    pub turn_id: Option<String>,
    pub last_message: String,
    pub exit_code: Option<i32>,
    pub approval_pending: bool,
    pub approval_requests: Vec<CodexApprovalRequest>,
    pub approval_request_count: i64,
    pub approval_resolved_count: i64,
}

/// A prompt for Codex, with the local paths of attached images.
#[derive(Debug, Clone)]
pub struct CodexRequest {
    pub prompt: String,
    pub image_paths: Vec<String>,
}

/// The command-line arguments of a request: the prompt, then `--image <path>`
/// for each image.
pub open spec fn spec_request_args(prompt: Seq<char>, images: Seq<Seq<char>>) -> Seq<Seq<char>>
    decreases images.len(),
{
    if images.len() == 0 {
        seq![prompt]
    } else {
        spec_request_args(prompt, images.drop_last()) + seq!["--image"@, images.last()]
    }
}

impl CodexRequest {
    pub fn new(prompt: String) -> (r: Self)
        ensures
            r.prompt@ == prompt@,
            r.image_paths@.len() == 0,
    {
        CodexRequest { prompt, image_paths: Vec::new() }
    }

    pub fn with_images(prompt: String, image_paths: Vec<String>) -> (r: Self)
        ensures
            r.prompt@ == prompt@,
            r.image_paths@ == image_paths@,
    {
        CodexRequest { prompt, image_paths }
    }

    pub fn into_args(self) -> (r: Vec<String>)
        ensures
            str_views(r@) == spec_request_args(self.prompt@, str_views(self.image_paths@)),
    {
        let mut args: Vec<String> = Vec::new();
        let ghost prompt = self.prompt@;
        let ghost images = str_views(self.image_paths@);
        args.push(self.prompt);
        let mut i: usize = 0;
        while i < self.image_paths.len()
            invariant
                i <= self.image_paths.len(),
                images == str_views(self.image_paths@),
                str_views(args@) == spec_request_args(prompt, images.take(i as int)),
            decreases self.image_paths.len() - i,
        {
            let ghost before = args@;
            args.push(str_of("--image"));
            args.push(self.image_paths[i].clone());
            proof {
                assert(images.take(i + 1).drop_last() =~= images.take(i as int));
                assert(str_views(args@) =~= str_views(before) + seq!["--image"@, images[i as int]]);
            }
            i = i + 1;
        }
        assert(images.take(self.image_paths.len() as int) =~= images);
        args
    }
}

/// The arguments of `codex exec` for a workspace: JSON output, the sandbox
/// and approval policy, the workspace directory, then the model and the
/// profile when they are not blank.
pub open spec fn spec_base_args(config: CodexConfig, workspace_path: Seq<char>) -> Seq<Seq<char>> {
    seq![
        "exec"@,
        "--json"@,
        "--skip-git-repo-check"@,
        "--sandbox"@,
        config.sandbox@,
        "--config"@,
        "approval_policy=\""@ + config.approval@ + "\""@,
        "--cd"@,
        workspace_path,
    ] + (if trim(config.model@).len() > 0 {
        seq!["--model"@, trim(config.model@)]
    } else {
        Seq::empty()
    }) + match config.profile {
        Some(p) => if trim(p@).len() > 0 {
            seq!["--profile"@, trim(p@)]
        } else {
            Seq::empty()
        },
        None => Seq::empty(),
    }
}

pub fn base_args(config: &CodexConfig, workspace: &WorkspaceConfig) -> (r: Vec<String>)
    ensures
        str_views(r@) == spec_base_args(*config, workspace.path@),
{
    let mut policy = str_of("approval_policy=\"");
    policy.append(config.approval.as_str());
    policy.append("\"");
    let mut args = vec![
        str_of("exec"),
        str_of("--json"),
        str_of("--skip-git-repo-check"),
        str_of("--sandbox"),
        config.sandbox.clone(),
        str_of("--config"),
        policy,
        str_of("--cd"),
        workspace.path.clone(),
    ];
    let ghost head = str_views(args@);
    assert(head =~= seq![
        "exec"@,
        "--json"@,
        "--skip-git-repo-check"@,
        "--sandbox"@,
        config.sandbox@,
        "--config"@,
        "approval_policy=\""@ + config.approval@ + "\""@,
        "--cd"@,
        workspace.path@,
    ]);
    let model = trim_str(config.model.as_str());
    if model.len() > 0 {
        args.push(str_of("--model"));
        args.push(string_of(model.as_slice()));
    }
    let ghost with_model = str_views(args@);
    assert(with_model =~= head + (if trim(config.model@).len() > 0 {
        seq!["--model"@, trim(config.model@)]
    } else {
        Seq::<Seq<char>>::empty()
    }));
    match &config.profile {
        Some(p) => {
            let t = trim_str(p.as_str());
            if t.len() > 0 {
                args.push(str_of("--profile"));
                args.push(string_of(t.as_slice()));
            }
        },
        None => {},
    }
    assert(str_views(args@) =~= spec_base_args(*config, workspace.path@));
    args
}

pub open spec fn spec_exec_session(parsed: JsonView) -> Option<Seq<char>> {
    match jget(parsed, "session_id"@) {
        Some(v) => crate::json::jstr(Some(v)),
        None => jget_str(parsed, "thread_id"@),
    }
}

/// The message text an event carries: a completed agent message item, or
/// the last agent message of a completed task (which wins).
pub open spec fn spec_event_message(parsed: JsonView, current: Seq<char>) -> Seq<char> {
    let after_item = if jget_str(parsed, "type"@) == Some("item.completed"@) {
        match jget(parsed, "item"@) {
            Some(item) => if jget_str(item, "type"@) == Some("agent_message"@) {
                match jget_str(item, "text"@) {
                    Some(t) => t,
                    None => current,
                }
            } else {
                current
            },
            None => current,
        }
    } else {
        current
    };
    match jget(parsed, "msg"@) {
        Some(msg) => if jget_str(msg, "type"@) == Some("task_complete"@) {
            match jget_str(msg, "last_agent_message"@) {
                Some(t) => t,
                None => after_item,
            }
        } else {
            after_item
        },
        None => after_item,
    }
}

pub open spec fn spec_event_requests_approval(parsed: JsonView) -> bool {
    match jget(parsed, "msg"@) {
        Some(msg) => jget_str(msg, "type"@) == Some("exec_approval_request"@) || jget_str(
            msg,
            "type"@,
        ) == Some("apply_patch_approval_request"@),
        None => false,
    }
}

/// Folds one JSON event of `codex exec` into what was reported so far: the
/// first session id stays, the latest agent message replaces the previous
/// one, and an approval request is remembered.
pub fn parse_exec_stdout_event(
    parsed: &Json,
    session_id: &mut Option<String>,
    last_message: &mut String,
    approval_pending: &mut bool,
)
    ensures
        crate::telegram::opt_str_view(*final(session_id)) == match *old(session_id) {
            Some(s) => Some(s@),
            None => spec_exec_session(parsed@),
        },
        final(last_message)@ == spec_event_message(parsed@, old(last_message)@),
        *final(approval_pending) == (*old(approval_pending) || spec_event_requests_approval(
            parsed@,
        )),
{
    if session_id.is_none() {
        *session_id = match parsed.get("session_id") {
            Some(v) => match v.as_str() {
                Some(s) => Some(s.clone()),
                None => None,
            },
            None => match parsed.get_str("thread_id") {
                Some(s) => Some(s.clone()),
                None => None,
            },
        };
    }
    let is_item_completed = match parsed.get_str("type") {
        Some(t) => string_eq(t.as_str(), "item.completed"),
        None => false,
    };
    if is_item_completed {
        match parsed.get("item") {
            Some(item) => {
                let is_agent = match item.get_str("type") {
                    Some(t) => string_eq(t.as_str(), "agent_message"),
                    None => false,
                };
                if is_agent {
                    match item.get_str("text") {
                        Some(text) => {
                            *last_message = text.clone();
                        },
                        None => {},
                    }
                }
            },
            None => {},
        }
    }
    match parsed.get("msg") {
        Some(msg) => {
            let kind = msg.get_str("type");
            let is_complete = match kind {
                Some(k) => string_eq(k.as_str(), "task_complete"),
                None => false,
            };
            if is_complete {
                match msg.get_str("last_agent_message") {
                    Some(text) => {
                        *last_message = text.clone();
                    },
                    None => {},
                }
            }
            let asks = match kind {
                Some(k) => string_eq(k.as_str(), "exec_approval_request") || string_eq(
                    k.as_str(),
                    "apply_patch_approval_request",
                ),
                None => false,
            };
            if asks {
                *approval_pending = true;
            }
        },
        None => {},
    }
}

} // verus!
