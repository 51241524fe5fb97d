//! Telegram chat commands, callback buttons and update normalization.
use vstd::prelude::*;

use crate::text::{
    chars_of, eq_ignore_case, eq_ignore_case_str, find_char, first_index_of, lower_seq, non_ws_pred,
    parse_i64, parsed_i64, skip_from, skip_non_ws_index, skip_ws_index, split_ws, string_of, subvec,
    to_lower_vec, trim, trim_ws, views, words, ws_pred, split_once, split_once_char, eq_str,
    is_ws, lemma_first_index_of, lemma_skip_from_bounds, lemma_trim_identity, int_str, i64_string,
    join, join_strings, str_of, str_views, trim_str,
};

verus! {

#[derive(Debug, Clone, PartialEq, Eq)]
pub enum TelegramControlCommand {
    Help,
    Status,
    Stop,
    Approve { request_id: String },
    Deny { request_id: String },
    Workspace { workspace_id: Option<String> },
    Sessions { thread_id: Option<String> },
    Mode { mode: String, max_turns: Option<i64> },
    /// `/answer <request_id> <value>`: the answer to a Codex input request.
    Answer { request_id: String, value: String },
}

/// The mathematical content of a control command.
pub enum ControlCommandView {
    Help,
    Status,
    Stop,
    Approve(Seq<char>),
    Deny(Seq<char>),
    Workspace(Option<Seq<char>>),
    Sessions(Option<Seq<char>>),
    Mode(Seq<char>, Option<i64>),
    Answer(Seq<char>, Seq<char>),
}

pub open spec fn opt_str_view(o: Option<String>) -> Option<Seq<char>> {
    match o {
        Some(s) => Some(s@),
        None => None,
    }
}

impl View for TelegramControlCommand {
    type V = ControlCommandView;

    open spec fn view(&self) -> ControlCommandView {
        match self {
            TelegramControlCommand::Help => ControlCommandView::Help,
            TelegramControlCommand::Status => ControlCommandView::Status,
            TelegramControlCommand::Stop => ControlCommandView::Stop,
            TelegramControlCommand::Approve { request_id } => ControlCommandView::Approve(
                request_id@,
            ),
            TelegramControlCommand::Deny { request_id } => ControlCommandView::Deny(request_id@),
            TelegramControlCommand::Workspace { workspace_id } => ControlCommandView::Workspace(
                opt_str_view(*workspace_id),
            ),
            TelegramControlCommand::Sessions { thread_id } => ControlCommandView::Sessions(
                opt_str_view(*thread_id),
            ),
            TelegramControlCommand::Mode { mode, max_turns } => ControlCommandView::Mode(
                mode@,
                *max_turns,
            ),
            TelegramControlCommand::Answer { request_id, value } => ControlCommandView::Answer(
                request_id@,
                value@,
            ),
        }
    }
}

pub open spec fn opt_cmd_view(o: Option<TelegramControlCommand>) -> Option<ControlCommandView> {
    match o {
        Some(c) => Some(c@),
        None => None,
    }
}

/// The command name of a token such as `/status@remotty_bot`: the text after
/// the leading `/` and before the first `@`, if that is not empty.
pub open spec fn spec_command_name(token: Seq<char>) -> Option<Seq<char>> {
    if token.len() > 0 && token[0] == '/' {
        let t = token.drop_first();
        let name = if t.contains('@') {
            t.take(first_index_of(t, '@').unwrap())
        } else {
            t
        };
        if name.len() == 0 {
            None
        } else {
            Some(name)
        }
    } else {
        None
    }
}

/// The single argument of `/approve <id>` and `/deny <id>`.
pub open spec fn spec_single_id(parts: Seq<Seq<char>>) -> Option<Seq<char>> {
    if parts.len() == 0 {
        None
    } else if trim(parts[0]).len() == 0 || parts.len() > 1 {
        None
    } else {
        Some(trim(parts[0]))
    }
}

pub open spec fn spec_mode_command(parts: Seq<Seq<char>>) -> Option<ControlCommandView> {
    if parts.len() == 0 {
        None
    } else {
        let mode = lower_seq(trim(parts[0]));
        if mode.len() == 0 {
            None
        } else if parts.len() >= 2 {
            if !eq_ignore_case(mode, "max_turns"@) || parts.len() > 2 {
                None
            } else {
                match parsed_i64(parts[1]) {
                    None => None,
                    Some(n) => if n <= 0 {
                        None
                    } else {
                        Some(ControlCommandView::Mode(mode, Some(n)))
                    },
                }
            }
        } else {
            Some(ControlCommandView::Mode(mode, None))
        }
    }
}

/// `/answer <request_id> <value>`: the first word of the arguments is the
/// request id, the rest of them, trimmed, the value (which may span lines).
pub open spec fn spec_answer_command(rest: Seq<char>) -> Option<ControlCommandView> {
    let e = skip_from(rest, 0, non_ws_pred());
    let value = trim(rest.skip(e));
    if e == 0 || value.len() == 0 {
        None
    } else {
        Some(ControlCommandView::Answer(rest.take(e), value))
    }
}

/// What a chat message means as a control command.
///
/// The message is trimmed; its first word must be `/<name>` or
/// `/<name>@<bot>`; the words after it are the arguments.
#[verifier::opaque]
pub open spec fn spec_parse_control_command(text: Seq<char>) -> Option<ControlCommandView> {
    let t = trim(text);
    let a = skip_from(t, 0, ws_pred());
    if a >= t.len() {
        None
    } else {
        let e = skip_from(t, a, non_ws_pred());
        let token = t.subrange(a, e);
        match spec_command_name(token) {
            None => None,
            Some(command) => {
                let rest = trim(t.skip(e));
                let parts = words(rest);
                if eq_ignore_case(command, "help"@) {
                    if parts.len() == 0 {
                        Some(ControlCommandView::Help)
                    } else {
                        None
                    }
                } else if eq_ignore_case(command, "status"@) {
                    if parts.len() == 0 {
                        Some(ControlCommandView::Status)
                    } else {
                        None
                    }
                } else if eq_ignore_case(command, "stop"@) {
                    if parts.len() == 0 {
                        Some(ControlCommandView::Stop)
                    } else {
                        None
                    }
                } else if eq_ignore_case(command, "approve"@) {
                    match spec_single_id(parts) {
                        Some(id) => Some(ControlCommandView::Approve(id)),
                        None => None,
                    }
                } else if eq_ignore_case(command, "deny"@) {
                    match spec_single_id(parts) {
                        Some(id) => Some(ControlCommandView::Deny(id)),
                        None => None,
                    }
                } else if eq_ignore_case(command, "workspace"@) {
                    if parts.len() > 1 {
                        None
                    } else if parts.len() == 1 && trim(parts[0]).len() > 0 {
                        Some(ControlCommandView::Workspace(Some(trim(parts[0]))))
                    } else {
                        Some(ControlCommandView::Workspace(None))
                    }
                } else if eq_ignore_case(command, "sessions"@) || eq_ignore_case(
                    command,
                    "remotty-sessions"@,
                ) {
                    if rest.len() > 0 {
                        Some(ControlCommandView::Sessions(Some(rest)))
                    } else {
                        Some(ControlCommandView::Sessions(None))
                    }
                } else if eq_ignore_case(command, "mode"@) {
                    spec_mode_command(parts)
                } else if eq_ignore_case(command, "answer"@) {
                    spec_answer_command(rest)
                } else {
                    None
                }
            },
        }
    }
}

/// `/name@bot` to `name`.
pub fn parse_control_command_name(token: &Vec<char>) -> (r: Option<Vec<char>>)
    ensures
        match r {
            Some(n) => spec_command_name(token@) == Some(n@),
            None => spec_command_name(token@) is None,
        },
{
    if token.len() == 0 || token[0] != '/' {
        return None;
    }
    let t = subvec(token, 1, token.len());
    assert(t@ =~= token@.drop_first());
    let name = match find_char(&t, '@') {
        Some(i) => {
            proof {
                assert(t@.contains('@')) by {
                    assert(t@[i as int] == '@');
                }
                let j = first_index_of(t@, '@').unwrap();
                assert(0 <= j < t@.len() && t@[j] == '@' && forall|k: int|
                    0 <= k < j ==> t@[k] != '@');
                if j < i {
                    assert(t@[j] != '@');
                }
                if i < j {
                    assert(t@[i as int] != '@');
                }
                assert(j == i);
            }
            subvec(&t, 0, i)
        },
        None => t,
    };
    if name.len() == 0 {
        None
    } else {
        Some(name)
    }
}

fn single_id(parts: &Vec<Vec<char>>) -> (r: Option<String>)
    ensures
        opt_str_view(r) == spec_single_id(views(parts@)),
{
    if parts.len() == 0 {
        return None;
    }
    let id = trim_ws(&parts[0]);
    assert(views(parts@)[0] == parts@[0]@);
    if id.len() == 0 || parts.len() > 1 {
        return None;
    }
    Some(string_of(id.as_slice()))
}

fn mode_command(parts: &Vec<Vec<char>>) -> (r: Option<TelegramControlCommand>)
    ensures
        opt_cmd_view(r) == spec_mode_command(views(parts@)),
{
    if parts.len() == 0 {
        return None;
    }
    assert(views(parts@)[0] == parts@[0]@);
    let trimmed = trim_ws(&parts[0]);
    let mode = to_lower_vec(&trimmed);
    if mode.len() == 0 {
        return None;
    }
    if parts.len() >= 2 {
        assert(views(parts@)[1] == parts@[1]@);
        if !eq_ignore_case_str(&mode, "max_turns") || parts.len() > 2 {
            return None;
        }
        match parse_i64(&parts[1]) {
            None => None,
            Some(n) => {
                if n <= 0 {
                    None
                } else {
                    Some(TelegramControlCommand::Mode { mode: string_of(mode.as_slice()), max_turns: Some(n) })
                }
            },
        }
    } else {
        Some(TelegramControlCommand::Mode { mode: string_of(mode.as_slice()), max_turns: None })
    }
}

fn answer_command(rest: &Vec<char>) -> (r: Option<TelegramControlCommand>)
    ensures
        opt_cmd_view(r) == spec_answer_command(rest@),
{
    let e = skip_non_ws_index(rest, 0);
    let after = subvec(rest, e, rest.len());
    assert(after@ =~= rest@.skip(e as int));
    let value = trim_ws(&after);
    if e == 0 || value.len() == 0 {
        return None;
    }
    let id = subvec(rest, 0, e);
    assert(id@ =~= rest@.take(e as int));
    Some(
        TelegramControlCommand::Answer {
            request_id: string_of(id.as_slice()),
            value: string_of(value.as_slice()),
        },
    )
}

fn parse_control_command_chars(text: &Vec<char>) -> (r: Option<TelegramControlCommand>)
    ensures
        opt_cmd_view(r) == spec_parse_control_command(text@),
{
    reveal(spec_parse_control_command);
    let t = trim_ws(text);
    let a = skip_ws_index(&t, 0);
    if a >= t.len() {
        return None;
    }
    let e = skip_non_ws_index(&t, a);
    let token = subvec(&t, a, e);
    let command = match parse_control_command_name(&token) {
        None => {
            return None;
        },
        Some(c) => c,
    };
    let after = subvec(&t, e, t.len());
    assert(after@ =~= t@.skip(e as int));
    let rest = trim_ws(&after);
    let parts = split_ws(&rest);
    if eq_ignore_case_str(&command, "help") {
        if parts.len() == 0 {
            Some(TelegramControlCommand::Help)
        } else {
            None
        }
    } else if eq_ignore_case_str(&command, "status") {
        if parts.len() == 0 {
            Some(TelegramControlCommand::Status)
        } else {
            None
        }
    } else if eq_ignore_case_str(&command, "stop") {
        if parts.len() == 0 {
            Some(TelegramControlCommand::Stop)
        } else {
            None
        }
    } else if eq_ignore_case_str(&command, "approve") {
        match single_id(&parts) {
            Some(id) => Some(TelegramControlCommand::Approve { request_id: id }),
            None => None,
        }
    } else if eq_ignore_case_str(&command, "deny") {
        match single_id(&parts) {
            Some(id) => Some(TelegramControlCommand::Deny { request_id: id }),
            None => None,
        }
    } else if eq_ignore_case_str(&command, "workspace") {
        if parts.len() > 1 {
            None
        } else if parts.len() == 1 {
            assert(views(parts@)[0] == parts@[0]@);
            let id = trim_ws(&parts[0]);
            if id.len() > 0 {
                Some(TelegramControlCommand::Workspace { workspace_id: Some(string_of(id.as_slice())) })
            } else {
                Some(TelegramControlCommand::Workspace { workspace_id: None })
            }
        } else {
            Some(TelegramControlCommand::Workspace { workspace_id: None })
        }
    } else if eq_ignore_case_str(&command, "sessions") || eq_ignore_case_str(
        &command,
        "remotty-sessions",
    ) {
        if rest.len() > 0 {
            Some(TelegramControlCommand::Sessions { thread_id: Some(string_of(rest.as_slice())) })
        } else {
            Some(TelegramControlCommand::Sessions { thread_id: None })
        }
    } else if eq_ignore_case_str(&command, "mode") {
        mode_command(&parts)
    } else if eq_ignore_case_str(&command, "answer") {
        answer_command(&rest)
    } else {
        None
    }
}

/// Reads a chat message as a control command such as `/status` or `/approve <id>`.
pub fn parse_control_command(text: &str) -> (r: Option<TelegramControlCommand>)
    ensures
        opt_cmd_view(r) == spec_parse_control_command(text@),
        r matches Some(TelegramControlCommand::Mode { max_turns: Some(n), .. }) ==> n > 0,
{
    reveal(spec_parse_control_command);
    let v = chars_of(text);
    parse_control_command_chars(&v)
}

impl TelegramControlCommand {
    pub fn parse(text: &str) -> (r: Option<Self>)
        ensures
            opt_cmd_view(r) == spec_parse_control_command(text@),
    {
        parse_control_command(text)
    }
}


/// What the data of a pressed inline button means: a control command, or
/// `approve:<id>` / `deny:<id>`.
pub open spec fn spec_parse_callback_command(text: Seq<char>) -> Option<ControlCommandView> {
    match spec_parse_control_command(text) {
        Some(c) => Some(c),
        None => match split_once(text, ':') {
            None => None,
            Some((command, id)) => {
                let name = lower_seq(trim(command));
                let request_id = trim(id);
                if request_id.len() == 0 {
                    None
                } else if name == "approve"@ {
                    Some(ControlCommandView::Approve(request_id))
                } else if name == "deny"@ {
                    Some(ControlCommandView::Deny(request_id))
                } else {
                    None
                }
            },
        },
    }
}

/// A text that starts with neither whitespace nor `/` is no control command.
pub proof fn lemma_plain_text_is_not_command(data: Seq<char>)
    requires
        data.len() > 0,
        !is_ws(data[0]),
        data[0] != '/',
        !is_ws(data[data.len() - 1]),
    ensures
        spec_parse_control_command(data) is None,
{
    reveal(spec_parse_control_command);
    lemma_trim_identity(data);
    let t = trim(data);
    assert(skip_from(t, 0, ws_pred()) == 0);
    let e = skip_from(t, 0, non_ws_pred());
    lemma_skip_from_bounds(t, 0, non_ws_pred());
    assert(e >= 1);
    assert(t.subrange(0, e)[0] == data[0]);
    assert(spec_command_name(t.subrange(0, e)) is None);
}

/// The data `approve:<id>` (or `deny:<id>`) of a button reads as the decision on
/// `<id>`, for an `<id>` that neither starts nor ends with whitespace.
#[verifier::rlimit(100)]
pub proof fn lemma_decision_button_data(approve: bool, id: Seq<char>)
    requires
        id.len() > 0,
        !is_ws(id[0]),
        !is_ws(id[id.len() - 1]),
    ensures
        spec_parse_callback_command(
            (if approve {
                "approve:"@
            } else {
                "deny:"@
            }) + id,
        ) == Some(
            if approve {
                ControlCommandView::Approve(id)
            } else {
                ControlCommandView::Deny(id)
            },
        ),
{
    reveal_strlit("approve:");
    reveal_strlit("deny:");
    reveal_strlit("approve");
    reveal_strlit("deny");
    let prefix: Seq<char> = if approve {
        "approve:"@
    } else {
        "deny:"@
    };
    let name: Seq<char> = if approve {
        "approve"@
    } else {
        "deny"@
    };
    let data = prefix + id;
    assert(data[data.len() - 1] == id[id.len() - 1]);
    assert(spec_parse_control_command(data) is None) by {
        lemma_plain_text_is_not_command(data);
    }
    let i = (prefix.len() - 1) as int;
    lemma_first_index_of(data, ':', i);
    assert(data.take(i) =~= name);
    assert(data.skip(i + 1) =~= id);
    lemma_trim_identity(name);
    assert(lower_seq(name) =~= name);
    lemma_trim_identity(id);
}

pub fn parse_callback_command(text: &str) -> (r: Option<TelegramControlCommand>)
    ensures
        opt_cmd_view(r) == spec_parse_callback_command(text@),
{
    let v = chars_of(text);
    match parse_control_command_chars(&v) {
        Some(c) => {
            return Some(c);
        },
        None => {},
    }
    match split_once_char(&v, ':') {
        None => None,
        Some((command, id)) => {
            let t = trim_ws(&command);
            let name = to_lower_vec(&t);
            let request_id = trim_ws(&id);
            if request_id.len() == 0 {
                None
            } else if eq_str(&name, "approve") {
                Some(TelegramControlCommand::Approve { request_id: string_of(request_id.as_slice()) })
            } else if eq_str(&name, "deny") {
                Some(TelegramControlCommand::Deny { request_id: string_of(request_id.as_slice()) })
            } else {
                None
            }
        },
    }
}

pub fn clone_command(c: &TelegramControlCommand) -> (r: TelegramControlCommand)
    ensures
        r@ == c@,
{
    match c {
        TelegramControlCommand::Help => TelegramControlCommand::Help,
        TelegramControlCommand::Status => TelegramControlCommand::Status,
        TelegramControlCommand::Stop => TelegramControlCommand::Stop,
        TelegramControlCommand::Approve { request_id } => TelegramControlCommand::Approve {
            request_id: request_id.clone(),
        },
        TelegramControlCommand::Deny { request_id } => TelegramControlCommand::Deny {
            request_id: request_id.clone(),
        },
        TelegramControlCommand::Workspace { workspace_id } => TelegramControlCommand::Workspace {
            workspace_id: match workspace_id {
                Some(w) => Some(w.clone()),
                None => None,
            },
        },
        TelegramControlCommand::Sessions { thread_id } => TelegramControlCommand::Sessions {
            thread_id: match thread_id {
                Some(t) => Some(t.clone()),
                None => None,
            },
        },
        TelegramControlCommand::Mode { mode, max_turns } => TelegramControlCommand::Mode {
            mode: mode.clone(),
            max_turns: *max_turns,
        },
        TelegramControlCommand::Answer { request_id, value } => TelegramControlCommand::Answer {
            request_id: request_id.clone(),
            value: value.clone(),
        },
    }
}

#[derive(Debug, Clone, Copy, PartialEq, Eq, Structural)]
pub enum TelegramAttachmentKind {
    Photo,
    Document,
}

#[derive(Debug, Clone, PartialEq, Eq)]
pub struct TelegramAttachment {
    pub kind: TelegramAttachmentKind,
    pub file_id: String,
    pub file_unique_id: String,
    pub file_name: Option<String>,
    pub mime_type: Option<String>,
    pub file_size: Option<i64>,
    pub width: Option<i64>,
    pub height: Option<i64>,
}

#[derive(Debug, Clone, PartialEq, Eq)]
pub struct TelegramRemoteFile {
    pub file_id: String,
    pub file_unique_id: String,
    pub file_path: String,
    pub file_size: Option<i64>,
}

/// An attachment after it was saved under `local_path`.
#[derive(Debug, Clone, PartialEq, Eq)]
pub struct SavedTelegramAttachment {
    pub attachment: TelegramAttachment,
    pub remote_file: TelegramRemoteFile,
    pub local_path: String,
    pub bytes_written: usize,
}

#[derive(Debug, Clone, PartialEq, Eq)]
pub struct TelegramBotInfo {
    pub id: i64,
    pub username: Option<String>,
}

#[derive(Debug, Clone, PartialEq, Eq)]
pub struct TelegramWebhookInfo {
    pub url: String,
}

#[derive(Debug, Clone)]
pub struct SendMessageResult {
    pub message_id: i64,
}

#[derive(Debug, Clone, PartialEq, Eq)]
pub struct InlineKeyboardButton {
    pub text: String,
    pub callback_data: String,
}


// ---------------------------------------------------------------------------
// Updates from `getUpdates`
// ---------------------------------------------------------------------------

/// The reply of a Telegram Bot API method.
pub struct ApiResponse<T> {
    pub ok: bool,
    pub result: T,
}

pub struct Update {
    pub update_id: i64,
    pub message: Option<Message>,
    pub edited_message: Option<Message>,
    pub callback_query: Option<CallbackQuery>,
}

/// A chat message, with the JSON text under which the bridge records it.
pub struct Message {
    pub message_id: i64,
    pub date: Option<i64>,
    pub text: Option<String>,
    pub caption: Option<String>,
    pub chat: Chat,
    pub from: Option<User>,
    pub message_thread_id: Option<i64>,
    pub photo: Option<Vec<PhotoSize>>,
    pub document: Option<Document>,
    pub payload_json: String,
}

pub struct Chat {
    pub id: i64,
    pub kind: String,
}

pub struct User {
    pub id: i64,
}

/// A pressed inline button, with the JSON text under which the bridge records it.
pub struct CallbackQuery {
    pub id: String,
    pub from: User,
    pub data: Option<String>,
    pub message: Option<Message>,
    pub payload_json: String,
}

pub struct PhotoSize {
    pub file_id: String,
    pub file_unique_id: String,
    pub width: i64,
    pub height: i64,
    pub file_size: Option<i64>,
}

pub struct Document {
    pub file_id: String,
    pub file_unique_id: String,
    pub file_name: Option<String>,
    pub mime_type: Option<String>,
    pub file_size: Option<i64>,
}

#[derive(Debug, Clone)]
pub struct IncomingMessage {
    pub update_id: i64,
    pub chat_id: i64,
    pub chat_type: String,
    pub sender_id: Option<i64>,
    pub text: String,
    pub attachments: Vec<TelegramAttachment>,
    pub telegram_message_id: i64,
    pub thread_key: String,
    pub callback_query_id: Option<String>,
    pub control_command_override: Option<TelegramControlCommand>,
    pub payload_json: String,
}

#[derive(Debug, Clone, PartialEq, Eq)]
pub struct PairingUpdate {
    pub update_id: i64,
    pub message: PairingMessage,
}

#[derive(Debug, Clone, PartialEq, Eq)]
pub struct PairingMessage {
    pub chat_id: i64,
    pub chat_type: String,
    pub sender_id: i64,
    pub text: String,
    pub sent_at_s: i64,
}

impl IncomingMessage {
    /// The command of the message: the one its button carried, else the one
    /// its text states.
    pub fn control_command(&self) -> (r: Option<TelegramControlCommand>)
        ensures
            opt_cmd_view(r) == match self.control_command_override {
                Some(c) => Some(c@),
                None => spec_parse_control_command(self.text@),
            },
    {
        match &self.control_command_override {
            Some(c) => Some(clone_command(c)),
            None => parse_control_command(self.text.as_str()),
        }
    }
}

pub open spec fn clamp_i64(x: int) -> i64 {
    if x > i64::MAX {
        i64::MAX
    } else if x < i64::MIN {
        i64::MIN
    } else {
        x as i64
    }
}

/// The size order of photos: file size, then area, then width, then height.
pub open spec fn photo_key_le(a: PhotoSize, b: PhotoSize) -> bool {
    let fa = match a.file_size {
        Some(v) => v as int,
        None => 0,
    };
    let fb = match b.file_size {
        Some(v) => v as int,
        None => 0,
    };
    let aa = clamp_i64(a.width * a.height) as int;
    let ab = clamp_i64(b.width * b.height) as int;
    fa < fb || (fa == fb && (aa < ab || (aa == ab && (a.width < b.width || (a.width == b.width
        && a.height <= b.height)))))
}

/// The index of the largest of the first `n` photos, the last one among equals.
pub open spec fn spec_largest_photo(ps: Seq<PhotoSize>, n: int) -> int
    decreases n,
{
    if n <= 1 {
        0
    } else {
        let b = spec_largest_photo(ps, n - 1);
        if photo_key_le(ps[b], ps[n - 1]) {
            n - 1
        } else {
            b
        }
    }
}

fn saturating_area(width: i64, height: i64) -> (r: i64)
    ensures
        r == clamp_i64(width * height),
{
    match width.checked_mul(height) {
        Some(v) => v,
        None => {
            if (width < 0) != (height < 0) {
                assert(width * height < 0) by (nonlinear_arith)
                    requires
                        (width < 0) != (height < 0),
                        width != 0,
                        height != 0,
                ;
                i64::MIN
            } else {
                assert(width * height >= 0) by (nonlinear_arith)
                    requires
                        (width < 0) == (height < 0),
                ;
                i64::MAX
            }
        },
    }
}

fn photo_le(a: &PhotoSize, b: &PhotoSize) -> (r: bool)
    ensures
        r == photo_key_le(*a, *b),
{
    let fa: i64 = match a.file_size {
        Some(v) => v,
        None => 0,
    };
    let fb: i64 = match b.file_size {
        Some(v) => v,
        None => 0,
    };
    let aa = saturating_area(a.width, a.height);
    let ab = saturating_area(b.width, b.height);
    fa < fb || (fa == fb && (aa < ab || (aa == ab && (a.width < b.width || (a.width == b.width
        && a.height <= b.height)))))
}

/// The photo Telegram sent in the largest size.
pub fn select_largest_photo(photos: Option<&Vec<PhotoSize>>) -> (r: Option<usize>)
    ensures
        match photos {
            None => r is None,
            Some(ps) => if ps@.len() == 0 {
                r is None
            } else {
                r matches Some(k) && k as int == spec_largest_photo(ps@, ps@.len() as int) && k
                    < ps@.len()
            },
        },
{
    let ps = match photos {
        None => {
            return None;
        },
        Some(ps) => ps,
    };
    if ps.len() == 0 {
        return None;
    }
    let mut best: usize = 0;
    let mut i: usize = 1;
    while i < ps.len()
        invariant
            1 <= i <= ps.len(),
            best < i,
            best == spec_largest_photo(ps@, i as int),
        decreases ps.len() - i,
    {
        if photo_le(&ps[best], &ps[i]) {
            best = i;
        }
        i = i + 1;
    }
    Some(best)
}

pub struct AttachmentView {
    pub kind: TelegramAttachmentKind,
    pub file_id: Seq<char>,
    pub file_unique_id: Seq<char>,
    pub file_name: Option<Seq<char>>,
    pub mime_type: Option<Seq<char>>,
    pub file_size: Option<i64>,
    pub width: Option<i64>,
    pub height: Option<i64>,
}

impl View for TelegramAttachment {
    type V = AttachmentView;

    open spec fn view(&self) -> AttachmentView {
        AttachmentView {
            kind: self.kind,
            file_id: self.file_id@,
            file_unique_id: self.file_unique_id@,
            file_name: opt_str_view(self.file_name),
            mime_type: opt_str_view(self.mime_type),
            file_size: self.file_size,
            width: self.width,
            height: self.height,
        }
    }
}

pub open spec fn attachment_views(v: Seq<TelegramAttachment>) -> Seq<AttachmentView> {
    v.map_values(|a: TelegramAttachment| a@)
}

pub open spec fn photo_attachment(p: PhotoSize) -> AttachmentView {
    AttachmentView {
        kind: TelegramAttachmentKind::Photo,
        file_id: p.file_id@,
        file_unique_id: p.file_unique_id@,
        file_name: None,
        mime_type: None,
        file_size: p.file_size,
        width: Some(p.width),
        height: Some(p.height),
    }
}

pub open spec fn document_attachment(d: Document) -> AttachmentView {
    AttachmentView {
        kind: TelegramAttachmentKind::Document,
        file_id: d.file_id@,
        file_unique_id: d.file_unique_id@,
        file_name: opt_str_view(d.file_name),
        mime_type: opt_str_view(d.mime_type),
        file_size: d.file_size,
        width: None,
        height: None,
    }
}

/// The attachments of a message: its largest photo, then its document.
pub open spec fn spec_attachments(m: Message) -> Seq<AttachmentView> {
    (match m.photo {
        Some(ps) => if ps@.len() > 0 {
            seq![photo_attachment(ps@[spec_largest_photo(ps@, ps@.len() as int)])]
        } else {
            Seq::<AttachmentView>::empty()
        },
        None => Seq::<AttachmentView>::empty(),
    }) + (match m.document {
        Some(d) => seq![document_attachment(d)],
        None => Seq::<AttachmentView>::empty(),
    })
}

fn clone_opt(o: &Option<String>) -> (r: Option<String>)
    ensures
        opt_str_view(r) == opt_str_view(*o),
{
    match o {
        Some(s) => Some(s.clone()),
        None => None,
    }
}

pub fn collect_attachments(message: &Message) -> (r: Vec<TelegramAttachment>)
    ensures
        attachment_views(r@) == spec_attachments(*message),
{
    let mut attachments: Vec<TelegramAttachment> = Vec::new();
    match &message.photo {
        Some(ps) => {
            let picked = select_largest_photo(Some(ps));
            match picked {
                Some(k) => {
                    let photo = &ps[k];
                    attachments.push(
                        TelegramAttachment {
                            kind: TelegramAttachmentKind::Photo,
                            file_id: photo.file_id.clone(),
                            file_unique_id: photo.file_unique_id.clone(),
                            file_name: None,
                            mime_type: None,
                            file_size: photo.file_size,
                            width: Some(photo.width),
                            height: Some(photo.height),
                        },
                    );
                },
                None => {},
            }
        },
        None => {},
    }
    let ghost first = attachments@;
    match &message.document {
        Some(d) => {
            attachments.push(
                TelegramAttachment {
                    kind: TelegramAttachmentKind::Document,
                    file_id: d.file_id.clone(),
                    file_unique_id: d.file_unique_id.clone(),
                    file_name: clone_opt(&d.file_name),
                    mime_type: clone_opt(&d.mime_type),
                    file_size: d.file_size,
                    width: None,
                    height: None,
                },
            );
            assert(attachment_views(attachments@) =~= attachment_views(first).push(
                attachments@[attachments@.len() - 1]@,
            ));
        },
        None => {},
    }
    assert(attachment_views(attachments@) =~= spec_attachments(*message));
    attachments
}

pub open spec fn attachment_label(a: AttachmentView) -> Seq<char> {
    match a.kind {
        TelegramAttachmentKind::Photo => "[Photo]"@,
        TelegramAttachmentKind::Document => match a.file_name {
            Some(name) => "[Document] "@ + name,
            None => "[Document]"@,
        },
    }
}

/// The text that stands for the attachments of a message without text.
pub fn render_attachment_summary(attachments: &Vec<TelegramAttachment>) -> (r: String)
    ensures
        r@ == join(
            attachment_views(attachments@).map_values(|a: AttachmentView| attachment_label(a)),
            "\n"@,
        ),
{
    let mut labels: Vec<String> = Vec::new();
    let mut i: usize = 0;
    while i < attachments.len()
        invariant
            i <= attachments.len(),
            str_views(labels@) =~= attachment_views(attachments@.take(i as int)).map_values(
                |a: AttachmentView| attachment_label(a),
            ),
        decreases attachments.len() - i,
    {
        let a = &attachments[i];
        let label = match a.kind {
            TelegramAttachmentKind::Photo => str_of("[Photo]"),
            TelegramAttachmentKind::Document => match &a.file_name {
                Some(name) => {
                    let mut l = str_of("[Document] ");
                    l.append(name.as_str());
                    l
                },
                None => str_of("[Document]"),
            },
        };
        let ghost before = labels@;
        assert(label@ == attachment_label(a@));
        labels.push(label);
        assert(str_views(labels@) =~= str_views(before).push(label@));
        i = i + 1;
        assert(attachments@.take(i as int) =~= attachments@.take((i - 1) as int).push(
            attachments@[i - 1],
        ));
    }
    assert(attachments@.take(attachments.len() as int) =~= attachments@);
    join_strings(&labels, "\n")
}

/// The first of the values that is not blank, trimmed.
pub open spec fn spec_first_non_empty(values: Seq<Option<Seq<char>>>) -> Option<Seq<char>>
    decreases values.len(),
{
    if values.len() == 0 {
        None
    } else {
        match values[0] {
            Some(v) => if trim(v).len() > 0 {
                Some(trim(v))
            } else {
                spec_first_non_empty(values.drop_first())
            },
            None => spec_first_non_empty(values.drop_first()),
        }
    }
}

pub fn first_non_empty(values: &Vec<Option<String>>) -> (r: Option<String>)
    ensures
        opt_str_view(r) == spec_first_non_empty(values@.map_values(|o: Option<String>| opt_str_view(o))),
{
    let ghost vs = values@.map_values(|o: Option<String>| opt_str_view(o));
    assert(vs.skip(0) =~= vs);
    let mut i: usize = 0;
    while i < values.len()
        invariant
            i <= values.len(),
            vs == values@.map_values(|o: Option<String>| opt_str_view(o)),
            spec_first_non_empty(vs) == spec_first_non_empty(vs.skip(i as int)),
        decreases values.len() - i,
    {
        proof {
            assert(vs.skip(i as int).drop_first() =~= vs.skip(i + 1));
            assert(vs.skip(i as int)[0] == opt_str_view(values@[i as int]));
        }
        match &values[i] {
            Some(v) => {
                let t = trim_str(v.as_str());
                if t.len() > 0 {
                    return Some(string_of(t.as_slice()));
                }
            },
            None => {},
        }
        i = i + 1;
    }
    assert(vs.skip(values.len() as int) =~= Seq::<Option<Seq<char>>>::empty());
    None
}

/// The text of a message: its text, else its caption (trimmed), else the
/// summary of its attachments.
pub open spec fn spec_message_text(m: Message, attachments: Seq<AttachmentView>) -> Seq<char> {
    match spec_first_non_empty(seq![opt_str_view(m.text), opt_str_view(m.caption)]) {
        Some(t) => t,
        None => join(attachments.map_values(|a: AttachmentView| attachment_label(a)), "\n"@),
    }
}

pub fn normalized_message_text(message: &Message, attachments: &Vec<TelegramAttachment>) -> (r: String)
    ensures
        r@ == spec_message_text(*message, attachment_views(attachments@)),
{
    let values = vec![clone_opt(&message.text), clone_opt(&message.caption)];
    assert(values@.map_values(|o: Option<String>| opt_str_view(o)) =~= seq![
        opt_str_view(message.text),
        opt_str_view(message.caption),
    ]);
    match first_non_empty(&values) {
        Some(t) => t,
        None => render_attachment_summary(attachments),
    }
}

pub open spec fn spec_thread_key(thread_id: Option<i64>) -> Seq<char> {
    match thread_id {
        Some(id) => int_str(id as int),
        None => "dm"@,
    }
}

fn thread_key(thread_id: Option<i64>) -> (r: String)
    ensures
        r@ == spec_thread_key(thread_id),
{
    match thread_id {
        Some(id) => i64_string(id),
        None => str_of("dm"),
    }
}

pub struct IncomingView {
    pub update_id: i64,
    pub chat_id: i64,
    pub chat_type: Seq<char>,
    pub sender_id: Option<i64>,
    pub text: Seq<char>,
    pub attachments: Seq<AttachmentView>,
    pub telegram_message_id: i64,
    pub thread_key: Seq<char>,
    pub callback_query_id: Option<Seq<char>>,
    pub control_command_override: Option<ControlCommandView>,
    pub payload_json: Seq<char>,
}

impl View for IncomingMessage {
    type V = IncomingView;

    open spec fn view(&self) -> IncomingView {
        IncomingView {
            update_id: self.update_id,
            chat_id: self.chat_id,
            chat_type: self.chat_type@,
            sender_id: self.sender_id,
            text: self.text@,
            attachments: attachment_views(self.attachments@),
            telegram_message_id: self.telegram_message_id,
            thread_key: self.thread_key@,
            callback_query_id: opt_str_view(self.callback_query_id),
            control_command_override: opt_cmd_view(self.control_command_override),
            payload_json: self.payload_json@,
        }
    }
}

/// A pressed button as a chat message: its data as text and, when the data
/// is a command, that command; nothing for a button without its message or
/// with blank data that is no command.
pub open spec fn spec_normalize_callback(update_id: i64, cq: CallbackQuery) -> Option<IncomingView> {
    match cq.message {
        None => None,
        Some(m) => {
            let text = match cq.data {
                Some(d) => d@,
                None => Seq::<char>::empty(),
            };
            let command = spec_parse_callback_command(text);
            if trim(text).len() == 0 && command is None {
                None
            } else {
                Some(
                    IncomingView {
                        update_id,
                        chat_id: m.chat.id,
                        chat_type: m.chat.kind@,
                        sender_id: Some(cq.from.id),
                        text,
                        attachments: Seq::<AttachmentView>::empty(),
                        telegram_message_id: m.message_id,
                        thread_key: spec_thread_key(m.message_thread_id),
                        callback_query_id: Some(cq.id@),
                        control_command_override: command,
                        payload_json: cq.payload_json@,
                    },
                )
            }
        },
    }
}

/// An update as a chat message: a pressed button, else the message or the
/// edited message; nothing for an update with neither text nor attachments.
pub open spec fn spec_normalize_update(u: Update) -> Option<IncomingView> {
    match u.callback_query {
        Some(cq) => spec_normalize_callback(u.update_id, cq),
        None => {
            let mm = match u.message {
                Some(m) => Some(m),
                None => u.edited_message,
            };
            match mm {
                None => None,
                Some(m) => {
                    let attachments = spec_attachments(m);
                    let text = spec_message_text(m, attachments);
                    if text.len() == 0 && attachments.len() == 0 {
                        None
                    } else {
                        Some(
                            IncomingView {
                                update_id: u.update_id,
                                chat_id: m.chat.id,
                                chat_type: m.chat.kind@,
                                sender_id: match m.from {
                                    Some(user) => Some(user.id),
                                    None => None,
                                },
                                text,
                                attachments,
                                telegram_message_id: m.message_id,
                                thread_key: spec_thread_key(m.message_thread_id),
                                callback_query_id: None,
                                control_command_override: None,
                                payload_json: m.payload_json@,
                            },
                        )
                    }
                },
            }
        },
    }
}

pub open spec fn opt_incoming_view(o: Option<IncomingMessage>) -> Option<IncomingView> {
    match o {
        Some(m) => Some(m@),
        None => None,
    }
}

pub fn normalize_callback_query(update_id: i64, callback_query: &CallbackQuery) -> (r: Option<
    IncomingMessage,
>)
    ensures
        opt_incoming_view(r) == spec_normalize_callback(update_id, *callback_query),
{
    let message = match &callback_query.message {
        None => {
            return None;
        },
        Some(m) => m,
    };
    let text = match &callback_query.data {
        Some(d) => d.clone(),
        None => String::new(),
    };
    let command = parse_callback_command(text.as_str());
    if crate::text::str_is_blank(text.as_str()) && command.is_none() {
        return None;
    }
    let r = IncomingMessage {
        update_id,
        chat_id: message.chat.id,
        chat_type: message.chat.kind.clone(),
        sender_id: Some(callback_query.from.id),
        text,
        attachments: Vec::new(),
        telegram_message_id: message.message_id,
        thread_key: thread_key(message.message_thread_id),
        callback_query_id: Some(callback_query.id.clone()),
        control_command_override: command,
        payload_json: callback_query.payload_json.clone(),
    };
    assert(attachment_views(r.attachments@) =~= Seq::<AttachmentView>::empty());
    Some(r)
}

pub fn normalize_update(update: &Update) -> (r: Option<IncomingMessage>)
    ensures
        opt_incoming_view(r) == spec_normalize_update(*update),
{
    match &update.callback_query {
        Some(cq) => {
            return normalize_callback_query(update.update_id, cq);
        },
        None => {},
    }
    let message = match &update.message {
        Some(m) => m,
        None => match &update.edited_message {
            Some(m) => m,
            None => {
                return None;
            },
        },
    };
    let attachments = collect_attachments(message);
    let text = normalized_message_text(message, &attachments);
    if text.as_str().unicode_len() == 0 && attachments.len() == 0 {
        return None;
    }
    Some(
        IncomingMessage {
            update_id: update.update_id,
            chat_id: message.chat.id,
            chat_type: message.chat.kind.clone(),
            sender_id: match &message.from {
                Some(user) => Some(user.id),
                None => None,
            },
            text,
            attachments,
            telegram_message_id: message.message_id,
            thread_key: thread_key(message.message_thread_id),
            callback_query_id: None,
            control_command_override: None,
            payload_json: message.payload_json.clone(),
        },
    )
}

/// The chat messages among updates, in order.
pub open spec fn spec_messages(updates: Seq<Update>) -> Seq<IncomingView>
    decreases updates.len(),
{
    if updates.len() == 0 {
        Seq::<IncomingView>::empty()
    } else {
        let rest = spec_messages(updates.drop_last());
        match spec_normalize_update(updates.last()) {
            Some(m) => rest.push(m),
            None => rest,
        }
    }
}

pub open spec fn incoming_views(v: Seq<IncomingMessage>) -> Seq<IncomingView> {
    v.map_values(|m: IncomingMessage| m@)
}

/// The chat messages of a `getUpdates` reply.
pub fn parse_updates(response: &ApiResponse<Vec<Update>>) -> (r: Result<Vec<IncomingMessage>, String>)
    ensures
        !response.ok ==> (r matches Err(e) && e@ == "telegram getUpdates returned ok=false"@),
        response.ok ==> (r matches Ok(v) && incoming_views(v@) == spec_messages(response.result@)),
{
    if !response.ok {
        return Err(str_of("telegram getUpdates returned ok=false"));
    }
    let updates = &response.result;
    let mut messages: Vec<IncomingMessage> = Vec::new();
    let mut i: usize = 0;
    while i < updates.len()
        invariant
            i <= updates.len(),
            incoming_views(messages@) =~= spec_messages(updates@.take(i as int)),
        decreases updates.len() - i,
    {
        proof {
            assert(updates@.take(i + 1).drop_last() =~= updates@.take(i as int));
            assert(updates@.take(i + 1).last() == updates@[i as int]);
        }
        let ghost before = messages@;
        match normalize_update(&updates[i]) {
            Some(m) => {
                messages.push(m);
                assert(incoming_views(messages@) =~= incoming_views(before).push(
                    messages@[messages@.len() - 1]@,
                ));
            },
            None => {},
        }
        i = i + 1;
    }
    assert(updates@.take(updates.len() as int) =~= updates@);
    Ok(messages)
}

pub struct PairingView {
    pub update_id: i64,
    pub chat_id: i64,
    pub chat_type: Seq<char>,
    pub sender_id: i64,
    pub text: Seq<char>,
    pub sent_at_s: i64,
}

impl View for PairingUpdate {
    type V = PairingView;

    open spec fn view(&self) -> PairingView {
        PairingView {
            update_id: self.update_id,
            chat_id: self.message.chat_id,
            chat_type: self.message.chat_type@,
            sender_id: self.message.sender_id,
            text: self.message.text@,
            sent_at_s: self.message.sent_at_s,
        }
    }
}

/// A message that may complete pairing: a new message from a known sender
/// with text that is not blank.
pub open spec fn spec_pairing_update(u: Update) -> Option<PairingView> {
    match u.message {
        None => None,
        Some(m) => match m.from {
            None => None,
            Some(user) => {
                let text = spec_message_text(m, spec_attachments(m));
                if trim(text).len() == 0 {
                    None
                } else {
                    Some(
                        PairingView {
                            update_id: u.update_id,
                            chat_id: m.chat.id,
                            chat_type: m.chat.kind@,
                            sender_id: user.id,
                            text,
                            sent_at_s: match m.date {
                                Some(d) => d,
                                None => 0,
                            },
                        },
                    )
                }
            },
        },
    }
}

pub open spec fn spec_pairing_updates(updates: Seq<Update>) -> Seq<PairingView>
    decreases updates.len(),
{
    if updates.len() == 0 {
        Seq::<PairingView>::empty()
    } else {
        let rest = spec_pairing_updates(updates.drop_last());
        match spec_pairing_update(updates.last()) {
            Some(p) => rest.push(p),
            None => rest,
        }
    }
}

pub fn parse_pairing_updates(response: &ApiResponse<Vec<Update>>) -> (r: Result<
    Vec<PairingUpdate>,
    String,
>)
    ensures
        !response.ok ==> (r matches Err(e) && e@ == "telegram getUpdates returned ok=false"@),
        response.ok ==> (r matches Ok(v) && v@.map_values(|p: PairingUpdate| p@)
            == spec_pairing_updates(response.result@)),
{
    if !response.ok {
        return Err(str_of("telegram getUpdates returned ok=false"));
    }
    let updates = &response.result;
    let mut out: Vec<PairingUpdate> = Vec::new();
    let mut i: usize = 0;
    while i < updates.len()
        invariant
            i <= updates.len(),
            out@.map_values(|p: PairingUpdate| p@) =~= spec_pairing_updates(updates@.take(i as int)),
        decreases updates.len() - i,
    {
        proof {
            assert(updates@.take(i + 1).drop_last() =~= updates@.take(i as int));
            assert(updates@.take(i + 1).last() == updates@[i as int]);
        }
        let u = &updates[i];
        let ghost before = out@;
        match &u.message {
            Some(m) => match &m.from {
                Some(user) => {
                    let attachments = collect_attachments(m);
                    let text = normalized_message_text(m, &attachments);
                    if !crate::text::str_is_blank(text.as_str()) {
                        out.push(
                            PairingUpdate {
                                update_id: u.update_id,
                                message: PairingMessage {
                                    chat_id: m.chat.id,
                                    chat_type: m.chat.kind.clone(),
                                    sender_id: user.id,
                                    text,
                                    sent_at_s: match m.date {
                                        Some(d) => d,
                                        None => 0,
                                    },
                                },
                            },
                        );
                        assert(out@.map_values(|p: PairingUpdate| p@) =~= before.map_values(
                            |p: PairingUpdate| p@,
                        ).push(out@[out@.len() - 1]@));
                    }
                },
                None => {},
            },
            None => {},
        }
        i = i + 1;
    }
    assert(updates@.take(updates.len() as int) =~= updates@);
    Ok(out)
}

} // verus!
