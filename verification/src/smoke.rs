//! The manual live smoke test: what it asks the tester to send, what it
//! expects to see, and the configuration it runs a bridge with.
use vstd::prelude::*;

use crate::config::{Config, LaneMode};
use crate::engine::lane_mode_name;
use crate::pairing::distinct;
use crate::text::{
    chars_of, dec, i64_string, int_str, join, join_strings, parse_i64, parse_u64, parsed_i64,
    parsed_u64, str_of, str_views, string_of, trim, trim_str, u64_string,
};

verus! {

pub const LIVE_WORKSPACE_MARKER: &'static str = ".remotty-live-smoke-ok";

#[derive(Debug, Clone, Copy, PartialEq, Eq, Structural)]
pub enum SmokeScenario {
    ApprovalAccept,
    ApprovalDecline,
}

impl SmokeScenario {
    pub open spec fn spec_label(self) -> Seq<char> {
        match self {
            SmokeScenario::ApprovalAccept => "approval-accept"@,
            SmokeScenario::ApprovalDecline => "approval-decline"@,
        }
    }

    pub fn label(self) -> (r: &'static str)
        ensures
            r@ == self.spec_label(),
    {
        match self {
            SmokeScenario::ApprovalAccept => "approval-accept",
            SmokeScenario::ApprovalDecline => "approval-decline",
        }
    }
}

pub open spec fn spec_nonce_prefix(scenario: SmokeScenario) -> Seq<char> {
    match scenario {
        SmokeScenario::ApprovalAccept => "SMOKE_APPROVE"@,
        SmokeScenario::ApprovalDecline => "SMOKE_DENY"@,
    }
}

pub fn nonce_prefix(scenario: SmokeScenario) -> (r: &'static str)
    ensures
        r@ == spec_nonce_prefix(scenario),
{
    match scenario {
        SmokeScenario::ApprovalAccept => "SMOKE_APPROVE",
        SmokeScenario::ApprovalDecline => "SMOKE_DENY",
    }
}

/// `<prefix>_<process id>_<nanoseconds>`.
pub fn unique_nonce(prefix: &str, process_id: u64, nanos: u64) -> (r: String)
    ensures
        r@ == prefix@ + "_"@ + dec(process_id as nat) + "_"@ + dec(nanos as nat),
{
    let mut r = str_of(prefix);
    r.append("_");
    r.append(u64_string(process_id).as_str());
    r.append("_");
    r.append(u64_string(nanos).as_str());
    r
}

pub fn smoke_file_name(nonce: &str) -> (r: String)
    ensures
        r@ == nonce@ + ".txt"@,
{
    let mut r = str_of(nonce);
    r.append(".txt");
    r
}

/// The reply the agent must give: the nonce when approved, `DENIED_<nonce>`
/// when declined.
pub fn expected_reply(scenario: SmokeScenario, nonce: &str) -> (r: String)
    ensures
        r@ == match scenario {
            SmokeScenario::ApprovalAccept => nonce@,
            SmokeScenario::ApprovalDecline => "DENIED_"@ + nonce@,
        },
{
    match scenario {
        SmokeScenario::ApprovalAccept => str_of(nonce),
        SmokeScenario::ApprovalDecline => {
            let mut r = str_of("DENIED_");
            r.append(nonce);
            r
        },
    }
}

pub open spec fn spec_smoke_prompt(
    scenario: SmokeScenario,
    file_name: Seq<char>,
    nonce: Seq<char>,
    expected: Seq<char>,
) -> Seq<char> {
    "Create a file named "@ + file_name + " in the workspace root with the exact text "@ + nonce
        + match scenario {
        SmokeScenario::ApprovalAccept => ". After it succeeds, reply with the exact text "@,
        SmokeScenario::ApprovalDecline => ". If you cannot complete it after approval is denied, reply with the exact text "@,
    } + expected + " and nothing else."@
}

pub fn build_prompt(scenario: SmokeScenario, file_name: &str, nonce: &str, expected_reply: &str) -> (r:
    String)
    ensures
        r@ == spec_smoke_prompt(scenario, file_name@, nonce@, expected_reply@),
{
    let mut r = str_of("Create a file named ");
    r.append(file_name);
    r.append(" in the workspace root with the exact text ");
    r.append(nonce);
    match scenario {
        SmokeScenario::ApprovalAccept => r.append(". After it succeeds, reply with the exact text "),
        SmokeScenario::ApprovalDecline => r.append(
            ". If you cannot complete it after approval is denied, reply with the exact text ",
        ),
    }
    r.append(expected_reply);
    r.append(" and nothing else.");
    r
}

pub fn instruction_message(scenario: SmokeScenario, prompt: &str) -> (r: String)
    ensures
        r@ == "Manual smoke `"@ + scenario.spec_label() + "` is waiting.\nSend this exact prompt to the bot:\n"@
            + prompt@,
{
    let mut r = str_of("Manual smoke `");
    r.append(scenario.label());
    r.append("` is waiting.\nSend this exact prompt to the bot:\n");
    r.append(prompt);
    r
}

pub open spec fn spec_button_label(scenario: SmokeScenario) -> Seq<char> {
    match scenario {
        SmokeScenario::ApprovalAccept => "承認"@,
        SmokeScenario::ApprovalDecline => "非承認"@,
    }
}

pub fn pending_approval_message(scenario: SmokeScenario, request_id: &str) -> (r: String)
    ensures
        r@ == "Approval request `"@ + request_id@ + "` is pending. Use Telegram to press `"@
            + spec_button_label(scenario) + "`."@,
{
    let mut r = str_of("Approval request `");
    r.append(request_id);
    r.append("` is pending. Use Telegram to press `");
    match scenario {
        SmokeScenario::ApprovalAccept => r.append("承認"),
        SmokeScenario::ApprovalDecline => r.append("非承認"),
    }
    r.append("`.");
    r
}

pub open spec fn spec_expected_status(scenario: SmokeScenario) -> Seq<char> {
    match scenario {
        SmokeScenario::ApprovalAccept => "approved"@,
        SmokeScenario::ApprovalDecline => "declined"@,
    }
}

pub fn expected_status(scenario: SmokeScenario) -> (r: &'static str)
    ensures
        r@ == spec_expected_status(scenario),
{
    match scenario {
        SmokeScenario::ApprovalAccept => "approved",
        SmokeScenario::ApprovalDecline => "declined",
    }
}

/// The workspace after the turn: an approved request wrote the nonce, a
/// declined one wrote nothing. `written` is the file's text when it exists.
pub fn check_workspace_outcome(
    scenario: SmokeScenario,
    nonce: &str,
    written: Option<&str>,
    expected_path: &str,
) -> (r: Result<(), String>)
    ensures
        match scenario {
            SmokeScenario::ApprovalAccept => match written {
                None => r matches Err(e) && e@ == "expected file was not created: "@ + expected_path@,
                Some(w) => if trim(w@) == nonce@ {
                    r is Ok
                } else {
                    r matches Err(e) && e@
                        == "approval accept wrote unexpected file content. expected "@ + nonce@
                        + ", got "@ + trim(w@)
                },
            },
            SmokeScenario::ApprovalDecline => match written {
                None => r is Ok,
                Some(_) => r matches Err(e) && e@ == "declined approval still created a file at "@
                    + expected_path@,
            },
        },
{
    match scenario {
        SmokeScenario::ApprovalAccept => match written {
            None => {
                let mut e = str_of("expected file was not created: ");
                e.append(expected_path);
                Err(e)
            },
            Some(w) => {
                let t = trim_str(w);
                let n = chars_of(nonce);
                if crate::text::seq_eq(&t, &n) {
                    Ok(())
                } else {
                    let mut e = str_of("approval accept wrote unexpected file content. expected ");
                    e.append(nonce);
                    e.append(", got ");
                    e.append(string_of(t.as_slice()).as_str());
                    Err(e)
                }
            },
        },
        SmokeScenario::ApprovalDecline => match written {
            None => Ok(()),
            Some(_) => {
                let mut e = str_of("declined approval still created a file at ");
                e.append(expected_path);
                Err(e)
            },
        },
    }
}

pub fn success_message(scenario: SmokeScenario, request_id: &str) -> (r: String)
    ensures
        r@ == "manual smoke `"@ + scenario.spec_label() + "` succeeded. approval request `"@
            + request_id@ + "` reached `"@ + spec_expected_status(scenario)
            + "` and the workspace check passed."@,
{
    let mut r = str_of("manual smoke `");
    r.append(scenario.label());
    r.append("` succeeded. approval request `");
    r.append(request_id);
    r.append("` reached `");
    r.append(expected_status(scenario));
    r.append("` and the workspace check passed.");
    r
}

/// The smoke reads updates by polling, which a webhook would take away.
pub fn ensure_polling_mode(webhook_url: &str) -> (r: Result<(), String>)
    ensures
        trim(webhook_url@).len() == 0 <==> r is Ok,
        r matches Err(e) ==> e@ == "manual smoke requires polling mode, but this bot still has a webhook configured: "@
            + webhook_url@
            + ". Remove or restore the webhook outside this command, then rerun the smoke check."@,
{
    if crate::text::str_is_blank(webhook_url) {
        return Ok(());
    }
    let mut e = str_of(
        "manual smoke requires polling mode, but this bot still has a webhook configured: ",
    );
    e.append(webhook_url);
    e.append(". Remove or restore the webhook outside this command, then rerun the smoke check.");
    Err(e)
}

pub fn ensure_app_server_mode(approval_mode: &str) -> (r: Result<(), String>)
    ensures
        (approval_mode@ == "app_server"@) <==> r is Ok,
        r matches Err(e) ==> e@ == "set LIVE_APPROVAL_MODE=app_server before running smoke"@,
{
    if crate::text::string_eq(approval_mode, "app_server") {
        Ok(())
    } else {
        Err(str_of("set LIVE_APPROVAL_MODE=app_server before running smoke"))
    }
}

// ---------------------------------------------------------------------------
// The live environment
// ---------------------------------------------------------------------------

pub open spec fn spec_optional_env(value: Option<Seq<char>>) -> Option<Seq<char>> {
    match value {
        Some(v) => if trim(v).len() > 0 {
            Some(trim(v))
        } else {
            None
        },
        None => None,
    }
}

/// An environment variable's value, trimmed, unless it is blank.
pub fn optional_env(value: Option<String>) -> (r: Option<String>)
    ensures
        crate::telegram::opt_str_view(r) == spec_optional_env(crate::telegram::opt_str_view(value)),
{
    match value {
        Some(v) => {
            let t = trim_str(v.as_str());
            if t.len() > 0 {
                Some(string_of(t.as_slice()))
            } else {
                None
            }
        },
        None => None,
    }
}

pub fn resolve_live_bot_token(environment: Option<String>, stored: Option<String>) -> (r: Result<
    String,
    String,
>)
    ensures
        match spec_optional_env(crate::telegram::opt_str_view(environment)) {
            Some(t) => r matches Ok(v) && v@ == t,
            None => match stored {
                Some(s) => r matches Ok(v) && v@ == s@,
                None => r matches Err(e) && e@
                    == "missing Telegram bot token. Run `/remotty-configure` or set LIVE_TELEGRAM_BOT_TOKEN."@,
            },
        },
{
    match optional_env(environment) {
        Some(t) => Ok(t),
        None => match stored {
            Some(s) => Ok(s),
            None => Err(
                str_of(
                    "missing Telegram bot token. Run `/remotty-configure` or set LIVE_TELEGRAM_BOT_TOKEN.",
                ),
            ),
        },
    }
}

pub open spec fn res_view(r: Result<i64, String>) -> Result<i64, Seq<char>> {
    match r {
        Ok(v) => Ok(v),
        Err(e) => Err(e@),
    }
}

/// The one sender the allowlist knows; refused when it knows none or several.
pub open spec fn spec_single_sender(admins: Seq<i64>, stored: Seq<i64>) -> Result<i64, Seq<char>> {
    let ids = distinct(admins + stored);
    if ids.len() == 1 {
        Ok(ids[0])
    } else if ids.len() == 0 {
        Err("no paired Telegram sender found. Run `/remotty-pair` first."@)
    } else {
        Err(
            "multiple Telegram senders are allowed. Set LIVE_TELEGRAM_SENDER_ID and LIVE_TELEGRAM_CHAT_ID explicitly."@,
        )
    }
}

pub fn infer_single_sender_id(admin_sender_ids: &Vec<i64>, stored_sender_ids: &Vec<i64>) -> (r: Result<
    i64,
    String,
>)
    ensures
        res_view(r) == spec_single_sender(admin_sender_ids@, stored_sender_ids@),
{
    let count = crate::pairing::inferred_sender_count(admin_sender_ids, stored_sender_ids);
    if count == 0 {
        return Err(str_of("no paired Telegram sender found. Run `/remotty-pair` first."));
    }
    if count > 1 {
        return Err(
            str_of(
                "multiple Telegram senders are allowed. Set LIVE_TELEGRAM_SENDER_ID and LIVE_TELEGRAM_CHAT_ID explicitly.",
            ),
        );
    }
    if admin_sender_ids.len() > 0 {
        proof {
            lemma_distinct_first(admin_sender_ids@ + stored_sender_ids@);
        }
        Ok(admin_sender_ids[0])
    } else {
        proof {
            assert(admin_sender_ids@ + stored_sender_ids@ =~= stored_sender_ids@);
            if stored_sender_ids.len() > 0 {
                lemma_distinct_first(stored_sender_ids@);
            }
        }
        Ok(stored_sender_ids[0])
    }
}

/// The first value of a non-empty sequence is the first distinct value.
proof fn lemma_distinct_first(s: Seq<i64>)
    requires
        s.len() > 0,
    ensures
        distinct(s).len() > 0,
        distinct(s)[0] == s[0],
    decreases s.len(),
{
    if s.len() > 1 {
        lemma_distinct_first(s.drop_last());
        assert(s.drop_last()[0] == s[0]);
        let r = distinct(s.drop_last());
        if !r.contains(s.last()) {
            assert(r.push(s.last())[0] == r[0]);
        }
    } else {
        let r = distinct(s.drop_last());
        assert(r =~= Seq::<i64>::empty());
        assert(!r.contains(s.last()));
        assert(r.push(s.last())[0] == s[0]);
    }
}

/// The sender the smoke test talks to: `LIVE_TELEGRAM_SENDER_ID` when set,
/// else the one sender the allowlist knows.
pub fn resolve_live_sender_id(
    environment: Option<String>,
    admin_sender_ids: &Vec<i64>,
    stored_sender_ids: &Vec<i64>,
) -> (r: Result<i64, String>)
    ensures
        match spec_optional_env(crate::telegram::opt_str_view(environment)) {
            Some(v) => match parsed_i64(v) {
                Some(n) => r == Ok::<i64, String>(n),
                None => r matches Err(e) && e@ == "LIVE_TELEGRAM_SENDER_ID must be an integer"@,
            },
            None => res_view(r) == spec_single_sender(admin_sender_ids@, stored_sender_ids@),
        },
{
    match optional_env(environment) {
        Some(v) => {
            let c = chars_of(v.as_str());
            match parse_i64(&c) {
                Some(n) => Ok(n),
                None => Err(str_of("LIVE_TELEGRAM_SENDER_ID must be an integer")),
            }
        },
        None => infer_single_sender_id(admin_sender_ids, stored_sender_ids),
    }
}

/// The chat the smoke test talks in: `LIVE_TELEGRAM_CHAT_ID` when set, else
/// the sender's private chat.
pub fn resolve_live_chat_id(environment: Option<String>, sender_id: i64) -> (r: Result<i64, String>)
    ensures
        match spec_optional_env(crate::telegram::opt_str_view(environment)) {
            Some(v) => match parsed_i64(v) {
                Some(n) => r == Ok::<i64, String>(n),
                None => r matches Err(e) && e@ == "LIVE_TELEGRAM_CHAT_ID must be an integer"@,
            },
            None => r == Ok::<i64, String>(sender_id),
        },
{
    match optional_env(environment) {
        Some(v) => {
            let c = chars_of(v.as_str());
            match parse_i64(&c) {
                Some(n) => Ok(n),
                None => Err(str_of("LIVE_TELEGRAM_CHAT_ID must be an integer")),
            }
        },
        None => Ok(sender_id),
    }
}

/// `LIVE_CODEX_PROFILE` when it is not blank, else the configured profile.
pub fn live_codex_profile(environment: Option<String>, configured: Option<String>) -> (r: Option<
    String,
>)
    ensures
        crate::telegram::opt_str_view(r) == match spec_optional_env(
            crate::telegram::opt_str_view(environment),
        ) {
            Some(p) => Some(p),
            None => crate::telegram::opt_str_view(configured),
        },
{
    match optional_env(environment) {
        Some(p) => Some(p),
        None => configured,
    }
}

/// `LIVE_TIMEOUT_SEC` when it holds a number, else 240 seconds.
pub fn live_timeout_sec(environment: Option<String>) -> (r: u64)
    ensures
        r == match environment {
            Some(v) => match parsed_u64(v@) {
                Some(n) => n,
                None => 240u64,
            },
            None => 240u64,
        },
{
    match environment {
        Some(v) => {
            let c = chars_of(v.as_str());
            match parse_u64(&c) {
                Some(n) => n,
                None => 240,
            }
        },
        None => 240,
    }
}

/// What the smoke test reads from its environment, with the configured
/// values as fallbacks.
pub fn live_setting_or(environment: Option<String>, fallback: &str) -> (r: String)
    ensures
        r@ == match environment {
            Some(v) => v@,
            None => fallback@,
        },
{
    match environment {
        Some(v) => v,
        None => str_of(fallback),
    }
}

pub fn check_live_workspace(
    is_dir: bool,
    has_parent: bool,
    is_user_profile: bool,
    has_marker: bool,
    display: &str,
) -> (r: Result<(), String>)
    ensures
        !is_dir ==> (r matches Err(e) && e@ == "LIVE_WORKSPACE must point to a directory, but got "@
            + display@),
        is_dir && !has_parent ==> (r matches Err(e) && e@
            == "LIVE_WORKSPACE must not be a drive root. Use a dedicated subdirectory instead."@),
        is_dir && has_parent && is_user_profile ==> (r matches Err(e) && e@
            == "LIVE_WORKSPACE must not be your user profile directory. Use a dedicated workspace."@),
        is_dir && has_parent && !is_user_profile && !has_marker ==> (r matches Err(e) && e@
            == "LIVE_WORKSPACE must contain `.remotty-live-smoke-ok` so the manual smoke only writes into an explicit opt-in folder."@),
        (is_dir && has_parent && !is_user_profile && has_marker) <==> r is Ok,
{
    if !is_dir {
        let mut e = str_of("LIVE_WORKSPACE must point to a directory, but got ");
        e.append(display);
        return Err(e);
    }
    if !has_parent {
        return Err(
            str_of("LIVE_WORKSPACE must not be a drive root. Use a dedicated subdirectory instead."),
        );
    }
    if is_user_profile {
        return Err(
            str_of(
                "LIVE_WORKSPACE must not be your user profile directory. Use a dedicated workspace.",
            ),
        );
    }
    if !has_marker {
        return Err(
            str_of(
                "LIVE_WORKSPACE must contain `.remotty-live-smoke-ok` so the manual smoke only writes into an explicit opt-in folder.",
            ),
        );
    }
    Ok(())
}

// ---------------------------------------------------------------------------
// The configuration of the bridge under test
// ---------------------------------------------------------------------------

pub open spec fn hex_digit(d: int) -> char {
    if d < 10 {
        ((d + 48) as u8) as char
    } else {
        ((d + 55) as u8) as char
    }
}

pub open spec fn toml_escape(c: char) -> Seq<char> {
    if c == '"' {
        "\\\""@
    } else if c == '\\' {
        "\\\\"@
    } else if c == '\u{08}' {
        "\\b"@
    } else if c == '\t' {
        "\\t"@
    } else if c == '\n' {
        "\\n"@
    } else if c == '\u{0c}' {
        "\\f"@
    } else if c == '\r' {
        "\\r"@
    } else if (c as u32) <= 0x1f || (c as u32) == 0x7f {
        "\\u00"@ + seq![hex_digit(((c as u32) / 16) as int), hex_digit(((c as u32) % 16) as int)]
    } else {
        seq![c]
    }
}

pub open spec fn toml_body(s: Seq<char>) -> Seq<char>
    decreases s.len(),
{
    if s.len() == 0 {
        Seq::<char>::empty()
    } else {
        toml_body(s.drop_last()) + toml_escape(s.last())
    }
}

/// A TOML basic string holding `value`.
pub open spec fn spec_toml_string(value: Seq<char>) -> Seq<char> {
    seq!['"'] + toml_body(value) + seq!['"']
}

fn escape_into(out: &mut String, c: char)
    ensures
        final(out)@ == old(out)@ + toml_escape(c),
{
    proof {
        reveal_strlit("\\\"");
        reveal_strlit("\\\\");
        reveal_strlit("\\b");
        reveal_strlit("\\t");
        reveal_strlit("\\n");
        reveal_strlit("\\f");
        reveal_strlit("\\r");
        reveal_strlit("\\u00");
    }
    if c == '"' {
        out.append("\\\"");
    } else if c == '\\' {
        out.append("\\\\");
    } else if c == '\u{08}' {
        out.append("\\b");
    } else if c == '\t' {
        out.append("\\t");
    } else if c == '\n' {
        out.append("\\n");
    } else if c == '\u{0c}' {
        out.append("\\f");
    } else if c == '\r' {
        out.append("\\r");
    } else if (c as u32) <= 0x1f || (c as u32) == 0x7f {
        let u = c as u32;
        let hi = u / 16;
        let lo = u % 16;
        let hc: char = if hi < 10 {
            ((hi + 48) as u8) as char
        } else {
            ((hi + 55) as u8) as char
        };
        let lc: char = if lo < 10 {
            ((lo + 48) as u8) as char
        } else {
            ((lo + 55) as u8) as char
        };
        out.append("\\u00");
        let tail = vec![hc, lc];
        crate::text::push_chars(out, tail.as_slice());
    } else {
        let one = vec![c];
        crate::text::push_chars(out, one.as_slice());
    }
}

pub fn toml_string(value: &str) -> (r: String)
    ensures
        r@ == spec_toml_string(value@),
{
    let v = chars_of(value);
    let mut escaped = str_of("\"");
    proof {
        reveal_strlit("\"");
    }
    let mut i: usize = 0;
    while i < v.len()
        invariant
            i <= v.len(),
            escaped@ == seq!['"'] + toml_body(v@.take(i as int)),
        decreases v.len() - i,
    {
        assert(v@.take(i + 1).drop_last() =~= v@.take(i as int));
        escape_into(&mut escaped, v[i]);
        i = i + 1;
        assert(escaped@ =~= seq!['"'] + toml_body(v@.take(i as int)));
    }
    assert(v@.take(v.len() as int) =~= v@);
    escaped.append("\"");
    escaped
}

/// Paths and overrides of the bridge the smoke test starts.
pub struct LiveConfigInputs {
    pub sender_id: i64,
    pub codex_bin: String,
    pub codex_profile: Option<String>,
    pub workspace: String,
    pub db_path: String,
    pub state_dir: String,
    pub temp_dir: String,
    pub log_dir: String,
}

pub open spec fn toml_list(items: Seq<Seq<char>>) -> Seq<char> {
    join(items.map_values(|s: Seq<char>| spec_toml_string(s)), ", "@)
}

pub open spec fn lane_mode_text(mode: LaneMode) -> Seq<char> {
    match mode {
        LaneMode::AwaitReply => "await_reply"@,
        LaneMode::Infinite => "infinite"@,
        LaneMode::CompletionChecks => "completion_checks"@,
        LaneMode::MaxTurns => "max_turns"@,
    }
}

pub open spec fn service_section(base: Config) -> Seq<char> {
    "[service]\nrun_mode = \"console\"\npoll_timeout_sec = 5\nshutdown_grace_sec = "@ + dec(
        base.service.shutdown_grace_sec as nat,
    )
}

pub open spec fn telegram_section(base: Config, live: LiveConfigInputs) -> Seq<char> {
    "\n\n[telegram]\ntoken_secret_ref = \"unused-live-smoke\"\nallowed_chat_types = ["@ + toml_list(
        str_views(base.telegram.allowed_chat_types@),
    ) + "]\nadmin_sender_ids = ["@ + int_str(live.sender_id as int) + "]\napi_base_url = "@
        + spec_toml_string(base.telegram.api_base_url@) + "\nfile_base_url = "@ + spec_toml_string(
        base.telegram.file_base_url@,
    )
}

pub open spec fn codex_section(base: Config, live: LiveConfigInputs) -> Seq<char> {
    "\n\n[codex]\nbinary = "@ + spec_toml_string(live.codex_bin@) + "\nmodel = "@ + spec_toml_string(
        base.codex.model@,
    ) + "\nsandbox = "@ + spec_toml_string(base.codex.sandbox@)
        + "\napproval = \"on-request\"\ntransport = \"app_server\"\n"@ + match live.codex_profile {
        Some(p) => "profile = "@ + spec_toml_string(p@) + "\n"@,
        None => Seq::<char>::empty(),
    }
}

pub open spec fn storage_section(live: LiveConfigInputs) -> Seq<char> {
    "\n\n[storage]\ndb_path = "@ + spec_toml_string(live.db_path@) + "\nstate_dir = "@
        + spec_toml_string(live.state_dir@) + "\ntemp_dir = "@ + spec_toml_string(live.temp_dir@)
        + "\nlog_dir = "@ + spec_toml_string(live.log_dir@)
}

pub open spec fn policy_section(base: Config) -> Seq<char> {
    "\n\n[policy]\ndefault_mode = "@ + spec_toml_string(lane_mode_text(base.policy.default_mode))
        + "\nprogress_edit_interval_ms = "@ + dec(base.policy.progress_edit_interval_ms as nat)
        + "\nmax_output_chars = "@ + dec(base.policy.max_output_chars as nat)
        + "\nmax_turns_limit = "@ + int_str(base.policy.max_turns_limit as int)
}

pub open spec fn workspace_section(
    live: LiveConfigInputs,
    continue_prompt: Seq<char>,
    workspace_mode: LaneMode,
) -> Seq<char> {
    "\n\n[[workspaces]]\nid = \"main\"\npath = "@ + spec_toml_string(live.workspace@)
        + "\nwritable_roots = ["@ + spec_toml_string(live.workspace@) + "]\ndefault_mode = "@
        + spec_toml_string(lane_mode_text(workspace_mode)) + "\ncontinue_prompt = "@
        + spec_toml_string(continue_prompt) + "\nchecks_profile = \"default\"\n"@
}

/// The configuration file of the bridge under test: the base configuration's
/// Telegram, Codex and policy settings, the live sender as the only admin,
/// storage under a scratch directory and the live workspace.
pub open spec fn spec_live_config(
    base: Config,
    live: LiveConfigInputs,
    continue_prompt: Seq<char>,
    workspace_mode: LaneMode,
) -> Seq<char> {
    service_section(base) + telegram_section(base, live) + codex_section(base, live)
        + storage_section(live) + policy_section(base) + workspace_section(
        live,
        continue_prompt,
        workspace_mode,
    )
}

fn toml_list_of(items: &Vec<String>) -> (r: String)
    ensures
        r@ == toml_list(str_views(items@)),
{
    let mut quoted: Vec<String> = Vec::new();
    let mut i: usize = 0;
    while i < items.len()
        invariant
            i <= items.len(),
            str_views(quoted@) =~= str_views(items@).take(i as int).map_values(
                |s: Seq<char>| spec_toml_string(s),
            ),
        decreases items.len() - i,
    {
        let ghost before = quoted@;
        quoted.push(toml_string(items[i].as_str()));
        assert(str_views(quoted@) =~= str_views(before).push(spec_toml_string(items@[i as int]@)));
        assert(str_views(items@).take(i + 1) =~= str_views(items@).take(i as int).push(
            items@[i as int]@,
        ));
        i = i + 1;
    }
    assert(str_views(items@).take(items.len() as int) =~= str_views(items@));
    join_strings(&quoted, ", ")
}

fn lane_mode_toml(mode: LaneMode) -> (r: String)
    ensures
        r@ == spec_toml_string(lane_mode_text(mode)),
{
    let name = match mode {
        LaneMode::AwaitReply => "await_reply",
        LaneMode::Infinite => "infinite",
        LaneMode::CompletionChecks => "completion_checks",
        LaneMode::MaxTurns => "max_turns",
    };
    toml_string(name)
}

fn service_section_text(base: &Config) -> (r: String)
    ensures
        r@ == service_section(*base),
{
    let mut c = str_of("[service]\nrun_mode = \"console\"\npoll_timeout_sec = 5\nshutdown_grace_sec = ");
    c.append(u64_string(base.service.shutdown_grace_sec).as_str());
    c
}

fn telegram_section_text(base: &Config, live: &LiveConfigInputs) -> (r: String)
    ensures
        r@ == telegram_section(*base, *live),
{
    let mut c = str_of("\n\n[telegram]\ntoken_secret_ref = \"unused-live-smoke\"\nallowed_chat_types = [");
    c.append(toml_list_of(&base.telegram.allowed_chat_types).as_str());
    c.append("]\nadmin_sender_ids = [");
    c.append(i64_string(live.sender_id).as_str());
    c.append("]\napi_base_url = ");
    c.append(toml_string(base.telegram.api_base_url.as_str()).as_str());
    c.append("\nfile_base_url = ");
    c.append(toml_string(base.telegram.file_base_url.as_str()).as_str());
    c
}

fn codex_section_text(base: &Config, live: &LiveConfigInputs) -> (r: String)
    ensures
        r@ == codex_section(*base, *live),
{
    let mut c = str_of("\n\n[codex]\nbinary = ");
    c.append(toml_string(live.codex_bin.as_str()).as_str());
    c.append("\nmodel = ");
    c.append(toml_string(base.codex.model.as_str()).as_str());
    c.append("\nsandbox = ");
    c.append(toml_string(base.codex.sandbox.as_str()).as_str());
    c.append("\napproval = \"on-request\"\ntransport = \"app_server\"\n");
    let ghost head = c@;
    match &live.codex_profile {
        Some(p) => {
            c.append("profile = ");
            c.append(toml_string(p.as_str()).as_str());
            c.append("\n");
        },
        None => {
            assert(c@ =~= head + Seq::<char>::empty());
        },
    }
    c
}

fn storage_section_text(live: &LiveConfigInputs) -> (r: String)
    ensures
        r@ == storage_section(*live),
{
    let mut c = str_of("\n\n[storage]\ndb_path = ");
    c.append(toml_string(live.db_path.as_str()).as_str());
    c.append("\nstate_dir = ");
    c.append(toml_string(live.state_dir.as_str()).as_str());
    c.append("\ntemp_dir = ");
    c.append(toml_string(live.temp_dir.as_str()).as_str());
    c.append("\nlog_dir = ");
    c.append(toml_string(live.log_dir.as_str()).as_str());
    c
}

fn policy_section_text(base: &Config) -> (r: String)
    ensures
        r@ == policy_section(*base),
{
    let mut c = str_of("\n\n[policy]\ndefault_mode = ");
    c.append(lane_mode_toml(base.policy.default_mode).as_str());
    c.append("\nprogress_edit_interval_ms = ");
    c.append(u64_string(base.policy.progress_edit_interval_ms).as_str());
    c.append("\nmax_output_chars = ");
    c.append(u64_string(base.policy.max_output_chars as u64).as_str());
    c.append("\nmax_turns_limit = ");
    c.append(i64_string(base.policy.max_turns_limit).as_str());
    c
}

fn workspace_section_text(live: &LiveConfigInputs, continue_prompt: &str, workspace_mode: LaneMode) -> (r:
    String)
    ensures
        r@ == workspace_section(*live, continue_prompt@, workspace_mode),
{
    let mut c = str_of("\n\n[[workspaces]]\nid = \"main\"\npath = ");
    c.append(toml_string(live.workspace.as_str()).as_str());
    c.append("\nwritable_roots = [");
    c.append(toml_string(live.workspace.as_str()).as_str());
    c.append("]\ndefault_mode = ");
    c.append(lane_mode_toml(workspace_mode).as_str());
    c.append("\ncontinue_prompt = ");
    c.append(toml_string(continue_prompt).as_str());
    c.append("\nchecks_profile = \"default\"\n");
    c
}

pub fn render_live_config(
    base: &Config,
    live: &LiveConfigInputs,
    continue_prompt: &str,
    workspace_mode: LaneMode,
) -> (r: String)
    ensures
        r@ == spec_live_config(*base, *live, continue_prompt@, workspace_mode),
{
    let mut c = service_section_text(base);
    c.append(telegram_section_text(base, live).as_str());
    c.append(codex_section_text(base, live).as_str());
    c.append(storage_section_text(live).as_str());
    c.append(policy_section_text(base).as_str());
    c.append(workspace_section_text(live, continue_prompt, workspace_mode).as_str());
    c
}

} // verus!
