//! The decisions of the `telegram` command line: pairing a sender, the
//! allowlist and session summaries, and the live-environment report.
use vstd::prelude::*;

use crate::app_server::CodexThreadSummary;
use crate::store::{AuthorizedSender, PendingAccessPairCode};
use crate::telegram::{PairingUpdate, PairingView};
use crate::text::{
    char_is_alnum, char_to_upper, chars_of, eq_ignore_case, eq_ignore_case_vec, eq_str, i64_string,
    ascii_upper, int_str, is_ascii_alnum, is_ascii_digit, is_ascii_upper, join, join_strings, split_once,
    split_once_char, split_ws, str_is_blank, str_of, str_views, string_eq, string_of, trim,
    trim_str, views, words,
};

verus! {

pub const DEFAULT_SECRET_REF: &'static str = "remotty-telegram-bot";

pub const PAIR_CODE_TTL_SECONDS: i64 = 180;

/// The secret that holds the bot token: the one the configuration names,
/// else the default.
pub fn resolve_secret_ref(configured: Option<String>) -> (r: String)
    ensures
        r@ == match configured {
            Some(s) => s@,
            None => DEFAULT_SECRET_REF@,
        },
{
    match configured {
        Some(s) => s,
        None => str_of(DEFAULT_SECRET_REF),
    }
}

/// The bot token: the stored secret when it could be read, else the
/// `TELEGRAM_BOT_TOKEN` variable; refused when blank.
pub fn load_token(stored: Option<String>, environment: Option<String>) -> (r: Result<String, String>)
    ensures
        match stored {
            Some(t) => if trim(t@).len() > 0 {
                r matches Ok(v) && v@ == t@
            } else {
                r matches Err(e) && e@ == "Telegram token must not be empty"@
            },
            None => match environment {
                Some(t) => if trim(t@).len() > 0 {
                    r matches Ok(v) && v@ == t@
                } else {
                    r matches Err(e) && e@ == "Telegram token must not be empty"@
                },
                None => r matches Err(e) && e@ == "TELEGRAM_BOT_TOKEN is not set"@,
            },
        },
{
    let value = match stored {
        Some(t) => t,
        None => match environment {
            Some(t) => t,
            None => {
                return Err(str_of("TELEGRAM_BOT_TOKEN is not set"));
            },
        },
    };
    if str_is_blank(value.as_str()) {
        Err(str_of("Telegram token must not be empty"))
    } else {
        Ok(value)
    }
}

/// A token typed at the prompt, trimmed; refused when blank.
pub fn entered_token(token: &str) -> (r: Result<String, String>)
    ensures
        trim(token@).len() > 0 ==> (r matches Ok(v) && v@ == trim(token@)),
        trim(token@).len() == 0 ==> (r matches Err(e) && e@
            == "Telegram bot token must not be empty"@),
{
    let t = trim_str(token);
    if t.len() == 0 {
        Err(str_of("Telegram bot token must not be empty"))
    } else {
        Ok(string_of(t.as_slice()))
    }
}

pub fn token_saved_message(secret_ref: &str) -> (r: String)
    ensures
        r@ == "Telegram token を `"@ + secret_ref@ + "` へ保存しました。"@,
{
    let mut r = str_of("Telegram token を `");
    r.append(secret_ref);
    r.append("` へ保存しました。");
    r
}

/// The chat that sent a matching `/pair` message.
#[derive(Debug, Clone, PartialEq, Eq)]
pub struct PairCandidate {
    pub chat_id: i64,
    pub sender_id: i64,
    pub chat_type: String,
}

pub fn ensure_private_pair_candidate(candidate: &PairCandidate) -> (r: Result<(), String>)
    ensures
        (candidate.chat_type@ == "private"@) <==> r is Ok,
        r matches Err(e) ==> e@
            == "pairing は `private` chat だけに対応しています。bot との DM で `/pair <code>` を送り直してください。"@,
{
    if string_eq(candidate.chat_type.as_str(), "private") {
        return Ok(());
    }
    Err(
        str_of(
            "pairing は `private` chat だけに対応しています。bot との DM で `/pair <code>` を送り直してください。",
        ),
    )
}

pub fn ensure_private_access_pair_candidate(candidate: &PendingAccessPairCode) -> (r: Result<
    (),
    String,
>)
    ensures
        (candidate.chat_type@ == "private"@) <==> r is Ok,
        r matches Err(e) ==> e@
            == "pairing は `private` chat だけに対応しています。bot との DM でやり直してください。"@,
{
    if string_eq(candidate.chat_type.as_str(), "private") {
        return Ok(());
    }
    Err(str_of("pairing は `private` chat だけに対応しています。bot との DM でやり直してください。"))
}

pub fn paired_message(sender_id: i64, chat_id: i64) -> (r: String)
    ensures
        r@ == "Telegram sender `"@ + int_str(sender_id as int) + "` を allowlist へ追加しました。chat_id=`"@
            + int_str(chat_id as int) + "`"@,
{
    let mut r = str_of("Telegram sender `");
    r.append(i64_string(sender_id).as_str());
    r.append("` を allowlist へ追加しました。chat_id=`");
    r.append(i64_string(chat_id).as_str());
    r.append("`");
    r
}

/// The allowlist entry a completed pairing adds.
pub fn paired_sender(sender_id: i64, approved_at_ms: i64) -> (r: AuthorizedSender)
    ensures
        r.sender_id == sender_id,
        r.platform@ == "telegram"@,
        r.display_name is None,
        r.status@ == "active"@,
        r.approved_at_ms == approved_at_ms,
        r.source@ == "paired"@,
{
    AuthorizedSender {
        sender_id,
        platform: str_of("telegram"),
        display_name: None,
        status: str_of("active"),
        approved_at_ms,
        source: str_of("paired"),
    }
}

/// The text is `/pair <code>`, or `/pair@<bot> <code>` naming this bot
/// (ignoring ASCII case), with the expected code and nothing more.
pub open spec fn spec_is_pairing_intent(
    text: Seq<char>,
    bot_username: Option<Seq<char>>,
    expected_code: Seq<char>,
) -> bool {
    let ws = words(text);
    &&& ws.len() == 2
    &&& ws[1] == expected_code
    &&& (ws[0] == "/pair"@ || match bot_username {
        None => false,
        Some(bot) => match split_once(ws[0], '@') {
            None => false,
            Some(p) => p.0 == "/pair"@ && eq_ignore_case(p.1, bot),
        },
    })
}

pub fn is_pairing_intent(text: &str, bot_username: Option<&str>, expected_code: &str) -> (r: bool)
    ensures
        r == spec_is_pairing_intent(
            text@,
            match bot_username {
                Some(b) => Some(b@),
                None => None,
            },
            expected_code@,
        ),
{
    let v = chars_of(text);
    let ws = split_ws(&v);
    assert(views(ws@).len() == ws@.len());
    if ws.len() != 2 {
        return false;
    }
    assert(views(ws@)[0] == ws@[0]@ && views(ws@)[1] == ws@[1]@);
    let code = chars_of(expected_code);
    if !crate::text::seq_eq(&ws[1], &code) {
        return false;
    }
    if eq_str(&ws[0], "/pair") {
        return true;
    }
    let bot = match bot_username {
        None => {
            return false;
        },
        Some(b) => b,
    };
    match split_once_char(&ws[0], '@') {
        None => false,
        Some((command, mentioned)) => {
            let b = chars_of(bot);
            eq_str(&command, "/pair") && eq_ignore_case_vec(&mentioned, &b)
        },
    }
}

/// A message that completes pairing: from a private chat, with the pairing
/// command, sent after the code was issued and no longer ago than the code lives.
pub open spec fn is_pair_match(
    m: PairingView,
    bot_username: Option<Seq<char>>,
    expected_code: Seq<char>,
    issued_after_s: i64,
    now_s: i64,
) -> bool {
    &&& m.chat_type == "private"@
    &&& spec_is_pairing_intent(m.text, bot_username, expected_code)
    &&& m.sent_at_s >= issued_after_s
    &&& m.sent_at_s > 0
    &&& now_s - m.sent_at_s <= PAIR_CODE_TTL_SECONDS
}

/// The latest update that completes pairing.
pub open spec fn spec_latest_pair_match(
    us: Seq<PairingView>,
    bot_username: Option<Seq<char>>,
    expected_code: Seq<char>,
    issued_after_s: i64,
    now_s: i64,
) -> Option<PairingView>
    decreases us.len(),
{
    if us.len() == 0 {
        None
    } else if is_pair_match(us.last(), bot_username, expected_code, issued_after_s, now_s) {
        Some(us.last())
    } else {
        spec_latest_pair_match(us.drop_last(), bot_username, expected_code, issued_after_s, now_s)
    }
}

pub open spec fn pairing_views(us: Seq<PairingUpdate>) -> Seq<PairingView> {
    us.map_values(|u: PairingUpdate| u@)
}

/// The chat and sender of the latest message that completes pairing, at
/// time `now_s`.
pub fn latest_pair_candidate(
    updates: &Vec<PairingUpdate>,
    bot_username: Option<&str>,
    expected_code: &str,
    issued_after_s: i64,
    now_s: i64,
) -> (r: Result<PairCandidate, String>)
    ensures
        match spec_latest_pair_match(
            pairing_views(updates@),
            match bot_username {
                Some(b) => Some(b@),
                None => None,
            },
            expected_code@,
            issued_after_s,
            now_s,
        ) {
            Some(m) => r matches Ok(c) && c.chat_id == m.chat_id && c.sender_id == m.sender_id
                && c.chat_type@ == m.chat_type,
            None => r matches Err(e) && e@
                == "pairing に使える一致メッセージがありません。bot へ `/pair <code>` を送ってから再実行してください。"@,
        },
{
    let ghost bot = match bot_username {
        Some(b) => Some(b@),
        None => None,
    };
    let ghost us = pairing_views(updates@);
    assert(us.take(updates.len() as int) =~= us);
    let mut j: usize = updates.len();
    while j > 0
        invariant
            j <= updates.len(),
            us == pairing_views(updates@),
            bot == match bot_username {
                Some(b) => Some(b@),
                None => None,
            },
            spec_latest_pair_match(us, bot, expected_code@, issued_after_s, now_s)
                == spec_latest_pair_match(us.take(j as int), bot, expected_code@, issued_after_s, now_s),
        decreases j,
    {
        let u = &updates[j - 1];
        let m = &u.message;
        assert(us.take(j as int).drop_last() =~= us.take(j - 1));
        assert(us.take(j as int).last() == u@);
        let fresh = (now_s as i128) - (m.sent_at_s as i128) <= 180i128;
        let private = string_eq(m.chat_type.as_str(), "private");
        let intent = is_pairing_intent(m.text.as_str(), bot_username, expected_code);
        let matched = private && intent && m.sent_at_s >= issued_after_s && m.sent_at_s > 0 && fresh;
        assert(u@.chat_type == m.chat_type@ && u@.text == m.text@ && u@.sent_at_s == m.sent_at_s);
        assert(matched == is_pair_match(u@, bot, expected_code@, issued_after_s, now_s));
        if matched {
            return Ok(
                PairCandidate {
                    chat_id: m.chat_id,
                    sender_id: m.sender_id,
                    chat_type: m.chat_type.clone(),
                },
            );
        }
        j = j - 1;
    }
    Err(
        str_of(
            "pairing に使える一致メッセージがありません。bot へ `/pair <code>` を送ってから再実行してください。",
        ),
    )
}

#[verifier::external_type_specification]
#[verifier::external_body]
pub struct ExStdRng(rand::rngs::StdRng);

/// `StdRng::from_rng(OsRng)`: a generator seeded with bytes that the
/// operating system supplies through `OsRng::try_fill_bytes`. `None` is the
/// error that call returns when the operating system cannot supply them; the
/// call does not panic. Nothing is stated of the seed, which is chance.
#[verifier::external_body]
fn seeded_generator() -> (r: Option<rand::rngs::StdRng>) {
    rand::SeedableRng::from_rng(rand::rngs::OsRng).ok()
}

/// Draws one character uniformly from `A-Z`, `a-z` and `0-9`
/// (`rand::distributions::Alphanumeric` sampled from the generator). The
/// contract states only that the byte is an ASCII letter or digit, which the
/// distribution's character set guarantees; which one comes back is chance.
#[verifier::external_body]
fn random_alphanumeric(rng: &mut rand::rngs::StdRng) -> (b: u8)
    ensures
        is_ascii_alnum(b as char),
{
    rand::Rng::sample(rng, rand::distributions::Alphanumeric)
}

pub const PAIR_CODE_LENGTH: usize = 12;

/// The pairing code written with drawn ASCII letters and digits: each one
/// upper-cased, in the order drawn.
pub fn pair_code_from_bytes(bytes: &Vec<u8>) -> (r: String)
    requires
        forall|i: int| 0 <= i < bytes@.len() ==> is_ascii_alnum(#[trigger] bytes@[i] as char),
    ensures
        r@.len() == bytes@.len(),
        forall|i: int| 0 <= i < bytes@.len() ==> #[trigger] r@[i] == ascii_upper(bytes@[i] as char),
        forall|i: int| 0 <= i < r@.len() ==> is_ascii_upper(#[trigger] r@[i]) || is_ascii_digit(r@[i]),
{
    let mut code: Vec<char> = Vec::new();
    let mut i: usize = 0;
    while i < bytes.len()
        invariant
            i <= bytes.len(),
            code@.len() == i,
            forall|k: int| 0 <= k < bytes@.len() ==> is_ascii_alnum(#[trigger] bytes@[k] as char),
            forall|k: int| 0 <= k < i ==> #[trigger] code@[k] == ascii_upper(bytes@[k] as char),
        decreases bytes.len() - i,
    {
        let c = char_to_upper(bytes[i] as char);
        code.push(c);
        i = i + 1;
    }
    let r = string_of(code.as_slice());
    assert forall|k: int| 0 <= k < r@.len() implies is_ascii_upper(#[trigger] r@[k]) || is_ascii_digit(
        r@[k],
    ) by {
        assert(is_ascii_alnum(bytes@[k] as char));
        assert(r@[k] == ascii_upper(bytes@[k] as char));
    }
    r
}

/// A fresh pairing code: twelve random upper-case ASCII letters and digits,
/// or an error when the operating system supplies no random bytes.
pub fn generate_pair_code() -> (r: Result<String, String>)
    ensures
        r matches Ok(code) ==> code@.len() == 12 && forall|i: int|
            0 <= i < 12 ==> is_ascii_upper(#[trigger] code@[i]) || is_ascii_digit(code@[i]),
        r matches Err(e) ==> e@ == "the operating system could not supply random bytes for a pairing code"@,
{
    let mut rng = match seeded_generator() {
        Some(rng) => rng,
        None => {
            return Err(str_of("the operating system could not supply random bytes for a pairing code"));
        },
    };
    let mut bytes: Vec<u8> = Vec::new();
    let mut i: usize = 0;
    while i < PAIR_CODE_LENGTH
        invariant
            i <= PAIR_CODE_LENGTH,
            bytes@.len() == i,
            forall|k: int| 0 <= k < i ==> is_ascii_alnum(#[trigger] bytes@[k] as char),
        decreases PAIR_CODE_LENGTH - i,
    {
        let b = random_alphanumeric(&mut rng);
        bytes.push(b);
        i = i + 1;
    }
    Ok(pair_code_from_bytes(&bytes))
}

pub fn access_pair_code_message(pair_code: &str) -> (r: String)
    ensures
        r@ == "remotty pairing code: `"@ + pair_code@ + "`\nRun `/remotty-access-pair "@ + pair_code@
            + "` in Codex within 180 seconds."@,
{
    let mut r = str_of("remotty pairing code: `");
    r.append(pair_code);
    r.append("`\nRun `/remotty-access-pair ");
    r.append(pair_code);
    r.append("` in Codex within 180 seconds.");
    r
}

/// The pending code a private chat gets, valid for the code's lifetime.
pub fn access_pair_record(
    code: String,
    sender_id: i64,
    chat_id: i64,
    chat_type: &str,
    issued_at_ms: i64,
) -> (r: PendingAccessPairCode)
    requires
        issued_at_ms <= i64::MAX - PAIR_CODE_TTL_SECONDS * 1000,
    ensures
        r.code@ == code@,
        r.sender_id == sender_id,
        r.chat_id == chat_id,
        r.chat_type@ == chat_type@,
        r.issued_at_ms == issued_at_ms,
        r.expires_at_ms == issued_at_ms + PAIR_CODE_TTL_SECONDS * 1000,
{
    PendingAccessPairCode {
        code,
        sender_id,
        chat_id,
        chat_type: str_of(chat_type),
        issued_at_ms,
        expires_at_ms: issued_at_ms + PAIR_CODE_TTL_SECONDS * 1000,
    }
}

/// Access codes are sent only where private chats are allowed.
pub fn allows_private_chats(allowed_chat_types: &Vec<String>) -> (r: bool)
    ensures
        r == str_views(allowed_chat_types@).contains("private"@),
{
    let mut i: usize = 0;
    while i < allowed_chat_types.len()
        invariant
            i <= allowed_chat_types.len(),
            forall|k: int| 0 <= k < i ==> allowed_chat_types@[k]@ != "private"@,
        decreases allowed_chat_types.len() - i,
    {
        if string_eq(allowed_chat_types[i].as_str(), "private") {
            assert(str_views(allowed_chat_types@)[i as int] == "private"@);
            return true;
        }
        i = i + 1;
    }
    assert forall|k: int| 0 <= k < str_views(allowed_chat_types@).len() implies str_views(
        allowed_chat_types@,
    )[k] != "private"@ by {
        assert(str_views(allowed_chat_types@)[k] == allowed_chat_types@[k]@);
    }
    false
}

/// Pairing reads updates by polling, which a webhook would take away.
pub fn ensure_polling_mode_for_pairing(webhook_url: &str) -> (r: Result<(), String>)
    ensures
        trim(webhook_url@).len() == 0 <==> r is Ok,
        r matches Err(e) ==> e@
            == "Telegram bot に webhook が残っています。pairing の前に webhook を外して polling に切り替えてください: "@
            + webhook_url@,
{
    if str_is_blank(webhook_url) {
        return Ok(());
    }
    let mut e = str_of(
        "Telegram bot に webhook が残っています。pairing の前に webhook を外して polling に切り替えてください: ",
    );
    e.append(webhook_url);
    Err(e)
}

// ---------------------------------------------------------------------------
// Summaries
// ---------------------------------------------------------------------------

pub open spec fn thread_lines(t: CodexThreadSummary) -> Seq<Seq<char>> {
    seq![
        "- `"@ + t.thread_id@ + "` "@ + match t.title {
            Some(s) => s@,
            None => "untitled"@,
        },
        "  cwd: `"@ + match t.cwd {
            Some(s) => s@,
            None => "cwd unavailable"@,
        } + "`"@,
    ]
}

pub open spec fn threads_lines(ts: Seq<CodexThreadSummary>) -> Seq<Seq<char>>
    decreases ts.len(),
{
    if ts.len() == 0 {
        Seq::<Seq<char>>::empty()
    } else {
        threads_lines(ts.drop_last()) + thread_lines(ts.last())
    }
}

/// At most ten threads, each with its title and working directory.
pub open spec fn spec_sessions_summary(ts: Seq<CodexThreadSummary>) -> Seq<char> {
    if ts.len() == 0 {
        "No Codex threads returned."@
    } else {
        let shown = if ts.len() <= 10 {
            ts
        } else {
            ts.take(10)
        };
        join(
            seq!["Codex threads:"@] + threads_lines(shown) + seq![
                "Telegram select: `/remotty-sessions <thread_id>`"@,
            ],
            "\n"@,
        )
    }
}

pub fn format_sessions_summary(threads: &Vec<CodexThreadSummary>) -> (r: String)
    ensures
        r@ == spec_sessions_summary(threads@),
{
    if threads.len() == 0 {
        return str_of("No Codex threads returned.");
    }
    let shown: usize = if threads.len() <= 10 {
        threads.len()
    } else {
        10
    };
    let ghost shown_seq = if threads@.len() <= 10 {
        threads@
    } else {
        threads@.take(10)
    };
    assert(shown_seq =~= threads@.take(shown as int));
    let mut lines: Vec<String> = Vec::new();
    lines.push(str_of("Codex threads:"));
    let mut i: usize = 0;
    while i < shown
        invariant
            shown <= threads.len(),
            i <= shown,
            str_views(lines@) =~= seq!["Codex threads:"@] + threads_lines(threads@.take(i as int)),
        decreases shown - i,
    {
        let t = &threads[i];
        let mut first = str_of("- `");
        first.append(t.thread_id.as_str());
        first.append("` ");
        match &t.title {
            Some(title) => first.append(title.as_str()),
            None => first.append("untitled"),
        }
        let mut second = str_of("  cwd: `");
        match &t.cwd {
            Some(cwd) => second.append(cwd.as_str()),
            None => second.append("cwd unavailable"),
        }
        second.append("`");
        let ghost before = lines@;
        assert(seq![first@, second@] =~= thread_lines(threads@[i as int]));
        lines.push(first);
        lines.push(second);
        assert(threads@.take(i + 1).drop_last() =~= threads@.take(i as int));
        assert(str_views(lines@) =~= str_views(before) + thread_lines(threads@[i as int]));
        i = i + 1;
    }
    let ghost before = lines@;
    lines.push(str_of("Telegram select: `/remotty-sessions <thread_id>`"));
    assert(str_views(lines@) =~= str_views(before).push(
        "Telegram select: `/remotty-sessions <thread_id>`"@,
    ));
    assert(str_views(lines@) =~= seq!["Codex threads:"@] + threads_lines(shown_seq) + seq![
        "Telegram select: `/remotty-sessions <thread_id>`"@,
    ]);
    join_strings(&lines, "\n")
}

pub open spec fn admin_line(id: i64) -> Seq<char> {
    "- `"@ + int_str(id as int) + "` (bridge.toml admin)"@
}

pub open spec fn sender_line(s: AuthorizedSender) -> Seq<char> {
    "- `"@ + int_str(s.sender_id as int) + "` ("@ + s.platform@ + ")"@
}

/// The lines for the senders that the configuration does not already list.
pub open spec fn stored_sender_lines(admins: Seq<i64>, senders: Seq<AuthorizedSender>) -> Seq<
    Seq<char>,
>
    decreases senders.len(),
{
    if senders.len() == 0 {
        Seq::<Seq<char>>::empty()
    } else {
        let r = stored_sender_lines(admins, senders.drop_last());
        if admins.contains(senders.last().sender_id) {
            r
        } else {
            r.push(sender_line(senders.last()))
        }
    }
}

/// The senders the allowlist admits: the configured admins, then the
/// paired senders that are not admins.
pub open spec fn spec_allowlist_summary(admins: Seq<i64>, senders: Seq<AuthorizedSender>) -> Seq<
    char,
> {
    let stored = stored_sender_lines(admins, senders);
    if admins.len() == 0 && stored.len() == 0 {
        "allowlist は有効ですが、まだ許可済み sender はありません。`telegram pair` を実行してください。"@
    } else {
        join(
            seq!["allowlist は有効です。許可済み sender:"@] + admins.map_values(|id: i64| admin_line(id))
                + stored,
            "\n"@,
        )
    }
}

fn contains_i64(v: &Vec<i64>, x: i64) -> (r: bool)
    ensures
        r == v@.contains(x),
{
    let mut i: usize = 0;
    while i < v.len()
        invariant
            i <= v.len(),
            forall|k: int| 0 <= k < i ==> v@[k] != x,
        decreases v.len() - i,
    {
        if v[i] == x {
            return true;
        }
        i = i + 1;
    }
    false
}

pub fn format_allowlist_summary(admin_sender_ids: &Vec<i64>, senders: &Vec<AuthorizedSender>) -> (r:
    String)
    ensures
        r@ == spec_allowlist_summary(admin_sender_ids@, senders@),
{
    let mut lines: Vec<String> = Vec::new();
    lines.push(str_of("allowlist は有効です。許可済み sender:"));
    let mut i: usize = 0;
    while i < admin_sender_ids.len()
        invariant
            i <= admin_sender_ids.len(),
            str_views(lines@) =~= seq!["allowlist は有効です。許可済み sender:"@]
                + admin_sender_ids@.take(i as int).map_values(|id: i64| admin_line(id)),
        decreases admin_sender_ids.len() - i,
    {
        let mut line = str_of("- `");
        line.append(i64_string(admin_sender_ids[i]).as_str());
        line.append("` (bridge.toml admin)");
        let ghost before = lines@;
        lines.push(line);
        assert(str_views(lines@) =~= str_views(before).push(admin_line(admin_sender_ids@[i as int])));
        assert(admin_sender_ids@.take(i + 1) =~= admin_sender_ids@.take(i as int).push(
            admin_sender_ids@[i as int],
        ));
        i = i + 1;
    }
    assert(admin_sender_ids@.take(admin_sender_ids.len() as int) =~= admin_sender_ids@);
    let ghost head = str_views(lines@);
    let mut stored_count: usize = 0;
    let mut j: usize = 0;
    while j < senders.len()
        invariant
            j <= senders.len(),
            head.len() >= 1,
            str_views(lines@) =~= head + stored_sender_lines(admin_sender_ids@, senders@.take(j as int)),
            stored_count == stored_sender_lines(admin_sender_ids@, senders@.take(j as int)).len(),
            stored_count <= j,
        decreases senders.len() - j,
    {
        let s = &senders[j];
        assert(senders@.take(j + 1).drop_last() =~= senders@.take(j as int));
        if !contains_i64(admin_sender_ids, s.sender_id) {
            let mut line = str_of("- `");
            line.append(i64_string(s.sender_id).as_str());
            line.append("` (");
            line.append(s.platform.as_str());
            line.append(")");
            let ghost before = lines@;
            lines.push(line);
            assert(str_views(lines@) =~= str_views(before).push(sender_line(senders@[j as int])));
            stored_count = stored_count + 1;
        }
        j = j + 1;
    }
    assert(senders@.take(senders.len() as int) =~= senders@);
    if admin_sender_ids.len() == 0 && stored_count == 0 {
        return str_of(
            "allowlist は有効ですが、まだ許可済み sender はありません。`telegram pair` を実行してください。",
        );
    }
    join_strings(&lines, "\n")
}

/// The `policy allowlist` report: the configured admins, and the senders of
/// the store when it exists (`None` when there is no database yet, which the
/// report does not create).
pub fn policy_allowlist(admin_sender_ids: &Vec<i64>, stored_senders: Option<Vec<AuthorizedSender>>) -> (r:
    String)
    ensures
        r@ == spec_allowlist_summary(
            admin_sender_ids@,
            match stored_senders {
                Some(s) => s@,
                None => Seq::empty(),
            },
        ),
{
    let senders = match stored_senders {
        Some(s) => s,
        None => Vec::new(),
    };
    format_allowlist_summary(admin_sender_ids, &senders)
}

// ---------------------------------------------------------------------------
// The live-environment report
// ---------------------------------------------------------------------------

pub open spec fn spec_env_presence(value: Option<Seq<char>>) -> Seq<char> {
    match value {
        Some(v) => if trim(v).len() > 0 {
            "set"@
        } else {
            "missing"@
        },
        None => "missing"@,
    }
}

/// Whether an environment variable holds something other than blanks.
pub fn env_presence(value: Option<&str>) -> (r: &'static str)
    ensures
        r@ == spec_env_presence(
            match value {
                Some(v) => Some(v@),
                None => None,
            },
        ),
{
    match value {
        Some(v) => if !str_is_blank(v) {
            "set"
        } else {
            "missing"
        },
        None => "missing",
    }
}

fn is_set(value: Option<&str>) -> (r: bool)
    ensures
        r == match value {
            Some(v) => trim(v@).len() > 0,
            None => false,
        },
{
    match value {
        Some(v) => !str_is_blank(v),
        None => false,
    }
}

/// `set` from the environment, `stored` when the configured secret could be
/// read, else `missing`.
pub fn live_token_presence(environment: Option<&str>, secret_stored: bool) -> (r: &'static str)
    ensures
        r@ == (if spec_env_presence(
            match environment {
                Some(v) => Some(v@),
                None => None,
            },
        ) == "set"@ {
            "set"@
        } else if secret_stored {
            "stored"@
        } else {
            "missing"@
        }),
{
    proof {
        reveal_strlit("set");
        reveal_strlit("missing");
    }
    if is_set(environment) {
        "set"
    } else if secret_stored {
        "stored"
    } else {
        "missing"
    }
}

pub open spec fn spec_inferred_presence(environment: Option<Seq<char>>, inferred: nat) -> Seq<char> {
    if spec_env_presence(environment) == "set"@ {
        "set"@
    } else if inferred == 1 {
        "inferred"@
    } else if inferred == 0 {
        "missing"@
    } else {
        "ambiguous"@
    }
}

/// Where the live smoke test finds its sender: the environment, or the one
/// sender the allowlist knows.
pub fn live_sender_presence(environment: Option<&str>, inferred_senders: usize) -> (r: &'static str)
    ensures
        r@ == spec_inferred_presence(
            match environment {
                Some(v) => Some(v@),
                None => None,
            },
            inferred_senders as nat,
        ),
{
    proof {
        reveal_strlit("set");
        reveal_strlit("missing");
    }
    if is_set(environment) {
        "set"
    } else if inferred_senders == 1 {
        "inferred"
    } else if inferred_senders == 0 {
        "missing"
    } else {
        "ambiguous"
    }
}

/// Where the live smoke test finds its chat: the environment, or the chat
/// of the one sender the allowlist knows.
pub fn live_chat_presence(environment: Option<&str>, inferred_senders: usize) -> (r: &'static str)
    ensures
        r@ == spec_inferred_presence(
            match environment {
                Some(v) => Some(v@),
                None => None,
            },
            inferred_senders as nat,
        ),
{
    live_sender_presence(environment, inferred_senders)
}

pub fn live_workspace_presence(environment: Option<&str>) -> (r: &'static str)
    ensures
        r@ == (if spec_env_presence(
            match environment {
                Some(v) => Some(v@),
                None => None,
            },
        ) == "set"@ {
            "set"@
        } else {
            "default"@
        }),
{
    proof {
        reveal_strlit("set");
        reveal_strlit("missing");
    }
    if is_set(environment) {
        "set"
    } else {
        "default"
    }
}

/// The webhook state: `unknown` when it could not be read, `polling-ready`
/// when no webhook is set, else `webhook-configured`.
pub fn live_webhook_presence(webhook_url: Option<&str>) -> (r: &'static str)
    ensures
        r@ == match webhook_url {
            None => "unknown"@,
            Some(url) => if trim(url@).len() == 0 {
                "polling-ready"@
            } else {
                "webhook-configured"@
            },
        },
{
    match webhook_url {
        None => "unknown",
        Some(url) => if str_is_blank(url) {
            "polling-ready"
        } else {
            "webhook-configured"
        },
    }
}

/// The values of `s` without repeats, each where it first occurs.
pub open spec fn distinct(s: Seq<i64>) -> Seq<i64>
    decreases s.len(),
{
    if s.len() == 0 {
        Seq::<i64>::empty()
    } else {
        let r = distinct(s.drop_last());
        if r.contains(s.last()) {
            r
        } else {
            r.push(s.last())
        }
    }
}

/// The number of different senders among the admins and the stored senders.
pub fn inferred_sender_count(admin_sender_ids: &Vec<i64>, stored_sender_ids: &Vec<i64>) -> (r: usize)
    ensures
        r == distinct(admin_sender_ids@ + stored_sender_ids@).len(),
{
    let mut all: Vec<i64> = Vec::new();
    let mut i: usize = 0;
    while i < admin_sender_ids.len()
        invariant
            i <= admin_sender_ids.len(),
            all@ == admin_sender_ids@.take(i as int),
        decreases admin_sender_ids.len() - i,
    {
        all.push(admin_sender_ids[i]);
        i = i + 1;
        assert(admin_sender_ids@.take(i as int) =~= admin_sender_ids@.take(i - 1).push(
            admin_sender_ids@[i - 1],
        ));
    }
    let mut j: usize = 0;
    while j < stored_sender_ids.len()
        invariant
            i == admin_sender_ids.len(),
            j <= stored_sender_ids.len(),
            all@ =~= admin_sender_ids@ + stored_sender_ids@.take(j as int),
        decreases stored_sender_ids.len() - j,
    {
        all.push(stored_sender_ids[j]);
        j = j + 1;
        assert(stored_sender_ids@.take(j as int) =~= stored_sender_ids@.take(j - 1).push(
            stored_sender_ids@[j - 1],
        ));
    }
    assert(all@ =~= admin_sender_ids@ + stored_sender_ids@);
    let mut seen: Vec<i64> = Vec::new();
    let mut k: usize = 0;
    while k < all.len()
        invariant
            k <= all.len(),
            seen@ == distinct(all@.take(k as int)),
        decreases all.len() - k,
    {
        assert(all@.take(k + 1).drop_last() =~= all@.take(k as int));
        if !contains_i64(&seen, all[k]) {
            seen.push(all[k]);
        }
        k = k + 1;
    }
    assert(all@.take(all.len() as int) =~= all@);
    seen.len()
}

/// What the live smoke test will find in this environment.
pub struct LiveEnvReport {
    pub token: String,
    pub chat: String,
    pub sender: String,
    pub workspace: String,
    pub webhook: String,
    pub codex_bin: String,
    pub codex_profile: String,
    pub timeout_sec: String,
    pub approval_mode: String,
}

pub open spec fn spec_live_env_lines(r: LiveEnvReport) -> Seq<Seq<char>> {
    seq![
        "live environment check"@,
        "required:"@,
        "- `LIVE_TELEGRAM_BOT_TOKEN`: "@ + r.token@,
        "- `LIVE_TELEGRAM_CHAT_ID`: "@ + r.chat@,
        "- `LIVE_TELEGRAM_SENDER_ID`: "@ + r.sender@,
        "- `LIVE_WORKSPACE`: "@ + r.workspace@,
        "- Telegram webhook: "@ + r.webhook@,
        "optional:"@,
        "- `LIVE_CODEX_BIN`: "@ + r.codex_bin@,
        "- `LIVE_CODEX_PROFILE`: "@ + r.codex_profile@,
        "- `LIVE_TIMEOUT_SEC`: "@ + r.timeout_sec@,
        "- `LIVE_APPROVAL_MODE`: "@ + r.approval_mode@,
    ]
}

fn labelled(label: &str, value: &String) -> (r: String)
    ensures
        r@ == label@ + value@,
{
    let mut r = str_of(label);
    r.append(value.as_str());
    r
}

pub fn format_live_env_check(report: &LiveEnvReport) -> (r: String)
    ensures
        r@ == join(spec_live_env_lines(*report), "\n"@),
{
    let lines = vec![
        str_of("live environment check"),
        str_of("required:"),
        labelled("- `LIVE_TELEGRAM_BOT_TOKEN`: ", &report.token),
        labelled("- `LIVE_TELEGRAM_CHAT_ID`: ", &report.chat),
        labelled("- `LIVE_TELEGRAM_SENDER_ID`: ", &report.sender),
        labelled("- `LIVE_WORKSPACE`: ", &report.workspace),
        labelled("- Telegram webhook: ", &report.webhook),
        str_of("optional:"),
        labelled("- `LIVE_CODEX_BIN`: ", &report.codex_bin),
        labelled("- `LIVE_CODEX_PROFILE`: ", &report.codex_profile),
        labelled("- `LIVE_TIMEOUT_SEC`: ", &report.timeout_sec),
        labelled("- `LIVE_APPROVAL_MODE`: ", &report.approval_mode),
    ];
    assert(str_views(lines@) =~= spec_live_env_lines(*report));
    join_strings(&lines, "\n")
}

} // verus!
