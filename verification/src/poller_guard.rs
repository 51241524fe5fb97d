//! The system-wide lock that keeps two bridges from polling one bot.
use vstd::prelude::*;

use crate::text::{i64_string, int_str, str_of};

verus! {

/// The name of the lock for one bot.
pub fn mutex_name(bot_id: i64) -> (r: String)
    ensures
        r@ == "Global\\remotty_telegram_bot_"@ + int_str(bot_id as int),
{
    let mut r = str_of("Global\\remotty_telegram_bot_");
    r.append(i64_string(bot_id).as_str());
    r
}

pub const POLLING_CONFLICT_HINT: &'static str = "Windows では `Get-Process remotty, codex -ErrorAction SilentlyContinue | Select-Object Id,ProcessName,Path` で候補を確認できます。対象が分かる場合は `Stop-Process -Id <PID>` で止めてください。";

pub fn polling_conflict_hint() -> (r: &'static str)
    ensures
        r@ == POLLING_CONFLICT_HINT@,
{
    POLLING_CONFLICT_HINT
}

/// The refusal when another bridge already holds the lock.
pub fn already_polling_message() -> (r: String)
    ensures
        r@ == "同じ bot を読む別の bridge がすでに動いています。別の `remotty` を止めてから再実行してください。\n"@
            + POLLING_CONFLICT_HINT@,
{
    let mut r = str_of(
        "同じ bot を読む別の bridge がすでに動いています。別の `remotty` を止めてから再実行してください。\n",
    );
    r.append(POLLING_CONFLICT_HINT);
    r
}

/// The refusal when Telegram answers `getUpdates` with 409 Conflict.
pub fn polling_conflict_message() -> (r: String)
    ensures
        r@ == "telegram getUpdates returned 409 Conflict. Stop any other bridge, live smoke, or bot worker that is reading updates for this bot, then retry.\n"@
            + POLLING_CONFLICT_HINT@,
{
    let mut r = str_of(
        "telegram getUpdates returned 409 Conflict. Stop any other bridge, live smoke, or bot worker that is reading updates for this bot, then retry.\n",
    );
    r.append(POLLING_CONFLICT_HINT);
    r
}

} // verus!
