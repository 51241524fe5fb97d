//! Pure parts of the Codex app-server protocol: approval requests as the
//! bridge stores them, thread summaries, version and argument handling.
use vstd::prelude::*;

use crate::config::{CodexConfig, WorkspaceConfig};
use crate::codex::{CodexOutcome, CodexRequest};
use crate::json::{jarray, jbool, jget, jget_str, jstr, Json, JsonView};
use crate::store::{ApprovalRequestKind, ApprovalRequestRecord};
use crate::text::{
    all_digits, back_to, chars_of, dec, join, join_strings, not_in_pred, skip_from,
    skip_not_in_set_index, split_once, split_once_char, split_ws, str_of, str_views, string_of,
    strings_of, subvec, trim, trim_str, views, words, split_all, split_char_all, trim_ws, string_eq,
};

verus! {

#[derive(Debug, Clone, PartialEq, Eq)]
pub struct CodexApprovalRequest {
    pub request_id: String,
    pub transport_request_id: String,
    pub thread_id: String,
    pub turn_id: String,
    pub item_id: String,
    pub request_kind: ApprovalRequestKind,
    pub summary_text: String,
    pub raw_payload_json: String,
}

#[derive(Debug, Clone, PartialEq, Eq)]
pub struct CodexThreadSummary {
    pub thread_id: String,
    pub title: Option<String>,
    pub cwd: Option<String>,
    pub model: Option<String>,
    pub updated_at: Option<String>,
}

// ---------------------------------------------------------------------------
// Text summaries
// ---------------------------------------------------------------------------

/// At most `max_chars` characters of `text`; a text that is too long keeps
/// its first `max_chars - 1` characters and ends in `…`.
pub open spec fn spec_summarize(text: Seq<char>, max_chars: nat) -> Seq<char> {
    if text.len() <= max_chars {
        text
    } else if max_chars == 0 {
        Seq::<char>::empty()
    } else {
        text.take(max_chars - 1).push('…')
    }
}

pub fn summarize_multiline_text(text: &str, max_chars: usize) -> (r: String)
    ensures
        r@ == spec_summarize(text@, max_chars as nat),
        r@.len() <= max_chars,
{
    let v = chars_of(text);
    if v.len() <= max_chars {
        return str_of(text);
    }
    if max_chars == 0 {
        return String::new();
    }
    let mut prefix = subvec(&v, 0, max_chars - 1);
    prefix.push('…');
    assert(prefix@ =~= text@.take(max_chars - 1).push('…'));
    string_of(prefix.as_slice())
}

/// The words of `text` joined by single spaces, then summarized.
pub open spec fn spec_summarize_inline(text: Seq<char>, max_chars: nat) -> Seq<char> {
    spec_summarize(join(words(text), " "@), max_chars)
}

pub fn summarize_inline_text(text: &str, max_chars: usize) -> (r: String)
    ensures
        r@ == spec_summarize_inline(text@, max_chars as nat),
        r@.len() <= max_chars,
{
    let v = chars_of(text);
    let ws = split_ws(&v);
    let parts = strings_of(&ws);
    let joined = join_strings(&parts, " ");
    summarize_multiline_text(joined.as_str(), max_chars)
}

// ---------------------------------------------------------------------------
// Versions
// ---------------------------------------------------------------------------

pub const MIN_CODEX_APP_SERVER_VERSION: &'static str = "0.118.0";

/// What follows the first `/` of the first product token that has one.
pub open spec fn product_version(products: Seq<Seq<char>>) -> Option<Seq<char>>
    decreases products.len(),
{
    if products.len() == 0 {
        None
    } else {
        match split_once(products[0], '/') {
            Some(parts) => Some(parts.1),
            None => product_version(products.drop_first()),
        }
    }
}

/// The text before the first character of `stops`.
pub open spec fn prefix_before(s: Seq<char>, stops: Seq<char>) -> Seq<char> {
    s.take(skip_from(s, 0, not_in_pred(stops)))
}

pub open spec fn is_number_part(s: Seq<char>) -> bool {
    s.len() > 0 && all_digits(s)
}

/// The first three dot-separated parts of `v` are non-empty runs of ASCII digits.
pub open spec fn has_numeric_triplet(v: Seq<char>) -> bool {
    match split_once(v, '.') {
        None => false,
        Some(p1) => is_number_part(p1.0) && match split_once(p1.1, '.') {
            None => false,
            Some(p2) => is_number_part(p2.0) && is_number_part(prefix_before(p2.1, seq!['.'])),
        },
    }
}

/// The Codex version a user agent names: the version of its first product,
/// without comments or build and pre-release suffixes.
pub open spec fn spec_codex_version(user_agent: Seq<char>) -> Option<Seq<char>> {
    match product_version(words(user_agent)) {
        None => None,
        Some(v) => {
            let core = prefix_before(prefix_before(v, seq![' ', '(']), seq!['+', '-']);
            if has_numeric_triplet(core) {
                Some(core)
            } else {
                None
            }
        },
    }
}

fn first_product_version(products: &Vec<Vec<char>>) -> (r: Option<Vec<char>>)
    ensures
        match r {
            Some(v) => product_version(views(products@)) == Some(v@),
            None => product_version(views(products@)) is None,
        },
{
    let ghost ps = views(products@);
    assert(ps.skip(0) =~= ps);
    let mut i: usize = 0;
    while i < products.len()
        invariant
            i <= products.len(),
            ps == views(products@),
            product_version(ps) == product_version(ps.skip(i as int)),
        decreases products.len() - i,
    {
        assert(ps.skip(i as int)[0] == products@[i as int]@);
        assert(ps.skip(i as int).drop_first() =~= ps.skip(i + 1));
        match split_once_char(&products[i], '/') {
            Some((_, version)) => {
                return Some(version);
            },
            None => {},
        }
        i = i + 1;
    }
    assert(ps.skip(products.len() as int) =~= Seq::<Seq<char>>::empty());
    None
}

fn prefix_before_any(v: &Vec<char>, stops: &Vec<char>) -> (r: Vec<char>)
    ensures
        r@ == prefix_before(v@, stops@),
{
    let k = skip_not_in_set_index(v, stops);
    subvec(v, 0, k)
}

fn is_number_part_vec(v: &Vec<char>) -> (r: bool)
    ensures
        r == is_number_part(v@),
{
    if v.len() == 0 {
        return false;
    }
    let mut i: usize = 0;
    while i < v.len()
        invariant
            i <= v.len(),
            forall|k: int| 0 <= k < i ==> crate::text::is_ascii_digit(#[trigger] v@[k]),
        decreases v.len() - i,
    {
        if !crate::text::char_is_digit(v[i]) {
            return false;
        }
        i = i + 1;
    }
    true
}

fn has_numeric_triplet_vec(v: &Vec<char>) -> (r: bool)
    ensures
        r == has_numeric_triplet(v@),
{
    match split_once_char(v, '.') {
        None => false,
        Some((a, rest)) => {
            if !is_number_part_vec(&a) {
                return false;
            }
            match split_once_char(&rest, '.') {
                None => false,
                Some((b, tail)) => {
                    let dot = vec!['.'];
                    let c = prefix_before_any(&tail, &dot);
                    assert(dot@ =~= seq!['.']);
                    is_number_part_vec(&b) && is_number_part_vec(&c)
                },
            }
        },
    }
}

pub fn read_codex_version_from_user_agent(user_agent: &str) -> (r: Option<String>)
    ensures
        match r {
            Some(v) => spec_codex_version(user_agent@) == Some(v@),
            None => spec_codex_version(user_agent@) is None,
        },
{
    let v = chars_of(user_agent);
    let products = split_ws(&v);
    match first_product_version(&products) {
        None => None,
        Some(version) => {
            let comment_stops = vec![' ', '('];
            let suffix_stops = vec!['+', '-'];
            assert(comment_stops@ =~= seq![' ', '(']);
            assert(suffix_stops@ =~= seq!['+', '-']);
            let head = prefix_before_any(&version, &comment_stops);
            let core = prefix_before_any(&head, &suffix_stops);
            if has_numeric_triplet_vec(&core) {
                Some(string_of(core.as_slice()))
            } else {
                None
            }
        },
    }
}

// ---------------------------------------------------------------------------
// Launch arguments and workspace roots
// ---------------------------------------------------------------------------

pub open spec fn spec_spawn_args(profile: Option<Seq<char>>) -> Seq<Seq<char>> {
    match profile {
        Some(p) => if trim(p).len() > 0 {
            seq!["--profile"@, trim(p), "app-server"@]
        } else {
            seq!["app-server"@]
        },
        None => seq!["app-server"@],
    }
}

/// `codex [--profile <profile>] app-server`; a blank profile is left out.
pub fn app_server_spawn_args(config: &CodexConfig) -> (r: Vec<String>)
    ensures
        str_views(r@) == spec_spawn_args(crate::telegram::opt_str_view(config.profile)),
{
    let mut args: Vec<String> = Vec::new();
    match &config.profile {
        Some(profile) => {
            let p = trim_str(profile.as_str());
            if p.len() > 0 {
                args.push(str_of("--profile"));
                args.push(string_of(p.as_slice()));
            }
        },
        None => {},
    }
    args.push(str_of("app-server"));
    assert(str_views(args@) =~= spec_spawn_args(crate::telegram::opt_str_view(config.profile)));
    args
}

/// The configured model, trimmed, unless it is blank.
pub fn configured_model(config: &CodexConfig) -> (r: Option<String>)
    ensures
        match r {
            Some(m) => trim(config.model@).len() > 0 && m@ == trim(config.model@),
            None => trim(config.model@).len() == 0,
        },
{
    let m = trim_str(config.model.as_str());
    if m.len() == 0 {
        None
    } else {
        Some(string_of(m.as_slice()))
    }
}

/// The workspace path, then each writable root that is not listed yet.
pub open spec fn readable_roots(path: Seq<char>, writable: Seq<Seq<char>>) -> Seq<Seq<char>>
    decreases writable.len(),
{
    if writable.len() == 0 {
        seq![path]
    } else {
        let roots = readable_roots(path, writable.drop_last());
        if roots.contains(writable.last()) {
            roots
        } else {
            roots.push(writable.last())
        }
    }
}

/// The readable roots start with the workspace, list every writable root,
/// and name no directory twice.
pub proof fn lemma_readable_roots(path: Seq<char>, writable: Seq<Seq<char>>)
    ensures
        readable_roots(path, writable).len() > 0,
        readable_roots(path, writable)[0] == path,
        forall|k: int| 0 <= k < writable.len() ==> readable_roots(path, writable).contains(
            #[trigger] writable[k],
        ),
        forall|a: int, b: int|
            0 <= a < b < readable_roots(path, writable).len() ==> readable_roots(path, writable)[a]
                != readable_roots(path, writable)[b],
    decreases writable.len(),
{
    if writable.len() > 0 {
        let prev = writable.drop_last();
        lemma_readable_roots(path, prev);
        let roots = readable_roots(path, prev);
        assert forall|k: int| 0 <= k < writable.len() implies readable_roots(path, writable).contains(
            #[trigger] writable[k],
        ) by {
            if k < writable.len() - 1 {
                assert(prev[k] == writable[k]);
                let j = choose|j: int| 0 <= j < roots.len() && roots[j] == prev[k];
                if !roots.contains(writable.last()) {
                    assert(roots.push(writable.last())[j] == writable[k]);
                }
            } else if !roots.contains(writable.last()) {
                assert(roots.push(writable.last())[roots.len() as int] == writable.last());
            }
        }
    }
}

fn contains_string(v: &Vec<String>, s: &str) -> (r: bool)
    ensures
        r == str_views(v@).contains(s@),
{
    let mut i: usize = 0;
    while i < v.len()
        invariant
            i <= v.len(),
            forall|k: int| 0 <= k < i ==> v@[k]@ != s@,
        decreases v.len() - i,
    {
        if crate::text::string_eq(v[i].as_str(), s) {
            assert(str_views(v@)[i as int] == s@);
            return true;
        }
        i = i + 1;
    }
    assert forall|k: int| 0 <= k < str_views(v@).len() implies str_views(v@)[k] != s@ by {
        assert(str_views(v@)[k] == v@[k]@);
    }
    false
}

pub fn workspace_readable_roots(workspace: &WorkspaceConfig) -> (r: Vec<String>)
    ensures
        str_views(r@) == readable_roots(workspace.path@, str_views(workspace.writable_roots@)),
{
    let ghost wr = str_views(workspace.writable_roots@);
    let mut roots: Vec<String> = Vec::new();
    roots.push(workspace.path.clone());
    assert(str_views(roots@) =~= readable_roots(workspace.path@, wr.take(0)));
    let mut i: usize = 0;
    while i < workspace.writable_roots.len()
        invariant
            i <= workspace.writable_roots.len(),
            wr == str_views(workspace.writable_roots@),
            str_views(roots@) == readable_roots(workspace.path@, wr.take(i as int)),
        decreases workspace.writable_roots.len() - i,
    {
        let root = &workspace.writable_roots[i];
        assert(wr.take(i + 1).drop_last() =~= wr.take(i as int));
        assert(wr.take(i + 1).last() == root@);
        if !contains_string(&roots, root.as_str()) {
            let ghost before = roots@;
            roots.push(root.clone());
            assert(str_views(roots@) =~= str_views(before).push(root@));
        }
        i = i + 1;
    }
    assert(wr.take(workspace.writable_roots.len() as int) =~= wr);
    roots
}

// ---------------------------------------------------------------------------
// Small protocol tables
// ---------------------------------------------------------------------------

/// The exit code a finished turn reports: 0 when completed, 130 when
/// interrupted, 1 otherwise.
pub fn turn_status_exit_code(status: &str) -> (r: i32)
    ensures
        r == (if status@ == "completed"@ {
            0i32
        } else if status@ == "interrupted"@ {
            130i32
        } else {
            1i32
        }),
{
    if crate::text::string_eq(status, "completed") {
        0
    } else if crate::text::string_eq(status, "interrupted") {
        130
    } else {
        1
    }
}

pub fn approval_request_kind_key(request_kind: ApprovalRequestKind) -> (r: &'static str)
    ensures
        r@ == request_kind.name(),
{
    request_kind.as_str()
}

// ---------------------------------------------------------------------------
// Answers to tool input questions
// ---------------------------------------------------------------------------

/// A line `key=value` with a key and a value that are not blank, both trimmed.
pub open spec fn keyed_entry(line: Seq<char>) -> Option<(Seq<char>, Seq<char>)> {
    match split_once(trim(line), '=') {
        None => None,
        Some(p) => if trim(p.0).len() > 0 && trim(p.1).len() > 0 {
            Some((trim(p.0), trim(p.1)))
        } else {
            None
        },
    }
}

pub open spec fn keyed_entries(lines: Seq<Seq<char>>) -> Seq<(Seq<char>, Seq<char>)>
    decreases lines.len(),
{
    if lines.len() == 0 {
        Seq::<(Seq<char>, Seq<char>)>::empty()
    } else {
        let r = keyed_entries(lines.drop_last());
        match keyed_entry(lines.last()) {
            Some(e) => r.push(e),
            None => r,
        }
    }
}

/// The `key=value` lines of an answer, in order.
pub open spec fn spec_keyed_answers(text: Seq<char>) -> Seq<(Seq<char>, Seq<char>)> {
    keyed_entries(split_all(text, '\n'))
}

pub open spec fn pair_views(v: Seq<(String, String)>) -> Seq<(Seq<char>, Seq<char>)> {
    v.map_values(|p: (String, String)| (p.0@, p.1@))
}

/// The value of the last entry for `key`: a later line overrides an earlier one.
pub open spec fn spec_answer_for(entries: Seq<(Seq<char>, Seq<char>)>, key: Seq<char>) -> Option<
    Seq<char>,
>
    decreases entries.len(),
{
    if entries.len() == 0 {
        None
    } else if entries.last().0 == key {
        Some(entries.last().1)
    } else {
        spec_answer_for(entries.drop_last(), key)
    }
}

fn keyed_entry_of(line: &Vec<char>) -> (r: Option<(String, String)>)
    ensures
        match r {
            Some(p) => keyed_entry(line@) == Some((p.0@, p.1@)),
            None => keyed_entry(line@) is None,
        },
{
    let t = trim_ws(line);
    match split_once_char(&t, '=') {
        None => None,
        Some((k, v)) => {
            let k = trim_ws(&k);
            let v = trim_ws(&v);
            if k.len() > 0 && v.len() > 0 {
                Some((string_of(k.as_slice()), string_of(v.as_slice())))
            } else {
                None
            }
        },
    }
}

/// The `key=value` lines of a free-text answer to several questions.
pub fn parse_keyed_tool_user_input_answers(answer_text: &str) -> (r: Vec<(String, String)>)
    ensures
        pair_views(r@) == spec_keyed_answers(answer_text@),
{
    let v = chars_of(answer_text);
    let lines = split_char_all(&v, '\n');
    let ghost ls = views(lines@);
    let mut answers: Vec<(String, String)> = Vec::new();
    let mut i: usize = 0;
    while i < lines.len()
        invariant
            i <= lines.len(),
            ls == views(lines@),
            ls == split_all(answer_text@, '\n'),
            pair_views(answers@) == keyed_entries(ls.take(i as int)),
        decreases lines.len() - i,
    {
        assert(ls.take(i + 1).drop_last() =~= ls.take(i as int));
        assert(ls.take(i + 1).last() == lines@[i as int]@);
        match keyed_entry_of(&lines[i]) {
            Some(p) => {
                let ghost before = answers@;
                answers.push(p);
                assert(pair_views(answers@) =~= pair_views(before).push(
                    (answers@[answers@.len() - 1].0@, answers@[answers@.len() - 1].1@),
                ));
            },
            None => {},
        }
        i = i + 1;
    }
    assert(ls.take(lines.len() as int) =~= ls);
    answers
}

/// The answer given for `key`, if any line gives one.
pub fn answer_for(answers: &Vec<(String, String)>, key: &str) -> (r: Option<String>)
    ensures
        crate::telegram::opt_str_view(r) == spec_answer_for(pair_views(answers@), key@),
{
    let ghost ps = pair_views(answers@);
    assert(ps.take(answers.len() as int) =~= ps);
    let mut j: usize = answers.len();
    while j > 0
        invariant
            j <= answers.len(),
            ps == pair_views(answers@),
            spec_answer_for(ps, key@) == spec_answer_for(ps.take(j as int), key@),
        decreases j,
    {
        assert(ps.take(j as int).drop_last() =~= ps.take(j - 1));
        assert(ps.take(j as int).last() == (answers@[j - 1].0@, answers@[j - 1].1@));
        if string_eq(answers[j - 1].0.as_str(), key) {
            return Some(answers[j - 1].1.clone());
        }
        j = j - 1;
    }
    None
}

// ---------------------------------------------------------------------------
// Request identifiers
// ---------------------------------------------------------------------------

/// The thread, turn and item of a request and its kind, separated by the
/// unit separator.
pub open spec fn approval_seed(
    thread_id: Seq<char>,
    turn_id: Seq<char>,
    item_id: Seq<char>,
    request_kind: ApprovalRequestKind,
) -> Seq<char> {
    thread_id + seq!['\x1f'] + turn_id + seq!['\x1f'] + item_id + seq!['\x1f'] + request_kind.name()
}

/// `approval-<uuid>`, the version 5 UUID of the request's seed: the same
/// request always gets the same id.
pub fn stable_approval_request_id(
    thread_id: &str,
    turn_id: &str,
    item_id: &str,
    request_kind: ApprovalRequestKind,
) -> (r: String)
    ensures
        r@ == "approval-"@ + crate::ids::hyphenated_hex(
            crate::ids::spec_uuid_v5_url(
                vstd::utf8::encode_utf8(approval_seed(thread_id@, turn_id@, item_id@, request_kind)),
            ),
        ),
{
    let mut seed = str_of(thread_id);
    seed.append("\x1f");
    seed.append(turn_id);
    seed.append("\x1f");
    seed.append(item_id);
    seed.append("\x1f");
    seed.append(approval_request_kind_key(request_kind));
    proof {
        reveal_strlit("\x1f");
    }
    assert(seed@ =~= approval_seed(thread_id@, turn_id@, item_id@, request_kind));
    let id = crate::ids::uuid_v5_hyphenated(seed.as_str().as_bytes());
    let mut r = str_of("approval-");
    r.append(id.as_str());
    r
}

// ---------------------------------------------------------------------------
// Summaries of approval requests
// ---------------------------------------------------------------------------

pub open spec fn spec_command_summary(params: JsonView) -> Seq<char> {
    let command = match jget_str(params, "command"@) {
        Some(c) => c,
        None => "unknown command"@,
    };
    match jget_str(params, "cwd"@) {
        Some(cwd) => if cwd.len() > 0 {
            "Command approval requested: `"@ + command + "`\nWorking directory: `"@ + cwd + "`"@
        } else {
            "Command approval requested: `"@ + command + "`"@
        },
        None => "Command approval requested: `"@ + command + "`"@,
    }
}

pub fn summarize_command_approval(params: &Json) -> (r: String)
    ensures
        r@ == spec_command_summary(params@),
{
    let mut r = str_of("Command approval requested: `");
    match params.get_str("command") {
        Some(c) => r.append(c.as_str()),
        None => r.append("unknown command"),
    }
    match params.get_str("cwd") {
        Some(cwd) => {
            if !cwd.as_str().is_empty() {
                r.append("`\nWorking directory: `");
                r.append(cwd.as_str());
                r.append("`");
            } else {
                r.append("`");
            }
        },
        None => r.append("`"),
    }
    r
}

pub open spec fn spec_file_change_summary(params: JsonView) -> Seq<char> {
    match jget_str(params, "grantRoot"@) {
        Some(root) => "File change approval requested: write access to `"@ + root + "`"@,
        None => match jget_str(params, "reason"@) {
            Some(reason) => if trim(reason).len() > 0 {
                "File change approval requested: "@ + reason
            } else {
                "File change approval requested"@
            },
            None => "File change approval requested"@,
        },
    }
}

pub fn summarize_file_change_approval(params: &Json) -> (r: String)
    ensures
        r@ == spec_file_change_summary(params@),
{
    match params.get_str("grantRoot") {
        Some(root) => {
            let mut r = str_of("File change approval requested: write access to `");
            r.append(root.as_str());
            r.append("`");
            return r;
        },
        None => {},
    }
    match params.get_str("reason") {
        Some(reason) => {
            if !crate::text::str_is_blank(reason.as_str()) {
                let mut r = str_of("File change approval requested: ");
                r.append(reason.as_str());
                return r;
            }
        },
        None => {},
    }
    str_of("File change approval requested")
}

pub open spec fn spec_permissions_summary(params: JsonView) -> Seq<char> {
    "Permission approval requested: "@ + match jget_str(params, "reason"@) {
        Some(reason) => if trim(reason).len() > 0 {
            reason
        } else {
            "Additional permissions are required."@
        },
        None => "Additional permissions are required."@,
    }
}

pub fn summarize_permissions_approval(params: &Json) -> (r: String)
    ensures
        r@ == spec_permissions_summary(params@),
{
    let mut r = str_of("Permission approval requested: ");
    match params.get_str("reason") {
        Some(reason) => {
            if !crate::text::str_is_blank(reason.as_str()) {
                r.append(reason.as_str());
            } else {
                r.append("Additional permissions are required.");
            }
        },
        None => r.append("Additional permissions are required."),
    }
    r
}

/// The labels of a question's options that are not blank, in order.
pub open spec fn option_labels(options: Seq<JsonView>) -> Seq<Seq<char>>
    decreases options.len(),
{
    if options.len() == 0 {
        Seq::<Seq<char>>::empty()
    } else {
        let r = option_labels(options.drop_last());
        match jget_str(options.last(), "label"@) {
            Some(l) => if trim(l).len() > 0 {
                r.push(l)
            } else {
                r
            },
            None => r,
        }
    }
}

pub open spec fn first_three(s: Seq<Seq<char>>) -> Seq<Seq<char>> {
    if s.len() <= 3 {
        s
    } else {
        s.take(3)
    }
}

/// At most three option labels, each shortened to 30 characters.
pub open spec fn spec_options_summary(question: JsonView) -> Option<Seq<char>> {
    match jarray(jget(question, "options"@)) {
        None => None,
        Some(options) => {
            let labels = first_three(option_labels(options));
            if labels.len() == 0 {
                None
            } else {
                Some(
                    join(
                        labels.map_values(|l: Seq<char>| spec_summarize_inline(l, 30)),
                        ", "@,
                    ),
                )
            }
        },
    }
}

pub fn summarize_tool_user_input_options(question: &Json) -> (r: Option<String>)
    ensures
        crate::telegram::opt_str_view(r) == spec_options_summary(question@),
{
    let options = match question.get_array("options") {
        Some(o) => o,
        None => {
            return None;
        },
    };
    let ghost opts = jarray(jget(question@, "options"@)).unwrap();
    let mut labels: Vec<String> = Vec::new();
    let mut i: usize = 0;
    while i < options.len()
        invariant
            i <= options.len(),
            opts.len() == options@.len(),
            forall|k: int| 0 <= k < options@.len() ==> #[trigger] opts[k] == options@[k]@,
            str_views(labels@) == option_labels(opts.take(i as int)),
        decreases options.len() - i,
    {
        assert(opts.take(i + 1).drop_last() =~= opts.take(i as int));
        assert(opts.take(i + 1).last() == options@[i as int]@);
        match options[i].get_str("label") {
            Some(l) => {
                if !crate::text::str_is_blank(l.as_str()) {
                    let ghost before = labels@;
                    labels.push(l.clone());
                    assert(str_views(labels@) =~= str_views(before).push(l@));
                }
            },
            None => {},
        }
        i = i + 1;
    }
    assert(opts.take(options.len() as int) =~= opts);
    let ghost all = str_views(labels@);
    let count: usize = if labels.len() <= 3 {
        labels.len()
    } else {
        3
    };
    if count == 0 {
        return None;
    }
    let mut shown: Vec<String> = Vec::new();
    let mut k: usize = 0;
    while k < count
        invariant
            k <= count <= labels.len(),
            count == if labels.len() <= 3 {
                labels.len()
            } else {
                3
            },
            all == str_views(labels@),
            str_views(shown@) =~= all.take(k as int).map_values(
                |l: Seq<char>| spec_summarize_inline(l, 30),
            ),
        decreases count - k,
    {
        let ghost before = shown@;
        shown.push(summarize_inline_text(labels[k].as_str(), 30));
        assert(str_views(shown@) =~= str_views(before).push(spec_summarize_inline(all[k as int], 30)));
        assert(all.take(k + 1) =~= all.take(k as int).push(all[k as int]));
        k = k + 1;
    }
    assert(all.take(count as int) =~= first_three(all));
    Some(join_strings(&shown, ", "))
}

pub open spec fn question_id_text(q: JsonView) -> Seq<char> {
    match jget_str(q, "id"@) {
        Some(id) => if trim(id).len() > 0 {
            "id `"@ + id + "`"@
        } else {
            "id なし"@
        },
        None => "id なし"@,
    }
}

pub open spec fn question_prompt(q: JsonView) -> Seq<char> {
    match jget_str(q, "question"@) {
        Some(t) => spec_summarize_inline(t, 80),
        None => match jget_str(q, "header"@) {
            Some(t) => spec_summarize_inline(t, 80),
            None => "追加入力"@,
        },
    }
}

/// The line for the question at `index` (counted from zero).
pub open spec fn question_line(index: nat, q: JsonView) -> Seq<char> {
    let head = dec(index + 1) + ". "@ + question_id_text(q);
    if jbool(jget(q, "isSecret"@)) == Some(true) {
        head + ": 秘密入力（ローカル画面で入力）"@
    } else {
        let count = match jarray(jget(q, "options"@)) {
            Some(o) => o.len(),
            None => 0,
        };
        if count == 0 {
            head + ": "@ + question_prompt(q)
        } else {
            head + ": "@ + question_prompt(q) + "（選択肢 "@ + dec(count) + " 件"@ + match spec_options_summary(q) {
                Some(l) => ": "@ + l,
                None => Seq::<char>::empty(),
            } + "）"@
        }
    }
}

pub open spec fn question_lines(qs: Seq<JsonView>) -> Seq<Seq<char>>
    decreases qs.len(),
{
    if qs.len() == 0 {
        Seq::<Seq<char>>::empty()
    } else {
        question_lines(qs.drop_last()).push(question_line((qs.len() - 1) as nat, qs.last()))
    }
}

/// The number of questions and a line for each of the first three,
/// shortened to 320 characters; a secret question shows no prompt.
pub open spec fn spec_tool_input_summary(params: JsonView) -> Seq<char> {
    let qs = match jarray(jget(params, "questions"@)) {
        Some(q) => q,
        None => Seq::<JsonView>::empty(),
    };
    if qs.len() == 0 {
        "追加の入力待ち"@
    } else {
        let shown = if qs.len() <= 3 {
            qs
        } else {
            qs.take(3)
        };
        spec_summarize(
            join(seq!["追加の入力待ち: 質問数 "@ + dec(qs.len())] + question_lines(shown), "\n"@),
            320,
        )
    }
}

fn question_line_of(index: usize, q: &Json) -> (r: String)
    requires
        index < 3,
    ensures
        r@ == question_line(index as nat, q@),
{
    let mut r = crate::text::u64_string((index + 1) as u64);
    r.append(". ");
    match q.get_str("id") {
        Some(id) => {
            if !crate::text::str_is_blank(id.as_str()) {
                r.append("id `");
                r.append(id.as_str());
                r.append("`");
            } else {
                r.append("id なし");
            }
        },
        None => r.append("id なし"),
    }
    let ghost head = r@;
    assert(head == dec((index + 1) as nat) + ". "@ + question_id_text(q@));
    if q.get_bool("isSecret") == Some(true) {
        r.append(": 秘密入力（ローカル画面で入力）");
        return r;
    }
    let prompt = match q.get_str("question") {
        Some(t) => summarize_inline_text(t.as_str(), 80),
        None => match q.get_str("header") {
            Some(t) => summarize_inline_text(t.as_str(), 80),
            None => str_of("追加入力"),
        },
    };
    let count: usize = match q.get_array("options") {
        Some(o) => o.len(),
        None => 0,
    };
    r.append(": ");
    r.append(prompt.as_str());
    if count == 0 {
        return r;
    }
    r.append("（選択肢 ");
    r.append(crate::text::u64_string(count as u64).as_str());
    r.append(" 件");
    match summarize_tool_user_input_options(q) {
        Some(labels) => {
            r.append(": ");
            r.append(labels.as_str());
        },
        None => {},
    }
    r.append("）");
    r
}

pub fn summarize_tool_user_input(params: &Json) -> (r: String)
    ensures
        r@ == spec_tool_input_summary(params@),
        r@.len() <= 320,
{
    proof {
        reveal_strlit("追加の入力待ち");
    }
    let questions = match params.get_array("questions") {
        Some(q) => q,
        None => {
            return str_of("追加の入力待ち");
        },
    };
    if questions.len() == 0 {
        return str_of("追加の入力待ち");
    }
    let ghost qs = jarray(jget(params@, "questions"@)).unwrap();
    let mut head = str_of("追加の入力待ち: 質問数 ");
    head.append(crate::text::u64_string(questions.len() as u64).as_str());
    let mut lines: Vec<String> = Vec::new();
    lines.push(head);
    let shown: usize = if questions.len() <= 3 {
        questions.len()
    } else {
        3
    };
    let ghost shown_seq = if qs.len() <= 3 {
        qs
    } else {
        qs.take(3)
    };
    let mut i: usize = 0;
    while i < shown
        invariant
            i <= shown <= questions.len(),
            shown <= 3,
            qs.len() == questions@.len(),
            forall|k: int| 0 <= k < questions@.len() ==> #[trigger] qs[k] == questions@[k]@,
            str_views(lines@) =~= seq!["追加の入力待ち: 質問数 "@ + dec(qs.len())] + question_lines(
                qs.take(i as int),
            ),
        decreases shown - i,
    {
        let ghost before = lines@;
        let line = question_line_of(i, &questions[i]);
        lines.push(line);
        assert(qs.take(i + 1).drop_last() =~= qs.take(i as int));
        assert(qs.take(i + 1).last() == questions@[i as int]@);
        assert(str_views(lines@) =~= str_views(before).push(line@));
        i = i + 1;
    }
    assert(qs.take(shown as int) =~= shown_seq);
    let joined = join_strings(&lines, "\n");
    summarize_multiline_text(joined.as_str(), 320)
}

// ---------------------------------------------------------------------------
// Server requests
// ---------------------------------------------------------------------------

/// The id of a JSON-RPC message: its text, whether a string or a number.
pub open spec fn spec_response_id(message: JsonView) -> Option<Seq<char>> {
    match jget(message, "id"@) {
        Some(JsonView::Str(s)) => Some(s),
        Some(JsonView::Number(n)) => Some(n),
        _ => None,
    }
}

pub fn response_id(message: &Json) -> (r: Option<String>)
    ensures
        crate::telegram::opt_str_view(r) == spec_response_id(message@),
{
    match message.get("id") {
        Some(Json::Str(s)) => Some(s.clone()),
        Some(Json::Number(n)) => Some(n.clone()),
        _ => None,
    }
}

pub fn required_param_str(params: &Json, key: &str) -> (r: Result<String, String>)
    ensures
        match jget_str(params@, key@) {
            Some(v) => r matches Ok(s) && s@ == v,
            None => r matches Err(e) && e@ == "approval params missing `"@ + key@ + "`"@,
        },
{
    match params.get_str(key) {
        Some(v) => Ok(v.clone()),
        None => {
            let mut e = str_of("approval params missing `");
            e.append(key);
            e.append("`");
            Err(e)
        },
    }
}

/// The kind of approval a server request method asks for.
pub open spec fn method_kind(method: Seq<char>) -> Option<ApprovalRequestKind> {
    if method == "item/commandExecution/requestApproval"@ || method == "execCommandApproval"@ {
        Some(ApprovalRequestKind::CommandExecution)
    } else if method == "item/fileChange/requestApproval"@ || method == "applyPatchApproval"@ {
        Some(ApprovalRequestKind::FileChange)
    } else if method == "item/permissions/requestApproval"@ {
        Some(ApprovalRequestKind::Permissions)
    } else if method == "item/tool/requestUserInput"@ {
        Some(ApprovalRequestKind::ToolUserInput)
    } else {
        None
    }
}

pub open spec fn kind_summary(kind: ApprovalRequestKind, params: JsonView) -> Seq<char> {
    match kind {
        ApprovalRequestKind::CommandExecution => spec_command_summary(params),
        ApprovalRequestKind::FileChange => spec_file_change_summary(params),
        ApprovalRequestKind::Permissions => spec_permissions_summary(params),
        ApprovalRequestKind::ToolUserInput => spec_tool_input_summary(params),
    }
}

fn method_kind_of(method: &str) -> (r: Option<ApprovalRequestKind>)
    ensures
        r == method_kind(method@),
{
    if string_eq(method, "item/commandExecution/requestApproval") || string_eq(
        method,
        "execCommandApproval",
    ) {
        Some(ApprovalRequestKind::CommandExecution)
    } else if string_eq(method, "item/fileChange/requestApproval") || string_eq(
        method,
        "applyPatchApproval",
    ) {
        Some(ApprovalRequestKind::FileChange)
    } else if string_eq(method, "item/permissions/requestApproval") {
        Some(ApprovalRequestKind::Permissions)
    } else if string_eq(method, "item/tool/requestUserInput") {
        Some(ApprovalRequestKind::ToolUserInput)
    } else {
        None
    }
}

/// The mathematical content of an approval request.
pub struct ApprovalRequestView {
    pub request_id: Seq<char>,
    pub transport_request_id: Seq<char>,
    pub thread_id: Seq<char>,
    pub turn_id: Seq<char>,
    pub item_id: Seq<char>,
    pub request_kind: ApprovalRequestKind,
    pub summary_text: Seq<char>,
    pub raw_payload_json: Seq<char>,
}

impl View for CodexApprovalRequest {
    type V = ApprovalRequestView;

    open spec fn view(&self) -> ApprovalRequestView {
        ApprovalRequestView {
            request_id: self.request_id@,
            transport_request_id: self.transport_request_id@,
            thread_id: self.thread_id@,
            turn_id: self.turn_id@,
            item_id: self.item_id@,
            request_kind: self.request_kind,
            summary_text: self.summary_text@,
            raw_payload_json: self.raw_payload_json@,
        }
    }
}

/// The id the bridge gives a request: `approval-` and the hyphenated version
/// 5 UUID of its seed.
pub open spec fn spec_stable_request_id(
    thread: Seq<char>,
    turn: Seq<char>,
    item: Seq<char>,
    kind: ApprovalRequestKind,
) -> Seq<char> {
    "approval-"@ + crate::ids::hyphenated_hex(
        crate::ids::spec_uuid_v5_url(vstd::utf8::encode_utf8(approval_seed(thread, turn, item, kind))),
    )
}

/// The approval request a server message carries: nothing for a message
/// without id or with a method that asks for no approval; refused when the
/// method, the parameters or their thread, turn or item are missing.
pub open spec fn spec_parse_approval_request(message: JsonView, params_json: Seq<char>) -> Result<
    Option<ApprovalRequestView>,
    Seq<char>,
> {
    match spec_response_id(message) {
        None => Ok(None),
        Some(transport_id) => match jget_str(message, "method"@) {
            None => Err("server request missing method"@),
            Some(method) => match jget(message, "params"@) {
                None => Err("server request missing params"@),
                Some(params) => match method_kind(method) {
                    None => Ok(None),
                    Some(kind) => match (
                        jget_str(params, "threadId"@),
                        jget_str(params, "turnId"@),
                        jget_str(params, "itemId"@),
                    ) {
                        (None, _, _) => Err("approval params missing `"@ + "threadId"@ + "`"@),
                        (Some(_), None, _) => Err("approval params missing `"@ + "turnId"@ + "`"@),
                        (Some(_), Some(_), None) => Err(
                            "approval params missing `"@ + "itemId"@ + "`"@,
                        ),
                        (Some(thread), Some(turn), Some(item)) => Ok(
                            Some(
                                ApprovalRequestView {
                                    request_id: spec_stable_request_id(thread, turn, item, kind),
                                    transport_request_id: transport_id,
                                    thread_id: thread,
                                    turn_id: turn,
                                    item_id: item,
                                    request_kind: kind,
                                    summary_text: kind_summary(kind, params),
                                    raw_payload_json: params_json,
                                },
                            ),
                        ),
                    },
                },
            },
        },
    }
}

pub open spec fn parsed_request_view(r: Result<Option<CodexApprovalRequest>, String>) -> Result<
    Option<ApprovalRequestView>,
    Seq<char>,
> {
    match r {
        Ok(Some(req)) => Ok(Some(req@)),
        Ok(None) => Ok(None),
        Err(e) => Err(e@),
    }
}

/// The approval request a server message carries, if it carries one.
/// `params_json` is the JSON text of the message's `params`, which the
/// request keeps as its payload.
pub fn parse_approval_request(message: &Json, params_json: &str) -> (r: Result<
    Option<CodexApprovalRequest>,
    String,
>)
    ensures
        parsed_request_view(r) == spec_parse_approval_request(message@, params_json@),
{
    let transport_request_id = match response_id(message) {
        Some(id) => id,
        None => {
            return Ok(None);
        },
    };
    let method = match message.get_str("method") {
        Some(m) => m,
        None => {
            return Err(str_of("server request missing method"));
        },
    };
    let params = match message.get("params") {
        Some(p) => p,
        None => {
            return Err(str_of("server request missing params"));
        },
    };
    let kind = match method_kind_of(method.as_str()) {
        Some(k) => k,
        None => {
            return Ok(None);
        },
    };
    let summary_text = match kind {
        ApprovalRequestKind::CommandExecution => summarize_command_approval(params),
        ApprovalRequestKind::FileChange => summarize_file_change_approval(params),
        ApprovalRequestKind::Permissions => summarize_permissions_approval(params),
        ApprovalRequestKind::ToolUserInput => summarize_tool_user_input(params),
    };
    let thread_id = match required_param_str(params, "threadId") {
        Ok(v) => v,
        Err(e) => {
            return Err(e);
        },
    };
    let turn_id = match required_param_str(params, "turnId") {
        Ok(v) => v,
        Err(e) => {
            return Err(e);
        },
    };
    let item_id = match required_param_str(params, "itemId") {
        Ok(v) => v,
        Err(e) => {
            return Err(e);
        },
    };
    let request_id = stable_approval_request_id(
        thread_id.as_str(),
        turn_id.as_str(),
        item_id.as_str(),
        kind,
    );
    Ok(
        Some(
            CodexApprovalRequest {
                request_id,
                transport_request_id,
                thread_id,
                turn_id,
                item_id,
                request_kind: kind,
                summary_text,
                raw_payload_json: str_of(params_json),
            },
        ),
    )
}

pub open spec fn decline_response() -> JsonView {
    JsonView::Object(
        seq![
            ("decision"@, JsonView::Str("decline"@)),
            ("reason"@, JsonView::Str("Unsupported app-server request type"@)),
        ],
    )
}

fn decline_response_value() -> (r: Json)
    ensures
        r@ == decline_response(),
{
    crate::json::object2(
        "decision",
        crate::json::jstring("decline"),
        "reason",
        crate::json::jstring("Unsupported app-server request type"),
    )
}

/// The answer that declines a server request the bridge does not handle.
pub fn unknown_server_request_response(message: &Json) -> (r: Option<Json>)
    ensures
        match jget(message@, "id"@) {
            None => r is None,
            Some(id) => r matches Some(v) && v@ == JsonView::Object(
                seq![("id"@, id), ("response"@, decline_response()), ("result"@, decline_response())],
            ),
        },
{
    let id = match message.get("id") {
        Some(id) => id.deep_clone(),
        None => {
            return None;
        },
    };
    Some(
        crate::json::object3(
            "id",
            id,
            "response",
            decline_response_value(),
            "result",
            decline_response_value(),
        ),
    )
}

// ---------------------------------------------------------------------------
// Answers to approval requests
// ---------------------------------------------------------------------------

pub open spec fn decision_response(approved: bool) -> JsonView {
    JsonView::Object(
        seq![
            (
                "decision"@,
                JsonView::Str(
                    if approved {
                        "accept"@
                    } else {
                        "decline"@
                    },
                ),
            ),
        ],
    )
}

/// The answer to an approval request. `payload` is the request's stored
/// payload as JSON, `None` when its text is not JSON.
pub open spec fn spec_approval_response(
    kind: ApprovalRequestKind,
    payload: Option<JsonView>,
    approved: bool,
) -> Result<JsonView, Seq<char>> {
    match payload {
        None => Err("invalid approval payload JSON"@),
        Some(p) => match kind {
            ApprovalRequestKind::CommandExecution => Ok(decision_response(approved)),
            ApprovalRequestKind::FileChange => Ok(decision_response(approved)),
            ApprovalRequestKind::Permissions => {
                let granted = if approved {
                    match jget(p, "permissions"@) {
                        Some(g) => g,
                        None => JsonView::Object(Seq::empty()),
                    }
                } else {
                    JsonView::Object(Seq::empty())
                };
                Ok(JsonView::Object(seq![("permissions"@, granted), ("scope"@, JsonView::Str("turn"@))]))
            },
            ApprovalRequestKind::ToolUserInput => if approved {
                Err("tool user input approvals are not implemented yet"@)
            } else {
                Ok(
                    JsonView::Object(
                        seq![("answers"@, JsonView::Object(Seq::<(Seq<char>, JsonView)>::empty()))],
                    ),
                )
            },
        },
    }
}

pub open spec fn json_result_view(r: Result<Json, String>) -> Result<JsonView, Seq<char>> {
    match r {
        Ok(v) => Ok(v@),
        Err(e) => Err(e@),
    }
}

/// A command or file change that the user approved is answered with
/// `{"decision": "accept"}`, one the user denied with
/// `{"decision": "decline"}`, whatever the stored payload holds.
pub proof fn lemma_decisions_follow_the_user(kind: ApprovalRequestKind, payload: JsonView, approved: bool)
    requires
        kind == ApprovalRequestKind::CommandExecution || kind == ApprovalRequestKind::FileChange,
    ensures
        approved ==> spec_approval_response(kind, Some(payload), approved) == Ok::<JsonView, Seq<char>>(
            JsonView::Object(seq![("decision"@, JsonView::Str("accept"@))]),
        ),
        !approved ==> spec_approval_response(kind, Some(payload), approved) == Ok::<JsonView, Seq<char>>(
            JsonView::Object(seq![("decision"@, JsonView::Str("decline"@))]),
        ),
{
}

fn decision_value(approved: bool) -> (r: Json)
    ensures
        r@ == decision_response(approved),
{
    if approved {
        crate::json::object1("decision", crate::json::jstring("accept"))
    } else {
        crate::json::object1("decision", crate::json::jstring("decline"))
    }
}

pub fn approval_response(request: &ApprovalRequestRecord, payload: Option<&Json>, approved: bool) -> (r:
    Result<Json, String>)
    ensures
        json_result_view(r) == spec_approval_response(
            request.request_kind,
            crate::json::opt_json_view(payload),
            approved,
        ),
{
    let p = match payload {
        Some(p) => p,
        None => {
            return Err(str_of("invalid approval payload JSON"));
        },
    };
    match request.request_kind {
        ApprovalRequestKind::CommandExecution => Ok(decision_value(approved)),
        ApprovalRequestKind::FileChange => Ok(decision_value(approved)),
        ApprovalRequestKind::Permissions => {
            let granted = if approved {
                match p.get("permissions") {
                    Some(g) => g.deep_clone(),
                    None => crate::json::empty_object(),
                }
            } else {
                crate::json::empty_object()
            };
            Ok(crate::json::object2("permissions", granted, "scope", crate::json::jstring("turn")))
        },
        ApprovalRequestKind::ToolUserInput => {
            if approved {
                return Err(str_of("tool user input approvals are not implemented yet"));
            }
            Ok(crate::json::object1("answers", crate::json::empty_object()))
        },
    }
}

/// The question ids that are not blank, in order.
pub open spec fn expected_ids(qs: Seq<JsonView>) -> Seq<Seq<char>>
    decreases qs.len(),
{
    if qs.len() == 0 {
        Seq::<Seq<char>>::empty()
    } else {
        let r = expected_ids(qs.drop_last());
        match jget_str(qs.last(), "id"@) {
            Some(id) => if trim(id).len() > 0 {
                r.push(id)
            } else {
                r
            },
            None => r,
        }
    }
}

/// The index of the entry named `key`.
pub open spec fn key_index(entries: Seq<(Seq<char>, JsonView)>, key: Seq<char>) -> Option<int>
    decreases entries.len(),
{
    if entries.len() == 0 {
        None
    } else {
        match key_index(entries.drop_last(), key) {
            Some(i) => Some(i),
            None => if entries.last().0 == key {
                Some(entries.len() - 1)
            } else {
                None
            },
        }
    }
}

/// Sets `key` to `value`: the entry keeps its place when it exists.
pub open spec fn obj_insert(
    entries: Seq<(Seq<char>, JsonView)>,
    key: Seq<char>,
    value: JsonView,
) -> Seq<(Seq<char>, JsonView)> {
    match key_index(entries, key) {
        Some(i) => entries.update(i, (key, value)),
        None => entries.push((key, value)),
    }
}

pub open spec fn answer_value(answer: Seq<char>) -> JsonView {
    JsonView::Object(seq![("answers"@, JsonView::Array(seq![JsonView::Str(answer)]))])
}

/// The answer to one question: its id and the value sent for it.
pub open spec fn answer_entry(
    q: JsonView,
    single: bool,
    text: Seq<char>,
    keyed: Seq<(Seq<char>, Seq<char>)>,
    expected: Seq<char>,
) -> Result<(Seq<char>, JsonView), Seq<char>> {
    match jget_str(q, "id"@) {
        None => Err("tool user input question missing id"@),
        Some(id) => if trim(id).len() == 0 {
            Err("tool user input question missing id"@)
        } else if jbool(jget(q, "isSecret"@)) == Some(true) {
            Err("secret tool user input `"@ + id + "` cannot be answered from Telegram"@)
        } else {
            let answer = if single {
                Some(trim(text))
            } else {
                spec_answer_for(keyed, id)
            };
            match answer {
                None => Err(
                    "answer for question `"@ + id
                        + "` is missing; use `id=value` on separate lines for: "@ + expected,
                ),
                Some(a) => if trim(a).len() == 0 {
                    Err("answer for question `"@ + id + "` is empty"@)
                } else {
                    Ok((id, answer_value(a)))
                },
            }
        },
    }
}

/// Adds the answer to one question.
pub open spec fn answer_step(
    acc: Seq<(Seq<char>, JsonView)>,
    q: JsonView,
    single: bool,
    text: Seq<char>,
    keyed: Seq<(Seq<char>, Seq<char>)>,
    expected: Seq<char>,
) -> Result<Seq<(Seq<char>, JsonView)>, Seq<char>> {
    match answer_entry(q, single, text, keyed, expected) {
        Err(e) => Err(e),
        Ok(kv) => Ok(obj_insert(acc, kv.0, kv.1)),
    }
}

/// The answers to the questions, the first failure ending the work.
pub open spec fn spec_answers(
    qs: Seq<JsonView>,
    single: bool,
    text: Seq<char>,
    keyed: Seq<(Seq<char>, Seq<char>)>,
    expected: Seq<char>,
) -> Result<Seq<(Seq<char>, JsonView)>, Seq<char>>
    decreases qs.len(),
{
    if qs.len() == 0 {
        Ok(Seq::<(Seq<char>, JsonView)>::empty())
    } else {
        match spec_answers(qs.drop_last(), single, text, keyed, expected) {
            Err(e) => Err(e),
            Ok(acc) => answer_step(acc, qs.last(), single, text, keyed, expected),
        }
    }
}

/// The answer to a tool input request from the text the user sent: the
/// whole text for a single question, `id=value` lines for several.
pub open spec fn spec_tool_user_input_response(
    kind: ApprovalRequestKind,
    payload: Option<JsonView>,
    answer_text: Seq<char>,
) -> Result<JsonView, Seq<char>> {
    if kind != ApprovalRequestKind::ToolUserInput {
        Err("approval request is not a tool user input request"@)
    } else {
        match payload {
            None => Err("invalid tool user input payload JSON"@),
            Some(p) => match jarray(jget(p, "questions"@)) {
                None => Err("tool user input payload missing questions"@),
                Some(qs) => if qs.len() == 0 {
                    Err("tool user input payload has no questions"@)
                } else {
                    match spec_answers(
                        qs,
                        qs.len() == 1,
                        answer_text,
                        spec_keyed_answers(answer_text),
                        join(expected_ids(qs), ", "@),
                    ) {
                        Err(e) => Err(e),
                        Ok(entries) => Ok(
                            JsonView::Object(seq![("answers"@, JsonView::Object(entries))]),
                        ),
                    }
                },
            },
        }
    }
}

fn expected_ids_text(questions: &Vec<Json>, Ghost(qs): Ghost<Seq<JsonView>>) -> (r: String)
    requires
        qs.len() == questions@.len(),
        forall|k: int| 0 <= k < questions@.len() ==> #[trigger] qs[k] == questions@[k]@,
    ensures
        r@ == join(expected_ids(qs), ", "@),
{
    let mut ids: Vec<String> = Vec::new();
    let mut i: usize = 0;
    while i < questions.len()
        invariant
            i <= questions.len(),
            qs.len() == questions@.len(),
            forall|k: int| 0 <= k < questions@.len() ==> #[trigger] qs[k] == questions@[k]@,
            str_views(ids@) == expected_ids(qs.take(i as int)),
        decreases questions.len() - i,
    {
        assert(qs.take(i + 1).drop_last() =~= qs.take(i as int));
        assert(qs.take(i + 1).last() == questions@[i as int]@);
        match questions[i].get_str("id") {
            Some(id) => {
                if !crate::text::str_is_blank(id.as_str()) {
                    let ghost before = ids@;
                    ids.push(id.clone());
                    assert(str_views(ids@) =~= str_views(before).push(id@));
                }
            },
            None => {},
        }
        i = i + 1;
    }
    assert(qs.take(questions.len() as int) =~= qs);
    join_strings(&ids, ", ")
}

fn insert_entry(entries: &mut Vec<(String, Json)>, key: String, value: Json)
    ensures
        crate::json::entries_view(final(entries)@) == obj_insert(crate::json::entries_view(old(entries)@), key@, value@),
{
    let ghost es = crate::json::entries_view(entries@);
    let mut i: usize = 0;
    while i < entries.len()
        invariant
            i <= entries.len(),
            entries@ == old(entries)@,
            es == crate::json::entries_view(entries@),
            key_index(es.take(i as int), key@) is None,
        decreases entries.len() - i,
    {
        assert(es.take(i + 1).drop_last() =~= es.take(i as int));
        if string_eq(entries[i].0.as_str(), key.as_str()) {
            proof {
                assert(es.take(i + 1).last().0 == key@);
                assert(key_index(es.take(i + 1), key@) == Some(i as int));
                lemma_key_index_prefix(es, key@, (i + 1) as int);
            }
            let ghost kv = key@;
            let ghost vv = value@;
            entries.set(i, (key, value));
            assert(crate::json::entries_view(entries@) =~= es.update(i as int, (kv, vv)));
            return;
        }
        i = i + 1;
    }
    assert(es.take(entries.len() as int) =~= es);
    let ghost kv = key@;
    let ghost vv = value@;
    entries.push((key, value));
    assert(crate::json::entries_view(entries@) =~= es.push((kv, vv)));
}

/// The first index of a key is found in any prefix that holds it.
proof fn lemma_key_index_prefix(es: Seq<(Seq<char>, JsonView)>, key: Seq<char>, n: int)
    requires
        0 <= n <= es.len(),
        key_index(es.take(n), key) is Some,
    ensures
        key_index(es, key) == key_index(es.take(n), key),
    decreases es.len() - n,
{
    if n < es.len() {
        assert(es.take(n + 1).drop_last() =~= es.take(n));
        lemma_key_index_prefix(es, key, n + 1);
    } else {
        assert(es.take(n) =~= es);
    }
}

/// A failure to answer one question is the failure of the whole answer.
proof fn lemma_answers_error_persists(
    qs: Seq<JsonView>,
    n: int,
    single: bool,
    text: Seq<char>,
    keyed: Seq<(Seq<char>, Seq<char>)>,
    expected: Seq<char>,
)
    requires
        0 <= n <= qs.len(),
        spec_answers(qs.take(n), single, text, keyed, expected) is Err,
    ensures
        spec_answers(qs, single, text, keyed, expected) == spec_answers(
            qs.take(n),
            single,
            text,
            keyed,
            expected,
        ),
    decreases qs.len() - n,
{
    if n < qs.len() {
        assert(qs.take(n + 1).drop_last() =~= qs.take(n));
        lemma_answers_error_persists(qs, n + 1, single, text, keyed, expected);
    } else {
        assert(qs.take(n) =~= qs);
    }
}

proof fn lemma_answers_refuse_secret(
    qs: Seq<JsonView>,
    k: int,
    single: bool,
    text: Seq<char>,
    keyed: Seq<(Seq<char>, Seq<char>)>,
    expected: Seq<char>,
)
    requires
        0 <= k < qs.len(),
        jbool(jget(qs[k], "isSecret"@)) == Some(true),
    ensures
        spec_answers(qs, single, text, keyed, expected) is Err,
    decreases qs.len(),
{
    if k < qs.len() - 1 {
        assert(qs.drop_last()[k] == qs[k]);
        lemma_answers_refuse_secret(qs.drop_last(), k, single, text, keyed, expected);
    } else {
        assert(qs.last() == qs[k]);
    }
}

/// A tool input request that asks anything secret is never answered from
/// Telegram: whatever text is sent, the reply is an error.
pub proof fn lemma_secret_questions_are_refused(payload: JsonView, answer_text: Seq<char>, k: int)
    requires
        jarray(jget(payload, "questions"@)) matches Some(qs) && 0 <= k < qs.len() && jbool(
            jget(qs[k], "isSecret"@),
        ) == Some(true),
    ensures
        spec_tool_user_input_response(ApprovalRequestKind::ToolUserInput, Some(payload), answer_text)
            is Err,
{
    let qs = jarray(jget(payload, "questions"@)).unwrap();
    lemma_answers_refuse_secret(
        qs,
        k,
        qs.len() == 1,
        answer_text,
        spec_keyed_answers(answer_text),
        join(expected_ids(qs), ", "@),
    );
}

fn answer_one(
    q: &Json,
    single: bool,
    answer_text: &str,
    keyed: &Vec<(String, String)>,
    expected: &String,
) -> (r: Result<(String, Json), String>)
    ensures
        match answer_entry(q@, single, answer_text@, pair_views(keyed@), expected@) {
            Ok(kv) => r matches Ok(p) && p.0@ == kv.0 && p.1@ == kv.1,
            Err(e) => r matches Err(x) && x@ == e,
        },
{
    let id = match q.get_str("id") {
        Some(id) => id,
        None => {
            return Err(str_of("tool user input question missing id"));
        },
    };
    if crate::text::str_is_blank(id.as_str()) {
        return Err(str_of("tool user input question missing id"));
    }
    if q.get_bool("isSecret") == Some(true) {
        let mut e = str_of("secret tool user input `");
        e.append(id.as_str());
        e.append("` cannot be answered from Telegram");
        return Err(e);
    }
    let answer = if single {
        let t = trim_str(answer_text);
        string_of(t.as_slice())
    } else {
        match answer_for(keyed, id.as_str()) {
            Some(a) => a,
            None => {
                let mut e = str_of("answer for question `");
                e.append(id.as_str());
                e.append("` is missing; use `id=value` on separate lines for: ");
                e.append(expected.as_str());
                return Err(e);
            },
        }
    };
    if crate::text::str_is_blank(answer.as_str()) {
        let mut e = str_of("answer for question `");
        e.append(id.as_str());
        e.append("` is empty");
        return Err(e);
    }
    let value = crate::json::object1("answers", crate::json::array1(Json::Str(answer)));
    Ok((id.clone(), value))
}

pub fn tool_user_input_response(
    request: &ApprovalRequestRecord,
    payload: Option<&Json>,
    answer_text: &str,
) -> (r: Result<Json, String>)
    ensures
        json_result_view(r) == spec_tool_user_input_response(
            request.request_kind,
            crate::json::opt_json_view(payload),
            answer_text@,
        ),
{
    if request.request_kind != ApprovalRequestKind::ToolUserInput {
        return Err(str_of("approval request is not a tool user input request"));
    }
    let p = match payload {
        Some(p) => p,
        None => {
            return Err(str_of("invalid tool user input payload JSON"));
        },
    };
    let questions = match p.get_array("questions") {
        Some(q) => q,
        None => {
            return Err(str_of("tool user input payload missing questions"));
        },
    };
    if questions.len() == 0 {
        return Err(str_of("tool user input payload has no questions"));
    }
    let ghost qs = jarray(jget(p@, "questions"@)).unwrap();
    let expected = expected_ids_text(questions, Ghost(qs));
    let keyed = parse_keyed_tool_user_input_answers(answer_text);
    let single = questions.len() == 1;
    let mut answers: Vec<(String, Json)> = Vec::new();
    assert(qs.take(0) =~= Seq::<JsonView>::empty());
    assert(crate::json::entries_view(answers@) =~= Seq::<(Seq<char>, JsonView)>::empty());
    let mut i: usize = 0;
    while i < questions.len()
        invariant
            i <= questions.len(),
            qs.len() == questions@.len(),
            forall|k: int| 0 <= k < questions@.len() ==> #[trigger] qs[k] == questions@[k]@,
            single == (qs.len() == 1),
            jarray(jget(p@, "questions"@)) == Some(qs),
            request.request_kind == ApprovalRequestKind::ToolUserInput,
            crate::json::opt_json_view(payload) == Some(p@),
            expected@ == join(expected_ids(qs), ", "@),
            pair_views(keyed@) == spec_keyed_answers(answer_text@),
            spec_answers(
                qs.take(i as int),
                single,
                answer_text@,
                spec_keyed_answers(answer_text@),
                expected@,
            ) == Ok::<Seq<(Seq<char>, JsonView)>, Seq<char>>(crate::json::entries_view(answers@)),
        decreases questions.len() - i,
    {
        assert(qs.take(i + 1).drop_last() =~= qs.take(i as int));
        assert(qs.take(i + 1).last() == questions@[i as int]@);
        let step = answer_one(&questions[i], single, answer_text, &keyed, &expected);
        match step {
            Err(e) => {
                proof {
                    let ghost kd = spec_keyed_answers(answer_text@);
                    assert(answer_entry(questions@[i as int]@, single, answer_text@, kd, expected@) is Err);
                    assert(spec_answers(qs.take(i + 1), single, answer_text@, kd, expected@) == Err::<
                        Seq<(Seq<char>, JsonView)>,
                        Seq<char>,
                    >(e@));
                    lemma_answers_error_persists(
                        qs,
                        i + 1,
                        single,
                        answer_text@,
                        spec_keyed_answers(answer_text@),
                        expected@,
                    );
                    assert(spec_answers(qs, single, answer_text@, kd, expected@) == Err::<
                        Seq<(Seq<char>, JsonView)>,
                        Seq<char>,
                    >(e@));
                    assert(jarray(jget(p@, "questions"@)) == Some(qs));
                    assert(spec_tool_user_input_response(request.request_kind, Some(p@), answer_text@)
                        == Err::<JsonView, Seq<char>>(e@));
                }
                return Err(e);
            },
            Ok((id, value)) => {
                insert_entry(&mut answers, id, value);
            },
        }
        i = i + 1;
    }
    assert(qs.take(questions.len() as int) =~= qs);
    let inner = Json::Object(answers);
    assert(inner@->Object_0 =~= crate::json::entries_view(answers@));
    Ok(crate::json::object1("answers", inner))
}

/// Whether an answer text can be sent for the request.
pub fn validate_tool_user_input_answer(
    request: &ApprovalRequestRecord,
    payload: Option<&Json>,
    answer_text: &str,
) -> (r: Result<(), String>)
    ensures
        match spec_tool_user_input_response(
            request.request_kind,
            crate::json::opt_json_view(payload),
            answer_text@,
        ) {
            Ok(_) => r is Ok,
            Err(e) => r matches Err(x) && x@ == e,
        },
{
    match tool_user_input_response(request, payload, answer_text) {
        Ok(_) => Ok(()),
        Err(e) => Err(e),
    }
}

// ---------------------------------------------------------------------------
// Thread and turn results
// ---------------------------------------------------------------------------

/// The value under the first of `keys` that holds a string that is not
/// blank, trimmed.
pub open spec fn spec_thread_string(thread: JsonView, keys: Seq<Seq<char>>) -> Option<Seq<char>>
    decreases keys.len(),
{
    if keys.len() == 0 {
        None
    } else {
        match jget_str(thread, keys[0]) {
            Some(v) => if trim(v).len() > 0 {
                Some(trim(v))
            } else {
                spec_thread_string(thread, keys.drop_first())
            },
            None => spec_thread_string(thread, keys.drop_first()),
        }
    }
}

pub fn thread_string(thread: &Json, keys: &Vec<&str>) -> (r: Option<String>)
    ensures
        crate::telegram::opt_str_view(r) == spec_thread_string(
            thread@,
            keys@.map_values(|k: &str| k@),
        ),
{
    let ghost ks = keys@.map_values(|k: &str| k@);
    assert(ks.skip(0) =~= ks);
    let mut i: usize = 0;
    while i < keys.len()
        invariant
            i <= keys.len(),
            ks == keys@.map_values(|k: &str| k@),
            spec_thread_string(thread@, ks) == spec_thread_string(thread@, ks.skip(i as int)),
        decreases keys.len() - i,
    {
        assert(ks.skip(i as int)[0] == keys@[i as int]@);
        assert(ks.skip(i as int).drop_first() =~= ks.skip(i + 1));
        match thread.get_str(keys[i]) {
            Some(v) => {
                let t = trim_str(v.as_str());
                if t.len() > 0 {
                    return Some(string_of(t.as_slice()));
                }
            },
            None => {},
        }
        i = i + 1;
    }
    assert(ks.skip(keys.len() as int) =~= Seq::<Seq<char>>::empty());
    None
}

pub open spec fn summary_view(t: CodexThreadSummary) -> (
    Seq<char>,
    Option<Seq<char>>,
    Option<Seq<char>>,
    Option<Seq<char>>,
    Option<Seq<char>>,
) {
    (
        t.thread_id@,
        crate::telegram::opt_str_view(t.title),
        crate::telegram::opt_str_view(t.cwd),
        crate::telegram::opt_str_view(t.model),
        crate::telegram::opt_str_view(t.updated_at),
    )
}

/// A `thread/list` entry: its id, title, directory, model and update time.
pub open spec fn spec_thread_summary(thread: JsonView) -> Option<
    (Seq<char>, Option<Seq<char>>, Option<Seq<char>>, Option<Seq<char>>, Option<Seq<char>>),
> {
    match spec_thread_string(thread, seq!["threadId"@, "id"@]) {
        None => None,
        Some(id) => Some(
            (
                id,
                spec_thread_string(thread, seq!["title"@, "name"@, "summary"@]),
                spec_thread_string(thread, seq!["cwd"@]),
                spec_thread_string(thread, seq!["model"@]),
                spec_thread_string(thread, seq!["updatedAt"@, "lastUpdatedAt"@]),
            ),
        ),
    }
}

pub fn parse_thread_summary(thread: &Json) -> (r: Result<CodexThreadSummary, String>)
    ensures
        match spec_thread_summary(thread@) {
            Some(v) => r matches Ok(t) && summary_view(t) == v,
            None => r matches Err(e) && e@ == "thread/list entry missing thread id"@,
        },
{
    let id_keys = vec!["threadId", "id"];
    assert(id_keys@.map_values(|k: &str| k@) =~= seq!["threadId"@, "id"@]);
    let thread_id = match thread_string(thread, &id_keys) {
        Some(id) => id,
        None => {
            return Err(str_of("thread/list entry missing thread id"));
        },
    };
    let title_keys = vec!["title", "name", "summary"];
    assert(title_keys@.map_values(|k: &str| k@) =~= seq!["title"@, "name"@, "summary"@]);
    let cwd_keys = vec!["cwd"];
    assert(cwd_keys@.map_values(|k: &str| k@) =~= seq!["cwd"@]);
    let model_keys = vec!["model"];
    assert(model_keys@.map_values(|k: &str| k@) =~= seq!["model"@]);
    let updated_keys = vec!["updatedAt", "lastUpdatedAt"];
    assert(updated_keys@.map_values(|k: &str| k@) =~= seq!["updatedAt"@, "lastUpdatedAt"@]);
    Ok(
        CodexThreadSummary {
            thread_id,
            title: thread_string(thread, &title_keys),
            cwd: thread_string(thread, &cwd_keys),
            model: thread_string(thread, &model_keys),
            updated_at: thread_string(thread, &updated_keys),
        },
    )
}

/// The entries of a `thread/list` result: the result itself when it is an
/// array, else the array under `threads`, `items` or `data`.
pub open spec fn spec_thread_list_items(response: JsonView) -> Option<Seq<JsonView>> {
    match response {
        JsonView::Array(items) => Some(items),
        _ => match jarray(jget(response, "threads"@)) {
            Some(items) => Some(items),
            None => match jarray(jget(response, "items"@)) {
                Some(items) => Some(items),
                None => jarray(jget(response, "data"@)),
            },
        },
    }
}

pub fn thread_list_items(response: &Json) -> (r: Option<&Vec<Json>>)
    ensures
        match r {
            Some(items) => spec_thread_list_items(response@) matches Some(s) && s.len()
                == items@.len() && (forall|i: int|
                0 <= i < items@.len() ==> #[trigger] s[i] == items@[i]@),
            None => spec_thread_list_items(response@) is None,
        },
{
    match response.as_array() {
        Some(items) => {
            return Some(items);
        },
        None => {},
    }
    match response.get_array("threads") {
        Some(items) => {
            return Some(items);
        },
        None => {},
    }
    match response.get_array("items") {
        Some(items) => {
            return Some(items);
        },
        None => {},
    }
    response.get_array("data")
}

/// The summaries of a `thread/list` result, refused when any entry has no id.
pub open spec fn spec_thread_list(entries: Seq<JsonView>) -> Option<Seq<
    (Seq<char>, Option<Seq<char>>, Option<Seq<char>>, Option<Seq<char>>, Option<Seq<char>>),
>>
    decreases entries.len(),
{
    if entries.len() == 0 {
        Some(Seq::empty())
    } else {
        match spec_thread_list(entries.drop_last()) {
            None => None,
            Some(r) => match spec_thread_summary(entries.last()) {
                None => None,
                Some(t) => Some(r.push(t)),
            },
        }
    }
}

pub fn parse_thread_list_response(response: &Json) -> (r: Result<Vec<CodexThreadSummary>, String>)
    ensures
        match spec_thread_list_items(response@) {
            None => r matches Err(e) && e@ == "thread/list result missing threads"@,
            Some(entries) => match spec_thread_list(entries) {
                Some(ts) => r matches Ok(v) && v@.map_values(|t: CodexThreadSummary| summary_view(t))
                    == ts,
                None => r matches Err(e) && e@ == "thread/list entry missing thread id"@,
            },
        },
{
    let items = match thread_list_items(response) {
        Some(items) => items,
        None => {
            return Err(str_of("thread/list result missing threads"));
        },
    };
    let ghost es = spec_thread_list_items(response@).unwrap();
    let mut out: Vec<CodexThreadSummary> = Vec::new();
    let mut i: usize = 0;
    while i < items.len()
        invariant
            i <= items.len(),
            spec_thread_list_items(response@) == Some(es),
            es.len() == items@.len(),
            forall|k: int| 0 <= k < items@.len() ==> #[trigger] es[k] == items@[k]@,
            spec_thread_list(es.take(i as int)) == Some(
                out@.map_values(|t: CodexThreadSummary| summary_view(t)),
            ),
        decreases items.len() - i,
    {
        assert(es.take(i + 1).drop_last() =~= es.take(i as int));
        assert(es.take(i + 1).last() == items@[i as int]@);
        match parse_thread_summary(&items[i]) {
            Ok(t) => {
                let ghost before = out@;
                out.push(t);
                assert(out@.map_values(|t: CodexThreadSummary| summary_view(t)) =~= before.map_values(
                    |t: CodexThreadSummary| summary_view(t),
                ).push(summary_view(out@[out@.len() - 1])));
            },
            Err(e) => {
                proof {
                    lemma_thread_list_none_persists(es, i + 1);
                }
                return Err(e);
            },
        }
        i = i + 1;
    }
    assert(es.take(items.len() as int) =~= es);
    Ok(out)
}

proof fn lemma_thread_list_none_persists(es: Seq<JsonView>, n: int)
    requires
        0 <= n <= es.len(),
        spec_thread_list(es.take(n)) is None,
    ensures
        spec_thread_list(es) is None,
    decreases es.len() - n,
{
    if n < es.len() {
        assert(es.take(n + 1).drop_last() =~= es.take(n));
        lemma_thread_list_none_persists(es, n + 1);
    } else {
        assert(es.take(n) =~= es);
    }
}

/// `turn.id` of a `turn/start` result.
pub fn turn_result_turn_id(result: &Json) -> (r: Result<String, String>)
    ensures
        match jget(result@, "turn"@) {
            Some(turn) => match jget_str(turn, "id"@) {
                Some(id) => r matches Ok(v) && v@ == id,
                None => r matches Err(e) && e@ == "turn/start result missing turn.id"@,
            },
            None => r matches Err(e) && e@ == "turn/start result missing turn.id"@,
        },
{
    match result.get("turn") {
        Some(turn) => match turn.get_str("id") {
            Some(id) => Ok(id.clone()),
            None => Err(str_of("turn/start result missing turn.id")),
        },
        None => Err(str_of("turn/start result missing turn.id")),
    }
}

/// `thread.id` of a `thread/start` result.
pub fn thread_result_thread_id(result: &Json) -> (r: Result<String, String>)
    ensures
        match jget(result@, "thread"@) {
            Some(thread) => match jget_str(thread, "id"@) {
                Some(id) => r matches Ok(v) && v@ == id,
                None => r matches Err(e) && e@ == "thread result missing thread.id"@,
            },
            None => r matches Err(e) && e@ == "thread result missing thread.id"@,
        },
{
    match result.get("thread") {
        Some(thread) => match thread.get_str("id") {
            Some(id) => Ok(id.clone()),
            None => Err(str_of("thread result missing thread.id")),
        },
        None => Err(str_of("thread result missing thread.id")),
    }
}

pub open spec fn steer_rejected(response: JsonView) -> bool {
    ||| jbool(jget(response, "accepted"@)) == Some(false)
    ||| jbool(jget(response, "queued"@)) == Some(false)
    ||| jbool(jget(response, "ok"@)) == Some(false)
    ||| jbool(jget(response, "success"@)) == Some(false)
}

pub open spec fn is_failed_steer_status(status: Seq<char>) -> bool {
    ||| status == "rejected"@
    ||| status == "failed"@
    ||| status == "error"@
    ||| status == "cancelled"@
    ||| status == "canceled"@
}

/// A `turn/steer` reply accepted the follow-up unless a flag says `false`
/// or its status names a failure.
pub fn assert_turn_steer_accepted(response: &Json) -> (r: Result<(), String>)
    ensures
        steer_rejected(response@) ==> (r matches Err(e) && e@
            == "app-server `turn/steer` rejected follow-up"@),
        !steer_rejected(response@) ==> match jget_str(response@, "status"@) {
            Some(status) => if is_failed_steer_status(status) {
                r matches Err(e) && e@ == "app-server `turn/steer` returned status `"@ + status + "`"@
            } else {
                r is Ok
            },
            None => r is Ok,
        },
{
    if response.get_bool("accepted") == Some(false) || response.get_bool("queued") == Some(false)
        || response.get_bool("ok") == Some(false) || response.get_bool("success") == Some(false) {
        return Err(str_of("app-server `turn/steer` rejected follow-up"));
    }
    match response.get_str("status") {
        Some(status) => {
            let st = status.as_str();
            if string_eq(st, "rejected") || string_eq(st, "failed") || string_eq(st, "error")
                || string_eq(st, "cancelled") || string_eq(st, "canceled") {
                let mut e = str_of("app-server `turn/steer` returned status `");
                e.append(st);
                e.append("`");
                return Err(e);
            }
            Ok(())
        },
        None => Ok(()),
    }
}

/// The turns of a `thread/read` result.
pub open spec fn thread_turns(response: JsonView) -> Option<Seq<JsonView>> {
    match jget(response, "thread"@) {
        Some(thread) => jarray(jget(thread, "turns"@)),
        None => None,
    }
}

fn thread_turns_of(response: &Json) -> (r: Option<&Vec<Json>>)
    ensures
        match r {
            Some(items) => thread_turns(response@) matches Some(s) && s.len() == items@.len() && (
            forall|i: int| 0 <= i < items@.len() ==> #[trigger] s[i] == items@[i]@),
            None => thread_turns(response@) is None,
        },
{
    match response.get("thread") {
        Some(thread) => thread.get_array("turns"),
        None => None,
    }
}

pub open spec fn first_turn_with_id(turns: Seq<JsonView>, turn_id: Seq<char>) -> Option<JsonView>
    decreases turns.len(),
{
    if turns.len() == 0 {
        None
    } else if jget_str(turns[0], "id"@) == Some(turn_id) {
        Some(turns[0])
    } else {
        first_turn_with_id(turns.drop_first(), turn_id)
    }
}

pub open spec fn is_active_status(status: Seq<char>) -> bool {
    ||| status == "in_progress"@
    ||| status == "in-progress"@
    ||| status == "running"@
    ||| status == "pending"@
}

pub open spec fn is_finished_status(status: Seq<char>) -> bool {
    ||| status == "completed"@
    ||| status == "failed"@
    ||| status == "cancelled"@
    ||| status == "canceled"@
}

/// A follow-up can steer a turn only while it runs.
pub open spec fn spec_turn_accepts_steer(response: JsonView, thread_id: Seq<char>, turn_id: Seq<char>) -> Result<(), Seq<char>> {
    match thread_turns(response) {
        None => Err("thread/read missing turns"@),
        Some(turns) => match first_turn_with_id(turns, turn_id) {
            None => Err("turn `"@ + turn_id + "` was not found in thread `"@ + thread_id + "`"@),
            Some(turn) => match jget_str(turn, "status"@) {
                None => Err("turn `"@ + turn_id + "` has no status"@),
                Some(status) => if is_active_status(status) {
                    Ok(())
                } else if is_finished_status(status) {
                    Err("turn `"@ + turn_id + "` is already "@ + status)
                } else {
                    Err("turn `"@ + turn_id + "` has unsupported status `"@ + status + "`"@)
                },
            },
        },
    }
}

pub open spec fn unit_result_view(r: Result<(), String>) -> Result<(), Seq<char>> {
    match r {
        Ok(()) => Ok(()),
        Err(e) => Err(e@),
    }
}

fn find_turn_index(turns: &Vec<Json>, turn_id: &str, Ghost(ts): Ghost<Seq<JsonView>>) -> (r: Option<usize>)
    requires
        ts.len() == turns@.len(),
        forall|k: int| 0 <= k < turns@.len() ==> #[trigger] ts[k] == turns@[k]@,
    ensures
        match r {
            Some(k) => k < turns@.len() && first_turn_with_id(ts, turn_id@) == Some(ts[k as int]),
            None => first_turn_with_id(ts, turn_id@) is None,
        },
{
    assert(ts.skip(0) =~= ts);
    let mut i: usize = 0;
    while i < turns.len()
        invariant
            i <= turns.len(),
            ts.len() == turns@.len(),
            forall|k: int| 0 <= k < turns@.len() ==> #[trigger] ts[k] == turns@[k]@,
            first_turn_with_id(ts, turn_id@) == first_turn_with_id(ts.skip(i as int), turn_id@),
        decreases turns.len() - i,
    {
        assert(ts.skip(i as int)[0] == turns@[i as int]@);
        assert(ts.skip(i as int).drop_first() =~= ts.skip(i + 1));
        let matches_id = match turns[i].get_str("id") {
            Some(id) => string_eq(id.as_str(), turn_id),
            None => false,
        };
        if matches_id {
            return Some(i);
        }
        i = i + 1;
    }
    assert(ts.skip(turns.len() as int) =~= Seq::<JsonView>::empty());
    None
}

/// Checks, from a `thread/read` result, that the turn still runs.
pub fn ensure_turn_accepts_steer(response: &Json, thread_id: &str, turn_id: &str) -> (r: Result<(), String>)
    ensures
        unit_result_view(r) == spec_turn_accepts_steer(response@, thread_id@, turn_id@),
{
    let turns = match thread_turns_of(response) {
        Some(t) => t,
        None => {
            return Err(str_of("thread/read missing turns"));
        },
    };
    let ghost ts = thread_turns(response@).unwrap();
    let found = find_turn_index(turns, turn_id, Ghost(ts));
    let turn = match found {
        Some(k) => &turns[k],
        None => {
            let mut e = str_of("turn `");
            e.append(turn_id);
            e.append("` was not found in thread `");
            e.append(thread_id);
            e.append("`");
            return Err(e);
        },
    };
    let status = match turn.get_str("status") {
        Some(s) => s,
        None => {
            let mut e = str_of("turn `");
            e.append(turn_id);
            e.append("` has no status");
            return Err(e);
        },
    };
    let st = status.as_str();
    if string_eq(st, "in_progress") || string_eq(st, "in-progress") || string_eq(st, "running")
        || string_eq(st, "pending") {
        return Ok(());
    }
    let mut e = str_of("turn `");
    e.append(turn_id);
    if string_eq(st, "completed") || string_eq(st, "failed") || string_eq(st, "cancelled")
        || string_eq(st, "canceled") {
        e.append("` is already ");
        e.append(st);
    } else {
        e.append("` has unsupported status `");
        e.append(st);
        e.append("`");
    }
    Err(e)
}

/// The text of the last agent message of the turn, from a `thread/read`
/// result; empty when the turn has none.
pub open spec fn last_agent_text(items: Seq<JsonView>) -> Option<Seq<char>>
    decreases items.len(),
{
    if items.len() == 0 {
        None
    } else if jget_str(items.last(), "type"@) == Some("agentMessage"@) {
        Some(
            match jget_str(items.last(), "text"@) {
                Some(t) => t,
                None => Seq::<char>::empty(),
            },
        )
    } else {
        last_agent_text(items.drop_last())
    }
}

/// Looks through the turns from the last one back.
pub open spec fn last_turn_message(turns: Seq<JsonView>, turn_id: Seq<char>) -> Option<Seq<char>>
    decreases turns.len(),
{
    if turns.len() == 0 {
        None
    } else if jget_str(turns.last(), "id"@) != Some(turn_id) {
        last_turn_message(turns.drop_last(), turn_id)
    } else {
        match jarray(jget(turns.last(), "items"@)) {
            Some(items) => match last_agent_text(items) {
                Some(t) => Some(t),
                None => last_turn_message(turns.drop_last(), turn_id),
            },
            None => last_turn_message(turns.drop_last(), turn_id),
        }
    }
}

fn last_agent_text_of(items: &Vec<Json>, Ghost(s): Ghost<Seq<JsonView>>) -> (r: Option<String>)
    requires
        s.len() == items@.len(),
        forall|k: int| 0 <= k < items@.len() ==> #[trigger] s[k] == items@[k]@,
    ensures
        crate::telegram::opt_str_view(r) == last_agent_text(s),
{
    let mut j: usize = items.len();
    assert(s.take(items.len() as int) =~= s);
    while j > 0
        invariant
            j <= items.len(),
            s.len() == items@.len(),
            forall|k: int| 0 <= k < items@.len() ==> #[trigger] s[k] == items@[k]@,
            last_agent_text(s) == last_agent_text(s.take(j as int)),
        decreases j,
    {
        assert(s.take(j as int).drop_last() =~= s.take(j - 1));
        assert(s.take(j as int).last() == items@[j - 1]@);
        let item = &items[j - 1];
        let is_agent = match item.get_str("type") {
            Some(t) => string_eq(t.as_str(), "agentMessage"),
            None => false,
        };
        if is_agent {
            return match item.get_str("text") {
                Some(t) => Some(t.clone()),
                None => Some(String::new()),
            };
        }
        j = j - 1;
    }
    None
}

pub fn read_last_agent_message(response: &Json, turn_id: &str) -> (r: Result<String, String>)
    ensures
        match thread_turns(response@) {
            None => r matches Err(e) && e@ == "thread/read missing turns"@,
            Some(turns) => r matches Ok(t) && t@ == match last_turn_message(turns, turn_id@) {
                Some(m) => m,
                None => Seq::<char>::empty(),
            },
        },
{
    let turns = match thread_turns_of(response) {
        Some(t) => t,
        None => {
            return Err(str_of("thread/read missing turns"));
        },
    };
    let ghost ts = thread_turns(response@).unwrap();
    assert(ts.take(turns.len() as int) =~= ts);
    let mut j: usize = turns.len();
    while j > 0
        invariant
            j <= turns.len(),
            thread_turns(response@) == Some(ts),
            ts.len() == turns@.len(),
            forall|k: int| 0 <= k < turns@.len() ==> #[trigger] ts[k] == turns@[k]@,
            last_turn_message(ts, turn_id@) == last_turn_message(ts.take(j as int), turn_id@),
        decreases j,
    {
        assert(ts.take(j as int).drop_last() =~= ts.take(j - 1));
        assert(ts.take(j as int).last() == turns@[j - 1]@);
        let turn = &turns[j - 1];
        let same = match turn.get_str("id") {
            Some(id) => string_eq(id.as_str(), turn_id),
            None => false,
        };
        if same {
            match turn.get_array("items") {
                Some(items) => {
                    let ghost is = jarray(jget(turn@, "items"@)).unwrap();
                    match last_agent_text_of(items, Ghost(is)) {
                        Some(t) => {
                            assert(jarray(jget(turn@, "items"@)) == Some(is));
                            return Ok(t);
                        },
                        None => {},
                    }
                },
                None => {},
            }
        }
        j = j - 1;
    }
    Ok(String::new())
}

// ---------------------------------------------------------------------------
// Request parameters
// ---------------------------------------------------------------------------

pub open spec fn jstr_of(s: Seq<char>) -> JsonView {
    JsonView::Str(s)
}

pub open spec fn restricted_access(readable: Seq<Seq<char>>) -> JsonView {
    JsonView::Object(
        seq![
            ("type"@, jstr_of("restricted"@)),
            ("readableRoots"@, JsonView::Array(crate::json::str_items(readable))),
        ],
    )
}

/// The sandbox a turn runs in: full access, read-only, or writes limited to
/// the workspace's writable roots; network access is allowed except with
/// full access, where nothing is restricted. An unknown sandbox name runs as
/// `workspace-write` and is passed on as the fallback.
pub open spec fn spec_sandbox_policy(
    sandbox: Seq<char>,
    readable: Seq<Seq<char>>,
    writable: Seq<Seq<char>>,
) -> JsonView {
    if sandbox == "danger-full-access"@ {
        JsonView::Object(seq![("type"@, jstr_of("dangerFullAccess"@))])
    } else if sandbox == "read-only"@ {
        JsonView::Object(
            seq![
                ("type"@, jstr_of("readOnly"@)),
                ("access"@, restricted_access(readable)),
                ("networkAccess"@, JsonView::Bool(true)),
            ],
        )
    } else {
        let base = seq![
            ("type"@, jstr_of("workspaceWrite"@)),
            ("readOnlyAccess"@, restricted_access(readable)),
            ("writableRoots"@, JsonView::Array(crate::json::str_items(writable))),
            ("networkAccess"@, JsonView::Bool(true)),
            ("excludeTmpdirEnvVar"@, JsonView::Bool(false)),
            ("excludeSlashTmp"@, JsonView::Bool(false)),
        ];
        if sandbox == "workspace-write"@ {
            JsonView::Object(base)
        } else {
            JsonView::Object(base.push(("fallbackSandbox"@, jstr_of(sandbox))))
        }
    }
}

fn restricted_access_value(readable: &Vec<String>) -> (r: Json)
    ensures
        r@ == restricted_access(str_views(readable@)),
{
    crate::json::object2(
        "type",
        crate::json::jstring("restricted"),
        "readableRoots",
        crate::json::string_array(readable),
    )
}

pub fn sandbox_policy_for_workspace(config: &CodexConfig, workspace: &WorkspaceConfig) -> (r: Json)
    ensures
        r@ == spec_sandbox_policy(
            config.sandbox@,
            readable_roots(workspace.path@, str_views(workspace.writable_roots@)),
            str_views(workspace.writable_roots@),
        ),
{
    let readable = workspace_readable_roots(workspace);
    let sandbox = config.sandbox.as_str();
    if string_eq(sandbox, "danger-full-access") {
        return crate::json::object1("type", crate::json::jstring("dangerFullAccess"));
    }
    if string_eq(sandbox, "read-only") {
        return crate::json::object3(
            "type",
            crate::json::jstring("readOnly"),
            "access",
            restricted_access_value(&readable),
            "networkAccess",
            Json::Bool(true),
        );
    }
    let mut entries: Vec<(String, Json)> = Vec::new();
    entries.push(crate::json::entry("type", crate::json::jstring("workspaceWrite")));
    entries.push(crate::json::entry("readOnlyAccess", restricted_access_value(&readable)));
    entries.push(
        crate::json::entry("writableRoots", crate::json::string_array(&workspace.writable_roots)),
    );
    entries.push(crate::json::entry("networkAccess", Json::Bool(true)));
    entries.push(crate::json::entry("excludeTmpdirEnvVar", Json::Bool(false)));
    entries.push(crate::json::entry("excludeSlashTmp", Json::Bool(false)));
    let ghost base = crate::json::entries_view(entries@);
    assert(base =~= seq![
        ("type"@, jstr_of("workspaceWrite"@)),
        ("readOnlyAccess"@, restricted_access(str_views(readable@))),
        ("writableRoots"@, JsonView::Array(crate::json::str_items(str_views(workspace.writable_roots@)))),
        ("networkAccess"@, JsonView::Bool(true)),
        ("excludeTmpdirEnvVar"@, JsonView::Bool(false)),
        ("excludeSlashTmp"@, JsonView::Bool(false)),
    ]);
    if !string_eq(sandbox, "workspace-write") {
        entries.push(crate::json::entry("fallbackSandbox", Json::Str(config.sandbox.clone())));
        assert(crate::json::entries_view(entries@) =~= base.push(
            ("fallbackSandbox"@, jstr_of(config.sandbox@)),
        ));
    }
    crate::json::object_of(entries)
}

/// The parameters of `initialize`: the client's name and version, with the
/// experimental API switched on.
pub open spec fn spec_initialize_params(version: Seq<char>) -> JsonView {
    JsonView::Object(
        seq![
            (
                "clientInfo"@,
                JsonView::Object(
                    seq![
                        ("name"@, jstr_of("remotty"@)),
                        ("title"@, jstr_of("remotty"@)),
                        ("version"@, jstr_of(version)),
                    ],
                ),
            ),
            (
                "capabilities"@,
                JsonView::Object(
                    seq![
                        ("experimentalApi"@, JsonView::Bool(true)),
                        ("optOutNotificationMethods"@, JsonView::Array(Seq::empty())),
                    ],
                ),
            ),
        ],
    )
}

pub fn initialize_params(version: &str) -> (r: Json)
    ensures
        r@ == spec_initialize_params(version@),
{
    let client = crate::json::object3(
        "name",
        crate::json::jstring("remotty"),
        "title",
        crate::json::jstring("remotty"),
        "version",
        crate::json::jstring(version),
    );
    let no_methods = crate::json::empty_array();
    let capabilities = crate::json::object2(
        "experimentalApi",
        Json::Bool(true),
        "optOutNotificationMethods",
        no_methods,
    );
    crate::json::object2("clientInfo", client, "capabilities", capabilities)
}

/// Adds the configured model to request parameters that form an object (or
/// are still `null`), replacing a `model` that is already there.
pub fn add_model_param(params: &mut Json, config: &CodexConfig)
    requires
        old(params)@ is Object || old(params)@ is Null,
    ensures
        match configured_model_spec(config.model@) {
            None => final(params)@ == old(params)@,
            Some(m) => final(params)@ == JsonView::Object(
                obj_insert(
                    match old(params)@ {
                        JsonView::Object(es) => es,
                        _ => Seq::empty(),
                    },
                    "model"@,
                    jstr_of(m),
                ),
            ),
        },
{
    let model = match configured_model(config) {
        Some(m) => m,
        None => {
            return;
        },
    };
    let mut taken = Json::Null;
    std::mem::swap(params, &mut taken);
    let ghost before = taken@;
    let mut entries = match taken {
        Json::Object(entries) => {
            assert(crate::json::entries_view(entries@) =~= before->Object_0);
            entries
        },
        _ => Vec::new(),
    };
    assert(crate::json::entries_view(entries@) =~= match before {
        JsonView::Object(es) => es,
        _ => Seq::empty(),
    });
    insert_entry(&mut entries, str_of("model"), Json::Str(model));
    *params = crate::json::object_of(entries);
}

pub open spec fn configured_model_spec(model: Seq<char>) -> Option<Seq<char>> {
    if trim(model).len() > 0 {
        Some(trim(model))
    } else {
        None
    }
}

/// The inputs of a turn: the prompt as text, then each image as a local file.
pub open spec fn spec_user_inputs(prompt: Seq<char>, images: Seq<Seq<char>>) -> Seq<JsonView> {
    seq![
        JsonView::Object(
            seq![
                ("type"@, jstr_of("text"@)),
                ("text"@, jstr_of(prompt)),
                ("text_elements"@, JsonView::Array(Seq::empty())),
            ],
        ),
    ] + images.map_values(
        |p: Seq<char>|
            JsonView::Object(seq![("type"@, jstr_of("localImage"@)), ("path"@, jstr_of(p))]),
    )
}

pub fn request_to_user_inputs(request: CodexRequest) -> (r: Vec<Json>)
    ensures
        r@.map_values(|j: Json| j@) == spec_user_inputs(
            request.prompt@,
            str_views(request.image_paths@),
        ),
{
    let ghost images = str_views(request.image_paths@);
    let no_elements = crate::json::empty_array();
    let ghost prompt = request.prompt@;
    let text = crate::json::object3(
        "type",
        crate::json::jstring("text"),
        "text",
        Json::Str(request.prompt),
        "text_elements",
        no_elements,
    );
    let mut input: Vec<Json> = Vec::new();
    input.push(text);
    let paths = request.image_paths;
    let mut i: usize = 0;
    while i < paths.len()
        invariant
            i <= paths.len(),
            images == str_views(paths@),
            input@.map_values(|j: Json| j@) =~= spec_user_inputs(prompt, images.take(i as int)),
        decreases paths.len() - i,
    {
        let ghost before = input@;
        input.push(
            crate::json::object2(
                "type",
                crate::json::jstring("localImage"),
                "path",
                Json::Str(paths[i].clone()),
            ),
        );
        assert(images.take(i + 1) =~= images.take(i as int).push(images[i as int]));
        assert(input@.map_values(|j: Json| j@) =~= before.map_values(|j: Json| j@).push(
            JsonView::Object(seq![("type"@, jstr_of("localImage"@)), ("path"@, jstr_of(images[i as int]))]),
        ));
        i = i + 1;
    }
    assert(images.take(paths.len() as int) =~= images);
    input
}

/// The parameters of `turn/steer`: a follow-up for the running turn.
pub fn turn_steer_params(thread_id: &str, turn_id: &str, request: CodexRequest) -> (r: Json)
    ensures
        r@ == JsonView::Object(
            seq![
                ("threadId"@, jstr_of(thread_id@)),
                ("expectedTurnId"@, jstr_of(turn_id@)),
                (
                    "input"@,
                    JsonView::Array(
                        spec_user_inputs(request.prompt@, str_views(request.image_paths@)),
                    ),
                ),
            ],
        ),
{
    let inputs = request_to_user_inputs(request);
    crate::json::object3(
        "threadId",
        crate::json::jstring(thread_id),
        "expectedTurnId",
        crate::json::jstring(turn_id),
        "input",
        crate::json::array_of(inputs),
    )
}

/// The parameters of `thread/start` for the workspace.
pub open spec fn spec_thread_start_params(config: CodexConfig, workspace_path: Seq<char>) -> JsonView {
    JsonView::Object(
        seq![
            ("cwd"@, jstr_of(workspace_path)),
            ("approvalPolicy"@, jstr_of(config.approval@)),
            ("approvalsReviewer"@, jstr_of("user"@)),
            ("sandbox"@, jstr_of(config.sandbox@)),
            ("experimentalRawEvents"@, JsonView::Bool(false)),
            ("persistExtendedHistory"@, JsonView::Bool(true)),
            ("serviceName"@, jstr_of("remotty"@)),
        ],
    )
}

/// The parameters of `thread/start`, with the configured model when there is one.
pub fn thread_start_params(config: &CodexConfig, workspace: &WorkspaceConfig) -> (r: Json)
    ensures
        match configured_model_spec(config.model@) {
            None => r@ == spec_thread_start_params(*config, workspace.path@),
            Some(m) => r@ == JsonView::Object(
                obj_insert(
                    spec_thread_start_params(*config, workspace.path@)->Object_0,
                    "model"@,
                    jstr_of(m),
                ),
            ),
        },
{
    let entries = vec![
        crate::json::entry("cwd", Json::Str(workspace.path.clone())),
        crate::json::entry("approvalPolicy", Json::Str(config.approval.clone())),
        crate::json::entry("approvalsReviewer", crate::json::jstring("user")),
        crate::json::entry("sandbox", Json::Str(config.sandbox.clone())),
        crate::json::entry("experimentalRawEvents", Json::Bool(false)),
        crate::json::entry("persistExtendedHistory", Json::Bool(true)),
        crate::json::entry("serviceName", crate::json::jstring("remotty")),
    ];
    assert(crate::json::entries_view(entries@) =~= spec_thread_start_params(
        *config,
        workspace.path@,
    )->Object_0);
    let mut params = crate::json::object_of(entries);
    add_model_param(&mut params, config);
    params
}

/// The parameters of `thread/resume`; the thread keeps the model it has.
pub fn thread_resume_params(thread_id: &str, config: &CodexConfig, workspace: &WorkspaceConfig) -> (r:
    Json)
    ensures
        r@ == JsonView::Object(
            seq![
                ("threadId"@, jstr_of(thread_id@)),
                ("cwd"@, jstr_of(workspace.path@)),
                ("approvalPolicy"@, jstr_of(config.approval@)),
                ("approvalsReviewer"@, jstr_of("user"@)),
                ("sandbox"@, jstr_of(config.sandbox@)),
                ("persistExtendedHistory"@, JsonView::Bool(true)),
            ],
        ),
{
    let entries = vec![
        crate::json::entry("threadId", crate::json::jstring(thread_id)),
        crate::json::entry("cwd", Json::Str(workspace.path.clone())),
        crate::json::entry("approvalPolicy", Json::Str(config.approval.clone())),
        crate::json::entry("approvalsReviewer", crate::json::jstring("user")),
        crate::json::entry("sandbox", Json::Str(config.sandbox.clone())),
        crate::json::entry("persistExtendedHistory", Json::Bool(true)),
    ];
    assert(crate::json::entries_view(entries@) =~= seq![
        ("threadId"@, jstr_of(thread_id@)),
        ("cwd"@, jstr_of(workspace.path@)),
        ("approvalPolicy"@, jstr_of(config.approval@)),
        ("approvalsReviewer"@, jstr_of("user"@)),
        ("sandbox"@, jstr_of(config.sandbox@)),
        ("persistExtendedHistory"@, JsonView::Bool(true)),
    ]);
    crate::json::object_of(entries)
}

pub open spec fn spec_turn_start_params(
    thread_id: Seq<char>,
    request: CodexRequest,
    config: CodexConfig,
    workspace: WorkspaceConfig,
) -> JsonView {
    JsonView::Object(
        seq![
            ("threadId"@, jstr_of(thread_id)),
            (
                "input"@,
                JsonView::Array(spec_user_inputs(request.prompt@, str_views(request.image_paths@))),
            ),
            ("cwd"@, jstr_of(workspace.path@)),
            ("approvalPolicy"@, jstr_of(config.approval@)),
            ("approvalsReviewer"@, jstr_of("user"@)),
            (
                "sandboxPolicy"@,
                spec_sandbox_policy(
                    config.sandbox@,
                    readable_roots(workspace.path@, str_views(workspace.writable_roots@)),
                    str_views(workspace.writable_roots@),
                ),
            ),
        ],
    )
}

/// The parameters of `turn/start`; a new thread also gets the configured model.
pub fn turn_start_params(
    thread_id: &str,
    request: CodexRequest,
    config: &CodexConfig,
    workspace: &WorkspaceConfig,
    include_model: bool,
) -> (r: Json)
    ensures
        match (include_model, configured_model_spec(config.model@)) {
            (true, Some(m)) => r@ == JsonView::Object(
                obj_insert(
                    spec_turn_start_params(thread_id@, request, *config, *workspace)->Object_0,
                    "model"@,
                    jstr_of(m),
                ),
            ),
            _ => r@ == spec_turn_start_params(thread_id@, request, *config, *workspace),
        },
{
    let ghost req = request;
    let inputs = request_to_user_inputs(request);
    let entries = vec![
        crate::json::entry("threadId", crate::json::jstring(thread_id)),
        crate::json::entry("input", crate::json::array_of(inputs)),
        crate::json::entry("cwd", Json::Str(workspace.path.clone())),
        crate::json::entry("approvalPolicy", Json::Str(config.approval.clone())),
        crate::json::entry("approvalsReviewer", crate::json::jstring("user")),
        crate::json::entry("sandboxPolicy", sandbox_policy_for_workspace(config, workspace)),
    ];
    assert(crate::json::entries_view(entries@) =~= spec_turn_start_params(
        thread_id@,
        req,
        *config,
        *workspace,
    )->Object_0);
    let mut params = crate::json::object_of(entries);
    if include_model {
        add_model_param(&mut params, config);
    }
    params
}

/// The parameters of `thread/list`: at most `limit` threads, filtered by a
/// search text when one that is not blank is given.
pub fn list_threads_params(limit: u64, filter: Option<&str>) -> (r: Json)
    ensures
        match filter {
            Some(f) => if trim(f@).len() > 0 {
                r@ == JsonView::Object(
                    seq![
                        ("limit"@, JsonView::Number(crate::text::dec(limit as nat))),
                        ("filter"@, jstr_of(trim(f@))),
                    ],
                )
            } else {
                r@ == JsonView::Object(seq![("limit"@, JsonView::Number(crate::text::dec(limit as nat)))])
            },
            None => r@ == JsonView::Object(
                seq![("limit"@, JsonView::Number(crate::text::dec(limit as nat)))],
            ),
        },
{
    let limit_value = Json::Number(crate::text::u64_string(limit));
    match filter {
        Some(f) => {
            let t = trim_str(f);
            if t.len() > 0 {
                return crate::json::object2(
                    "limit",
                    limit_value,
                    "filter",
                    Json::Str(string_of(t.as_slice())),
                );
            }
        },
        None => {},
    }
    crate::json::object1("limit", limit_value)
}

/// The reply to a server request: the answer under both `response` and `result`.
pub fn server_request_reply(transport_request_id: &str, response: &Json) -> (r: Json)
    ensures
        r@ == JsonView::Object(
            seq![
                ("id"@, jstr_of(transport_request_id@)),
                ("response"@, response@),
                ("result"@, response@),
            ],
        ),
{
    crate::json::object3(
        "id",
        crate::json::jstring(transport_request_id),
        "response",
        response.deep_clone(),
        "result",
        response.deep_clone(),
    )
}

/// A request to the app-server: `client-<n>` as its id.
pub fn client_request(request_number: u64, method: &str, params: Json) -> (r: Json)
    ensures
        r@ == JsonView::Object(
            seq![
                ("id"@, jstr_of("client-"@ + crate::text::dec(request_number as nat))),
                ("method"@, jstr_of(method@)),
                ("params"@, params@),
            ],
        ),
{
    let mut id = str_of("client-");
    id.append(crate::text::u64_string(request_number).as_str());
    crate::json::object3("id", Json::Str(id), "method", crate::json::jstring(method), "params", params)
}

/// What a message read while waiting for a call's reply means for it.
pub enum CallReply {
    /// Another message, kept for later.
    Other,
    /// The call failed; the error as the server sent it.
    Failed(Json),
    /// The call's result.
    Result(Json),
    /// A reply with neither result nor error.
    Missing,
}

/// Sorts a message read while waiting for the reply to request `request_id`.
pub fn classify_call_reply(message: &Json, request_id: &str) -> (r: CallReply)
    ensures
        spec_response_id(message@) != Some(request_id@) ==> r is Other,
        spec_response_id(message@) == Some(request_id@) ==> match jget(message@, "error"@) {
            Some(e) => r matches CallReply::Failed(x) && x@ == e,
            None => match jget(message@, "result"@) {
                Some(v) => r matches CallReply::Result(x) && x@ == v,
                None => match jget(message@, "response"@) {
                    Some(v) => r matches CallReply::Result(x) && x@ == v,
                    None => r is Missing,
                },
            },
        },
{
    let same = match response_id(message) {
        Some(id) => string_eq(id.as_str(), request_id),
        None => false,
    };
    if !same {
        return CallReply::Other;
    }
    match message.get("error") {
        Some(e) => {
            return CallReply::Failed(e.deep_clone());
        },
        None => {},
    }
    match message.get("result") {
        Some(v) => {
            return CallReply::Result(v.deep_clone());
        },
        None => {},
    }
    match message.get("response") {
        Some(v) => CallReply::Result(v.deep_clone()),
        None => CallReply::Missing,
    }
}

// ---------------------------------------------------------------------------
// Following a turn
// ---------------------------------------------------------------------------

/// What has been read of a running turn: the streamed agent text and the
/// number of server requests resolved meanwhile.
pub struct TurnProgress {
    pub delta_message: String,
    pub approval_resolved_count: i64,
}

/// What to do with a message read while a turn runs.
pub enum TurnStep {
    /// A message without method: keep it for a later call.
    Backlog,
    /// A server request: answer it with `approval_outcome` when it asks for
    /// approval, else decline it.
    ServerRequest,
    /// Keep reading.
    Continue,
    /// The turn ended with this status.
    Completed(String),
}

pub open spec fn is_this_turn(params: Option<JsonView>, thread_id: Seq<char>, turn_id: Seq<char>) -> bool {
    match params {
        Some(p) => jget_str(p, "threadId"@) == Some(thread_id) && jget_str(p, "turnId"@) == Some(
            turn_id,
        ),
        None => false,
    }
}

/// Reads one message of the turn `turn_id` of `thread_id`: agent text is
/// added to the progress, resolved requests of the thread are counted, and
/// the turn's completion ends it.
pub fn turn_step(progress: &mut TurnProgress, message: &Json, thread_id: &str, turn_id: &str) -> (r:
    Result<TurnStep, String>)
    requires
        old(progress).approval_resolved_count < i64::MAX,
    ensures
        match jget_str(message@, "method"@) {
            None => r matches Ok(TurnStep::Backlog) && final(progress)@ == old(progress)@,
            Some(method) => if jget(message@, "id"@) is Some {
                r matches Ok(TurnStep::ServerRequest) && final(progress)@ == old(progress)@
            } else if method == "item/agentMessage/delta"@ {
                let params = jget(message@, "params"@);
                r matches Ok(TurnStep::Continue) && final(progress).approval_resolved_count
                    == old(progress).approval_resolved_count && final(progress).delta_message@ == (
                if is_this_turn(params, thread_id@, turn_id@) {
                    match jstr(jget(params.unwrap(), "delta"@)) {
                        Some(d) => old(progress).delta_message@ + d,
                        None => old(progress).delta_message@,
                    }
                } else {
                    old(progress).delta_message@
                })
            } else if method == "serverRequest/resolved"@ {
                r matches Ok(TurnStep::Continue) && final(progress).delta_message@ == old(
                    progress,
                ).delta_message@ && final(progress).approval_resolved_count == (if (match jget(
                    message@,
                    "params"@,
                ) {
                    Some(p) => jget_str(p, "threadId"@) == Some(thread_id@),
                    None => false,
                }) {
                    old(progress).approval_resolved_count + 1
                } else {
                    old(progress).approval_resolved_count as int
                })
            } else if method == "turn/completed"@ {
                final(progress)@ == old(progress)@ && match jget(message@, "params"@) {
                    None => r matches Err(e) && e@ == "turn/completed missing turn"@,
                    Some(p) => match jget(p, "turn"@) {
                        None => r matches Err(e) && e@ == "turn/completed missing turn"@,
                        Some(turn) => if jget_str(turn, "id"@) != Some(turn_id@) {
                            r matches Ok(TurnStep::Continue)
                        } else {
                            r matches Ok(TurnStep::Completed(status)) && status@ == match jget_str(
                                turn,
                                "status"@,
                            ) {
                                Some(st) => st,
                                None => "failed"@,
                            }
                        },
                    },
                }
            } else {
                r matches Ok(TurnStep::Continue) && final(progress)@ == old(progress)@
            },
        },
{
    let method = match message.get_str("method") {
        Some(m) => m,
        None => {
            return Ok(TurnStep::Backlog);
        },
    };
    if message.get("id").is_some() {
        return Ok(TurnStep::ServerRequest);
    }
    let params = message.get("params");
    let m = method.as_str();
    if string_eq(m, "item/agentMessage/delta") {
        match params {
            Some(p) => {
                let same_thread = match p.get_str("threadId") {
                    Some(t) => string_eq(t.as_str(), thread_id),
                    None => false,
                };
                let same_turn = match p.get_str("turnId") {
                    Some(t) => string_eq(t.as_str(), turn_id),
                    None => false,
                };
                if same_thread && same_turn {
                    match p.get("delta") {
                        Some(d) => match d.as_str() {
                            Some(text) => progress.delta_message.append(text.as_str()),
                            None => {},
                        },
                        None => {},
                    }
                }
            },
            None => {},
        }
        return Ok(TurnStep::Continue);
    }
    if string_eq(m, "serverRequest/resolved") {
        let same_thread = match params {
            Some(p) => match p.get_str("threadId") {
                Some(t) => string_eq(t.as_str(), thread_id),
                None => false,
            },
            None => false,
        };
        if same_thread {
            progress.approval_resolved_count = progress.approval_resolved_count + 1;
        }
        return Ok(TurnStep::Continue);
    }
    if string_eq(m, "turn/completed") {
        let turn = match params {
            Some(p) => match p.get("turn") {
                Some(t) => t,
                None => {
                    return Err(str_of("turn/completed missing turn"));
                },
            },
            None => {
                return Err(str_of("turn/completed missing turn"));
            },
        };
        let same = match turn.get_str("id") {
            Some(id) => string_eq(id.as_str(), turn_id),
            None => false,
        };
        if !same {
            return Ok(TurnStep::Continue);
        }
        let status = match turn.get_str("status") {
            Some(st) => st.clone(),
            None => str_of("failed"),
        };
        return Ok(TurnStep::Completed(status));
    }
    Ok(TurnStep::Continue)
}

pub struct TurnProgressView {
    pub delta_message: Seq<char>,
    pub approval_resolved_count: i64,
}

impl View for TurnProgress {
    type V = TurnProgressView;

    open spec fn view(&self) -> TurnProgressView {
        TurnProgressView {
            delta_message: self.delta_message@,
            approval_resolved_count: self.approval_resolved_count,
        }
    }
}

/// The outcome when the turn stops for an approval: the request, the text
/// streamed so far, and no exit code yet.
pub fn approval_outcome(
    progress: TurnProgress,
    thread_id: &str,
    turn_id: &str,
    request: CodexApprovalRequest,
) -> (r: CodexOutcome)
    ensures
        r.session_id matches Some(s) && s@ == thread_id@,
        r.turn_id matches Some(t) && t@ == turn_id@,
        r.last_message@ == progress.delta_message@,
        r.exit_code is None,
        r.approval_pending,
        r.approval_requests@.len() == 1 && r.approval_requests@[0]@ == request@,
        r.approval_request_count == 1,
        r.approval_resolved_count == progress.approval_resolved_count,
{
    let ghost req = request@;
    let requests = vec![request];
    CodexOutcome {
        session_id: Some(str_of(thread_id)),
        turn_id: Some(str_of(turn_id)),
        last_message: progress.delta_message,
        exit_code: None,
        approval_pending: true,
        approval_requests: requests,
        approval_request_count: 1,
        approval_resolved_count: progress.approval_resolved_count,
    }
}

/// The outcome of a completed turn: its last agent message when the thread
/// could be read, else the text streamed during the turn.
pub fn completed_outcome(
    progress: TurnProgress,
    thread_id: &str,
    turn_id: &str,
    status: &str,
    last_agent_message: Option<String>,
) -> (r: CodexOutcome)
    ensures
        r.session_id matches Some(s) && s@ == thread_id@,
        r.turn_id matches Some(t) && t@ == turn_id@,
        r.last_message@ == match last_agent_message {
            Some(m) => m@,
            None => progress.delta_message@,
        },
        r.exit_code == Some(
            if status@ == "completed"@ {
                0i32
            } else if status@ == "interrupted"@ {
                130i32
            } else {
                1i32
            },
        ),
        !r.approval_pending,
        r.approval_requests@.len() == 0,
        r.approval_request_count == 0,
        r.approval_resolved_count == progress.approval_resolved_count,
{
    let last_message = match last_agent_message {
        Some(m) => m,
        None => progress.delta_message,
    };
    CodexOutcome {
        session_id: Some(str_of(thread_id)),
        turn_id: Some(str_of(turn_id)),
        last_message,
        exit_code: Some(turn_status_exit_code(status)),
        approval_pending: false,
        approval_requests: Vec::new(),
        approval_request_count: 0,
        approval_resolved_count: progress.approval_resolved_count,
    }
}

} // verus!
