//! Registering a project directory as the bridge's workspace: how paths are
//! rendered and compared, how a workspace id is derived, and how the
//! `[[workspaces]]` entries of `bridge.toml` change.
use vstd::prelude::*;

use crate::config::Config;
use crate::toml_doc::{
    items_view, lemma_lookup_inserted, lemma_lookup_other, table_get, table_lookup, table_insert, table_insert_default, table_set, table_set_default,
    table_view, tget, tstr, Toml, TomlView,
};
use crate::ids::{simple_hex, spec_uuid_v5_url, uuid_v5_simple};
use crate::text::{
    ascii_lower, back_to, char_is_alnum, chars_of, is_ascii_alnum, is_ascii_digit, is_ascii_lower, is_ascii_upper,
    lemma_back_to_bounds, lemma_skip_from_bounds, skip_from, lower_seq, push_chars, seq_eq, set_pred, starts_with,
    str_of, string_of, subvec, to_lower_vec, trim_by, trim_end_by, trim_end_set, trim_set,
};

verus! {

pub const PLACEHOLDER_WORKSPACE_PATH: &'static str = "C:/path/to/workspace";

pub const DEFAULT_MODE: &'static str = "await_reply";

pub const DEFAULT_CHECKS_PROFILE: &'static str = "default";

pub const DEFAULT_CONTINUE_PROMPT: &'static str = "Continue with the needed checks. If you must stop, reply with the short reason.";

/// What `config workspace upsert` did.
#[derive(Debug, Clone, PartialEq, Eq)]
pub struct WorkspaceUpsertResult {
    pub workspace_id: String,
    pub workspace_path: String,
    pub config_path: String,
    pub created_config: bool,
}

// ---------------------------------------------------------------------------
// Rendering and comparing paths
// ---------------------------------------------------------------------------

pub open spec fn replace_backslashes(s: Seq<char>) -> Seq<char> {
    s.map_values(|c: char| if c == '\\' { '/' } else { c })
}

pub open spec fn has_prefix(s: Seq<char>, p: Seq<char>) -> bool {
    p.len() <= s.len() && s.take(p.len() as int) == p
}

/// A path as the user knows it: without the `\\?\` prefix of extended
/// Windows paths, with forward slashes.
pub open spec fn spec_render_workspace_path(raw: Seq<char>) -> Seq<char> {
    let stripped = if has_prefix(raw, "\\\\?\\UNC\\"@) {
        "\\\\"@ + raw.skip(8)
    } else if has_prefix(raw, "\\\\?\\"@) {
        raw.skip(4)
    } else {
        raw
    };
    replace_backslashes(stripped)
}

/// A rendered path has no backslash, and rendering it again changes nothing.
pub proof fn lemma_render_workspace_path_idempotent(raw: Seq<char>)
    ensures
        forall|i: int|
            0 <= i < spec_render_workspace_path(raw).len() ==> #[trigger] spec_render_workspace_path(
                raw,
            )[i] != '\\',
        spec_render_workspace_path(spec_render_workspace_path(raw)) == spec_render_workspace_path(raw),
{
    reveal_strlit("\\\\?\\UNC\\");
    reveal_strlit("\\\\?\\");
    let r = spec_render_workspace_path(raw);
    assert(forall|i: int| 0 <= i < r.len() ==> #[trigger] r[i] != '\\');
    assert(!has_prefix(r, "\\\\?\\UNC\\"@)) by {
        if has_prefix(r, "\\\\?\\UNC\\"@) {
            assert(r.take(8)[0] == r[0]);
        }
    }
    assert(!has_prefix(r, "\\\\?\\"@)) by {
        if has_prefix(r, "\\\\?\\"@) {
            assert(r.take(4)[0] == r[0]);
        }
    }
    assert(replace_backslashes(r) =~= r);
}

fn replace_backslashes_vec(v: &Vec<char>) -> (r: Vec<char>)
    ensures
        r@ == replace_backslashes(v@),
{
    let mut r: Vec<char> = Vec::new();
    let mut i: usize = 0;
    while i < v.len()
        invariant
            i <= v.len(),
            r@ =~= replace_backslashes(v@.take(i as int)),
        decreases v.len() - i,
    {
        let c = v[i];
        r.push(
            if c == '\\' {
                '/'
            } else {
                c
            },
        );
        i = i + 1;
    }
    assert(v@.take(v.len() as int) =~= v@);
    r
}

pub fn render_workspace_path(path: &str) -> (r: String)
    ensures
        r@ == spec_render_workspace_path(path@),
{
    proof {
        reveal_strlit("\\\\?\\UNC\\");
        reveal_strlit("\\\\?\\");
        reveal_strlit("\\\\");
    }
    let raw = chars_of(path);
    let unc = chars_of("\\\\?\\UNC\\");
    let ext = chars_of("\\\\?\\");
    let stripped = if starts_with(&raw, &unc) {
        let mut s = vec!['\\', '\\'];
        let rest = subvec(&raw, 8, raw.len());
        let mut k: usize = 0;
        while k < rest.len()
            invariant
                k <= rest.len(),
                s@ == seq!['\\', '\\'] + rest@.take(k as int),
            decreases rest.len() - k,
        {
            s.push(rest[k]);
            k = k + 1;
            assert(rest@.take(k as int) =~= rest@.take(k - 1).push(rest@[k - 1]));
        }
        assert(rest@.take(rest.len() as int) =~= rest@);
        assert(rest@ =~= raw@.skip(8));
        s
    } else if starts_with(&raw, &ext) {
        let s = subvec(&raw, 4, raw.len());
        assert(s@ =~= raw@.skip(4));
        s
    } else {
        raw
    };
    let r = replace_backslashes_vec(&stripped);
    string_of(r.as_slice())
}

/// The form in which two paths are compared: forward slashes, no trailing
/// slash, ASCII lower case.
pub open spec fn spec_normalize_path(path: Seq<char>) -> Seq<char> {
    lower_seq(trim_end_by(replace_backslashes(path), set_pred(seq!['/'])))
}

fn normalize_path_chars(path: &Vec<char>) -> (r: Vec<char>)
    ensures
        r@ == spec_normalize_path(path@),
{
    let replaced = replace_backslashes_vec(path);
    let slash = vec!['/'];
    assert(slash@ =~= seq!['/']);
    let trimmed = trim_end_set(&replaced, &slash);
    to_lower_vec(&trimmed)
}

pub fn normalize_path_string(path: &str) -> (r: String)
    ensures
        r@ == spec_normalize_path(path@),
{
    let v = chars_of(path);
    let n = normalize_path_chars(&v);
    string_of(n.as_slice())
}

pub open spec fn spec_is_placeholder_path(path: Seq<char>) -> bool {
    spec_normalize_path(spec_render_workspace_path(path)) == spec_normalize_path(
        PLACEHOLDER_WORKSPACE_PATH@,
    )
}

/// The path the starter configuration ships with, which names no real project.
pub fn is_placeholder_path(path: &str) -> (r: bool)
    ensures
        r == spec_is_placeholder_path(path@),
{
    let rendered = render_workspace_path(path);
    let a = normalize_path_string(rendered.as_str());
    let b = normalize_path_string(PLACEHOLDER_WORKSPACE_PATH);
    let av = chars_of(a.as_str());
    let bv = chars_of(b.as_str());
    seq_eq(&av, &bv)
}

/// The default workspace must be a real directory before the bridge starts;
/// `is_dir` tells whether its path is one.
pub fn ensure_default_workspace_is_ready(config: &Config, is_dir: bool) -> (r: Result<(), String>)
    requires
        config.workspaces@.len() > 0,
    ensures
        spec_is_placeholder_path(config.workspaces@[0].path@) ==> (r matches Err(e) && e@
            == "workspace is not configured. Open or enter the target project and use the `remotty-use-this-project` skill or `remotty config workspace upsert`."@),
        !spec_is_placeholder_path(config.workspaces@[0].path@) && !is_dir ==> (r matches Err(e) && e@
            == "workspace path does not exist: "@ + config.workspaces@[0].path@
            + ". Open or enter the target project and use the `remotty-use-this-project` skill or `remotty config workspace upsert`."@),
        (!spec_is_placeholder_path(config.workspaces@[0].path@) && is_dir) <==> r is Ok,
{
    let workspace = config.default_workspace();
    if is_placeholder_path(workspace.path.as_str()) {
        return Err(
            str_of(
                "workspace is not configured. Open or enter the target project and use the `remotty-use-this-project` skill or `remotty config workspace upsert`.",
            ),
        );
    }
    if !is_dir {
        let mut e = str_of("workspace path does not exist: ");
        e.append(workspace.path.as_str());
        e.append(
            ". Open or enter the target project and use the `remotty-use-this-project` skill or `remotty config workspace upsert`.",
        );
        return Err(e);
    }
    Ok(())
}

// ---------------------------------------------------------------------------
// Workspace ids
// ---------------------------------------------------------------------------

/// The lower-case mapping of `c` (`char::to_lowercase`), which the Unicode
/// tables of the standard library fix.
pub uninterp spec fn spec_char_lowercase(c: char) -> Seq<char>;

/// `char::to_lowercase`, collected. Its result is named; stated of it are
/// the ASCII letters, which map to their small forms, and that no lower-case
/// mapping of the Unicode tables holds an ASCII capital.
#[verifier::external_body]
fn char_lowercase(c: char) -> (r: Vec<char>)
    ensures
        r@ == spec_char_lowercase(c),
        is_ascii_upper(c) ==> r@ == seq![ascii_lower(c)],
        forall|i: int| 0 <= i < r@.len() ==> !is_ascii_upper(#[trigger] r@[i]),
{
    c.to_lowercase().collect()
}

/// `name` is the last component of `path` on every platform: the part after
/// the last `/` (or all of `path`), neither `.` nor `..`, without `:`, in a
/// path that has no `\` and does not start with `//`. On such a path `/`
/// is the only separator, and no drive or share prefix can reach `name`.
pub open spec fn plain_last_component(path: Seq<char>, name: Seq<char>) -> bool {
    let k = path.len() - name.len();
    &&& name.len() > 0
    &&& k >= 0
    &&& path.subrange(k, path.len() as int) == name
    &&& (k == 0 || path[k - 1] == '/')
    &&& name != "."@
    &&& name != ".."@
    &&& forall|i: int| 0 <= i < name.len() ==> name[i] != '/' && name[i] != ':'
    &&& forall|i: int| 0 <= i < path.len() ==> path[i] != '\\'
    &&& !(path.len() >= 2 && path[0] == '/' && path[1] == '/')
}

/// The last component of a path (`std::path::Path::file_name`), unless the
/// path ends in `..` or has no component. A component is never empty. What
/// counts as a separator and as a prefix depends on the platform, so the
/// result is stated only for paths whose last component is plain.
#[verifier::external_body]
fn path_file_name(path: &str) -> (r: Option<String>)
    ensures
        match r {
            Some(n) => n@.len() > 0 && forall|name: Seq<char>|
                plain_last_component(path@, name) ==> n@ == name,
            None => forall|name: Seq<char>| !plain_last_component(path@, name),
        },
{
    std::path::Path::new(path).file_name().and_then(|name| name.to_str()).map(|name| name.to_owned())
}

pub open spec fn lowered(s: Seq<char>) -> Seq<char>
    decreases s.len(),
{
    if s.len() == 0 {
        Seq::<char>::empty()
    } else {
        lowered(s.drop_last()) + spec_char_lowercase(s.last())
    }
}

/// ASCII letters and digits kept, every other run of characters as one `-`.
pub open spec fn dashed(s: Seq<char>) -> Seq<char>
    decreases s.len(),
{
    if s.len() == 0 {
        Seq::<char>::empty()
    } else {
        let r = dashed(s.drop_last());
        let c = s.last();
        if is_ascii_alnum(c) {
            r.push(c)
        } else if r.len() > 0 && r.last() == '-' {
            r
        } else {
            r.push('-')
        }
    }
}

/// The id a directory named `name` gets: its name in lower case, with `-`
/// for what is not an ASCII letter or digit, or `project`.
pub open spec fn spec_workspace_id_base(name: Option<Seq<char>>) -> Seq<char> {
    let n = match name {
        Some(n) => n,
        None => "project"@,
    };
    let t = trim_by(dashed(lowered(n)), set_pred(seq!['-']));
    if t.len() == 0 {
        "project"@
    } else {
        t
    }
}

/// A character a workspace id may hold: a small ASCII letter, a digit or `-`.
pub open spec fn id_char(c: char) -> bool {
    is_ascii_lower(c) || is_ascii_digit(c) || c == '-'
}

/// A workspace id: not empty, only small ASCII letters, digits and `-`,
/// and no `-` at either end.
pub open spec fn well_formed_id(id: Seq<char>) -> bool {
    &&& id.len() > 0
    &&& forall|i: int| 0 <= i < id.len() ==> id_char(#[trigger] id[i])
    &&& id[0] != '-'
    &&& id.last() != '-'
}

pub fn workspace_id_from_name(name: Option<&str>) -> (r: String)
    ensures
        r@ == spec_workspace_id_base(
            match name {
                Some(n) => Some(n@),
                None => None,
            },
        ),
        well_formed_id(r@),
{
    let n = match name {
        Some(n) => chars_of(n),
        None => chars_of("project"),
    };
    let mut lower: Vec<char> = Vec::new();
    let mut i: usize = 0;
    while i < n.len()
        invariant
            i <= n.len(),
            lower@ == lowered(n@.take(i as int)),
            forall|m: int| 0 <= m < lower@.len() ==> !is_ascii_upper(#[trigger] lower@[m]),
        decreases n.len() - i,
    {
        assert(n@.take(i + 1).drop_last() =~= n@.take(i as int));
        let l = char_lowercase(n[i]);
        let mut k: usize = 0;
        let ghost before = lower@;
        while k < l.len()
            invariant
                k <= l.len(),
                lower@ == before + l@.take(k as int),
                forall|m: int| 0 <= m < before.len() ==> !is_ascii_upper(#[trigger] before[m]),
                forall|m: int| 0 <= m < l@.len() ==> !is_ascii_upper(#[trigger] l@[m]),
                forall|m: int| 0 <= m < lower@.len() ==> !is_ascii_upper(#[trigger] lower@[m]),
            decreases l.len() - k,
        {
            lower.push(l[k]);
            k = k + 1;
            assert(l@.take(k as int) =~= l@.take(k - 1).push(l@[k - 1]));
        }
        assert(l@.take(l.len() as int) =~= l@);
        i = i + 1;
    }
    assert(n@.take(n.len() as int) =~= n@);
    let mut rendered: Vec<char> = Vec::new();
    let mut j: usize = 0;
    while j < lower.len()
        invariant
            j <= lower.len(),
            rendered@ == dashed(lower@.take(j as int)),
            forall|m: int| 0 <= m < lower@.len() ==> !is_ascii_upper(#[trigger] lower@[m]),
            forall|m: int| 0 <= m < rendered@.len() ==> id_char(#[trigger] rendered@[m]),
        decreases lower.len() - j,
    {
        assert(lower@.take(j + 1).drop_last() =~= lower@.take(j as int));
        let c = lower[j];
        if char_is_alnum(c) {
            rendered.push(c);
        } else if !(rendered.len() > 0 && rendered[rendered.len() - 1] == '-') {
            rendered.push('-');
        }
        j = j + 1;
    }
    assert(lower@.take(lower.len() as int) =~= lower@);
    let dash = vec!['-'];
    assert(dash@ =~= seq!['-']);
    let t = trim_set(&rendered, &dash);
    proof {
        let p = set_pred(seq!['-']);
        let s0 = rendered@;
        lemma_skip_from_bounds(s0, 0, p);
        let a = skip_from(s0, 0, p);
        let s1 = s0.skip(a);
        lemma_back_to_bounds(s1, s1.len() as int, p);
        let b = back_to(s1, s1.len() as int, p);
        assert(t@ == s1.take(b));
        assert forall|m: int| 0 <= m < t@.len() implies id_char(#[trigger] t@[m]) by {
            assert(t@[m] == s0[a + m]);
        }
        if t@.len() > 0 {
            assert(t@[0] == s1[0]);
            assert(!p(s0[a]));
            assert(t@.last() == s1[b - 1]);
            assert(!p(s1[b - 1]));
        }
        reveal_strlit("project");
    }
    if t.len() == 0 {
        str_of("project")
    } else {
        string_of(t.as_slice())
    }
}

/// The id base of a workspace directory: the id base of its last component
/// (of `project` when it has none).
pub fn workspace_id_base(workspace_path: &str) -> (r: String)
    ensures
        forall|name: Seq<char>|
            plain_last_component(workspace_path@, name) ==> r@ == spec_workspace_id_base(Some(name)),
        r@ == spec_workspace_id_base(None) || exists|name: Seq<char>|
            name.len() > 0 && r@ == spec_workspace_id_base(Some(name)),
        r@.len() > 0,
        well_formed_id(r@),
{
    proof {
        reveal_strlit("project");
    }
    let name = path_file_name(workspace_path);
    match name {
        Some(n) => workspace_id_from_name(Some(n.as_str())),
        None => workspace_id_from_name(None),
    }
}

/// The first eight hexadecimal digits of the version 5 UUID of the rendered path.
pub open spec fn spec_workspace_hash(workspace_path: Seq<char>) -> Seq<char> {
    simple_hex(
        spec_uuid_v5_url(vstd::utf8::encode_utf8(spec_render_workspace_path(workspace_path))),
    ).take(8)
}

pub fn workspace_hash(workspace_path: &str) -> (r: String)
    ensures
        r@ == spec_workspace_hash(workspace_path@),
{
    let rendered = render_workspace_path(workspace_path);
    let full = uuid_v5_simple(rendered.as_str().as_bytes());
    let v = chars_of(full.as_str());
    proof {
        crate::ids::lemma_simple_hex_len(
            spec_uuid_v5_url(vstd::utf8::encode_utf8(spec_render_workspace_path(workspace_path@))),
        );
    }
    let head = subvec(&v, 0, 8);
    string_of(head.as_slice())
}

// ---------------------------------------------------------------------------
// The `[[workspaces]]` entries
// ---------------------------------------------------------------------------

/// What the planner reads of one `[[workspaces]]` entry: whether it is a
/// table, and its `id` and `path` when they are strings.
#[derive(Debug, Clone)]
pub struct WorkspaceEntry {
    pub is_table: bool,
    pub id: Option<String>,
    pub path: Option<String>,
}

pub open spec fn entry_matches(e: WorkspaceEntry, rendered: Seq<char>) -> bool {
    match e.path {
        Some(p) => spec_normalize_path(p@) == spec_normalize_path(rendered),
        None => false,
    }
}

pub open spec fn entry_is_placeholder(e: WorkspaceEntry) -> bool {
    match e.path {
        Some(p) => spec_normalize_path(p@) == spec_normalize_path(PLACEHOLDER_WORKSPACE_PATH@),
        None => false,
    }
}

pub open spec fn first_match(es: Seq<WorkspaceEntry>, rendered: Seq<char>, i: int) -> Option<int>
    decreases es.len() - i,
{
    if 0 <= i < es.len() {
        if entry_matches(es[i], rendered) {
            Some(i)
        } else {
            first_match(es, rendered, i + 1)
        }
    } else {
        None
    }
}

pub open spec fn first_placeholder(es: Seq<WorkspaceEntry>, i: int) -> Option<int>
    decreases es.len() - i,
{
    if 0 <= i < es.len() {
        if entry_is_placeholder(es[i]) {
            Some(i)
        } else {
            first_placeholder(es, i + 1)
        }
    } else {
        None
    }
}

pub open spec fn id_is(e: WorkspaceEntry, id: Seq<char>) -> bool {
    match e.id {
        Some(x) => x@ == id,
        None => false,
    }
}

pub open spec fn id_in_use(es: Seq<WorkspaceEntry>, id: Seq<char>) -> bool {
    exists|k: int| 0 <= k < es.len() && id_is(#[trigger] es[k], id)
}

/// The changes that register a workspace.
#[derive(Debug, Clone)]
pub struct WorkspaceUpsertPlan {
    /// The entry that is updated in place, or `None` for a new entry.
    pub reuse_index: Option<usize>,
    pub workspace_id: String,
    /// The rendered workspace path, stored as `path` and as the one writable root.
    pub path: String,
    /// The other entries, by their index, in the order they keep after the
    /// updated entry.
    pub keep: Vec<usize>,
}

pub open spec fn selected_entry(es: Seq<WorkspaceEntry>, rendered: Seq<char>) -> Option<int> {
    match first_match(es, rendered, 0) {
        Some(i) => Some(i),
        None => first_placeholder(es, 0),
    }
}

/// The entries that stay besides the updated one: none that names the same
/// directory.
pub open spec fn kept_entries(es: Seq<WorkspaceEntry>, rendered: Seq<char>, selected: Option<int>, n: int) -> Seq<int>
    decreases n,
{
    if n <= 0 {
        Seq::<int>::empty()
    } else {
        let r = kept_entries(es, rendered, selected, n - 1);
        if selected == Some(n - 1) || entry_matches(es[n - 1], rendered) {
            r
        } else {
            r.push(n - 1)
        }
    }
}

/// The entries other than the selected one.
pub open spec fn without(es: Seq<WorkspaceEntry>, selected: Option<int>) -> Seq<WorkspaceEntry> {
    match selected {
        Some(i) => es.remove(i),
        None => es,
    }
}

/// The id of the registered workspace: the one the entry for the same
/// directory had, else the id base, with the path's hash appended when
/// another entry already uses the base.
pub open spec fn spec_upsert_id(
    es: Seq<WorkspaceEntry>,
    rendered: Seq<char>,
    base: Seq<char>,
    hash: Seq<char>,
) -> Seq<char> {
    let sel = selected_entry(es, rendered);
    let existing = match first_match(es, rendered, 0) {
        Some(i) => match es[i].id {
            Some(x) => Some(x@),
            None => None,
        },
        None => None,
    };
    match existing {
        Some(x) => x,
        None => if id_in_use(without(es, sel), base) {
            base + seq!['-'] + hash
        } else {
            base
        },
    }
}

fn first_match_index(es: &Vec<WorkspaceEntry>, normalized: &Vec<char>, Ghost(rendered): Ghost<Seq<char>>) -> (r: Option<usize>)
    requires
        normalized@ == spec_normalize_path(rendered),
    ensures
        match r {
            Some(i) => first_match(es@, rendered, 0) == Some(i as int) && i < es@.len(),
            None => first_match(es@, rendered, 0) is None,
        },
{
    let mut i: usize = 0;
    while i < es.len()
        invariant
            i <= es.len(),
            normalized@ == spec_normalize_path(rendered),
            first_match(es@, rendered, 0) == first_match(es@, rendered, i as int),
        decreases es.len() - i,
    {
        if entry_matches_exec(&es[i], normalized, Ghost(rendered)) {
            return Some(i);
        }
        i = i + 1;
    }
    None
}

fn entry_matches_exec(e: &WorkspaceEntry, normalized: &Vec<char>, Ghost(rendered): Ghost<Seq<char>>) -> (r: bool)
    requires
        normalized@ == spec_normalize_path(rendered),
    ensures
        r == entry_matches(*e, rendered),
{
    match &e.path {
        Some(p) => {
            let pv = chars_of(p.as_str());
            let n = normalize_path_chars(&pv);
            seq_eq(&n, normalized)
        },
        None => false,
    }
}

fn first_placeholder_index(es: &Vec<WorkspaceEntry>) -> (r: Option<usize>)
    ensures
        match r {
            Some(i) => first_placeholder(es@, 0) == Some(i as int) && i < es@.len(),
            None => first_placeholder(es@, 0) is None,
        },
{
    let ph = chars_of(PLACEHOLDER_WORKSPACE_PATH);
    let normalized = normalize_path_chars(&ph);
    let mut i: usize = 0;
    while i < es.len()
        invariant
            i <= es.len(),
            normalized@ == spec_normalize_path(PLACEHOLDER_WORKSPACE_PATH@),
            first_placeholder(es@, 0) == first_placeholder(es@, i as int),
        decreases es.len() - i,
    {
        let hit = match &es[i].path {
            Some(p) => {
                let pv = chars_of(p.as_str());
                let n = normalize_path_chars(&pv);
                seq_eq(&n, &normalized)
            },
            None => false,
        };
        if hit {
            return Some(i);
        }
        i = i + 1;
    }
    None
}

fn id_in_use_except(es: &Vec<WorkspaceEntry>, skip: Option<usize>, id: &str) -> (r: bool)
    requires
        skip matches Some(s) ==> s < es@.len(),
    ensures
        r == id_in_use(
            without(
                es@,
                match skip {
                    Some(s) => Some(s as int),
                    None => None,
                },
            ),
            id@,
        ),
{
    let ghost sel = match skip {
        Some(s) => Some(s as int),
        None => None,
    };
    let ghost rest = without(es@, sel);
    let mut i: usize = 0;
    while i < es.len()
        invariant
            i <= es.len(),
            rest == without(es@, sel),
            sel == match skip {
                Some(s) => Some(s as int),
                None => None,
            },
            skip matches Some(s) ==> s < es@.len(),
            forall|k: int|
                0 <= k < i && sel != Some(k) ==> !id_is(#[trigger] es@[k], id@),
        decreases es.len() - i,
    {
        let skipped = match skip {
            Some(s) => s == i,
            None => false,
        };
        if !skipped {
            match &es[i].id {
                Some(x) => {
                    if crate::text::string_eq(x.as_str(), id) {
                        proof {
                            let k = match skip {
                                Some(s) => if (i as int) < (s as int) {
                                    i as int
                                } else {
                                    i - 1
                                },
                                None => i as int,
                            };
                            assert(rest[k] == es@[i as int]);
                        }
                        return true;
                    }
                },
                None => {},
            }
        }
        i = i + 1;
    }
    proof {
        assert forall|k: int| 0 <= k < rest.len() implies !id_is(#[trigger] rest[k], id@) by {
            match skip {
                Some(s) => {
                    if k < s {
                        assert(rest[k] == es@[k]);
                    } else {
                        assert(rest[k] == es@[k + 1]);
                    }
                },
                None => {},
            }
        }
    }
    false
}

/// `plan` registers `workspace_path`, whose last component is `file_name`,
/// among the entries `es` of an array `workspaces`.
pub open spec fn upsert_plan_is(
    plan: WorkspaceUpsertPlan,
    es: Seq<WorkspaceEntry>,
    workspace_path: Seq<char>,
    file_name: Option<Seq<char>>,
) -> bool {
    let rendered = spec_render_workspace_path(workspace_path);
    let sel = selected_entry(es, rendered);
    &&& plan.path@ == rendered
    &&& match plan.reuse_index {
        Some(i) => sel == Some(i as int),
        None => sel is None,
    }
    &&& plan.workspace_id@ == spec_upsert_id(
        es,
        rendered,
        spec_workspace_id_base(file_name),
        spec_workspace_hash(workspace_path),
    )
    &&& plan.keep@.map_values(|k: usize| k as int) == kept_entries(es, rendered, sel, es.len() as int)
}

/// The selected entry exists and is no table: the upsert cannot update it.
pub open spec fn selected_is_not_table(es: Seq<WorkspaceEntry>, workspace_path: Seq<char>) -> bool {
    selected_entry(es, spec_render_workspace_path(workspace_path)) matches Some(i) && !es[i].is_table
}

/// The changes that register the directory `workspace_path`, whose last
/// component is `file_name`. `root_is_table` and `workspaces_is_array` tell
/// the shape of the document; a missing `workspaces` key counts as an empty
/// array.
pub fn plan_workspace_upsert(
    root_is_table: bool,
    workspaces_is_array: bool,
    entries: &Vec<WorkspaceEntry>,
    workspace_path: &str,
    file_name: Option<&str>,
) -> (r: Result<WorkspaceUpsertPlan, String>)
    ensures
        !root_is_table ==> (r matches Err(e) && e@ == "bridge.toml root must be a table"@),
        root_is_table && !workspaces_is_array ==> (r matches Err(e) && e@
            == "workspaces must be an array"@),
        root_is_table && workspaces_is_array ==> (if selected_is_not_table(entries@, workspace_path@) {
            r matches Err(e) && e@ == "workspace entry must be a table"@
        } else {
            r matches Ok(plan) && upsert_plan_is(
                plan,
                entries@,
                workspace_path@,
                match file_name {
                    Some(n) => Some(n@),
                    None => None,
                },
            )
        }),
{
    if !root_is_table {
        return Err(str_of("bridge.toml root must be a table"));
    }
    if !workspaces_is_array {
        return Err(str_of("workspaces must be an array"));
    }
    let rendered = render_workspace_path(workspace_path);
    let rv = chars_of(rendered.as_str());
    let normalized = normalize_path_chars(&rv);
    let exact = first_match_index(entries, &normalized, Ghost(rendered@));
    let selected = match exact {
        Some(i) => Some(i),
        None => first_placeholder_index(entries),
    };
    let ghost sel = selected_entry(entries@, rendered@);
    assert(match selected {
        Some(i) => sel == Some(i as int),
        None => sel is None,
    });
    match selected {
        Some(i) => {
            if !entries[i].is_table {
                return Err(str_of("workspace entry must be a table"));
            }
        },
        None => {},
    }
    let existing: Option<String> = match exact {
        Some(i) => match &entries[i].id {
            Some(x) => Some(x.clone()),
            None => None,
        },
        None => None,
    };
    let workspace_id = match existing {
        Some(x) => x,
        None => {
            let base = workspace_id_from_name(file_name);
            if id_in_use_except(entries, selected, base.as_str()) {
                proof {
                    reveal_strlit("-");
                }
                let mut id = base;
                id.append("-");
                id.append(workspace_hash(workspace_path).as_str());
                id
            } else {
                base
            }
        },
    };
    let mut keep: Vec<usize> = Vec::new();
    let mut k: usize = 0;
    while k < entries.len()
        invariant
            k <= entries.len(),
            normalized@ == spec_normalize_path(rendered@),
            sel == selected_entry(entries@, rendered@),
            match selected {
                Some(i) => sel == Some(i as int),
                None => sel is None,
            },
            keep@.map_values(|x: usize| x as int) =~= kept_entries(entries@, rendered@, sel, k as int),
        decreases entries.len() - k,
    {
        let is_selected = match selected {
            Some(i) => i == k,
            None => false,
        };
        let ghost before = keep@;
        if !is_selected && !entry_matches_exec(&entries[k], &normalized, Ghost(rendered@)) {
            keep.push(k);
            assert(keep@.map_values(|x: usize| x as int) =~= before.map_values(|x: usize| x as int).push(
                k as int,
            ));
        }
        k = k + 1;
    }
    assert(keep@.map_values(|x: usize| x as int) == kept_entries(
        entries@,
        rendered@,
        sel,
        entries@.len() as int,
    ));
    assert(workspace_id@ == spec_upsert_id(
        entries@,
        rendered@,
        spec_workspace_id_base(
            match file_name {
                Some(n) => Some(n@),
                None => None,
            },
        ),
        spec_workspace_hash(workspace_path@),
    ));
    Ok(WorkspaceUpsertPlan { reuse_index: selected, workspace_id, path: rendered, keep })
}

/// After an upsert no other entry names the registered directory, and none
/// is kept twice: the updated entry is the only one for its path.
pub proof fn lemma_kept_entries_exclude_path(
    es: Seq<WorkspaceEntry>,
    rendered: Seq<char>,
    selected: Option<int>,
    n: int,
)
    requires
        0 <= n <= es.len(),
    ensures
        forall|j: int|
            0 <= j < kept_entries(es, rendered, selected, n).len() ==> {
                let k = #[trigger] kept_entries(es, rendered, selected, n)[j];
                &&& 0 <= k < n
                &&& selected != Some(k)
                &&& !entry_matches(es[k], rendered)
            },
        forall|a: int, b: int|
            0 <= a < b < kept_entries(es, rendered, selected, n).len() ==> kept_entries(
                es,
                rendered,
                selected,
                n,
            )[a] < kept_entries(es, rendered, selected, n)[b],
    decreases n,
{
    if n > 0 {
        lemma_kept_entries_exclude_path(es, rendered, selected, n - 1);
        let r = kept_entries(es, rendered, selected, n - 1);
        let full = kept_entries(es, rendered, selected, n);
        if !(selected == Some(n - 1) || entry_matches(es[n - 1], rendered)) {
            assert(full == r.push(n - 1));
            assert forall|j: int| 0 <= j < full.len() implies {
                let k = #[trigger] full[j];
                &&& 0 <= k < n
                &&& selected != Some(k)
                &&& !entry_matches(es[k], rendered)
            } by {
                if j < r.len() {
                    assert(full[j] == r[j]);
                }
            }
            assert forall|a: int, b: int| 0 <= a < b < full.len() implies full[a] < full[b] by {
                assert(full[a] == r[a]);
                if b < r.len() {
                    assert(full[b] == r[b]);
                } else {
                    assert(r[a] < n - 1);
                }
            }
        } else {
            assert(full == r);
        }
    }
}

/// What planning the registration of `workspace_path` among `es` gives,
/// its last component read with the standard library: the shape errors,
/// the error for a selected entry that is no table, and otherwise a plan
/// for the last component (exactly it when that component is plain).
pub open spec fn for_path_outcome(
    r: Result<WorkspaceUpsertPlan, String>,
    root_is_table: bool,
    workspaces_is_array: bool,
    es: Seq<WorkspaceEntry>,
    workspace_path: Seq<char>,
) -> bool {
    &&& !root_is_table ==> (r matches Err(e) && e@ == "bridge.toml root must be a table"@)
    &&& root_is_table && !workspaces_is_array ==> (r matches Err(e) && e@
        == "workspaces must be an array"@)
    &&& root_is_table && workspaces_is_array ==> (if selected_is_not_table(es, workspace_path) {
        r matches Err(e) && e@ == "workspace entry must be a table"@
    } else {
        r matches Ok(plan) && exists|file_name: Option<Seq<char>>|
            #![trigger upsert_plan_is(plan, es, workspace_path, file_name)]
            upsert_plan_is(plan, es, workspace_path, file_name) && (file_name matches Some(n) ==> n.len()
                > 0)
    })
    &&& forall|name: Seq<char>|
        #![trigger plain_last_component(workspace_path, name)]
        plain_last_component(workspace_path, name) ==> (r matches Ok(plan) ==> upsert_plan_is(
            plan,
            es,
            workspace_path,
            Some(name),
        ))
}

/// Plans the registration of `workspace_path`, reading its last component
/// with the standard library.
pub fn plan_workspace_upsert_for_path(
    root_is_table: bool,
    workspaces_is_array: bool,
    entries: &Vec<WorkspaceEntry>,
    workspace_path: &str,
) -> (r: Result<WorkspaceUpsertPlan, String>)
    ensures
        for_path_outcome(r, root_is_table, workspaces_is_array, entries@, workspace_path@),
{
    let name = path_file_name(workspace_path);
    match name {
        Some(n) => plan_workspace_upsert(
            root_is_table,
            workspaces_is_array,
            entries,
            workspace_path,
            Some(n.as_str()),
        ),
        None => plan_workspace_upsert(root_is_table, workspaces_is_array, entries, workspace_path, None),
    }
}

// ---------------------------------------------------------------------------
// Registering a workspace in the bridge.toml document
// ---------------------------------------------------------------------------

pub open spec fn opt_string_view(o: Option<String>) -> Option<Seq<char>> {
    match o {
        Some(x) => Some(x@),
        None => None,
    }
}

/// `e` is what the planner reads of the `workspaces` item `v`: whether it
/// is a table, and its string `id` and `path`.
pub open spec fn entry_reads(e: WorkspaceEntry, v: TomlView) -> bool {
    &&& e.is_table == (v is Table)
    &&& opt_string_view(e.id) == tstr(tget(v, "id"@))
    &&& opt_string_view(e.path) == tstr(tget(v, "path"@))
}

pub open spec fn entries_read(items: Seq<TomlView>, es: Seq<WorkspaceEntry>) -> bool {
    &&& es.len() == items.len()
    &&& forall|i: int| 0 <= i < items.len() ==> entry_reads(#[trigger] es[i], items[i])
}

pub open spec fn doc_root_is_table(doc: TomlView) -> bool {
    doc is Table
}

/// A missing `workspaces` key counts as an empty array.
pub open spec fn doc_workspaces_is_array(doc: TomlView) -> bool {
    match tget(doc, "workspaces"@) {
        None => true,
        Some(TomlView::Array(_)) => true,
        _ => false,
    }
}

pub open spec fn doc_items(doc: TomlView) -> Seq<TomlView> {
    match tget(doc, "workspaces"@) {
        Some(TomlView::Array(items)) => items,
        _ => Seq::<TomlView>::empty(),
    }
}

/// The entry a plan writes: the reused table (or an empty one) with `id`,
/// `path` and the one writable root set, and the defaults for mode,
/// continue prompt and checks profile added where missing.
pub open spec fn written_entry(base: Seq<(Seq<char>, TomlView)>, id: Seq<char>, path: Seq<char>) -> TomlView {
    let t = table_insert(
        table_insert(table_insert(base, "id"@, TomlView::Str(id)), "path"@, TomlView::Str(path)),
        "writable_roots"@,
        TomlView::Array(seq![TomlView::Str(path)]),
    );
    let t = table_insert_default(t, "default_mode"@, TomlView::Str(DEFAULT_MODE@));
    let t = table_insert_default(t, "continue_prompt"@, TomlView::Str(DEFAULT_CONTINUE_PROMPT@));
    TomlView::Table(table_insert_default(t, "checks_profile"@, TomlView::Str(DEFAULT_CHECKS_PROFILE@)))
}

/// The document after a plan: `workspaces` holds the written entry first,
/// then the kept items in the plan's order.
pub open spec fn spec_applied_document(
    doc: TomlView,
    reuse: Option<usize>,
    id: Seq<char>,
    path: Seq<char>,
    keep: Seq<usize>,
) -> TomlView {
    let items = doc_items(doc);
    let base = match reuse {
        Some(i) => match items[i as int] {
            TomlView::Table(t) => t,
            _ => Seq::<(Seq<char>, TomlView)>::empty(),
        },
        None => Seq::<(Seq<char>, TomlView)>::empty(),
    };
    let ws = seq![written_entry(base, id, path)] + keep.map_values(|k: usize| items[k as int]);
    match doc {
        TomlView::Table(root) => TomlView::Table(table_insert(root, "workspaces"@, TomlView::Array(ws))),
        _ => doc,
    }
}

fn entry_of(v: &Toml) -> (r: WorkspaceEntry)
    ensures
        entry_reads(r, v@),
{
    match v {
        Toml::Table(entries) => {
            assert(table_view(entries@) =~= v@->Table_0);
            let id = match table_get(entries, "id") {
                Some(Toml::Str(x)) => Some(x.clone()),
                _ => None,
            };
            let path = match table_get(entries, "path") {
                Some(Toml::Str(x)) => Some(x.clone()),
                _ => None,
            };
            WorkspaceEntry { is_table: true, id, path }
        },
        _ => WorkspaceEntry { is_table: false, id: None, path: None },
    }
}

fn workspace_items(doc: &Toml) -> (r: Option<&Vec<Toml>>)
    ensures
        match r {
            Some(items) => items_view(items@) == doc_items(doc@) && tget(doc@, "workspaces"@) == Some(
                TomlView::Array(doc_items(doc@)),
            ),
            None => doc_items(doc@) == Seq::<TomlView>::empty() && !(tget(doc@, "workspaces"@) matches Some(
                TomlView::Array(_),
            )),
        },
{
    match doc {
        Toml::Table(entries) => {
            assert(table_view(entries@) =~= doc@->Table_0);
            match table_get(entries, "workspaces") {
                Some(Toml::Array(items)) => {
                    assert(items_view(items@) =~= Toml::Array(*items)@->Array_0);
                    Some(items)
                },
                _ => None,
            }
        },
        _ => None,
    }
}

/// The shape of the document and the entries the planner reads.
pub fn read_workspace_entries(doc: &Toml) -> (r: (bool, bool, Vec<WorkspaceEntry>))
    ensures
        r.0 == doc_root_is_table(doc@),
        r.1 == doc_workspaces_is_array(doc@),
        entries_read(doc_items(doc@), r.2@),
{
    let root_is_table = match doc {
        Toml::Table(_) => true,
        _ => false,
    };
    let workspaces_is_array = match doc {
        Toml::Table(entries) => {
            assert(table_view(entries@) =~= doc@->Table_0);
            match table_get(entries, "workspaces") {
                None => true,
                Some(Toml::Array(_)) => true,
                Some(_) => false,
            }
        },
        _ => true,
    };
    let mut out: Vec<WorkspaceEntry> = Vec::new();
    match workspace_items(doc) {
        Some(items) => {
            let ghost iv = doc_items(doc@);
            let mut i: usize = 0;
            while i < items.len()
                invariant
                    i <= items.len(),
                    items_view(items@) == iv,
                    out@.len() == i,
                    forall|k: int| 0 <= k < i ==> entry_reads(#[trigger] out@[k], iv[k]),
                decreases items.len() - i,
            {
                out.push(entry_of(&items[i]));
                i = i + 1;
            }
        },
        None => {},
    }
    (root_is_table, workspaces_is_array, out)
}

proof fn lemma_first_match_in_range(es: Seq<WorkspaceEntry>, rendered: Seq<char>, i: int)
    ensures
        first_match(es, rendered, i) matches Some(j) ==> i <= j < es.len(),
    decreases es.len() - i,
{
    if 0 <= i < es.len() {
        lemma_first_match_in_range(es, rendered, i + 1);
    }
}

proof fn lemma_first_placeholder_in_range(es: Seq<WorkspaceEntry>, i: int)
    ensures
        first_placeholder(es, i) matches Some(j) ==> i <= j < es.len(),
    decreases es.len() - i,
{
    if 0 <= i < es.len() {
        lemma_first_placeholder_in_range(es, i + 1);
    }
}

/// The entry of the selected item, or an empty table.
fn written_base(items: &Vec<Toml>, reuse: Option<usize>) -> (r: Vec<(String, Toml)>)
    requires
        reuse matches Some(i) ==> i < items@.len(),
    ensures
        table_view(r@) == match reuse {
            Some(i) => match items_view(items@)[i as int] {
                TomlView::Table(t) => t,
                _ => Seq::<(Seq<char>, TomlView)>::empty(),
            },
            None => Seq::<(Seq<char>, TomlView)>::empty(),
        },
{
    match reuse {
        Some(i) => {
            let copy = items[i].deep_clone();
            assert(items_view(items@)[i as int] == items@[i as int]@);
            match copy {
                Toml::Table(t) => {
                    assert(table_view(t@) =~= Toml::Table(t)@->Table_0);
                    t
                },
                _ => {
                    let e: Vec<(String, Toml)> = Vec::new();
                    assert(table_view(e@) =~= Seq::<(Seq<char>, TomlView)>::empty());
                    e
                },
            }
        },
        None => {
            let e: Vec<(String, Toml)> = Vec::new();
            assert(table_view(e@) =~= Seq::<(Seq<char>, TomlView)>::empty());
            e
        },
    }
}

fn write_entry(base: Vec<(String, Toml)>, id: &String, path: &String) -> (r: Toml)
    ensures
        r@ == written_entry(table_view(base@), id@, path@),
{
    let mut t = base;
    table_set(&mut t, str_of("id"), Toml::Str(id.clone()));
    table_set(&mut t, str_of("path"), Toml::Str(path.clone()));
    let roots = Toml::Array(vec![Toml::Str(path.clone())]);
    assert(roots@->Array_0 =~= seq![TomlView::Str(path@)]);
    table_set(&mut t, str_of("writable_roots"), roots);
    table_set_default(&mut t, str_of("default_mode"), Toml::Str(str_of(DEFAULT_MODE)));
    table_set_default(&mut t, str_of("continue_prompt"), Toml::Str(str_of(DEFAULT_CONTINUE_PROMPT)));
    table_set_default(&mut t, str_of("checks_profile"), Toml::Str(str_of(DEFAULT_CHECKS_PROFILE)));
    let r = Toml::Table(t);
    assert(r@->Table_0 =~= table_view(t@));
    r
}

/// Applies `plan` to the document.
fn apply_workspace_plan(doc: &Toml, plan: &WorkspaceUpsertPlan) -> (r: Toml)
    requires
        plan.reuse_index matches Some(i) ==> i < doc_items(doc@).len(),
        forall|j: int| 0 <= j < plan.keep@.len() ==> #[trigger] plan.keep@[j] < doc_items(doc@).len(),
    ensures
        r@ == spec_applied_document(
            doc@,
            plan.reuse_index,
            plan.workspace_id@,
            plan.path@,
            plan.keep@,
        ),
{
    let empty: Vec<Toml> = Vec::new();
    let items: &Vec<Toml> = match workspace_items(doc) {
        Some(items) => items,
        None => {
            assert(items_view(empty@) =~= Seq::<TomlView>::empty());
            &empty
        },
    };
    let ghost iv = doc_items(doc@);
    assert(items_view(items@) == iv);
    let base = written_base(items, plan.reuse_index);
    let first = write_entry(base, &plan.workspace_id, &plan.path);
    let mut ws: Vec<Toml> = vec![first];
    let mut j: usize = 0;
    while j < plan.keep.len()
        invariant
            j <= plan.keep.len(),
            items_view(items@) == iv,
            forall|q: int| 0 <= q < plan.keep@.len() ==> #[trigger] plan.keep@[q] < iv.len(),
            items_view(ws@) == seq![first@] + plan.keep@.take(j as int).map_values(
                |k: usize| iv[k as int],
            ),
        decreases plan.keep.len() - j,
    {
        let k = plan.keep[j];
        let ghost before = ws@;
        ws.push(items[k].deep_clone());
        assert(items_view(items@)[k as int] == items@[k as int]@);
        assert(plan.keep@.take(j + 1) =~= plan.keep@.take(j as int).push(k));
        assert(items_view(ws@) =~= items_view(before).push(iv[k as int]));
        assert(plan.keep@.take(j + 1).map_values(|k: usize| iv[k as int]) =~= plan.keep@.take(
            j as int,
        ).map_values(|k: usize| iv[k as int]).push(iv[k as int]));
        j = j + 1;
    }
    assert(plan.keep@.take(plan.keep.len() as int) =~= plan.keep@);
    let array = Toml::Array(ws);
    assert(array@->Array_0 =~= items_view(ws@));
    match doc.deep_clone() {
        Toml::Table(root) => {
            let mut root = root;
            assert(table_view(root@) =~= doc@->Table_0);
            table_set(&mut root, str_of("workspaces"), array);
            let r = Toml::Table(root);
            assert(r@->Table_0 =~= table_view(root@));
            r
        },
        other => other,
    }
}

pub open spec fn plan_result(r: Result<(Toml, WorkspaceUpsertPlan), String>) -> Result<WorkspaceUpsertPlan, String> {
    match r {
        Ok((_, plan)) => Ok(plan),
        Err(e) => Err(e),
    }
}

/// Registers `workspace_path` in the `bridge.toml` document `doc`: reads
/// its entries, plans with `plan_workspace_upsert_for_path`, and gives the
/// rewritten document with the plan.
pub fn upsert_workspace_document(doc: &Toml, workspace_path: &str) -> (r: Result<
    (Toml, WorkspaceUpsertPlan),
    String,
>)
    ensures
        exists|es: Seq<WorkspaceEntry>|
            #![trigger entries_read(doc_items(doc@), es)]
            entries_read(doc_items(doc@), es) && for_path_outcome(
                plan_result(r),
                doc_root_is_table(doc@),
                doc_workspaces_is_array(doc@),
                es,
                workspace_path@,
            ),
        r matches Ok((d, plan)) ==> d@ == spec_applied_document(
            doc@,
            plan.reuse_index,
            plan.workspace_id@,
            plan.path@,
            plan.keep@,
        ),
{
    let (root_is_table, workspaces_is_array, entries) = read_workspace_entries(doc);
    let planned = plan_workspace_upsert_for_path(root_is_table, workspaces_is_array, &entries, workspace_path);
    match planned {
        Err(e) => {
            assert(for_path_outcome(plan_result(Err(e)), root_is_table, workspaces_is_array, entries@, workspace_path@));
            Err(e)
        },
        Ok(plan) => {
            proof {
                let rendered = spec_render_workspace_path(workspace_path@);
                lemma_first_match_in_range(entries@, rendered, 0);
                lemma_first_placeholder_in_range(entries@, 0);
                let sel = selected_entry(entries@, rendered);
                assert(plan.reuse_index matches Some(i) ==> sel == Some(i as int));
                lemma_kept_entries_exclude_path(entries@, rendered, sel, entries@.len() as int);
                assert forall|j: int| 0 <= j < plan.keep@.len() implies #[trigger] plan.keep@[j] < doc_items(
                    doc@,
                ).len() by {
                    assert(plan.keep@.map_values(|k: usize| k as int)[j] == plan.keep@[j] as int);
                }
            }
            let d = apply_workspace_plan(doc, &plan);
            Ok((d, plan))
        },
    }
}

proof fn lemma_applied_items(doc: TomlView, reuse: Option<usize>, id: Seq<char>, path: Seq<char>, keep: Seq<usize>)
    requires
        doc_root_is_table(doc),
    ensures
        ({
            let a = spec_applied_document(doc, reuse, id, path, keep);
            let items = doc_items(doc);
            let base = match reuse {
                Some(i) => match items[i as int] {
                    TomlView::Table(t) => t,
                    _ => Seq::<(Seq<char>, TomlView)>::empty(),
                },
                None => Seq::<(Seq<char>, TomlView)>::empty(),
            };
            &&& doc_root_is_table(a)
            &&& doc_workspaces_is_array(a)
            &&& doc_items(a) == seq![written_entry(base, id, path)] + keep.map_values(
                |k: usize| items[k as int],
            )
        }),
{
    let items = doc_items(doc);
    let base = match reuse {
        Some(i) => match items[i as int] {
            TomlView::Table(t) => t,
            _ => Seq::<(Seq<char>, TomlView)>::empty(),
        },
        None => Seq::<(Seq<char>, TomlView)>::empty(),
    };
    let ws = seq![written_entry(base, id, path)] + keep.map_values(|k: usize| items[k as int]);
    lemma_lookup_inserted(doc->Table_0, "workspaces"@, TomlView::Array(ws));
}

/// The entry a plan writes reads back as a table with the plan's id and path.
proof fn lemma_written_entry_reads(base: Seq<(Seq<char>, TomlView)>, id: Seq<char>, path: Seq<char>)
    ensures
        tstr(tget(written_entry(base, id, path), "id"@)) == Some(id),
        tstr(tget(written_entry(base, id, path), "path"@)) == Some(path),
        written_entry(base, id, path) is Table,
{
    reveal_strlit("id");
    reveal_strlit("path");
    reveal_strlit("writable_roots");
    reveal_strlit("default_mode");
    reveal_strlit("continue_prompt");
    reveal_strlit("checks_profile");
    let t1 = table_insert(base, "id"@, TomlView::Str(id));
    let t2 = table_insert(t1, "path"@, TomlView::Str(path));
    let t3 = table_insert(t2, "writable_roots"@, TomlView::Array(seq![TomlView::Str(path)]));
    let t4 = table_insert_default(t3, "default_mode"@, TomlView::Str(DEFAULT_MODE@));
    let t5 = table_insert_default(t4, "continue_prompt"@, TomlView::Str(DEFAULT_CONTINUE_PROMPT@));
    let t6 = table_insert_default(t5, "checks_profile"@, TomlView::Str(DEFAULT_CHECKS_PROFILE@));
    lemma_lookup_inserted(base, "id"@, TomlView::Str(id));
    lemma_lookup_inserted(t1, "path"@, TomlView::Str(path));
    assert("path"@.len() == 4 && "id"@.len() == 2 && "writable_roots"@.len() == 14);
    assert("path"@ != "id"@);
    assert("writable_roots"@ != "id"@);
    assert("writable_roots"@ != "path"@);
    lemma_lookup_other(t1, "path"@, TomlView::Str(path), "id"@);
    lemma_lookup_other(t2, "writable_roots"@, TomlView::Array(seq![TomlView::Str(path)]), "id"@);
    lemma_lookup_other(t2, "writable_roots"@, TomlView::Array(seq![TomlView::Str(path)]), "path"@);
    lemma_lookup_other(t3, "default_mode"@, TomlView::Str(DEFAULT_MODE@), "id"@);
    lemma_lookup_other(t3, "default_mode"@, TomlView::Str(DEFAULT_MODE@), "path"@);
    lemma_lookup_other(t4, "continue_prompt"@, TomlView::Str(DEFAULT_CONTINUE_PROMPT@), "id"@);
    lemma_lookup_other(t4, "continue_prompt"@, TomlView::Str(DEFAULT_CONTINUE_PROMPT@), "path"@);
    lemma_lookup_other(t5, "checks_profile"@, TomlView::Str(DEFAULT_CHECKS_PROFILE@), "id"@);
    lemma_lookup_other(t5, "checks_profile"@, TomlView::Str(DEFAULT_CHECKS_PROFILE@), "path"@);
    assert(table_lookup(t6, "id"@) == Some(TomlView::Str(id)));
    assert(table_lookup(t6, "path"@) == Some(TomlView::Str(path)));
}

proof fn lemma_kept_all_but_first(es: Seq<WorkspaceEntry>, rendered: Seq<char>, m: int)
    requires
        1 <= m <= es.len(),
        forall|j: int| 1 <= j < es.len() ==> !entry_matches(#[trigger] es[j], rendered),
    ensures
        kept_entries(es, rendered, Some(0), m) == Seq::new((m - 1) as nat, |i: int| i + 1),
    decreases m,
{
    if m == 1 {
        assert(kept_entries(es, rendered, Some(0), 0) == Seq::<int>::empty());
        assert(kept_entries(es, rendered, Some(0), 1) =~= Seq::new(0, |i: int| i + 1));
    } else {
        lemma_kept_all_but_first(es, rendered, m - 1);
        assert(!entry_matches(es[m - 1], rendered));
        assert(kept_entries(es, rendered, Some(0), m) =~= Seq::new((m - 1) as nat, |i: int| i + 1));
    }
}

/// Registering the same directory twice: the second registration updates
/// the entry the first one wrote, first in the list, with the same id, and
/// keeps every other entry where it is; no other entry names the directory,
/// so the file holds one entry for it.
pub proof fn lemma_upsert_twice_keeps_one_entry(
    doc: TomlView,
    workspace_path: Seq<char>,
    es0: Seq<WorkspaceEntry>,
    plan1: WorkspaceUpsertPlan,
    file_name1: Option<Seq<char>>,
    es1: Seq<WorkspaceEntry>,
    plan2: WorkspaceUpsertPlan,
    file_name2: Option<Seq<char>>,
)
    requires
        doc_root_is_table(doc),
        entries_read(doc_items(doc), es0),
        upsert_plan_is(plan1, es0, workspace_path, file_name1),
        entries_read(
            doc_items(
                spec_applied_document(doc, plan1.reuse_index, plan1.workspace_id@, plan1.path@, plan1.keep@),
            ),
            es1,
        ),
        upsert_plan_is(plan2, es1, workspace_path, file_name2),
    ensures
        doc_root_is_table(
            spec_applied_document(doc, plan1.reuse_index, plan1.workspace_id@, plan1.path@, plan1.keep@),
        ),
        doc_workspaces_is_array(
            spec_applied_document(doc, plan1.reuse_index, plan1.workspace_id@, plan1.path@, plan1.keep@),
        ),
        plan2.reuse_index == Some(0usize),
        plan2.workspace_id@ == plan1.workspace_id@,
        plan2.keep@.map_values(|k: usize| k as int) == Seq::new((es1.len() - 1) as nat, |i: int| i + 1),
        forall|j: int|
            1 <= j < es1.len() ==> !entry_matches(#[trigger] es1[j], spec_render_workspace_path(workspace_path)),
{
    let rendered = spec_render_workspace_path(workspace_path);
    let items = doc_items(doc);
    let base = match plan1.reuse_index {
        Some(i) => match items[i as int] {
            TomlView::Table(t) => t,
            _ => Seq::<(Seq<char>, TomlView)>::empty(),
        },
        None => Seq::<(Seq<char>, TomlView)>::empty(),
    };
    lemma_applied_items(doc, plan1.reuse_index, plan1.workspace_id@, plan1.path@, plan1.keep@);
    let ws = seq![written_entry(base, plan1.workspace_id@, plan1.path@)] + plan1.keep@.map_values(
        |k: usize| items[k as int],
    );
    lemma_written_entry_reads(base, plan1.workspace_id@, plan1.path@);
    let sel0 = selected_entry(es0, rendered);
    lemma_kept_entries_exclude_path(es0, rendered, sel0, es0.len() as int);
    let kept0 = kept_entries(es0, rendered, sel0, es0.len() as int);
    assert(plan1.keep@.map_values(|k: usize| k as int) == kept0);
    assert(es1.len() == ws.len());
    assert(entry_reads(es1[0], ws[0]));
    assert(entry_matches(es1[0], rendered));
    assert(first_match(es1, rendered, 0) == Some(0int));
    assert forall|j: int| 1 <= j < es1.len() implies !entry_matches(#[trigger] es1[j], rendered) by {
        let k = plan1.keep@[j - 1];
        assert(kept0[j - 1] == k as int);
        assert(ws[j] == items[k as int]);
        assert(entry_reads(es1[j], ws[j]));
        assert(entry_reads(es0[k as int], items[k as int]));
        assert(!entry_matches(es0[k as int], rendered));
    }
    lemma_kept_all_but_first(es1, rendered, es1.len() as int);
}

/// No two entries hold the same id.
pub open spec fn ids_distinct(es: Seq<WorkspaceEntry>) -> bool {
    forall|i: int, j: int|
        0 <= i < es.len() && 0 <= j < es.len() && i != j && es[i].id is Some ==> opt_string_view(
            #[trigger] es[i].id,
        ) != opt_string_view(#[trigger] es[j].id)
}

proof fn lemma_without_keeps_others(es: Seq<WorkspaceEntry>, sel: Option<int>, k: int)
    requires
        0 <= k < es.len(),
        sel != Some(k),
        sel matches Some(s) ==> 0 <= s < es.len(),
    ensures
        exists|q: int| 0 <= q < without(es, sel).len() && #[trigger] without(es, sel)[q] == es[k],
{
    match sel {
        Some(s) => {
            if k < s {
                assert(without(es, sel)[k] == es[k]);
            } else {
                assert(without(es, sel)[k - 1] == es[k]);
            }
        },
        None => {
            assert(without(es, sel)[k] == es[k]);
        },
    }
}

/// Registering a directory keeps the ids in the file distinct, when they
/// were distinct before and no other entry already holds the id base with
/// the path's hash appended.
pub proof fn lemma_upsert_keeps_ids_distinct(
    doc: TomlView,
    workspace_path: Seq<char>,
    es0: Seq<WorkspaceEntry>,
    plan: WorkspaceUpsertPlan,
    file_name: Option<Seq<char>>,
    es1: Seq<WorkspaceEntry>,
)
    requires
        doc_root_is_table(doc),
        entries_read(doc_items(doc), es0),
        upsert_plan_is(plan, es0, workspace_path, file_name),
        entries_read(
            doc_items(
                spec_applied_document(doc, plan.reuse_index, plan.workspace_id@, plan.path@, plan.keep@),
            ),
            es1,
        ),
        ids_distinct(es0),
        !id_in_use(
            without(es0, selected_entry(es0, spec_render_workspace_path(workspace_path))),
            spec_workspace_id_base(file_name) + seq!['-'] + spec_workspace_hash(workspace_path),
        ),
    ensures
        ids_distinct(es1),
        opt_string_view(es1[0].id) == Some(plan.workspace_id@),
{
    let rendered = spec_render_workspace_path(workspace_path);
    let items = doc_items(doc);
    let base = match plan.reuse_index {
        Some(i) => match items[i as int] {
            TomlView::Table(t) => t,
            _ => Seq::<(Seq<char>, TomlView)>::empty(),
        },
        None => Seq::<(Seq<char>, TomlView)>::empty(),
    };
    lemma_applied_items(doc, plan.reuse_index, plan.workspace_id@, plan.path@, plan.keep@);
    let ws = seq![written_entry(base, plan.workspace_id@, plan.path@)] + plan.keep@.map_values(
        |k: usize| items[k as int],
    );
    lemma_written_entry_reads(base, plan.workspace_id@, plan.path@);
    let sel = selected_entry(es0, rendered);
    lemma_first_match_in_range(es0, rendered, 0);
    lemma_first_placeholder_in_range(es0, 0);
    lemma_kept_entries_exclude_path(es0, rendered, sel, es0.len() as int);
    let kept = kept_entries(es0, rendered, sel, es0.len() as int);
    assert(plan.keep@.map_values(|k: usize| k as int) == kept);
    assert(entry_reads(es1[0], ws[0]));
    let id1 = plan.workspace_id@;
    // Every kept entry holds another id than the registered one.
    assert forall|j: int| 1 <= j < es1.len() implies opt_string_view(#[trigger] es1[j].id) != Some(id1) by {
        let k = kept[j - 1];
        assert(ws[j] == items[k]);
        assert(entry_reads(es1[j], ws[j]));
        assert(entry_reads(es0[k], items[k]));
        assert(sel != Some(k));
        match first_match(es0, rendered, 0) {
            Some(m) => {
                assert(sel == Some(m));
                if es0[m].id is Some {
                    assert(opt_string_view(es0[m].id) != opt_string_view(es0[k].id));
                } else {
                    lemma_without_keeps_others(es0, sel, k);
                    let q = choose|q: int| 0 <= q < without(es0, sel).len() && #[trigger] without(es0, sel)[q] == es0[k];
                    assert(!id_is(without(es0, sel)[q], id1));
                }
            },
            None => {
                lemma_without_keeps_others(es0, sel, k);
                let q = choose|q: int| 0 <= q < without(es0, sel).len() && #[trigger] without(es0, sel)[q] == es0[k];
                assert(!id_is(without(es0, sel)[q], id1));
            },
        }
    }
    assert forall|i: int, j: int|
        0 <= i < es1.len() && 0 <= j < es1.len() && i != j && es1[i].id is Some implies opt_string_view(
            #[trigger] es1[i].id,
        ) != opt_string_view(#[trigger] es1[j].id) by {
        if i == 0 {
            assert(opt_string_view(es1[j].id) != Some(id1));
        } else if j == 0 {
            assert(opt_string_view(es1[i].id) != Some(id1));
        } else {
            let ki = kept[i - 1];
            let kj = kept[j - 1];
            assert(ws[i] == items[ki]);
            assert(ws[j] == items[kj]);
            assert(entry_reads(es1[i], ws[i]));
            assert(entry_reads(es1[j], ws[j]));
            assert(entry_reads(es0[ki], items[ki]));
            assert(entry_reads(es0[kj], items[kj]));
            assert(ki != kj);
            assert(es0[ki].id is Some);
        }
    }
}

pub open spec fn spec_setup_message(workspace_id: Seq<char>, config_path: Seq<char>, workspace_path: Seq<char>) -> Seq<char> {
    "Remote Control\nProject `"@ + workspace_id + "` is registered for Telegram remote control.\nConfig: "@
        + config_path + "\nWorkspace: "@ + spec_render_workspace_path(workspace_path)
        + "\nSend a Telegram message to the bot. First-time users get a pairing code automatically."@
}

/// What `remote-control` prints after registering the project.
pub fn format_remote_control_setup_message(result: &WorkspaceUpsertResult) -> (r: String)
    ensures
        r@ == spec_setup_message(result.workspace_id@, result.config_path@, result.workspace_path@),
{
    let mut r = str_of("Remote Control\nProject `");
    r.append(result.workspace_id.as_str());
    r.append("` is registered for Telegram remote control.\nConfig: ");
    r.append(result.config_path.as_str());
    r.append("\nWorkspace: ");
    r.append(render_workspace_path(result.workspace_path.as_str()).as_str());
    r.append("\nSend a Telegram message to the bot. First-time users get a pairing code automatically.");
    r
}

pub open spec fn spec_remote_control_active_message() -> Seq<char> {
    "Remote Control active\nListening for Telegram channel messages from: remotty:telegram"@
}

/// What `remote-control` prints once the bridge is up.
pub fn remote_control_active_message() -> (r: String)
    ensures
        r@ == spec_remote_control_active_message(),
{
    str_of("Remote Control active\nListening for Telegram channel messages from: remotty:telegram")
}

/// A token is configured when the stored secret, or else the
/// `TELEGRAM_BOT_TOKEN` variable, holds more than blanks.
pub fn telegram_token_is_configured(stored: Option<&str>, environment: Option<&str>) -> (r: bool)
    ensures
        r == match stored {
            Some(t) => crate::text::trim(t@).len() > 0,
            None => match environment {
                Some(t) => crate::text::trim(t@).len() > 0,
                None => false,
            },
        },
{
    match stored {
        Some(t) => !crate::text::str_is_blank(t),
        None => match environment {
            Some(t) => !crate::text::str_is_blank(t),
            None => false,
        },
    }
}

} // verus!
