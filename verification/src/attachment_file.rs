//! Local file names for downloaded Telegram attachments, and the size limits
//! a download must respect.
use vstd::prelude::*;

use crate::telegram::{opt_str_view, TelegramAttachment, TelegramAttachmentKind, TelegramRemoteFile};
use crate::text::{
    ascii_lower, back_not_in_set_index, back_to, char_is_alnum, char_is_ctrl, char_is_ws,
    char_to_lower, chars_of, eq_str, i64_string, is_ascii_alnum, is_blank, is_ctrl, is_ws,
    lemma_back_to_bounds, lemma_skip_from_bounds, not_in_pred, set_pred, skip_from, str_of,
    string_of, subvec, to_upper_vec, trim, trim_by, trim_set, u64_string, upper_seq,
};

verus! {

// ---------------------------------------------------------------------------
// Paths
// ---------------------------------------------------------------------------

pub open spec fn path_seps() -> Seq<char> {
    seq!['/', '\\']
}

pub open spec fn opt_chars(o: Option<Vec<char>>) -> Option<Seq<char>> {
    match o {
        Some(v) => Some(v@),
        None => None,
    }
}

/// The last segment between `/` or `\` that is not blank.
pub open spec fn spec_file_name_from_path(s: Seq<char>) -> Option<Seq<char>>
    decreases s.len(),
{
    let k = back_to(s, s.len() as int, not_in_pred(path_seps()));
    if 0 <= k <= s.len() {
        if trim(s.skip(k)).len() > 0 {
            Some(s.skip(k))
        } else if k == 0 {
            None
        } else {
            spec_file_name_from_path(s.take(k - 1))
        }
    } else {
        None
    }
}

pub fn file_name_from_path(path: &Vec<char>) -> (r: Option<Vec<char>>)
    ensures
        opt_chars(r) == spec_file_name_from_path(path@),
{
    let seps = vec!['/', '\\'];
    assert(seps@ =~= path_seps());
    let mut cur = subvec(path, 0, path.len());
    assert(cur@ =~= path@);
    loop
        invariant
            seps@ == path_seps(),
            spec_file_name_from_path(cur@) == spec_file_name_from_path(path@),
        decreases cur.len(),
    {
        let k = back_not_in_set_index(&cur, &seps);
        let seg = subvec(&cur, k, cur.len());
        assert(seg@ =~= cur@.skip(k as int));
        if !is_blank(&seg) {
            return Some(seg);
        }
        if k == 0 {
            return None;
        }
        let next = subvec(&cur, 0, k - 1);
        assert(next@ =~= cur@.take(k - 1));
        cur = next;
    }
}

/// The cut just after the last `.` of a name, or zero when it has none.
pub open spec fn last_dot_cut(name: Seq<char>) -> int {
    back_to(name, name.len() as int, not_in_pred(seq!['.']))
}

/// The file name of `name` without its last extension.
pub open spec fn spec_file_stem(name: Seq<char>) -> Option<Seq<char>> {
    match spec_file_name_from_path(name) {
        None => None,
        Some(n) => {
            let k = last_dot_cut(n);
            if 1 < k <= n.len() {
                Some(n.take(k - 1))
            } else if n.len() > 0 {
                Some(n)
            } else {
                None
            }
        },
    }
}

/// The last extension of the file name of `name`, when it is not empty.
pub open spec fn spec_file_extension(name: Seq<char>) -> Option<Seq<char>> {
    match spec_file_name_from_path(name) {
        None => None,
        Some(n) => {
            let k = last_dot_cut(n);
            if 0 < k < n.len() {
                Some(n.skip(k))
            } else {
                None
            }
        },
    }
}

fn last_dot_index(name: &Vec<char>) -> (k: usize)
    ensures
        k == last_dot_cut(name@),
        k <= name.len(),
{
    let dot = vec!['.'];
    assert(dot@ =~= seq!['.']);
    back_not_in_set_index(name, &dot)
}

pub fn file_stem_from_name(name: &Vec<char>) -> (r: Option<Vec<char>>)
    ensures
        opt_chars(r) == spec_file_stem(name@),
{
    match file_name_from_path(name) {
        None => None,
        Some(n) => {
            let k = last_dot_index(&n);
            if k > 1 {
                Some(subvec(&n, 0, k - 1))
            } else if n.len() > 0 {
                Some(n)
            } else {
                None
            }
        },
    }
}

pub fn file_extension_from_name(name: &Vec<char>) -> (r: Option<Vec<char>>)
    ensures
        opt_chars(r) == spec_file_extension(name@),
{
    match file_name_from_path(name) {
        None => None,
        Some(n) => {
            let k = last_dot_index(&n);
            if 0 < k && k < n.len() {
                let e = subvec(&n, k, n.len());
                assert(e@ =~= n@.skip(k as int));
                Some(e)
            } else {
                None
            }
        },
    }
}

// ---------------------------------------------------------------------------
// Sanitizing
// ---------------------------------------------------------------------------

/// Characters that Windows does not allow in a file name.
pub open spec fn is_forbidden(c: char) -> bool {
    is_ctrl(c) || seq!['<', '>', ':', '"', '/', '\\', '|', '?', '*'].contains(c)
}

/// A character that can stand in a file name on its own: nothing Windows
/// forbids, no path separator, no whitespace.
pub open spec fn is_safe_char(c: char) -> bool {
    !is_forbidden(c) && !is_ws(c)
}

pub open spec fn all_safe(s: Seq<char>) -> bool {
    forall|i: int| 0 <= i < s.len() ==> is_safe_char(#[trigger] s[i])
}

pub open spec fn component_char(c: char) -> char {
    if is_forbidden(c) || is_ws(c) {
        '_'
    } else {
        c
    }
}

/// Every character mapped, and each run of `_` kept as one.
pub open spec fn collapse_underscores(s: Seq<char>) -> Seq<char>
    decreases s.len(),
{
    if s.len() == 0 {
        Seq::<char>::empty()
    } else {
        let r = collapse_underscores(s.drop_last());
        let m = component_char(s.last());
        if m == '_' && r.len() > 0 && r.last() == '_' {
            r
        } else {
            r.push(m)
        }
    }
}

pub open spec fn take_at_most(s: Seq<char>, n: nat) -> Seq<char> {
    if s.len() <= n {
        s
    } else {
        s.take(n as int)
    }
}

/// Device names that Windows reserves, compared without ASCII case.
pub open spec fn is_reserved_name(v: Seq<char>) -> bool {
    let u = upper_seq(v);
    ||| u == "CON"@
    ||| u == "PRN"@
    ||| u == "AUX"@
    ||| u == "NUL"@
    ||| u == "COM1"@
    ||| u == "COM2"@
    ||| u == "COM3"@
    ||| u == "COM4"@
    ||| u == "COM5"@
    ||| u == "COM6"@
    ||| u == "COM7"@
    ||| u == "COM8"@
    ||| u == "COM9"@
    ||| u == "LPT1"@
    ||| u == "LPT2"@
    ||| u == "LPT3"@
    ||| u == "LPT4"@
    ||| u == "LPT5"@
    ||| u == "LPT6"@
    ||| u == "LPT7"@
    ||| u == "LPT8"@
    ||| u == "LPT9"@
}

pub open spec fn component_trim_set() -> Seq<char> {
    seq!['.', ' ', '_']
}

/// The last segment of `value`, its unsafe characters replaced, trimmed of
/// `.`, ` ` and `_`, cut to `max_len`; `fallback` when nothing is left; a
/// reserved device name gets a leading `_`.
pub open spec fn spec_sanitize_component(value: Seq<char>, fallback: Seq<char>, max_len: nat) -> Seq<
    char,
> {
    let seg = match spec_file_name_from_path(value) {
        Some(s) => s,
        None => value,
    };
    let t = take_at_most(trim_by(collapse_underscores(seg), set_pred(component_trim_set())), max_len);
    let t = if t.len() == 0 {
        fallback
    } else {
        t
    };
    if is_reserved_name(t) {
        seq!['_'] + t
    } else {
        t
    }
}

pub fn is_windows_reserved_name(value: &Vec<char>) -> (r: bool)
    ensures
        r == is_reserved_name(value@),
{
    let u = to_upper_vec(value);
    eq_str(&u, "CON") || eq_str(&u, "PRN") || eq_str(&u, "AUX") || eq_str(&u, "NUL") || eq_str(
        &u,
        "COM1",
    ) || eq_str(&u, "COM2") || eq_str(&u, "COM3") || eq_str(&u, "COM4") || eq_str(&u, "COM5")
        || eq_str(&u, "COM6") || eq_str(&u, "COM7") || eq_str(&u, "COM8") || eq_str(&u, "COM9")
        || eq_str(&u, "LPT1") || eq_str(&u, "LPT2") || eq_str(&u, "LPT3") || eq_str(&u, "LPT4")
        || eq_str(&u, "LPT5") || eq_str(&u, "LPT6") || eq_str(&u, "LPT7") || eq_str(&u, "LPT8")
        || eq_str(&u, "LPT9")
}

fn component_char_of(c: char) -> (r: char)
    ensures
        r == component_char(c),
{
    let forbidden = char_is_ctrl(c) || c == '<' || c == '>' || c == ':' || c == '"' || c == '/'
        || c == '\\' || c == '|' || c == '?' || c == '*';
    assert(forbidden == is_forbidden(c)) by {
        let set = seq!['<', '>', ':', '"', '/', '\\', '|', '?', '*'];
        if set.contains(c) {
            let i = choose|i: int| 0 <= i < set.len() && set[i] == c;
            assert(set[i] == c);
        }
        if c == '<' { assert(set[0] == c); }
        if c == '>' { assert(set[1] == c); }
        if c == ':' { assert(set[2] == c); }
        if c == '"' { assert(set[3] == c); }
        if c == '/' { assert(set[4] == c); }
        if c == '\\' { assert(set[5] == c); }
        if c == '|' { assert(set[6] == c); }
        if c == '?' { assert(set[7] == c); }
        if c == '*' { assert(set[8] == c); }
    }
    if forbidden || char_is_ws(c) {
        '_'
    } else {
        c
    }
}

pub fn sanitize_file_component(value: &str, fallback: &str, max_len: usize) -> (r: String)
    ensures
        r@ == spec_sanitize_component(value@, fallback@, max_len as nat),
{
    let v = chars_of(value);
    let seg = match file_name_from_path(&v) {
        Some(s) => s,
        None => v,
    };
    let mut collapsed: Vec<char> = Vec::new();
    let mut i: usize = 0;
    while i < seg.len()
        invariant
            i <= seg.len(),
            collapsed@ == collapse_underscores(seg@.take(i as int)),
        decreases seg.len() - i,
    {
        assert(seg@.take(i + 1).drop_last() =~= seg@.take(i as int));
        assert(seg@.take(i + 1).last() == seg@[i as int]);
        let m = component_char_of(seg[i]);
        let previous_was_separator = collapsed.len() > 0 && collapsed[collapsed.len() - 1] == '_';
        if !(m == '_' && previous_was_separator) {
            collapsed.push(m);
        }
        i = i + 1;
    }
    assert(seg@.take(seg.len() as int) =~= seg@);
    let trim_chars = vec!['.', ' ', '_'];
    assert(trim_chars@ =~= component_trim_set());
    let mut t = trim_set(&collapsed, &trim_chars);
    if t.len() > max_len {
        t = subvec(&t, 0, max_len);
    }
    if t.len() == 0 {
        t = chars_of(fallback);
    }
    if is_windows_reserved_name(&t) {
        let mut prefixed = vec!['_'];
        let mut k: usize = 0;
        while k < t.len()
            invariant
                k <= t.len(),
                prefixed@ == seq!['_'] + t@.take(k as int),
            decreases t.len() - k,
        {
            prefixed.push(t[k]);
            k = k + 1;
            assert(t@.take(k as int) =~= t@.take(k - 1).push(t@[k - 1]));
        }
        assert(t@.take(t.len() as int) =~= t@);
        string_of(prefixed.as_slice())
    } else {
        string_of(t.as_slice())
    }
}

pub open spec fn extension_char(c: char) -> char {
    if is_ascii_alnum(c) {
        ascii_lower(c)
    } else {
        '_'
    }
}

/// ASCII letters and digits in lower case, anything else as `_`, without
/// leading or trailing `_`.
pub open spec fn spec_sanitize_extension(e: Seq<char>) -> Seq<char> {
    trim_by(e.map_values(|c: char| extension_char(c)), set_pred(seq!['_']))
}

pub fn sanitize_extension(extension: &Vec<char>) -> (r: Vec<char>)
    ensures
        r@ == spec_sanitize_extension(extension@),
{
    let mut mapped: Vec<char> = Vec::new();
    let mut i: usize = 0;
    while i < extension.len()
        invariant
            i <= extension.len(),
            mapped@ =~= extension@.take(i as int).map_values(|c: char| extension_char(c)),
        decreases extension.len() - i,
    {
        let c = extension[i];
        let m = if char_is_alnum(c) {
            char_to_lower(c)
        } else {
            '_'
        };
        mapped.push(m);
        i = i + 1;
    }
    assert(extension@.take(extension.len() as int) =~= extension@);
    let underscore = vec!['_'];
    assert(underscore@ =~= seq!['_']);
    trim_set(&mapped, &underscore)
}

// ---------------------------------------------------------------------------
// The saved file name
// ---------------------------------------------------------------------------

pub open spec fn default_attachment_stem(kind: TelegramAttachmentKind) -> Seq<char> {
    match kind {
        TelegramAttachmentKind::Photo => "photo"@,
        TelegramAttachmentKind::Document => "document"@,
    }
}

pub open spec fn default_attachment_extension(kind: TelegramAttachmentKind) -> Option<Seq<char>> {
    match kind {
        TelegramAttachmentKind::Photo => Some("jpg"@),
        TelegramAttachmentKind::Document => None,
    }
}

fn default_stem_of(kind: TelegramAttachmentKind) -> (r: &'static str)
    ensures
        r@ == default_attachment_stem(kind),
{
    match kind {
        TelegramAttachmentKind::Photo => "photo",
        TelegramAttachmentKind::Document => "document",
    }
}

/// The extension of the file: that of its own name, else that of the path
/// Telegram stores it under, else the default of its kind; sanitized, and
/// left out when nothing is left of it.
pub open spec fn spec_chosen_extension(
    file_name: Option<Seq<char>>,
    remote_path: Seq<char>,
    kind: TelegramAttachmentKind,
) -> Option<Seq<char>> {
    let from_name = match file_name {
        Some(n) => spec_file_extension(n),
        None => None,
    };
    let from_remote = match spec_file_name_from_path(remote_path) {
        Some(n) => spec_file_extension(n),
        None => None,
    };
    let raw = if from_name is Some {
        from_name
    } else if from_remote is Some {
        from_remote
    } else {
        default_attachment_extension(kind)
    };
    match raw {
        Some(e) => if spec_sanitize_extension(e).len() > 0 {
            Some(spec_sanitize_extension(e))
        } else {
            None
        },
        None => None,
    }
}

/// `<stem>_<unique id>[.<extension>]`.
pub open spec fn spec_safe_attachment_filename(
    file_name: Option<Seq<char>>,
    file_unique_id: Seq<char>,
    remote_path: Seq<char>,
    kind: TelegramAttachmentKind,
) -> Seq<char> {
    let stem_source = match file_name {
        Some(n) => match spec_file_stem(n) {
            Some(s) => s,
            None => default_attachment_stem(kind),
        },
        None => default_attachment_stem(kind),
    };
    let stem = spec_sanitize_component(stem_source, default_attachment_stem(kind), 80);
    let unique = spec_sanitize_component(file_unique_id, "file"@, 40);
    let base = stem + seq!['_'] + unique;
    match spec_chosen_extension(file_name, remote_path, kind) {
        Some(e) => base + seq!['.'] + e,
        None => base,
    }
}

pub fn safe_attachment_filename(
    attachment: &TelegramAttachment,
    remote_file: &TelegramRemoteFile,
) -> (r: String)
    ensures
        r@ == spec_safe_attachment_filename(
            opt_str_view(attachment.file_name),
            attachment.file_unique_id@,
            remote_file.file_path@,
            attachment.kind,
        ),
{
    let default_stem = default_stem_of(attachment.kind);
    let stem = match &attachment.file_name {
        Some(name) => {
            let n = chars_of(name.as_str());
            match file_stem_from_name(&n) {
                Some(s) => {
                    let source = string_of(s.as_slice());
                    sanitize_file_component(source.as_str(), default_stem, 80)
                },
                None => sanitize_file_component(default_stem, default_stem, 80),
            }
        },
        None => sanitize_file_component(default_stem, default_stem, 80),
    };
    let unique = sanitize_file_component(attachment.file_unique_id.as_str(), "file", 40);
    let from_name = match &attachment.file_name {
        Some(name) => {
            let n = chars_of(name.as_str());
            file_extension_from_name(&n)
        },
        None => None,
    };
    let raw = match from_name {
        Some(e) => Some(e),
        None => {
            let p = chars_of(remote_file.file_path.as_str());
            match file_name_from_path(&p) {
                Some(n) => match file_extension_from_name(&n) {
                    Some(e) => Some(e),
                    None => match attachment.kind {
                        TelegramAttachmentKind::Photo => Some(chars_of("jpg")),
                        TelegramAttachmentKind::Document => None,
                    },
                },
                None => match attachment.kind {
                    TelegramAttachmentKind::Photo => Some(chars_of("jpg")),
                    TelegramAttachmentKind::Document => None,
                },
            }
        },
    };
    let extension = match raw {
        Some(e) => {
            let s = sanitize_extension(&e);
            if s.len() > 0 {
                Some(s)
            } else {
                None
            }
        },
        None => None,
    };
    proof {
        reveal_strlit("_");
        reveal_strlit(".");
    }
    let ghost chosen = spec_chosen_extension(
        opt_str_view(attachment.file_name),
        remote_file.file_path@,
        attachment.kind,
    );
    assert(opt_chars(extension) == chosen);
    let mut file_name = stem;
    file_name.append("_");
    file_name.append(unique.as_str());
    let ghost base = file_name@;
    assert(base =~= stem@ + seq!['_'] + unique@);
    match extension {
        Some(e) => {
            file_name.append(".");
            let e_str = string_of(e.as_slice());
            file_name.append(e_str.as_str());
            assert(file_name@ =~= base + seq!['.'] + e@);
        },
        None => {},
    }
    file_name
}

// ---------------------------------------------------------------------------
// Laws of the saved file name
// ---------------------------------------------------------------------------

proof fn lemma_trim_by_keeps(s: Seq<char>, p: spec_fn(char) -> bool, q: spec_fn(char) -> bool)
    requires
        forall|i: int| 0 <= i < s.len() ==> q(#[trigger] s[i]),
    ensures
        forall|i: int| 0 <= i < trim_by(s, p).len() ==> q(#[trigger] trim_by(s, p)[i]),
{
    lemma_skip_from_bounds(s, 0, p);
    let a = skip_from(s, 0, p);
    let t = s.skip(a);
    lemma_back_to_bounds(t, t.len() as int, p);
    assert forall|i: int| 0 <= i < trim_by(s, p).len() implies q(#[trigger] trim_by(s, p)[i]) by {
        assert(trim_by(s, p)[i] == s[a + i]);
    }
}

proof fn lemma_collapse_safe(s: Seq<char>)
    ensures
        all_safe(collapse_underscores(s)),
    decreases s.len(),
{
    if s.len() > 0 {
        lemma_collapse_safe(s.drop_last());
        let c = s.last();
        assert(is_safe_char(component_char(c))) by {
            if !(is_forbidden(c) || is_ws(c)) {
            } else {
                assert(!seq!['<', '>', ':', '"', '/', '\\', '|', '?', '*'].contains('_')) by {
                    let set = seq!['<', '>', ':', '"', '/', '\\', '|', '?', '*'];
                    assert forall|i: int| 0 <= i < set.len() implies set[i] != '_' by {}
                }
            }
        }
    }
}

proof fn lemma_component_safe(value: Seq<char>, fallback: Seq<char>, max_len: nat)
    requires
        all_safe(fallback),
    ensures
        all_safe(spec_sanitize_component(value, fallback, max_len)),
{
    let seg = match spec_file_name_from_path(value) {
        Some(s) => s,
        None => value,
    };
    let c = collapse_underscores(seg);
    lemma_collapse_safe(seg);
    let tr = trim_by(c, set_pred(component_trim_set()));
    lemma_trim_by_keeps(c, set_pred(component_trim_set()), |x: char| is_safe_char(x));
    let t = take_at_most(tr, max_len);
    assert(all_safe(t)) by {
        assert forall|i: int| 0 <= i < t.len() implies is_safe_char(#[trigger] t[i]) by {
            assert(t[i] == tr[i]);
        }
    }
    let t2 = if t.len() == 0 {
        fallback
    } else {
        t
    };
    assert(is_safe_char('_')) by {
        let set = seq!['<', '>', ':', '"', '/', '\\', '|', '?', '*'];
        assert forall|i: int| 0 <= i < set.len() implies set[i] != '_' by {}
    }
    if is_reserved_name(t2) {
        let r = seq!['_'] + t2;
        assert forall|i: int| 0 <= i < r.len() implies is_safe_char(#[trigger] r[i]) by {
            if i > 0 {
                assert(r[i] == t2[i - 1]);
            }
        }
    }
}

proof fn lemma_extension_safe(e: Seq<char>)
    ensures
        all_safe(spec_sanitize_extension(e)),
{
    let m = e.map_values(|c: char| extension_char(c));
    assert forall|i: int| 0 <= i < m.len() implies is_safe_char(#[trigger] m[i]) by {
        let set = seq!['<', '>', ':', '"', '/', '\\', '|', '?', '*'];
        assert forall|j: int| 0 <= j < set.len() implies set[j] != m[i] by {}
    }
    lemma_trim_by_keeps(m, set_pred(seq!['_']), |x: char| is_safe_char(x));
}

/// A saved attachment's file name is never empty and holds no path
/// separator, no character that Windows forbids in file names, no control
/// character and no whitespace, whatever Telegram reported.
pub proof fn lemma_safe_attachment_filename(
    file_name: Option<Seq<char>>,
    file_unique_id: Seq<char>,
    remote_path: Seq<char>,
    kind: TelegramAttachmentKind,
)
    ensures
        spec_safe_attachment_filename(file_name, file_unique_id, remote_path, kind).len() > 0,
        all_safe(spec_safe_attachment_filename(file_name, file_unique_id, remote_path, kind)),
{
    reveal_strlit("photo");
    reveal_strlit("document");
    reveal_strlit("file");
    let set = seq!['<', '>', ':', '"', '/', '\\', '|', '?', '*'];
    assert forall|c: char| #![auto]
        (c == '_' || c == '.' || is_ascii_alnum(c)) implies is_safe_char(c) by {
        assert forall|j: int| 0 <= j < set.len() implies set[j] != c by {}
    }
    let d = default_attachment_stem(kind);
    assert(all_safe(d)) by {
        assert forall|i: int| 0 <= i < d.len() implies is_safe_char(#[trigger] d[i]) by {
            assert(is_ascii_alnum(d[i]));
        }
    }
    let f = "file"@;
    assert(all_safe(f)) by {
        assert forall|i: int| 0 <= i < f.len() implies is_safe_char(#[trigger] f[i]) by {
            assert(is_ascii_alnum(f[i]));
        }
    }
    let stem_source = match file_name {
        Some(n) => match spec_file_stem(n) {
            Some(s) => s,
            None => d,
        },
        None => d,
    };
    let stem = spec_sanitize_component(stem_source, d, 80);
    let unique = spec_sanitize_component(file_unique_id, f, 40);
    lemma_component_safe(stem_source, d, 80);
    lemma_component_safe(file_unique_id, f, 40);
    let base = stem + seq!['_'] + unique;
    assert(all_safe(base)) by {
        assert forall|i: int| 0 <= i < base.len() implies is_safe_char(#[trigger] base[i]) by {
            if i < stem.len() {
                assert(base[i] == stem[i]);
            } else if i == stem.len() {
                assert(base[i] == '_');
            } else {
                assert(base[i] == unique[i - stem.len() - 1]);
            }
        }
    }
    match spec_chosen_extension(file_name, remote_path, kind) {
        Some(e) => {
            let from_name = match file_name {
                Some(n) => spec_file_extension(n),
                None => None,
            };
            let from_remote = match spec_file_name_from_path(remote_path) {
                Some(n) => spec_file_extension(n),
                None => None,
            };
            let raw = if from_name is Some {
                from_name
            } else if from_remote is Some {
                from_remote
            } else {
                default_attachment_extension(kind)
            };
            lemma_extension_safe(raw.unwrap());
            let full = base + seq!['.'] + e;
            assert forall|i: int| 0 <= i < full.len() implies is_safe_char(#[trigger] full[i]) by {
                if i < base.len() {
                    assert(full[i] == base[i]);
                } else if i == base.len() {
                    assert(full[i] == '.');
                } else {
                    assert(full[i] == e[i - base.len() - 1]);
                }
            }
        },
        None => {},
    }
}

// ---------------------------------------------------------------------------
// Download limits
// ---------------------------------------------------------------------------

pub fn validate_download_limit(max_bytes: usize) -> (r: Result<(), String>)
    ensures
        max_bytes == 0 <==> r is Err,
        r matches Err(e) ==> e@ == "telegram attachment download limit must be greater than zero"@,
{
    if max_bytes == 0 {
        return Err(str_of("telegram attachment download limit must be greater than zero"));
    }
    Ok(())
}

/// Refuses a file whose reported size is negative, does not fit in `usize`,
/// or is above the limit.
pub fn ensure_within_limit(file_size: Option<i64>, max_bytes: usize, file_id: &str) -> (r: Result<
    (),
    String,
>)
    ensures
        match file_size {
            None => r is Ok,
            Some(size) => if size < 0 || size > usize::MAX {
                r matches Err(e) && e@ == "telegram file "@ + file_id@
                    + " returned invalid negative size"@
            } else if size > max_bytes {
                r matches Err(e) && e@ == "telegram file "@ + file_id@ + " exceeds download limit of "@
                    + crate::text::dec(max_bytes as nat) + " bytes"@
            } else {
                r is Ok
            },
        },
{
    let size = match file_size {
        None => {
            return Ok(());
        },
        Some(size) => size,
    };
    if size < 0 || size as u64 > usize::MAX as u64 {
        let mut e = str_of("telegram file ");
        e.append(file_id);
        e.append(" returned invalid negative size");
        return Err(e);
    }
    if size as u64 > max_bytes as u64 {
        let mut e = str_of("telegram file ");
        e.append(file_id);
        e.append(" exceeds download limit of ");
        let n = u64_string(max_bytes as u64);
        e.append(n.as_str());
        e.append(" bytes");
        return Err(e);
    }
    Ok(())
}

} // verus!
