//! Character-level text handling shared by the command parsers and the
//! message formatters: Unicode whitespace, ASCII case mapping, trimming,
//! whitespace splitting, decimal rendering and integer parsing.
use vstd::prelude::*;

verus! {

// ---------------------------------------------------------------------------
// Character classes
// ---------------------------------------------------------------------------

/// The Unicode `White_Space` property, which `char::is_whitespace` follows.
pub open spec fn is_ws(c: char) -> bool {
    let u = c as u32;
    ||| 0x09 <= u && u <= 0x0d
    ||| u == 0x20
    ||| u == 0x85
    ||| u == 0xa0
    ||| u == 0x1680
    ||| 0x2000 <= u && u <= 0x200a
    ||| u == 0x2028
    ||| u == 0x2029
    ||| u == 0x202f
    ||| u == 0x205f
    ||| u == 0x3000
}

/// The Unicode general category `Cc`, which `char::is_control` follows.
pub open spec fn is_ctrl(c: char) -> bool {
    let u = c as u32;
    u <= 0x1f || (0x7f <= u && u <= 0x9f)
}

pub open spec fn is_ascii_digit(c: char) -> bool {
    '0' <= c && c <= '9'
}

pub open spec fn is_ascii_upper(c: char) -> bool {
    'A' <= c && c <= 'Z'
}

pub open spec fn is_ascii_lower(c: char) -> bool {
    'a' <= c && c <= 'z'
}

pub open spec fn is_ascii_alnum(c: char) -> bool {
    is_ascii_digit(c) || is_ascii_upper(c) || is_ascii_lower(c)
}

pub open spec fn ascii_lower(c: char) -> char {
    if is_ascii_upper(c) {
        ((c as u32) + 32) as char
    } else {
        c
    }
}

pub open spec fn ascii_upper(c: char) -> char {
    if is_ascii_lower(c) {
        ((c as u32) - 32) as char
    } else {
        c
    }
}

pub open spec fn lower_seq(s: Seq<char>) -> Seq<char> {
    s.map_values(|c: char| ascii_lower(c))
}

pub open spec fn upper_seq(s: Seq<char>) -> Seq<char> {
    s.map_values(|c: char| ascii_upper(c))
}

/// `str::eq_ignore_ascii_case`.
pub open spec fn eq_ignore_case(a: Seq<char>, b: Seq<char>) -> bool {
    lower_seq(a) == lower_seq(b)
}

pub fn char_is_ws(c: char) -> (b: bool)
    ensures
        b == is_ws(c),
{
    let u = c as u32;
    (0x09 <= u && u <= 0x0d) || u == 0x20 || u == 0x85 || u == 0xa0 || u == 0x1680 || (0x2000
        <= u && u <= 0x200a) || u == 0x2028 || u == 0x2029 || u == 0x202f || u == 0x205f || u
        == 0x3000
}

pub fn char_is_ctrl(c: char) -> (b: bool)
    ensures
        b == is_ctrl(c),
{
    let u = c as u32;
    u <= 0x1f || (0x7f <= u && u <= 0x9f)
}

pub fn char_is_digit(c: char) -> (b: bool)
    ensures
        b == is_ascii_digit(c),
{
    '0' <= c && c <= '9'
}

pub fn char_is_alnum(c: char) -> (b: bool)
    ensures
        b == is_ascii_alnum(c),
{
    ('0' <= c && c <= '9') || ('A' <= c && c <= 'Z') || ('a' <= c && c <= 'z')
}

pub fn char_to_lower(c: char) -> (r: char)
    ensures
        r == ascii_lower(c),
{
    if 'A' <= c && c <= 'Z' {
        let u: u8 = (c as u32 + 32) as u8;
        u as char
    } else {
        c
    }
}

pub fn char_to_upper(c: char) -> (r: char)
    ensures
        r == ascii_upper(c),
{
    if 'a' <= c && c <= 'z' {
        let u: u8 = (c as u32 - 32) as u8;
        u as char
    } else {
        c
    }
}


// ---------------------------------------------------------------------------
// Conversions between `str`, `String` and `Vec<char>`
// ---------------------------------------------------------------------------

pub fn chars_of(s: &str) -> (out: Vec<char>)
    ensures
        out@ == s@,
{
    let mut out: Vec<char> = Vec::new();
    for c in it: s.chars()
        invariant
            out@ == it.seq().take(it.index() as int),
            it.seq() == s@,
    {
        out.push(c);
    }
    out
}

/// Builds a `String` from characters (`String: FromIterator<&char>`).
#[verifier::external_body]
pub(crate) fn string_of(v: &[char]) -> (s: String)
    ensures
        s@ == v@,
{
    v.iter().collect()
}

/// Appends characters to a `String` (`Extend<&char> for String`).
#[verifier::external_body]
pub(crate) fn push_chars(s: &mut String, v: &[char])
    ensures
        final(s)@ == old(s)@ + v@,
{
    s.extend(v.iter())
}

pub fn str_of(s: &str) -> (r: String)
    ensures
        r@ == s@,
{
    let mut r = String::new();
    r.append(s);
    r
}

pub fn seq_eq(a: &Vec<char>, b: &Vec<char>) -> (r: bool)
    ensures
        r == (a@ == b@),
{
    if a.len() != b.len() {
        return false;
    }
    let mut i: usize = 0;
    while i < a.len()
        invariant
            a.len() == b.len(),
            i <= a.len(),
            forall|k: int| 0 <= k < i ==> a@[k] == b@[k],
        decreases a.len() - i,
    {
        if a[i] != b[i] {
            return false;
        }
        i = i + 1;
    }
    assert(a@ =~= b@);
    true
}

pub fn eq_str(a: &Vec<char>, lit: &str) -> (r: bool)
    ensures
        r == (a@ == lit@),
{
    let b = chars_of(lit);
    seq_eq(a, &b)
}

pub fn string_eq(a: &str, b: &str) -> (r: bool)
    ensures
        r == (a@ == b@),
{
    let x = chars_of(a);
    let y = chars_of(b);
    seq_eq(&x, &y)
}

pub fn subvec(v: &Vec<char>, a: usize, b: usize) -> (r: Vec<char>)
    requires
        a <= b <= v.len(),
    ensures
        r@ == v@.subrange(a as int, b as int),
{
    let mut r: Vec<char> = Vec::new();
    let mut i = a;
    while i < b
        invariant
            a <= i <= b <= v.len(),
            r@ == v@.subrange(a as int, i as int),
        decreases b - i,
    {
        r.push(v[i]);
        i = i + 1;
    }
    r
}

pub fn concat_vec(a: &Vec<char>, b: &Vec<char>) -> (r: Vec<char>)
    ensures
        r@ == a@ + b@,
{
    let mut r = a.clone();
    let mut i: usize = 0;
    while i < b.len()
        invariant
            i <= b.len(),
            r@ == a@ + b@.take(i as int),
        decreases b.len() - i,
    {
        r.push(b[i]);
        i = i + 1;
        assert(b@.take(i as int) =~= b@.take((i - 1) as int).push(b@[i - 1]));
    }
    assert(b@.take(b.len() as int) =~= b@);
    r
}

pub fn starts_with(v: &Vec<char>, prefix: &Vec<char>) -> (r: bool)
    ensures
        r == (prefix@.len() <= v@.len() && v@.take(prefix@.len() as int) == prefix@),
{
    if prefix.len() > v.len() {
        return false;
    }
    let mut i: usize = 0;
    while i < prefix.len()
        invariant
            prefix.len() <= v.len(),
            i <= prefix.len(),
            forall|k: int| 0 <= k < i ==> v@[k] == prefix@[k],
        decreases prefix.len() - i,
    {
        if v[i] != prefix[i] {
            assert(v@.take(prefix@.len() as int)[i as int] != prefix@[i as int]);
            return false;
        }
        i = i + 1;
    }
    assert(v@.take(prefix@.len() as int) =~= prefix@);
    true
}

pub fn starts_with_str(v: &Vec<char>, prefix: &str) -> (r: bool)
    ensures
        r == (prefix@.len() <= v@.len() && v@.take(prefix@.len() as int) == prefix@),
{
    let p = chars_of(prefix);
    starts_with(v, &p)
}

/// Index of the first occurrence of `c`.
pub open spec fn first_index_of(s: Seq<char>, c: char) -> Option<int> {
    if s.contains(c) {
        Some(choose|i: int| 0 <= i < s.len() && s[i] == c && forall|k: int| 0 <= k < i ==> s[k] != c)
    } else {
        None
    }
}

pub fn find_char(v: &Vec<char>, c: char) -> (r: Option<usize>)
    ensures
        match r {
            Some(i) => i < v@.len() && v@[i as int] == c && forall|k: int| 0 <= k < i ==> v@[k] != c,
            None => !v@.contains(c),
        },
{
    let mut i: usize = 0;
    while i < v.len()
        invariant
            i <= v.len(),
            forall|k: int| 0 <= k < i ==> v@[k] != c,
        decreases v.len() - i,
    {
        if v[i] == c {
            return Some(i);
        }
        i = i + 1;
    }
    None
}

pub fn contains_char(v: &Vec<char>, c: char) -> (r: bool)
    ensures
        r == v@.contains(c),
{
    match find_char(v, c) {
        Some(i) => {
            assert(v@[i as int] == c);
            true
        },
        None => false,
    }
}

// ---------------------------------------------------------------------------
// ASCII case mapping
// ---------------------------------------------------------------------------

pub fn to_lower_vec(v: &Vec<char>) -> (r: Vec<char>)
    ensures
        r@ == lower_seq(v@),
{
    let mut r: Vec<char> = Vec::new();
    let mut i: usize = 0;
    while i < v.len()
        invariant
            i <= v.len(),
            r@ =~= lower_seq(v@.take(i as int)),
        decreases v.len() - i,
    {
        r.push(char_to_lower(v[i]));
        i = i + 1;
        assert(v@.take(i as int) =~= v@.take((i - 1) as int).push(v@[i - 1]));
    }
    assert(v@.take(v.len() as int) =~= v@);
    r
}

pub fn to_upper_vec(v: &Vec<char>) -> (r: Vec<char>)
    ensures
        r@ == upper_seq(v@),
{
    let mut r: Vec<char> = Vec::new();
    let mut i: usize = 0;
    while i < v.len()
        invariant
            i <= v.len(),
            r@ =~= upper_seq(v@.take(i as int)),
        decreases v.len() - i,
    {
        r.push(char_to_upper(v[i]));
        i = i + 1;
        assert(v@.take(i as int) =~= v@.take((i - 1) as int).push(v@[i - 1]));
    }
    assert(v@.take(v.len() as int) =~= v@);
    r
}

pub fn eq_ignore_case_vec(a: &Vec<char>, b: &Vec<char>) -> (r: bool)
    ensures
        r == eq_ignore_case(a@, b@),
{
    let la = to_lower_vec(a);
    let lb = to_lower_vec(b);
    seq_eq(&la, &lb)
}

pub fn eq_ignore_case_str(a: &Vec<char>, lit: &str) -> (r: bool)
    ensures
        r == eq_ignore_case(a@, lit@),
{
    let b = chars_of(lit);
    eq_ignore_case_vec(a, &b)
}


// ---------------------------------------------------------------------------
// Trimming
// ---------------------------------------------------------------------------

pub open spec fn ws_pred() -> spec_fn(char) -> bool {
    |c: char| is_ws(c)
}

pub open spec fn non_ws_pred() -> spec_fn(char) -> bool {
    |c: char| !is_ws(c)
}

pub open spec fn set_pred(set: Seq<char>) -> spec_fn(char) -> bool {
    |c: char| set.contains(c)
}

/// First index at or after `i` whose character does not satisfy `p`.
pub open spec fn skip_from(s: Seq<char>, i: int, p: spec_fn(char) -> bool) -> int
    decreases s.len() - i,
{
    if 0 <= i < s.len() && p(s[i]) {
        skip_from(s, i + 1, p)
    } else {
        i
    }
}

/// Last cut point at or before `j` such that the character before it does not satisfy `p`.
pub open spec fn back_to(s: Seq<char>, j: int, p: spec_fn(char) -> bool) -> int
    decreases j,
{
    if 0 < j <= s.len() && p(s[j - 1]) {
        back_to(s, j - 1, p)
    } else {
        j
    }
}

pub open spec fn trim_start_by(s: Seq<char>, p: spec_fn(char) -> bool) -> Seq<char> {
    s.skip(skip_from(s, 0, p))
}

pub open spec fn trim_end_by(s: Seq<char>, p: spec_fn(char) -> bool) -> Seq<char> {
    s.take(back_to(s, s.len() as int, p))
}

/// `str::trim_matches` with a character predicate.
pub open spec fn trim_by(s: Seq<char>, p: spec_fn(char) -> bool) -> Seq<char> {
    trim_end_by(trim_start_by(s, p), p)
}

/// `str::trim`.
pub open spec fn trim(s: Seq<char>) -> Seq<char> {
    trim_by(s, ws_pred())
}

/// Skipping from `i` stops within the text, after characters that satisfy
/// `p`, at one that does not (or at the end).
pub proof fn lemma_skip_from_bounds(s: Seq<char>, i: int, p: spec_fn(char) -> bool)
    requires
        0 <= i <= s.len(),
    ensures
        i <= skip_from(s, i, p) <= s.len(),
        forall|k: int| i <= k < skip_from(s, i, p) ==> #[trigger] p(s[k]),
        skip_from(s, i, p) < s.len() ==> !p(s[skip_from(s, i, p)]),
    decreases s.len() - i,
{
    if i < s.len() && p(s[i]) {
        lemma_skip_from_bounds(s, i + 1, p);
    }
}

/// Backing up from `j` stops within the text, before characters that
/// satisfy `p`, after one that does not (or at the start).
pub proof fn lemma_back_to_bounds(s: Seq<char>, j: int, p: spec_fn(char) -> bool)
    requires
        0 <= j <= s.len(),
    ensures
        0 <= back_to(s, j, p) <= j,
        forall|k: int| back_to(s, j, p) <= k < j ==> #[trigger] p(s[k]),
        back_to(s, j, p) > 0 ==> !p(s[back_to(s, j, p) - 1]),
    decreases j,
{
    if j > 0 && p(s[j - 1]) {
        lemma_back_to_bounds(s, j - 1, p);
    }
}

pub fn skip_ws_index(v: &Vec<char>, start: usize) -> (i: usize)
    requires
        start <= v.len(),
    ensures
        i == skip_from(v@, start as int, ws_pred()),
        start <= i <= v.len(),
        i < v.len() ==> !is_ws(v@[i as int]),
{
    proof {
        lemma_skip_from_bounds(v@, start as int, ws_pred());
    }
    let mut i = start;
    while i < v.len() && char_is_ws(v[i])
        invariant
            start <= i <= v.len(),
            skip_from(v@, i as int, ws_pred()) == skip_from(v@, start as int, ws_pred()),
        decreases v.len() - i,
    {
        i = i + 1;
    }
    i
}

pub fn skip_non_ws_index(v: &Vec<char>, start: usize) -> (i: usize)
    requires
        start <= v.len(),
    ensures
        i == skip_from(v@, start as int, non_ws_pred()),
        start <= i <= v.len(),
{
    proof {
        lemma_skip_from_bounds(v@, start as int, non_ws_pred());
    }
    let mut i = start;
    while i < v.len() && !char_is_ws(v[i])
        invariant
            start <= i <= v.len(),
            skip_from(v@, i as int, non_ws_pred()) == skip_from(v@, start as int, non_ws_pred()),
        decreases v.len() - i,
    {
        i = i + 1;
    }
    i
}

fn back_ws_index(v: &Vec<char>) -> (j: usize)
    ensures
        j == back_to(v@, v@.len() as int, ws_pred()),
        j <= v.len(),
{
    proof {
        lemma_back_to_bounds(v@, v@.len() as int, ws_pred());
    }
    let mut j = v.len();
    while j > 0 && char_is_ws(v[j - 1])
        invariant
            j <= v.len(),
            back_to(v@, j as int, ws_pred()) == back_to(v@, v@.len() as int, ws_pred()),
        decreases j,
    {
        j = j - 1;
    }
    j
}

fn skip_set_index(v: &Vec<char>, set: &Vec<char>) -> (i: usize)
    ensures
        i == skip_from(v@, 0, set_pred(set@)),
        i <= v.len(),
{
    proof {
        lemma_skip_from_bounds(v@, 0, set_pred(set@));
    }
    let mut i: usize = 0;
    while i < v.len() && contains_char(set, v[i])
        invariant
            i <= v.len(),
            skip_from(v@, i as int, set_pred(set@)) == skip_from(v@, 0, set_pred(set@)),
        decreases v.len() - i,
    {
        i = i + 1;
    }
    i
}

fn back_set_index(v: &Vec<char>, set: &Vec<char>) -> (j: usize)
    ensures
        j == back_to(v@, v@.len() as int, set_pred(set@)),
        j <= v.len(),
{
    proof {
        lemma_back_to_bounds(v@, v@.len() as int, set_pred(set@));
    }
    let mut j = v.len();
    while j > 0 && contains_char(set, v[j - 1])
        invariant
            j <= v.len(),
            back_to(v@, j as int, set_pred(set@)) == back_to(v@, v@.len() as int, set_pred(set@)),
        decreases j,
    {
        j = j - 1;
    }
    j
}

pub open spec fn not_in_pred(set: Seq<char>) -> spec_fn(char) -> bool {
    |c: char| !set.contains(c)
}

/// Index of the first character that belongs to `set`, or the length.
pub fn skip_not_in_set_index(v: &Vec<char>, set: &Vec<char>) -> (i: usize)
    ensures
        i == skip_from(v@, 0, not_in_pred(set@)),
        i <= v.len(),
{
    proof {
        lemma_skip_from_bounds(v@, 0, not_in_pred(set@));
    }
    let mut i: usize = 0;
    while i < v.len() && !contains_char(set, v[i])
        invariant
            i <= v.len(),
            skip_from(v@, i as int, not_in_pred(set@)) == skip_from(v@, 0, not_in_pred(set@)),
        decreases v.len() - i,
    {
        i = i + 1;
    }
    i
}

/// The cut just after the last character that belongs to `set`, or zero.
pub fn back_not_in_set_index(v: &Vec<char>, set: &Vec<char>) -> (j: usize)
    ensures
        j == back_to(v@, v@.len() as int, not_in_pred(set@)),
        j <= v.len(),
{
    proof {
        lemma_back_to_bounds(v@, v@.len() as int, not_in_pred(set@));
    }
    let mut j = v.len();
    while j > 0 && !contains_char(set, v[j - 1])
        invariant
            j <= v.len(),
            back_to(v@, j as int, not_in_pred(set@)) == back_to(
                v@,
                v@.len() as int,
                not_in_pred(set@),
            ),
        decreases j,
    {
        j = j - 1;
    }
    j
}

/// `str::trim` on characters.
pub fn trim_ws(v: &Vec<char>) -> (r: Vec<char>)
    ensures
        r@ == trim(v@),
{
    let a = skip_ws_index(v, 0);
    let t = subvec(v, a, v.len());
    assert(t@ =~= trim_start_by(v@, ws_pred()));
    let b = back_ws_index(&t);
    let r = subvec(&t, 0, b);
    assert(r@ =~= trim(v@));
    r
}

pub fn trim_str(s: &str) -> (r: Vec<char>)
    ensures
        r@ == trim(s@),
{
    let v = chars_of(s);
    trim_ws(&v)
}

/// `str::trim_matches` with a set of characters.
pub fn trim_set(v: &Vec<char>, set: &Vec<char>) -> (r: Vec<char>)
    ensures
        r@ == trim_by(v@, set_pred(set@)),
{
    let a = skip_set_index(v, set);
    let t = subvec(v, a, v.len());
    assert(t@ =~= trim_start_by(v@, set_pred(set@)));
    let b = back_set_index(&t, set);
    let r = subvec(&t, 0, b);
    assert(r@ =~= trim_by(v@, set_pred(set@)));
    r
}

/// `str::trim_end_matches` with a set of characters.
pub fn trim_end_set(v: &Vec<char>, set: &Vec<char>) -> (r: Vec<char>)
    ensures
        r@ == trim_end_by(v@, set_pred(set@)),
{
    let b = back_set_index(v, set);
    subvec(v, 0, b)
}

pub fn is_blank(v: &Vec<char>) -> (r: bool)
    ensures
        r == (trim(v@).len() == 0),
{
    let t = trim_ws(v);
    t.len() == 0
}

pub fn str_is_blank(s: &str) -> (r: bool)
    ensures
        r == (trim(s@).len() == 0),
{
    let t = trim_str(s);
    t.len() == 0
}

// ---------------------------------------------------------------------------
// Splitting on whitespace
// ---------------------------------------------------------------------------

/// The words of `s` at or after position `pos` (`str::split_whitespace`).
pub open spec fn words_from(s: Seq<char>, pos: int) -> Seq<Seq<char>>
    decreases s.len() - pos,
{
    if 0 <= pos <= s.len() {
        let a = skip_from(s, pos, ws_pred());
        if a >= s.len() {
            Seq::<Seq<char>>::empty()
        } else {
            let e = skip_from(s, a, non_ws_pred());
            proof {
                lemma_skip_from_bounds(s, pos, ws_pred());
                lemma_skip_from_bounds(s, a, non_ws_pred());
            }
            if e > pos {
                seq![s.subrange(a, e)] + words_from(s, e)
            } else {
                Seq::<Seq<char>>::empty()
            }
        }
    } else {
        Seq::<Seq<char>>::empty()
    }
}

pub open spec fn words(s: Seq<char>) -> Seq<Seq<char>> {
    words_from(s, 0)
}

pub open spec fn views(v: Seq<Vec<char>>) -> Seq<Seq<char>> {
    v.map_values(|w: Vec<char>| w@)
}

pub fn split_ws(v: &Vec<char>) -> (out: Vec<Vec<char>>)
    ensures
        views(out@) == words(v@),
{
    let mut out: Vec<Vec<char>> = Vec::new();
    let mut pos: usize = 0;
    while pos < v.len()
        invariant
            pos <= v.len(),
            words(v@) == views(out@) + words_from(v@, pos as int),
        decreases v.len() - pos,
    {
        let a = skip_ws_index(v, pos);
        if a >= v.len() {
            proof {
                assert(words_from(v@, pos as int) =~= Seq::<Seq<char>>::empty());
                assert(views(out@) + Seq::<Seq<char>>::empty() =~= views(out@));
                assert(words_from(v@, v@.len() as int) =~= Seq::<Seq<char>>::empty());
            }
            pos = v.len();
            continue;
        }
        let e = skip_non_ws_index(v, a);
        proof {
            lemma_skip_from_bounds(v@, a as int, non_ws_pred());
            assert(non_ws_pred()(v@[a as int]));
            assert(e > a);
        }
        let w = subvec(v, a, e);
        let ghost old_out = out@;
        out.push(w);
        proof {
            assert(words_from(v@, pos as int) == seq![v@.subrange(a as int, e as int)] + words_from(
                v@,
                e as int,
            ));
            assert(views(out@) =~= views(old_out) + seq![w@]);
            assert(views(old_out) + (seq![w@] + words_from(v@, e as int)) =~= views(out@)
                + words_from(v@, e as int));
        }
        pos = e;
    }
    proof {
        assert(words_from(v@, pos as int) =~= Seq::<Seq<char>>::empty());
        assert(views(out@) + Seq::<Seq<char>>::empty() =~= views(out@));
    }
    out
}


/// Each character vector as a `String`.
pub fn strings_of(parts: &Vec<Vec<char>>) -> (r: Vec<String>)
    ensures
        str_views(r@) == views(parts@),
{
    let mut r: Vec<String> = Vec::new();
    let mut i: usize = 0;
    while i < parts.len()
        invariant
            i <= parts.len(),
            str_views(r@) =~= views(parts@).take(i as int),
        decreases parts.len() - i,
    {
        let ghost before = r@;
        r.push(string_of(parts[i].as_slice()));
        assert(str_views(r@) =~= str_views(before).push(parts@[i as int]@));
        i = i + 1;
    }
    r
}

// ---------------------------------------------------------------------------
// Decimal numbers
// ---------------------------------------------------------------------------

pub open spec fn digit_char(d: int) -> char {
    ((d + 48) as u8) as char
}

/// Decimal digits of a natural number, as `u64::to_string` renders them.
pub open spec fn dec(n: nat) -> Seq<char>
    decreases n,
{
    if n < 10 {
        seq![digit_char(n as int)]
    } else {
        dec(n / 10).push(digit_char((n % 10) as int))
    }
}

/// Decimal rendering of an integer, as `i64::to_string` renders it.
pub open spec fn int_str(i: int) -> Seq<char> {
    if i < 0 {
        seq!['-'] + dec((-i) as nat)
    } else {
        dec(i as nat)
    }
}

pub fn u64_chars(n: u64) -> (r: Vec<char>)
    ensures
        r@ == dec(n as nat),
    decreases n,
{
    let d: u8 = (n % 10) as u8;
    let c: char = (d + 48) as char;
    if n < 10 {
        let mut r: Vec<char> = Vec::new();
        r.push(c);
        r
    } else {
        let mut r = u64_chars(n / 10);
        r.push(c);
        r
    }
}

pub fn i64_chars(n: i64) -> (r: Vec<char>)
    ensures
        r@ == int_str(n as int),
{
    if n < 0 {
        let m: u64 = (0i128 - (n as i128)) as u64;
        let digits = u64_chars(m);
        let mut r: Vec<char> = Vec::new();
        r.push('-');
        let r2 = concat_vec(&r, &digits);
        r2
    } else {
        u64_chars(n as u64)
    }
}

pub fn u64_string(n: u64) -> (r: String)
    ensures
        r@ == dec(n as nat),
{
    let v = u64_chars(n);
    string_of(v.as_slice())
}

pub fn i64_string(n: i64) -> (r: String)
    ensures
        r@ == int_str(n as int),
{
    let v = i64_chars(n);
    string_of(v.as_slice())
}

pub open spec fn digit_value(c: char) -> int {
    (c as u32) - 48
}

pub open spec fn digits_value(s: Seq<char>) -> int
    decreases s.len(),
{
    if s.len() == 0 {
        0
    } else {
        digits_value(s.drop_last()) * 10 + digit_value(s.last())
    }
}

pub open spec fn all_digits(s: Seq<char>) -> bool {
    forall|i: int| 0 <= i < s.len() ==> is_ascii_digit(#[trigger] s[i])
}

/// `i64::from_str`: an optional sign, then one or more ASCII digits, in range.
pub open spec fn parsed_i64(s: Seq<char>) -> Option<i64> {
    let neg = s.len() > 0 && s[0] == '-';
    let body = if s.len() > 0 && (s[0] == '-' || s[0] == '+') {
        s.drop_first()
    } else {
        s
    };
    if body.len() > 0 && all_digits(body) {
        let v = if neg {
            -digits_value(body)
        } else {
            digits_value(body)
        };
        if i64::MIN <= v <= i64::MAX {
            Some(v as i64)
        } else {
            None
        }
    } else {
        None
    }
}

/// `u64::from_str`: an optional `+`, then one or more ASCII digits, in range.
pub open spec fn parsed_u64(s: Seq<char>) -> Option<u64> {
    let body = if s.len() > 0 && s[0] == '+' {
        s.drop_first()
    } else {
        s
    };
    if body.len() > 0 && all_digits(body) && digits_value(body) <= u64::MAX {
        Some(digits_value(body) as u64)
    } else {
        None
    }
}

pub open spec fn parse_cap() -> int {
    0x1_0000_0000_0000_0000
}

fn digits_value_capped(body: &Vec<char>) -> (r: Option<u128>)
    ensures
        r is Some <==> (all_digits(body@) && digits_value(body@) <= parse_cap()),
        r matches Some(v) ==> v == digits_value(body@),
{
    let mut acc: u128 = 0;
    let mut big = false;
    let mut i: usize = 0;
    while i < body.len()
        invariant
            i <= body.len(),
            all_digits(body@.take(i as int)),
            !big ==> acc == digits_value(body@.take(i as int)) && acc <= parse_cap(),
            big ==> digits_value(body@.take(i as int)) > parse_cap(),
        decreases body.len() - i,
    {
        let c = body[i];
        if !char_is_digit(c) {
            assert(!all_digits(body@)) by {
                assert(!is_ascii_digit(body@[i as int]));
            }
            return None;
        }
        let d: u128 = (c as u32 - 48) as u128;
        proof {
            assert(body@.take(i + 1).drop_last() =~= body@.take(i as int));
            assert(body@.take(i + 1).last() == c);
        }
        if !big {
            let next = acc * 10 + d;
            if next > 0x1_0000_0000_0000_0000 {
                big = true;
            } else {
                acc = next;
            }
        } else {
            proof {
                assert(digits_value(body@.take(i + 1)) == digits_value(body@.take(i as int)) * 10
                    + digit_value(c));
            }
        }
        i = i + 1;
        assert(all_digits(body@.take(i as int))) by {
            assert forall|k: int| 0 <= k < i implies is_ascii_digit(#[trigger] body@.take(i as int)[k]) by {
                if k < i - 1 {
                    assert(body@.take(i as int)[k] == body@.take(i - 1)[k]);
                }
            }
        }
    }
    assert(body@.take(body.len() as int) =~= body@);
    if big {
        None
    } else {
        Some(acc)
    }
}

pub fn parse_i64(v: &Vec<char>) -> (r: Option<i64>)
    ensures
        r == parsed_i64(v@),
{
    let neg = v.len() > 0 && v[0] == '-';
    let body = if v.len() > 0 && (v[0] == '-' || v[0] == '+') {
        subvec(v, 1, v.len())
    } else {
        subvec(v, 0, v.len())
    };
    assert(body@ =~= (if v@.len() > 0 && (v@[0] == '-' || v@[0] == '+') {
        v@.drop_first()
    } else {
        v@
    }));
    if body.len() == 0 {
        return None;
    }
    match digits_value_capped(&body) {
        None => None,
        Some(x) => {
            if neg {
                if x > 0x8000_0000_0000_0000 {
                    None
                } else {
                    Some((0i128 - (x as i128)) as i64)
                }
            } else {
                if x > 0x7fff_ffff_ffff_ffff {
                    None
                } else {
                    Some(x as i64)
                }
            }
        },
    }
}

pub fn parse_u64(v: &Vec<char>) -> (r: Option<u64>)
    ensures
        r == parsed_u64(v@),
{
    let body = if v.len() > 0 && v[0] == '+' {
        subvec(v, 1, v.len())
    } else {
        subvec(v, 0, v.len())
    };
    assert(body@ =~= (if v@.len() > 0 && v@[0] == '+' {
        v@.drop_first()
    } else {
        v@
    }));
    if body.len() == 0 {
        return None;
    }
    match digits_value_capped(&body) {
        None => None,
        Some(x) => {
            if x > 0xffff_ffff_ffff_ffff {
                None
            } else {
                Some(x as u64)
            }
        },
    }
}


// ---------------------------------------------------------------------------
// Joining
// ---------------------------------------------------------------------------

pub open spec fn str_views(v: Seq<String>) -> Seq<Seq<char>> {
    v.map_values(|s: String| s@)
}

/// `[String]::join`.
pub open spec fn join(parts: Seq<Seq<char>>, sep: Seq<char>) -> Seq<char>
    decreases parts.len(),
{
    if parts.len() == 0 {
        Seq::<char>::empty()
    } else if parts.len() == 1 {
        parts[0]
    } else {
        join(parts.drop_last(), sep) + sep + parts.last()
    }
}

pub fn join_strings(parts: &Vec<String>, sep: &str) -> (r: String)
    ensures
        r@ == join(str_views(parts@), sep@),
{
    let ghost ps = str_views(parts@);
    let mut r = String::new();
    let mut i: usize = 0;
    while i < parts.len()
        invariant
            i <= parts.len(),
            ps == str_views(parts@),
            r@ == join(ps.take(i as int), sep@),
        decreases parts.len() - i,
    {
        proof {
            assert(ps.take(i + 1).drop_last() =~= ps.take(i as int));
            assert(ps.take(i + 1).last() == parts@[i as int]@);
        }
        if i > 0 {
            r.append(sep);
        } else {
            assert(ps.take(1)[0] == parts@[0]@);
        }
        r.append(parts[i].as_str());
        i = i + 1;
    }
    assert(ps.take(parts.len() as int) =~= ps);
    r
}


// ---------------------------------------------------------------------------
// Splitting at a character
// ---------------------------------------------------------------------------

/// `str::split_once` with a character: the text before and after its first occurrence.
pub open spec fn split_once(s: Seq<char>, c: char) -> Option<(Seq<char>, Seq<char>)> {
    if s.contains(c) {
        let i = first_index_of(s, c).unwrap();
        Some((s.take(i), s.skip(i + 1)))
    } else {
        None
    }
}

/// The first occurrence of `c` is the one with none before it.
pub proof fn lemma_first_index_of(s: Seq<char>, c: char, i: int)
    requires
        0 <= i < s.len(),
        s[i] == c,
        forall|k: int| 0 <= k < i ==> s[k] != c,
    ensures
        s.contains(c),
        first_index_of(s, c) == Some(i),
{
    assert(s.contains(c)) by {
        assert(s[i] == c);
    }
    let j = first_index_of(s, c).unwrap();
    assert(0 <= j < s.len() && s[j] == c && forall|k: int| 0 <= k < j ==> s[k] != c);
    if j < i {
        assert(s[j] != c);
    }
    if i < j {
        assert(s[i] != c);
    }
}

pub fn split_once_char(v: &Vec<char>, c: char) -> (r: Option<(Vec<char>, Vec<char>)>)
    ensures
        match r {
            Some((a, b)) => split_once(v@, c) == Some((a@, b@)),
            None => split_once(v@, c) is None,
        },
{
    match find_char(v, c) {
        Some(i) => {
            proof {
                lemma_first_index_of(v@, c, i as int);
            }
            let a = subvec(v, 0, i);
            let b = subvec(v, i + 1, v.len());
            assert(a@ =~= v@.take(i as int));
            assert(b@ =~= v@.skip(i + 1));
            Some((a, b))
        },
        None => None,
    }
}


/// `str::split` with a character: every piece, empty ones included.
pub open spec fn split_all(s: Seq<char>, c: char) -> Seq<Seq<char>>
    decreases s.len(),
{
    if s.contains(c) {
        let i = first_index_of(s, c).unwrap();
        if 0 <= i < s.len() {
            seq![s.take(i)] + split_all(s.skip(i + 1), c)
        } else {
            seq![s]
        }
    } else {
        seq![s]
    }
}

pub fn split_char_all(v: &Vec<char>, c: char) -> (r: Vec<Vec<char>>)
    ensures
        views(r@) == split_all(v@, c),
{
    let mut out: Vec<Vec<char>> = Vec::new();
    let mut rest = subvec(v, 0, v.len());
    assert(rest@ =~= v@);
    loop
        invariant
            views(out@) + split_all(rest@, c) == split_all(v@, c),
        decreases rest.len(),
    {
        match find_char(&rest, c) {
            Some(i) => {
                proof {
                    lemma_first_index_of(rest@, c, i as int);
                }
                let a = subvec(&rest, 0, i);
                let b = subvec(&rest, i + 1, rest.len());
                assert(a@ =~= rest@.take(i as int));
                assert(b@ =~= rest@.skip(i + 1));
                let ghost before = out@;
                out.push(a);
                assert(views(out@) =~= views(before).push(a@));
                assert(views(out@) + split_all(b@, c) =~= views(before) + (seq![a@] + split_all(
                    b@,
                    c,
                )));
                rest = b;
            },
            None => {
                let ghost before = out@;
                let last = subvec(&rest, 0, rest.len());
                assert(last@ =~= rest@);
                out.push(last);
                assert(views(out@) =~= views(before) + seq![rest@]);
                return out;
            },
        }
    }
}

/// A text that neither starts nor ends with whitespace is its own trim.
pub proof fn lemma_trim_identity(s: Seq<char>)
    requires
        s.len() > 0,
        !is_ws(s[0]),
        !is_ws(s[s.len() - 1]),
    ensures
        trim(s) == s,
{
    assert(skip_from(s, 0, ws_pred()) == 0);
    assert(s.skip(0) =~= s);
    assert(back_to(s, s.len() as int, ws_pred()) == s.len());
    assert(s.take(s.len() as int) =~= s);
}

} // verus!
