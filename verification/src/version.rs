//! Dotted version numbers of the Codex app-server and the minimum the
//! bridge accepts.
use vstd::prelude::*;

use std::cmp::Ordering;

use crate::app_server::{
    prefix_before, read_codex_version_from_user_agent, spec_codex_version,
    MIN_CODEX_APP_SERVER_VERSION,
};
use crate::json::{jget_str, Json};
use crate::text::{chars_of, parse_u64, parsed_u64, split_once, split_once_char, str_of, subvec};

verus! {

/// The `n`-th dot-separated part of `v`, if it has one.
pub open spec fn dot_part(v: Seq<char>, n: nat) -> Option<Seq<char>>
    decreases n,
{
    if n == 0 {
        Some(prefix_before(v, seq!['.']))
    } else {
        match split_once(v, '.') {
            None => None,
            Some(parts) => dot_part(parts.1, (n - 1) as nat),
        }
    }
}

/// The number in the `n`-th part; a missing or malformed part counts as zero.
pub open spec fn part_number(v: Seq<char>, n: nat) -> u64 {
    match dot_part(v, n) {
        Some(p) => match parsed_u64(p) {
            Some(x) => x,
            None => 0,
        },
        None => 0,
    }
}

pub open spec fn version_key(v: Seq<char>) -> Seq<u64> {
    seq![part_number(v, 0), part_number(v, 1), part_number(v, 2)]
}

/// Lexicographic order on the first three parts.
pub open spec fn key_lt(a: Seq<u64>, b: Seq<u64>) -> bool {
    ||| a[0] < b[0]
    ||| a[0] == b[0] && a[1] < b[1]
    ||| a[0] == b[0] && a[1] == b[1] && a[2] < b[2]
}

fn part_value(part: &Vec<char>) -> (r: u64)
    ensures
        r == match parsed_u64(part@) {
            Some(x) => x,
            None => 0u64,
        },
{
    match parse_u64(part) {
        Some(x) => x,
        None => 0,
    }
}

/// The first three numbers of a dotted version.
pub fn numeric_version_parts(version: &str) -> (r: [u64; 3])
    ensures
        r@ == version_key(version@),
{
    let v = chars_of(version);
    let mut parts: [u64; 3] = [0, 0, 0];
    let mut rest = v;
    let mut index: usize = 0;
    while index < 3
        invariant
            index <= 3,
            forall|n: nat| #![auto]
                n < 3 - index ==> dot_part(rest@, n) == dot_part(version@, (n + index) as nat),
            forall|k: int| 0 <= k < index ==> parts@[k] == part_number(version@, k as nat),
            forall|k: int| index <= k < 3 ==> parts@[k] == 0,
        decreases 3 - index,
    {
        let dot = vec!['.'];
        let k = crate::text::skip_not_in_set_index(&rest, &dot);
        let head = subvec(&rest, 0, k);
        proof {
            assert(dot@ =~= seq!['.']);
            assert(dot_part(rest@, 0) == Some(head@));
        }
        parts[index] = part_value(&head);
        match split_once_char(&rest, '.') {
            Some((_, tail)) => {
                proof {
                    assert forall|n: nat| #![auto] n < 3 - (index + 1) implies dot_part(tail@, n)
                        == dot_part(version@, (n + index + 1) as nat) by {
                        assert(dot_part(rest@, n + 1) == dot_part(tail@, n));
                    }
                }
                rest = tail;
                index = index + 1;
            },
            None => {
                proof {
                    assert forall|k: int| index < k < 3 implies #[trigger] part_number(
                        version@,
                        k as nat,
                    ) == 0 by {
                        assert(dot_part(rest@, (k - index) as nat) is None);
                    }
                }
                assert(parts@ =~= version_key(version@));
                return parts;
            },
        }
    }
    assert(parts@ =~= version_key(version@));
    parts
}

/// Orders two dotted versions by their first three numbers.
pub fn compare_versions(left: &str, right: &str) -> (r: Ordering)
    ensures
        (r matches Ordering::Less) == key_lt(version_key(left@), version_key(right@)),
        (r matches Ordering::Equal) == (version_key(left@) == version_key(right@)),
        (r matches Ordering::Greater) == key_lt(version_key(right@), version_key(left@)),
{
    let a = numeric_version_parts(left);
    let b = numeric_version_parts(right);
    let mut i: usize = 0;
    while i < 3
        invariant
            i <= 3,
            a@ == version_key(left@),
            b@ == version_key(right@),
            forall|k: int| 0 <= k < i ==> a@[k] == b@[k],
        decreases 3 - i,
    {
        if a[i] < b[i] {
            return Ordering::Less;
        }
        if b[i] < a[i] {
            return Ordering::Greater;
        }
        i = i + 1;
    }
    assert(a@ =~= b@);
    Ordering::Equal
}

/// Versions are totally ordered by their first three numbers: no version
/// comes before itself, the order is transitive, and of two versions either
/// they compare equal or one comes first.
pub proof fn lemma_version_order(a: Seq<char>, b: Seq<char>, c: Seq<char>)
    ensures
        !key_lt(version_key(a), version_key(a)),
        key_lt(version_key(a), version_key(b)) && key_lt(version_key(b), version_key(c)) ==> key_lt(
            version_key(a),
            version_key(c),
        ),
        version_key(a) == version_key(b) || key_lt(version_key(a), version_key(b)) || key_lt(
            version_key(b),
            version_key(a),
        ),
        !(key_lt(version_key(a), version_key(b)) && key_lt(version_key(b), version_key(a))),
{
    let ka = version_key(a);
    let kb = version_key(b);
    if ka[0] == kb[0] && ka[1] == kb[1] && ka[2] == kb[2] {
        assert(ka =~= kb);
    }
}

pub open spec fn version_too_old(version: Seq<char>) -> bool {
    key_lt(version_key(version), version_key(MIN_CODEX_APP_SERVER_VERSION@))
}

/// Accepts an `initialize` reply whose user agent names Codex 0.118.0 or newer.
pub fn assert_supported_app_server_version(response: &Json) -> (r: Result<(), String>)
    ensures
        match jget_str(response@, "userAgent"@) {
            None => r matches Err(e) && e@
                == "Codex app-server 0.118.0 or newer is required, but remotty could not determine the running Codex version"@,
            Some(ua) => match spec_codex_version(ua) {
                None => r matches Err(e) && e@
                    == "Codex app-server 0.118.0 or newer is required, but remotty could not determine the running Codex version"@,
                Some(v) => if version_too_old(v) {
                    r matches Err(e) && e@
                        == "Codex app-server 0.118.0 or newer is required, but detected "@ + v
                } else {
                    r is Ok
                },
            },
        },
{
    let detected = match response.get_str("userAgent") {
        Some(ua) => read_codex_version_from_user_agent(ua.as_str()),
        None => None,
    };
    match detected {
        None => Err(
            str_of(
                "Codex app-server 0.118.0 or newer is required, but remotty could not determine the running Codex version",
            ),
        ),
        Some(v) => {
            match compare_versions(v.as_str(), MIN_CODEX_APP_SERVER_VERSION) {
                Ordering::Less => {
                    let mut e = str_of(
                        "Codex app-server 0.118.0 or newer is required, but detected ",
                    );
                    e.append(v.as_str());
                    Err(e)
                },
                _ => Ok(()),
            }
        },
    }
}

} // verus!
