//! Name-based identifiers: version 5 UUIDs in the URL namespace, in their
//! simple and hyphenated text forms.
use vstd::prelude::*;

use crate::text::{push_chars, str_of, string_of, subvec};

verus! {

/// The sixteen bytes of the version 5 UUID that `uuid` derives from `name`
/// in the URL namespace (a SHA-1 hash of the namespace and the name). It
/// depends on the name alone.
pub uninterp spec fn spec_uuid_v5_url(name: Seq<u8>) -> Seq<u8>;

/// `uuid::Uuid::new_v5(&Uuid::NAMESPACE_URL, name)`, as its bytes. The
/// contract names the result; the hash itself is not stated.
#[verifier::external_body]
fn uuid_v5_url(name: &[u8]) -> (r: [u8; 16])
    ensures
        r@ == spec_uuid_v5_url(name@),
{
    *uuid::Uuid::new_v5(&uuid::Uuid::NAMESPACE_URL, name).as_bytes()
}

pub open spec fn hex_lower(n: int) -> char {
    if n < 10 {
        ((n + 48) as u8) as char
    } else {
        ((n + 87) as u8) as char
    }
}

/// Two lower-case hexadecimal digits per byte, the most significant first.
pub open spec fn simple_hex(b: Seq<u8>) -> Seq<char>
    decreases b.len(),
{
    if b.len() == 0 {
        Seq::<char>::empty()
    } else {
        simple_hex(b.drop_last()) + seq![hex_lower((b.last() / 16) as int), hex_lower((b.last() % 16) as int)]
    }
}

/// Two digits per byte.
pub proof fn lemma_simple_hex_len(b: Seq<u8>)
    ensures
        simple_hex(b).len() == 2 * b.len(),
    decreases b.len(),
{
    if b.len() > 0 {
        lemma_simple_hex_len(b.drop_last());
    }
}

/// A lower-case hexadecimal digit or `-`: the characters of a UUID's text.
pub open spec fn is_uuid_char(c: char) -> bool {
    ('0' <= c && c <= '9') || ('a' <= c && c <= 'f') || c == '-'
}

/// Hexadecimal text holds only lower-case hexadecimal digits.
pub proof fn lemma_simple_hex_chars(b: Seq<u8>)
    ensures
        forall|i: int| 0 <= i < simple_hex(b).len() ==> is_uuid_char(#[trigger] simple_hex(b)[i]),
    decreases b.len(),
{
    lemma_simple_hex_len(b);
    if b.len() > 0 {
        lemma_simple_hex_chars(b.drop_last());
        lemma_simple_hex_len(b.drop_last());
        let hi = (b.last() / 16) as int;
        let lo = (b.last() % 16) as int;
        assert(is_uuid_char(hex_lower(hi)));
        assert(is_uuid_char(hex_lower(lo)));
        let prev = simple_hex(b.drop_last());
        assert forall|i: int| 0 <= i < simple_hex(b).len() implies is_uuid_char(
            #[trigger] simple_hex(b)[i],
        ) by {
            if i < prev.len() {
                assert(simple_hex(b)[i] == prev[i]);
            } else if i == prev.len() {
                assert(simple_hex(b)[i] == hex_lower(hi));
            } else {
                assert(simple_hex(b)[i] == hex_lower(lo));
            }
        }
    }
}

/// The text of a 16-byte UUID is 36 characters, hexadecimal digits and `-`.
pub proof fn lemma_hyphenated_hex_chars(b: Seq<u8>)
    requires
        b.len() == 16,
    ensures
        hyphenated_hex(b).len() == 36,
        forall|i: int| 0 <= i < hyphenated_hex(b).len() ==> is_uuid_char(#[trigger] hyphenated_hex(b)[i]),
{
    lemma_simple_hex_len(b);
    lemma_simple_hex_chars(b);
    let h = simple_hex(b);
    let parts = seq![
        h.subrange(0, 8),
        seq!['-'],
        h.subrange(8, 12),
        seq!['-'],
        h.subrange(12, 16),
        seq!['-'],
        h.subrange(16, 20),
        seq!['-'],
        h.subrange(20, 32),
    ];
    assert forall|j: int, i: int| 0 <= j < 9 && 0 <= i < parts[j].len() implies is_uuid_char(
        #[trigger] parts[j][i],
    ) by {
        if j % 2 == 0 {
            assert(parts[j][i] == h[parts_start(j) + i]);
        }
    }
    let hx = hyphenated_hex(b);
    assert(hx =~= parts[0] + parts[1] + parts[2] + parts[3] + parts[4] + parts[5] + parts[6] + parts[7]
        + parts[8]);
    assert forall|i: int| 0 <= i < hx.len() implies is_uuid_char(#[trigger] hx[i]) by {
        if i < 8 {
            assert(hx[i] == parts[0][i]);
        } else if i < 9 {
            assert(hx[i] == parts[1][i - 8]);
        } else if i < 13 {
            assert(hx[i] == parts[2][i - 9]);
        } else if i < 14 {
            assert(hx[i] == parts[3][i - 13]);
        } else if i < 18 {
            assert(hx[i] == parts[4][i - 14]);
        } else if i < 19 {
            assert(hx[i] == parts[5][i - 18]);
        } else if i < 23 {
            assert(hx[i] == parts[6][i - 19]);
        } else if i < 24 {
            assert(hx[i] == parts[7][i - 23]);
        } else {
            assert(hx[i] == parts[8][i - 24]);
        }
    }
}

spec fn parts_start(j: int) -> int {
    if j == 0 {
        0
    } else if j == 2 {
        8
    } else if j == 4 {
        12
    } else if j == 6 {
        16
    } else {
        20
    }
}

/// The hyphenated form: groups of 8, 4, 4, 4 and 12 digits.
pub open spec fn hyphenated_hex(b: Seq<u8>) -> Seq<char> {
    let h = simple_hex(b);
    h.subrange(0, 8) + seq!['-'] + h.subrange(8, 12) + seq!['-'] + h.subrange(12, 16) + seq!['-']
        + h.subrange(16, 20) + seq!['-'] + h.subrange(20, 32)
}

fn hex_char(n: u8) -> (r: char)
    requires
        n < 16,
    ensures
        r == hex_lower(n as int),
{
    if n < 10 {
        (n + 48) as char
    } else {
        (n + 87) as char
    }
}

fn simple_hex_chars(b: &[u8; 16]) -> (r: Vec<char>)
    ensures
        r@ == simple_hex(b@),
        r@.len() == 32,
{
    let mut r: Vec<char> = Vec::new();
    let mut i: usize = 0;
    while i < 16
        invariant
            i <= 16,
            b@.len() == 16,
            r@ == simple_hex(b@.take(i as int)),
        decreases 16 - i,
    {
        let x = b[i];
        assert(b@.take(i + 1).drop_last() =~= b@.take(i as int));
        assert(b@.take(i + 1).last() == x);
        r.push(hex_char(x / 16));
        r.push(hex_char(x % 16));
        i = i + 1;
        assert(r@ =~= simple_hex(b@.take(i as int)));
    }
    assert(b@.take(16) =~= b@);
    proof {
        lemma_simple_hex_len(b@);
    }
    r
}

/// The version 5 UUID of `name` in the URL namespace, as 32 hexadecimal digits.
pub fn uuid_v5_simple(name: &[u8]) -> (r: String)
    ensures
        r@ == simple_hex(spec_uuid_v5_url(name@)),
        r@.len() == 32,
{
    let bytes = uuid_v5_url(name);
    let h = simple_hex_chars(&bytes);
    string_of(h.as_slice())
}

/// The version 5 UUID of `name` in the URL namespace, hyphenated.
pub fn uuid_v5_hyphenated(name: &[u8]) -> (r: String)
    ensures
        r@ == hyphenated_hex(spec_uuid_v5_url(name@)),
{
    let bytes = uuid_v5_url(name);
    let h = simple_hex_chars(&bytes);
    let mut r: Vec<char> = subvec(&h, 0, 8);
    r.push('-');
    let g2 = subvec(&h, 8, 12);
    let g3 = subvec(&h, 12, 16);
    let g4 = subvec(&h, 16, 20);
    let g5 = subvec(&h, 20, 32);
    let mut s = string_of(r.as_slice());
    push_chars(&mut s, g2.as_slice());
    let dash = vec!['-'];
    push_chars(&mut s, dash.as_slice());
    push_chars(&mut s, g3.as_slice());
    push_chars(&mut s, dash.as_slice());
    push_chars(&mut s, g4.as_slice());
    push_chars(&mut s, dash.as_slice());
    push_chars(&mut s, g5.as_slice());
    assert(s@ =~= hyphenated_hex(bytes@));
    s
}

} // verus!
