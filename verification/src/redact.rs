//! Best-effort secret scrubbing for log/error strings on the local control
//! plane.
//!
//! `redact` neutralizes two well-known credential patterns so tracing output
//! never leaks secrets:
//!
//! - `Bearer <token>` becomes `Bearer ***`;
//! - `?token=abc&x=1` / `&secret=s` get their value replaced by `***`.
//!
//! Non-secret text is preserved character for character. All patterns are
//! ASCII, so working on characters matches working on UTF-8 bytes.

use vstd::prelude::*;
use crate::text::{
    chars_of, extend_chars, extend_range, find_from, find_pattern, lemma_find_from_bounds,
    matches_at, string_from,
};

verus! {

/// HTTP header used to propagate a per-request ID between the CLI and the
/// desktop control plane.
pub const REQUEST_ID_HEADER: &'static str = "x-request-id";

/// Unicode `White_Space`, as `char::is_whitespace` decides it.
pub open spec fn is_whitespace(c: char) -> bool {
    let u = c as u32;
    ||| 0x9 <= u <= 0xd
    ||| u == 0x20
    ||| u == 0x85
    ||| u == 0xa0
    ||| u == 0x1680
    ||| 0x2000 <= u <= 0x200a
    ||| u == 0x2028
    ||| u == 0x2029
    ||| u == 0x202f
    ||| u == 0x205f
    ||| u == 0x3000
}

/// `char::is_whitespace`.
pub fn char_is_whitespace(c: char) -> (r: bool)
    ensures
        r == is_whitespace(c),
{
    let u = c as u32;
    (0x9 <= u && u <= 0xd) || u == 0x20 || u == 0x85 || u == 0xa0 || u == 0x1680 || (0x2000 <= u
        && u <= 0x200a) || u == 0x2028 || u == 0x2029 || u == 0x202f || u == 0x205f || u == 0x3000
}

/// A query-parameter value ends at `&` or `;`.
pub open spec fn is_value_end(c: char) -> bool {
    c == '&' || c == ';'
}

/// A secret key must follow the start of the scanned text or `?`, `&`, `;`.
pub open spec fn is_query_delim(c: char) -> bool {
    c == '?' || c == '&' || c == ';'
}

/// First index `>= i` of `s` holding whitespace.
pub open spec fn find_whitespace_from(s: Seq<char>, i: int) -> Option<int>
    decreases s.len() - i,
{
    if i < 0 || i >= s.len() {
        None
    } else if is_whitespace(s[i]) {
        Some(i)
    } else {
        find_whitespace_from(s, i + 1)
    }
}

/// First index `>= i` of `s` holding `&` or `;`.
pub open spec fn find_value_end_from(s: Seq<char>, i: int) -> Option<int>
    decreases s.len() - i,
{
    if i < 0 || i >= s.len() {
        None
    } else if is_value_end(s[i]) {
        Some(i)
    } else {
        find_value_end_from(s, i + 1)
    }
}

pub proof fn lemma_find_whitespace_bounds(s: Seq<char>, i: int)
    ensures
        find_whitespace_from(s, i) matches Some(p) ==> i <= p < s.len(),
    decreases s.len() - i,
{
    if i < 0 || i >= s.len() {
    } else if is_whitespace(s[i]) {
    } else {
        lemma_find_whitespace_bounds(s, i + 1);
    }
}

pub proof fn lemma_find_value_end_bounds(s: Seq<char>, i: int)
    ensures
        find_value_end_from(s, i) matches Some(p) ==> i <= p < s.len(),
    decreases s.len() - i,
{
    if i < 0 || i >= s.len() {
    } else if is_value_end(s[i]) {
    } else {
        lemma_find_value_end_bounds(s, i + 1);
    }
}

/// `"Bearer "`.
pub open spec fn bearer_prefix() -> Seq<char> {
    seq!['B', 'e', 'a', 'r', 'e', 'r', ' ']
}

/// `"***"`.
pub open spec fn mask() -> Seq<char> {
    seq!['*', '*', '*']
}

/// Query parameter names whose values are treated as secrets, in the order
/// in which they are tried.
pub open spec fn secret_query_keys() -> Seq<Seq<char>> {
    seq![
        seq!['t', 'o', 'k', 'e', 'n'],
        seq!['a', 'c', 'c', 'e', 's', 's', '_', 't', 'o', 'k', 'e', 'n'],
        seq!['r', 'e', 'f', 'r', 'e', 's', 'h', '_', 't', 'o', 'k', 'e', 'n'],
        seq!['a', 'p', 'i', '_', 'k', 'e', 'y'],
        seq!['a', 'p', 'i', 'k', 'e', 'y'],
        seq!['k', 'e', 'y'],
        seq!['s', 'e', 'c', 'r', 'e', 't'],
        seq!['s', 'i', 'g', 'n', 'a', 't', 'u', 'r', 'e'],
        seq!['p', 'a', 's', 's', 'w', 'o', 'r', 'd'],
        seq!['s', 'i', 'g'],
        seq!['a', 'u', 't', 'h'],
        seq!['s', 'e', 's', 's', 'i', 'o', 'n']
    ]
}

/// The masking of `Bearer <value>` applied to the text `s[r..]`: each value
/// runs up to the next whitespace (or the end) and becomes `***`.
pub open spec fn mask_bearer_from(s: Seq<char>, r: int) -> Seq<char>
    decreases s.len() - r,
{
    if r < 0 || r > s.len() {
        Seq::empty()
    } else {
        match find_from(s, bearer_prefix(), r) {
            None => s.subrange(r, s.len() as int),
            Some(p) => {
                let value_at = p + bearer_prefix().len();
                proof {
                    lemma_find_from_bounds(s, bearer_prefix(), r);
                    lemma_find_whitespace_bounds(s, value_at);
                }
                s.subrange(r, value_at) + mask() + match find_whitespace_from(s, value_at) {
                    Some(e) => mask_bearer_from(s, e),
                    None => Seq::empty(),
                }
            },
        }
    }
}

/// `key=` starts at `p` inside the text `s[r..]` and is preceded by the start
/// of that text or by `?`, `&` or `;`.
pub open spec fn is_key_value_at(s: Seq<char>, r: int, key: Seq<char>, p: int) -> bool {
    &&& matches_at(s, key, p)
    &&& (p == r || (p >= 1 && is_query_delim(s[p - 1])))
    &&& p + key.len() < s.len()
    &&& s[p + key.len()] == '='
}

/// Where the search for `key=` in `s[r..]`, resumed from `from`, stops: each
/// occurrence of `key` that is not a `key=` segment is skipped as a whole.
pub open spec fn key_value_from(s: Seq<char>, r: int, key: Seq<char>, from: int) -> Option<int>
    decreases s.len() - from,
{
    if key.len() == 0 || from < 0 {
        None
    } else {
        match find_from(s, key, from) {
            None => None,
            Some(p) => {
                proof {
                    lemma_find_from_bounds(s, key, from);
                }
                if is_key_value_at(s, r, key, p) {
                    Some(p)
                } else {
                    key_value_from(s, r, key, p + key.len())
                }
            },
        }
    }
}

/// The earliest `key=` segment in `s[r..]` among the first `n` keys: its
/// position and the index of its key (the first key wins a tie).
pub open spec fn earliest_key(s: Seq<char>, r: int, keys: Seq<Seq<char>>, n: int) -> Option<(int, int)>
    decreases n,
{
    if n <= 0 {
        None
    } else {
        let best = earliest_key(s, r, keys, n - 1);
        match key_value_from(s, r, keys[n - 1], r) {
            None => best,
            Some(p) => match best {
                None => Some((p, n - 1)),
                Some(b) => if p < b.0 {
                    Some((p, n - 1))
                } else {
                    best
                },
            },
        }
    }
}

pub proof fn lemma_key_value_from_found(s: Seq<char>, r: int, key: Seq<char>, from: int)
    ensures
        key_value_from(s, r, key, from) matches Some(p) ==> from <= p && is_key_value_at(
            s,
            r,
            key,
            p,
        ),
    decreases s.len() - from,
{
    if key.len() == 0 || from < 0 {
    } else {
        lemma_find_from_bounds(s, key, from);
        match find_from(s, key, from) {
            None => {},
            Some(p) => {
                if !is_key_value_at(s, r, key, p) {
                    lemma_key_value_from_found(s, r, key, p + key.len());
                }
            },
        }
    }
}

pub proof fn lemma_earliest_key_found(s: Seq<char>, r: int, keys: Seq<Seq<char>>, n: int)
    requires
        0 <= r,
        n <= keys.len(),
    ensures
        earliest_key(s, r, keys, n) matches Some(b) ==> 0 <= b.1 < n && r <= b.0
            && is_key_value_at(s, r, keys[b.1], b.0),
    decreases n,
{
    if n > 0 {
        lemma_earliest_key_found(s, r, keys, n - 1);
        lemma_key_value_from_found(s, r, keys[n - 1], r);
    }
}

/// The masking of secret query values applied to the text `s[r..]`.
pub open spec fn mask_query_from(s: Seq<char>, r: int) -> Seq<char>
    decreases s.len() - r,
{
    if r < 0 || r > s.len() {
        Seq::empty()
    } else {
        let keys = secret_query_keys();
        match earliest_key(s, r, keys, keys.len() as int) {
            None => s.subrange(r, s.len() as int),
            Some(b) => {
                let value_at = b.0 + keys[b.1].len() + 1;
                proof {
                    lemma_earliest_key_found(s, r, keys, keys.len() as int);
                    lemma_find_value_end_bounds(s, value_at);
                }
                s.subrange(r, value_at) + mask() + match find_value_end_from(s, value_at) {
                    Some(e) => mask_query_from(s, e),
                    None => Seq::empty(),
                }
            },
        }
    }
}

/// What `redact` returns for the characters `s`.
pub open spec fn redacted(s: Seq<char>) -> Seq<char> {
    mask_query_from(mask_bearer_from(s, 0), 0)
}

/// First whitespace at or after `from`.
fn find_whitespace(s: &[char], from: usize) -> (r: Option<usize>)
    ensures
        match r {
            None => find_whitespace_from(s@, from as int) is None,
            Some(p) => find_whitespace_from(s@, from as int) == Some(p as int),
        },
{
    let mut i: usize = from;
    while i < s.len()
        invariant
            from <= i,
            find_whitespace_from(s@, from as int) == find_whitespace_from(s@, i as int),
        decreases s@.len() - i,
    {
        if char_is_whitespace(s[i]) {
            return Some(i);
        }
        i = i + 1;
    }
    None
}

/// First `&` or `;` at or after `from`.
fn find_value_end(s: &[char], from: usize) -> (r: Option<usize>)
    ensures
        match r {
            None => find_value_end_from(s@, from as int) is None,
            Some(p) => find_value_end_from(s@, from as int) == Some(p as int),
        },
{
    let mut i: usize = from;
    while i < s.len()
        invariant
            from <= i,
            find_value_end_from(s@, from as int) == find_value_end_from(s@, i as int),
        decreases s@.len() - i,
    {
        if s[i] == '&' || s[i] == ';' {
            return Some(i);
        }
        i = i + 1;
    }
    None
}

/// Replace `Bearer <value>` with `Bearer ***`, consuming the value up to the
/// next whitespace so the token text never reaches the log.
fn mask_bearer(s: &[char]) -> (r: Vec<char>)
    ensures
        r@ == mask_bearer_from(s@, 0),
{
    let needle: Vec<char> = vec!['B', 'e', 'a', 'r', 'e', 'r', ' '];
    let stars: Vec<char> = vec!['*', '*', '*'];
    let n = s.len();
    let mut out: Vec<char> = Vec::new();
    let mut r: usize = 0;
    loop
        invariant
            n == s@.len(),
            r <= n,
            needle@ == bearer_prefix(),
            stars@ == mask(),
            out@ + mask_bearer_from(s@, r as int) == mask_bearer_from(s@, 0),
        decreases n - r,
    {
        proof {
            lemma_find_from_bounds(s@, bearer_prefix(), r as int);
        }
        match find_pattern(s, needle.as_slice(), r) {
            None => {
                extend_range(&mut out, s, r, n);
                return out;
            },
            Some(p) => {
                let value_at = p + needle.len();
                proof {
                    lemma_find_whitespace_bounds(s@, value_at as int);
                }
                extend_range(&mut out, s, r, value_at);
                extend_chars(&mut out, stars.as_slice());
                match find_whitespace(s, value_at) {
                    Some(e) => {
                        proof {
                            assert(out@ + mask_bearer_from(s@, e as int) == mask_bearer_from(s@, 0));
                        }
                        r = e;
                    },
                    None => {
                        proof {
                            assert(out@ == mask_bearer_from(s@, 0));
                        }
                        return out;
                    },
                }
            },
        }
    }
}

/// Where `key=` begins in `s[r..]`: the key must be followed by `=` and
/// preceded by the start of that text or a query delimiter (`?`, `&`, `;`),
/// so plain words like "secretly" are not touched.
fn find_key_value(s: &[char], r: usize, key: &[char]) -> (res: Option<usize>)
    requires
        r <= s@.len(),
        key@.len() > 0,
    ensures
        match res {
            None => key_value_from(s@, r as int, key@, r as int) is None,
            Some(p) => key_value_from(s@, r as int, key@, r as int) == Some(p as int),
        },
{
    let n = s.len();
    let mut search_from: usize = r;
    loop
        invariant
            n == s@.len(),
            r <= search_from,
            key@.len() > 0,
            key_value_from(s@, r as int, key@, r as int) == key_value_from(
                s@,
                r as int,
                key@,
                search_from as int,
            ),
        decreases n + 1 - search_from,
    {
        proof {
            lemma_find_from_bounds(s@, key@, search_from as int);
        }
        match find_pattern(s, key, search_from) {
            None => {
                return None;
            },
            Some(pos) => {
                let before_ok = pos == r || (pos >= 1 && (s[pos - 1] == '?' || s[pos - 1] == '&'
                    || s[pos - 1] == ';'));
                let after = pos + key.len();
                let after_ok = after < n && s[after] == '=';
                if before_ok && after_ok {
                    return Some(pos);
                }
                search_from = after;
            },
        }
    }
}

/// Mask the value of each `key=value` segment whose key is a secret one.
fn mask_query_values(s: &[char]) -> (res: Vec<char>)
    ensures
        res@ == mask_query_from(s@, 0),
{
    let keys: Vec<Vec<char>> = vec![
        vec!['t', 'o', 'k', 'e', 'n'],
        vec!['a', 'c', 'c', 'e', 's', 's', '_', 't', 'o', 'k', 'e', 'n'],
        vec!['r', 'e', 'f', 'r', 'e', 's', 'h', '_', 't', 'o', 'k', 'e', 'n'],
        vec!['a', 'p', 'i', '_', 'k', 'e', 'y'],
        vec!['a', 'p', 'i', 'k', 'e', 'y'],
        vec!['k', 'e', 'y'],
        vec!['s', 'e', 'c', 'r', 'e', 't'],
        vec!['s', 'i', 'g', 'n', 'a', 't', 'u', 'r', 'e'],
        vec!['p', 'a', 's', 's', 'w', 'o', 'r', 'd'],
        vec!['s', 'i', 'g'],
        vec!['a', 'u', 't', 'h'],
        vec!['s', 'e', 's', 's', 'i', 'o', 'n']
    ];
    let stars: Vec<char> = vec!['*', '*', '*'];
    let n = s.len();
    let mut out: Vec<char> = Vec::new();
    let mut r: usize = 0;
    assert(keys@.len() == secret_query_keys().len());
    assert(forall|k: int| 0 <= k < keys@.len() ==> #[trigger] keys@[k]@ == secret_query_keys()[k]);
    loop
        invariant
            n == s@.len(),
            r <= n,
            stars@ == mask(),
            keys@.len() == secret_query_keys().len(),
            forall|k: int| 0 <= k < keys@.len() ==> #[trigger] keys@[k]@ == secret_query_keys()[k],
            out@ + mask_query_from(s@, r as int) == mask_query_from(s@, 0),
        decreases n - r,
    {
        let ghost spec_keys = secret_query_keys();
        // Earliest `name=` occurrence among the secret keys.
        let mut best: Option<(usize, usize)> = None;
        let mut k: usize = 0;
        while k < keys.len()
            invariant
                n == s@.len(),
                r <= n,
                k <= keys@.len(),
                spec_keys == secret_query_keys(),
                keys@.len() == spec_keys.len(),
                forall|j: int| 0 <= j < keys@.len() ==> #[trigger] keys@[j]@ == spec_keys[j],
                match best {
                    None => earliest_key(s@, r as int, spec_keys, k as int) is None,
                    Some(b) => earliest_key(s@, r as int, spec_keys, k as int) == Some(
                        (b.0 as int, b.1 as int),
                    ),
                },
            decreases keys@.len() - k,
        {
            assert(keys@[k as int]@ == spec_keys[k as int]);
            assert(spec_keys[k as int].len() > 0);
            match find_key_value(s, r, keys[k].as_slice()) {
                Some(pos) => {
                    match best {
                        None => {
                            best = Some((pos, k));
                        },
                        Some(b) => {
                            if pos < b.0 {
                                best = Some((pos, k));
                            }
                        },
                    }
                },
                None => {},
            }
            k = k + 1;
        }
        proof {
            lemma_earliest_key_found(s@, r as int, spec_keys, spec_keys.len() as int);
        }
        match best {
            None => {
                extend_range(&mut out, s, r, n);
                return out;
            },
            Some(b) => {
                let value_at = b.0 + keys[b.1].len() + 1;
                proof {
                    lemma_find_value_end_bounds(s@, value_at as int);
                }
                extend_range(&mut out, s, r, value_at);
                extend_chars(&mut out, stars.as_slice());
                match find_value_end(s, value_at) {
                    Some(e) => {
                        proof {
                            assert(out@ + mask_query_from(s@, e as int) == mask_query_from(s@, 0));
                        }
                        r = e;
                    },
                    None => {
                        proof {
                            assert(out@ == mask_query_from(s@, 0));
                        }
                        return out;
                    },
                }
            },
        }
    }
}

/// Remove the obvious credential material from `input`: `Bearer <token>`
/// becomes `Bearer ***`, and the value of a secret query parameter
/// (`?token=abc&x=1`, `&secret=s`) becomes `***`.
pub fn redact(input: &str) -> (r: String)
    ensures
        r@ == redacted(input@),
{
    let chars = chars_of(input);
    let out = mask_bearer(chars.as_slice());
    let masked = mask_query_values(out.as_slice());
    string_from(masked.as_slice())
}

/// Text with no `Bearer ` and no secret `key=` segment comes back unchanged.
pub proof fn lemma_redact_leaves_benign_text(s: Seq<char>)
    requires
        find_from(s, bearer_prefix(), 0) is None,
        earliest_key(s, 0, secret_query_keys(), secret_query_keys().len() as int) is None,
    ensures
        redacted(s) == s,
{
    assert(mask_bearer_from(s, 0) == s.subrange(0, s.len() as int));
    assert(s.subrange(0, s.len() as int) == s);
    assert(mask_query_from(s, 0) == s.subrange(0, s.len() as int));
}


/// Three `*` at `i..i + 3` of `t`.
pub open spec fn mask_at(t: Seq<char>, i: int) -> bool {
    &&& 0 <= i
    &&& i + 3 <= t.len()
    &&& t[i] == '*'
    &&& t[i + 1] == '*'
    &&& t[i + 2] == '*'
}

/// Every `Bearer ` in `t` at or after `from` is followed by `***` and then
/// by whitespace or the end of `t`.
pub open spec fn bearer_masked_from(t: Seq<char>, from: int) -> bool {
    forall|q: int|
        from <= q && #[trigger] matches_at(t, bearer_prefix(), q) ==> mask_at(t, q + 7) && (q + 10
            == t.len() || is_whitespace(t[q + 10]))
}

/// Every secret `key=` segment of `t` (after its start or `?`, `&`, `;`)
/// has the value `***`, followed by `&`, `;` or the end of `t`.
pub open spec fn secrets_masked(t: Seq<char>) -> bool {
    forall|k: int, p: int|
        0 <= k < secret_query_keys().len() && #[trigger] is_key_value_at(
            t,
            0,
            secret_query_keys()[k],
            p,
        ) ==> mask_at(t, p + secret_query_keys()[k].len() + 1) && (p + secret_query_keys()[k].len()
            + 4 == t.len() || is_value_end(t[p + secret_query_keys()[k].len() + 4]))
}

/// A character a secret key is spelled with.
spec fn key_char(c: char) -> bool {
    ('a' <= c && c <= 'z') || c == '_'
}

proof fn lemma_key_chars(k: int)
    requires
        0 <= k < secret_query_keys().len(),
    ensures
        secret_query_keys()[k].len() > 0,
        forall|j: int|
            0 <= j < secret_query_keys()[k].len() ==> key_char(#[trigger] secret_query_keys()[k][j]),
{
    let keys = secret_query_keys();
    assert(keys.len() == 12);
    if k == 0 {
        assert(keys[0] == seq!['t', 'o', 'k', 'e', 'n']);
    } else if k == 1 {
        assert(keys[1] == seq!['a', 'c', 'c', 'e', 's', 's', '_', 't', 'o', 'k', 'e', 'n']);
    } else if k == 2 {
        assert(keys[2] == seq!['r', 'e', 'f', 'r', 'e', 's', 'h', '_', 't', 'o', 'k', 'e', 'n']);
    } else if k == 3 {
        assert(keys[3] == seq!['a', 'p', 'i', '_', 'k', 'e', 'y']);
    } else if k == 4 {
        assert(keys[4] == seq!['a', 'p', 'i', 'k', 'e', 'y']);
    } else if k == 5 {
        assert(keys[5] == seq!['k', 'e', 'y']);
    } else if k == 6 {
        assert(keys[6] == seq!['s', 'e', 'c', 'r', 'e', 't']);
    } else if k == 7 {
        assert(keys[7] == seq!['s', 'i', 'g', 'n', 'a', 't', 'u', 'r', 'e']);
    } else if k == 8 {
        assert(keys[8] == seq!['p', 'a', 's', 's', 'w', 'o', 'r', 'd']);
    } else if k == 9 {
        assert(keys[9] == seq!['s', 'i', 'g']);
    } else if k == 10 {
        assert(keys[10] == seq!['a', 'u', 't', 'h']);
    } else {
        assert(keys[11] == seq!['s', 'e', 's', 's', 'i', 'o', 'n']);
    }
}

/// The first occurrence of `pat` from `i` is at or before any occurrence `q`.
proof fn lemma_find_from_first(s: Seq<char>, pat: Seq<char>, i: int, q: int)
    requires
        0 <= i <= q,
        matches_at(s, pat, q),
    ensures
        find_from(s, pat, i) matches Some(p) && p <= q,
    decreases q - i,
{
    if !matches_at(s, pat, i) {
        lemma_find_from_first(s, pat, i + 1, q);
    }
}

/// After `***` the next whitespace is right behind it, if there is any.
proof fn lemma_whitespace_after_mask(t: Seq<char>, i: int)
    requires
        mask_at(t, i),
        i + 3 == t.len() || is_whitespace(t[i + 3]),
    ensures
        find_whitespace_from(t, i) == (if i + 3 == t.len() { None } else { Some(i + 3) }),
{
    assert(!is_whitespace('*'));
    assert(find_whitespace_from(t, i) == find_whitespace_from(t, i + 1));
    assert(find_whitespace_from(t, i + 1) == find_whitespace_from(t, i + 2));
    assert(find_whitespace_from(t, i + 2) == find_whitespace_from(t, i + 3));
}

/// After `***` the next `&` or `;` is right behind it, if there is any.
proof fn lemma_value_end_after_mask(t: Seq<char>, i: int)
    requires
        mask_at(t, i),
        i + 3 == t.len() || is_value_end(t[i + 3]),
    ensures
        find_value_end_from(t, i) == (if i + 3 == t.len() { None } else { Some(i + 3) }),
{
    assert(find_value_end_from(t, i) == find_value_end_from(t, i + 1));
    assert(find_value_end_from(t, i + 1) == find_value_end_from(t, i + 2));
    assert(find_value_end_from(t, i + 2) == find_value_end_from(t, i + 3));
}

/// Text whose bearer tokens are all masked already is left as it is.
proof fn lemma_mask_bearer_fixed(t: Seq<char>, r: int)
    requires
        0 <= r <= t.len(),
        bearer_masked_from(t, r),
    ensures
        mask_bearer_from(t, r) == t.subrange(r, t.len() as int),
    decreases t.len() - r,
{
    lemma_find_from_bounds(t, bearer_prefix(), r);
    match find_from(t, bearer_prefix(), r) {
        None => {},
        Some(p) => {
            let va = p + 7;
            assert(matches_at(t, bearer_prefix(), p));
            lemma_whitespace_after_mask(t, va);
            if va + 3 < t.len() {
                lemma_mask_bearer_fixed(t, va + 3);
                assert(t.subrange(r, va) + mask() + t.subrange(va + 3, t.len() as int) =~= t.subrange(
                    r,
                    t.len() as int,
                ));
            } else {
                assert(t.subrange(r, va) + mask() =~= t.subrange(r, t.len() as int));
            }
        },
    }
}

/// Text whose secret values are all masked already is left as it is by the
/// query masking resumed at its start or at a value's end.
proof fn lemma_mask_query_fixed(t: Seq<char>, r: int)
    requires
        0 <= r <= t.len(),
        r == 0 || (r < t.len() && is_value_end(t[r])),
        secrets_masked(t),
    ensures
        mask_query_from(t, r) == t.subrange(r, t.len() as int),
    decreases t.len() - r,
{
    let keys = secret_query_keys();
    lemma_earliest_key_found(t, r, keys, keys.len() as int);
    match earliest_key(t, r, keys, keys.len() as int) {
        None => {},
        Some(b) => {
            let key = keys[b.1];
            let kl = key.len();
            lemma_key_chars(b.1);
            if b.0 == r && r != 0 {
                assert(t[r + 0] == key[0]);
                assert(key_char(key[0]));
            }
            assert(is_key_value_at(t, 0, keys[b.1], b.0));
            let va = b.0 + kl + 1;
            lemma_value_end_after_mask(t, va);
            if va + 3 < t.len() {
                lemma_mask_query_fixed(t, va + 3);
                assert(t.subrange(r, va) + mask() + t.subrange(va + 3, t.len() as int) =~= t.subrange(
                    r,
                    t.len() as int,
                ));
            } else {
                assert(t.subrange(r, va) + mask() =~= t.subrange(r, t.len() as int));
            }
        },
    }
}

proof fn lemma_find_whitespace_hit(s: Seq<char>, i: int)
    ensures
        find_whitespace_from(s, i) matches Some(p) ==> is_whitespace(s[p]),
    decreases s.len() - i,
{
    if i >= 0 && i < s.len() && !is_whitespace(s[i]) {
        lemma_find_whitespace_hit(s, i + 1);
    }
}

proof fn lemma_find_value_end_hit(s: Seq<char>, i: int)
    ensures
        find_value_end_from(s, i) matches Some(p) ==> is_value_end(s[p]),
    decreases s.len() - i,
{
    if i >= 0 && i < s.len() && !is_value_end(s[i]) {
        lemma_find_value_end_hit(s, i + 1);
    }
}

/// An occurrence of a pattern without `*` in `a + "***" + t` lies in `a` or
/// in `t`.
proof fn lemma_match_in_masked_concat(a: Seq<char>, t: Seq<char>, pat: Seq<char>, q: int)
    requires
        matches_at(a + mask() + t, pat, q),
        pat.len() > 0,
        forall|j: int| 0 <= j < pat.len() ==> #[trigger] pat[j] != '*',
    ensures
        (q + pat.len() <= a.len() && matches_at(a, pat, q)) || (q >= a.len() + 3 && matches_at(
            t,
            pat,
            q - a.len() - 3,
        )),
{
    let o = a + mask() + t;
    if q + pat.len() <= a.len() {
        assert forall|j: int| 0 <= j < pat.len() implies a[q + j] == pat[j] by {
            assert(o[q + j] == pat[j]);
        }
    } else if q >= a.len() + 3 {
        assert forall|j: int| 0 <= j < pat.len() implies t[q - a.len() - 3 + j] == pat[j] by {
            assert(o[q + j] == pat[j]);
        }
    } else {
        let j = if q <= a.len() { a.len() - q } else { 0 };
        assert(o[q + j] == pat[j]);
        assert(o[q + j] == '*');
    }
}

/// Bearer masking resumed at whitespace starts with that whitespace.
proof fn lemma_mask_bearer_first_char(s: Seq<char>, e: int)
    requires
        0 <= e < s.len(),
        is_whitespace(s[e]),
    ensures
        mask_bearer_from(s, e).len() > 0,
        mask_bearer_from(s, e)[0] == s[e],
{
    lemma_find_from_bounds(s, bearer_prefix(), e);
    match find_from(s, bearer_prefix(), e) {
        None => {},
        Some(p) => {
            if p == e {
                assert(s[e + 0] == bearer_prefix()[0]);
            }
        },
    }
}

/// Every `Bearer ` that bearer masking leaves is followed by `***` and then
/// whitespace or the end.
proof fn lemma_mask_bearer_masks(s: Seq<char>, r: int)
    requires
        0 <= r <= s.len(),
    ensures
        bearer_masked_from(mask_bearer_from(s, r), 0),
    decreases s.len() - r,
{
    let bp = bearer_prefix();
    lemma_find_from_bounds(s, bp, r);
    let out = mask_bearer_from(s, r);
    match find_from(s, bp, r) {
        None => {
            assert forall|q: int| 0 <= q && #[trigger] matches_at(out, bp, q) implies mask_at(
                out,
                q + 7,
            ) && (q + 10 == out.len() || is_whitespace(out[q + 10])) by {
                assert forall|j: int| 0 <= j < bp.len() implies s[r + q + j] == bp[j] by {
                    assert(out[q + j] == bp[j]);
                }
                lemma_find_from_first(s, bp, r, r + q);
            }
        },
        Some(p) => {
            let va = p + 7;
            lemma_find_whitespace_bounds(s, va);
            lemma_find_whitespace_hit(s, va);
            let a = s.subrange(r, va);
            let t = match find_whitespace_from(s, va) {
                Some(e) => mask_bearer_from(s, e),
                None => Seq::empty(),
            };
            assert(out == a + mask() + t);
            match find_whitespace_from(s, va) {
                Some(e) => {
                    lemma_mask_bearer_masks(s, e);
                    lemma_mask_bearer_first_char(s, e);
                },
                None => {},
            }
            assert forall|j: int| 0 <= j < bp.len() implies #[trigger] bp[j] != '*' by {}
            assert forall|q: int| 0 <= q && #[trigger] matches_at(out, bp, q) implies mask_at(
                out,
                q + 7,
            ) && (q + 10 == out.len() || is_whitespace(out[q + 10])) by {
                lemma_match_in_masked_concat(a, t, bp, q);
                if q + 7 <= a.len() {
                    assert forall|j: int| 0 <= j < bp.len() implies s[r + q + j] == bp[j] by {
                        assert(a[q + j] == bp[j]);
                    }
                    lemma_find_from_first(s, bp, r, r + q);
                    assert(q + 7 == a.len());
                } else {
                    let q2 = q - a.len() - 3;
                    assert(matches_at(t, bp, q2));
                    assert(mask_at(t, q2 + 7));
                    assert(out[q + 7] == t[q2 + 7]);
                    assert(out[q + 8] == t[q2 + 8]);
                    assert(out[q + 9] == t[q2 + 9]);
                    if q2 + 10 < t.len() {
                        assert(out[q + 10] == t[q2 + 10]);
                    }
                }
            }
        },
    }
}

/// The search for `key=` from `from` stops at or before any `key=` segment
/// at `q`: an occurrence of `key` it skips cannot overlap that segment,
/// which follows `?`, `&` or `;`.
proof fn lemma_key_value_from_reaches(s: Seq<char>, r: int, key: Seq<char>, from: int, q: int)
    requires
        0 <= r <= from <= q,
        is_key_value_at(s, r, key, q),
        key.len() > 0,
        forall|j: int| 0 <= j < key.len() ==> key_char(#[trigger] key[j]),
    ensures
        key_value_from(s, r, key, from) matches Some(p) && p <= q,
    decreases q - from,
{
    lemma_find_from_first(s, key, from, q);
    lemma_find_from_bounds(s, key, from);
    match find_from(s, key, from) {
        None => {},
        Some(p) => {
            if !is_key_value_at(s, r, key, p) {
                if q < p + key.len() {
                    assert(s[p + (q - 1 - p)] == key[q - 1 - p]);
                    assert(key_char(key[q - 1 - p]));
                }
                lemma_key_value_from_reaches(s, r, key, p + key.len(), q);
            }
        },
    }
}

/// The earliest secret `key=` segment found is at or before any such
/// segment.
proof fn lemma_earliest_key_reaches(s: Seq<char>, r: int, n: int, k: int, q: int)
    requires
        0 <= r <= q,
        0 <= k < n <= secret_query_keys().len(),
        is_key_value_at(s, r, secret_query_keys()[k], q),
    ensures
        earliest_key(s, r, secret_query_keys(), n) matches Some(b) && b.0 <= q,
    decreases n,
{
    let keys = secret_query_keys();
    if k < n - 1 {
        lemma_earliest_key_reaches(s, r, n - 1, k, q);
    } else {
        lemma_key_chars(k);
        lemma_key_value_from_reaches(s, r, keys[k], r, q);
    }
}

/// Query masking resumed at a position starts with the character there.
proof fn lemma_mask_query_first_char(x: Seq<char>, e: int)
    requires
        0 <= e < x.len(),
    ensures
        mask_query_from(x, e).len() > 0,
        mask_query_from(x, e)[0] == x[e],
{
    let keys = secret_query_keys();
    lemma_earliest_key_found(x, e, keys, keys.len() as int);
}

/// Query masking keeps every bearer token masked.
proof fn lemma_mask_query_keeps_bearer(x: Seq<char>, r: int)
    requires
        0 <= r <= x.len(),
        bearer_masked_from(x, r),
    ensures
        bearer_masked_from(mask_query_from(x, r), 0),
    decreases x.len() - r,
{
    let keys = secret_query_keys();
    let bp = bearer_prefix();
    lemma_earliest_key_found(x, r, keys, keys.len() as int);
    let out = mask_query_from(x, r);
    match earliest_key(x, r, keys, keys.len() as int) {
        None => {
            assert forall|q: int| 0 <= q && #[trigger] matches_at(out, bp, q) implies mask_at(
                out,
                q + 7,
            ) && (q + 10 == out.len() || is_whitespace(out[q + 10])) by {
                assert forall|j: int| 0 <= j < bp.len() implies x[r + q + j] == bp[j] by {
                    assert(out[q + j] == bp[j]);
                }
                assert(matches_at(x, bp, r + q));
                assert(out[q + 7] == x[r + q + 7]);
                assert(out[q + 8] == x[r + q + 8]);
                assert(out[q + 9] == x[r + q + 9]);
                if q + 10 < out.len() {
                    assert(out[q + 10] == x[r + q + 10]);
                }
            }
        },
        Some(b) => {
            let kl = keys[b.1].len();
            let va = b.0 + kl + 1;
            lemma_find_value_end_bounds(x, va);
            let a = x.subrange(r, va);
            let t = match find_value_end_from(x, va) {
                Some(e) => mask_query_from(x, e),
                None => Seq::empty(),
            };
            assert(out == a + mask() + t);
            match find_value_end_from(x, va) {
                Some(e) => {
                    lemma_mask_query_keeps_bearer(x, e);
                },
                None => {},
            }
            assert(x[va - 1] == '=');
            assert forall|j: int| 0 <= j < bp.len() implies #[trigger] bp[j] != '*' by {}
            assert forall|q: int| 0 <= q && #[trigger] matches_at(out, bp, q) implies mask_at(
                out,
                q + 7,
            ) && (q + 10 == out.len() || is_whitespace(out[q + 10])) by {
                lemma_match_in_masked_concat(a, t, bp, q);
                if q + 7 <= a.len() {
                    assert forall|j: int| 0 <= j < bp.len() implies x[r + q + j] == bp[j] by {
                        assert(a[q + j] == bp[j]);
                    }
                    assert(matches_at(x, bp, r + q));
                    if r + q + 7 == va {
                        assert(x[r + q + 6] == bp[6]);
                    }
                    assert(r + q + 10 < va);
                    assert(out[q + 7] == x[r + q + 7]);
                    assert(out[q + 8] == x[r + q + 8]);
                    assert(out[q + 9] == x[r + q + 9]);
                    assert(out[q + 10] == x[r + q + 10]);
                } else {
                    let q2 = q - a.len() - 3;
                    assert(matches_at(t, bp, q2));
                    assert(out[q + 7] == t[q2 + 7]);
                    assert(out[q + 8] == t[q2 + 8]);
                    assert(out[q + 9] == t[q2 + 9]);
                    if q2 + 10 < t.len() {
                        assert(out[q + 10] == t[q2 + 10]);
                    }
                }
            }
        },
    }
}

/// Every secret `key=` segment that query masking leaves has the value
/// `***`.
proof fn lemma_mask_query_masks(x: Seq<char>, r: int)
    requires
        0 <= r <= x.len(),
    ensures
        secrets_masked(mask_query_from(x, r)),
    decreases x.len() - r,
{
    let keys = secret_query_keys();
    lemma_earliest_key_found(x, r, keys, keys.len() as int);
    let out = mask_query_from(x, r);
    match earliest_key(x, r, keys, keys.len() as int) {
        None => {
            assert forall|k: int, p: int|
                0 <= k < keys.len() && #[trigger] is_key_value_at(out, 0, keys[k], p) implies false by {
                let key = keys[k];
                assert forall|j: int| 0 <= j < key.len() implies x[r + p + j] == key[j] by {
                    assert(out[p + j] == key[j]);
                }
                assert(out[p + key.len()] == x[r + p + key.len()]);
                if p >= 1 {
                    assert(out[p - 1] == x[r + p - 1]);
                }
                assert(is_key_value_at(x, r, keys[k], r + p));
                lemma_earliest_key_reaches(x, r, keys.len() as int, k, r + p);
            }
        },
        Some(b) => {
            let kb: int = keys[b.1].len() as int;
            let va = b.0 + kb + 1;
            lemma_key_chars(b.1);
            lemma_find_value_end_bounds(x, va);
            lemma_find_value_end_hit(x, va);
            let a = x.subrange(r, va);
            let t = match find_value_end_from(x, va) {
                Some(e) => mask_query_from(x, e),
                None => Seq::empty(),
            };
            assert(out == a + mask() + t);
            match find_value_end_from(x, va) {
                Some(e) => {
                    lemma_mask_query_masks(x, e);
                    lemma_mask_query_first_char(x, e);
                },
                None => {},
            }
            assert forall|k: int, p: int|
                0 <= k < keys.len() && #[trigger] is_key_value_at(out, 0, keys[k], p) implies mask_at(
                    out,
                    p + keys[k].len() + 1,
                ) && (p + keys[k].len() + 4 == out.len() || is_value_end(
                    out[p + keys[k].len() + 4],
                )) by {
                let key = keys[k];
                let kl: int = key.len() as int;
                lemma_key_chars(k);
                let kq = key.push('=');
                assert forall|j: int| 0 <= j < kq.len() implies out[p + j] == kq[j] by {
                    if j < kl {
                        assert(out[p + j] == key[j]);
                    }
                }
                assert(matches_at(out, kq, p));
                assert forall|j: int| 0 <= j < kq.len() implies #[trigger] kq[j] != '*' by {
                    if j < kl {
                        assert(key_char(key[j]));
                    }
                }
                lemma_match_in_masked_concat(a, t, kq, p);
                if p + kq.len() <= a.len() {
                    assert forall|j: int| 0 <= j < kl implies x[r + p + j] == key[j] by {
                        assert(a[p + j] == kq[j]);
                    }
                    assert(a[p + kl] == kq[kl]);
                    if p >= 1 {
                        assert(out[p - 1] == x[r + p - 1]);
                    }
                    assert(is_key_value_at(x, r, keys[k], r + p));
                    lemma_earliest_key_reaches(x, r, keys.len() as int, k, r + p);
                    if b.0 < r + p {
                        let i = r + p - 1 - b.0;
                        assert(x[b.0 + i] == keys[b.1][i]);
                        assert(key_char(keys[b.1][i]));
                    }
                    assert(b.0 == r + p);
                    if kl < kb {
                        assert(x[b.0 + kl] == keys[b.1][kl]);
                        assert(key_char(keys[b.1][kl]));
                    } else if kl > kb {
                        assert(x[r + p + kb] == key[kb]);
                        assert(key_char(key[kb]));
                    }
                    assert(p + kl + 1 == a.len());
                    if t.len() > 0 {
                        assert(out[p + kl + 4] == t[0]);
                    }
                } else {
                    let p2 = p - a.len() - 3;
                    if p2 == 0 {
                        assert(out[p - 1] == '*');
                    }
                    assert(t[p2 - 1] == out[p - 1]);
                    assert forall|j: int| 0 <= j < kl implies t[p2 + j] == key[j] by {
                        assert(t[p2 + j] == kq[j]);
                    }
                    assert(t[p2 + kl] == kq[kl]);
                    assert(is_key_value_at(t, 0, keys[k], p2));
                    assert(out[p + kl + 1] == t[p2 + kl + 1]);
                    assert(out[p + kl + 2] == t[p2 + kl + 2]);
                    assert(out[p + kl + 3] == t[p2 + kl + 3]);
                    if p2 + kl + 4 < t.len() {
                        assert(out[p + kl + 4] == t[p2 + kl + 4]);
                    }
                }
            }
        },
    }
}

/// Redacting is idempotent: redacted text comes back unchanged when it is
/// redacted again.
pub proof fn lemma_redact_idempotent(s: Seq<char>)
    ensures
        redacted(redacted(s)) == redacted(s),
{
    let m = mask_bearer_from(s, 0);
    let r = mask_query_from(m, 0);
    lemma_mask_bearer_masks(s, 0);
    lemma_mask_query_keeps_bearer(m, 0);
    lemma_mask_bearer_fixed(r, 0);
    assert(r.subrange(0, r.len() as int) == r);
    lemma_mask_query_masks(m, 0);
    lemma_mask_query_fixed(r, 0);
}

} // verus!
