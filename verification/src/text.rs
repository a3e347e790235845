//! Character-level helpers shared by the string-processing modules: strings
//! are handled as sequences of `char`, searched and rebuilt with a contract
//! on each step.

use vstd::prelude::*;

verus! {

/// The characters of `s`, in order.
pub fn chars_of(s: &str) -> (r: Vec<char>)
    ensures
        r@ == s@,
{
    let mut out: Vec<char> = Vec::new();
    for c in it: s.chars()
        invariant
            it.seq() == s@,
            out@ == it.seq().take(it.index() as int),
    {
        proof {
            assert(it.seq().take(it.index() as int).push(c) == it.seq().take(it.index() + 1));
        }
        out.push(c);
    }
    out
}

/// Appends one character to a `String` (`String::push`).
#[verifier::external_body]
pub(crate) fn push_char(s: &mut String, c: char)
    ensures
        final(s)@ == old(s)@.push(c),
{
    s.push(c);
}

/// A `String` holding exactly the characters of `cs`.
pub fn string_from(cs: &[char]) -> (r: String)
    ensures
        r@ == cs@,
{
    let mut out = String::new();
    let mut i: usize = 0;
    while i < cs.len()
        invariant
            i <= cs@.len(),
            out@ == cs@.take(i as int),
        decreases cs@.len() - i,
    {
        proof {
            assert(cs@.take(i as int).push(cs@[i as int]) == cs@.take(i + 1));
        }
        push_char(&mut out, cs[i]);
        i = i + 1;
    }
    proof {
        assert(cs@.take(cs@.len() as int) == cs@);
    }
    out
}

/// Appends all of `tail` to `out`.
pub fn extend_chars(out: &mut Vec<char>, tail: &[char])
    ensures
        final(out)@ == old(out)@ + tail@,
{
    let mut i: usize = 0;
    while i < tail.len()
        invariant
            i <= tail@.len(),
            out@ == old(out)@ + tail@.take(i as int),
        decreases tail@.len() - i,
    {
        proof {
            assert(tail@.take(i as int).push(tail@[i as int]) == tail@.take(i + 1));
        }
        out.push(tail[i]);
        i = i + 1;
    }
    proof {
        assert(tail@.take(tail@.len() as int) == tail@);
    }
}

/// Appends `s[from..to]` to `out`.
pub fn extend_range(out: &mut Vec<char>, s: &[char], from: usize, to: usize)
    requires
        from <= to <= s@.len(),
    ensures
        final(out)@ == old(out)@ + s@.subrange(from as int, to as int),
{
    let mut i: usize = from;
    while i < to
        invariant
            from <= i <= to <= s@.len(),
            out@ == old(out)@ + s@.subrange(from as int, i as int),
        decreases to - i,
    {
        proof {
            assert(s@.subrange(from as int, i as int).push(s@[i as int]) == s@.subrange(
                from as int,
                i + 1,
            ));
        }
        out.push(s[i]);
        i = i + 1;
    }
}

/// `pat` occurs in `s` starting at index `i`.
pub open spec fn matches_at(s: Seq<char>, pat: Seq<char>, i: int) -> bool {
    &&& 0 <= i
    &&& i + pat.len() <= s.len()
    &&& forall|j: int| 0 <= j < pat.len() ==> s[i + j] == pat[j]
}

/// First index `>= i` at which `pat` occurs in `s` (what `str::find` gives
/// on the suffix starting at `i`, counted from the start of `s`).
pub open spec fn find_from(s: Seq<char>, pat: Seq<char>, i: int) -> Option<int>
    decreases s.len() - i,
{
    if i < 0 || i + pat.len() > s.len() {
        None
    } else if matches_at(s, pat, i) {
        Some(i)
    } else {
        find_from(s, pat, i + 1)
    }
}

pub proof fn lemma_find_from_bounds(s: Seq<char>, pat: Seq<char>, i: int)
    ensures
        find_from(s, pat, i) matches Some(p) ==> i <= p && matches_at(s, pat, p),
    decreases s.len() - i,
{
    if i < 0 || i + pat.len() > s.len() {
    } else if matches_at(s, pat, i) {
    } else {
        lemma_find_from_bounds(s, pat, i + 1);
    }
}

/// Whether `pat` occurs at index `i` of `s` (exec).
pub fn occurs_at(s: &[char], pat: &[char], i: usize) -> (r: bool)
    requires
        i + pat@.len() <= s@.len(),
    ensures
        r == matches_at(s@, pat@, i as int),
{
    let n = s.len();
    let mut j: usize = 0;
    while j < pat.len()
        invariant
            j <= pat@.len(),
            n == s@.len(),
            i + pat@.len() <= s@.len(),
            forall|k: int| 0 <= k < j ==> s@[i + k] == pat@[k],
        decreases pat@.len() - j,
    {
        if s[i + j] != pat[j] {
            return false;
        }
        j = j + 1;
    }
    true
}

/// First occurrence of `pat` in `s` at or after `from`.
pub fn find_pattern(s: &[char], pat: &[char], from: usize) -> (r: Option<usize>)
    ensures
        match r {
            None => find_from(s@, pat@, from as int) is None,
            Some(p) => find_from(s@, pat@, from as int) == Some(p as int),
        },
{
    if pat.len() > s.len() {
        return None;
    }
    let last: usize = s.len() - pat.len();
    let mut i: usize = from;
    if from > last {
        return None;
    }
    loop
        invariant
            last + pat@.len() == s@.len(),
            from <= i <= last,
            find_from(s@, pat@, from as int) == find_from(s@, pat@, i as int),
        decreases last - i,
    {
        if occurs_at(s, pat, i) {
            return Some(i);
        }
        if i == last {
            proof {
                assert(find_from(s@, pat@, i + 1) is None);
            }
            return None;
        }
        i = i + 1;
    }
}

} // verus!

verus! {

/// Decimal digits of `n`, most significant first, without leading zeros
/// (`"0"` for zero): what `to_string` gives for an unsigned integer.
pub open spec fn decimal(n: nat) -> Seq<char>
    decreases n,
{
    if n < 10 {
        seq![digit_char(n)]
    } else {
        decimal(n / 10).push(digit_char(n % 10))
    }
}

/// The ASCII digit for `d < 10`.
pub open spec fn digit_char(d: nat) -> char {
    if d == 0 {
        '0'
    } else if d == 1 {
        '1'
    } else if d == 2 {
        '2'
    } else if d == 3 {
        '3'
    } else if d == 4 {
        '4'
    } else if d == 5 {
        '5'
    } else if d == 6 {
        '6'
    } else if d == 7 {
        '7'
    } else if d == 8 {
        '8'
    } else {
        '9'
    }
}

fn digit(d: u64) -> (c: char)
    requires
        d < 10,
    ensures
        c == digit_char(d as nat),
{
    if d == 0 {
        '0'
    } else if d == 1 {
        '1'
    } else if d == 2 {
        '2'
    } else if d == 3 {
        '3'
    } else if d == 4 {
        '4'
    } else if d == 5 {
        '5'
    } else if d == 6 {
        '6'
    } else if d == 7 {
        '7'
    } else if d == 8 {
        '8'
    } else {
        '9'
    }
}

/// Appends the decimal digits of `n` to `out`.
pub fn push_decimal(out: &mut Vec<char>, n: u64)
    ensures
        final(out)@ == old(out)@ + decimal(n as nat),
    decreases n,
{
    if n < 10 {
        out.push(digit(n));
    } else {
        push_decimal(out, n / 10);
        out.push(digit(n % 10));
        proof {
            assert(old(out)@ + decimal(n as nat) == old(out)@ + decimal((n / 10) as nat) + seq![
                digit_char((n % 10) as nat),
            ]);
        }
    }
}

/// `n.to_string()`.
pub fn decimal_string(n: u64) -> (r: String)
    ensures
        r@ == decimal(n as nat),
{
    let mut cs: Vec<char> = Vec::new();
    push_decimal(&mut cs, n);
    assert(cs@ == decimal(n as nat));
    string_from(cs.as_slice())
}

/// A `String` with the characters of a literal.
pub fn owned(s: &str) -> (r: String)
    ensures
        r@ == s@,
{
    s.to_owned()
}

/// The views of a sequence of strings.
pub open spec fn views(v: Seq<String>) -> Seq<Seq<char>> {
    v.map_values(|s: String| s@)
}

} // verus!

verus! {

/// Appends an owned copy of `s` to `v`.
pub fn push_str_item(v: &mut Vec<String>, s: &str)
    ensures
        views(final(v)@) == views(old(v)@).push(s@),
{
    let item = owned(s);
    v.push(item);
    proof {
        assert(views(v@) =~= views(old(v)@).push(s@));
    }
}

/// Appends `item` to `v`.
pub fn push_string_item(v: &mut Vec<String>, item: String)
    ensures
        views(final(v)@) == views(old(v)@).push(item@),
{
    let ghost iv = item@;
    v.push(item);
    proof {
        assert(views(v@) =~= views(old(v)@).push(iv));
    }
}

/// Appends all of `tail` to `v`.
pub fn append_items(v: &mut Vec<String>, tail: Vec<String>)
    ensures
        views(final(v)@) == views(old(v)@) + views(tail@),
{
    let ghost tv = views(tail@);
    let mut i: usize = 0;
    let n = tail.len();
    let items = tail;
    let ghost start = views(v@);
    while i < n
        invariant
            n == items@.len(),
            i <= n,
            tv == views(items@),
            views(v@) == start + tv.take(i as int),
        decreases n - i,
    {
        let item = items[i].clone();
        proof {
            assert(item@ == tv[i as int]);
            assert(tv.take(i as int).push(tv[i as int]) == tv.take(i + 1));
        }
        push_string_item(v, item);
        i = i + 1;
    }
    proof {
        assert(tv.take(n as int) == tv);
    }
}

} // verus!

verus! {

pub proof fn lemma_find_from_skip(s: Seq<char>, pat: Seq<char>, r: int, i: int)
    requires
        0 <= r <= s.len(),
        0 <= i,
    ensures
        find_from(s.skip(r), pat, i) == match find_from(s, pat, i + r) {
            None => None::<int>,
            Some(p) => Some(p - r),
        },
    decreases s.len() - r - i,
{
    let t = s.skip(r);
    if i + pat.len() > t.len() {
    } else {
        assert(matches_at(t, pat, i) == matches_at(s, pat, i + r)) by {
            if matches_at(t, pat, i) {
                assert forall|j: int| 0 <= j < pat.len() implies s[i + r + j] == pat[j] by {
                    assert(t[i + j] == s[i + j + r]);
                }
            }
            if matches_at(s, pat, i + r) {
                assert forall|j: int| 0 <= j < pat.len() implies t[i + j] == pat[j] by {
                    assert(t[i + j] == s[i + j + r]);
                }
            }
        }
        if !matches_at(t, pat, i) {
            lemma_find_from_skip(s, pat, r, i + 1);
        }
    }
}

/// Whitespace as `char::is_whitespace` decides it (Unicode `White_Space`).
pub open spec fn is_ws(c: char) -> bool {
    crate::redact::is_whitespace(c)
}

/// `s` without its leading whitespace.
pub open spec fn trim_start(s: Seq<char>) -> Seq<char>
    decreases s.len(),
{
    if s.len() > 0 && is_ws(s[0]) {
        trim_start(s.drop_first())
    } else {
        s
    }
}

/// `s` without its trailing whitespace.
pub open spec fn trim_end(s: Seq<char>) -> Seq<char>
    decreases s.len(),
{
    if s.len() > 0 && is_ws(s.last()) {
        trim_end(s.drop_last())
    } else {
        s
    }
}

/// `str::trim`.
pub open spec fn trim(s: Seq<char>) -> Seq<char> {
    trim_end(trim_start(s))
}

/// `s[from..to]` with whitespace removed from both ends.
pub fn trimmed_range(s: &[char], from: usize, to: usize) -> (r: Vec<char>)
    requires
        from <= to <= s@.len(),
    ensures
        r@ == trim(s@.subrange(from as int, to as int)),
{
    let mut a = from;
    while a < to && crate::redact::char_is_whitespace(s[a])
        invariant
            from <= a <= to <= s@.len(),
            trim_start(s@.subrange(from as int, to as int)) == trim_start(
                s@.subrange(a as int, to as int),
            ),
        decreases to - a,
    {
        proof {
            assert(s@.subrange(a as int, to as int).drop_first() == s@.subrange(a + 1, to as int));
        }
        a = a + 1;
    }
    let mut b = to;
    while b > a && crate::redact::char_is_whitespace(s[b - 1])
        invariant
            from <= a <= b <= to <= s@.len(),
            trim_end(s@.subrange(a as int, to as int)) == trim_end(s@.subrange(a as int, b as int)),
        decreases b - a,
    {
        proof {
            assert(s@.subrange(a as int, b as int).drop_last() == s@.subrange(a as int, b - 1));
        }
        b = b - 1;
    }
    proof {
        if a < to {
            assert(!is_ws(s@.subrange(a as int, to as int)[0]));
        }
        assert(trim_start(s@.subrange(a as int, to as int)) == s@.subrange(a as int, to as int));
        if b > a {
            assert(!is_ws(s@.subrange(a as int, b as int).last()));
        }
        assert(trim_end(s@.subrange(a as int, b as int)) == s@.subrange(a as int, b as int));
    }
    let mut out: Vec<char> = Vec::new();
    extend_range(&mut out, s, a, b);
    out
}

/// ASCII lower-casing of one character (`char::to_ascii_lowercase`).
pub open spec fn ascii_lower(c: char) -> char {
    if 'A' <= c <= 'Z' {
        ((c as u32) + 32) as char
    } else {
        c
    }
}

/// `str::to_ascii_lowercase`.
pub open spec fn lower(s: Seq<char>) -> Seq<char> {
    s.map_values(|c: char| ascii_lower(c))
}

/// `str::eq_ignore_ascii_case`.
pub open spec fn eq_ignore_ascii_case(a: Seq<char>, b: Seq<char>) -> bool {
    lower(a) == lower(b)
}

pub fn to_ascii_lower_char(c: char) -> (r: char)
    ensures
        r == ascii_lower(c),
{
    if 'A' <= c && c <= 'Z' {
        let u = c as u8;
        let l = (u + 32) as char;
        assert(l == ((c as u32) + 32) as char);
        l
    } else {
        c
    }
}

/// The ASCII-lower-cased copy of `s`.
pub fn lowercase_chars(s: &[char]) -> (r: Vec<char>)
    ensures
        r@ == lower(s@),
{
    let mut out: Vec<char> = Vec::new();
    let mut i: usize = 0;
    while i < s.len()
        invariant
            i <= s@.len(),
            out@ == lower(s@.take(i as int)),
        decreases s@.len() - i,
    {
        proof {
            assert(lower(s@.take(i + 1)) == lower(s@.take(i as int)).push(ascii_lower(s@[i as int])));
        }
        out.push(to_ascii_lower_char(s[i]));
        i = i + 1;
    }
    proof {
        assert(s@.take(s@.len() as int) == s@);
    }
    out
}

/// Whether two character sequences are equal.
pub fn same_chars(a: &[char], b: &[char]) -> (r: bool)
    ensures
        r == (a@ == b@),
{
    if a.len() != b.len() {
        return false;
    }
    let mut i: usize = 0;
    while i < a.len()
        invariant
            a@.len() == b@.len(),
            i <= a@.len(),
            forall|k: int| 0 <= k < i ==> a@[k] == b@[k],
        decreases a@.len() - i,
    {
        if a[i] != b[i] {
            return false;
        }
        i = i + 1;
    }
    proof {
        assert(a@ =~= b@);
    }
    true
}

/// Whether two character sequences are equal ignoring ASCII case.
pub fn same_ignoring_ascii_case(a: &[char], b: &[char]) -> (r: bool)
    ensures
        r == eq_ignore_ascii_case(a@, b@),
{
    let la = lowercase_chars(a);
    let lb = lowercase_chars(b);
    same_chars(la.as_slice(), lb.as_slice())
}

} // verus!

verus! {

/// A line with its `\r` removed when one ends it.
pub open spec fn strip_cr(l: Seq<char>) -> Seq<char> {
    if l.len() > 0 && l.last() == '\r' {
        l.drop_last()
    } else {
        l
    }
}

/// `str::lines`: the text split at each `\n`, a `\r` before the `\n`
/// removed, and no empty line after a final `\n`.
pub open spec fn lines_of(s: Seq<char>) -> Seq<Seq<char>>
    decreases s.len(),
{
    if s.len() == 0 {
        seq![]
    } else {
        match find_from(s, seq!['\n'], 0) {
            None => seq![s],
            Some(i) => {
                proof {
                    lemma_find_from_bounds(s, seq!['\n'], 0);
                }
                seq![strip_cr(s.take(i))] + lines_of(s.skip(i + 1))
            },
        }
    }
}

/// The lines of `s`, as `str::lines` gives them.
pub fn split_lines(s: &[char]) -> (r: Vec<Vec<char>>)
    ensures
        r@.map_values(|l: Vec<char>| l@) == lines_of(s@),
{
    let newline: Vec<char> = vec!['\n'];
    let n = s.len();
    let mut out: Vec<Vec<char>> = Vec::new();
    let mut r: usize = 0;
    proof {
        assert(s@.skip(0) == s@);
        assert(out@.map_values(|l: Vec<char>| l@) =~= Seq::<Seq<char>>::empty());
        assert(Seq::<Seq<char>>::empty() + lines_of(s@) == lines_of(s@));
    }
    loop
        invariant
            n == s@.len(),
            r <= n,
            newline@ == seq!['\n'],
            out@.map_values(|l: Vec<char>| l@) + lines_of(s@.skip(r as int)) == lines_of(s@),
        decreases n - r,
    {
        let ghost rest = s@.skip(r as int);
        proof {
            lemma_find_from_skip(s@, seq!['\n'], r as int, 0);
            lemma_find_from_bounds(s@, seq!['\n'], r as int);
        }
        if r == n {
            proof {
                assert(rest.len() == 0);
                assert(out@.map_values(|l: Vec<char>| l@) == lines_of(s@));
            }
            return out;
        }
        match find_pattern(s, newline.as_slice(), r) {
            None => {
                let mut line: Vec<char> = Vec::new();
                extend_range(&mut line, s, r, n);
                proof {
                    assert(line@ == rest);
                }
                let ghost before = out@.map_values(|l: Vec<char>| l@);
                out.push(line);
                proof {
                    assert(out@.map_values(|l: Vec<char>| l@) == before.push(rest));
                    assert(lines_of(rest) == seq![rest]);
                    assert(before + seq![rest] == before.push(rest));
                }
                return out;
            },
            Some(i) => {
                let mut end = i;
                if end > r && s[end - 1] == '\r' {
                    end = end - 1;
                }
                let mut line: Vec<char> = Vec::new();
                extend_range(&mut line, s, r, end);
                proof {
                    assert(rest.take(i - r) == s@.subrange(r as int, i as int));
                    assert(line@ == strip_cr(rest.take(i - r)));
                    assert(rest.skip(i - r + 1) == s@.skip(i + 1));
                }
                let ghost before = out@.map_values(|l: Vec<char>| l@);
                out.push(line);
                proof {
                    assert(out@.map_values(|l: Vec<char>| l@) == before.push(line@));
                    assert(lines_of(rest) == seq![line@] + lines_of(s@.skip(i + 1)));
                    assert(before.push(line@) + lines_of(s@.skip(i + 1)) == before + (seq![line@]
                        + lines_of(s@.skip(i + 1))));
                }
                r = i + 1;
            },
        }
    }
}

} // verus!

verus! {

/// Lexicographic order of character sequences by code point; for `String`s
/// this is the order of `Ord` (UTF-8 byte order follows code point order).
pub open spec fn lex_lt(a: Seq<char>, b: Seq<char>) -> bool
    decreases a.len(),
{
    if a.len() == 0 {
        b.len() > 0
    } else if b.len() == 0 {
        false
    } else if a[0] < b[0] {
        true
    } else if a[0] > b[0] {
        false
    } else {
        lex_lt(a.drop_first(), b.drop_first())
    }
}

pub proof fn lemma_lex_irreflexive(a: Seq<char>)
    ensures
        !lex_lt(a, a),
    decreases a.len(),
{
    if a.len() > 0 {
        lemma_lex_irreflexive(a.drop_first());
    }
}

pub proof fn lemma_lex_trichotomy(a: Seq<char>, b: Seq<char>)
    ensures
        lex_lt(a, b) || lex_lt(b, a) || a == b,
        !(lex_lt(a, b) && lex_lt(b, a)),
    decreases a.len(),
{
    if a.len() > 0 && b.len() > 0 {
        lemma_lex_trichotomy(a.drop_first(), b.drop_first());
        if a[0] == b[0] && a.drop_first() == b.drop_first() {
            assert forall|i: int| 0 <= i < a.len() implies a[i] == b[i] by {
                if i > 0 {
                    assert(a[i] == a.drop_first()[i - 1]);
                    assert(b[i] == b.drop_first()[i - 1]);
                }
            }
            assert(a =~= b);
        }
    } else if a.len() == 0 && b.len() == 0 {
        assert(a =~= b);
    }
}

pub proof fn lemma_lex_transitive(a: Seq<char>, b: Seq<char>, c: Seq<char>)
    requires
        lex_lt(a, b),
        lex_lt(b, c),
    ensures
        lex_lt(a, c),
    decreases a.len(),
{
    if a.len() > 0 && b.len() > 0 && c.len() > 0 {
        if a[0] == b[0] && b[0] == c[0] {
            lemma_lex_transitive(a.drop_first(), b.drop_first(), c.drop_first());
        }
    }
}

/// `lex_lt(a, b)` on characters held in slices.
pub fn lex_less(a: &[char], b: &[char]) -> (r: bool)
    ensures
        r == lex_lt(a@, b@),
{
    let mut i: usize = 0;
    proof {
        assert(a@.skip(0) == a@);
        assert(b@.skip(0) == b@);
    }
    while i < a.len() && i < b.len()
        invariant
            i <= a@.len(),
            i <= b@.len(),
            lex_lt(a@, b@) == lex_lt(a@.skip(i as int), b@.skip(i as int)),
        decreases a@.len() - i,
    {
        if a[i] < b[i] {
            return true;
        }
        if a[i] > b[i] {
            return false;
        }
        proof {
            assert(a@.skip(i as int).drop_first() == a@.skip(i + 1));
            assert(b@.skip(i as int).drop_first() == b@.skip(i + 1));
            assert(a@.take(i + 1) == a@.take(i as int).push(a@[i as int]));
            assert(b@.take(i + 1) == b@.take(i as int).push(b@[i as int]));
        }
        i = i + 1;
    }
    i == a.len() && i < b.len()
}

/// `p` is a prefix of `s` (`str::starts_with`).
pub open spec fn has_prefix(s: Seq<char>, p: Seq<char>) -> bool {
    p.len() <= s.len() && s.take(p.len() as int) == p
}

/// Whether `s` starts with `p`.
pub fn starts_with_chars(s: &[char], p: &[char]) -> (r: bool)
    ensures
        r == has_prefix(s@, p@),
{
    if p.len() > s.len() {
        return false;
    }
    let r = occurs_at(s, p, 0);
    proof {
        if r {
            assert(s@.take(p@.len() as int) =~= p@);
        } else if has_prefix(s@, p@) {
            assert forall|j: int| 0 <= j < p@.len() implies s@[0 + j] == p@[j] by {
                assert(s@.take(p@.len() as int)[j] == p@[j]);
            }
        }
    }
    r
}

/// The items joined with `sep` between each two.
pub open spec fn joined(ls: Seq<Seq<char>>, sep: Seq<char>) -> Seq<char>
    decreases ls.len(),
{
    if ls.len() == 0 {
        seq![]
    } else if ls.len() == 1 {
        ls[0]
    } else {
        joined(ls.drop_last(), sep) + sep + ls.last()
    }
}

/// The items of `parts` from `start` on, joined with `sep`.
pub fn join_parts(parts: &Vec<Vec<char>>, start: usize, sep: &[char]) -> (r: Vec<char>)
    requires
        start <= parts@.len(),
    ensures
        r@ == joined(parts@.map_values(|l: Vec<char>| l@).skip(start as int), sep@),
{
    let ghost ps = parts@.map_values(|l: Vec<char>| l@);
    let mut out: Vec<char> = Vec::new();
    let mut j: usize = start;
    proof {
        assert(ps.subrange(start as int, start as int) =~= Seq::<Seq<char>>::empty());
    }
    while j < parts.len()
        invariant
            start <= j <= parts@.len(),
            ps == parts@.map_values(|l: Vec<char>| l@),
            out@ == joined(ps.subrange(start as int, j as int), sep@),
        decreases parts@.len() - j,
    {
        proof {
            let next = ps.subrange(start as int, j + 1);
            assert(next.drop_last() == ps.subrange(start as int, j as int));
            assert(next.last() == parts@[j as int]@);
            if j == start {
                assert(next.len() == 1);
                assert(next[0] == parts@[j as int]@);
            }
        }
        if j > start {
            extend_chars(&mut out, sep);
        }
        let part = &parts[j];
        extend_chars(&mut out, part.as_slice());
        j = j + 1;
    }
    proof {
        assert(ps.subrange(start as int, parts@.len() as int) == ps.skip(start as int));
    }
    out
}

/// The items one after the other.
pub open spec fn concat_all(ls: Seq<Seq<char>>) -> Seq<char>
    decreases ls.len(),
{
    if ls.len() == 0 {
        seq![]
    } else {
        concat_all(ls.drop_last()) + ls.last()
    }
}

/// All of `parts`, one after the other.
pub fn concat_parts(parts: &Vec<Vec<char>>) -> (r: Vec<char>)
    ensures
        r@ == concat_all(parts@.map_values(|l: Vec<char>| l@)),
{
    let ghost ps = parts@.map_values(|l: Vec<char>| l@);
    let mut out: Vec<char> = Vec::new();
    let mut j: usize = 0;
    proof {
        assert(ps.take(0) =~= Seq::<Seq<char>>::empty());
    }
    while j < parts.len()
        invariant
            j <= parts@.len(),
            ps == parts@.map_values(|l: Vec<char>| l@),
            out@ == concat_all(ps.take(j as int)),
        decreases parts@.len() - j,
    {
        proof {
            assert(ps.take(j + 1).drop_last() == ps.take(j as int));
            assert(ps.take(j + 1).last() == parts@[j as int]@);
        }
        let part = &parts[j];
        extend_chars(&mut out, part.as_slice());
        j = j + 1;
    }
    proof {
        assert(ps.take(parts@.len() as int) == ps);
    }
    out
}

/// Appends the characters of `s` to `out`.
pub fn extend_str(out: &mut Vec<char>, s: &str)
    ensures
        final(out)@ == old(out)@ + s@,
{
    let cs = chars_of(s);
    extend_chars(out, cs.as_slice());
}

/// `str::split` on one character: the pieces between the separators, an
/// empty piece at either end or between two adjacent separators included.
pub open spec fn split_char(s: Seq<char>, c: char) -> Seq<Seq<char>>
    decreases s.len(),
{
    match find_from(s, seq![c], 0) {
        None => seq![s],
        Some(i) => {
            proof {
                lemma_find_from_bounds(s, seq![c], 0);
            }
            seq![s.take(i)] + split_char(s.skip(i + 1), c)
        },
    }
}

/// The pieces of `s` between occurrences of `c`.
pub fn split_at_char(s: &[char], c: char) -> (r: Vec<Vec<char>>)
    ensures
        r@.map_values(|l: Vec<char>| l@) == split_char(s@, c),
{
    let mut sep: Vec<char> = Vec::new();
    sep.push(c);
    let n = s.len();
    let mut out: Vec<Vec<char>> = Vec::new();
    let mut r: usize = 0;
    proof {
        assert(sep@ =~= seq![c]);
        assert(s@.skip(0) == s@);
        assert(out@.map_values(|l: Vec<char>| l@) =~= Seq::<Seq<char>>::empty());
        assert(Seq::<Seq<char>>::empty() + split_char(s@, c) == split_char(s@, c));
    }
    loop
        invariant
            n == s@.len(),
            r <= n,
            sep@ == seq![c],
            out@.map_values(|l: Vec<char>| l@) + split_char(s@.skip(r as int), c) == split_char(
                s@,
                c,
            ),
        decreases n - r,
    {
        let ghost rest = s@.skip(r as int);
        proof {
            lemma_find_from_skip(s@, seq![c], r as int, 0);
            lemma_find_from_bounds(s@, seq![c], r as int);
        }
        match find_pattern(s, sep.as_slice(), r) {
            None => {
                let mut piece: Vec<char> = Vec::new();
                extend_range(&mut piece, s, r, n);
                proof {
                    assert(piece@ == rest);
                }
                let ghost before = out@.map_values(|l: Vec<char>| l@);
                out.push(piece);
                proof {
                    assert(out@.map_values(|l: Vec<char>| l@) == before.push(rest));
                    assert(split_char(rest, c) == seq![rest]);
                    assert(before + seq![rest] == before.push(rest));
                }
                return out;
            },
            Some(i) => {
                let mut piece: Vec<char> = Vec::new();
                extend_range(&mut piece, s, r, i);
                proof {
                    assert(rest.take(i - r) == s@.subrange(r as int, i as int));
                    assert(rest.skip(i - r + 1) == s@.skip(i + 1));
                }
                let ghost before = out@.map_values(|l: Vec<char>| l@);
                out.push(piece);
                proof {
                    assert(out@.map_values(|l: Vec<char>| l@) == before.push(piece@));
                    assert(split_char(rest, c) == seq![piece@] + split_char(s@.skip(i + 1), c));
                    assert(before.push(piece@) + split_char(s@.skip(i + 1), c) == before + (seq![
                        piece@,
                    ] + split_char(s@.skip(i + 1), c)));
                }
                r = i + 1;
            },
        }
    }
}

} // verus!
