//! Verified helpers over `&str`: whitespace trimming, line splitting,
//! prefix tests, separator search and substring search.
//!
//! Every helper is specified against a recursive spec function over the
//! string's view, so callers can reason about the exact characters.

use vstd::prelude::*;

verus! {

/// The characters the Unicode `White_Space` property contains; `str::trim`
/// and `str::split_whitespace` strip exactly these.
pub open spec fn is_space_char(c: char) -> bool {
    c == ' ' || c == '\t' || c == '\n' || c == '\r' || c == '\u{b}' || c == '\u{c}'
        || c == '\u{85}' || c == '\u{a0}' || c == '\u{1680}'
        || ('\u{2000}' <= c && c <= '\u{200a}')
        || c == '\u{2028}' || c == '\u{2029}' || c == '\u{202f}' || c == '\u{205f}'
        || c == '\u{3000}'
}

/// Executable test for [`is_space_char`].
pub fn is_space(c: char) -> (r: bool)
    ensures
        r == is_space_char(c),
{
    c == ' ' || c == '\t' || c == '\n' || c == '\r' || c == '\u{b}' || c == '\u{c}'
        || c == '\u{85}' || c == '\u{a0}' || c == '\u{1680}'
        || ('\u{2000}' <= c && c <= '\u{200a}')
        || c == '\u{2028}' || c == '\u{2029}' || c == '\u{202f}' || c == '\u{205f}'
        || c == '\u{3000}'
}

/// The sequence with leading whitespace removed.
pub open spec fn trim_start_spec(s: Seq<char>) -> Seq<char>
    decreases s.len(),
{
    if s.len() > 0 && is_space_char(s[0]) {
        trim_start_spec(s.drop_first())
    } else {
        s
    }
}

/// The sequence with trailing whitespace removed.
pub open spec fn trim_end_spec(s: Seq<char>) -> Seq<char>
    decreases s.len(),
{
    if s.len() > 0 && is_space_char(s.last()) {
        trim_end_spec(s.drop_last())
    } else {
        s
    }
}

/// The sequence with whitespace removed from both ends, as `str::trim` leaves it.
pub open spec fn trim_spec(s: Seq<char>) -> Seq<char> {
    trim_end_spec(trim_start_spec(s))
}

proof fn lemma_trim_start_skip(s: Seq<char>, a: int)
    requires
        0 <= a <= s.len(),
        forall|i: int| 0 <= i < a ==> is_space_char(s[i]),
        a < s.len() ==> !is_space_char(s[a]),
    ensures
        trim_start_spec(s) =~= s.skip(a),
    decreases a,
{
    if a == 0 {
        if s.len() > 0 && is_space_char(s[0]) {
            assert(false);
        }
    } else {
        let t = s.drop_first();
        assert(forall|i: int| 0 <= i < a - 1 ==> is_space_char(#[trigger] t[i]));
        lemma_trim_start_skip(t, a - 1);
    }
}

proof fn lemma_trim_end_take(s: Seq<char>, b: int)
    requires
        0 <= b <= s.len(),
        forall|i: int| b <= i < s.len() ==> is_space_char(s[i]),
        b > 0 ==> !is_space_char(s[b - 1]),
    ensures
        trim_end_spec(s) =~= s.take(b),
    decreases s.len(),
{
    if b == s.len() {
        if s.len() > 0 && is_space_char(s.last()) {
            assert(false);
        }
        assert(s.take(b) =~= s);
    } else {
        let t = s.drop_last();
        lemma_trim_end_take(t, b);
        assert(t.take(b) =~= s.take(b));
    }
}

/// `str::trim`, verified against [`trim_spec`].
pub fn trim(s: &str) -> (r: &str)
    ensures
        r@ == trim_spec(s@),
{
    let n = s.unicode_len();
    let mut a: usize = 0;
    while a < n && is_space(s.get_char(a))
        invariant
            a <= n,
            n == s@.len(),
            forall|i: int| 0 <= i < a ==> is_space_char(s@[i]),
        decreases n - a,
    {
        a = a + 1;
    }
    let ghost skipped = s@.skip(a as int);
    proof {
        lemma_trim_start_skip(s@, a as int);
    }
    let mut b: usize = n;
    while b > a && is_space(s.get_char(b - 1))
        invariant
            a <= b <= n,
            n == s@.len(),
            forall|i: int| 0 <= i < a ==> is_space_char(s@[i]),
            a < n ==> !is_space_char(s@[a as int]),
            forall|i: int| b <= i < n ==> is_space_char(s@[i]),
        decreases b,
    {
        b = b - 1;
    }
    proof {
        assert(forall|i: int| b - a <= i < skipped.len() ==> is_space_char(#[trigger] skipped[i]));
        lemma_trim_end_take(skipped, b - a);
    }
    let r = s.substring_char(a, b);
    proof {
        assert(r@ =~= skipped.take(b - a));
    }
    r
}

/// Number of leading tab characters, which gives a line's structural depth.
pub open spec fn leading_tabs_spec(s: Seq<char>) -> nat
    decreases s.len(),
{
    if s.len() > 0 && s[0] == '\t' {
        1 + leading_tabs_spec(s.drop_first())
    } else {
        0
    }
}

proof fn lemma_leading_tabs_prefix(s: Seq<char>, a: int)
    requires
        0 <= a <= s.len(),
        forall|i: int| 0 <= i < a ==> s[i] == '\t',
        a < s.len() ==> s[a] != '\t',
    ensures
        leading_tabs_spec(s) == a,
    decreases a,
{
    if a == 0 {
    } else {
        let t = s.drop_first();
        assert(forall|i: int| 0 <= i < a - 1 ==> #[trigger] t[i] == '\t');
        lemma_leading_tabs_prefix(t, a - 1);
    }
}

/// Count the leading tab characters of a line.
pub fn count_leading_tabs(s: &str) -> (r: usize)
    ensures
        r == leading_tabs_spec(s@),
{
    let n = s.unicode_len();
    let mut a: usize = 0;
    while a < n && s.get_char(a) == '\t'
        invariant
            a <= n,
            n == s@.len(),
            forall|i: int| 0 <= i < a ==> s@[i] == '\t',
        decreases n - a,
    {
        a = a + 1;
    }
    proof {
        lemma_leading_tabs_prefix(s@, a as int);
    }
    a
}

/// The first index at or after `i` where two spaces stand side by side, or
/// `-1` when there is none.
pub open spec fn find_sep_from(s: Seq<char>, i: int) -> int
    decreases s.len() - i,
{
    if i < 0 || i + 2 > s.len() {
        -1
    } else if s[i] == ' ' && s[i + 1] == ' ' {
        i
    } else {
        find_sep_from(s, i + 1)
    }
}

/// The index of the first double-space separator of a record line, or `-1`.
pub open spec fn find_sep(s: Seq<char>) -> int {
    find_sep_from(s, 0)
}

proof fn lemma_find_sep_bounds(s: Seq<char>, i: int)
    requires
        0 <= i,
    ensures
        find_sep_from(s, i) == -1 || (i <= find_sep_from(s, i) && find_sep_from(s, i) + 2
            <= s.len()),
    decreases s.len() - i,
{
    if i + 2 <= s.len() && !(s[i] == ' ' && s[i + 1] == ' ') {
        lemma_find_sep_bounds(s, i + 1);
    }
}

/// Split a line at its first double-space separator: the id field on the
/// left, the name field on the right.
pub fn split_double_space(s: &str) -> (r: Option<(&str, &str)>)
    ensures
        match r {
            Some((l, rest)) => {
                &&& find_sep(s@) >= 0
                &&& l@ == s@.take(find_sep(s@))
                &&& rest@ == s@.skip(find_sep(s@) + 2)
            },
            None => find_sep(s@) == -1,
        },
{
    let n = s.unicode_len();
    let mut i: usize = 0;
    while n >= 2 && i <= n - 2
        invariant
            n == s@.len(),
            i <= n,
            find_sep(s@) == find_sep_from(s@, i as int),
        decreases n - i,
    {
        if s.get_char(i) == ' ' && s.get_char(i + 1) == ' ' {
            let l = s.substring_char(0, i);
            let rest = s.substring_char(i + 2, n);
            proof {
                assert(l@ =~= s@.take(i as int));
                assert(rest@ =~= s@.skip(i + 2));
            }
            return Some((l, rest));
        }
        i = i + 1;
    }
    None
}

/// True when `needle` occurs as a contiguous run inside `hay`.
pub open spec fn contains_seq(hay: Seq<char>, needle: Seq<char>) -> bool {
    exists|i: int|
        0 <= i <= hay.len() - needle.len() && #[trigger] hay.subrange(i, i + needle.len())
            == needle
}

/// Test whether `needle` occurs as a substring of `hay`.
pub fn contains_str(hay: &str, needle: &str) -> (r: bool)
    ensures
        r == contains_seq(hay@, needle@),
{
    let n = hay.unicode_len();
    let m = needle.unicode_len();
    if m > n {
        return false;
    }
    if m == 0 {
        proof {
            assert(hay@.subrange(0, 0 + needle@.len() as int) =~= needle@);
        }
        return true;
    }
    let mut i: usize = 0;
    while i <= n - m
        invariant
            m >= 1,
            m <= n,
            i <= n - m + 1,
            n == hay@.len(),
            m == needle@.len(),
            forall|k: int|
                0 <= k < i ==> #[trigger] hay@.subrange(k, k + needle@.len()) != needle@,
        decreases n - i,
    {
        let mut j: usize = 0;
        let mut matched = true;
        while j < m
            invariant
                i + m <= n,
                n == hay@.len(),
                m == needle@.len(),
                j <= m,
                matched ==> forall|k: int| 0 <= k < j ==> hay@[i + k] == needle@[k],
                !matched ==> hay@.subrange(i as int, i + needle@.len()) != needle@,
            decreases m - j,
        {
            if hay.get_char(i + j) != needle.get_char(j) {
                proof {
                    let jj = j as int;
                    assert(hay@.subrange(i as int, i + needle@.len())[jj] != needle@[jj]);
                }
                matched = false;
                j = m;
            } else {
                j = j + 1;
            }
        }
        if matched {
            proof {
                assert(hay@.subrange(i as int, i + needle@.len()) =~= needle@);
            }
            return true;
        }
        i = i + 1;
    }
    false
}

/// The first index at or after `i` holding whitespace, or the length when
/// the rest of `s` is solid.
pub open spec fn token_end_from(s: Seq<char>, i: int) -> int
    decreases s.len() - i,
{
    if i < 0 || i >= s.len() {
        s.len() as int
    } else if is_space_char(s[i]) {
        i
    } else {
        token_end_from(s, i + 1)
    }
}

proof fn lemma_token_end_bounds(s: Seq<char>, i: int)
    requires
        0 <= i <= s.len(),
    ensures
        i <= token_end_from(s, i) <= s.len(),
    decreases s.len() - i,
{
    if i < s.len() && !is_space_char(s[i]) {
        lemma_token_end_bounds(s, i + 1);
    }
}

proof fn lemma_token_end_at(s: Seq<char>, i: int, j: int)
    requires
        0 <= i <= j <= s.len(),
        forall|k: int| i <= k < j ==> !is_space_char(s[k]),
        j < s.len() ==> is_space_char(s[j]),
    ensures
        token_end_from(s, i) == j,
    decreases j - i,
{
    if i < j {
        lemma_token_end_at(s, i + 1, j);
    }
}

/// The maximal whitespace-free runs of `s` from index `i` on, in order.
pub open spec fn ws_tokens_from(s: Seq<char>, i: int) -> Seq<Seq<char>>
    decreases s.len() - i,
    via ws_tokens_from_decreases
{
    if i < 0 || i >= s.len() {
        Seq::empty()
    } else if is_space_char(s[i]) {
        ws_tokens_from(s, i + 1)
    } else {
        seq![s.subrange(i, token_end_from(s, i))] + ws_tokens_from(s, token_end_from(s, i))
    }
}

#[via_fn]
proof fn ws_tokens_from_decreases(s: Seq<char>, i: int) {
    if 0 <= i && i < s.len() && !is_space_char(s[i]) {
        lemma_token_end_bounds(s, i + 1);
    }
}

/// The whitespace-separated tokens of `s`, as `str::split_whitespace`
/// yields them.
pub open spec fn ws_tokens(s: Seq<char>) -> Seq<Seq<char>> {
    ws_tokens_from(s, 0)
}

/// The views of a sequence of string slices.
pub open spec fn views_of(ts: Seq<&str>) -> Seq<Seq<char>> {
    ts.map_values(|t: &str| t@)
}

/// Split `s` into its whitespace-separated tokens.
pub fn split_ws<'a>(s: &'a str) -> (r: Vec<&'a str>)
    ensures
        views_of(r@) == ws_tokens(s@),
{
    let n = s.unicode_len();
    let mut out: Vec<&'a str> = Vec::new();
    let mut i: usize = 0;
    proof {
        assert(views_of(out@) =~= Seq::<Seq<char>>::empty());
    }
    while i < n
        invariant
            i <= n,
            n == s@.len(),
            ws_tokens(s@) == views_of(out@) + ws_tokens_from(s@, i as int),
        decreases n - i,
    {
        if is_space(s.get_char(i)) {
            i = i + 1;
        } else {
            let ghost start = i as int;
            let mut j: usize = i + 1;
            while j < n && !is_space(s.get_char(j))
                invariant
                    start < j <= n,
                    n == s@.len(),
                    forall|k: int| start <= k < j ==> !is_space_char(s@[k]),
                decreases n - j,
            {
                j = j + 1;
            }
            proof {
                lemma_token_end_at(s@, start, j as int);
            }
            let t = s.substring_char(i, j);
            proof {
                assert(t@ =~= s@.subrange(start, token_end_from(s@, start)));
                assert(ws_tokens_from(s@, start) == seq![t@] + ws_tokens_from(s@, j as int));
            }
            let ghost prev = out@;
            out.push(t);
            proof {
                assert(views_of(out@) =~= views_of(prev) + seq![t@]);
                assert(views_of(prev) + (seq![t@] + ws_tokens_from(s@, j as int)) =~= (views_of(
                    prev,
                ) + seq![t@]) + ws_tokens_from(s@, j as int));
            }
            i = j;
        }
    }
    proof {
        assert(ws_tokens(s@) =~= views_of(out@));
    }
    out
}

/// The first index at or after `i` holding a newline, or the length.
pub open spec fn nl_end_from(s: Seq<char>, i: int) -> int
    decreases s.len() - i,
{
    if i < 0 || i >= s.len() {
        s.len() as int
    } else if s[i] == '\n' {
        i
    } else {
        nl_end_from(s, i + 1)
    }
}

proof fn lemma_nl_end_bounds(s: Seq<char>, i: int)
    requires
        0 <= i <= s.len(),
    ensures
        i <= nl_end_from(s, i) <= s.len(),
    decreases s.len() - i,
{
    if i < s.len() && s[i] != '\n' {
        lemma_nl_end_bounds(s, i + 1);
    }
}

proof fn lemma_nl_end_at(s: Seq<char>, i: int, j: int)
    requires
        0 <= i <= j <= s.len(),
        forall|k: int| i <= k < j ==> s[k] != '\n',
        j < s.len() ==> s[j] == '\n',
    ensures
        nl_end_from(s, i) == j,
    decreases j - i,
{
    if i < j {
        lemma_nl_end_at(s, i + 1, j);
    }
}

/// The lines of `s`: maximal newline-free runs, with no empty line after a
/// trailing newline, as `str::lines` splits a text without carriage returns.
pub open spec fn split_lines_spec(s: Seq<char>) -> Seq<Seq<char>>
    decreases s.len(),
    via split_lines_spec_decreases
{
    if s.len() == 0 {
        Seq::empty()
    } else {
        let e = nl_end_from(s, 0);
        if e == s.len() {
            seq![s]
        } else {
            seq![s.take(e)] + split_lines_spec(s.skip(e + 1))
        }
    }
}

#[via_fn]
proof fn split_lines_spec_decreases(s: Seq<char>) {
    if s.len() > 0 {
        lemma_nl_end_bounds(s, 0);
    }
}

/// Split a document into lines at newline characters.
pub fn split_lines<'a>(s: &'a str) -> (r: Vec<&'a str>)
    ensures
        views_of(r@) == split_lines_spec(s@),
{
    let n = s.unicode_len();
    let mut out: Vec<&'a str> = Vec::new();
    let mut start: usize = 0;
    let mut i: usize = 0;
    proof {
        assert(views_of(out@) =~= Seq::<Seq<char>>::empty());
        assert(s@.skip(0) =~= s@);
        assert(views_of(out@) + split_lines_spec(s@) =~= split_lines_spec(s@));
    }
    while i < n
        invariant
            start <= i <= n,
            n == s@.len(),
            split_lines_spec(s@) == views_of(out@) + split_lines_spec(s@.skip(start as int)),
            forall|k: int| start <= k < i ==> s@[k] != '\n',
        decreases n - i,
    {
        if s.get_char(i) == '\n' {
            let t = s.substring_char(start, i);
            let ghost suf = s@.skip(start as int);
            proof {
                assert(forall|k: int|
                    0 <= k < i - start ==> #[trigger] suf[k] == s@[start + k] && suf[k] != '\n');
                assert(suf[i - start as int] == '\n');
                lemma_nl_end_at(suf, 0, i - start as int);
                assert(suf.take(i - start as int) =~= t@);
                assert(suf.skip(i - start + 1) =~= s@.skip(i + 1));
                assert(split_lines_spec(suf) == seq![t@] + split_lines_spec(s@.skip(i + 1)));
            }
            let ghost prev = out@;
            out.push(t);
            proof {
                assert(views_of(out@) =~= views_of(prev) + seq![t@]);
                assert(views_of(prev) + (seq![t@] + split_lines_spec(s@.skip(i + 1))) =~= (
                views_of(prev) + seq![t@]) + split_lines_spec(s@.skip(i + 1)));
            }
            start = i + 1;
        }
        i = i + 1;
    }
    if start < n {
        let t = s.substring_char(start, n);
        let ghost suf = s@.skip(start as int);
        proof {
            assert(forall|k: int|
                0 <= k < n - start ==> #[trigger] suf[k] == s@[start + k] && suf[k] != '\n');
            lemma_nl_end_at(suf, 0, n - start as int);
            assert(suf.take(n - start as int) =~= suf);
            assert(t@ =~= suf);
            assert(split_lines_spec(suf) == seq![t@]);
        }
        let ghost prev = out@;
        out.push(t);
        proof {
            assert(views_of(out@) =~= views_of(prev) + seq![t@]);
        }
    } else {
        proof {
            assert(s@.skip(start as int).len() == 0);
        }
    }
    proof {
        assert(split_lines_spec(s@) =~= views_of(out@));
    }
    out
}

} // verus!
