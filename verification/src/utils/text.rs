//! Character-level text primitives shared by the naming and parsing logic.
//!
//! Everything here works on `Seq<char>` views; the executable helpers are
//! verified against those views, so the rest of the crate can state its
//! contracts purely over sequences of characters.

use vstd::prelude::*;
use vstd::string::*;

verus! {

/// ASCII whitespace: the class trimmed from branch names and listings.
pub open spec fn is_space(c: char) -> bool {
    c == ' ' || c == '\t' || c == '\n' || c == '\r' || c == '\u{0b}' || c == '\u{0c}'
}

pub open spec fn all_space(s: Seq<char>) -> bool {
    forall|k: int| 0 <= k < s.len() ==> is_space(s[k])
}

pub open spec fn trim_start(s: Seq<char>) -> Seq<char>
    decreases s.len(),
{
    if s.len() > 0 && is_space(s[0]) {
        trim_start(s.drop_first())
    } else {
        s
    }
}

pub open spec fn trim_end(s: Seq<char>) -> Seq<char>
    decreases s.len(),
{
    if s.len() > 0 && is_space(s[s.len() - 1]) {
        trim_end(s.drop_last())
    } else {
        s
    }
}

/// Leading and trailing whitespace removed, as `str::trim` does.
pub open spec fn trim(s: Seq<char>) -> Seq<char> {
    trim_end(trim_start(s))
}

/// `t` starts with `p`.
pub open spec fn has_prefix(t: Seq<char>, p: Seq<char>) -> bool {
    t.len() >= p.len() && t.subrange(0, p.len() as int) == p
}

/// `trim_start` drops exactly the chars before the first non-space index.
pub proof fn lemma_trim_start_at(s: Seq<char>, lo: int)
    requires
        0 <= lo <= s.len(),
        forall|k: int| 0 <= k < lo ==> is_space(s[k]),
        lo == s.len() || !is_space(s[lo]),
    ensures
        trim_start(s) == s.subrange(lo, s.len() as int),
    decreases lo,
{
    if lo == 0 {
        assert(s.subrange(0, s.len() as int) =~= s);
    } else {
        assert(is_space(s[0]));
        let d = s.drop_first();
        assert(d =~= s.subrange(1, s.len() as int));
        lemma_trim_start_at(d, lo - 1);
        assert(d.subrange(lo - 1, d.len() as int) =~= s.subrange(lo, s.len() as int));
    }
}

/// `trim_end` drops exactly the chars from the last non-space index on.
pub proof fn lemma_trim_end_at(s: Seq<char>, hi: int)
    requires
        0 <= hi <= s.len(),
        forall|k: int| hi <= k < s.len() ==> is_space(s[k]),
        hi == 0 || !is_space(s[hi - 1]),
    ensures
        trim_end(s) == s.subrange(0, hi),
    decreases s.len() - hi,
{
    if hi == s.len() {
        if s.len() > 0 && is_space(s[s.len() - 1]) {
            assert(!is_space(s[hi - 1]));
            assert(false);
        }
        assert(s.subrange(0, s.len() as int) =~= s);
    } else {
        assert(is_space(s[s.len() - 1]));
        let d = s.drop_last();
        assert(d =~= s.subrange(0, s.len() - 1));
        lemma_trim_end_at(d, hi);
        assert(d.subrange(0, hi) =~= s.subrange(0, hi));
    }
}

/// First `'\n'` in `s[i..e)`; `e` if none.
pub open spec fn find_nl(s: Seq<char>, i: int, e: int) -> int
    decreases e - i,
{
    if i < 0 || i >= e || e > s.len() {
        e
    } else if s[i] == '\n' {
        i
    } else {
        find_nl(s, i + 1, e)
    }
}

pub proof fn lemma_find_nl_bounds(s: Seq<char>, i: int, e: int)
    requires
        0 <= i <= e <= s.len(),
    ensures
        i <= find_nl(s, i, e) <= e,
    decreases e - i,
{
    if i < e && s[i] != '\n' {
        lemma_find_nl_bounds(s, i + 1, e);
    }
}

/// A trailing carriage return removed, as `str::lines` does per line.
pub open spec fn strip_cr(t: Seq<char>) -> Seq<char> {
    if t.len() > 0 && t[t.len() - 1] == '\r' {
        t.drop_last()
    } else {
        t
    }
}

/// Last index at or before `i` holding `'/'`; `-1` if none.
pub open spec fn rfind_slash(p: Seq<char>, i: int) -> int
    decreases i + 1,
{
    if i < 0 || i >= p.len() {
        -1
    } else if p[i] == '/' {
        i
    } else {
        rfind_slash(p, i - 1)
    }
}

/// The last `'/'`-separated segment of a path.
pub open spec fn last_segment(p: Seq<char>) -> Seq<char> {
    p.subrange(rfind_slash(p, p.len() - 1) + 1, p.len() as int)
}

/// Characterization of [`rfind_slash`] used to verify backward scans.
pub proof fn lemma_rfind_from(p: Seq<char>, i: int, d: int)
    requires
        -1 <= d <= i < p.len(),
        d >= 0 ==> p[d] == '/',
        forall|k: int| d < k <= i ==> p[k] != '/',
    ensures
        rfind_slash(p, i) == d,
    decreases i - d,
{
    if i == d {
    } else if i >= 0 {
        assert(p[i] != '/');
        lemma_rfind_from(p, i - 1, d);
    }
}

/// Lexicographic order on char sequences, a prefix ordering below its
/// extensions.
pub open spec fn lex_le(a: Seq<char>, b: Seq<char>) -> bool
    decreases a.len(),
{
    if a.len() == 0 {
        true
    } else if b.len() == 0 {
        false
    } else if a[0] < b[0] {
        true
    } else if a[0] > b[0] {
        false
    } else {
        lex_le(a.drop_first(), b.drop_first())
    }
}

pub proof fn lemma_lex_total(a: Seq<char>, b: Seq<char>)
    ensures
        lex_le(a, b) || lex_le(b, a),
    decreases a.len(),
{
    if a.len() > 0 && b.len() > 0 && a[0] == b[0] {
        lemma_lex_total(a.drop_first(), b.drop_first());
    }
}

pub proof fn lemma_lex_trans(a: Seq<char>, b: Seq<char>, c: Seq<char>)
    requires
        lex_le(a, b),
        lex_le(b, c),
    ensures
        lex_le(a, c),
    decreases a.len(),
{
    if a.len() > 0 && b.len() > 0 && c.len() > 0 && a[0] == b[0] && b[0] == c[0] {
        lemma_lex_trans(a.drop_first(), b.drop_first(), c.drop_first());
    }
}

/// Executable test for [`is_space`].
pub fn is_space_char(c: char) -> (r: bool)
    ensures
        r == is_space(c),
{
    c == ' ' || c == '\t' || c == '\n' || c == '\r' || c == '\u{0b}' || c == '\u{0c}'
}

/// The characters of `s`, as a vector sharing its view.
pub fn to_chars(s: &str) -> (v: Vec<char>)
    ensures
        v@ == s@,
{
    let n = s.unicode_len();
    let mut v: Vec<char> = Vec::new();
    let mut i: usize = 0;
    while i < n
        invariant
            i <= n,
            n == s@.len(),
            v@ == s@.subrange(0, i as int),
        decreases n - i,
    {
        v.push(s.get_char(i));
        i = i + 1;
        proof {
            assert(v@ =~= s@.subrange(0, i as int));
        }
    }
    proof {
        assert(v@ =~= s@);
    }
    v
}

pub fn find_nl_exec(v: &Vec<char>, i: usize, e: usize) -> (j: usize)
    requires
        i <= e <= v@.len(),
    ensures
        j == find_nl(v@, i as int, e as int),
        i <= j <= e,
{
    let mut k: usize = i;
    while k < e
        invariant
            i <= k,
            k <= e <= v@.len(),
            find_nl(v@, i as int, e as int) == find_nl(v@, k as int, e as int),
        decreases e - k,
    {
        if v[k] == '\n' {
            proof {
                lemma_find_nl_bounds(v@, i as int, e as int);
            }
            return k;
        }
        k = k + 1;
    }
    proof {
        lemma_find_nl_bounds(v@, i as int, e as int);
    }
    e
}

/// The bounds of the whitespace-trimmed middle of `v[i..e)`.
pub fn trim_bounds(v: &Vec<char>, i: usize, e: usize) -> (r: (usize, usize))
    requires
        i <= e <= v@.len(),
    ensures
        i <= r.0 <= r.1 <= e,
        trim(v@.subrange(i as int, e as int)) == v@.subrange(r.0 as int, r.1 as int),
{
    let mut lo: usize = i;
    while lo < e && is_space_char(v[lo])
        invariant
            i <= lo <= e <= v@.len(),
            forall|k: int| i <= k < lo ==> is_space(v@[k]),
        decreases e - lo,
    {
        lo = lo + 1;
    }
    let mut hi: usize = e;
    while hi > lo && is_space_char(v[hi - 1])
        invariant
            lo <= hi <= e <= v@.len(),
            forall|k: int| hi <= k < e ==> is_space(v@[k]),
        decreases hi,
    {
        hi = hi - 1;
    }
    proof {
        let u = v@.subrange(i as int, e as int);
        lemma_trim_start_at(u, lo - i);
        let w = u.subrange(lo - i, u.len() as int);
        assert(w =~= v@.subrange(lo as int, e as int));
        lemma_trim_end_at(w, hi - lo);
        assert(w.subrange(0, hi - lo) =~= v@.subrange(lo as int, hi as int));
    }
    (lo, hi)
}

/// Character-wise string equality.
pub fn str_eq(a: &str, b: &str) -> (r: bool)
    ensures
        r == (a@ == b@),
{
    let na = a.unicode_len();
    let nb = b.unicode_len();
    if na != nb {
        return false;
    }
    let mut i: usize = 0;
    while i < na
        invariant
            i <= na,
            na == a@.len(),
            na == b@.len(),
            forall|k: int| 0 <= k < i ==> a@[k] == b@[k],
        decreases na - i,
    {
        if a.get_char(i) != b.get_char(i) {
            return false;
        }
        i = i + 1;
    }
    proof {
        assert(a@ =~= b@);
    }
    true
}

/// Lexicographic comparison of two strings.
pub fn str_le(a: &str, b: &str) -> (r: bool)
    ensures
        r == lex_le(a@, b@),
{
    let na = a.unicode_len();
    let nb = b.unicode_len();
    let mut i: usize = 0;
    proof {
        assert(a@.skip(0) =~= a@);
        assert(b@.skip(0) =~= b@);
    }
    while i < na && i < nb
        invariant
            i <= na,
            i <= nb,
            na == a@.len(),
            nb == b@.len(),
            lex_le(a@, b@) == lex_le(a@.skip(i as int), b@.skip(i as int)),
        decreases na - i,
    {
        let ca = a.get_char(i);
        let cb = b.get_char(i);
        proof {
            assert(a@.skip(i as int)[0] == a@[i as int]);
            assert(b@.skip(i as int)[0] == b@[i as int]);
        }
        if ca < cb {
            return true;
        }
        if cb < ca {
            return false;
        }
        proof {
            assert(a@.skip(i as int).drop_first() =~= a@.skip(i + 1));
            assert(b@.skip(i as int).drop_first() =~= b@.skip(i + 1));
        }
        i = i + 1;
    }
    proof {
        if na <= nb {
            assert(a@.skip(i as int).len() == 0);
        } else {
            assert(b@.skip(i as int).len() == 0);
            assert(a@.skip(i as int).len() > 0);
        }
    }
    na <= nb
}

/// The start of the last `'/'`-separated segment of `v[i..e)`.
pub fn last_segment_start(v: &Vec<char>, i: usize, e: usize) -> (r: usize)
    requires
        i <= e <= v@.len(),
    ensures
        i <= r <= e,
        last_segment(v@.subrange(i as int, e as int)) == v@.subrange(r as int, e as int),
{
    let mut si: usize = e;
    while si > i && v[si - 1] != '/'
        invariant
            i <= si <= e <= v@.len(),
            forall|k: int| si <= k < e ==> v@[k] != '/',
        decreases si,
    {
        si = si - 1;
    }
    proof {
        let p = v@.subrange(i as int, e as int);
        let d: int = if si > i {
            si - i - 1
        } else {
            -1
        };
        if p.len() > 0 {
            lemma_rfind_from(p, p.len() - 1, d);
        }
        assert(last_segment(p) =~= v@.subrange(si as int, e as int));
    }
    si
}

/// Is `v[i..e]` exactly the string `b`?
pub fn range_eq_str(v: &Vec<char>, i: usize, e: usize, b: &str) -> (r: bool)
    requires
        i <= e <= v@.len(),
    ensures
        r == (v@.subrange(i as int, e as int) == b@),
{
    let m = b.unicode_len();
    if e - i != m {
        return false;
    }
    let mut k: usize = 0;
    while k < m
        invariant
            k <= m,
            m == b@.len(),
            i <= e <= v@.len(),
            m == e - i,
            forall|j: int| 0 <= j < k ==> v@[i + j] == b@[j],
        decreases m - k,
    {
        if v[i + k] != b.get_char(k) {
            proof {
                assert(v@.subrange(i as int, e as int)[k as int] != b@[k as int]);
            }
            return false;
        }
        k = k + 1;
    }
    proof {
        assert(v@.subrange(i as int, e as int) =~= b@);
    }
    true
}

/// Does `v[i..e]` start with `p`?
pub fn range_has_prefix(v: &Vec<char>, i: usize, e: usize, p: &str) -> (r: bool)
    requires
        i <= e <= v@.len(),
    ensures
        r == has_prefix(v@.subrange(i as int, e as int), p@),
    decreases e - i,
{
    let m = p.unicode_len();
    if e - i < m {
        return false;
    }
    let mut k: usize = 0;
    while k < m
        invariant
            k <= m,
            m == p@.len(),
            i <= e <= v@.len(),
            m <= e - i,
            forall|j: int| 0 <= j < k ==> v@[i + j] == p@[j],
        decreases m - k,
    {
        if v[i + k] != p.get_char(k) {
            proof {
                assert(v@.subrange(i as int, e as int)[k as int] != p@[k as int]);
            }
            return false;
        }
        k = k + 1;
    }
    proof {
        assert(v@.subrange(i as int, e as int).subrange(0, m as int) =~= p@);
    }
    true
}

} // verus!
