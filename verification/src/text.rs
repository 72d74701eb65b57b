//! Character-sequence utilities: the string operations that the command
//! builders and output parsers rely on, each specified over `Seq<char>`.
use vstd::prelude::*;

verus! {

// ---------------------------------------------------------------------------
// Conversions between `str`/`String` and character vectors
// ---------------------------------------------------------------------------

/// The characters of a string slice, in order.
pub(crate) fn chars_of(s: &str) -> (r: Vec<char>)
    ensures
        r@ == s@,
{
    broadcast use vstd::string::axiom_spec_iter;
    let mut v: Vec<char> = Vec::new();
    for c in it: s.chars()
        invariant
            v@ == it.seq().take(it.index() as int),
            it.seq() == s@,
    {
        v.push(c);
    }
    v
}

/// Calls `String::push`. Trusted: the string gains `c` at its end and is
/// otherwise unchanged.
#[verifier::external_body]
fn push_char(s: &mut String, c: char)
    ensures
        final(s)@ == old(s)@.push(c),
{
    s.push(c);
}

/// A `String` holding the given characters, in order.
pub(crate) fn string_of(v: &[char]) -> (r: String)
    ensures
        r@ == v@,
{
    let mut s = String::new();
    let mut i: usize = 0;
    while i < v.len()
        invariant
            i <= v@.len(),
            s@ == v@.take(i as int),
        decreases v@.len() - i,
    {
        push_char(&mut s, v[i]);
        assert(v@.take(i + 1) =~= v@.take(i as int).push(v@[i as int]));
        i += 1;
    }
    assert(v@.take(v@.len() as int) =~= v@);
    s
}

/// The view of an optional string.
pub open spec fn opt_view(o: Option<String>) -> Option<Seq<char>> {
    match o {
        Some(s) => Some(s@),
        None => None,
    }
}

/// The views of a sequence of strings.
pub open spec fn string_views(v: Seq<String>) -> Seq<Seq<char>> {
    v.map_values(|x: String| x@)
}

/// Appends all characters of `s` to `v`.
pub fn push_all(v: &mut Vec<char>, s: &[char])
    ensures
        final(v)@ == old(v)@ + s@,
{
    let ghost start = v@;
    let mut i: usize = 0;
    while i < s.len()
        invariant
            i <= s@.len(),
            v@ == start + s@.take(i as int),
        decreases s@.len() - i,
    {
        v.push(s[i]);
        i += 1;
        assert(s@.take(i as int) == s@.take(i - 1).push(s@[i - 1]));
    }
    assert(s@.take(s@.len() as int) == s@);
}

/// Appends all characters of a string slice to `v`.
pub fn push_str(v: &mut Vec<char>, s: &str)
    ensures
        final(v)@ == old(v)@ + s@,
{
    let cs = chars_of(s);
    push_all(v, cs.as_slice());
}

/// Copies `s[lo..hi]` into a new vector.
pub fn copy_range(s: &[char], lo: usize, hi: usize) -> (r: Vec<char>)
    requires
        lo <= hi <= s@.len(),
    ensures
        r@ == s@.subrange(lo as int, hi as int),
{
    let mut r: Vec<char> = Vec::new();
    let mut i: usize = lo;
    while i < hi
        invariant
            lo <= i <= hi <= s@.len(),
            r@ == s@.subrange(lo as int, i as int),
        decreases hi - i,
    {
        r.push(s[i]);
        i += 1;
        assert(s@.subrange(lo as int, i as int) == s@.subrange(lo as int, i - 1).push(s@[i - 1]));
    }
    r
}

/// Character-wise equality of two slices.
pub fn same_chars(a: &[char], b: &[char]) -> (r: bool)
    ensures
        r == (a@ == b@),
{
    if a.len() != b.len() {
        return false;
    }
    let mut i: usize = 0;
    while i < a.len()
        invariant
            a@.len() == b@.len(),
            i <= a@.len(),
            forall|j: int| 0 <= j < i ==> a@[j] == b@[j],
        decreases a@.len() - i,
    {
        if a[i] != b[i] {
            return false;
        }
        i += 1;
    }
    assert(a@ =~= b@);
    true
}

/// Character-wise equality of a slice and a string slice.
pub fn chars_eq_str(a: &[char], b: &str) -> (r: bool)
    ensures
        r == (a@ == b@),
{
    let bs = chars_of(b);
    same_chars(a, bs.as_slice())
}

// ---------------------------------------------------------------------------
// Whitespace and trimming (`char::is_whitespace`, `str::trim`)
// ---------------------------------------------------------------------------

/// The Unicode `White_Space` property, which `char::is_whitespace` tests.
pub open spec fn is_ws(c: char) -> bool {
    let u = c as u32;
    ||| 0x09 <= u <= 0x0d
    ||| u == 0x20
    ||| u == 0x85
    ||| u == 0xa0
    ||| u == 0x1680
    ||| 0x2000 <= u <= 0x200a
    ||| u == 0x2028
    ||| u == 0x2029
    ||| u == 0x202f
    ||| u == 0x205f
    ||| u == 0x3000
}

pub fn is_ws_char(c: char) -> (r: bool)
    ensures
        r == is_ws(c),
{
    let u = c as u32;
    (0x09 <= u && u <= 0x0d) || u == 0x20 || u == 0x85 || u == 0xa0 || u == 0x1680 || (0x2000
        <= u && u <= 0x200a) || u == 0x2028 || u == 0x2029 || u == 0x202f || u == 0x205f || u
        == 0x3000
}

/// `s` without its leading whitespace.
pub open spec fn trim_start(s: Seq<char>) -> Seq<char>
    decreases s.len(),
{
    if s.len() > 0 && is_ws(s[0]) {
        trim_start(s.drop_first())
    } else {
        s
    }
}

/// `s` without its trailing whitespace.
pub open spec fn trim_end(s: Seq<char>) -> Seq<char>
    decreases s.len(),
{
    if s.len() > 0 && is_ws(s.last()) {
        trim_end(s.drop_last())
    } else {
        s
    }
}

/// `s` without leading and trailing whitespace (`str::trim`).
pub open spec fn trim(s: Seq<char>) -> Seq<char> {
    trim_end(trim_start(s))
}

/// The bounds of the trimmed part of `s`.
pub fn trim_bounds(s: &[char]) -> (r: (usize, usize))
    ensures
        r.0 <= r.1 <= s@.len(),
        s@.subrange(r.0 as int, r.1 as int) == trim(s@),
{
    let n = s.len();
    let mut lo: usize = 0;
    assert(s@.skip(0) == s@);
    while lo < n && is_ws_char(s[lo])
        invariant
            n == s@.len(),
            lo <= n,
            trim_start(s@) == trim_start(s@.skip(lo as int)),
        decreases n - lo,
    {
        assert(s@.skip(lo as int).drop_first() == s@.skip(lo + 1));
        lo += 1;
    }
    let ghost t = s@.skip(lo as int);
    assert(trim_start(t) == t);
    assert(t == s@.subrange(lo as int, n as int));
    let mut hi: usize = n;
    while hi > lo && is_ws_char(s[hi - 1])
        invariant
            n == s@.len(),
            lo <= hi <= n,
            trim_start(s@) == s@.subrange(lo as int, n as int),
            trim(s@) == trim_end(s@.subrange(lo as int, hi as int)),
        decreases hi,
    {
        assert(s@.subrange(lo as int, hi as int).drop_last() == s@.subrange(lo as int, hi - 1));
        hi -= 1;
    }
    (lo, hi)
}

/// `str::trim` on a character slice.
pub fn trim_chars(s: &[char]) -> (r: Vec<char>)
    ensures
        r@ == trim(s@),
{
    let (lo, hi) = trim_bounds(s);
    copy_range(s, lo, hi)
}

pub proof fn lemma_trim_start_is_suffix(s: Seq<char>)
    ensures
        trim_start(s).len() <= s.len(),
        trim_start(s) == s.skip(s.len() - trim_start(s).len()),
        forall|i: int| 0 <= i < s.len() - trim_start(s).len() ==> is_ws(#[trigger] s[i]),
    decreases s.len(),
{
    if s.len() > 0 && is_ws(s[0]) {
        lemma_trim_start_is_suffix(s.drop_first());
        let t = trim_start(s.drop_first());
        assert(s.drop_first().skip(s.drop_first().len() - t.len()) == s.skip(s.len() - t.len()));
        assert forall|i: int| 0 <= i < s.len() - trim_start(s).len() implies is_ws(#[trigger] s[i]) by {
            if i > 0 {
                assert(s[i] == s.drop_first()[i - 1]);
            }
        }
    } else {
        assert(s.skip(0) == s);
    }
}

// ---------------------------------------------------------------------------
// Prefixes and substrings
// ---------------------------------------------------------------------------

pub open spec fn has_prefix(s: Seq<char>, p: Seq<char>) -> bool {
    p.len() <= s.len() && s.take(p.len() as int) == p
}

/// Whether `s` starts with `p` (`str::starts_with`).
pub fn starts_with(s: &[char], p: &[char]) -> (r: bool)
    ensures
        r == has_prefix(s@, p@),
{
    if p.len() > s.len() {
        return false;
    }
    let mut i: usize = 0;
    while i < p.len()
        invariant
            p@.len() <= s@.len(),
            i <= p@.len(),
            forall|j: int| 0 <= j < i ==> s@[j] == p@[j],
        decreases p@.len() - i,
    {
        if s[i] != p[i] {
            assert(s@.take(p@.len() as int)[i as int] != p@[i as int]);
            return false;
        }
        i += 1;
    }
    assert(s@.take(p@.len() as int) =~= p@);
    true
}

/// Whether `s` starts with the string `p`.
pub fn starts_with_str(s: &[char], p: &str) -> (r: bool)
    ensures
        r == has_prefix(s@, p@),
{
    let ps = chars_of(p);
    starts_with(s, ps.as_slice())
}

/// `str::strip_prefix`.
pub open spec fn strip_prefix(s: Seq<char>, p: Seq<char>) -> Option<Seq<char>> {
    if has_prefix(s, p) {
        Some(s.skip(p.len() as int))
    } else {
        None
    }
}

pub fn strip_prefix_str(s: &[char], p: &str) -> (r: Option<Vec<char>>)
    ensures
        match r {
            Some(v) => strip_prefix(s@, p@) == Some(v@),
            None => strip_prefix(s@, p@) is None,
        },
{
    let ps = chars_of(p);
    if starts_with(s, ps.as_slice()) {
        Some(copy_range(s, ps.len(), s.len()))
    } else {
        None
    }
}

/// `t` occurs in `s` at position `i`.
pub open spec fn occurs_at(s: Seq<char>, t: Seq<char>, i: int) -> bool {
    0 <= i && i + t.len() <= s.len() && s.subrange(i, i + t.len()) == t
}

/// `t` occurs in `s` (`str::contains` with a string pattern).
pub open spec fn contains_seq(s: Seq<char>, t: Seq<char>) -> bool {
    exists|i: int| occurs_at(s, t, i)
}

/// Whether `t` occurs in `s` at position `i`.
fn occurs_at_index(s: &[char], t: &[char], i: usize) -> (r: bool)
    requires
        i + t@.len() <= s@.len(),
    ensures
        r == occurs_at(s@, t@, i as int),
{
    let n = s.len();
    let mut j: usize = 0;
    while j < t.len()
        invariant
            n == s@.len(),
            i + t@.len() <= s@.len(),
            j <= t@.len(),
            forall|m: int| 0 <= m < j ==> s@[i + m] == t@[m],
        decreases t@.len() - j,
    {
        if s[i + j] != t[j] {
            assert(s@.subrange(i as int, i + t@.len())[j as int] != t@[j as int]);
            return false;
        }
        j += 1;
    }
    assert(s@.subrange(i as int, i + t@.len()) =~= t@);
    true
}

pub fn contains_chars(s: &[char], t: &[char]) -> (r: bool)
    ensures
        r == contains_seq(s@, t@),
{
    if t.len() > s.len() {
        assert(forall|i: int| !occurs_at(s@, t@, i));
        return false;
    }
    if t.len() == 0 {
        assert(s@.subrange(0, 0) =~= t@);
        assert(occurs_at(s@, t@, 0));
        return true;
    }
    let mut i: usize = 0;
    while i <= s.len() - t.len()
        invariant
            0 < t@.len() <= s@.len(),
            i <= s@.len() - t@.len() + 1,
            forall|k: int| 0 <= k < i ==> !occurs_at(s@, t@, k),
        decreases s@.len() - i,
    {
        if occurs_at_index(s, t, i) {
            return true;
        }
        i += 1;
    }
    false
}

pub fn contains_str(s: &[char], t: &str) -> (r: bool)
    ensures
        r == contains_seq(s@, t@),
{
    let ts = chars_of(t);
    contains_chars(s, ts.as_slice())
}

/// Whether character `c` occurs in `s`.
pub fn has_char(s: &[char], c: char) -> (r: bool)
    ensures
        r == s@.contains(c),
{
    let mut i: usize = 0;
    while i < s.len()
        invariant
            i <= s@.len(),
            forall|j: int| 0 <= j < i ==> s@[j] != c,
        decreases s@.len() - i,
    {
        if s[i] == c {
            return true;
        }
        i += 1;
    }
    false
}

// ---------------------------------------------------------------------------
// ASCII case
// ---------------------------------------------------------------------------

pub open spec fn to_ascii_lower(c: char) -> char {
    if 'A' <= c <= 'Z' {
        ((c as u32) + 32) as char
    } else {
        c
    }
}

pub open spec fn to_ascii_upper(c: char) -> char {
    if 'a' <= c <= 'z' {
        ((c as u32) - 32) as char
    } else {
        c
    }
}

/// `str::to_ascii_lowercase`.
pub open spec fn lower(s: Seq<char>) -> Seq<char> {
    s.map_values(|c: char| to_ascii_lower(c))
}

/// `str::to_ascii_uppercase`.
pub open spec fn upper(s: Seq<char>) -> Seq<char> {
    s.map_values(|c: char| to_ascii_upper(c))
}

/// `str::eq_ignore_ascii_case`.
pub open spec fn eq_ignore_case(a: Seq<char>, b: Seq<char>) -> bool {
    lower(a) == lower(b)
}

pub fn ascii_lower_char(c: char) -> (r: char)
    ensures
        r == to_ascii_lower(c),
{
    if 'A' <= c && c <= 'Z' {
        ((c as u8) + 32) as char
    } else {
        c
    }
}

pub fn ascii_upper_char(c: char) -> (r: char)
    ensures
        r == to_ascii_upper(c),
{
    if 'a' <= c && c <= 'z' {
        ((c as u8) - 32) as char
    } else {
        c
    }
}

pub fn lower_chars(s: &[char]) -> (r: Vec<char>)
    ensures
        r@ == lower(s@),
{
    let mut r: Vec<char> = Vec::new();
    let mut i: usize = 0;
    while i < s.len()
        invariant
            i <= s@.len(),
            r@ == lower(s@.take(i as int)),
        decreases s@.len() - i,
    {
        r.push(ascii_lower_char(s[i]));
        i += 1;
        assert(lower(s@.take(i as int)) =~= lower(s@.take(i - 1)).push(to_ascii_lower(s@[i - 1])));
    }
    assert(s@.take(s@.len() as int) == s@);
    r
}

pub fn upper_chars(s: &[char]) -> (r: Vec<char>)
    ensures
        r@ == upper(s@),
{
    let mut r: Vec<char> = Vec::new();
    let mut i: usize = 0;
    while i < s.len()
        invariant
            i <= s@.len(),
            r@ == upper(s@.take(i as int)),
        decreases s@.len() - i,
    {
        r.push(ascii_upper_char(s[i]));
        i += 1;
        assert(upper(s@.take(i as int)) =~= upper(s@.take(i - 1)).push(to_ascii_upper(s@[i - 1])));
    }
    assert(s@.take(s@.len() as int) == s@);
    r
}

pub fn eq_ignore_ascii_case(a: &[char], b: &[char]) -> (r: bool)
    ensures
        r == eq_ignore_case(a@, b@),
{
    let la = lower_chars(a);
    let lb = lower_chars(b);
    same_chars(la.as_slice(), lb.as_slice())
}

pub open spec fn is_ascii_digit(c: char) -> bool {
    '0' <= c <= '9'
}

pub open spec fn is_ascii_alnum(c: char) -> bool {
    ||| '0' <= c <= '9'
    ||| 'a' <= c <= 'z'
    ||| 'A' <= c <= 'Z'
}

pub fn is_ascii_alnum_char(c: char) -> (r: bool)
    ensures
        r == is_ascii_alnum(c),
{
    ('0' <= c && c <= '9') || ('a' <= c && c <= 'z') || ('A' <= c && c <= 'Z')
}


// ---------------------------------------------------------------------------
// Splitting (`str::split`, `str::splitn`, `str::lines`, `split_whitespace`)
// ---------------------------------------------------------------------------

/// The views of a sequence of character vectors.
pub open spec fn views(v: Seq<Vec<char>>) -> Seq<Seq<char>> {
    v.map_values(|x: Vec<char>| x@)
}

/// The pieces of `s` between occurrences of `sep` (`str::split` with a char).
pub open spec fn split_char(s: Seq<char>, sep: char) -> Seq<Seq<char>>
    decreases s.len(),
{
    if s.len() == 0 {
        seq![Seq::<char>::empty()]
    } else {
        let prev = split_char(s.drop_last(), sep);
        if s.last() == sep {
            prev.push(Seq::<char>::empty())
        } else {
            prev.update(prev.len() - 1, prev.last().push(s.last()))
        }
    }
}

pub proof fn lemma_split_char_len(s: Seq<char>, sep: char)
    ensures
        split_char(s, sep).len() >= 1,
    decreases s.len(),
{
    if s.len() > 0 {
        lemma_split_char_len(s.drop_last(), sep);
    }
}

/// `str::split` on a character separator.
pub fn split_on(s: &[char], sep: char) -> (r: Vec<Vec<char>>)
    ensures
        views(r@) == split_char(s@, sep),
{
    let mut out: Vec<Vec<char>> = Vec::new();
    let mut cur: Vec<char> = Vec::new();
    let mut i: usize = 0;
    assert(s@.take(0) =~= Seq::<char>::empty());
    while i < s.len()
        invariant
            i <= s@.len(),
            views(out@).push(cur@) == split_char(s@.take(i as int), sep),
        decreases s@.len() - i,
    {
        let ghost before = s@.take(i as int);
        proof {
            lemma_split_char_len(before, sep);
        }
        assert(s@.take(i + 1).drop_last() == before);
        let ghost prev_out = out@;
        let ghost prev_cur = cur@;
        if s[i] == sep {
            out.push(cur);
            cur = Vec::new();
            assert(views(out@) =~= views(prev_out).push(prev_cur));
        } else {
            cur.push(s[i]);
        }
        i += 1;
        assert(views(out@).push(cur@) =~= split_char(s@.take(i as int), sep));
    }
    assert(s@.take(s@.len() as int) == s@);
    out.push(cur);
    assert(views(out@) =~= split_char(s@, sep));
    out
}


/// At most `n` pieces of `s` split on `sep`, the last holding the rest
/// (`str::splitn` with a char).
pub open spec fn splitn_char(s: Seq<char>, n: nat, sep: char) -> Seq<Seq<char>>
    decreases s.len(),
{
    if s.len() == 0 {
        seq![Seq::<char>::empty()]
    } else {
        let prev = splitn_char(s.drop_last(), n, sep);
        if s.last() == sep && prev.len() < n {
            prev.push(Seq::<char>::empty())
        } else {
            prev.update(prev.len() - 1, prev.last().push(s.last()))
        }
    }
}

pub proof fn lemma_splitn_char_len(s: Seq<char>, n: nat, sep: char)
    requires
        n >= 1,
    ensures
        1 <= splitn_char(s, n, sep).len() <= n,
    decreases s.len(),
{
    if s.len() > 0 {
        lemma_splitn_char_len(s.drop_last(), n, sep);
    }
}

/// `str::splitn` on a character separator.
pub fn splitn_on(s: &[char], n: usize, sep: char) -> (r: Vec<Vec<char>>)
    requires
        n >= 1,
    ensures
        views(r@) == splitn_char(s@, n as nat, sep),
{
    let mut out: Vec<Vec<char>> = Vec::new();
    let mut cur: Vec<char> = Vec::new();
    let mut i: usize = 0;
    assert(s@.take(0) =~= Seq::<char>::empty());
    while i < s.len()
        invariant
            n >= 1,
            i <= s@.len(),
            views(out@).push(cur@) == splitn_char(s@.take(i as int), n as nat, sep),
        decreases s@.len() - i,
    {
        let ghost before = s@.take(i as int);
        proof {
            lemma_splitn_char_len(before, n as nat, sep);
        }
        assert(s@.take(i + 1).drop_last() == before);
        let ghost prev_out = out@;
        let ghost prev_cur = cur@;
        if s[i] == sep && out.len() + 1 < n {
            out.push(cur);
            cur = Vec::new();
            assert(views(out@) =~= views(prev_out).push(prev_cur));
        } else {
            cur.push(s[i]);
        }
        i += 1;
        assert(views(out@).push(cur@) =~= splitn_char(s@.take(i as int), n as nat, sep));
    }
    assert(s@.take(s@.len() as int) == s@);
    out.push(cur);
    assert(views(out@) =~= splitn_char(s@, n as nat, sep));
    out
}

/// A line without the carriage return of a `\r\n` ending.
pub open spec fn strip_cr(l: Seq<char>) -> Seq<char> {
    if l.len() > 0 && l.last() == '\r' {
        l.drop_last()
    } else {
        l
    }
}

/// The lines of `s` (`str::lines`): pieces between `\n`, a `\r` before a
/// `\n` removed, and no empty piece after a final `\n`.
pub open spec fn lines(s: Seq<char>) -> Seq<Seq<char>> {
    let p = split_char(s, '\n');
    let body = p.drop_last().map_values(|l: Seq<char>| strip_cr(l));
    if p.last().len() == 0 {
        body
    } else {
        body.push(p.last())
    }
}

pub fn strip_cr_chars(l: Vec<char>) -> (r: Vec<char>)
    ensures
        r@ == strip_cr(l@),
{
    let mut l = l;
    let n = l.len();
    if n > 0 && l[n - 1] == '\r' {
        l.pop();
    }
    l
}

/// `str::lines`.
pub fn lines_of(s: &[char]) -> (r: Vec<Vec<char>>)
    ensures
        views(r@) == lines(s@),
{
    let mut pieces = split_on(s, '\n');
    proof {
        lemma_split_char_len(s@, '\n');
    }
    let ghost p = views(pieces@);
    let last = pieces.pop().unwrap();
    assert(views(pieces@) == p.drop_last());
    let mut out: Vec<Vec<char>> = Vec::new();
    let mut rest = pieces;
    // Move the pieces into `out` in order, stripping carriage returns.
    let mut rev: Vec<Vec<char>> = Vec::new();
    while rest.len() > 0
        invariant
            views(rest@) + views(rev@).reverse() == p.drop_last(),
        decreases rest@.len(),
    {
        let ghost before_rest = views(rest@);
        let ghost before_rev = views(rev@);
        let x = rest.pop().unwrap();
        rev.push(x);
        assert(views(rest@) =~= before_rest.drop_last());
        assert(views(rev@) =~= before_rev.push(before_rest.last()));
        assert(views(rev@).reverse() =~= seq![before_rest.last()] + before_rev.reverse());
        assert(before_rest =~= before_rest.drop_last().push(before_rest.last()));
        assert(views(rest@) + views(rev@).reverse() =~= before_rest + before_rev.reverse());
    }
    assert(views(rev@).reverse() =~= p.drop_last());
    while rev.len() > 0
        invariant
            views(out@) + views(rev@).reverse().map_values(|l: Seq<char>| strip_cr(l))
                == p.drop_last().map_values(|l: Seq<char>| strip_cr(l)),
        decreases rev@.len(),
    {
        let ghost before_rev = views(rev@);
        let ghost before_out = views(out@);
        let x = rev.pop().unwrap();
        let y = strip_cr_chars(x);
        out.push(y);
        assert(views(rev@) =~= before_rev.drop_last());
        assert(views(out@) =~= before_out.push(strip_cr(before_rev.last())));
        assert(before_rev.reverse() =~= seq![before_rev.last()] + before_rev.drop_last().reverse());
        assert(before_rev.reverse().map_values(|l: Seq<char>| strip_cr(l)) =~= seq![
            strip_cr(before_rev.last()),
        ] + before_rev.drop_last().reverse().map_values(|l: Seq<char>| strip_cr(l)));
        assert(views(out@) + views(rev@).reverse().map_values(|l: Seq<char>| strip_cr(l))
            =~= before_out + before_rev.reverse().map_values(|l: Seq<char>| strip_cr(l)));
    }
    assert(views(rev@).reverse() =~= Seq::<Seq<char>>::empty());
    assert(views(out@) =~= p.drop_last().map_values(|l: Seq<char>| strip_cr(l)));
    if last.len() > 0 {
        let ghost before_out = views(out@);
        out.push(last);
        assert(views(out@) =~= before_out.push(p.last()));
    }
    out
}

/// The characters of `s` up to its first whitespace.
pub open spec fn take_word(s: Seq<char>) -> Seq<char>
    decreases s.len(),
{
    if s.len() == 0 || is_ws(s[0]) {
        Seq::<char>::empty()
    } else {
        seq![s[0]] + take_word(s.drop_first())
    }
}

/// The first whitespace-separated word of `s`, or nothing
/// (`split_whitespace().next().unwrap_or_default()`).
pub open spec fn first_word(s: Seq<char>) -> Seq<char> {
    take_word(trim_start(s))
}

pub fn first_word_chars(s: &[char]) -> (r: Vec<char>)
    ensures
        r@ == first_word(s@),
{
    let n = s.len();
    let mut lo: usize = 0;
    assert(s@.skip(0) == s@);
    while lo < n && is_ws_char(s[lo])
        invariant
            n == s@.len(),
            lo <= n,
            trim_start(s@) == trim_start(s@.skip(lo as int)),
        decreases n - lo,
    {
        assert(s@.skip(lo as int).drop_first() == s@.skip(lo + 1));
        lo += 1;
    }
    assert(trim_start(s@) == s@.skip(lo as int));
    let mut hi: usize = lo;
    while hi < n && !is_ws_char(s[hi])
        invariant
            n == s@.len(),
            lo <= hi <= n,
            take_word(s@.skip(lo as int)) == s@.subrange(lo as int, hi as int) + take_word(
                s@.skip(hi as int),
            ),
        decreases n - hi,
    {
        assert(s@.skip(hi as int).drop_first() == s@.skip(hi + 1));
        assert(s@.subrange(lo as int, hi + 1) == s@.subrange(lo as int, hi as int) + seq![s@[hi as int]]);
        hi += 1;
    }
    assert(take_word(s@.skip(hi as int)) == Seq::<char>::empty());
    copy_range(s, lo, hi)
}

// ---------------------------------------------------------------------------
// Decimal numbers (`u32::from_str`, `Display` for integers)
// ---------------------------------------------------------------------------

pub open spec fn digit_value(c: char) -> nat {
    ((c as u32) - ('0' as u32)) as nat
}

pub open spec fn all_digits(d: Seq<char>) -> bool {
    forall|i: int| 0 <= i < d.len() ==> is_ascii_digit(#[trigger] d[i])
}

/// The value of a sequence of decimal digits.
pub open spec fn digits_value(d: Seq<char>) -> nat
    decreases d.len(),
{
    if d.len() == 0 {
        0
    } else {
        digits_value(d.drop_last()) * 10 + digit_value(d.last())
    }
}

/// The digits of an unsigned number, after an optional `+`.
pub open spec fn unsigned_digits(s: Seq<char>) -> Seq<char> {
    if s.len() > 0 && s[0] == '+' {
        s.drop_first()
    } else {
        s
    }
}

/// `str::parse::<u32>`: an optional `+`, then at least one decimal digit,
/// with a value that fits in `u32`.
pub open spec fn parse_u32_spec(s: Seq<char>) -> Option<u32> {
    let d = unsigned_digits(s);
    if d.len() > 0 && all_digits(d) && digits_value(d) <= u32::MAX {
        Some(digits_value(d) as u32)
    } else {
        None
    }
}

pub proof fn lemma_digits_value_prefix(d: Seq<char>, i: int)
    requires
        0 <= i <= d.len(),
    ensures
        digits_value(d.take(i)) <= digits_value(d),
    decreases d.len() - i,
{
    if i < d.len() {
        lemma_digits_value_prefix(d, i + 1);
        assert(d.take(i + 1).drop_last() == d.take(i));
    } else {
        assert(d.take(i) == d);
    }
}

/// `str::parse::<u32>`, with `None` for every error.
pub fn parse_u32(s: &[char]) -> (r: Option<u32>)
    ensures
        r == parse_u32_spec(s@),
{
    let n = s.len();
    let start: usize = if n > 0 && s[0] == '+' { 1 } else { 0 };
    let ghost d = unsigned_digits(s@);
    assert(d == s@.skip(start as int));
    if start >= n {
        return None;
    }
    let mut k: usize = start;
    while k < n
        invariant
            n == s@.len(),
            start <= k <= n,
            d == s@.skip(start as int),
            d == unsigned_digits(s@),
            forall|j: int| 0 <= j < k - start ==> is_ascii_digit(#[trigger] d[j]),
        decreases n - k,
    {
        if !('0' <= s[k] && s[k] <= '9') {
            assert(!is_ascii_digit(d[k - start]));
            assert(!all_digits(d));
            return None;
        }
        k += 1;
    }
    assert(all_digits(d));
    let mut acc: u64 = 0;
    let mut i: usize = start;
    assert(d.take(0) =~= Seq::<char>::empty());
    while i < n
        invariant
            n == s@.len(),
            start <= i <= n,
            d == s@.skip(start as int),
            d == unsigned_digits(s@),
            all_digits(d),
            acc <= u32::MAX,
            acc == digits_value(d.take(i - start)),
        decreases n - i,
    {
        assert(d[i - start] == s@[i as int]);
        assert(is_ascii_digit(d[i - start]));
        let dv = ((s[i] as u32) - ('0' as u32)) as u64;
        assert(acc * 10 + dv <= 42949672959u64) by (nonlinear_arith)
            requires
                acc <= u32::MAX,
                dv <= 9,
        ;
        let next = acc * 10 + dv;
        assert(d.take(i + 1 - start).drop_last() == d.take(i - start));
        assert(next == digits_value(d.take(i + 1 - start)));
        if next > 4294967295u64 {
            proof {
                lemma_digits_value_prefix(d, i + 1 - start);
            }
            assert(digits_value(d) > u32::MAX);
            return None;
        }
        acc = next;
        i += 1;
    }
    assert(d.take(n - start) == d);
    Some(acc as u32)
}

pub open spec fn digit_char(d: nat) -> char {
    (d + 48) as char
}

/// Decimal digits of `n` (`Display` for unsigned integers).
pub open spec fn dec(n: nat) -> Seq<char>
    decreases n,
{
    if n < 10 {
        seq![digit_char(n)]
    } else {
        dec(n / 10).push(digit_char(n % 10))
    }
}

/// Decimal form of `i`, with a leading `-` when negative (`Display` for
/// signed integers).
pub open spec fn int_dec(i: int) -> Seq<char> {
    if i < 0 {
        seq!['-'] + dec((-i) as nat)
    } else {
        dec(i as nat)
    }
}

fn digit_to_char(d: u64) -> (r: char)
    requires
        d < 10,
    ensures
        r == digit_char(d as nat),
{
    ((d as u8) + 48) as char
}

/// Decimal digits of `n`.
pub fn dec_chars(n: u64) -> (r: Vec<char>)
    ensures
        r@ == dec(n as nat),
    decreases n,
{
    if n < 10 {
        let mut v: Vec<char> = Vec::new();
        v.push(digit_to_char(n));
        assert(v@ =~= seq![digit_char(n as nat)]);
        v
    } else {
        let mut v = dec_chars(n / 10);
        v.push(digit_to_char(n % 10));
        v
    }
}

/// Decimal form of a signed number.
pub fn int_dec_chars(i: i64) -> (r: Vec<char>)
    ensures
        r@ == int_dec(i as int),
{
    if i < 0 {
        let m: u64 = if i == i64::MIN { 9223372036854775808u64 } else { (-i) as u64 };
        let mut v: Vec<char> = Vec::new();
        v.push('-');
        let d = dec_chars(m);
        push_all(&mut v, d.as_slice());
        v
    } else {
        dec_chars(i as u64)
    }
}

// ---------------------------------------------------------------------------
// Joining (`[String]::join`)
// ---------------------------------------------------------------------------

/// The pieces joined with `sep` between consecutive pieces.
pub open spec fn join(parts: Seq<Seq<char>>, sep: Seq<char>) -> Seq<char>
    decreases parts.len(),
{
    if parts.len() == 0 {
        Seq::<char>::empty()
    } else if parts.len() == 1 {
        parts[0]
    } else {
        join(parts.drop_last(), sep) + sep + parts.last()
    }
}

pub fn join_chars(parts: &Vec<Vec<char>>, sep: &[char]) -> (r: Vec<char>)
    ensures
        r@ == join(views(parts@), sep@),
{
    let mut out: Vec<char> = Vec::new();
    let mut i: usize = 0;
    assert(views(parts@).take(0) =~= Seq::<Seq<char>>::empty());
    while i < parts.len()
        invariant
            i <= parts@.len(),
            out@ == join(views(parts@).take(i as int), sep@),
        decreases parts@.len() - i,
    {
        let ghost p = views(parts@);
        assert(p.take(i + 1).drop_last() =~= p.take(i as int));
        assert(p.take(i + 1).last() == parts@[i as int]@);
        if i > 0 {
            push_all(&mut out, sep);
        }
        push_all(&mut out, parts[i].as_slice());
        if i == 0 {
            assert(p.take(1) =~= seq![p[0]]);
        }
        i += 1;
    }
    assert(views(parts@).take(parts@.len() as int) == views(parts@));
    out
}

} // verus!
