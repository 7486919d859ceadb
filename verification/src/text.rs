//! Character-level text handling shared by the command and telemetry code:
//! trimming, splitting, prefix tests and decimal numbers, each specified over
//! `Seq<char>` the way std documents the corresponding `str` operation.
use vstd::prelude::*;

verus! {

// ---------------------------------------------------------------------------
// Whitespace
// ---------------------------------------------------------------------------

/// Unicode `White_Space`, the set that `char::is_whitespace` tests.
pub open spec fn is_ws(c: char) -> bool {
    ||| ('\u{9}' <= c && c <= '\u{d}')
    ||| c == ' '
    ||| c == '\u{85}'
    ||| c == '\u{a0}'
    ||| c == '\u{1680}'
    ||| ('\u{2000}' <= c && c <= '\u{200a}')
    ||| c == '\u{2028}'
    ||| c == '\u{2029}'
    ||| c == '\u{202f}'
    ||| c == '\u{205f}'
    ||| c == '\u{3000}'
}

/// ASCII whitespace as `u8::is_ascii_whitespace` defines it (no vertical tab).
pub open spec fn is_ascii_ws(c: char) -> bool {
    c == ' ' || c == '\t' || c == '\n' || c == '\u{c}' || c == '\r'
}

pub fn is_whitespace(c: char) -> (r: bool)
    ensures
        r == is_ws(c),
{
    ('\u{9}' <= c && c <= '\u{d}') || c == ' ' || c == '\u{85}' || c == '\u{a0}' || c
        == '\u{1680}' || ('\u{2000}' <= c && c <= '\u{200a}') || c == '\u{2028}' || c
        == '\u{2029}' || c == '\u{202f}' || c == '\u{205f}' || c == '\u{3000}'
}

pub fn is_ascii_whitespace(c: char) -> (r: bool)
    ensures
        r == is_ascii_ws(c),
{
    c == ' ' || c == '\t' || c == '\n' || c == '\u{c}' || c == '\r'
}

// ---------------------------------------------------------------------------
// Conversions between `str`/`String` and character vectors
// ---------------------------------------------------------------------------

/// The characters of `s`, in order.
pub fn to_chars(s: &str) -> (v: Vec<char>)
    ensures
        v@ == s@,
{
    let mut v: Vec<char> = Vec::new();
    for c in it: s.chars()
        invariant
            v@ == it.seq().take(it.index() as int),
    {
        v.push(c);
    }
    v
}

/// Appends one character to a string with std's `String::push`; the
/// contract claims that the string afterwards holds the characters it held
/// before, followed by `c`.
#[verifier::external_body]
pub(crate) fn push_char(s: &mut String, c: char)
    ensures
        final(s)@ == old(s)@.push(c),
{
    s.push(c);
}

/// Appends the characters of `v` to `s`.
pub fn push_chars(s: &mut String, v: &[char])
    ensures
        final(s)@ == old(s)@ + v@,
{
    let ghost start = s@;
    let mut i: usize = 0;
    while i < v.len()
        invariant
            i <= v@.len(),
            s@ == start + v@.take(i as int),
        decreases v@.len() - i,
    {
        push_char(s, v[i]);
        assert(v@.take(i as int + 1) == v@.take(i as int).push(v@[i as int]));
        i = i + 1;
    }
    assert(v@.take(v@.len() as int) == v@);
}

/// A string holding exactly the characters of `v`.
pub fn string_from(v: &[char]) -> (s: String)
    ensures
        s@ == v@,
{
    let mut s = String::new();
    push_chars(&mut s, v);
    s
}

/// Appends the characters of a string slice to `s`.
pub fn push_str(s: &mut String, t: &str)
    ensures
        final(s)@ == old(s)@ + t@,
{
    let v = to_chars(t);
    push_chars(s, v.as_slice());
}

/// The characters of `v` from `start` up to (not including) `end`.
pub fn sub_chars(v: &[char], start: usize, end: usize) -> (r: Vec<char>)
    requires
        start <= end <= v@.len(),
    ensures
        r@ == v@.subrange(start as int, end as int),
{
    let mut r: Vec<char> = Vec::new();
    let mut i = start;
    while i < end
        invariant
            start <= i <= end <= v@.len(),
            r@ == v@.subrange(start as int, i as int),
        decreases end - i,
    {
        r.push(v[i]);
        assert(v@.subrange(start as int, i as int + 1) == v@.subrange(start as int, i as int).push(
            v@[i as int],
        ));
        i = i + 1;
    }
    r
}

/// Whether two character slices are equal.
pub fn chars_eq(a: &[char], b: &[char]) -> (r: bool)
    ensures
        r == (a@ == b@),
{
    if a.len() != b.len() {
        return false;
    }
    let mut i: usize = 0;
    while i < a.len()
        invariant
            i <= a@.len(),
            a@.len() == b@.len(),
            forall|j: int| 0 <= j < i ==> a@[j] == b@[j],
        decreases a@.len() - i,
    {
        if a[i] != b[i] {
            return false;
        }
        i = i + 1;
    }
    assert(a@ =~= b@);
    true
}

/// Whether the characters of `a` spell the string `b`.
pub fn chars_eq_str(a: &[char], b: &str) -> (r: bool)
    ensures
        r == (a@ == b@),
{
    let bv = to_chars(b);
    chars_eq(a, bv.as_slice())
}

// ---------------------------------------------------------------------------
// Trimming
// ---------------------------------------------------------------------------

/// `s` without its leading whitespace.
pub open spec fn trim_start(s: Seq<char>) -> Seq<char>
    decreases s.len(),
{
    if s.len() > 0 && is_ws(s[0]) {
        trim_start(s.drop_first())
    } else {
        s
    }
}

/// `s` without its trailing whitespace.
pub open spec fn trim_end(s: Seq<char>) -> Seq<char>
    decreases s.len(),
{
    if s.len() > 0 && is_ws(s.last()) {
        trim_end(s.drop_last())
    } else {
        s
    }
}

/// `s` without leading or trailing whitespace (`str::trim`).
pub open spec fn trim(s: Seq<char>) -> Seq<char> {
    trim_end(trim_start(s))
}

proof fn lemma_trim_start_skip(s: Seq<char>, i: int)
    requires
        0 <= i <= s.len(),
        forall|j: int| 0 <= j < i ==> is_ws(#[trigger] s[j]),
    ensures
        trim_start(s) == trim_start(s.skip(i)),
    decreases i,
{
    if i > 0 {
        assert(is_ws(s[0]));
        assert(s.drop_first().skip(i - 1) == s.skip(i));
        assert forall|j: int| 0 <= j < i - 1 implies is_ws(#[trigger] s.drop_first()[j]) by {
            assert(s.drop_first()[j] == s[j + 1]);
        }
        lemma_trim_start_skip(s.drop_first(), i - 1);
    } else {
        assert(s.skip(0) == s);
    }
}

proof fn lemma_trim_end_take(s: Seq<char>, k: int)
    requires
        0 <= k <= s.len(),
        forall|j: int| k <= j < s.len() ==> is_ws(#[trigger] s[j]),
    ensures
        trim_end(s) == trim_end(s.take(k)),
    decreases s.len() - k,
{
    if k < s.len() {
        assert(s.drop_last().take(k) == s.take(k));
        lemma_trim_end_take(s.drop_last(), k);
    } else {
        assert(s.take(k) == s);
    }
}

/// The bounds of `v` without its leading and trailing whitespace.
pub fn trim_range(v: &[char]) -> (r: (usize, usize))
    ensures
        r.0 <= r.1 <= v@.len(),
        v@.subrange(r.0 as int, r.1 as int) == trim(v@),
{
    let n = v.len();
    let mut i: usize = 0;
    while i < n && is_whitespace(v[i])
        invariant
            i <= n == v@.len(),
            forall|j: int| 0 <= j < i ==> is_ws(#[trigger] v@[j]),
        decreases n - i,
    {
        i = i + 1;
    }
    proof {
        lemma_trim_start_skip(v@, i as int);
        assert(trim_start(v@.skip(i as int)) == v@.skip(i as int));
    }
    let mut k: usize = n;
    while k > i && is_whitespace(v[k - 1])
        invariant
            i <= k <= n == v@.len(),
            forall|j: int| k <= j < n ==> is_ws(#[trigger] v@[j]),
        decreases k,
    {
        k = k - 1;
    }
    let ghost t = v@.skip(i as int);
    proof {
        assert forall|j: int| (k - i) <= j < t.len() implies is_ws(#[trigger] t[j]) by {
            assert(t[j] == v@[j + i]);
        }
        lemma_trim_end_take(t, (k - i) as int);
        let u = t.take((k - i) as int);
        if u.len() > 0 {
            assert(u.last() == v@[k - 1]);
        }
        assert(trim_end(u) == u);
        assert(u == v@.subrange(i as int, k as int));
    }
    (i, k)
}

/// `v` without leading or trailing whitespace.
pub fn trim_chars(v: &[char]) -> (r: Vec<char>)
    ensures
        r@ == trim(v@),
{
    let (i, k) = trim_range(v);
    sub_chars(v, i, k)
}

/// `s` without leading or trailing whitespace.
pub fn trim_str(s: &str) -> (r: Vec<char>)
    ensures
        r@ == trim(s@),
{
    let v = to_chars(s);
    trim_chars(v.as_slice())
}

// ---------------------------------------------------------------------------
// Prefixes and substrings
// ---------------------------------------------------------------------------

/// `s` with `p` removed from its front, when `s` starts with `p` (`str::strip_prefix`).
pub open spec fn strip_prefix(s: Seq<char>, p: Seq<char>) -> Option<Seq<char>> {
    if p.is_prefix_of(s) {
        Some(s.skip(p.len() as int))
    } else {
        None
    }
}

/// Whether `s` starts with `p`.
pub fn starts_with(s: &[char], p: &[char]) -> (r: bool)
    ensures
        r == p@.is_prefix_of(s@),
{
    if p.len() > s.len() {
        return false;
    }
    let mut i: usize = 0;
    while i < p.len()
        invariant
            i <= p@.len() <= s@.len(),
            forall|j: int| 0 <= j < i ==> p@[j] == s@[j],
        decreases p@.len() - i,
    {
        if p[i] != s[i] {
            return false;
        }
        i = i + 1;
    }
    true
}

/// Whether `s` starts with the string `p`.
pub fn starts_with_str(s: &[char], p: &str) -> (r: bool)
    ensures
        r == p@.is_prefix_of(s@),
{
    let pv = to_chars(p);
    starts_with(s, pv.as_slice())
}

/// Whether `w` occurs in `s` as a contiguous piece (`str::contains`).
pub open spec fn contains_seq(s: Seq<char>, w: Seq<char>) -> bool {
    exists|i: int| 0 <= i && i + w.len() <= s.len() && #[trigger] s.subrange(i, i + w.len()) == w
}

/// Whether the string `w` occurs in `s`.
pub fn contains_str(s: &[char], w: &str) -> (r: bool)
    ensures
        r == contains_seq(s@, w@),
{
    let wv = to_chars(w);
    let m = wv.len();
    if m > s.len() {
        proof {
            assert forall|i: int| 0 <= i && i + m <= s@.len() implies #[trigger] s@.subrange(
                i,
                i + w@.len(),
            ) != w@ by {}
        }
        return false;
    }
    let mut i: usize = 0;
    while i <= s.len() - m
        invariant
            m == wv@.len() == w@.len(),
            wv@ == w@,
            m <= s@.len(),
            i <= s@.len() - m + 1,
            forall|k: int| 0 <= k < i ==> #[trigger] s@.subrange(k, k + m) != w@,
        decreases s@.len() + 1 - i,
    {
        let mut j: usize = 0;
        let mut same = true;
        while j < m
            invariant
                m == wv@.len() == w@.len(),
                wv@ == w@,
                i + m <= s.len(),
                j <= m,
                same == (forall|t: int| 0 <= t < j ==> s@[i + t] == wv@[t]),
            decreases m - j,
        {
            if s[i + j] != wv[j] {
                same = false;
            }
            j = j + 1;
        }
        if same {
            assert(s@.subrange(i as int, i + m) =~= w@);
            return true;
        }
        assert(s@.subrange(i as int, i + m) != w@) by {
            let t = choose|t: int| 0 <= t < m && s@[i + t] != wv@[t];
            assert(s@.subrange(i as int, i + m)[t] == s@[i + t]);
        }
        i = i + 1;
    }
    false
}

/// Whether `a` and `b` are equal up to ASCII case (`str::eq_ignore_ascii_case`).
pub open spec fn ascii_lower(c: char) -> char {
    if 'A' <= c && c <= 'Z' {
        ((c as u32) + 32) as char
    } else {
        c
    }
}

pub open spec fn eq_ignore_ascii_case(a: Seq<char>, b: Seq<char>) -> bool {
    a.len() == b.len() && forall|i: int| 0 <= i < a.len() ==> ascii_lower(a[i]) == ascii_lower(
        b[i],
    )
}

pub fn to_ascii_lower(c: char) -> (r: char)
    ensures
        r == ascii_lower(c),
{
    if 'A' <= c && c <= 'Z' {
        ((c as u8) + 32) as char
    } else {
        c
    }
}


// ---------------------------------------------------------------------------
// Splitting
// ---------------------------------------------------------------------------

/// What separates the pieces of a split.
pub enum Sep {
    /// One given character, as in `str::split(c)`.
    Char(char),
    /// Unicode whitespace, as in `str::split_whitespace`.
    Whitespace,
    /// ASCII whitespace, as in `str::split_ascii_whitespace`.
    AsciiWhitespace,
}

pub open spec fn is_sep(k: Sep, c: char) -> bool {
    match k {
        Sep::Char(x) => c == x,
        Sep::Whitespace => is_ws(c),
        Sep::AsciiWhitespace => is_ascii_ws(c),
    }
}

pub fn is_sep_exec(k: &Sep, c: char) -> (r: bool)
    ensures
        r == is_sep(*k, c),
{
    match k {
        Sep::Char(x) => c == *x,
        Sep::Whitespace => is_whitespace(c),
        Sep::AsciiWhitespace => is_ascii_whitespace(c),
    }
}

/// The pieces between separators, empty pieces included (`str::split`).
pub open spec fn split_with(s: Seq<char>, k: Sep) -> Seq<Seq<char>>
    decreases s.len(),
{
    if s.len() == 0 {
        seq![Seq::<char>::empty()]
    } else {
        let r = split_with(s.drop_last(), k);
        if is_sep(k, s.last()) {
            r.push(Seq::<char>::empty())
        } else {
            r.update(r.len() - 1, r.last().push(s.last()))
        }
    }
}

/// The non-empty pieces of a split, in order.
pub open spec fn nonempty_pieces(ps: Seq<Seq<char>>) -> Seq<Seq<char>>
    decreases ps.len(),
{
    if ps.len() == 0 {
        ps
    } else if ps.last().len() > 0 {
        nonempty_pieces(ps.drop_last()).push(ps.last())
    } else {
        nonempty_pieces(ps.drop_last())
    }
}

/// Whitespace-separated words (`str::split_whitespace` / `split_ascii_whitespace`).
pub open spec fn words(s: Seq<char>, k: Sep) -> Seq<Seq<char>> {
    nonempty_pieces(split_with(s, k))
}

pub proof fn lemma_split_nonempty(s: Seq<char>, k: Sep)
    ensures
        split_with(s, k).len() >= 1,
    decreases s.len(),
{
    if s.len() > 0 {
        lemma_split_nonempty(s.drop_last(), k);
    }
}

pub open spec fn views(ps: Seq<Vec<char>>) -> Seq<Seq<char>> {
    ps.map_values(|p: Vec<char>| p@)
}

/// Splits `v` at every separator, keeping empty pieces.
pub fn split_chars(v: &[char], k: &Sep) -> (r: Vec<Vec<char>>)
    ensures
        views(r@) == split_with(v@, *k),
{
    let mut pieces: Vec<Vec<char>> = Vec::new();
    let mut cur: Vec<char> = Vec::new();
    let mut i: usize = 0;
    assert(v@.take(0) =~= Seq::<char>::empty());
    while i < v.len()
        invariant
            i <= v@.len(),
            views(pieces@).push(cur@) == split_with(v@.take(i as int), *k),
        decreases v@.len() - i,
    {
        let c = v[i];
        let ghost before = v@.take(i as int);
        assert(v@.take(i as int + 1).drop_last() == before);
        assert(v@.take(i as int + 1).last() == c);
        proof {
            lemma_split_nonempty(before, *k);
        }
        if is_sep_exec(k, c) {
            let done = cur;
            pieces.push(done);
            cur = Vec::new();
            assert(views(pieces@) =~= split_with(before, *k));
        } else {
            let ghost old_cur = cur@;
            cur.push(c);
            assert(views(pieces@).push(cur@) =~= split_with(before, *k).update(
                split_with(before, *k).len() - 1,
                old_cur.push(c),
            ));
        }
        i = i + 1;
    }
    pieces.push(cur);
    assert(v@.take(v@.len() as int) == v@);
    assert(views(pieces@) =~= split_with(v@, *k));
    pieces
}

/// The non-empty pieces of `v` between separators.
pub fn split_words(v: &[char], k: &Sep) -> (r: Vec<Vec<char>>)
    ensures
        views(r@) == words(v@, *k),
{
    let pieces = split_chars(v, k);
    let ghost ps = split_with(v@, *k);
    let mut out: Vec<Vec<char>> = Vec::new();
    let mut i: usize = 0;
    assert(ps.take(0) =~= Seq::<Seq<char>>::empty());
    while i < pieces.len()
        invariant
            i <= pieces@.len(),
            views(pieces@) == ps,
            views(out@) == nonempty_pieces(ps.take(i as int)),
        decreases pieces@.len() - i,
    {
        assert(ps.take(i as int + 1).drop_last() == ps.take(i as int));
        assert(ps.take(i as int + 1).last() == pieces@[i as int]@);
        if pieces[i].len() > 0 {
            let p = sub_chars(pieces[i].as_slice(), 0, pieces[i].len());
            assert(p@ == pieces@[i as int]@);
            out.push(p);
            assert(views(out@) =~= nonempty_pieces(ps.take(i as int)).push(pieces@[i as int]@));
        }
        i = i + 1;
    }
    assert(ps.take(pieces@.len() as int) == ps);
    out
}

/// The first piece before `sep` and everything after it (`str::split_once`).
pub open spec fn first_sep_at(s: Seq<char>, c: char, i: int) -> bool {
    0 <= i < s.len() && s[i] == c && forall|j: int| 0 <= j < i ==> s[j] != c
}

pub open spec fn split_once(s: Seq<char>, c: char) -> Option<(Seq<char>, Seq<char>)> {
    if exists|i: int| first_sep_at(s, c, i) {
        let i = choose|i: int| first_sep_at(s, c, i);
        Some((s.take(i), s.skip(i + 1)))
    } else {
        None
    }
}

pub fn split_once_chars(v: &[char], c: char) -> (r: Option<(Vec<char>, Vec<char>)>)
    ensures
        match r {
            Some((a, b)) => split_once(v@, c) == Some((a@, b@)),
            None => split_once(v@, c) is None,
        },
{
    let mut i: usize = 0;
    while i < v.len()
        invariant
            i <= v@.len(),
            forall|j: int| 0 <= j < i ==> v@[j] != c,
        decreases v@.len() - i,
    {
        if v[i] == c {
            assert(first_sep_at(v@, c, i as int));
            let ghost k = choose|k: int| first_sep_at(v@, c, k);
            assert(k == i as int) by {
                if k < i {
                } else if k > i {
                    assert(v@[i as int] != c);
                }
            }
            let a = sub_chars(v, 0, i);
            let b = sub_chars(v, i + 1, v.len());
            assert(a@ == v@.take(i as int));
            assert(b@ == v@.skip(i as int + 1));
            return Some((a, b));
        }
        i = i + 1;
    }
    assert forall|k: int| !first_sep_at(v@, c, k) by {}
    None
}

// ---------------------------------------------------------------------------
// Facts about trimming and splitting
// ---------------------------------------------------------------------------

/// No character of `s` separates pieces.
pub open spec fn no_sep(s: Seq<char>, k: Sep) -> bool {
    forall|j: int| 0 <= j < s.len() ==> !is_sep(k, #[trigger] s[j])
}

/// Text that neither starts nor ends with whitespace is its own trim.
pub proof fn lemma_trim_unchanged(s: Seq<char>)
    requires
        s.len() > 0,
        !is_ws(s[0]),
        !is_ws(s.last()),
    ensures
        trim(s) == s,
{
}

/// Trimming twice trims no more than trimming once.
pub proof fn lemma_trim_idempotent(s: Seq<char>)
    ensures
        trim(trim(s)) == trim(s),
{
    lemma_trim_shape(s);
    let t = trim(s);
    if t.len() > 0 {
        lemma_trim_unchanged(t);
    }
}

/// A trimmed text is empty or has a non-whitespace first and last character.
pub proof fn lemma_trim_shape(s: Seq<char>)
    ensures
        trim(s).len() > 0 ==> !is_ws(trim(s)[0]) && !is_ws(trim(s).last()),
{
    lemma_trim_start_shape(s);
    lemma_trim_end_shape(trim_start(s));
}

proof fn lemma_trim_start_shape(s: Seq<char>)
    ensures
        trim_start(s).len() > 0 ==> !is_ws(trim_start(s)[0]),
        trim_start(s).len() <= s.len(),
        trim_start(s).len() > 0 ==> trim_start(s).last() == s.last(),
    decreases s.len(),
{
    if s.len() > 0 && is_ws(s[0]) {
        lemma_trim_start_shape(s.drop_first());
    }
}

proof fn lemma_trim_end_shape(s: Seq<char>)
    ensures
        trim_end(s).len() > 0 ==> !is_ws(trim_end(s).last()),
        trim_end(s).len() > 0 ==> trim_end(s)[0] == s[0],
        trim_end(s).len() <= s.len(),
    decreases s.len(),
{
    if s.len() > 0 && is_ws(s.last()) {
        lemma_trim_end_shape(s.drop_last());
    }
}

/// A text with no separator in it is a single piece.
pub proof fn lemma_split_single(s: Seq<char>, k: Sep)
    requires
        no_sep(s, k),
    ensures
        split_with(s, k) == seq![s],
    decreases s.len(),
{
    if s.len() > 0 {
        let d = s.drop_last();
        assert(no_sep(d, k)) by {
            assert forall|j: int| 0 <= j < d.len() implies !is_sep(k, #[trigger] d[j]) by {
                assert(d[j] == s[j]);
            }
        }
        lemma_split_single(d, k);
        assert(!is_sep(k, s[s.len() - 1]));
        assert(d.push(s.last()) == s);
        assert(seq![d].update(0, d.push(s.last())) == seq![s]);
    } else {
        assert(s == Seq::<char>::empty());
    }
}

/// Splitting at a separator between two texts splits each of them.
pub proof fn lemma_split_concat(a: Seq<char>, c: char, b: Seq<char>, k: Sep)
    requires
        is_sep(k, c),
    ensures
        split_with(a + seq![c] + b, k) == split_with(a, k) + split_with(b, k),
    decreases b.len(),
{
    let s = a + seq![c] + b;
    if b.len() == 0 {
        assert(s.drop_last() == a);
        assert(split_with(b, k) == seq![Seq::<char>::empty()]);
        assert(split_with(a, k).push(Seq::<char>::empty()) == split_with(a, k) + split_with(b, k));
    } else {
        let bd = b.drop_last();
        assert(s.drop_last() == a + seq![c] + bd);
        assert(s.last() == b.last());
        lemma_split_concat(a, c, bd, k);
        lemma_split_nonempty(bd, k);
        lemma_split_nonempty(a, k);
        let x = split_with(a, k);
        let y = split_with(bd, k);
        if is_sep(k, b.last()) {
            assert((x + y).push(Seq::<char>::empty()) == x + y.push(Seq::<char>::empty()));
        } else {
            let r = x + y;
            assert(r.update(r.len() - 1, r.last().push(b.last())) == x + y.update(
                y.len() - 1,
                y.last().push(b.last()),
            ));
        }
    }
}

/// The non-empty pieces of two runs of pieces, one after the other.
pub proof fn lemma_nonempty_concat(x: Seq<Seq<char>>, y: Seq<Seq<char>>)
    ensures
        nonempty_pieces(x + y) == nonempty_pieces(x) + nonempty_pieces(y),
    decreases y.len(),
{
    if y.len() == 0 {
        assert(x + y == x);
        assert(nonempty_pieces(x) + nonempty_pieces(y) == nonempty_pieces(x));
    } else {
        assert((x + y).drop_last() == x + y.drop_last());
        assert((x + y).last() == y.last());
        lemma_nonempty_concat(x, y.drop_last());
        if y.last().len() > 0 {
            assert((nonempty_pieces(x) + nonempty_pieces(y.drop_last())).push(y.last())
                == nonempty_pieces(x) + nonempty_pieces(y.drop_last()).push(y.last()));
        }
    }
}

/// The words of two separator-free, non-empty texts joined by one separator.
pub proof fn lemma_two_words(a: Seq<char>, c: char, b: Seq<char>, k: Sep)
    requires
        is_sep(k, c),
        no_sep(a, k),
        no_sep(b, k),
        a.len() > 0,
        b.len() > 0,
    ensures
        words(a + seq![c] + b, k) == seq![a, b],
{
    lemma_split_concat(a, c, b, k);
    lemma_split_single(a, k);
    lemma_split_single(b, k);
    lemma_one_word(a, k);
    lemma_one_word(b, k);
    lemma_nonempty_concat(seq![a], seq![b]);
    assert(seq![a] + seq![b] == seq![a, b]);
}

/// The words of a separator-free, non-empty text.
pub proof fn lemma_one_word(a: Seq<char>, k: Sep)
    requires
        no_sep(a, k),
        a.len() > 0,
    ensures
        words(a, k) == seq![a],
{
    lemma_split_single(a, k);
    let e = Seq::<Seq<char>>::empty();
    assert(seq![a].drop_last() == e);
    assert(nonempty_pieces(e) == e);
    assert(e.push(a) == seq![a]);
}

/// Whether `v` contains the character `c`.
pub fn contains_char(v: &[char], c: char) -> (r: bool)
    ensures
        r == v@.contains(c),
{
    let mut i: usize = 0;
    while i < v.len()
        invariant
            i <= v@.len(),
            forall|j: int| 0 <= j < i ==> v@[j] != c,
        decreases v@.len() - i,
    {
        if v[i] == c {
            return true;
        }
        i = i + 1;
    }
    false
}

} // verus!
