//! Character-level text utilities shared by the parsers and generators.
//!
//! Everything here works on the `Seq<char>` view of `str`/`String`. The spec
//! functions state what std's string methods compute (`trim`, `lines`,
//! `split_whitespace`, `starts_with`, ...); the exec functions compute the same
//! on character vectors and are proved against them.

use vstd::prelude::*;

verus! {

/// Appends one character (`String::push`).
#[verifier::external_body]
pub(crate) fn push_char(s: &mut String, c: char)
    ensures
        final(s)@ == old(s)@.push(c),
{
    s.push(c);
}

/// Appends a string slice.
pub(crate) fn push_str(s: &mut String, t: &str)
    ensures
        final(s)@ == old(s)@ + t@,
{
    s.append(t);
}

/// `a` followed by `b`.
pub fn cat2(a: &str, b: &str) -> (r: String)
    ensures
        r@ == a@ + b@,
{
    let mut r = a.to_owned();
    push_str(&mut r, b);
    r
}

/// `a`, `b` and `c`, one after the other.
pub fn cat3(a: &str, b: &str, c: &str) -> (r: String)
    ensures
        r@ == a@ + b@ + c@,
{
    let mut r = a.to_owned();
    push_str(&mut r, b);
    push_str(&mut r, c);
    r
}

/// The characters of `s`, in order.
pub fn chars_of(s: &str) -> (v: Vec<char>)
    ensures
        v@ == s@,
{
    let mut v: Vec<char> = Vec::new();
    for c in it: s.chars()
        invariant
            v@ == it.seq().take(it.index()),
            it.seq() == s@,
    {
        v.push(c);
    }
    v
}

/// A `String` holding exactly the characters `v`.
pub fn string_of(v: &Vec<char>) -> (s: String)
    ensures
        s@ == v@,
{
    let mut s = String::new();
    let mut i: usize = 0;
    while i < v.len()
        invariant
            i <= v.len(),
            s@ == v@.take(i as int),
        decreases v.len() - i,
    {
        push_char(&mut s, v[i]);
        i += 1;
        assert(v@.take(i as int) == v@.take((i - 1) as int).push(v@[i - 1]));
    }
    assert(v@.take(v.len() as int) == v@);
    s
}

/// Unicode `White_Space` (what `char::is_whitespace` tests).
pub open spec fn is_ws(c: char) -> bool {
    ('\u{9}' <= c && c <= '\u{d}') || c == ' ' || c == '\u{85}' || c == '\u{a0}'
        || c == '\u{1680}' || ('\u{2000}' <= c && c <= '\u{200a}') || c == '\u{2028}'
        || c == '\u{2029}' || c == '\u{202f}' || c == '\u{205f}' || c == '\u{3000}'
}

/// `char::is_whitespace`.
pub fn is_whitespace(c: char) -> (b: bool)
    ensures
        b == is_ws(c),
{
    ('\u{9}' <= c && c <= '\u{d}') || c == ' ' || c == '\u{85}' || c == '\u{a0}'
        || c == '\u{1680}' || ('\u{2000}' <= c && c <= '\u{200a}') || c == '\u{2028}'
        || c == '\u{2029}' || c == '\u{202f}' || c == '\u{205f}' || c == '\u{3000}'
}

/// `str::trim_start`: leading whitespace removed.
pub open spec fn trim_start(s: Seq<char>) -> Seq<char>
    decreases s.len(),
{
    if s.len() > 0 && is_ws(s[0]) {
        trim_start(s.drop_first())
    } else {
        s
    }
}

/// `str::trim_end`: trailing whitespace removed.
pub open spec fn trim_end(s: Seq<char>) -> Seq<char>
    decreases s.len(),
{
    if s.len() > 0 && is_ws(s.last()) {
        trim_end(s.drop_last())
    } else {
        s
    }
}

/// `str::trim`: leading and trailing whitespace removed.
pub open spec fn trim(s: Seq<char>) -> Seq<char> {
    trim_end(trim_start(s))
}

pub proof fn lemma_trim_start_skip(s: Seq<char>, i: int)
    requires
        0 <= i <= s.len(),
        forall|k: int| 0 <= k < i ==> is_ws(#[trigger] s[k]),
    ensures
        trim_start(s) == trim_start(s.subrange(i, s.len() as int)),
    decreases i,
{
    if i > 0 {
        lemma_trim_start_skip(s.drop_first(), i - 1);
        assert(s.drop_first().subrange(i - 1, s.drop_first().len() as int)
            =~= s.subrange(i, s.len() as int));
    } else {
        assert(s.subrange(0, s.len() as int) =~= s);
    }
}

proof fn lemma_trim_end_skip(s: Seq<char>, j: int)
    requires
        0 <= j <= s.len(),
        forall|k: int| j <= k < s.len() ==> is_ws(#[trigger] s[k]),
    ensures
        trim_end(s) == trim_end(s.subrange(0, j)),
    decreases s.len() - j,
{
    if j < s.len() {
        lemma_trim_end_skip(s.drop_last(), j);
        assert(s.drop_last().subrange(0, j) =~= s.subrange(0, j));
    } else {
        assert(s.subrange(0, j) =~= s);
    }
}

/// The first index of `s` at or after `from` that is not whitespace, or `len`.
fn skip_ws(v: &Vec<char>, from: usize) -> (i: usize)
    requires
        from <= v.len(),
    ensures
        from <= i <= v.len(),
        forall|k: int| from <= k < i ==> is_ws(#[trigger] v@[k]),
        i < v.len() ==> !is_ws(v@[i as int]),
{
    let mut i = from;
    while i < v.len() && is_whitespace(v[i])
        invariant
            from <= i <= v.len(),
            forall|k: int| from <= k < i ==> is_ws(#[trigger] v@[k]),
        decreases v.len() - i,
    {
        i += 1;
    }
    i
}

/// `trim_start` on a character vector.
pub fn trim_start_chars(v: &Vec<char>) -> (r: Vec<char>)
    ensures
        r@ == trim_start(v@),
{
    let i = skip_ws(v, 0);
    proof {
        lemma_trim_start_skip(v@, i as int);
    }
    let r = slice_chars(v, i, v.len());
    r
}

/// `trim_end` on a character vector.
pub fn trim_end_chars(v: &Vec<char>) -> (r: Vec<char>)
    ensures
        r@ == trim_end(v@),
{
    let mut j = v.len();
    while j > 0 && is_whitespace(v[j - 1])
        invariant
            j <= v.len(),
            forall|k: int| j <= k < v.len() ==> is_ws(#[trigger] v@[k]),
        decreases j,
    {
        j -= 1;
    }
    proof {
        lemma_trim_end_skip(v@, j as int);
    }
    slice_chars(v, 0, j)
}

/// `trim` on a character vector.
pub fn trim_chars(v: &Vec<char>) -> (r: Vec<char>)
    ensures
        r@ == trim(v@),
{
    let a = trim_start_chars(v);
    trim_end_chars(&a)
}

/// The characters `v[lo..hi]`.
pub fn slice_chars(v: &Vec<char>, lo: usize, hi: usize) -> (r: Vec<char>)
    requires
        lo <= hi <= v.len(),
    ensures
        r@ == v@.subrange(lo as int, hi as int),
{
    let mut r: Vec<char> = Vec::new();
    let mut i = lo;
    while i < hi
        invariant
            lo <= i <= hi,
            hi <= v.len(),
            r@ == v@.subrange(lo as int, i as int),
        decreases hi - i,
    {
        r.push(v[i]);
        i += 1;
    }
    r
}


/// The views of a vector of character vectors.
pub open spec fn views(v: Seq<Vec<char>>) -> Seq<Seq<char>> {
    v.map_values(|x: Vec<char>| x@)
}

/// An optional index as an optional integer.
pub open spec fn opt_idx(r: Option<usize>) -> Option<int> {
    match r {
        Some(i) => Some(i as int),
        None => None,
    }
}

/// `str::starts_with` for a string pattern.
pub open spec fn starts_with(s: Seq<char>, p: Seq<char>) -> bool {
    p.len() <= s.len() && s.subrange(0, p.len() as int) == p
}

/// `str::ends_with` for a string pattern.
pub open spec fn ends_with(s: Seq<char>, p: Seq<char>) -> bool {
    p.len() <= s.len() && s.subrange(s.len() - p.len(), s.len() as int) == p
}

/// `p` occurs in `s` starting at index `i`.
pub open spec fn occurs_at(s: Seq<char>, p: Seq<char>, i: int) -> bool {
    0 <= i && i + p.len() <= s.len() && s.subrange(i, i + p.len()) == p
}

/// `str::contains` for a string pattern.
pub open spec fn contains(s: Seq<char>, p: Seq<char>) -> bool {
    exists|i: int| occurs_at(s, p, i)
}

/// `i` is the first occurrence of `p` in `s`.
pub open spec fn is_first(s: Seq<char>, p: Seq<char>, i: int) -> bool {
    occurs_at(s, p, i) && forall|j: int| 0 <= j < i ==> !occurs_at(s, p, j)
}

/// `i` is the last occurrence of `p` in `s`.
pub open spec fn is_last(s: Seq<char>, p: Seq<char>, i: int) -> bool {
    occurs_at(s, p, i) && forall|j: int| i < j ==> !occurs_at(s, p, j)
}

/// `str::find` (as a character index).
pub open spec fn find(s: Seq<char>, p: Seq<char>) -> Option<int> {
    if exists|i: int| is_first(s, p, i) {
        Some(choose|i: int| is_first(s, p, i))
    } else {
        None
    }
}

/// `str::rfind` (as a character index).
pub open spec fn rfind(s: Seq<char>, p: Seq<char>) -> Option<int> {
    if exists|i: int| is_last(s, p, i) {
        Some(choose|i: int| is_last(s, p, i))
    } else {
        None
    }
}

pub proof fn lemma_find_is(s: Seq<char>, p: Seq<char>, i: int)
    requires
        is_first(s, p, i),
    ensures
        find(s, p) == Some(i),
{
    let k = choose|k: int| is_first(s, p, k);
    assert(is_first(s, p, k));
    if k < i {
        assert(!occurs_at(s, p, k));
    } else if i < k {
        assert(!occurs_at(s, p, i));
    }
}

pub proof fn lemma_rfind_is(s: Seq<char>, p: Seq<char>, i: int)
    requires
        is_last(s, p, i),
    ensures
        rfind(s, p) == Some(i),
{
    let k = choose|k: int| is_last(s, p, k);
    assert(is_last(s, p, k));
    if k < i {
        assert(!occurs_at(s, p, i));
    } else if i < k {
        assert(!occurs_at(s, p, k));
    }
}

/// Whether `p` occurs in `s` at `i` (exec).
pub fn matches_at(s: &Vec<char>, p: &Vec<char>, i: usize) -> (b: bool)
    ensures
        b == occurs_at(s@, p@, i as int),
{
    if i > s.len() || p.len() > s.len() - i {
        return false;
    }
    let mut k: usize = 0;
    while k < p.len()
        invariant
            k <= p.len(),
            i + p.len() <= s.len(),
            forall|m: int| 0 <= m < k ==> s@[i + m] == p@[m],
        decreases p.len() - k,
    {
        if s[i + k] != p[k] {
            assert(s@.subrange(i as int, i + p.len())[k as int] != p@[k as int]);
            return false;
        }
        k += 1;
    }
    assert(s@.subrange(i as int, i + p.len()) =~= p@);
    true
}

/// `str::find` on character vectors.
pub fn find_chars(s: &Vec<char>, p: &Vec<char>) -> (r: Option<usize>)
    ensures
        opt_idx(r) == find(s@, p@),
        r matches Some(i) ==> is_first(s@, p@, i as int),
        r is None ==> !contains(s@, p@),
{
    if p.len() > s.len() {
        assert(!contains(s@, p@));
        return None;
    }
    let last = s.len() - p.len();
    let mut i: usize = 0;
    loop
        invariant
            p.len() <= s.len(),
            last == s.len() - p.len(),
            i <= last,
            forall|j: int| 0 <= j < i ==> !occurs_at(s@, p@, j),
        ensures
            forall|j: int| 0 <= j <= last ==> !occurs_at(s@, p@, j),
        decreases last - i,
    {
        if matches_at(s, p, i) {
            proof { lemma_find_is(s@, p@, i as int); }
            return Some(i);
        }
        if i == last {
            break;
        }
        i += 1;
    }
    assert forall|j: int| !occurs_at(s@, p@, j) by {
        if 0 <= j <= i {
        }
    }
    None
}

/// `str::rfind` on character vectors.
pub fn rfind_chars(s: &Vec<char>, p: &Vec<char>) -> (r: Option<usize>)
    ensures
        opt_idx(r) == rfind(s@, p@),
        r matches Some(i) ==> is_last(s@, p@, i as int),
        r is None ==> !contains(s@, p@),
{
    if p.len() > s.len() {
        assert(!contains(s@, p@));
        return None;
    }
    let mut i: usize = s.len() - p.len();
    loop
        invariant
            p.len() <= s.len(),
            i <= s.len() - p.len(),
            forall|j: int| i < j ==> !occurs_at(s@, p@, j),
        ensures
            forall|j: int| 0 <= j ==> !occurs_at(s@, p@, j),
        decreases i,
    {
        if matches_at(s, p, i) {
            proof { lemma_rfind_is(s@, p@, i as int); }
            return Some(i);
        }
        if i == 0 {
            break;
        }
        i -= 1;
    }
    assert forall|j: int| !occurs_at(s@, p@, j) by {
        if 0 <= j {
        }
    }
    None
}

/// `str::contains` on character vectors.
pub fn contains_chars(s: &Vec<char>, p: &Vec<char>) -> (b: bool)
    ensures
        b == contains(s@, p@),
{
    find_chars(s, p).is_some()
}

/// `str::starts_with` on character vectors.
pub fn starts_with_chars(s: &Vec<char>, p: &Vec<char>) -> (b: bool)
    ensures
        b == starts_with(s@, p@),
{
    let b = matches_at(s, p, 0);
    assert(b == starts_with(s@, p@));
    b
}

/// `str::ends_with` on character vectors.
pub fn ends_with_chars(s: &Vec<char>, p: &Vec<char>) -> (b: bool)
    ensures
        b == ends_with(s@, p@),
{
    if p.len() > s.len() {
        return false;
    }
    matches_at(s, p, s.len() - p.len())
}

/// Whether `s` contains `p` (for string literals).
pub fn has(s: &Vec<char>, p: &str) -> (b: bool)
    ensures
        b == contains(s@, p@),
{
    let pv = chars_of(p);
    contains_chars(s, &pv)
}

/// Whether `s` starts with `p` (for string literals).
pub fn begins(s: &Vec<char>, p: &str) -> (b: bool)
    ensures
        b == starts_with(s@, p@),
{
    let pv = chars_of(p);
    starts_with_chars(s, &pv)
}

/// Whether `s` equals `p`.
pub fn eq_str(s: &Vec<char>, p: &str) -> (b: bool)
    ensures
        b == (s@ == p@),
{
    let pv = chars_of(p);
    if pv.len() != s.len() {
        return false;
    }
    let b = matches_at(s, &pv, 0);
    assert(s@ =~= s@.subrange(0, pv.len() as int));
    b
}


/// One line with its `\r` (of a `\r\n` ending) removed.
pub open spec fn strip_cr(s: Seq<char>) -> Seq<char> {
    if s.len() > 0 && s.last() == '\r' {
        s.drop_last()
    } else {
        s
    }
}

/// `str::lines`: split at `\n` (a `\r\n` ending loses its `\r`); a final line
/// ending is optional and yields no empty last line.
pub open spec fn lines(s: Seq<char>) -> Seq<Seq<char>>
    decreases s.len(),
{
    if s.len() == 0 {
        seq![]
    } else {
        match find(s, seq!['\n']) {
            Some(i) => if 0 <= i < s.len() {
                seq![strip_cr(s.subrange(0, i))] + lines(s.subrange(i + 1, s.len() as int))
            } else {
                seq![s]
            },
            None => seq![s],
        }
    }
}

/// `str::split` on one character: the pieces between occurrences of `c`.
pub open spec fn split_char(s: Seq<char>, c: char) -> Seq<Seq<char>>
    decreases s.len(),
{
    match find(s, seq![c]) {
        Some(i) => if 0 <= i < s.len() {
            seq![s.subrange(0, i)] + split_char(s.subrange(i + 1, s.len() as int), c)
        } else {
            seq![s]
        },
        None => seq![s],
    }
}

/// The first occurrence of the single character `c` at `i`, given that no
/// earlier position of `s` holds `c`.
pub proof fn lemma_find_char(s: Seq<char>, c: char, i: int)
    requires
        0 <= i < s.len(),
        s[i] == c,
        forall|k: int| 0 <= k < i ==> s[k] != c,
    ensures
        find(s, seq![c]) == Some(i),
{
    assert(s.subrange(i, i + 1) =~= seq![c]);
    assert forall|j: int| 0 <= j < i implies !occurs_at(s, seq![c], j) by {
        if occurs_at(s, seq![c], j) {
            assert(s.subrange(j, j + 1)[0] == s[j]);
        }
    }
    lemma_find_is(s, seq![c], i);
}

/// No occurrence of the single character `c`.
pub proof fn lemma_find_char_none(s: Seq<char>, c: char)
    requires
        forall|k: int| 0 <= k < s.len() ==> s[k] != c,
    ensures
        find(s, seq![c]) == None::<int>,
{
    assert forall|j: int| !occurs_at(s, seq![c], j) by {
        if occurs_at(s, seq![c], j) {
            assert(s.subrange(j, j + 1)[0] == s[j]);
        }
    }
}

/// `str::lines` on a character vector.
pub fn lines_of(v: &Vec<char>) -> (r: Vec<Vec<char>>)
    ensures
        views(r@) == lines(v@),
{
    let mut out: Vec<Vec<char>> = Vec::new();
    let mut start: usize = 0;
    let mut i: usize = 0;
    assert(v@.subrange(0, v.len() as int) =~= v@);
    assert(views(out@) + lines(v@) =~= lines(v@));
    while i < v.len()
        invariant
            start <= i <= v.len(),
            lines(v@) == views(out@) + lines(v@.subrange(start as int, v.len() as int)),
            forall|k: int| start <= k < i ==> v@[k] != '\n',
        decreases v.len() - i,
    {
        if v[i] == '\n' {
            let ghost rest = v@.subrange(start as int, v.len() as int);
            proof {
                lemma_find_char(rest, '\n', i - start);
                assert(rest.subrange(0, i - start) =~= v@.subrange(start as int, i as int));
                assert(rest.subrange(i - start + 1, rest.len() as int)
                    =~= v@.subrange(i + 1, v.len() as int));
            }
            let mut piece = slice_chars(v, start, i);
            if piece.len() > 0 && piece[piece.len() - 1] == '\r' {
                piece.pop();
            }
            assert(piece@ == strip_cr(v@.subrange(start as int, i as int)));
            let ghost before = out@;
            out.push(piece);
            assert(views(out@) =~= views(before).push(piece@));
            start = i + 1;
        }
        i += 1;
    }
    let ghost rest = v@.subrange(start as int, v.len() as int);
    if start < v.len() {
        proof { lemma_find_char_none(rest, '\n'); }
        let piece = slice_chars(v, start, v.len());
        let ghost before = out@;
        out.push(piece);
        assert(views(out@) =~= views(before).push(piece@));
        assert(lines(rest) == seq![rest]);
    } else {
        assert(rest.len() == 0);
        assert(views(out@) + lines(rest) =~= views(out@));
    }
    out
}

/// `str::split` on one character, for character vectors.
pub fn split_chars(v: &Vec<char>, c: char) -> (r: Vec<Vec<char>>)
    ensures
        views(r@) == split_char(v@, c),
        r@.len() >= 1,
{
    let mut out: Vec<Vec<char>> = Vec::new();
    let mut start: usize = 0;
    let mut i: usize = 0;
    assert(v@.subrange(0, v.len() as int) =~= v@);
    assert(views(out@) + split_char(v@, c) =~= split_char(v@, c));
    while i < v.len()
        invariant
            start <= i <= v.len(),
            split_char(v@, c) == views(out@) + split_char(v@.subrange(start as int, v.len() as int), c),
            forall|k: int| start <= k < i ==> v@[k] != c,
        decreases v.len() - i,
    {
        if v[i] == c {
            let ghost rest = v@.subrange(start as int, v.len() as int);
            proof {
                lemma_find_char(rest, c, i - start);
                assert(rest.subrange(0, i - start) =~= v@.subrange(start as int, i as int));
                assert(rest.subrange(i - start + 1, rest.len() as int)
                    =~= v@.subrange(i + 1, v.len() as int));
            }
            let piece = slice_chars(v, start, i);
            let ghost before = out@;
            out.push(piece);
            assert(views(out@) =~= views(before).push(piece@));
            start = i + 1;
        }
        i += 1;
    }
    let ghost rest = v@.subrange(start as int, v.len() as int);
    proof { lemma_find_char_none(rest, c); }
    let piece = slice_chars(v, start, v.len());
    let ghost before = out@;
    out.push(piece);
    assert(views(out@) =~= views(before).push(piece@));
    out
}


/// The index of the first whitespace character of `s`, or its length.
pub open spec fn ws_pos(s: Seq<char>) -> nat
    decreases s.len(),
{
    if s.len() == 0 {
        0
    } else if is_ws(s[0]) {
        0
    } else {
        1 + ws_pos(s.drop_first())
    }
}

pub proof fn lemma_trim_start_shape(s: Seq<char>)
    ensures
        trim_start(s).len() <= s.len(),
        trim_start(s).len() > 0 ==> !is_ws(trim_start(s)[0]),
        trim_start(s) == s.subrange(s.len() - trim_start(s).len(), s.len() as int),
    decreases s.len(),
{
    if s.len() > 0 && is_ws(s[0]) {
        lemma_trim_start_shape(s.drop_first());
        assert(s.drop_first().subrange(s.drop_first().len() - trim_start(s).len(),
            s.drop_first().len() as int) =~= s.subrange(s.len() - trim_start(s).len(),
            s.len() as int));
    } else {
        assert(s.subrange(0, s.len() as int) =~= s);
    }
}

pub proof fn lemma_ws_pos(s: Seq<char>)
    ensures
        ws_pos(s) <= s.len(),
        forall|k: int| 0 <= k < ws_pos(s) ==> !is_ws(#[trigger] s[k]),
        ws_pos(s) < s.len() ==> is_ws(s[ws_pos(s) as int]),
    decreases s.len(),
{
    if s.len() > 0 && !is_ws(s[0]) {
        lemma_ws_pos(s.drop_first());
        assert forall|k: int| 0 <= k < ws_pos(s) implies !is_ws(#[trigger] s[k]) by {
            if k > 0 {
                assert(s[k] == s.drop_first()[k - 1]);
            }
        }
    }
}

pub proof fn lemma_ws_pos_is(s: Seq<char>, j: int)
    requires
        0 <= j <= s.len(),
        forall|k: int| 0 <= k < j ==> !is_ws(#[trigger] s[k]),
        j < s.len() ==> is_ws(s[j]),
    ensures
        ws_pos(s) == j,
    decreases s.len(),
{
    if s.len() > 0 && j > 0 {
        assert forall|k: int| 0 <= k < j - 1 implies !is_ws(#[trigger] s.drop_first()[k]) by {
            assert(s.drop_first()[k] == s[k + 1]);
        }
        lemma_ws_pos_is(s.drop_first(), j - 1);
    }
}

/// `str::split_whitespace`: the maximal non-whitespace runs, in order.
pub open spec fn split_ws(s: Seq<char>) -> Seq<Seq<char>>
    decreases s.len(),
{
    let t = trim_start(s);
    if t.len() == 0 {
        seq![]
    } else {
        let j = ws_pos(t);
        proof {
            lemma_trim_start_shape(s);
            lemma_ws_pos(t);
        }
        if 0 < j <= t.len() && t.len() <= s.len() {
            seq![t.subrange(0, j as int)] + split_ws(t.subrange(j as int, t.len() as int))
        } else {
            seq![]
        }
    }
}

/// `str::split_whitespace` on a character vector.
pub fn split_ws_chars(v: &Vec<char>) -> (r: Vec<Vec<char>>)
    ensures
        views(r@) == split_ws(v@),
{
    let mut out: Vec<Vec<char>> = Vec::new();
    let mut i: usize = 0;
    assert(v@.subrange(0, v.len() as int) =~= v@);
    assert(views(out@) + split_ws(v@) =~= split_ws(v@));
    while i < v.len()
        invariant
            i <= v.len(),
            split_ws(v@) == views(out@) + split_ws(v@.subrange(i as int, v.len() as int)),
        decreases v.len() - i,
    {
        let ghost rest = v@.subrange(i as int, v.len() as int);
        let k = skip_ws(v, i);
        proof {
            assert forall|m: int| 0 <= m < k - i implies is_ws(#[trigger] rest[m]) by {
                assert(rest[m] == v@[i + m]);
            }
            lemma_trim_start_skip(rest, k - i);
            assert(rest.subrange(k - i, rest.len() as int) =~= v@.subrange(k as int, v.len() as int));
        }
        if k == v.len() {
            assert(split_ws(rest) == Seq::<Seq<char>>::empty());
            assert(views(out@) + split_ws(rest) =~= views(out@));
            i = k;
        } else {
            let mut j = k;
            while j < v.len() && !is_whitespace(v[j])
                invariant
                    k <= j <= v.len(),
                    forall|m: int| k <= m < j ==> !is_ws(#[trigger] v@[m]),
                decreases v.len() - j,
            {
                j += 1;
            }
            let ghost t = v@.subrange(k as int, v.len() as int);
            proof {
                assert forall|m: int| 0 <= m < j - k implies !is_ws(#[trigger] t[m]) by {
                    assert(t[m] == v@[k + m]);
                }
                lemma_ws_pos_is(t, j - k);
                lemma_trim_start_shape(rest);
                assert(t.subrange(0, j - k) =~= v@.subrange(k as int, j as int));
                assert(t.subrange(j - k, t.len() as int) =~= v@.subrange(j as int, v.len() as int));
                assert(split_ws(rest) == seq![v@.subrange(k as int, j as int)]
                    + split_ws(v@.subrange(j as int, v.len() as int)));
            }
            let piece = slice_chars(v, k, j);
            let ghost before = out@;
            out.push(piece);
            assert(views(out@) =~= views(before).push(piece@));
            assert(views(out@) + split_ws(v@.subrange(j as int, v.len() as int))
                =~= views(before) + (seq![piece@] + split_ws(v@.subrange(j as int, v.len() as int))));
            i = j;
        }
    }
    assert(split_ws(v@.subrange(i as int, v.len() as int)) == Seq::<Seq<char>>::empty());
    assert(views(out@) + Seq::<Seq<char>>::empty() =~= views(out@));
    out
}

/// ASCII lowercase of one character (`char::to_ascii_lowercase`).
pub open spec fn lower_ascii_char(c: char) -> char {
    if 'A' <= c && c <= 'Z' { ((c as u32) + 32) as char } else { c }
}

/// `str::to_ascii_lowercase`.
pub open spec fn lower_ascii(s: Seq<char>) -> Seq<char> {
    s.map_values(|c: char| lower_ascii_char(c))
}

/// `char::to_ascii_lowercase`.
pub fn to_ascii_lower_char(c: char) -> (r: char)
    ensures
        r == lower_ascii_char(c),
{
    if 'A' <= c && c <= 'Z' {
        let n: u8 = (c as u8) + 32;
        n as char
    } else {
        c
    }
}

/// `str::to_ascii_lowercase` on a character vector.
pub fn lower_ascii_chars(v: &Vec<char>) -> (r: Vec<char>)
    ensures
        r@ == lower_ascii(v@),
{
    let mut r: Vec<char> = Vec::new();
    let mut i: usize = 0;
    while i < v.len()
        invariant
            i <= v.len(),
            r@ =~= lower_ascii(v@.take(i as int)),
        decreases v.len() - i,
    {
        r.push(to_ascii_lower_char(v[i]));
        i += 1;
        assert(lower_ascii(v@.take(i as int)) =~= lower_ascii(v@.take((i - 1) as int)).push(lower_ascii_char(v@[i - 1])));
    }
    assert(v@.take(v.len() as int) =~= v@);
    r
}

/// `str::eq_ignore_ascii_case`.
pub open spec fn eq_ignore_ascii_case(a: Seq<char>, b: Seq<char>) -> bool {
    lower_ascii(a) == lower_ascii(b)
}

/// `str::eq_ignore_ascii_case` against a literal.
pub fn eq_ignore_case_str(a: &Vec<char>, b: &str) -> (r: bool)
    ensures
        r == eq_ignore_ascii_case(a@, b@),
{
    let la = lower_ascii_chars(a);
    let bv = chars_of(b);
    let lb = lower_ascii_chars(&bv);
    if la.len() != lb.len() {
        assert(lower_ascii(a@).len() == a@.len());
        assert(lower_ascii(b@) != lower_ascii(a@));
        return false;
    }
    let mut i: usize = 0;
    while i < la.len()
        invariant
            i <= la.len(),
            la.len() == lb.len(),
            la@ == lower_ascii(a@),
            lb@ == lower_ascii(b@),
            forall|k: int| 0 <= k < i ==> la@[k] == lb@[k],
        decreases la.len() - i,
    {
        if la[i] != lb[i] {
            assert(la@[i as int] != lb@[i as int]);
            return false;
        }
        i += 1;
    }
    assert(la@ =~= lb@);
    true
}

/// Unicode lowercase of a string, as `str::to_lowercase` computes it.
pub uninterp spec fn lowercase(s: Seq<char>) -> Seq<char>;

/// `str::to_lowercase` (Unicode case mapping).
#[verifier::external_body]
pub(crate) fn to_lowercase(s: &Vec<char>) -> (r: Vec<char>)
    ensures
        r@ == lowercase(s@),
{
    let st: String = s.iter().collect();
    st.to_lowercase().chars().collect()
}

/// Unicode uppercase of a string, as `str::to_uppercase` computes it.
pub uninterp spec fn uppercase(s: Seq<char>) -> Seq<char>;

/// `str::to_uppercase` (Unicode case mapping).
#[verifier::external_body]
pub(crate) fn to_uppercase(s: &Vec<char>) -> (r: Vec<char>)
    ensures
        r@ == uppercase(s@),
{
    let st: String = s.iter().collect();
    st.to_uppercase().chars().collect()
}

/// The decimal digit value of `c`.
pub open spec fn digit(c: char) -> nat {
    ((c as u32) - 48) as nat
}

pub open spec fn is_digit(c: char) -> bool {
    '0' <= c && c <= '9'
}

/// The value of a string of decimal digits.
pub open spec fn digits_value(s: Seq<char>) -> nat
    decreases s.len(),
{
    if s.len() == 0 { 0 } else { digits_value(s.drop_last()) * 10 + digit(s.last()) }
}

/// What `str::parse` yields for an unsigned integer without a width limit: an
/// optional `+`, then one or more decimal digits.
pub open spec fn parse_uint(s: Seq<char>) -> Option<nat> {
    if unsigned_digits(s).len() > 0 && all_digits(unsigned_digits(s)) {
        Some(digits_value(unsigned_digits(s)))
    } else {
        None
    }
}

/// The digit part of an unsigned number: `s` without a leading `+`.
pub open spec fn unsigned_digits(s: Seq<char>) -> Seq<char> {
    if s.len() > 0 && s[0] == '+' { s.drop_first() } else { s }
}

/// Every character of `s` is a decimal digit.
pub open spec fn all_digits(s: Seq<char>) -> bool {
    forall|k: int| 0 <= k < s.len() ==> is_digit(#[trigger] s[k])
}

/// `str::parse::<T>` for an unsigned type whose maximum is `max`.
pub open spec fn parse_bounded(s: Seq<char>, max: nat) -> Option<nat> {
    match parse_uint(s) {
        Some(n) => if n <= max { Some(n) } else { None },
        None => None,
    }
}

proof fn lemma_digits_value_prefix(s: Seq<char>, i: int)
    requires
        0 <= i <= s.len(),
    ensures
        digits_value(s.take(i)) <= digits_value(s),
    decreases s.len() - i,
{
    if i < s.len() {
        lemma_digits_value_prefix(s, i + 1);
        assert(s.take(i + 1).drop_last() =~= s.take(i));
    } else {
        assert(s.take(i) =~= s);
    }
}

/// `str::parse::<u64>` on a character vector.
pub fn parse_u64(v: &Vec<char>) -> (r: Option<u64>)
    ensures
        match r {
            Some(n) => parse_bounded(v@, u64::MAX as nat) == Some(n as nat),
            None => parse_bounded(v@, u64::MAX as nat) is None,
        },
{
    let start: usize = if v.len() > 0 && v[0] == '+' { 1 } else { 0 };
    let ghost d = unsigned_digits(v@);
    assert(d =~= v@.subrange(start as int, v.len() as int));
    if start == v.len() {
        return None;
    }
    let mut acc: u64 = 0;
    let mut i = start;
    while i < v.len()
        invariant
            start <= i <= v.len(),
            d =~= v@.subrange(start as int, v.len() as int),
            d == unsigned_digits(v@),
            acc as nat == digits_value(d.take(i - start)),
            forall|k: int| 0 <= k < i - start ==> is_digit(#[trigger] d[k]),
        decreases v.len() - i,
    {
        let c = v[i];
        if c < '0' || c > '9' {
            assert(!is_digit(d[i - start]));
            assert(parse_uint(v@) is None);
            return None;
        }
        let dv = (c as u32 - 48) as u64;
        assert(d.take(i - start + 1).drop_last() =~= d.take(i - start));
        assert(d.take(i - start + 1).last() == c);
        if acc > (u64::MAX - dv) / 10 {
            assert(digits_value(d.take(i - start + 1)) > u64::MAX) by (nonlinear_arith)
                requires
                    digits_value(d.take(i - start + 1)) == acc * 10 + dv,
                    acc > (u64::MAX - dv) / 10,
                    dv <= 9,
            ;
            proof {
                lemma_digits_value_prefix(d, i - start + 1);
                if parse_uint(v@) is Some {
                    assert(parse_uint(v@) == Some(digits_value(d)));
                }
            }
            return None;
        }
        acc = acc * 10 + dv;
        i += 1;
    }
    assert(d.take(i - start) =~= d);
    Some(acc)
}

/// `str::parse::<u8>` on a character vector.
pub fn parse_u8(v: &Vec<char>) -> (r: Option<u8>)
    ensures
        match r {
            Some(n) => parse_bounded(v@, u8::MAX as nat) == Some(n as nat),
            None => parse_bounded(v@, u8::MAX as nat) is None,
        },
{
    match parse_u64(v) {
        Some(n) => if n <= 255 { Some(n as u8) } else { None },
        None => {
            assert(parse_bounded(v@, u8::MAX as nat) is None);
            None
        }
    }
}


/// `str::trim_end_matches` for a non-empty string pattern: every trailing
/// repetition of `p` removed.
pub open spec fn trim_end_matches(s: Seq<char>, p: Seq<char>) -> Seq<char>
    decreases s.len(),
{
    if p.len() > 0 && ends_with(s, p) {
        trim_end_matches(s.subrange(0, s.len() - p.len()), p)
    } else {
        s
    }
}

/// `trim_end_matches` on a character vector.
pub fn trim_end_matches_chars(v: &Vec<char>, p: &str) -> (r: Vec<char>)
    ensures
        r@ == trim_end_matches(v@, p@),
{
    let pv = chars_of(p);
    let mut cur = slice_chars(v, 0, v.len());
    assert(cur@ =~= v@);
    if pv.len() == 0 {
        return cur;
    }
    while ends_with_chars(&cur, &pv)
        invariant
            pv@ == p@,
            pv.len() > 0,
            trim_end_matches(cur@, p@) == trim_end_matches(v@, p@),
        decreases cur.len(),
    {
        let n = cur.len() - pv.len();
        cur = slice_chars(&cur, 0, n);
    }
    cur
}

/// Every occurrence of the character `c` in `s` replaced by `r`
/// (`str::replace` with a one-character pattern).
pub open spec fn replace_char(s: Seq<char>, c: char, r: Seq<char>) -> Seq<char>
    decreases s.len(),
{
    if s.len() == 0 {
        seq![]
    } else {
        replace_char(s.drop_last(), c, r) + (if s.last() == c { r } else { seq![s.last()] })
    }
}

/// Appends `replace_char(v, c, r)` to `out`.
pub fn push_replaced(out: &mut String, v: &Vec<char>, c: char, r: &str)
    ensures
        final(out)@ == old(out)@ + replace_char(v@, c, r@),
{
    let ghost start = out@;
    let mut i: usize = 0;
    while i < v.len()
        invariant
            i <= v.len(),
            out@ == start + replace_char(v@.take(i as int), c, r@),
        decreases v.len() - i,
    {
        if v[i] == c {
            push_str(out, r);
        } else {
            push_char(out, v[i]);
        }
        i += 1;
        assert(v@.take(i as int).drop_last() =~= v@.take((i - 1) as int));
    }
    assert(v@.take(v.len() as int) =~= v@);
}


/// Lexicographic `<=` on character sequences (the order of `String`/`str`:
/// UTF-8 byte order is code-point order).
pub open spec fn lex_le(a: Seq<char>, b: Seq<char>) -> bool
    decreases a.len(),
{
    if a.len() == 0 {
        true
    } else if b.len() == 0 {
        false
    } else if a[0] != b[0] {
        a[0] < b[0]
    } else {
        lex_le(a.drop_first(), b.drop_first())
    }
}

pub proof fn lemma_lex_total(a: Seq<char>, b: Seq<char>)
    ensures
        lex_le(a, b) || lex_le(b, a),
    decreases a.len(),
{
    if a.len() > 0 && b.len() > 0 && a[0] == b[0] {
        lemma_lex_total(a.drop_first(), b.drop_first());
    }
}

pub proof fn lemma_lex_antisym(a: Seq<char>, b: Seq<char>)
    requires
        lex_le(a, b),
        lex_le(b, a),
    ensures
        a == b,
    decreases a.len(),
{
    if a.len() > 0 && b.len() > 0 {
        lemma_lex_antisym(a.drop_first(), b.drop_first());
        assert(a =~= seq![a[0]] + a.drop_first());
        assert(b =~= seq![b[0]] + b.drop_first());
    } else {
        assert(a.len() == 0 && b.len() == 0);
        assert(a =~= b);
    }
}

pub proof fn lemma_lex_trans(a: Seq<char>, b: Seq<char>, c: Seq<char>)
    requires
        lex_le(a, b),
        lex_le(b, c),
    ensures
        lex_le(a, c),
    decreases a.len(),
{
    if a.len() > 0 && b.len() > 0 && c.len() > 0 && a[0] == b[0] && b[0] == c[0] {
        lemma_lex_trans(a.drop_first(), b.drop_first(), c.drop_first());
    }
}

pub proof fn lemma_lex_refl(a: Seq<char>)
    ensures
        lex_le(a, a),
    decreases a.len(),
{
    if a.len() > 0 {
        lemma_lex_refl(a.drop_first());
    }
}

/// Lexicographic `<=` on character vectors.
pub fn lex_le_chars(a: &Vec<char>, b: &Vec<char>) -> (r: bool)
    ensures
        r == lex_le(a@, b@),
{
    let mut i: usize = 0;
    assert(a@.subrange(0, a.len() as int) =~= a@);
    assert(b@.subrange(0, b.len() as int) =~= b@);
    while i < a.len() && i < b.len()
        invariant
            i <= a.len(),
            i <= b.len(),
            lex_le(a@, b@) == lex_le(a@.subrange(i as int, a.len() as int),
                b@.subrange(i as int, b.len() as int)),
        decreases a.len() - i,
    {
        let ghost sa = a@.subrange(i as int, a.len() as int);
        let ghost sb = b@.subrange(i as int, b.len() as int);
        assert(sa[0] == a@[i as int]);
        assert(sb[0] == b@[i as int]);
        if a[i] != b[i] {
            return a[i] < b[i];
        }
        assert(sa.drop_first() =~= a@.subrange(i + 1, a.len() as int));
        assert(sb.drop_first() =~= b@.subrange(i + 1, b.len() as int));
        i += 1;
    }
    i == a.len()
}

/// The characters of `a` equal those of `b` (exec).
pub fn eq_chars(a: &Vec<char>, b: &Vec<char>) -> (r: bool)
    ensures
        r == (a@ == b@),
{
    if a.len() != b.len() {
        return false;
    }
    let r = matches_at(a, b, 0);
    assert(a@ =~= a@.subrange(0, b.len() as int));
    r
}

/// One more line of input adds what that line gives, if anything.
pub proof fn lemma_filter_map_step<B>(s: Seq<Seq<char>>, i: int, f: spec_fn(Seq<char>) -> Option<B>)
    requires
        0 <= i < s.len(),
    ensures
        s.take(i + 1).filter_map(f) == match f(s[i]) {
            Some(x) => s.take(i).filter_map(f).push(x),
            None => s.take(i).filter_map(f),
        },
{
    assert(s.take(i + 1).drop_last() =~= s.take(i));
    assert(s.take(i + 1).last() == s[i]);
    match f(s[i]) {
        Some(x) => {
            assert(s.take(i).filter_map(f) + seq![x] =~= s.take(i).filter_map(f).push(x));
        }
        None => {}
    }
}

// --- numbers and joining -------------------------------------------------------

/// The ASCII digit for `d` (`d < 10`).
pub open spec fn digit_char(d: nat) -> char {
    ((d + 48) as u8) as char
}

/// The decimal text of `n` (no sign, no leading zeros).
pub open spec fn dec(n: nat) -> Seq<char>
    decreases n,
{
    if n < 10 {
        seq![digit_char(n)]
    } else {
        dec(n / 10).push(digit_char(n % 10))
    }
}

/// Append the decimal text of `n`.
pub fn push_dec(s: &mut String, n: u64)
    ensures
        final(s)@ == old(s)@ + dec(n as nat),
    decreases n,
{
    if n >= 10 {
        push_dec(s, n / 10);
    }
    let d = (n % 10) as u8;
    push_char(s, (d + 48) as char);
    proof {
        if n >= 10 {
            assert(old(s)@ + dec((n / 10) as nat) + seq![digit_char((n % 10) as nat)] =~= old(s)@ + dec(n as nat));
        } else {
            assert(old(s)@ + seq![digit_char(n as nat)] =~= old(s)@ + dec(n as nat));
        }
    }
}

/// The decimal text of `n`.
pub fn decimal(n: u64) -> (s: String)
    ensures
        s@ == dec(n as nat),
{
    let mut s = String::new();
    push_dec(&mut s, n);
    assert(s@ =~= dec(n as nat));
    s
}

/// The pieces joined with `sep` between each two.
pub open spec fn join(ls: Seq<Seq<char>>, sep: Seq<char>) -> Seq<char>
    decreases ls.len(),
{
    if ls.len() == 0 {
        seq![]
    } else if ls.len() == 1 {
        ls[0]
    } else {
        join(ls.drop_last(), sep) + sep + ls.last()
    }
}

/// The character vectors joined with `sep` between each two.
pub fn join_chars(ls: &Vec<Vec<char>>, sep: &str) -> (r: Vec<char>)
    ensures
        r@ == join(views(ls@), sep@),
{
    let sv = chars_of(sep);
    let mut r: Vec<char> = Vec::new();
    let mut i: usize = 0;
    assert(views(ls@).take(0) =~= Seq::<Seq<char>>::empty());
    while i < ls.len()
        invariant
            i <= ls.len(),
            sv@ == sep@,
            r@ == join(views(ls@).take(i as int), sep@),
        decreases ls.len() - i,
    {
        let ghost t = views(ls@).take(i + 1);
        assert(t.drop_last() =~= views(ls@).take(i as int));
        assert(t.last() == ls@[i as int]@);
        if i > 0 {
            let mut k: usize = 0;
            let ghost r0 = r@;
            while k < sv.len()
                invariant
                    k <= sv.len(),
                    r@ == r0 + sv@.take(k as int),
                decreases sv.len() - k,
            {
                r.push(sv[k]);
                assert(sv@.take(k + 1) =~= sv@.take(k as int).push(sv@[k as int]));
                k += 1;
            }
            assert(sv@.take(sv.len() as int) =~= sv@);
        } else {
            assert(t =~= seq![ls@[0]@]);
        }
        let mut k: usize = 0;
        let ghost r1 = r@;
        while k < ls[i].len()
            invariant
                i < ls.len(),
                k <= ls@[i as int].len(),
                r@ == r1 + ls@[i as int]@.take(k as int),
            decreases ls@[i as int].len() - k,
        {
            r.push(ls[i][k]);
            assert(ls@[i as int]@.take(k + 1) =~= ls@[i as int]@.take(k as int).push(ls@[i as int]@[k as int]));
            k += 1;
        }
        assert(ls@[i as int]@.take(ls@[i as int]@.len() as int) =~= ls@[i as int]@);
        proof {
            if i == 0 {
                assert(r@ =~= join(t, sep@));
            } else {
                assert(r@ =~= join(t, sep@));
            }
        }
        i += 1;
    }
    assert(views(ls@).take(ls.len() as int) =~= views(ls@));
    r
}

/// `c` removed from the front, repeatedly.
pub open spec fn strip_leading(s: Seq<char>, c: char) -> Seq<char>
    decreases s.len(),
{
    if s.len() > 0 && s[0] == c { strip_leading(s.drop_first(), c) } else { s }
}

/// `c` removed from the back, repeatedly.
pub open spec fn strip_trailing(s: Seq<char>, c: char) -> Seq<char>
    decreases s.len(),
{
    if s.len() > 0 && s.last() == c { strip_trailing(s.drop_last(), c) } else { s }
}

/// `str::trim_matches` with one character: `c` removed from both ends.
pub fn trim_matches_chars(t: &Vec<char>, c: char) -> (r: Vec<char>)
    ensures
        r@ == strip_trailing(strip_leading(t@, c), c),
{
    let mut lo: usize = 0;
    assert(t@.skip(0) =~= t@);
    while lo < t.len() && t[lo] == c
        invariant
            lo <= t.len(),
            strip_leading(t@, c) == strip_leading(t@.skip(lo as int), c),
        decreases t.len() - lo,
    {
        assert(t@.skip(lo as int).drop_first() =~= t@.skip(lo + 1));
        lo += 1;
    }
    let mut hi: usize = t.len();
    assert(lo < t.len() ==> t@.skip(lo as int)[0] != c);
    assert(strip_leading(t@.skip(lo as int), c) == t@.skip(lo as int));
    assert(t@.skip(lo as int) =~= t@.subrange(lo as int, hi as int));
    while hi > lo && t[hi - 1] == c
        invariant
            lo <= hi <= t.len(),
            strip_trailing(strip_leading(t@, c), c) == strip_trailing(t@.subrange(lo as int, hi as int), c),
        decreases hi,
    {
        assert(t@.subrange(lo as int, hi as int).drop_last() =~= t@.subrange(lo as int, hi - 1));
        hi -= 1;
    }
    let r = slice_chars(t, lo, hi);
    assert(hi > lo ==> t@.subrange(lo as int, hi as int).last() != c);
    r
}

/// `str::replace` with a non-empty pattern: each occurrence, scanning left to
/// right without overlap, replaced by `r`.
pub open spec fn replace_str(s: Seq<char>, p: Seq<char>, r: Seq<char>) -> Seq<char>
    decreases s.len(),
{
    if s.len() == 0 || p.len() == 0 {
        s
    } else if starts_with(s, p) {
        r + replace_str(s.skip(p.len() as int), p, r)
    } else {
        seq![s[0]] + replace_str(s.skip(1), p, r)
    }
}

/// `str::replace` on character vectors, for a non-empty pattern.
pub fn replace_chars(v: &Vec<char>, p: &str, r: &str) -> (out: Vec<char>)
    ensures
        out@ == replace_str(v@, p@, r@),
{
    let pv = chars_of(p);
    let rv = chars_of(r);
    if pv.len() == 0 {
        return slice_chars(v, 0, v.len());
    }
    let mut out: Vec<char> = Vec::new();
    let mut i: usize = 0;
    assert(v@.skip(0) =~= v@);
    while i < v.len()
        invariant
            i <= v.len(),
            pv@ == p@,
            rv@ == r@,
            pv@.len() > 0,
            out@ + replace_str(v@.skip(i as int), p@, r@) == replace_str(v@, p@, r@),
        decreases v.len() - i,
    {
        let ghost rest = v@.skip(i as int);
        if matches_at(v, &pv, i) {
            assert(rest.subrange(0, pv@.len() as int) =~= v@.subrange(i as int, i + pv@.len()));
            assert(starts_with(rest, p@));
            assert(rest.skip(pv@.len() as int) =~= v@.skip(i + pv@.len()));
            let ghost before = out@;
            let mut k: usize = 0;
            while k < rv.len()
                invariant
                    k <= rv.len(),
                    out@ == before + rv@.take(k as int),
                decreases rv.len() - k,
            {
                out.push(rv[k]);
                assert(rv@.take(k + 1) =~= rv@.take(k as int).push(rv@[k as int]));
                k += 1;
            }
            assert(rv@.take(rv.len() as int) =~= rv@);
            assert(out@ + replace_str(v@.skip(i + pv@.len()), p@, r@) =~= before + replace_str(rest, p@, r@));
            i += pv.len();
        } else {
            proof {
                if starts_with(rest, p@) {
                    assert(rest.subrange(0, pv@.len() as int) =~= v@.subrange(i as int, i + pv@.len()));
                }
            }
            assert(rest[0] == v@[i as int]);
            assert(rest.skip(1) =~= v@.skip(i + 1));
            let ghost before = out@;
            out.push(v[i]);
            assert(out@ + replace_str(v@.skip(i + 1), p@, r@) =~= before + replace_str(rest, p@, r@));
            i += 1;
        }
    }
    assert(v@.skip(i as int) =~= Seq::<char>::empty());
    assert(out@ + replace_str(v@.skip(i as int), p@, r@) =~= out@);
    out
}

} // verus!
