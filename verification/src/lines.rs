//! Facts about `str::lines` and re-joining lines with `\n`: splitting at a
//! line break, and getting back the lines that were joined.

use vstd::prelude::*;
use crate::text::{lines, join, strip_cr, find, lemma_find_char, lemma_find_char_none, ends_with};

verus! {

/// `s` holds no `c`.
pub open spec fn free_of(s: Seq<char>, c: char) -> bool {
    forall|k: int| 0 <= k < s.len() ==> s[k] != c
}

/// Each line is free of `\n` and `\r`.
pub open spec fn plain_lines(ls: Seq<Seq<char>>) -> bool {
    forall|i: int| 0 <= i < ls.len() ==> free_of(#[trigger] ls[i], '\n') && free_of(ls[i], '\r')
}

/// The first `\n` of `a` at or after `j` (or `a.len()`).
pub proof fn first_nl(a: Seq<char>, j: int) -> (i: int)
    requires
        0 <= j <= a.len(),
        forall|k: int| 0 <= k < j ==> a[k] != '\n',
    ensures
        j <= i <= a.len(),
        forall|k: int| 0 <= k < i ==> a[k] != '\n',
        i < a.len() ==> a[i] == '\n',
    decreases a.len() - j,
{
    if j == a.len() || a[j] == '\n' {
        j
    } else {
        first_nl(a, j + 1)
    }
}

/// The lines of a one-line text.
pub proof fn lemma_lines_single(a: Seq<char>)
    requires
        a.len() > 0,
        free_of(a, '\n'),
    ensures
        lines(a) == seq![a],
{
    lemma_find_char_none(a, '\n');
}

/// The lines of a text ended by `\n` after its one line.
pub proof fn lemma_lines_single_nl(a: Seq<char>)
    requires
        free_of(a, '\n'),
    ensures
        lines(a + seq!['\n']) == seq![strip_cr(a)],
{
    let s = a + seq!['\n'];
    lemma_find_char(s, '\n', a.len() as int);
    assert(s.subrange(0, a.len() as int) =~= a);
    let rest = s.subrange(a.len() as int + 1, s.len() as int);
    assert(rest =~= Seq::<char>::empty());
    assert(lines(rest) == Seq::<Seq<char>>::empty());
    assert(lines(s) == seq![strip_cr(a)] + lines(rest));
    assert(seq![strip_cr(a)] + Seq::<Seq<char>>::empty() =~= seq![strip_cr(a)]);
}

/// Splitting at a line break: the lines before it, then the lines after it.
pub proof fn lemma_lines_seam(a: Seq<char>, b: Seq<char>)
    ensures
        lines(a + seq!['\n'] + b) == lines(a + seq!['\n']) + lines(b),
    decreases a.len(),
{
    let s = a + seq!['\n'] + b;
    let t = a + seq!['\n'];
    let i = first_nl(a, 0);
    if i < a.len() {
        lemma_find_char(s, '\n', i);
        lemma_find_char(t, '\n', i);
        let a2 = a.subrange(i + 1, a.len() as int);
        assert(s.subrange(0, i) =~= a.subrange(0, i));
        assert(t.subrange(0, i) =~= a.subrange(0, i));
        assert(s.subrange(i + 1, s.len() as int) =~= a2 + seq!['\n'] + b);
        assert(t.subrange(i + 1, t.len() as int) =~= a2 + seq!['\n']);
        lemma_lines_seam(a2, b);
        assert(lines(s) =~= seq![strip_cr(a.subrange(0, i))] + lines(a2 + seq!['\n'] + b));
        assert(lines(t) =~= seq![strip_cr(a.subrange(0, i))] + lines(a2 + seq!['\n']));
    } else {
        lemma_find_char(s, '\n', a.len() as int);
        assert(s.subrange(0, a.len() as int) =~= a);
        assert(s.subrange(a.len() as int + 1, s.len() as int) =~= b);
        lemma_lines_single_nl(a);
    }
}

/// A final line break adds no line to a text whose last line is not blank
/// and does not end in `\r`.
pub proof fn lemma_lines_final_nl(a: Seq<char>)
    requires
        a.len() > 0,
        a.last() != '\n',
        a.last() != '\r',
    ensures
        lines(a + seq!['\n']) == lines(a),
    decreases a.len(),
{
    let t = a + seq!['\n'];
    let i = first_nl(a, 0);
    if i < a.len() {
        lemma_find_char(t, '\n', i);
        lemma_find_char(a, '\n', i);
        let a2 = a.subrange(i + 1, a.len() as int);
        assert(a2.len() > 0);
        assert(a2.last() == a.last());
        assert(t.subrange(0, i) =~= a.subrange(0, i));
        assert(t.subrange(i + 1, t.len() as int) =~= a2 + seq!['\n']);
        lemma_lines_final_nl(a2);
    } else {
        lemma_lines_single(a);
        lemma_lines_single_nl(a);
    }
}

/// Joining plain lines with `\n` and ending with `\n` gives them back.
pub proof fn lemma_lines_join_nl(ls: Seq<Seq<char>>)
    requires
        ls.len() > 0,
        plain_lines(ls),
    ensures
        lines(join(ls, seq!['\n']) + seq!['\n']) == ls,
    decreases ls.len(),
{
    let e = ls.last();
    assert(free_of(ls[ls.len() - 1], '\n'));
    if ls.len() == 1 {
        lemma_lines_single_nl(ls[0]);
        assert(strip_cr(ls[0]) == ls[0]);
        assert(ls =~= seq![ls[0]]);
    } else {
        let ls2 = ls.drop_last();
        assert(plain_lines(ls2)) by {
            assert forall|i: int| 0 <= i < ls2.len() implies free_of(#[trigger] ls2[i], '\n') && free_of(ls2[i], '\r') by {
                assert(ls2[i] == ls[i]);
            }
        }
        lemma_lines_join_nl(ls2);
        assert(join(ls, seq!['\n']) + seq!['\n'] =~= join(ls2, seq!['\n']) + seq!['\n'] + (e + seq!['\n']));
        lemma_lines_seam(join(ls2, seq!['\n']), e + seq!['\n']);
        lemma_lines_single_nl(e);
        assert(free_of(e, '\r'));
        assert(strip_cr(e) == e);
        assert(ls =~= ls2 + seq![e]);
    }
}

/// Joining plain lines whose last is not blank gives them back.
pub proof fn lemma_lines_join(ls: Seq<Seq<char>>)
    requires
        ls.len() > 0,
        ls.last().len() > 0,
        plain_lines(ls),
    ensures
        lines(join(ls, seq!['\n'])) == ls,
{
    let e = ls.last();
    assert(free_of(ls[ls.len() - 1], '\n'));
    if ls.len() == 1 {
        lemma_lines_single(ls[0]);
        assert(ls =~= seq![ls[0]]);
    } else {
        let ls2 = ls.drop_last();
        assert(plain_lines(ls2)) by {
            assert forall|i: int| 0 <= i < ls2.len() implies free_of(#[trigger] ls2[i], '\n') && free_of(ls2[i], '\r') by {
                assert(ls2[i] == ls[i]);
            }
        }
        lemma_lines_join_nl(ls2);
        assert(join(ls, seq!['\n']) =~= join(ls2, seq!['\n']) + seq!['\n'] + e);
        lemma_lines_seam(join(ls2, seq!['\n']), e);
        lemma_lines_single(e);
        assert(ls =~= ls2 + seq![e]);
    }
}

/// The lines of a text are free of `\n`, and of `\r` when the text is.
pub proof fn lemma_lines_plain(s: Seq<char>)
    requires
        free_of(s, '\r'),
    ensures
        plain_lines(lines(s)),
    decreases s.len(),
{
    if s.len() > 0 {
        let i = first_nl(s, 0);
        if i < s.len() {
            lemma_find_char(s, '\n', i);
            let head = s.subrange(0, i);
            let rest = s.subrange(i + 1, s.len() as int);
            assert(free_of(rest, '\r')) by {
                assert forall|k: int| 0 <= k < rest.len() implies rest[k] != '\r' by {
                    assert(rest[k] == s[i + 1 + k]);
                }
            }
            lemma_lines_plain(rest);
            assert(free_of(strip_cr(head), '\n') && free_of(strip_cr(head), '\r')) by {
                assert forall|k: int| 0 <= k < strip_cr(head).len() implies strip_cr(head)[k] != '\n'
                    && strip_cr(head)[k] != '\r' by {
                    assert(strip_cr(head)[k] == s[k]);
                }
            }
            let ls = lines(s);
            assert(ls == seq![strip_cr(head)] + lines(rest));
            assert forall|j: int| 0 <= j < ls.len() implies free_of(#[trigger] ls[j], '\n') && free_of(ls[j], '\r') by {
                if j > 0 {
                    assert(ls[j] == lines(rest)[j - 1]);
                }
            }
        } else {
            lemma_lines_single(s);
        }
    }
}

/// The sequence joined with `\n` ends in `\n` exactly when its last line is
/// blank and there are at least two.
pub proof fn lemma_join_ends_nl(ls: Seq<Seq<char>>)
    requires
        plain_lines(ls),
    ensures
        ends_with(join(ls, seq!['\n']), seq!['\n']) == (ls.len() >= 2 && ls.last().len() == 0),
{
    let j = join(ls, seq!['\n']);
    if ls.len() == 1 {
        assert(free_of(ls[0], '\n'));
        if ends_with(j, seq!['\n']) {
            assert(j[j.len() - 1] == j.subrange(j.len() - 1, j.len() as int)[0]);
        }
    } else if ls.len() >= 2 {
        let e = ls.last();
        assert(free_of(ls[ls.len() - 1], '\n'));
        assert(j == join(ls.drop_last(), seq!['\n']) + seq!['\n'] + e);
        if e.len() == 0 {
            assert(j.subrange(j.len() - 1, j.len() as int) =~= seq!['\n']);
        } else {
            if ends_with(j, seq!['\n']) {
                assert(j[j.len() - 1] == j.subrange(j.len() - 1, j.len() as int)[0]);
                assert(j[j.len() - 1] == e[e.len() - 1]);
            }
        }
    }
}

/// Joining a line in front of other lines.
pub proof fn lemma_join_prepend(a: Seq<char>, ls: Seq<Seq<char>>, sep: Seq<char>)
    requires
        ls.len() > 0,
    ensures
        join(seq![a] + ls, sep) == a + sep + join(ls, sep),
    decreases ls.len(),
{
    let x = seq![a] + ls;
    if ls.len() == 1 {
        assert(x.drop_last() =~= seq![a]);
        assert(x.last() == ls[0]);
        assert(join(seq![a], sep) == a);
        assert(join(ls, sep) == ls[0]);
        assert(join(x, sep) == join(x.drop_last(), sep) + sep + x.last());
    } else {
        assert(x.drop_last() =~= seq![a] + ls.drop_last());
        lemma_join_prepend(a, ls.drop_last(), sep);
        assert(x.last() == ls.last());
        assert(join(x, sep) == join(x.drop_last(), sep) + sep + x.last());
        assert(join(ls, sep) == join(ls.drop_last(), sep) + sep + ls.last());
        assert(a + sep + join(ls.drop_last(), sep) + sep + ls.last() =~= a + sep + (join(ls.drop_last(), sep) + sep
            + ls.last()));
    }
}

/// A text without `\r` is its lines joined with `\n`, and its final line
/// break when it has one.
pub proof fn lemma_join_lines(y: Seq<char>)
    requires
        free_of(y, '\r'),
    ensures
        join(lines(y), seq!['\n']) + (if ends_with(y, seq!['\n']) { seq!['\n'] } else { seq![] }) == y,
    decreases y.len(),
{
    let nl = seq!['\n'];
    if y.len() > 0 {
        let i = first_nl(y, 0);
        if i < y.len() {
            lemma_find_char(y, '\n', i);
            let a = y.subrange(0, i);
            let r = y.subrange(i + 1, y.len() as int);
            assert(strip_cr(a) == a) by {
                if a.len() > 0 {
                    assert(a.last() == y[i - 1]);
                }
            }
            assert(lines(y) == seq![a] + lines(r));
            assert(free_of(r, '\r')) by {
                assert forall|k: int| 0 <= k < r.len() implies r[k] != '\r' by {
                    assert(r[k] == y[i + 1 + k]);
                }
            }
            if r.len() == 0 {
                assert(lines(r) == Seq::<Seq<char>>::empty());
                assert(seq![a] + lines(r) =~= seq![a]);
                assert(y.subrange(y.len() - 1, y.len() as int) =~= nl);
                assert(a + nl =~= y);
            } else {
                lemma_join_lines(r);
                assert(lines(r).len() > 0);
                lemma_join_prepend(a, lines(r), nl);
                assert(ends_with(y, nl) == ends_with(r, nl)) by {
                    assert(y.subrange(y.len() - 1, y.len() as int) =~= r.subrange(r.len() - 1, r.len() as int));
                }
                assert(a + nl + r =~= y);
            }
        } else {
            lemma_find_char_none(y, '\n');
            assert(lines(y) == seq![y]);
            assert(!ends_with(y, nl)) by {
                if ends_with(y, nl) {
                    assert(y.subrange(y.len() - 1, y.len() as int)[0] == y[y.len() - 1]);
                }
            }
            assert(y + Seq::<char>::empty() =~= y);
        }
    } else {
        assert(lines(y) == Seq::<Seq<char>>::empty());
        assert(!ends_with(y, nl));
        assert(Seq::<char>::empty() + Seq::<char>::empty() =~= y);
    }
}

/// Lines without `\r` joined with `\n` hold no `\r`.
pub proof fn lemma_join_free(ls: Seq<Seq<char>>)
    requires
        plain_lines(ls),
    ensures
        free_of(join(ls, seq!['\n']), '\r'),
    decreases ls.len(),
{
    if ls.len() >= 2 {
        let j = join(ls.drop_last(), seq!['\n']);
        assert(plain_lines(ls.drop_last())) by {
            assert forall|i: int| 0 <= i < ls.drop_last().len() implies free_of(#[trigger] ls.drop_last()[i], '\n')
                && free_of(ls.drop_last()[i], '\r') by {
                assert(ls.drop_last()[i] == ls[i]);
            }
        }
        lemma_join_free(ls.drop_last());
        assert(free_of(ls.last(), '\r'));
        let x = j + seq!['\n'] + ls.last();
        assert forall|k: int| 0 <= k < x.len() implies x[k] != '\r' by {
            if k < j.len() {
                assert(x[k] == j[k]);
            } else if k > j.len() {
                assert(x[k] == ls.last()[k - j.len() - 1]);
            }
        }
    } else if ls.len() == 1 {
        assert(free_of(ls[0], '\r'));
    }
}

} // verus!
