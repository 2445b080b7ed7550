//! labwc keyboard config for Settings > Devices > Typing: the key-repeat
//! rate/delay lines inside the `<keyboard>` block of `rc.xml` (rewritten in
//! place, keybinds untouched), and the layout in labwc's `environment` file.

use vstd::prelude::*;
use crate::text::{chars_of, begins, dec, ends_with, find, find_chars, join, join_chars, lines,
    lines_of, push_char, push_dec, push_str, slice_chars, starts_with, string_of, trim_start,
    trim_start_chars, views, ends_with_chars};

verus! {

/// Common keyboard layouts surfaced in the Typing page: (xkb code, name).
pub fn layouts() -> (l: Vec<(&'static str, &'static str)>)
    ensures
        l@.len() == 6,
        l@[0].0@ == "us"@ && l@[0].1@ == "English (US)"@,
        l@[1].0@ == "gb"@ && l@[1].1@ == "English (UK)"@,
        l@[2].0@ == "de"@ && l@[2].1@ == "German"@,
        l@[3].0@ == "fr"@ && l@[3].1@ == "French"@,
        l@[4].0@ == "es"@ && l@[4].1@ == "Spanish"@,
        l@[5].0@ == "it"@ && l@[5].1@ == "Italian"@,
{
    vec![
        ("us", "English (US)"),
        ("gb", "English (UK)"),
        ("de", "German"),
        ("fr", "French"),
        ("es", "Spanish"),
        ("it", "Italian"),
    ]
}

/// A key-repeat line (its text, indentation aside, opens `<repeatRate>` or
/// `<repeatDelay>`).
pub open spec fn is_repeat_line(l: Seq<char>) -> bool {
    starts_with(trim_start(l), "<repeatRate>"@) || starts_with(trim_start(l), "<repeatDelay>"@)
}

/// The document with every key-repeat line dropped (lines rejoined with `\n`,
/// a final line ending kept).
pub open spec fn strip_repeat(xml: Seq<char>) -> Seq<char> {
    join(lines(xml).filter(|l: Seq<char>| !is_repeat_line(l)), "\n"@)
        + if ends_with(xml, "\n"@) { "\n"@ } else { seq![] }
}

/// The two key-repeat lines, each on a line of its own.
pub open spec fn repeat_block(rate: nat, delay: nat) -> Seq<char> {
    "\n    <repeatRate>"@ + dec(rate) + "</repeatRate>\n    <repeatDelay>"@ + dec(delay)
        + "</repeatDelay>"@
}

/// Where the repeat lines go: just after the `>` closing the first
/// `<keyboard` opening tag.
pub open spec fn keyboard_insert_at(s: Seq<char>) -> Option<int> {
    match find(s, "<keyboard"@) {
        Some(k) => match find(s.skip(k), ">"@) {
            Some(g) => Some(k + g + 1),
            None => None,
        },
        None => None,
    }
}

/// A line break after the repeat lines when the tag is followed by more
/// text on its line, so that text keeps a line of its own.
pub open spec fn break_after(s: Seq<char>, at: int) -> Seq<char> {
    if at < s.len() && s[at] != '\n' { seq!['\n'] } else { seq![] }
}

pub open spec fn rewrite_keyboard_spec(xml: Seq<char>, rate: nat, delay: nat) -> Seq<char> {
    let s = strip_repeat(xml);
    match keyboard_insert_at(s) {
        Some(at) => s.take(at) + repeat_block(rate, delay) + break_after(s, at) + s.skip(at),
        None => s,
    }
}

/// Set `<repeatRate>`/`<repeatDelay>` inside the `<keyboard>` block, keeping
/// the keybinds and everything else: prior repeat lines are dropped, then
/// fresh ones go right after the `<keyboard ...>` opening tag.
#[verifier::spinoff_prover]
#[verifier::rlimit(40)]
pub fn rewrite_keyboard(xml: &str, rate: u32, delay: u32) -> (out: String)
    ensures
        out@ == rewrite_keyboard_spec(xml@, rate as nat, delay as nat),
{
    let v = chars_of(xml);
    let ls = lines_of(&v);
    let mut kept: Vec<Vec<char>> = Vec::new();
    let mut i: usize = 0;
    proof {
        reveal(Seq::filter);
    }
    assert(views(ls@).take(0) =~= Seq::<Seq<char>>::empty());
    while i < ls.len()
        invariant
            i <= ls.len(),
            views(ls@) == lines(xml@),
            v@ == xml@,
            views(kept@) == views(ls@).take(i as int).filter(|l: Seq<char>| !is_repeat_line(l)),
        decreases ls.len() - i,
    {
        proof {
            reveal(Seq::filter);
        }
        assert(views(ls@).take(i + 1).drop_last() =~= views(ls@).take(i as int));
        assert(views(ls@).take(i + 1).last() == ls@[i as int]@);
        let t = trim_start_chars(&ls[i]);
        let rep = begins(&t, "<repeatRate>") || begins(&t, "<repeatDelay>");
        if !rep {
            let ghost before = views(kept@);
            kept.push(slice_chars(&ls[i], 0, ls[i].len()));
            assert(ls@[i as int]@.subrange(0, ls@[i as int]@.len() as int) =~= ls@[i as int]@);
            assert(views(kept@) =~= before.push(ls@[i as int]@));
        }
        i += 1;
    }
    assert(views(ls@).take(ls.len() as int) =~= views(ls@));
    let mut s = join_chars(&kept, "\n");
    if ends_with_chars(&v, &chars_of("\n")) {
        s.push('\n');
        assert(s@ =~= strip_repeat(xml@)) by {
            reveal_strlit("\n");
        }
    } else {
        assert(s@ =~= strip_repeat(xml@));
    }
    let kv = chars_of("<keyboard");
    match find_chars(&s, &kv) {
        Some(k) => {
            let tail = slice_chars(&s, k, s.len());
            assert(tail@ =~= s@.skip(k as int));
            let gt = chars_of(">");
            match find_chars(&tail, &gt) {
                Some(g) => {
                    proof {
                        reveal_strlit(">");
                    }
                    assert(g + 1 <= tail@.len());
                    let at = k + g + 1;
                    let mut out = String::new();
                    let head = slice_chars(&s, 0, at);
                    let rest = slice_chars(&s, at, s.len());
                    out = string_of(&head);
                    push_str(&mut out, "\n    <repeatRate>");
                    push_dec(&mut out, rate as u64);
                    push_str(&mut out, "</repeatRate>\n    <repeatDelay>");
                    push_dec(&mut out, delay as u64);
                    push_str(&mut out, "</repeatDelay>");
                    if at < s.len() && s[at] != '\n' {
                        push_char(&mut out, '\n');
                    }
                    let ghost mid = out@;
                    let rs = string_of(&rest);
                    push_str(&mut out, rs.as_str());
                    assert(head@ =~= s@.take(at as int));
                    assert(rest@ =~= s@.skip(at as int));
                    assert(out@ =~= s@.take(at as int) + repeat_block(rate as nat, delay as nat) + break_after(s@, at as int)
                        + s@.skip(at as int));
                    out
                }
                None => string_of(&s),
            }
        }
        None => string_of(&s),
    }
}

/// `line` sets `key` (indentation aside, it opens `key=`).
pub open spec fn sets_key(line: Seq<char>, key: Seq<char>) -> bool {
    starts_with(trim_start(line), key + "="@)
}

pub open spec fn upsert_line(line: Seq<char>, key: Seq<char>, value: Seq<char>) -> Seq<char> {
    if sets_key(line, key) { key + "="@ + value } else { line }
}

/// `KEY=value` replacing every line that sets `KEY`, or appended when none
/// does; lines joined with `\n` and ended with one.
pub open spec fn upsert_env_spec(body: Seq<char>, key: Seq<char>, value: Seq<char>) -> Seq<char> {
    let ls = lines(body);
    let mapped = ls.map_values(|l: Seq<char>| upsert_line(l, key, value));
    let found = exists|i: int| 0 <= i < ls.len() && sets_key(#[trigger] ls[i], key);
    join(if found { mapped } else { mapped.push(key + "="@ + value) }, "\n"@) + "\n"@
}

/// Upsert `KEY=value` in an `environment`-file body.
pub fn upsert_env(body: &str, key: &str, value: &str) -> (out: String)
    ensures
        out@ == upsert_env_spec(body@, key@, value@),
{
    let v = chars_of(body);
    let ls = lines_of(&v);
    let mut prefix = chars_of(key);
    prefix.push('=');
    let mut kv = chars_of(key);
    kv.push('=');
    let vv = chars_of(value);
    let mut j: usize = 0;
    proof {
        reveal_strlit("=");
    }
    assert(kv@ =~= key@ + "="@ + value@.take(0));
    while j < vv.len()
        invariant
            j <= vv.len(),
            vv@ == value@,
            kv@ == key@ + "="@ + value@.take(j as int),
        decreases vv.len() - j,
    {
        proof {
            reveal_strlit("=");
        }
        kv.push(vv[j]);
        assert(value@.take(j + 1) =~= value@.take(j as int).push(value@[j as int]));
        j += 1;
    }
    proof {
        reveal_strlit("=");
    }
    assert(value@.take(vv.len() as int) =~= value@);
    assert(prefix@ =~= key@ + "="@);
    let ghost want = |l: Seq<char>| upsert_line(l, key@, value@);
    let mut found = false;
    let mut out_lines: Vec<Vec<char>> = Vec::new();
    let mut i: usize = 0;
    while i < ls.len()
        invariant
            i <= ls.len(),
            views(ls@) == lines(body@),
            prefix@ == key@ + "="@,
            kv@ == key@ + "="@ + value@,
            views(out_lines@) == views(ls@).take(i as int).map_values(|l: Seq<char>| upsert_line(l, key@, value@)),
            found == exists|k: int| 0 <= k < i && sets_key(#[trigger] views(ls@)[k], key@),
        decreases ls.len() - i,
    {
        let t = trim_start_chars(&ls[i]);
        let ghost before = views(out_lines@);
        assert(views(ls@)[i as int] == ls@[i as int]@);
        if crate::text::starts_with_chars(&t, &prefix) {
            found = true;
            out_lines.push(slice_chars(&kv, 0, kv.len()));
            assert(kv@.subrange(0, kv@.len() as int) =~= kv@);
            assert(sets_key(ls@[i as int]@, key@));
            assert(views(out_lines@) =~= before.push(upsert_line(ls@[i as int]@, key@, value@)));
        } else {
            out_lines.push(slice_chars(&ls[i], 0, ls[i].len()));
            assert(ls@[i as int]@.subrange(0, ls@[i as int]@.len() as int) =~= ls@[i as int]@);
            assert(!sets_key(ls@[i as int]@, key@));
            assert(views(out_lines@) =~= before.push(upsert_line(ls@[i as int]@, key@, value@)));
        }
        assert(views(ls@).take(i + 1).map_values(|l: Seq<char>| upsert_line(l, key@, value@))
            =~= views(ls@).take(i as int).map_values(|l: Seq<char>| upsert_line(l, key@, value@))
                .push(upsert_line(ls@[i as int]@, key@, value@)));
        assert(views(out_lines@) =~= views(ls@).take(i + 1).map_values(|l: Seq<char>| upsert_line(l, key@, value@)));
        i += 1;
    }
    assert(views(ls@).take(ls.len() as int) =~= views(ls@));
    if !found {
        let ghost before = views(out_lines@);
        out_lines.push(kv);
        assert(views(out_lines@) =~= before.push(key@ + "="@ + value@));
    }
    let ghost lns = lines(body@);
    let ghost mapped = lns.map_values(|l: Seq<char>| upsert_line(l, key@, value@));
    let ghost fnd = exists|k: int| 0 <= k < lns.len() && sets_key(#[trigger] lns[k], key@);
    assert(fnd == found);
    assert(views(out_lines@) == if fnd { mapped } else { mapped.push(key@ + "="@ + value@) });
    let mut r = join_chars(&out_lines, "\n");
    r.push('\n');
    proof {
        reveal_strlit("\n");
    }
    assert(r@ =~= upsert_env_spec(body@, key@, value@));
    string_of(&r)
}

// --- rewriting twice ------------------------------------------------------------------

/// The rate line of the repeat block.
pub open spec fn rate_line(rate: nat) -> Seq<char> {
    "    <repeatRate>"@ + dec(rate) + "</repeatRate>"@
}

/// The delay line of the repeat block.
pub open spec fn delay_line(delay: nat) -> Seq<char> {
    "    <repeatDelay>"@ + dec(delay) + "</repeatDelay>"@
}

pub(crate) proof fn lemma_dec_plain(n: nat)
    ensures
        forall|k: int| 0 <= k < dec(n).len() ==> '0' <= #[trigger] dec(n)[k] <= '9',
    decreases n,
{
    if n < 10 {
        assert((n + 48) as u8 as int == n + 48);
    } else {
        lemma_dec_plain(n / 10);
        let d = n % 10;
        assert((d + 48) as u8 as int == d + 48);
        assert forall|k: int| 0 <= k < dec(n).len() implies '0' <= #[trigger] dec(n)[k] <= '9' by {
            if k < dec(n / 10).len() {
                assert(dec(n)[k] == dec(n / 10)[k]);
            }
        }
    }
}

proof fn lemma_indented_repeat_line(pre: Seq<char>, mid: Seq<char>, post: Seq<char>, tag: Seq<char>)
    requires
        pre.len() >= 5,
        forall|k: int| 0 <= k < 4 ==> pre[k] == ' ',
        pre.subrange(4, pre.len() as int) == tag,
        forall|k: int| 0 <= k < mid.len() ==> '0' <= #[trigger] mid[k] <= '9',
        crate::lines::free_of(post, '\n') && crate::lines::free_of(post, '\r'),
        crate::lines::free_of(pre, '\n') && crate::lines::free_of(pre, '\r'),
        tag[0] == '<',
    ensures
        starts_with(trim_start(pre + mid + post), tag),
        crate::lines::free_of(pre + mid + post, '\n'),
        crate::lines::free_of(pre + mid + post, '\r'),
{
    let l = pre + mid + post;
    crate::text::lemma_trim_start_skip(l, 4);
    let rest = l.subrange(4, l.len() as int);
    assert(rest[0] == '<');
    assert(trim_start(rest) == rest);
    assert(rest.subrange(0, tag.len() as int) =~= tag);
    assert forall|k: int| 0 <= k < l.len() implies l[k] != '\n' && l[k] != '\r' by {
        if k < pre.len() {
            assert(l[k] == pre[k]);
        } else if k < pre.len() + mid.len() {
            assert(l[k] == mid[k - pre.len()]);
        } else {
            assert(l[k] == post[k - pre.len() - mid.len()]);
        }
    }
}

/// The repeat lines are plain lines that the rewrite drops.
proof fn lemma_repeat_lines(rate: nat, delay: nat)
    ensures
        is_repeat_line(rate_line(rate)),
        is_repeat_line(delay_line(delay)),
        crate::lines::free_of(rate_line(rate), '\n') && crate::lines::free_of(rate_line(rate), '\r'),
        crate::lines::free_of(delay_line(delay), '\n') && crate::lines::free_of(delay_line(delay), '\r'),
        repeat_block(rate, delay) == seq!['\n'] + rate_line(rate) + seq!['\n'] + delay_line(delay),
{
    reveal_strlit("    <repeatRate>");
    reveal_strlit("</repeatRate>");
    reveal_strlit("    <repeatDelay>");
    reveal_strlit("</repeatDelay>");
    reveal_strlit("<repeatRate>");
    reveal_strlit("<repeatDelay>");
    reveal_strlit("\n    <repeatRate>");
    reveal_strlit("</repeatRate>\n    <repeatDelay>");
    lemma_dec_plain(rate);
    lemma_dec_plain(delay);
    assert("    <repeatRate>"@.subrange(4, 16) =~= "<repeatRate>"@);
    assert("    <repeatDelay>"@.subrange(4, 17) =~= "<repeatDelay>"@);
    lemma_indented_repeat_line("    <repeatRate>"@, dec(rate), "</repeatRate>"@, "<repeatRate>"@);
    lemma_indented_repeat_line("    <repeatDelay>"@, dec(delay), "</repeatDelay>"@, "<repeatDelay>"@);
    assert("\n    <repeatRate>"@ =~= seq!['\n'] + "    <repeatRate>"@);
    assert("</repeatRate>\n    <repeatDelay>"@ =~= "</repeatRate>"@ + seq!['\n'] + "    <repeatDelay>"@);
    assert(repeat_block(rate, delay) =~= seq!['\n'] + rate_line(rate) + seq!['\n'] + delay_line(delay));
}

/// The lines a rewrite keeps.
pub open spec fn kept_lines(x: Seq<char>) -> Seq<Seq<char>> {
    lines(x).filter(|l: Seq<char>| !is_repeat_line(l))
}

proof fn lemma_filter_all(s: Seq<Seq<char>>)
    requires
        forall|i: int| 0 <= i < s.len() ==> !is_repeat_line(#[trigger] s[i]),
    ensures
        s.filter(|l: Seq<char>| !is_repeat_line(l)) == s,
    decreases s.len(),
{
    reveal(Seq::filter);
    if s.len() > 0 {
        lemma_filter_all(s.drop_last());
        assert(s.drop_last().push(s.last()) =~= s);
    }
}

proof fn lemma_kept_lines(x: Seq<char>)
    requires
        crate::lines::free_of(x, '\r'),
    ensures
        crate::lines::plain_lines(kept_lines(x)),
        forall|i: int| 0 <= i < kept_lines(x).len() ==> !is_repeat_line(#[trigger] kept_lines(x)[i]),
{
    let ls = lines(x);
    let k = ls.filter(|l: Seq<char>| !is_repeat_line(l));
    crate::lines::lemma_lines_plain(x);
    broadcast use vstd::seq_lib::group_filter_ensures;
    assert forall|i: int| 0 <= i < k.len() implies crate::lines::free_of(#[trigger] k[i], '\n')
        && crate::lines::free_of(k[i], '\r') by {
        ls.lemma_filter_contains_rev(|l: Seq<char>| !is_repeat_line(l), k[i]);
        assert(k.contains(k[i]));
        let j = choose|j: int| 0 <= j < ls.len() && ls[j] == k[i];
        assert(crate::lines::free_of(ls[j], '\n'));
    }
}

proof fn lemma_blank_not_repeat()
    ensures
        !is_repeat_line(seq![]),
{
    reveal_strlit("<repeatRate>");
    reveal_strlit("<repeatDelay>");
}

/// Dropping the repeat lines of a text twice is dropping them once (for
/// text without `\r`).
#[verifier::spinoff_prover]
#[verifier::rlimit(40)]
pub proof fn lemma_strip_idempotent(x: Seq<char>)
    requires
        crate::lines::free_of(x, '\r'),
    ensures
        strip_repeat(strip_repeat(x)) == strip_repeat(x),
{
    reveal_strlit("\n");
    let nl = seq!['\n'];
    assert("\n"@ =~= nl);
    let ls = lines(x);
    let k = kept_lines(x);
    lemma_kept_lines(x);
    lemma_filter_all(k);
    let s1 = strip_repeat(x);
    lemma_blank_not_repeat();
    crate::lines::lemma_join_ends_nl(k);
    if ends_with(x, nl) {
        assert(s1 == join(k, nl) + nl);
        assert(ends_with(s1, nl)) by {
            assert(s1.subrange(s1.len() - 1, s1.len() as int) =~= nl);
        }
        if k.len() == 0 {
            assert(s1 =~= nl);
            assert(lines(s1) == seq![Seq::<char>::empty()]) by {
                crate::lines::lemma_lines_single_nl(Seq::<char>::empty());
                assert(Seq::<char>::empty() + nl =~= nl);
                assert(crate::text::strip_cr(Seq::<char>::empty()) =~= Seq::<char>::empty());
            }
            assert(lines(s1) == seq![Seq::<char>::empty()]);
            lemma_filter_all(seq![Seq::<char>::empty()]);
        } else {
            crate::lines::lemma_lines_join_nl(k);
        }
    } else {
        assert(s1 =~= join(k, nl));
        if k.len() == 0 {
            assert(s1 =~= Seq::<char>::empty());
        } else if k.last().len() > 0 {
            crate::lines::lemma_lines_join(k);
        } else if k.len() == 1 {
            assert(s1 =~= Seq::<char>::empty());
        } else {
            let k2 = k.drop_last();
            assert(crate::lines::plain_lines(k2)) by {
                assert forall|i: int| 0 <= i < k2.len() implies crate::lines::free_of(#[trigger] k2[i], '\n')
                    && crate::lines::free_of(k2[i], '\r') by {
                    assert(k2[i] == k[i]);
                }
            }
            assert forall|i: int| 0 <= i < k2.len() implies !is_repeat_line(#[trigger] k2[i]) by {
                assert(k2[i] == k[i]);
            }
            lemma_filter_all(k2);
            assert(s1 =~= join(k2, nl) + nl + k.last());
            assert(s1 =~= join(k2, nl) + nl);
            crate::lines::lemma_lines_join_nl(k2);
        }
    }
}

proof fn lemma_ends_nl(x: Seq<char>)
    ensures
        ends_with(x, seq!['\n']) == (x.len() >= 1 && x[x.len() - 1] == '\n'),
{
    if x.len() >= 1 {
        if x[x.len() - 1] == '\n' {
            assert(x.subrange(x.len() - 1, x.len() as int) =~= seq!['\n']);
        } else if ends_with(x, seq!['\n']) {
            assert(x.subrange(x.len() - 1, x.len() as int)[0] == x[x.len() - 1]);
        }
    }
}

proof fn lemma_drop_repeat(l: Seq<char>)
    requires
        is_repeat_line(l),
    ensures
        seq![l].filter(|m: Seq<char>| !is_repeat_line(m)) == Seq::<Seq<char>>::empty(),
{
    reveal_with_fuel(Seq::filter, 2);
    assert(seq![l].drop_last() =~= Seq::<Seq<char>>::empty());
    assert(Seq::<Seq<char>>::empty().filter(|m: Seq<char>| !is_repeat_line(m)) =~= Seq::<Seq<char>>::empty());
}

proof fn lemma_ends_alike(x: Seq<char>, y: Seq<char>)
    requires
        x.len() > 0,
        y.len() > 0,
        x[x.len() - 1] == y[y.len() - 1],
    ensures
        ends_with(x, seq!['\n']) == ends_with(y, seq!['\n']),
{
    lemma_ends_nl(x);
    lemma_ends_nl(y);
}

proof fn lemma_lines_at_end(p: Seq<char>, rr: Seq<char>, dd: Seq<char>)
    requires
        p.len() > 0,
        p.last() == '>',
        crate::lines::free_of(rr, '\n') && crate::lines::free_of(rr, '\r'),
        crate::lines::free_of(dd, '\n'),
        dd.len() > 0,
    ensures
        lines(p + (seq!['\n'] + rr + seq!['\n'] + dd)) == lines(p) + (seq![rr] + seq![dd]),
{
    let nl = seq!['\n'];
    crate::lines::lemma_lines_final_nl(p);
    assert(p + (nl + rr + nl + dd) =~= p + nl + (rr + nl + dd));
    crate::lines::lemma_lines_seam(p, rr + nl + dd);
    crate::lines::lemma_lines_seam(rr, dd);
    crate::lines::lemma_lines_single_nl(rr);
    if rr.len() > 0 {
        assert(rr[rr.len() - 1] != '\r');
    }
    assert(crate::text::strip_cr(rr) =~= rr);
    crate::lines::lemma_lines_single(dd);
}

proof fn lemma_strip_insert_at_end(p: Seq<char>, rate: nat, delay: nat)
    requires
        p.len() > 0,
        p.last() == '>',
    ensures
        strip_repeat(p + repeat_block(rate, delay)) == strip_repeat(p),
{
    reveal_strlit("\n");
    let nl = seq!['\n'];
    assert("\n"@ =~= nl);
    lemma_repeat_lines(rate, delay);
    let rr = rate_line(rate);
    let dd = delay_line(delay);
    let out = p + repeat_block(rate, delay);
    lemma_drop_repeat(rr);
    lemma_drop_repeat(dd);
    assert(dd.len() > 0);
    lemma_lines_at_end(p, rr, dd);
    let a = lines(p);
    assert(lines(out) == a + (seq![rr] + seq![dd]));
    Seq::filter_distributes_over_add(a, seq![rr] + seq![dd], |m: Seq<char>| !is_repeat_line(m));
    Seq::filter_distributes_over_add(seq![rr], seq![dd], |m: Seq<char>| !is_repeat_line(m));
    assert(lines(out).filter(|m: Seq<char>| !is_repeat_line(m)) =~= a.filter(|m: Seq<char>| !is_repeat_line(m)));
    assert(out[out.len() - 1] == dd[dd.len() - 1]);
    assert(dd[dd.len() - 1] == '>') by {
        reveal_strlit("</repeatDelay>");
        assert(dd[dd.len() - 1] == "</repeatDelay>"@[13]);
    }
    lemma_ends_alike(out, p);
}

/// The lines of `p + repeat_block + "\n" + q2`: those of `p + "\n"`, the two
/// repeat lines, then those of `q2`.
proof fn lemma_insert_before_nl_lines(p: Seq<char>, q2: Seq<char>, rate: nat, delay: nat)
    requires
        p.len() > 0,
    ensures
        lines(p + repeat_block(rate, delay) + (seq!['\n'] + q2))
            == lines(p + seq!['\n']) + (seq![rate_line(rate)] + (seq![delay_line(delay)] + lines(q2))),
        lines(p + (seq!['\n'] + q2)) == lines(p + seq!['\n']) + lines(q2),
{
    let nl = seq!['\n'];
    lemma_repeat_lines(rate, delay);
    let rr = rate_line(rate);
    let dd = delay_line(delay);
    crate::lines::lemma_lines_single_nl(rr);
    crate::lines::lemma_lines_single_nl(dd);
    assert(crate::text::strip_cr(rr) == rr) by {
        assert(rr[rr.len() - 1] != '\r');
    }
    assert(crate::text::strip_cr(dd) == dd) by {
        assert(dd[dd.len() - 1] != '\r');
    }
    assert(p + (nl + q2) =~= p + nl + q2);
    assert(p + repeat_block(rate, delay) + (nl + q2) =~= p + nl + (rr + nl + (dd + nl + q2)));
    crate::lines::lemma_lines_seam(p, rr + nl + (dd + nl + q2));
    crate::lines::lemma_lines_seam(rr, dd + nl + q2);
    crate::lines::lemma_lines_seam(dd, q2);
    crate::lines::lemma_lines_seam(p, q2);
}

/// Dropping the repeat lines from `a`, two repeat lines, `b` leaves what
/// dropping them from `a + b` leaves.
proof fn lemma_drop_two_repeat(a: Seq<Seq<char>>, rr: Seq<char>, dd: Seq<char>, b: Seq<Seq<char>>)
    requires
        is_repeat_line(rr),
        is_repeat_line(dd),
    ensures
        (a + (seq![rr] + (seq![dd] + b))).filter(|m: Seq<char>| !is_repeat_line(m))
            == (a + b).filter(|m: Seq<char>| !is_repeat_line(m)),
{
    lemma_drop_repeat(rr);
    lemma_drop_repeat(dd);
    Seq::filter_distributes_over_add(a, seq![rr] + (seq![dd] + b), |m: Seq<char>| !is_repeat_line(m));
    Seq::filter_distributes_over_add(seq![rr], seq![dd] + b, |m: Seq<char>| !is_repeat_line(m));
    Seq::filter_distributes_over_add(seq![dd], b, |m: Seq<char>| !is_repeat_line(m));
    Seq::filter_distributes_over_add(a, b, |m: Seq<char>| !is_repeat_line(m));
    assert(seq![rr].filter(|m: Seq<char>| !is_repeat_line(m)) + (seq![dd].filter(|m: Seq<char>| !is_repeat_line(m))
        + b.filter(|m: Seq<char>| !is_repeat_line(m))) =~= b.filter(|m: Seq<char>| !is_repeat_line(m)));
}

proof fn lemma_strip_insert_before_nl(p: Seq<char>, q2: Seq<char>, rate: nat, delay: nat)
    requires
        p.len() > 0,
        p.last() == '>',
    ensures
        strip_repeat(p + repeat_block(rate, delay) + (seq!['\n'] + q2)) == strip_repeat(p + (seq!['\n'] + q2)),
{
    let nl = seq!['\n'];
    let s = p + (nl + q2);
    let out = p + repeat_block(rate, delay) + (nl + q2);
    lemma_repeat_lines(rate, delay);
    lemma_insert_before_nl_lines(p, q2, rate, delay);
    lemma_drop_two_repeat(lines(p + nl), rate_line(rate), delay_line(delay), lines(q2));
    assert(lines(out).filter(|m: Seq<char>| !is_repeat_line(m)) == lines(s).filter(|m: Seq<char>| !is_repeat_line(m)));
    assert(ends_with(out, "\n"@) == ends_with(s, "\n"@)) by {
        reveal_strlit("\n");
        assert("\n"@ =~= nl);
        lemma_ends_nl(out);
        lemma_ends_nl(s);
        assert(out[out.len() - 1] == (nl + q2)[(nl + q2).len() - 1]);
        assert(s[s.len() - 1] == (nl + q2)[(nl + q2).len() - 1]);
    }
}

/// Inserting the repeat block right after a tag's `>` that ends its line
/// and then dropping the repeat lines gives back what dropping them from
/// the text alone gives.
proof fn lemma_strip_after_insert(s: Seq<char>, at: int, rate: nat, delay: nat)
    requires
        0 < at <= s.len(),
        s[at - 1] == '>',
        at == s.len() || s[at] == '\n',
    ensures
        strip_repeat(s.take(at) + repeat_block(rate, delay) + s.skip(at)) == strip_repeat(s),
{
    let p = s.take(at);
    let q = s.skip(at);
    if q.len() == 0 {
        assert(s =~= p);
        assert(p + repeat_block(rate, delay) + q =~= p + repeat_block(rate, delay));
        lemma_strip_insert_at_end(p, rate, delay);
    } else {
        let q2 = q.drop_first();
        assert(q =~= seq!['\n'] + q2);
        assert(s =~= p + (seq!['\n'] + q2));
        lemma_strip_insert_before_nl(p, q2, rate, delay);
    }
}

// --- rewriting twice, when the tag shares its line -------------------------------------

/// No line of `y` is a key-repeat line.
pub open spec fn no_repeat_lines(y: Seq<char>) -> bool {
    forall|i: int| 0 <= i < lines(y).len() ==> !is_repeat_line(#[trigger] lines(y)[i])
}

/// A text without `\r` and without repeat lines is left as it is.
proof fn lemma_strip_fixpoint(y: Seq<char>)
    requires
        crate::lines::free_of(y, '\r'),
        no_repeat_lines(y),
    ensures
        strip_repeat(y) == y,
{
    reveal_strlit("\n");
    assert("\n"@ =~= seq!['\n']);
    lemma_filter_all(lines(y));
    crate::lines::lemma_join_lines(y);
}

/// Dropping the repeat lines leaves a text without them and without `\r`.
proof fn lemma_strip_clean(x: Seq<char>)
    requires
        crate::lines::free_of(x, '\r'),
    ensures
        no_repeat_lines(strip_repeat(x)),
        crate::lines::free_of(strip_repeat(x), '\r'),
{
    reveal_strlit("\n");
    let nl = seq!['\n'];
    assert("\n"@ =~= nl);
    let k = kept_lines(x);
    lemma_kept_lines(x);
    lemma_blank_not_repeat();
    let s1 = strip_repeat(x);
    crate::lines::lemma_join_free(k);
    let j = join(k, nl);
    assert(crate::lines::free_of(s1, '\r')) by {
        assert forall|i: int| 0 <= i < s1.len() implies s1[i] != '\r' by {
            if i < j.len() { assert(s1[i] == j[i]); }
        }
    }
    if ends_with(x, nl) {
        assert(s1 == j + nl);
        if k.len() == 0 {
            assert(s1 =~= nl);
            crate::lines::lemma_lines_single_nl(Seq::<char>::empty());
            assert(Seq::<char>::empty() + nl =~= nl);
            assert(crate::text::strip_cr(Seq::<char>::empty()) =~= Seq::<char>::empty());
            assert(lines(s1) == seq![Seq::<char>::empty()]);
        } else {
            crate::lines::lemma_lines_join_nl(k);
        }
    } else {
        assert(s1 =~= j);
        if k.len() == 0 {
            assert(s1 =~= Seq::<char>::empty());
            assert(lines(s1) == Seq::<Seq<char>>::empty());
        } else if k.last().len() > 0 {
            crate::lines::lemma_lines_join(k);
        } else if k.len() == 1 {
            assert(s1 =~= Seq::<char>::empty());
            assert(lines(s1) == Seq::<Seq<char>>::empty());
        } else {
            let k2 = k.drop_last();
            assert(crate::lines::plain_lines(k2)) by {
                assert forall|i: int| 0 <= i < k2.len() implies crate::lines::free_of(#[trigger] k2[i], '\n')
                    && crate::lines::free_of(k2[i], '\r') by {
                    assert(k2[i] == k[i]);
                }
            }
            assert(s1 =~= join(k2, nl) + nl + k.last());
            assert(s1 =~= join(k2, nl) + nl);
            crate::lines::lemma_lines_join_nl(k2);
            assert forall|i: int| 0 <= i < lines(s1).len() implies !is_repeat_line(#[trigger] lines(s1)[i]) by {
                assert(lines(s1)[i] == k[i]);
            }
        }
    }
}

proof fn lemma_trim_start_append(a: Seq<char>, b: Seq<char>)
    requires
        trim_start(a).len() > 0,
    ensures
        trim_start(a + b) == trim_start(a) + b,
    decreases a.len(),
{
    if a.len() > 0 && crate::text::is_ws(a[0]) {
        assert((a + b).drop_first() =~= a.drop_first() + b);
        lemma_trim_start_append(a.drop_first(), b);
    } else {
        assert(a.len() > 0);
        assert((a + b)[0] == a[0]);
    }
}

/// A line whose beginning opens a repeat element opens one too.
proof fn lemma_repeat_prefix(a: Seq<char>, b: Seq<char>)
    requires
        is_repeat_line(a),
    ensures
        is_repeat_line(a + b),
{
    lemma_blank_not_repeat();
    reveal_strlit("<repeatRate>");
    reveal_strlit("<repeatDelay>");
    lemma_trim_start_append(a, b);
    let t = trim_start(a);
    assert((t + b).subrange(0, 12) =~= t.subrange(0, 12) || t.len() < 12);
    if starts_with(t, "<repeatRate>"@) {
        assert((t + b).subrange(0, 12) =~= t.subrange(0, 12));
    } else {
        assert((t + b).subrange(0, 13) =~= t.subrange(0, 13));
    }
}

/// Breaking a line of a text without repeat lines after `p` keeps it
/// without repeat lines, when what follows on that line is not one.
#[verifier::spinoff_prover]
#[verifier::rlimit(60)]
proof fn lemma_split_clean(p: Seq<char>, q: Seq<char>)
    requires
        crate::lines::free_of(p + q, '\r'),
        no_repeat_lines(p + q),
        p.len() > 0,
        p.last() != '\n',
        q.len() > 0,
        q[0] != '\n',
        !is_repeat_line(lines(q)[0]),
    ensures
        no_repeat_lines(p + seq!['\n'] + q),
    decreases p.len(),
{
    let nl = seq!['\n'];
    let s = p + q;
    let t = p + nl + q;
    let i = crate::lines::first_nl(p, 0);
    if i < p.len() {
        let a = p.take(i);
        let p2 = p.skip(i + 1);
        assert(i < p.len() - 1);
        assert(s =~= a + nl + (p2 + q));
        assert(t =~= a + nl + (p2 + nl + q));
        crate::lines::lemma_lines_seam(a, p2 + q);
        crate::lines::lemma_lines_seam(a, p2 + nl + q);
        let la = lines(a + nl);
        assert forall|k: int| 0 <= k < lines(p2 + q).len() implies !is_repeat_line(#[trigger] lines(p2 + q)[k]) by {
            assert(lines(s)[la.len() + k] == lines(p2 + q)[k]);
        }
        assert(crate::lines::free_of(p2 + q, '\r')) by {
            assert forall|k: int| 0 <= k < (p2 + q).len() implies (p2 + q)[k] != '\r' by {
                assert((p2 + q)[k] == s[i + 1 + k]);
            }
        }
        assert(p2.last() == p.last());
        lemma_split_clean(p2, q);
        assert(p2 + nl + q =~= p2 + seq!['\n'] + q);
        assert forall|k: int| 0 <= k < lines(t).len() implies !is_repeat_line(#[trigger] lines(t)[k]) by {
            if k < la.len() {
                assert(lines(t)[k] == la[k]);
                assert(lines(s)[k] == la[k]);
            } else {
                assert(lines(t)[k] == lines(p2 + nl + q)[k - la.len()]);
            }
        }
    } else {
        assert(crate::lines::free_of(p, '\n'));
        assert(crate::text::strip_cr(p) == p) by {
            assert(p.last() == s[p.len() - 1]);
        }
        let j = crate::lines::first_nl(q, 0);
        crate::lines::lemma_lines_single_nl(p);
        if j == q.len() {
            assert(crate::lines::free_of(q, '\n'));
            assert(crate::lines::free_of(s, '\n')) by {
                assert forall|k: int| 0 <= k < s.len() implies s[k] != '\n' by {
                    if k < p.len() { assert(s[k] == p[k]); } else { assert(s[k] == q[k - p.len()]); }
                }
            }
            crate::lines::lemma_lines_single(s);
            crate::lines::lemma_lines_single(q);
            crate::lines::lemma_lines_seam(p, q);
            assert(lines(t) =~= seq![p, q]);
            if is_repeat_line(p) {
                lemma_repeat_prefix(p, q);
                assert(lines(s)[0] == s);
            }
            assert forall|k: int| 0 <= k < lines(t).len() implies !is_repeat_line(#[trigger] lines(t)[k]) by {
                if k == 0 { assert(lines(t)[0] == p); } else { assert(lines(t)[1] == q); }
            }
        } else {
            let ql = q.take(j);
            let rest = q.skip(j + 1);
            assert(j > 0);
            assert(q =~= ql + nl + rest);
            assert(crate::lines::free_of(ql, '\n'));
            assert(crate::lines::free_of(p + ql, '\n')) by {
                assert forall|k: int| 0 <= k < (p + ql).len() implies (p + ql)[k] != '\n' by {
                    if k < p.len() { assert((p + ql)[k] == p[k]); } else { assert((p + ql)[k] == ql[k - p.len()]); }
                }
            }
            assert(crate::text::strip_cr(ql) == ql) by {
                assert(ql.last() == s[p.len() + j - 1]);
            }
            assert(crate::text::strip_cr(p + ql) == p + ql) by {
                assert((p + ql).last() == s[p.len() + j - 1]);
            }
            assert(s =~= (p + ql) + nl + rest);
            assert(t =~= p + nl + (ql + nl + rest));
            crate::lines::lemma_lines_seam(p + ql, rest);
            crate::lines::lemma_lines_single_nl(p + ql);
            crate::lines::lemma_lines_seam(p, ql + nl + rest);
            crate::lines::lemma_lines_seam(ql, rest);
            crate::lines::lemma_lines_single_nl(ql);
            assert(lines(q) == seq![ql] + lines(rest));
            assert(lines(q)[0] == ql);
            assert(lines(s) == seq![p + ql] + lines(rest));
            assert(lines(t) == seq![p] + (seq![ql] + lines(rest)));
            if is_repeat_line(p) {
                lemma_repeat_prefix(p, ql);
                assert(lines(s)[0] == p + ql);
            }
            assert forall|k: int| 0 <= k < lines(t).len() implies !is_repeat_line(#[trigger] lines(t)[k]) by {
                if k == 0 {
                    assert(lines(t)[0] == p);
                } else if k == 1 {
                    assert(lines(t)[1] == ql);
                } else {
                    assert(lines(t)[k] == lines(rest)[k - 2]);
                    assert(lines(s)[k - 1] == lines(rest)[k - 2]);
                }
            }
        }
    }
}


/// The insertion point depends only on the text before it.
proof fn lemma_insert_at_prefix(s: Seq<char>, t: Seq<char>, at: int)
    requires
        keyboard_insert_at(s) == Some(at),
        at <= t.len(),
        t.take(at) == s.take(at),
    ensures
        keyboard_insert_at(t) == Some(at),
{
    lemma_insert_facts(s, at);
    reveal_strlit("<keyboard");
    reveal_strlit(">");
    let kb = "<keyboard"@;
    let gt = ">"@;
    let k = find(s, kb)->0;
    let g = find(s.skip(k), gt)->0;
    assert(crate::text::is_first(s, kb, k));
    assert(crate::text::is_first(s.skip(k), gt, g));
    assert(at == k + g + 1);
    assert(s.skip(k).subrange(g, g + 1)[0] == s[k + g]);
    assert(g >= 9) by {
        if g < 9 {
            assert(s.subrange(k, k + 9)[g] == s[k + g]);
            assert(kb =~= seq!['<', 'k', 'e', 'y', 'b', 'o', 'a', 'r', 'd']);
            assert(kb[g] != '>');
        }
    }
    assert forall|i: int| 0 <= i < at implies t[i] == s[i] by {
        assert(t.take(at)[i] == t[i]);
        assert(s.take(at)[i] == s[i]);
        assert(t.take(at)[i] == s.take(at)[i]);
    }
    assert(t.subrange(k, k + 9) =~= s.subrange(k, k + 9));
    assert forall|j: int| 0 <= j < k implies !crate::text::occurs_at(t, kb, j) by {
        assert(!crate::text::occurs_at(s, kb, j));
        assert(t.subrange(j, j + 9) =~= s.subrange(j, j + 9));
    }
    assert(crate::text::is_first(t, kb, k));
    crate::text::lemma_find_is(t, kb, k);
    assert(t.skip(k).subrange(g, g + 1) =~= s.skip(k).subrange(g, g + 1));
    assert forall|j: int| 0 <= j < g implies !crate::text::occurs_at(t.skip(k), gt, j) by {
        assert(!crate::text::occurs_at(s.skip(k), gt, j));
        assert(t.skip(k).subrange(j, j + 1) =~= s.skip(k).subrange(j, j + 1));
    }
    assert(crate::text::is_first(t.skip(k), gt, g));
    crate::text::lemma_find_is(t.skip(k), gt, g);
}

/// What follows the `<keyboard ...>` opening tag on its line, when the tag
/// does not end its line, is not itself a key-repeat line.
pub open spec fn tail_not_repeat(s: Seq<char>) -> bool {
    keyboard_insert_at(s) matches Some(at) ==> (at < s.len() && s[at] != '\n'
        ==> !is_repeat_line(lines(s.skip(at))[0]))
}

/// Rewriting the repeat settings again replaces them: rewriting a rewritten
/// text with any rate and delay gives what rewriting the original would, so
/// the same settings twice change nothing. Holds for text without `\r`
/// where the text after the `<keyboard ...>` tag on its line, if any, does
/// not open a repeat element.
pub proof fn law_rewrite_keyboard_replaces(xml: Seq<char>, r1: nat, d1: nat, r2: nat, d2: nat)
    requires
        crate::lines::free_of(xml, '\r'),
        tail_not_repeat(strip_repeat(xml)),
    ensures
        rewrite_keyboard_spec(rewrite_keyboard_spec(xml, r1, d1), r2, d2) == rewrite_keyboard_spec(xml, r2, d2),
{
    let s = strip_repeat(xml);
    lemma_strip_idempotent(xml);
    match keyboard_insert_at(s) {
        Some(at) => {
            lemma_insert_facts(s, at);
            if at == s.len() || s[at] == '\n' {
                lemma_insert_ends_line(s, at, r1, d1);
            } else {
                lemma_insert_splits_line(xml, at, r1, d1, r2, d2);
            }
        }
        None => {}
    }
}

proof fn lemma_insert_facts(s: Seq<char>, at: int)
    requires
        keyboard_insert_at(s) == Some(at),
    ensures
        0 < at <= s.len(),
        s[at - 1] == '>',
{
    reveal_strlit("<keyboard");
    reveal_strlit(">");
    let k = find(s, "<keyboard"@)->0;
    let g = find(s.skip(k), ">"@)->0;
    assert(crate::text::is_first(s, "<keyboard"@, k));
    assert(crate::text::is_first(s.skip(k), ">"@, g));
    assert(s.skip(k).subrange(g, g + 1)[0] == s[k + g]);
}

proof fn lemma_insert_ends_line(s: Seq<char>, at: int, r1: nat, d1: nat)
    requires
        keyboard_insert_at(s) == Some(at),
        at == s.len() || s[at] == '\n',
    ensures
        strip_repeat(s.take(at) + repeat_block(r1, d1) + break_after(s, at) + s.skip(at)) == strip_repeat(s),
{
    lemma_insert_facts(s, at);
    assert(break_after(s, at) =~= Seq::<char>::empty());
    assert(s.take(at) + repeat_block(r1, d1) + break_after(s, at) + s.skip(at)
        =~= s.take(at) + repeat_block(r1, d1) + s.skip(at));
    lemma_strip_after_insert(s, at, r1, d1);
}

#[verifier::spinoff_prover]
#[verifier::rlimit(40)]
proof fn lemma_insert_splits_line(xml: Seq<char>, at: int, r1: nat, d1: nat, r2: nat, d2: nat)
    requires
        crate::lines::free_of(xml, '\r'),
        keyboard_insert_at(strip_repeat(xml)) == Some(at),
        at < strip_repeat(xml).len(),
        strip_repeat(xml)[at] != '\n',
        !is_repeat_line(lines(strip_repeat(xml).skip(at))[0]),
        strip_repeat(strip_repeat(xml)) == strip_repeat(xml),
    ensures
        rewrite_keyboard_spec(rewrite_keyboard_spec(xml, r1, d1), r2, d2) == rewrite_keyboard_spec(xml, r2, d2),
{
    let s = strip_repeat(xml);
    let nl = seq!['\n'];
    lemma_insert_facts(s, at);
    let p = s.take(at);
    let q = s.skip(at);
    assert(s =~= p + q);
    assert(break_after(s, at) =~= nl);
    let once = rewrite_keyboard_spec(xml, r1, d1);
    assert(once =~= p + repeat_block(r1, d1) + (nl + q));
    lemma_strip_insert_before_nl(p, q, r1, d1);
    let t = p + nl + q;
    assert(p + (nl + q) =~= t);
    assert(strip_repeat(once) == strip_repeat(t));
    lemma_strip_clean(xml);
    assert(p.last() == s[at - 1]);
    assert(q[0] == s[at]);
    lemma_split_clean(p, q);
    assert(crate::lines::free_of(t, '\r')) by {
        assert forall|i: int| 0 <= i < t.len() implies t[i] != '\r' by {
            if i < at {
                assert(t[i] == s[i]);
            } else if i > at {
                assert(t[i] == s[i - 1]);
            }
        }
    }
    lemma_strip_fixpoint(t);
    assert(t.take(at) =~= s.take(at));
    lemma_insert_at_prefix(s, t, at);
    assert(t[at] == '\n');
    assert(break_after(t, at) =~= Seq::<char>::empty());
    assert(t.take(at) =~= p);
    assert(t.skip(at) =~= nl + q);
    assert(rewrite_keyboard_spec(once, r2, d2) =~= p + repeat_block(r2, d2) + (nl + q));
    assert(rewrite_keyboard_spec(xml, r2, d2) =~= p + repeat_block(r2, d2) + (nl + q));
}


/// Rewriting the repeat settings is idempotent: rewriting the rewritten
/// text with the same rate and delay changes nothing. Holds for text
/// without `\r` where the text after the `<keyboard ...>` tag on its line,
/// if any, does not open a repeat element.
pub proof fn law_rewrite_keyboard_idempotent(xml: Seq<char>, rate: nat, delay: nat)
    requires
        crate::lines::free_of(xml, '\r'),
        tail_not_repeat(strip_repeat(xml)),
    ensures
        rewrite_keyboard_spec(rewrite_keyboard_spec(xml, rate, delay), rate, delay)
            == rewrite_keyboard_spec(xml, rate, delay),
{
    law_rewrite_keyboard_replaces(xml, rate, delay, rate, delay);
}


/// No repeat line is kept when none is there.
proof fn lemma_no_repeat_filter(s: Seq<Seq<char>>)
    requires
        forall|i: int| 0 <= i < s.len() ==> !is_repeat_line(#[trigger] s[i]),
    ensures
        s.filter(|l: Seq<char>| is_repeat_line(l)) == Seq::<Seq<char>>::empty(),
    decreases s.len(),
{
    reveal(Seq::filter);
    if s.len() > 0 {
        lemma_no_repeat_filter(s.drop_last());
    }
}

/// The repeat lines of `p`, the repeat block, a line break and `q2`, where
/// `p`, a line break and `q2` hold none, are the block's two.
#[verifier::spinoff_prover]
#[verifier::rlimit(40)]
proof fn lemma_block_repeat_lines(p: Seq<char>, q2: Seq<char>, rate: nat, delay: nat)
    requires
        p.len() > 0,
        no_repeat_lines(p + (seq!['\n'] + q2)),
    ensures
        lines(p + repeat_block(rate, delay) + (seq!['\n'] + q2)).filter(|l: Seq<char>| is_repeat_line(l))
            == seq![rate_line(rate), delay_line(delay)],
{
    let nl = seq!['\n'];
    lemma_repeat_lines(rate, delay);
    lemma_insert_before_nl_lines(p, q2, rate, delay);
    let a = lines(p + nl);
    let b = lines(q2);
    let rr = rate_line(rate);
    let dd = delay_line(delay);
    assert forall|i: int| 0 <= i < a.len() implies !is_repeat_line(#[trigger] a[i]) by {
        assert((a + b)[i] == a[i]);
    }
    assert forall|i: int| 0 <= i < b.len() implies !is_repeat_line(#[trigger] b[i]) by {
        assert((a + b)[a.len() + i] == b[i]);
    }
    lemma_no_repeat_filter(a);
    lemma_no_repeat_filter(b);
    Seq::filter_distributes_over_add(a, seq![rr] + (seq![dd] + b), |l: Seq<char>| is_repeat_line(l));
    Seq::filter_distributes_over_add(seq![rr] + seq![dd], b, |l: Seq<char>| is_repeat_line(l));
    assert(seq![rr] + (seq![dd] + b) =~= (seq![rr] + seq![dd]) + b);
    lemma_two_repeat(rr, dd);
    assert(Seq::<Seq<char>>::empty() + (seq![rr, dd] + Seq::<Seq<char>>::empty()) =~= seq![rr, dd]);
}

proof fn lemma_two_repeat(rr: Seq<char>, dd: Seq<char>)
    requires
        is_repeat_line(rr),
        is_repeat_line(dd),
    ensures
        (seq![rr] + seq![dd]).filter(|l: Seq<char>| is_repeat_line(l)) == seq![rr, dd],
{
    reveal_with_fuel(Seq::filter, 3);
    assert((seq![rr] + seq![dd]) =~= seq![rr, dd]);
    assert(seq![rr, dd].drop_last() =~= seq![rr]);
    assert(seq![rr].drop_last() =~= Seq::<Seq<char>>::empty());
}

/// The repeat lines of `p` followed by the repeat block, where `p` ends with
/// a tag's `>` and holds none, are the block's two.
#[verifier::spinoff_prover]
#[verifier::rlimit(40)]
proof fn lemma_end_repeat_lines(p: Seq<char>, rate: nat, delay: nat)
    requires
        p.len() > 0,
        p.last() == '>',
        no_repeat_lines(p),
    ensures
        lines(p + repeat_block(rate, delay)).filter(|l: Seq<char>| is_repeat_line(l))
            == seq![rate_line(rate), delay_line(delay)],
{
    let nl = seq!['\n'];
    let out = p + repeat_block(rate, delay);
    lemma_repeat_lines(rate, delay);
    assert(repeat_block(rate, delay) =~= nl + rate_line(rate) + nl + delay_line(delay));
    assert(delay_line(delay).len() > 0) by {
        reveal_strlit("    <repeatDelay>");
    }
    lemma_lines_at_end(p, rate_line(rate), delay_line(delay));
    assert(p + (nl + rate_line(rate) + nl + delay_line(delay)) =~= out);
    let a = lines(p);
    assert forall|i: int| 0 <= i < a.len() implies !is_repeat_line(#[trigger] a[i]) by {}
    lemma_no_repeat_filter(a);
    let rr = rate_line(rate);
    let dd = delay_line(delay);
    Seq::filter_distributes_over_add(a, seq![rr] + seq![dd], |l: Seq<char>| is_repeat_line(l));
    lemma_two_repeat(rr, dd);
    assert(Seq::<Seq<char>>::empty() + seq![rr, dd] =~= seq![rr, dd]);
}

/// A rewrite of a text with a `<keyboard ...>` tag holds exactly two repeat
/// lines, the new rate's and the new delay's, in that order. Holds for text
/// without `\r` where the text after the tag on its line, if any, does not
/// open a repeat element.
#[verifier::spinoff_prover]
#[verifier::rlimit(40)]
pub proof fn law_rewrite_keyboard_repeat_lines(xml: Seq<char>, rate: nat, delay: nat)
    requires
        crate::lines::free_of(xml, '\r'),
        tail_not_repeat(strip_repeat(xml)),
        keyboard_insert_at(strip_repeat(xml)) is Some,
    ensures
        lines(rewrite_keyboard_spec(xml, rate, delay)).filter(|l: Seq<char>| is_repeat_line(l))
            == seq![rate_line(rate), delay_line(delay)],
{
    let s = strip_repeat(xml);
    let at = keyboard_insert_at(s)->0;
    let nl = seq!['\n'];
    lemma_insert_facts(s, at);
    lemma_strip_clean(xml);
    let p = s.take(at);
    let q = s.skip(at);
    let out = rewrite_keyboard_spec(xml, rate, delay);
    lemma_repeat_lines(rate, delay);
    if at == s.len() {
        assert(p =~= s);
        assert(out =~= p + repeat_block(rate, delay));
        assert(p.last() == s[at - 1]);
        lemma_end_repeat_lines(p, rate, delay);
    } else if s[at] == '\n' {
        let q2 = q.drop_first();
        assert(q =~= nl + q2);
        assert(s =~= p + (nl + q2));
        assert(break_after(s, at) =~= Seq::<char>::empty());
        assert(out =~= p + repeat_block(rate, delay) + (nl + q2));
        lemma_block_repeat_lines(p, q2, rate, delay);
    } else {
        let t = p + nl + q;
        assert(p.last() == s[at - 1]);
        assert(q[0] == s[at]);
        assert(s =~= p + q);
        lemma_split_clean(p, q);
        assert(p + (nl + q) =~= t);
        assert(break_after(s, at) =~= nl);
        assert(out =~= p + repeat_block(rate, delay) + (nl + q));
        lemma_block_repeat_lines(p, q, rate, delay);
    }
}

} // verus!
