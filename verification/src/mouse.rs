//! labwc libinput (mouse and touchpad) config for Settings > Devices > Mouse:
//! the `<libinput>` block built from the page's settings, and its swap into
//! `rc.xml` that keeps everything else (notably `<mouse><default/>`).
//!
//! Fractional settings are carried in hundredths, the precision at which they
//! are written (`0.33`, `-0.80`).

use vstd::prelude::*;
use crate::text::{chars_of, contains, dec, find, find_chars, has, lines, lines_of, lowercase,
    push_dec, push_str, rfind, rfind_chars, slice_chars, starts_with, strip_leading,
    strip_trailing, string_of, to_lowercase, trim_matches_chars, begins, views};

verus! {

/// Touchpad (`category="touchpad"`) settings for the optional second device.
#[derive(Debug, Clone, Copy)]
pub struct Touchpad {
    /// sendEventsMode yes|no (On/Off).
    pub enabled: bool,
    /// libinput pointer speed in hundredths (-100..100).
    pub pointer_speed: i32,
    /// Tap-to-click.
    pub tap: bool,
    /// scrollMethod twofinger|none.
    pub two_finger: bool,
    pub natural_scroll: bool,
}

pub open spec fn clamp_level(n: u8) -> nat {
    if n < 1 { 1 } else if n > 10 { 10 } else { n as nat }
}

/// The "lines to scroll" setting (1-10, 3 neutral) as libinput's
/// `scrollFactor` (lines / 3), in hundredths rounded to nearest.
pub open spec fn scroll_factor_spec(lines: u8) -> nat {
    (clamp_level(lines) * 100 + 1) / 3
}

/// `scrollFactor` in hundredths for a lines-to-scroll setting.
pub fn scroll_factor(lines: u8) -> (f: u32)
    ensures
        f == scroll_factor_spec(lines),
{
    let l: u32 = if lines < 1 { 1 } else if lines > 10 { 10 } else { lines as u32 };
    (l * 100 + 1) / 3
}

/// A touchpad sensitivity level (1-10, 5 neutral) as libinput's
/// `pointerSpeed` ((level - 5) / 5), in hundredths.
pub open spec fn pointer_speed_spec(level: u8) -> int {
    (clamp_level(level) - 5) * 20
}

/// `pointerSpeed` in hundredths for a sensitivity level.
pub fn pointer_speed(level: u8) -> (p: i32)
    ensures
        p == pointer_speed_spec(level),
{
    let l: i32 = if level < 1 { 1 } else if level > 10 { 10 } else { level as i32 };
    (l - 5) * 20
}

/// `v` hundredths with two decimals, as `{:.2}` writes it.
pub open spec fn fixed2(v: int) -> Seq<char> {
    let a: nat = if v < 0 { (-v) as nat } else { v as nat };
    (if v < 0 { "-"@ } else { seq![] }) + dec(a / 100) + "."@ + dec((a % 100) / 10) + dec(a % 10)
}

/// Append `v` hundredths with two decimals.
fn push_fixed2(s: &mut String, v: i32)
    ensures
        final(s)@ == old(s)@ + fixed2(v as int),
{
    let a: u64 = if v < 0 { (-(v as i64)) as u64 } else { v as u64 };
    if v < 0 {
        push_str(s, "-");
    }
    push_dec(s, a / 100);
    push_str(s, ".");
    push_dec(s, (a % 100) / 10);
    push_dec(s, a % 10);
    proof {
        reveal_strlit("-");
        reveal_strlit(".");
    }
    assert(final(s)@ =~= old(s)@ + fixed2(v as int));
}

pub open spec fn yes_no(b: bool) -> Seq<char> {
    if b { "yes"@ } else { "no"@ }
}

fn yn(b: bool) -> (s: &'static str)
    ensures
        s@ == yes_no(b),
{
    if b { "yes" } else { "no" }
}

/// The touchpad's pointer speed clamped to -1.00..1.00.
pub open spec fn clamp_speed(v: int) -> int {
    if v < -100 { -100 } else if v > 100 { 100 } else { v }
}

/// The `default` device of the `<libinput>` block.
pub open spec fn default_device(left_handed: bool, natural_scroll: bool, scroll_lines: u8) -> Seq<char> {
    "\n    <device category=\"default\">\n      <naturalScroll>"@ + yes_no(natural_scroll)
        + "</naturalScroll>\n      <leftHanded>"@ + yes_no(left_handed)
        + "</leftHanded>\n      <scrollFactor>"@ + fixed2(scroll_factor_spec(scroll_lines) as int)
        + "</scrollFactor>\n    </device>"@
}

/// The `touchpad` device of the `<libinput>` block.
pub open spec fn touchpad_device(t: Touchpad) -> Seq<char> {
    "\n    <device category=\"touchpad\">\n      <sendEventsMode>"@ + yes_no(t.enabled)
        + "</sendEventsMode>\n      <pointerSpeed>"@ + fixed2(clamp_speed(t.pointer_speed as int))
        + "</pointerSpeed>\n      <naturalScroll>"@ + yes_no(t.natural_scroll)
        + "</naturalScroll>\n      <tap>"@ + yes_no(t.tap)
        + "</tap>\n      <scrollMethod>"@ + (if t.two_finger { "twofinger"@ } else { "none"@ })
        + "</scrollMethod>\n    </device>"@
}

/// The `<libinput>` block: a `default` device from the mouse settings, then a
/// `touchpad` device when one is present; indented for the top level of
/// `rc.xml`, no trailing newline.
pub open spec fn libinput_block_spec(left_handed: bool, natural_scroll: bool, scroll_lines: u8,
    touchpad: Option<Touchpad>) -> Seq<char> {
    "  <libinput>"@ + default_device(left_handed, natural_scroll, scroll_lines)
        + match touchpad {
            Some(t) => touchpad_device(t),
            None => seq![],
        }
        + "\n  </libinput>"@
}

fn push_default_device(s: &mut String, left_handed: bool, natural_scroll: bool, scroll_lines: u8)
    ensures
        final(s)@ == old(s)@ + default_device(left_handed, natural_scroll, scroll_lines),
{
    push_str(s, "\n    <device category=\"default\">\n      <naturalScroll>");
    push_str(s, yn(natural_scroll));
    push_str(s, "</naturalScroll>\n      <leftHanded>");
    push_str(s, yn(left_handed));
    push_str(s, "</leftHanded>\n      <scrollFactor>");
    push_fixed2(s, scroll_factor(scroll_lines) as i32);
    push_str(s, "</scrollFactor>\n    </device>");
    assert(final(s)@ =~= old(s)@ + default_device(left_handed, natural_scroll, scroll_lines));
}

#[verifier::rlimit(40)]
fn push_touchpad_device(s: &mut String, t: &Touchpad)
    ensures
        final(s)@ == old(s)@ + touchpad_device(*t),
{
    push_str(s, "\n    <device category=\"touchpad\">\n      <sendEventsMode>");
    push_str(s, yn(t.enabled));
    push_str(s, "</sendEventsMode>\n      <pointerSpeed>");
    let ps: i32 = if t.pointer_speed < -100 { -100 } else if t.pointer_speed > 100 { 100 } else { t.pointer_speed };
    push_fixed2(s, ps);
    push_str(s, "</pointerSpeed>\n      <naturalScroll>");
    push_str(s, yn(t.natural_scroll));
    push_str(s, "</naturalScroll>\n      <tap>");
    push_str(s, yn(t.tap));
    push_str(s, "</tap>\n      <scrollMethod>");
    push_str(s, if t.two_finger { "twofinger" } else { "none" });
    push_str(s, "</scrollMethod>\n    </device>");
    assert(final(s)@ =~= old(s)@ + touchpad_device(*t));
}

/// The `<libinput>` block for the Mouse page's settings.
pub fn libinput_block(left_handed: bool, natural_scroll: bool, scroll_lines: u8,
    touchpad: Option<&Touchpad>) -> (s: String)
    ensures
        s@ == libinput_block_spec(left_handed, natural_scroll, scroll_lines,
            match touchpad { Some(t) => Some(*t), None => None }),
{
    let mut s = "  <libinput>".to_owned();
    push_default_device(&mut s, left_handed, natural_scroll, scroll_lines);
    match touchpad {
        Some(t) => push_touchpad_device(&mut s, t),
        None => {}
    }
    push_str(&mut s, "\n  </libinput>");
    assert(s@ =~= libinput_block_spec(left_handed, natural_scroll, scroll_lines,
        match touchpad { Some(t) => Some(*t), None => None }));
    s
}

/// A `/proc/bus/input/devices` line naming a touch/track-pad (compared in
/// lowercase).
pub open spec fn touchpad_line(l: Seq<char>) -> bool {
    let l = lowercase(l);
    starts_with(l, "n: name="@) && (contains(l, "touchpad"@) || contains(l, "trackpad"@))
}

/// Whether `/proc/bus/input/devices` lists a touchpad.
pub fn has_touchpad(devices: &str) -> (b: bool)
    ensures
        b == exists|i: int| 0 <= i < lines(devices@).len() && touchpad_line(#[trigger] lines(devices@)[i]),
{
    let v = chars_of(devices);
    let ls = lines_of(&v);
    let mut i: usize = 0;
    while i < ls.len()
        invariant
            i <= ls.len(),
            views(ls@) == lines(devices@),
            forall|k: int| 0 <= k < i ==> !touchpad_line(#[trigger] views(ls@)[k]),
        decreases ls.len() - i,
    {
        let l = to_lowercase(&ls[i]);
        assert(views(ls@)[i as int] == ls@[i as int]@);
        if begins(&l, "n: name=") && (has(&l, "touchpad") || has(&l, "trackpad")) {
            return true;
        }
        i += 1;
    }
    false
}

/// The block with its leading and trailing newlines removed.
pub open spec fn trimmed_block(block: Seq<char>) -> Seq<char> {
    strip_trailing(strip_leading(block, '\n'), '\n')
}

/// A space or a tab.
pub open spec fn is_blank(c: char) -> bool {
    c == ' ' || c == '\t'
}

/// `s` without its leading spaces and tabs.
pub open spec fn skip_blanks(s: Seq<char>) -> Seq<char>
    decreases s.len(),
{
    if s.len() > 0 && is_blank(s[0]) { skip_blanks(s.drop_first()) } else { s }
}

/// Every character of `s` is a space or a tab.
pub open spec fn all_blank(s: Seq<char>) -> bool {
    forall|k: int| 0 <= k < s.len() ==> is_blank(#[trigger] s[k])
}

proof fn lemma_skip_blanks(s: Seq<char>, j: int)
    requires
        0 <= j <= s.len(),
        forall|k: int| 0 <= k < j ==> is_blank(#[trigger] s[k]),
    ensures
        skip_blanks(s) == skip_blanks(s.skip(j)),
    decreases j,
{
    if j > 0 {
        assert(s.drop_first().skip(j - 1) =~= s.skip(j));
        assert forall|k: int| 0 <= k < j - 1 implies is_blank(#[trigger] s.drop_first()[k]) by {
            assert(s.drop_first()[k] == s[k + 1]);
        }
        lemma_skip_blanks(s.drop_first(), j - 1);
    } else {
        assert(s.skip(0) =~= s);
    }
}

/// `s` without its leading spaces and tabs.
fn skip_blanks_chars(s: &Vec<char>) -> (r: Vec<char>)
    ensures
        r@ == skip_blanks(s@),
{
    let mut j: usize = 0;
    while j < s.len() && (s[j] == ' ' || s[j] == '\t')
        invariant
            j <= s.len(),
            forall|k: int| 0 <= k < j ==> is_blank(#[trigger] s@[k]),
        decreases s.len() - j,
    {
        j += 1;
    }
    proof {
        lemma_skip_blanks(s@, j as int);
    }
    let r = slice_chars(s, j, s.len());
    assert(r@ =~= s@.skip(j as int));
    r
}

/// `<libinput>...</libinput>` of `xml` swapped for `block`: the old element
/// and the indentation before it on its line give way to the block, the
/// rest of that line before it is kept; with no such element, `block` goes
/// on its own line just before the last `</labwc_config>`, or at the end.
pub open spec fn rewrite_libinput_spec(xml: Seq<char>, block: Seq<char>) -> Seq<char> {
    let b = trimmed_block(block);
    match (find(xml, "<libinput"@), find(xml, "</libinput>"@)) {
        (Some(start), Some(end)) => {
            let line_start = match rfind(xml.take(start), "\n"@) {
                Some(i) => i + 1,
                None => 0,
            };
            xml.take(line_start) + skip_blanks(xml.subrange(line_start, start)) + b + xml.skip(end + 11)
        },
        _ => match rfind(xml, "</labwc_config>"@) {
            Some(pos) => xml.take(pos) + b + "\n"@ + xml.skip(pos),
            None => xml + "\n"@ + b + "\n"@,
        },
    }
}

/// Swap the `<libinput>` block of `xml` for `block`, preserving everything
/// else; insert it before `</labwc_config>` when there is none.
pub fn rewrite_libinput(xml: &str, block: &str) -> (out: String)
    ensures
        out@ == rewrite_libinput_spec(xml@, block@),
{
    let bv = chars_of(block);
    let b = trim_matches_chars(&bv, '\n');
    let x = chars_of(xml);
    let open = chars_of("<libinput");
    let close = chars_of("</libinput>");
    proof {
        reveal_strlit("</libinput>");
        reveal_strlit("\n");
    }
    let mut r: Vec<char> = Vec::new();
    match (find_chars(&x, &open), find_chars(&x, &close)) {
        (Some(start), Some(end)) => {
            let head = slice_chars(&x, 0, start);
            let nl = chars_of("\n");
            let line_start = match rfind_chars(&head, &nl) {
                Some(i) => i + 1,
                None => 0,
            };
            assert(head@ =~= x@.take(start as int));
            let a = slice_chars(&x, 0, line_start);
            let w = skip_blanks_chars(&slice_chars(&x, line_start, start));
            let n = x.len();
            assert(end + 11 <= n) by {
                assert(close@ == "</libinput>"@);
                assert(close@.len() == 11);
                assert(crate::text::is_first(x@, close@, end as int));
            }
            let c = slice_chars(&x, end + 11, n);
            let s = string_of(&a);
            let mut out = s;
            push_str(&mut out, string_of(&w).as_str());
            push_str(&mut out, string_of(&b).as_str());
            push_str(&mut out, string_of(&c).as_str());
            assert(out@ =~= rewrite_libinput_spec(xml@, block@));
            out
        }
        _ => {
            let tag = chars_of("</labwc_config>");
            match rfind_chars(&x, &tag) {
                Some(pos) => {
                    let a = slice_chars(&x, 0, pos);
                    let c = slice_chars(&x, pos, x.len());
                    let mut out = string_of(&a);
                    push_str(&mut out, string_of(&b).as_str());
                    push_str(&mut out, "\n");
                    push_str(&mut out, string_of(&c).as_str());
                    assert(out@ =~= rewrite_libinput_spec(xml@, block@));
                    out
                }
                None => {
                    let mut out = xml.to_owned();
                    push_str(&mut out, "\n");
                    push_str(&mut out, string_of(&b).as_str());
                    push_str(&mut out, "\n");
                    assert(out@ =~= rewrite_libinput_spec(xml@, block@));
                    out
                }
            }
        }
    }
}

// --- rewriting twice ------------------------------------------------------------------

/// The block opens `<libinput` after nothing but its indentation and
/// closes with its only `</libinput>`.
pub open spec fn block_shape(b: Seq<char>) -> bool {
    &&& b.len() >= 11
    &&& find(b, "</libinput>"@) == Some(b.len() - 11)
    &&& exists|i: int| find(b, "<libinput"@) == Some(i) && all_blank(#[trigger] b.take(i))
}

/// A configuration the swap leaves in a stable shape: its first
/// `</libinput>` follows its first `<libinput`, which has nothing but
/// indentation before it on its line; or it has neither tag, and
/// the last `</labwc_config>`, if any, starts a line.
pub open spec fn swappable(xml: Seq<char>) -> bool {
    match (find(xml, "<libinput"@), find(xml, "</libinput>"@)) {
        (Some(s), Some(e)) => e > s && all_blank(xml.subrange(
            match rfind(xml.take(s), "\n"@) { Some(k) => k + 1, None => 0 }, s)),
        _ => {
            &&& !contains(xml, "<libinput"@)
            &&& !contains(xml, "</libinput>"@)
            &&& match rfind(xml, "</labwc_config>"@) {
                Some(pos) => pos == 0 || xml[pos - 1] == '\n',
                None => true,
            }
        },
    }
}

/// The first occurrence of `pat` in `p + b + s` is its first in `b` when
/// `p` holds none and ends a line.
proof fn lemma_find_after_prefix(p: Seq<char>, b: Seq<char>, s: Seq<char>, pat: Seq<char>, i: int)
    requires
        pat.len() > 0,
        crate::lines::free_of(pat, '\n'),
        !contains(p, pat),
        p.len() == 0 || p[p.len() - 1] == '\n',
        find(b, pat) == Some(i),
    ensures
        find(p + b + s, pat) == Some(p.len() + i),
{
    let x = p + b + s;
    assert(crate::text::is_first(b, pat, i));
    assert(x.subrange(p.len() + i, p.len() + i + pat.len()) =~= b.subrange(i, i + pat.len()));
    assert forall|j: int| 0 <= j < p.len() + i implies !crate::text::occurs_at(x, pat, j) by {
        if crate::text::occurs_at(x, pat, j) {
            if j + pat.len() <= p.len() {
                assert(p.subrange(j, j + pat.len()) =~= x.subrange(j, j + pat.len()));
                assert(crate::text::occurs_at(p, pat, j));
            } else if j < p.len() {
                assert(x[p.len() - 1] == '\n');
                assert(x.subrange(j, j + pat.len())[p.len() - 1 - j] == x[p.len() - 1]);
            } else {
                let jb = j - p.len();
                assert(jb + pat.len() <= b.len());
                assert(b.subrange(jb, jb + pat.len()) =~= x.subrange(j, j + pat.len()));
                assert(crate::text::occurs_at(b, pat, jb));
            }
        }
    }
    crate::text::lemma_find_is(x, pat, p.len() + i);
}

/// Where the line holding the block's `<libinput` starts, on the second pass.
proof fn lemma_line_start_again(p: Seq<char>, b: Seq<char>, i: int)
    requires
        0 <= i <= b.len(),
        crate::lines::free_of(b.take(i), '\n'),
        p.len() == 0 || p[p.len() - 1] == '\n',
    ensures
        (match rfind((p + b).take(p.len() + i), "\n"@) {
            Some(k) => k + 1,
            None => 0,
        }) == p.len(),
{
    reveal_strlit("\n");
    let x = (p + b).take(p.len() + i);
    assert(x =~= p + b.take(i));
    if p.len() > 0 {
        let k = p.len() - 1;
        assert(x.subrange(k, k + 1) =~= "\n"@);
        assert forall|j: int| k < j implies !crate::text::occurs_at(x, "\n"@, j) by {
            if crate::text::occurs_at(x, "\n"@, j) {
                assert(x.subrange(j, j + 1)[0] == x[j]);
                assert(x[j] == b.take(i)[j - p.len()]);
            }
        }
        crate::text::lemma_rfind_is(x, "\n"@, k);
    } else {
        assert forall|j: int| !crate::text::is_last(x, "\n"@, j) by {
            if crate::text::occurs_at(x, "\n"@, j) {
                assert(x.subrange(j, j + 1)[0] == x[j]);
                assert(x[j] == b.take(i)[j]);
            }
        }
    }
}

proof fn lemma_all_blank_skipped(s: Seq<char>)
    requires
        all_blank(s),
    ensures
        skip_blanks(s) == Seq::<char>::empty(),
{
    lemma_skip_blanks(s, s.len() as int);
    assert(s.skip(s.len() as int) =~= Seq::<char>::empty());
}

/// A block already swapped in after a line break is swapped for itself.
proof fn lemma_swap_fixed(p: Seq<char>, block: Seq<char>, s: Seq<char>)
    requires
        block_shape(trimmed_block(block)),
        p.len() == 0 || p[p.len() - 1] == '\n',
        !contains(p, "<libinput"@),
        !contains(p, "</libinput>"@),
    ensures
        rewrite_libinput_spec(p + trimmed_block(block) + s, block) == p + trimmed_block(block) + s,
{
    reveal_strlit("<libinput");
    reveal_strlit("</libinput>");
    let b = trimmed_block(block);
    let x = p + b + s;
    let i = choose|i: int| find(b, "<libinput"@) == Some(i) && all_blank(#[trigger] b.take(i));
    assert(crate::text::is_first(b, "<libinput"@, i));
    assert(crate::lines::free_of(b.take(i), '\n')) by {
        assert forall|k: int| 0 <= k < b.take(i).len() implies b.take(i)[k] != '\n' by {
            assert(is_blank(b.take(i)[k]));
        }
    }
    lemma_all_blank_skipped(b.take(i));
    assert(x.subrange(p.len() as int, p.len() + i) =~= b.take(i));
    lemma_find_after_prefix(p, b, s, "<libinput"@, i);
    lemma_find_after_prefix(p, b, s, "</libinput>"@, b.len() - 11);
    assert(x.take(p.len() + i) =~= (p + b).take(p.len() + i));
    lemma_line_start_again(p, b, i);
    assert(x.take(p.len() as int) =~= p);
    assert(x.skip(p.len() + b.len() - 11 + 11) =~= s);
}

/// Swapping the same libinput block in twice changes nothing after the
/// first time. Holds for a block of the shape the Mouse page builds and a
/// configuration in a shape the swap keeps stable.
pub proof fn law_rewrite_libinput_idempotent(xml: Seq<char>, block: Seq<char>)
    requires
        block_shape(trimmed_block(block)),
        swappable(xml),
    ensures
        rewrite_libinput_spec(rewrite_libinput_spec(xml, block), block) == rewrite_libinput_spec(xml, block),
{
    reveal_strlit("<libinput");
    reveal_strlit("</libinput>");
    reveal_strlit("\n");
    let b = trimmed_block(block);
    match (find(xml, "<libinput"@), find(xml, "</libinput>"@)) {
        (Some(st), Some(en)) => {
            assert(crate::text::is_first(xml, "<libinput"@, st));
            assert(crate::text::is_first(xml, "</libinput>"@, en));
            let ls = match rfind(xml.take(st), "\n"@) {
                Some(k) => k + 1,
                None => 0,
            };
            let p = xml.take(ls);
            match rfind(xml.take(st), "\n"@) {
                Some(k) => {
                    assert(crate::text::is_last(xml.take(st), "\n"@, k));
                    assert(xml.take(st).subrange(k, k + 1)[0] == xml[k]);
                    assert(p[p.len() - 1] == xml[k]);
                }
                None => {}
            }
            assert(0 <= ls <= st);
            assert(!contains(p, "<libinput"@)) by {
                if contains(p, "<libinput"@) {
                    let j = choose|j: int| crate::text::occurs_at(p, "<libinput"@, j);
                    assert(xml.subrange(j, j + 9) =~= p.subrange(j, j + 9));
                    assert(crate::text::occurs_at(xml, "<libinput"@, j));
                }
            }
            assert(!contains(p, "</libinput>"@)) by {
                if contains(p, "</libinput>"@) {
                    let j = choose|j: int| crate::text::occurs_at(p, "</libinput>"@, j);
                    assert(xml.subrange(j, j + 11) =~= p.subrange(j, j + 11));
                    assert(crate::text::occurs_at(xml, "</libinput>"@, j));
                }
            }
            lemma_all_blank_skipped(xml.subrange(ls, st));
            assert(rewrite_libinput_spec(xml, block) =~= p + b + xml.skip(en + 11));
            lemma_swap_fixed(p, block, xml.skip(en + 11));
        }
        _ => {
            match rfind(xml, "</labwc_config>"@) {
                Some(pos) => {
                    reveal_strlit("</labwc_config>");
                    assert(crate::text::is_last(xml, "</labwc_config>"@, pos));
                    let p = xml.take(pos);
                    assert(!contains(p, "<libinput"@)) by {
                        if contains(p, "<libinput"@) {
                            let j = choose|j: int| crate::text::occurs_at(p, "<libinput"@, j);
                            assert(xml.subrange(j, j + 9) =~= p.subrange(j, j + 9));
                            assert(crate::text::occurs_at(xml, "<libinput"@, j));
                        }
                    }
                    assert(!contains(p, "</libinput>"@)) by {
                        if contains(p, "</libinput>"@) {
                            let j = choose|j: int| crate::text::occurs_at(p, "</libinput>"@, j);
                            assert(xml.subrange(j, j + 11) =~= p.subrange(j, j + 11));
                            assert(crate::text::occurs_at(xml, "</libinput>"@, j));
                        }
                    }
                    assert(xml.take(pos) + b + "\n"@ + xml.skip(pos) =~= p + b + ("\n"@ + xml.skip(pos)));
                    lemma_swap_fixed(p, block, "\n"@ + xml.skip(pos));
                }
                None => {
                    let p = xml + "\n"@;
                    assert(!contains(p, "<libinput"@)) by {
                        if contains(p, "<libinput"@) {
                            let j = choose|j: int| crate::text::occurs_at(p, "<libinput"@, j);
                            if j + 9 <= xml.len() {
                                assert(xml.subrange(j, j + 9) =~= p.subrange(j, j + 9));
                                assert(crate::text::occurs_at(xml, "<libinput"@, j));
                            } else {
                                assert(p.subrange(j, j + 9)[xml.len() - j] == p[xml.len() as int]);
                            }
                        }
                    }
                    assert(!contains(p, "</libinput>"@)) by {
                        if contains(p, "</libinput>"@) {
                            let j = choose|j: int| crate::text::occurs_at(p, "</libinput>"@, j);
                            if j + 11 <= xml.len() {
                                assert(xml.subrange(j, j + 11) =~= p.subrange(j, j + 11));
                                assert(crate::text::occurs_at(xml, "</libinput>"@, j));
                            } else {
                                assert(p.subrange(j, j + 11)[xml.len() - j] == p[xml.len() as int]);
                            }
                        }
                    }
                    assert(p[p.len() - 1] == '\n');
                    assert(xml + "\n"@ + b + "\n"@ =~= p + b + "\n"@);
                    lemma_swap_fixed(p, block, "\n"@);
                }
            }
        }
    }
}

// --- the block the Mouse page builds ------------------------------------------------

proof fn lemma_free_concat(a: Seq<char>, b: Seq<char>, c: char)
    requires
        crate::lines::free_of(a, c),
        crate::lines::free_of(b, c),
    ensures
        crate::lines::free_of(a + b, c),
{
    assert forall|k: int| 0 <= k < (a + b).len() implies (a + b)[k] != c by {
        if k < a.len() { assert((a + b)[k] == a[k]); } else { assert((a + b)[k] == b[k - a.len()]); }
    }
}

proof fn lemma_fixed2_no_b(v: int)
    ensures
        crate::lines::free_of(fixed2(v), 'b'),
{
    reveal_strlit("-");
    reveal_strlit(".");
    let a: nat = if v < 0 { (-v) as nat } else { v as nat };
    crate::keyboard::lemma_dec_plain(a / 100);
    crate::keyboard::lemma_dec_plain((a % 100) / 10);
    crate::keyboard::lemma_dec_plain(a % 10);
    let sign = if v < 0 { "-"@ } else { seq![] };
    assert(crate::lines::free_of(sign, 'b'));
    lemma_free_concat(sign, dec(a / 100), 'b');
    lemma_free_concat(sign + dec(a / 100), "."@, 'b');
    lemma_free_concat(sign + dec(a / 100) + "."@, dec((a % 100) / 10), 'b');
    lemma_free_concat(sign + dec(a / 100) + "."@ + dec((a % 100) / 10), dec(a % 10), 'b');
}

proof fn lemma_yes_no_no_b(v: bool)
    ensures
        crate::lines::free_of(yes_no(v), 'b'),
{
    reveal_strlit("yes");
    reveal_strlit("no");
}

proof fn lemma_devices_no_b(left_handed: bool, natural_scroll: bool, scroll_lines: u8, touchpad: Option<Touchpad>)
    ensures
        crate::lines::free_of(default_device(left_handed, natural_scroll, scroll_lines)
            + match touchpad { Some(t) => touchpad_device(t), None => seq![] }, 'b'),
{
    let l1 = "\n    <device category=\"default\">\n      <naturalScroll>"@;
    let l2 = "</naturalScroll>\n      <leftHanded>"@;
    let l3 = "</leftHanded>\n      <scrollFactor>"@;
    let l4 = "</scrollFactor>\n    </device>"@;
    reveal_strlit("\n    <device category=\"default\">\n      <naturalScroll>");
    reveal_strlit("</naturalScroll>\n      <leftHanded>");
    reveal_strlit("</leftHanded>\n      <scrollFactor>");
    reveal_strlit("</scrollFactor>\n    </device>");
    assert(crate::lines::free_of(l1, 'b'));
    assert(crate::lines::free_of(l2, 'b'));
    assert(crate::lines::free_of(l3, 'b'));
    assert(crate::lines::free_of(l4, 'b'));
    lemma_yes_no_no_b(natural_scroll);
    lemma_yes_no_no_b(left_handed);
    let f = fixed2(scroll_factor_spec(scroll_lines) as int);
    lemma_fixed2_no_b(scroll_factor_spec(scroll_lines) as int);
    lemma_free_concat(l1, yes_no(natural_scroll), 'b');
    lemma_free_concat(l1 + yes_no(natural_scroll), l2, 'b');
    lemma_free_concat(l1 + yes_no(natural_scroll) + l2, yes_no(left_handed), 'b');
    lemma_free_concat(l1 + yes_no(natural_scroll) + l2 + yes_no(left_handed), l3, 'b');
    lemma_free_concat(l1 + yes_no(natural_scroll) + l2 + yes_no(left_handed) + l3, f, 'b');
    lemma_free_concat(l1 + yes_no(natural_scroll) + l2 + yes_no(left_handed) + l3 + f, l4, 'b');
    let d = default_device(left_handed, natural_scroll, scroll_lines);
    assert(d == l1 + yes_no(natural_scroll) + l2 + yes_no(left_handed) + l3 + f + l4);
    match touchpad {
        Some(t) => {
            lemma_touchpad_no_b(t);
            lemma_free_concat(d, touchpad_device(t), 'b');
        }
        None => {
            assert(d + seq![] =~= d);
        }
    }
}

proof fn lemma_touchpad_no_b(t: Touchpad)
    ensures
        crate::lines::free_of(touchpad_device(t), 'b'),
{
    let m1 = "\n    <device category=\"touchpad\">\n      <sendEventsMode>"@;
    let m2 = "</sendEventsMode>\n      <pointerSpeed>"@;
    let m3 = "</pointerSpeed>\n      <naturalScroll>"@;
    let m4 = "</naturalScroll>\n      <tap>"@;
    let m5 = "</tap>\n      <scrollMethod>"@;
    let m6 = "</scrollMethod>\n    </device>"@;
    reveal_strlit("\n    <device category=\"touchpad\">\n      <sendEventsMode>");
    reveal_strlit("</sendEventsMode>\n      <pointerSpeed>");
    reveal_strlit("</pointerSpeed>\n      <naturalScroll>");
    reveal_strlit("</naturalScroll>\n      <tap>");
    reveal_strlit("</tap>\n      <scrollMethod>");
    reveal_strlit("</scrollMethod>\n    </device>");
    reveal_strlit("twofinger");
    reveal_strlit("none");
    assert(crate::lines::free_of(m1, 'b'));
    assert(crate::lines::free_of(m2, 'b'));
    assert(crate::lines::free_of(m3, 'b'));
    assert(crate::lines::free_of(m4, 'b'));
    assert(crate::lines::free_of(m5, 'b'));
    assert(crate::lines::free_of(m6, 'b'));
    let sm = if t.two_finger { "twofinger"@ } else { "none"@ };
    assert(crate::lines::free_of(sm, 'b'));
    lemma_yes_no_no_b(t.enabled);
    lemma_yes_no_no_b(t.natural_scroll);
    lemma_yes_no_no_b(t.tap);
    let f = fixed2(clamp_speed(t.pointer_speed as int));
    lemma_fixed2_no_b(clamp_speed(t.pointer_speed as int));
    let a1 = m1 + yes_no(t.enabled);
    lemma_free_concat(m1, yes_no(t.enabled), 'b');
    lemma_free_concat(a1, m2, 'b');
    lemma_free_concat(a1 + m2, f, 'b');
    lemma_free_concat(a1 + m2 + f, m3, 'b');
    lemma_free_concat(a1 + m2 + f + m3, yes_no(t.natural_scroll), 'b');
    lemma_free_concat(a1 + m2 + f + m3 + yes_no(t.natural_scroll), m4, 'b');
    lemma_free_concat(a1 + m2 + f + m3 + yes_no(t.natural_scroll) + m4, yes_no(t.tap), 'b');
    lemma_free_concat(a1 + m2 + f + m3 + yes_no(t.natural_scroll) + m4 + yes_no(t.tap), m5, 'b');
    lemma_free_concat(a1 + m2 + f + m3 + yes_no(t.natural_scroll) + m4 + yes_no(t.tap) + m5, sm, 'b');
    lemma_free_concat(a1 + m2 + f + m3 + yes_no(t.natural_scroll) + m4 + yes_no(t.tap) + m5 + sm, m6, 'b');
}

/// Every block the Mouse page builds has the shape the swap keeps stable:
/// nothing but indentation before its `<libinput`, and its only
/// `</libinput>` at its end.
pub proof fn lemma_libinput_block_shape(left_handed: bool, natural_scroll: bool, scroll_lines: u8,
    touchpad: Option<Touchpad>)
    ensures
        trimmed_block(libinput_block_spec(left_handed, natural_scroll, scroll_lines, touchpad))
            == libinput_block_spec(left_handed, natural_scroll, scroll_lines, touchpad),
        block_shape(libinput_block_spec(left_handed, natural_scroll, scroll_lines, touchpad)),
{
    reveal_strlit("  <libinput>");
    reveal_strlit("\n  </libinput>");
    reveal_strlit("</libinput>");
    reveal_strlit("<libinput");
    let pre = "  <libinput>"@;
    let mid = default_device(left_handed, natural_scroll, scroll_lines)
        + match touchpad { Some(t) => touchpad_device(t), None => seq![] };
    let suf = "\n  </libinput>"@;
    let b = libinput_block_spec(left_handed, natural_scroll, scroll_lines, touchpad);
    assert(b =~= pre + mid + suf);
    lemma_devices_no_b(left_handed, natural_scroll, scroll_lines, touchpad);
    let l: int = 12 + mid.len() as int;
    assert(b.len() == l + 14);
    assert(b[0] == ' ' && b[b.len() - 1] == '>');
    assert(strip_leading(b, '\n') == b);
    assert(strip_trailing(b, '\n') == b);
    let close = "</libinput>"@;
    let open = "<libinput"@;
    // the closing tag
    assert(b.subrange(l + 3, l + 14) =~= close);
    assert forall|j: int| 0 <= j < l + 3 implies !crate::text::occurs_at(b, close, j) by {
        if crate::text::occurs_at(b, close, j) {
            assert(b.subrange(j, j + 11)[0] == b[j]);
            assert(b.subrange(j, j + 11)[1] == b[j + 1]);
            if j < 12 {
                assert(b[j] == pre[j]);
                if j == 2 {
                    assert(b[3] == pre[3]);
                }
            } else if j + 4 < l {
                assert(b.subrange(j, j + 11)[4] == b[j + 4]);
                assert(b[j + 4] == mid[j + 4 - 12]);
            } else if j < l {
                assert(b.subrange(j, j + 11)[l - j] == b[l]);
                assert(b[l] == suf[0]);
            } else {
                assert(b[j] == suf[j - l]);
            }
        }
    }
    crate::text::lemma_find_is(b, close, l + 3);
    // the opening tag
    assert(b.subrange(2, 11) =~= open);
    assert forall|j: int| 0 <= j < 2 implies !crate::text::occurs_at(b, open, j) by {
        if crate::text::occurs_at(b, open, j) {
            assert(b.subrange(j, j + 9)[0] == b[j]);
            assert(b[j] == pre[j]);
        }
    }
    crate::text::lemma_find_is(b, open, 2);
    assert(all_blank(b.take(2)));
    assert(find(b, open) == Some(2int) && all_blank(b.take(2)));
}

/// Swapping the block the Mouse page builds into a configuration twice
/// changes nothing after the first time, for a configuration in a shape the
/// swap keeps stable.
pub proof fn law_libinput_block_swap_idempotent(xml: Seq<char>, left_handed: bool, natural_scroll: bool,
    scroll_lines: u8, touchpad: Option<Touchpad>)
    requires
        swappable(xml),
    ensures
        ({
            let block = libinput_block_spec(left_handed, natural_scroll, scroll_lines, touchpad);
            rewrite_libinput_spec(rewrite_libinput_spec(xml, block), block) == rewrite_libinput_spec(xml, block)
        }),
{
    lemma_libinput_block_shape(left_handed, natural_scroll, scroll_lines, touchpad);
    law_rewrite_libinput_idempotent(xml, libinput_block_spec(left_handed, natural_scroll, scroll_lines, touchpad));
}


// --- one libinput element after the swap -----------------------------------------------

/// The only occurrence of `<libinput` in the block the Mouse page builds
/// is its opening tag, after two spaces; no `<` is among its last eight
/// characters.
proof fn lemma_block_opens_once(left_handed: bool, natural_scroll: bool, scroll_lines: u8,
    touchpad: Option<Touchpad>)
    ensures
        ({
            let b = libinput_block_spec(left_handed, natural_scroll, scroll_lines, touchpad);
            &&& b.len() >= 11
            &&& b[0] == ' '
            &&& forall|k: int| b.len() - 9 < k < b.len() ==> b[k] != '<'
            &&& forall|o: int| #[trigger] crate::text::occurs_at(b, "<libinput"@, o) ==> o == 2
            &&& crate::text::occurs_at(b, "<libinput>"@, 2)
        }),
{
    reveal_strlit("  <libinput>");
    reveal_strlit("\n  </libinput>");
    reveal_strlit("<libinput");
    reveal_strlit("<libinput>");
    let pre = "  <libinput>"@;
    let mid = default_device(left_handed, natural_scroll, scroll_lines)
        + match touchpad { Some(t) => touchpad_device(t), None => seq![] };
    let suf = "\n  </libinput>"@;
    let b = libinput_block_spec(left_handed, natural_scroll, scroll_lines, touchpad);
    assert(b =~= pre + mid + suf);
    lemma_devices_no_b(left_handed, natural_scroll, scroll_lines, touchpad);
    let l: int = 12 + mid.len() as int;
    assert(b.len() == l + 14);
    let open = "<libinput"@;
    assert forall|k: int| b.len() - 9 < k < b.len() implies b[k] != '<' by {
        assert(b[k] == suf[k - l]);
    }
    assert forall|o: int| #[trigger] crate::text::occurs_at(b, open, o) implies o == 2 by {
        assert(b.subrange(o, o + 9)[3] == b[o + 3]);
        assert(b.subrange(o, o + 9)[0] == b[o]);
        if o + 3 < 12 {
            assert(b[o + 3] == pre[o + 3]);
        } else if o + 3 < l {
            assert(b[o + 3] == mid[o + 3 - 12]);
        } else {
            assert(b[o + 3] == suf[o + 3 - l]);
            assert(b[o] == suf[o - l]);
        }
    }
    assert(b.subrange(2, 12) =~= "<libinput>"@);
}

/// In `x + b + s`, with no `<libinput` in `x` or `s`, `b` opening with a
/// space and holding `<libinput` only at 2, with no `<` near its end, the
/// only `<libinput` is that of `b`.
proof fn lemma_opens_only_in_block(x: Seq<char>, b: Seq<char>, s: Seq<char>, i: int)
    requires
        !contains(x, "<libinput"@),
        !contains(s, "<libinput"@),
        b.len() >= 11,
        b[0] == ' ',
        forall|k: int| b.len() - 9 < k < b.len() ==> b[k] != '<',
        forall|o: int| #[trigger] crate::text::occurs_at(b, "<libinput"@, o) ==> o == 2,
        crate::text::occurs_at(x + b + s, "<libinput"@, i),
    ensures
        i == x.len() + 2,
{
    reveal_strlit("<libinput");
    let open = "<libinput"@;
    let y = x + b + s;
    let xl = x.len() as int;
    let bl = b.len() as int;
    assert(y.subrange(i, i + 9)[0] == y[i]);
    if i + 9 <= xl {
        assert(y.subrange(i, i + 9) =~= x.subrange(i, i + 9));
        assert(crate::text::occurs_at(x, open, i));
    } else if i < xl {
        assert(y.subrange(i, i + 9)[xl - i] == y[xl]);
        assert(y[xl] == b[0]);
    } else if i + 9 <= xl + bl {
        assert(y.subrange(i, i + 9) =~= b.subrange(i - xl, i - xl + 9));
        assert(crate::text::occurs_at(b, open, i - xl));
    } else if i < xl + bl {
        assert(y[i] == b[i - xl]);
    } else {
        assert(y.subrange(i, i + 9) =~= s.subrange(i - xl - bl, i - xl - bl + 9));
        assert(crate::text::occurs_at(s, open, i - xl - bl));
    }
}

/// `x + b + s` holds `<libinput>` exactly once, where `b` is the block the
/// Mouse page builds and neither `x` nor `s` holds `<libinput`.
proof fn lemma_one_libinput(x: Seq<char>, s: Seq<char>, left_handed: bool, natural_scroll: bool,
    scroll_lines: u8, touchpad: Option<Touchpad>)
    requires
        !contains(x, "<libinput"@),
        !contains(s, "<libinput"@),
    ensures
        ({
            let y = x + libinput_block_spec(left_handed, natural_scroll, scroll_lines, touchpad) + s;
            &&& contains(y, "<libinput>"@)
            &&& forall|i: int, j: int| #[trigger] crate::text::occurs_at(y, "<libinput>"@, i)
                && #[trigger] crate::text::occurs_at(y, "<libinput>"@, j) ==> i == j
        }),
{
    reveal_strlit("<libinput");
    reveal_strlit("<libinput>");
    let b = libinput_block_spec(left_handed, natural_scroll, scroll_lines, touchpad);
    let y = x + b + s;
    lemma_block_opens_once(left_handed, natural_scroll, scroll_lines, touchpad);
    let xl = x.len() as int;
    assert(y.subrange(xl + 2, xl + 12) =~= b.subrange(2, 12));
    assert(crate::text::occurs_at(y, "<libinput>"@, xl + 2));
    assert forall|i: int| #[trigger] crate::text::occurs_at(y, "<libinput>"@, i) implies i == xl + 2 by {
        assert(y.subrange(i, i + 9) =~= y.subrange(i, i + 10).subrange(0, 9));
        assert("<libinput>"@.subrange(0, 9) =~= "<libinput"@);
        lemma_opens_only_in_block(x, b, s, i);
    }
}

/// A configuration whose text after its first `</libinput>` holds no
/// further `<libinput`.
pub open spec fn single_libinput(xml: Seq<char>) -> bool {
    match (find(xml, "<libinput"@), find(xml, "</libinput>"@)) {
        (Some(_), Some(e)) => !contains(xml.skip(e + 11), "<libinput"@),
        _ => true,
    }
}

/// Swapping the block the Mouse page builds into a configuration that has
/// at most one libinput element leaves exactly one `<libinput>` in it.
proof fn lemma_libinput_block_swap_once(xml: Seq<char>, left_handed: bool, natural_scroll: bool,
    scroll_lines: u8, touchpad: Option<Touchpad>)
    requires
        swappable(xml),
        single_libinput(xml),
    ensures
        ({
            let once = rewrite_libinput_spec(xml,
                libinput_block_spec(left_handed, natural_scroll, scroll_lines, touchpad));
            &&& contains(once, "<libinput>"@)
            &&& forall|i: int, j: int| #[trigger] crate::text::occurs_at(once, "<libinput>"@, i)
                && #[trigger] crate::text::occurs_at(once, "<libinput>"@, j) ==> i == j
        }),
{
    reveal_strlit("<libinput");
    reveal_strlit("\n");
    let open = "<libinput"@;
    let block = libinput_block_spec(left_handed, natural_scroll, scroll_lines, touchpad);
    lemma_libinput_block_shape(left_handed, natural_scroll, scroll_lines, touchpad);
    assert(trimmed_block(block) == block);
    match (find(xml, open), find(xml, "</libinput>"@)) {
        (Some(st), Some(en)) => {
            assert(crate::text::is_first(xml, open, st));
            let ls = match rfind(xml.take(st), "\n"@) {
                Some(k) => k + 1,
                None => 0,
            };
            assert(0 <= ls <= st) by {
                if rfind(xml.take(st), "\n"@) is Some {
                    let k = rfind(xml.take(st), "\n"@)->0;
                    assert(crate::text::is_last(xml.take(st), "\n"@, k));
                }
            }
            lemma_all_blank_skipped(xml.subrange(ls, st));
            let x = xml.take(ls);
            let s = xml.skip(en + 11);
            assert forall|i: int| !crate::text::occurs_at(x, open, i) by {
                if crate::text::occurs_at(x, open, i) {
                    assert(x.subrange(i, i + 9) =~= xml.subrange(i, i + 9));
                    assert(!crate::text::occurs_at(xml, open, i));
                }
            }
            assert(rewrite_libinput_spec(xml, block) =~= x + block + s);
            lemma_one_libinput(x, s, left_handed, natural_scroll, scroll_lines, touchpad);
        },
        _ => {
            assert(!contains(xml, open));
            match rfind(xml, "</labwc_config>"@) {
                Some(pos) => {
                    assert(crate::text::is_last(xml, "</labwc_config>"@, pos));
                    let x = xml.take(pos);
                    let s = "\n"@ + xml.skip(pos);
                    assert forall|i: int| !crate::text::occurs_at(x, open, i) by {
                        if crate::text::occurs_at(x, open, i) {
                            assert(x.subrange(i, i + 9) =~= xml.subrange(i, i + 9));
                            assert(crate::text::occurs_at(xml, open, i));
                        }
                    }
                    assert forall|i: int| !crate::text::occurs_at(s, open, i) by {
                        if crate::text::occurs_at(s, open, i) {
                            assert(s.subrange(i, i + 9)[0] == s[i]);
                            if i > 0 {
                                assert(s.subrange(i, i + 9) =~= xml.subrange(pos + i - 1, pos + i + 8));
                                assert(crate::text::occurs_at(xml, open, pos + i - 1));
                            }
                        }
                    }
                    assert(rewrite_libinput_spec(xml, block) =~= x + block + s);
                    lemma_one_libinput(x, s, left_handed, natural_scroll, scroll_lines, touchpad);
                },
                None => {
                    let x = xml + "\n"@;
                    let s = "\n"@;
                    assert forall|i: int| !crate::text::occurs_at(x, open, i) by {
                        if crate::text::occurs_at(x, open, i) {
                            if i + 9 <= xml.len() {
                                assert(x.subrange(i, i + 9) =~= xml.subrange(i, i + 9));
                                assert(crate::text::occurs_at(xml, open, i));
                            } else {
                                assert(x.subrange(i, i + 9)[xml.len() - i] == x[xml.len() as int]);
                            }
                        }
                    }
                    assert forall|i: int| !crate::text::occurs_at(s, open, i) by {}
                    assert(rewrite_libinput_spec(xml, block) =~= x + block + s);
                    lemma_one_libinput(x, s, left_handed, natural_scroll, scroll_lines, touchpad);
                },
            }
        },
    }
}


/// Swapping in the block the Mouse page builds is idempotent and leaves
/// exactly one `<libinput>`: for a configuration with at most one libinput
/// element whose `<libinput` has only indentation before it on its line
/// (or, with none, whose last `</labwc_config>` starts a line), swapping
/// the same block in again changes nothing.
pub proof fn law_rewrite_libinput_block_idempotent(xml: Seq<char>, left_handed: bool, natural_scroll: bool,
    scroll_lines: u8, touchpad: Option<Touchpad>)
    requires
        swappable(xml),
        single_libinput(xml),
    ensures
        ({
            let block = libinput_block_spec(left_handed, natural_scroll, scroll_lines, touchpad);
            let once = rewrite_libinput_spec(xml, block);
            &&& rewrite_libinput_spec(once, block) == once
            &&& contains(once, "<libinput>"@)
            &&& forall|i: int, j: int| #[trigger] crate::text::occurs_at(once, "<libinput>"@, i)
                && #[trigger] crate::text::occurs_at(once, "<libinput>"@, j) ==> i == j
        }),
{
    law_libinput_block_swap_idempotent(xml, left_handed, natural_scroll, scroll_lines, touchpad);
    lemma_libinput_block_swap_once(xml, left_handed, natural_scroll, scroll_lines, touchpad);
}

} // verus!
