//! Wayland display state for the Display Properties applet: video modes and
//! their labels, the outputs' resolution and refresh choices, the
//! `wlr-randr` arguments that realise a desired state, and the generated
//! session scripts (`display.sh`, `wallpaper.sh`, `idle.sh`).
//!
//! Output scales are carried in hundredths (`1.5` is `150`), the precision
//! at which they are written.

use vstd::prelude::*;
use crate::text::{chars_of, contains, dec, is_ws, join, join_chars, lines, lines_of, push_char,
    push_dec, push_str, replace_char, push_replaced, starts_with, string_of, trim_start,
    trim_start_chars, views, begins};

verus! {

/// One video mode a monitor supports.
#[derive(Debug, Clone, Copy, PartialEq, Eq)]
pub struct Mode {
    pub width: i32,
    pub height: i32,
    /// Refresh in mHz (60_000 = 60.000 Hz).
    pub refresh_mhz: i32,
}

/// The decimal text of a signed integer.
pub open spec fn dec_int(i: int) -> Seq<char> {
    if i < 0 { "-"@ + dec((-i) as nat) } else { dec(i as nat) }
}

/// Append the decimal text of a signed integer.
pub fn push_int(s: &mut String, i: i64)
    ensures
        final(s)@ == old(s)@ + dec_int(i as int),
{
    if i < 0 {
        push_str(s, "-");
        let a: u64 = if i == i64::MIN { 9223372036854775808u64 } else { (-i) as u64 };
        push_dec(s, a);
        proof {
            reveal_strlit("-");
        }
        assert(final(s)@ =~= old(s)@ + dec_int(i as int));
    } else {
        push_dec(s, i as u64);
    }
}

/// The three-digit fraction `n` (0..999), zero-padded.
pub open spec fn three_digits(n: nat) -> Seq<char> {
    dec(n / 100) + dec((n / 10) % 10) + dec(n % 10)
}

/// Hz with three decimals, as `{:.3}` writes `mhz / 1000`.
pub open spec fn hz3(mhz: int) -> Seq<char> {
    let a: nat = if mhz < 0 { (-mhz) as nat } else { mhz as nat };
    (if mhz < 0 { "-"@ } else { seq![] }) + dec(a / 1000) + "."@ + three_digits(a % 1000)
}

fn push_hz3(s: &mut String, mhz: i32)
    ensures
        final(s)@ == old(s)@ + hz3(mhz as int),
{
    let a: u64 = if mhz < 0 { (-(mhz as i64)) as u64 } else { mhz as u64 };
    if mhz < 0 {
        push_str(s, "-");
    }
    push_dec(s, a / 1000);
    push_str(s, ".");
    let f = a % 1000;
    push_dec(s, f / 100);
    push_dec(s, (f / 10) % 10);
    push_dec(s, f % 10);
    proof {
        reveal_strlit("-");
        reveal_strlit(".");
    }
    assert(final(s)@ =~= old(s)@ + hz3(mhz as int));
}

/// The refresh label: Hz with three decimals, the trailing ".000" of a whole
/// number dropped (no sign for zero).
pub open spec fn refresh_label_spec(mhz: int) -> Seq<char> {
    let a: nat = if mhz < 0 { (-mhz) as nat } else { mhz as nat };
    let frac = a % 1000;
    if frac == 0 {
        let whole: nat = a / 1000;
        (if mhz < 0 && whole > 0 { "-"@ } else { seq![] }) + dec(whole) + " Hz"@
    } else {
        hz3(mhz) + " Hz"@
    }
}

impl Mode {
    /// Hz as a display string, e.g. "60 Hz" (a trailing ".000" dropped).
    pub fn refresh_label(&self) -> (s: String)
        ensures
            s@ == refresh_label_spec(self.refresh_mhz as int),
    {
        let m = self.refresh_mhz;
        let a: u64 = if m < 0 { (-(m as i64)) as u64 } else { m as u64 };
        let frac = a % 1000;
        let mut s = String::new();
        if frac == 0 {
            let whole: u64 = a / 1000;
            if m < 0 && whole > 0 {
                push_str(&mut s, "-");
            }
            push_dec(&mut s, whole);
            push_str(&mut s, " Hz");
            proof {
                reveal_strlit("-");
            }
        } else {
            push_hz3(&mut s, m);
            push_str(&mut s, " Hz");
        }
        assert(s@ =~= refresh_label_spec(self.refresh_mhz as int));
        s
    }

    /// The `--mode` argument wlr-randr expects, e.g. "1920x1080@60.000Hz".
    pub fn mode_arg(&self) -> (s: String)
        ensures
            s@ == mode_arg_spec(*self),
    {
        let mut s = String::new();
        push_int(&mut s, self.width as i64);
        push_str(&mut s, "x");
        push_int(&mut s, self.height as i64);
        push_str(&mut s, "@");
        push_hz3(&mut s, self.refresh_mhz);
        push_str(&mut s, "Hz");
        assert(s@ =~= mode_arg_spec(*self));
        s
    }

    /// "1920 x 1080": the resolution without refresh.
    pub fn res_label(&self) -> (s: String)
        ensures
            s@ == dec_int(self.width as int) + " x "@ + dec_int(self.height as int),
    {
        let mut s = String::new();
        push_int(&mut s, self.width as i64);
        push_str(&mut s, " x ");
        push_int(&mut s, self.height as i64);
        assert(s@ =~= dec_int(self.width as int) + " x "@ + dec_int(self.height as int));
        s
    }
}

pub open spec fn mode_arg_spec(m: Mode) -> Seq<char> {
    dec_int(m.width as int) + "x"@ + dec_int(m.height as int) + "@"@ + hz3(m.refresh_mhz as int) + "Hz"@
}

// --- outputs ----------------------------------------------------------------------

/// A connected output (monitor) and its current and available state.
pub struct Output {
    pub name: String,
    /// Manufacturer string from EDID.
    pub make: String,
    pub model: String,
    /// Whether the output is currently enabled.
    pub active: bool,
    /// Whether it counts as the primary output.
    pub focused: bool,
    /// Scale in hundredths.
    pub scale: u32,
    /// Transform: "normal" | "90" | "180" | "270" (+ flipped variants).
    pub transform: String,
    /// Logical position of the output's top-left in the layout.
    pub x: i32,
    pub y: i32,
    /// Current logical size.
    pub rect_w: i32,
    pub rect_h: i32,
    pub current: Option<Mode>,
    pub modes: Vec<Mode>,
}

pub open spec fn area(p: (i32, i32)) -> int {
    p.0 as int * p.1 as int
}

/// Larger area first.
pub open spec fn by_area_desc(s: Seq<(i32, i32)>) -> bool {
    forall|i: int, j: int| 0 <= i < j < s.len() ==> area(s[i]) >= area(s[j])
}

pub open spec fn mode_pairs(m: Seq<Mode>) -> Seq<(i32, i32)> {
    m.map_values(|x: Mode| (x.width, x.height))
}

/// The area of a (width, height) pair.
fn area_of(p: (i32, i32)) -> (r: i64)
    ensures
        r == area(p),
{
    assert(-0x4000_0000_0000_0000 <= p.0 as int * p.1 as int <= 0x4000_0000_0000_0000) by (nonlinear_arith)
        requires
            -0x8000_0000 <= p.0 <= 0x7fff_ffff,
            -0x8000_0000 <= p.1 <= 0x7fff_ffff,
    ;
    p.0 as i64 * p.1 as i64
}

impl Output {
    /// "Model (NAME)", or the connector name when there is no model.
    pub fn label(&self) -> (s: String)
        ensures
            s@ == if self.model@.len() == 0 { self.name@ } else { self.model@ + " ("@ + self.name@ + ")"@ },
    {
        if self.model.as_str().is_empty() {
            self.name.clone()
        } else {
            let mut s = self.model.clone();
            push_str(&mut s, " (");
            push_str(&mut s, self.name.as_str());
            push_str(&mut s, ")");
            s
        }
    }

    /// Distinct resolutions (W x H), larger area first: the "Screen area" stops.
    /// Resolutions of equal area keep no particular order.
    #[verifier::spinoff_prover]
    pub fn resolutions(&self) -> (r: Vec<(i32, i32)>)
        ensures
            r@.no_duplicates(),
            forall|x: (i32, i32)| r@.contains(x) <==> mode_pairs(self.modes@).contains(x),
            by_area_desc(r@),
    {
        let mut sorted: Vec<(i32, i32)> = Vec::new();
        let mut i: usize = 0;
        while i < self.modes.len()
            invariant
                i <= self.modes.len(),
                sorted@.no_duplicates(),
                forall|x: (i32, i32)| sorted@.contains(x) <==> mode_pairs(self.modes@).take(i as int).contains(x),
                by_area_desc(sorted@),
            decreases self.modes.len() - i,
        {
            let p = (self.modes[i].width, self.modes[i].height);
            let ghost pre = mode_pairs(self.modes@).take(i as int);
            proof {
                assert(mode_pairs(self.modes@).take(i + 1) =~= pre.push(p));
            }
            let mut seen = false;
            let mut j: usize = 0;
            while j < sorted.len()
                invariant
                    j <= sorted.len(),
                    seen == exists|q: int| 0 <= q < j && sorted@[q] == p,
                decreases sorted.len() - j,
            {
                if sorted[j].0 == p.0 && sorted[j].1 == p.1 {
                    seen = true;
                }
                j += 1;
            }
            if seen {
                assert forall|x: (i32, i32)| sorted@.contains(x) <==> pre.push(p).contains(x) by {
                    if pre.push(p).contains(x) && x != p {
                        let q = choose|q: int| 0 <= q < pre.push(p).len() && pre.push(p)[q] == x;
                        assert(pre.contains(x));
                    }
                    if sorted@.contains(x) {
                        assert(pre.contains(x));
                        let q = choose|q: int| 0 <= q < pre.len() && pre[q] == x;
                        assert(pre.push(p)[q] == x);
                    }
                }
            } else {
                let a = area_of(p);
                let mut k: usize = 0;
                while k < sorted.len() && area_of(sorted[k]) >= a
                    invariant
                        k <= sorted.len(),
                        a == area(p),
                        forall|j: int| 0 <= j < k ==> area(#[trigger] sorted@[j]) >= area(p),
                    decreases sorted.len() - k,
                {
                    k += 1;
                }
                let ghost s0 = sorted@;
                sorted.insert(k, p);
                assert(sorted@ == s0.insert(k as int, p));
                assert forall|x: int, y: int| 0 <= x < y < sorted@.len() implies area(sorted@[x]) >= area(sorted@[y]) by {
                    if x < k && y < k {
                        assert(sorted@[x] == s0[x] && sorted@[y] == s0[y]);
                    } else if x < k && y == k {
                        assert(sorted@[x] == s0[x]);
                    } else if x < k {
                        assert(sorted@[x] == s0[x] && sorted@[y] == s0[y - 1]);
                    } else if x == k {
                        assert(sorted@[y] == s0[y - 1]);
                        if k < s0.len() {
                            assert(area(s0[k as int]) < area(p));
                        }
                    } else {
                        assert(sorted@[x] == s0[x - 1] && sorted@[y] == s0[y - 1]);
                    }
                }
                assert forall|x: int, y: int| 0 <= x < sorted@.len() && 0 <= y < sorted@.len() && x != y
                    implies sorted@[x] != sorted@[y] by {
                    let x0 = if x < k { x } else { x - 1 };
                    let y0 = if y < k { y } else { y - 1 };
                    if x == k {
                        assert(sorted@[y] == s0[y0]);
                        assert(!(exists|q: int| 0 <= q < s0.len() && s0[q] == p));
                    } else if y == k {
                        assert(sorted@[x] == s0[x0]);
                        assert(!(exists|q: int| 0 <= q < s0.len() && s0[q] == p));
                    } else {
                        assert(sorted@[x] == s0[x0] && sorted@[y] == s0[y0]);
                    }
                }
                assert forall|x: (i32, i32)| sorted@.contains(x) <==> pre.push(p).contains(x) by {
                    if sorted@.contains(x) {
                        let q = choose|q: int| 0 <= q < sorted@.len() && sorted@[q] == x;
                        if q == k {
                            assert(pre.push(p)[pre.len() as int] == x);
                        } else {
                            let q0 = if q < k { q } else { q - 1 };
                            assert(s0[q0] == x);
                            assert(s0.contains(x));
                            let w = choose|w: int| 0 <= w < pre.len() && pre[w] == x;
                            assert(pre.push(p)[w] == x);
                        }
                    }
                    if pre.push(p).contains(x) {
                        let q = choose|q: int| 0 <= q < pre.push(p).len() && pre.push(p)[q] == x;
                        if q == pre.len() {
                            assert(sorted@[k as int] == x);
                        } else {
                            assert(pre[q] == x);
                            assert(pre.contains(x));
                            assert(s0.contains(x));
                            let w = choose|w: int| 0 <= w < s0.len() && s0[w] == x;
                            let w1 = if w < k { w } else { w + 1 };
                            assert(sorted@[w1] == x);
                        }
                    }
                }
            }
            i += 1;
        }
        assert(mode_pairs(self.modes@).take(self.modes.len() as int) =~= mode_pairs(self.modes@));
        sorted
    }

    /// Refresh rates available at a resolution, highest first, one mode per
    /// rate.
    pub fn refreshes_at(&self, w: i32, h: i32) -> (r: Vec<Mode>)
        ensures
            forall|i: int, j: int| 0 <= i < j < r@.len() ==> r@[i].refresh_mhz > r@[j].refresh_mhz,
            forall|i: int| 0 <= i < r@.len() ==> self.modes@.contains(#[trigger] r@[i])
                && r@[i].width == w && r@[i].height == h,
            forall|m: Mode| #[trigger] self.modes@.contains(m) && m.width == w && m.height == h
                ==> has_refresh(r@, m.refresh_mhz),
    {
        let mut r: Vec<Mode> = Vec::new();
        let mut i: usize = 0;
        while i < self.modes.len()
            invariant
                i <= self.modes.len(),
                forall|x: int, y: int| 0 <= x < y < r@.len() ==> r@[x].refresh_mhz > r@[y].refresh_mhz,
                forall|x: int| 0 <= x < r@.len() ==> self.modes@.contains(#[trigger] r@[x])
                    && r@[x].width == w && r@[x].height == h,
                forall|k: int| 0 <= k < i && (#[trigger] self.modes@[k]).width == w && self.modes@[k].height == h
                    ==> has_refresh(r@, self.modes@[k].refresh_mhz),
            decreases self.modes.len() - i,
        {
            let m = self.modes[i];
            assert(self.modes@.contains(m)) by {
                assert(self.modes@[i as int] == m);
            }
            if m.width == w && m.height == h {
                let mut k: usize = 0;
                while k < r.len() && r[k].refresh_mhz > m.refresh_mhz
                    invariant
                        k <= r.len(),
                        forall|x: int| 0 <= x < k ==> #[trigger] r@[x].refresh_mhz > m.refresh_mhz,
                    decreases r.len() - k,
                {
                    k += 1;
                }
                if k < r.len() && r[k].refresh_mhz == m.refresh_mhz {
                    assert(has_refresh(r@, m.refresh_mhz)) by {
                        assert(r@[k as int].refresh_mhz == m.refresh_mhz);
                    }
                } else {
                    let ghost r0 = r@;
                    r.insert(k, m);
                    assert(r@ == r0.insert(k as int, m));
                    assert forall|x: int, y: int| 0 <= x < y < r@.len() implies r@[x].refresh_mhz > r@[y].refresh_mhz by {
                        if x < k && y < k {
                            assert(r@[x] == r0[x] && r@[y] == r0[y]);
                        } else if x < k && y == k {
                            assert(r@[x] == r0[x]);
                        } else if x < k {
                            assert(r@[x] == r0[x] && r@[y] == r0[y - 1]);
                        } else if x == k {
                            assert(r@[y] == r0[y - 1]);
                            assert(r0[k as int].refresh_mhz < m.refresh_mhz);
                        } else {
                            assert(r@[x] == r0[x - 1] && r@[y] == r0[y - 1]);
                        }
                    }
                    assert forall|x: int| 0 <= x < r@.len() implies self.modes@.contains(#[trigger] r@[x])
                        && r@[x].width == w && r@[x].height == h by {
                        if x < k {
                            assert(r@[x] == r0[x]);
                        } else if x > k {
                            assert(r@[x] == r0[x - 1]);
                        }
                    }
                    assert forall|f: i32| has_refresh(r0, f) implies has_refresh(r@, f) by {
                        let x0 = choose|x: int| 0 <= x < r0.len() && r0[x].refresh_mhz == f;
                        if x0 < k {
                            assert(r@[x0] == r0[x0]);
                        } else {
                            assert(r@[x0 + 1] == r0[x0]);
                        }
                    }
                    assert(has_refresh(r@, m.refresh_mhz)) by {
                        assert(r@[k as int] == m);
                    }
                }
            }
            i += 1;
        }
        assert forall|m: Mode| #[trigger] self.modes@.contains(m) && m.width == w && m.height == h
            implies has_refresh(r@, m.refresh_mhz) by {
            let k = choose|k: int| 0 <= k < self.modes@.len() && self.modes@[k] == m;
            assert(self.modes@[k] == m);
        }
        r
    }
}

/// Some mode of `r` has refresh `f`.
pub open spec fn has_refresh(r: Seq<Mode>, f: i32) -> bool {
    exists|x: int| 0 <= x < r.len() && r[x].refresh_mhz == f
}

// --- desired state -------------------------------------------------------------

/// One output's desired geometry.
pub struct DesiredOutput {
    pub name: String,
    pub width: i32,
    pub height: i32,
    pub refresh_mhz: i32,
    /// Scale in hundredths.
    pub scale: u32,
    pub transform: String,
    pub x: i32,
    pub y: i32,
}

pub struct Wallpaper {
    pub path: String,
    /// swaybg mode: center | tile | stretch | fit | fill.
    pub mode: String,
}

pub struct ScreenSaver {
    /// Idle minutes before the saver/lock arms (0 disables it).
    pub minutes: u32,
    /// Lock (swaylock) on resume.
    pub lock: bool,
}

/// The full set of display settings the applet edits and persists.
pub struct Desired {
    pub outputs: Vec<DesiredOutput>,
    pub wallpaper: Option<Wallpaper>,
    pub screensaver: Option<ScreenSaver>,
    /// Appearance scheme key; `None` leaves colors alone.
    pub scheme: Option<String>,
}

/// An output's desired state seeded from its live state: the current mode,
/// or its logical size at 60 Hz when it has none.
pub open spec fn seeded(o: Output, d: DesiredOutput) -> bool {
    let cur = match o.current {
        Some(m) => m,
        None => Mode { width: o.rect_w, height: o.rect_h, refresh_mhz: 60000 },
    };
    &&& d.name@ == o.name@
    &&& d.width == cur.width && d.height == cur.height && d.refresh_mhz == cur.refresh_mhz
    &&& d.scale == o.scale && d.transform@ == o.transform@
    &&& d.x == o.x && d.y == o.y
}

/// Seed the desired state from the live outputs.
pub fn desired_from(outputs: &Vec<Output>) -> (r: Vec<DesiredOutput>)
    ensures
        r@.len() == outputs@.len(),
        forall|i: int| 0 <= i < r@.len() ==> seeded(outputs@[i], #[trigger] r@[i]),
{
    let mut r: Vec<DesiredOutput> = Vec::new();
    let mut i: usize = 0;
    while i < outputs.len()
        invariant
            i <= outputs.len(),
            r@.len() == i,
            forall|k: int| 0 <= k < i ==> seeded(outputs@[k], #[trigger] r@[k]),
        decreases outputs.len() - i,
    {
        let o = &outputs[i];
        let cur = match o.current {
            Some(m) => m,
            None => Mode { width: o.rect_w, height: o.rect_h, refresh_mhz: 60000 },
        };
        r.push(DesiredOutput {
            name: o.name.clone(),
            width: cur.width,
            height: cur.height,
            refresh_mhz: cur.refresh_mhz,
            scale: o.scale,
            transform: o.transform.clone(),
            x: o.x,
            y: o.y,
        });
        i += 1;
    }
    r
}

/// A scale (hundredths) as written: whole numbers bare, else two decimals.
pub open spec fn scale_text(s: nat) -> Seq<char> {
    if s % 100 == 0 {
        dec(s / 100)
    } else {
        dec(s / 100) + "."@ + dec((s % 100) / 10) + dec(s % 10)
    }
}

fn fmt_scale(s: u32) -> (t: String)
    ensures
        t@ == scale_text(s as nat),
{
    let mut t = String::new();
    push_dec(&mut t, (s / 100) as u64);
    if s % 100 != 0 {
        push_str(&mut t, ".");
        push_dec(&mut t, ((s % 100) / 10) as u64);
        push_dec(&mut t, (s % 10) as u64);
        proof {
            reveal_strlit(".");
        }
    }
    assert(t@ =~= scale_text(s as nat));
    t
}

pub open spec fn strings(v: Seq<String>) -> Seq<Seq<char>> {
    v.map_values(|s: String| s@)
}

/// The `wlr-randr` arguments that realise one output's desired state.
pub open spec fn output_args_spec(d: DesiredOutput) -> Seq<Seq<char>> {
    seq!["--output"@, d.name@,
        "--mode"@, mode_arg_spec(Mode { width: d.width, height: d.height, refresh_mhz: d.refresh_mhz }),
        "--transform"@, d.transform@,
        "--scale"@, scale_text(d.scale as nat),
        "--pos"@, dec_int(d.x as int) + ","@ + dec_int(d.y as int)]
}

/// The `wlr-randr` arguments that realise one output's desired state.
pub fn output_args(d: &DesiredOutput) -> (a: Vec<String>)
    ensures
        strings(a@) == output_args_spec(*d),
{
    let m = Mode { width: d.width, height: d.height, refresh_mhz: d.refresh_mhz };
    let mut pos = String::new();
    push_int(&mut pos, d.x as i64);
    push_str(&mut pos, ",");
    push_int(&mut pos, d.y as i64);
    let a = vec![
        "--output".to_owned(),
        d.name.clone(),
        "--mode".to_owned(),
        m.mode_arg(),
        "--transform".to_owned(),
        d.transform.clone(),
        "--scale".to_owned(),
        fmt_scale(d.scale),
        "--pos".to_owned(),
        pos,
    ];
    assert(strings(a@) =~= output_args_spec(*d));
    a
}

/// Append `v` joined with single spaces.
fn push_joined(s: &mut String, v: &Vec<String>)
    ensures
        final(s)@ == old(s)@ + join(strings(v@), " "@),
{
    let mut cs: Vec<Vec<char>> = Vec::new();
    let mut i: usize = 0;
    while i < v.len()
        invariant
            i <= v.len(),
            views(cs@) == strings(v@).take(i as int),
        decreases v.len() - i,
    {
        let ghost before = views(cs@);
        cs.push(chars_of(v[i].as_str()));
        assert(views(cs@) =~= before.push(v@[i as int]@));
        assert(strings(v@).take(i + 1) =~= strings(v@).take(i as int).push(v@[i as int]@));
        i += 1;
    }
    assert(strings(v@).take(v.len() as int) =~= strings(v@));
    let j = join_chars(&cs, " ");
    push_str(s, string_of(&j).as_str());
}

/// The header of the generated `display.sh`.
pub open spec fn display_header() -> Seq<char> {
    "#!/bin/sh\n# Generated by `mde display` \u{2014} output geometry, replayed at login.\n"@
}

/// `display.sh`: one `wlr-randr` line per output, after the header.
pub open spec fn persist_lines(outs: Seq<DesiredOutput>) -> Seq<char>
    decreases outs.len(),
{
    if outs.len() == 0 {
        seq![]
    } else {
        persist_lines(outs.drop_last()) + "wlr-randr "@ + join(output_args_spec(outs.last()), " "@) + "\n"@
    }
}

/// The generated `display.sh` (the output geometry, replayed at login).
pub fn persist_text(d: &Desired) -> (s: String)
    ensures
        s@ == display_header() + persist_lines(d.outputs@),
{
    let mut s = "#!/bin/sh\n# Generated by `mde display` \u{2014} output geometry, replayed at login.\n".to_owned();
    let mut i: usize = 0;
    assert(d.outputs@.take(0) =~= Seq::<DesiredOutput>::empty());
    while i < d.outputs.len()
        invariant
            i <= d.outputs.len(),
            s@ == display_header() + persist_lines(d.outputs@.take(i as int)),
        decreases d.outputs.len() - i,
    {
        let args = output_args(&d.outputs[i]);
        push_str(&mut s, "wlr-randr ");
        push_joined(&mut s, &args);
        push_str(&mut s, "\n");
        assert(d.outputs@.take(i + 1).drop_last() =~= d.outputs@.take(i as int));
        assert(s@ =~= display_header() + persist_lines(d.outputs@.take(i + 1)));
        i += 1;
    }
    assert(d.outputs@.take(d.outputs.len() as int) =~= d.outputs@);
    s
}

/// A path that needs quoting: empty, or holding whitespace or a `'`.
pub open spec fn needs_quote(s: Seq<char>) -> bool {
    s.len() == 0 || exists|i: int| 0 <= i < s.len() && (is_ws(#[trigger] s[i]) || s[i] == '\'')
}

/// Minimal shell quoting for a path embedded in a generated script: wrapped in
/// double quotes (with `"` escaped) when it needs it.
pub open spec fn shell_quote_spec(s: Seq<char>) -> Seq<char> {
    if needs_quote(s) { "\""@ + replace_char(s, '"', "\\\""@) + "\""@ } else { s }
}

/// Minimal shell-quote for a path embedded in a generated script.
pub fn shell_quote(s: &str) -> (q: String)
    ensures
        q@ == shell_quote_spec(s@),
{
    let v = chars_of(s);
    let mut need = v.len() == 0;
    let mut i: usize = 0;
    while i < v.len()
        invariant
            i <= v.len(),
            v@ == s@,
            need == (v@.len() == 0 || exists|k: int| 0 <= k < i && (is_ws(#[trigger] v@[k]) || v@[k] == '\'')),
        decreases v.len() - i,
    {
        if crate::text::is_whitespace(v[i]) || v[i] == '\'' {
            need = true;
        }
        i += 1;
    }
    if need {
        let mut q = "\"".to_owned();
        push_replaced(&mut q, &v, '"', "\\\"");
        push_str(&mut q, "\"");
        q
    } else {
        s.to_owned()
    }
}

/// The generated `wallpaper.sh`.
pub fn wallpaper_text(w: &Wallpaper) -> (t: String)
    ensures
        t@ == "#!/bin/sh\npkill -x swaybg\nswaybg -i "@ + shell_quote_spec(w.path@) + " -m "@ + w.mode@ + " &\n"@,
{
    let mut t = "#!/bin/sh\npkill -x swaybg\nswaybg -i ".to_owned();
    let q = shell_quote(w.path.as_str());
    push_str(&mut t, q.as_str());
    push_str(&mut t, " -m ");
    push_str(&mut t, w.mode.as_str());
    push_str(&mut t, " &\n");
    t
}

/// The generated `idle.sh` (screen saver via swayidle, then wlopm or
/// swaylock).
pub open spec fn idle_text_spec(sv: ScreenSaver) -> Seq<char> {
    if sv.minutes == 0 {
        "#!/bin/sh\n# screen saver disabled\npkill swayidle\n"@
    } else {
        "#!/bin/sh\npkill swayidle\nswayidle -w timeout "@ + dec((sv.minutes * 60) as nat) + " '"@
            + (if sv.lock { "swaylock -f -c 000000"@ } else { "wlopm --off '*'"@ })
            + "' resume 'wlopm --on \"*\"' &\n"@
    }
}

/// The generated `idle.sh`.
pub fn idle_text(sv: &ScreenSaver) -> (t: String)
    requires
        sv.minutes * 60 <= u32::MAX,
    ensures
        t@ == idle_text_spec(*sv),
{
    if sv.minutes == 0 {
        return "#!/bin/sh\n# screen saver disabled\npkill swayidle\n".to_owned();
    }
    let secs = sv.minutes * 60;
    let mut t = "#!/bin/sh\npkill swayidle\nswayidle -w timeout ".to_owned();
    push_dec(&mut t, secs as u64);
    push_str(&mut t, " '");
    push_str(&mut t, if sv.lock { "swaylock -f -c 000000" } else { "wlopm --off '*'" });
    push_str(&mut t, "' resume 'wlopm --on \"*\"' &\n");
    assert(t@ =~= idle_text_spec(*sv));
    t
}

// --- appearance schemes -------------------------------------------------------------

pub open spec fn scheme_colors_spec(key: Seq<char>) -> (Seq<char>, Seq<char>, Seq<char>) {
    if key == "high-contrast-black"@ {
        ("#000000"@, "#000000"@, "#ffffff"@)
    } else if key == "win2k-brick"@ {
        ("#6b3f2b"@, "#6b3f2b"@, "#ffffff"@)
    } else if key == "win2k-spruce"@ {
        ("#2b5b3f"@, "#2b5b3f"@, "#ffffff"@)
    } else {
        ("#0a246a"@, "#0a246a"@, "#ffffff"@)
    }
}

/// (focused border, focused background, focused text) for a scheme key;
/// Windows Standard for unknown keys.
pub fn scheme_colors(key: &str) -> (c: (&'static str, &'static str, &'static str))
    ensures
        (c.0@, c.1@, c.2@) == scheme_colors_spec(key@),
{
    let k = chars_of(key);
    if crate::text::eq_str(&k, "high-contrast-black") {
        ("#000000", "#000000", "#ffffff")
    } else if crate::text::eq_str(&k, "win2k-brick") {
        ("#6b3f2b", "#6b3f2b", "#ffffff")
    } else if crate::text::eq_str(&k, "win2k-spruce") {
        ("#2b5b3f", "#2b5b3f", "#ffffff")
    } else {
        ("#0a246a", "#0a246a", "#ffffff")
    }
}

/// A themerc line with the active title colors of a scheme applied.
pub open spec fn themerc_line(l: Seq<char>, bg: Seq<char>, text: Seq<char>) -> Seq<char> {
    let t = trim_start(l);
    if starts_with(t, "window.active.title.bg.color:"@) {
        "window.active.title.bg.color: "@ + bg
    } else if starts_with(t, "window.active.label.text.color:"@) {
        "window.active.label.text.color: "@ + text
    } else {
        l
    }
}

/// The Openbox themerc with the scheme's active-title background and text
/// colors written in; lines rejoined with `\n` and ended with one.
pub open spec fn scheme_themerc_spec(content: Seq<char>, key: Seq<char>) -> Seq<char> {
    let (_b, bg, text) = scheme_colors_spec(key);
    join(lines(content).map_values(|l: Seq<char>| themerc_line(l, bg, text)), "\n"@) + "\n"@
}

/// Rewrite the themerc for an Appearance scheme.
pub fn scheme_themerc(content: &str, key: &str) -> (out: String)
    ensures
        out@ == scheme_themerc_spec(content@, key@),
{
    let (_b, bg, text) = scheme_colors(key);
    let v = chars_of(content);
    let ls = lines_of(&v);
    let mut out_lines: Vec<Vec<char>> = Vec::new();
    let mut i: usize = 0;
    while i < ls.len()
        invariant
            i <= ls.len(),
            views(ls@) == lines(content@),
            views(out_lines@) == views(ls@).take(i as int).map_values(|l: Seq<char>| themerc_line(l, bg@, text@)),
        decreases ls.len() - i,
    {
        let t = trim_start_chars(&ls[i]);
        let ghost before = views(out_lines@);
        let line = if begins(&t, "window.active.title.bg.color:") {
            let mut x = chars_of("window.active.title.bg.color: ");
            let b = chars_of(bg);
            let mut k: usize = 0;
            let ghost x0 = x@;
            while k < b.len()
                invariant
                    k <= b.len(),
                    x@ == x0 + b@.take(k as int),
                decreases b.len() - k,
            {
                x.push(b[k]);
                assert(b@.take(k + 1) =~= b@.take(k as int).push(b@[k as int]));
                k += 1;
            }
            assert(b@.take(b.len() as int) =~= b@);
            x
        } else if begins(&t, "window.active.label.text.color:") {
            let mut x = chars_of("window.active.label.text.color: ");
            let b = chars_of(text);
            let mut k: usize = 0;
            let ghost x0 = x@;
            while k < b.len()
                invariant
                    k <= b.len(),
                    x@ == x0 + b@.take(k as int),
                decreases b.len() - k,
            {
                x.push(b[k]);
                assert(b@.take(k + 1) =~= b@.take(k as int).push(b@[k as int]));
                k += 1;
            }
            assert(b@.take(b.len() as int) =~= b@);
            x
        } else {
            let x = crate::text::slice_chars(&ls[i], 0, ls[i].len());
            assert(ls@[i as int]@.subrange(0, ls@[i as int]@.len() as int) =~= ls@[i as int]@);
            x
        };
        assert(views(ls@)[i as int] == ls@[i as int]@);
        out_lines.push(line);
        assert(views(out_lines@) =~= before.push(themerc_line(ls@[i as int]@, bg@, text@)));
        assert(views(ls@).take(i + 1).map_values(|l: Seq<char>| themerc_line(l, bg@, text@))
            =~= views(ls@).take(i as int).map_values(|l: Seq<char>| themerc_line(l, bg@, text@))
                .push(themerc_line(ls@[i as int]@, bg@, text@)));
        i += 1;
    }
    assert(views(ls@).take(ls.len() as int) =~= views(ls@));
    let mut r = join_chars(&out_lines, "\n");
    r.push('\n');
    proof {
        reveal_strlit("\n");
    }
    assert(r@ =~= scheme_themerc_spec(content@, key@));
    string_of(&r)
}

// --- dependency probing --------------------------------------------------------------

/// The (binary, package) pairs backing the optional features.
pub fn backends() -> (b: Vec<(&'static str, &'static str)>)
    ensures
        b@.len() == 5,
        b@[0].0@ == "wlr-randr"@ && b@[0].1@ == "wlr-randr"@,
        b@[1].0@ == "swaybg"@ && b@[1].1@ == "swaybg"@,
        b@[2].0@ == "swayidle"@ && b@[2].1@ == "swayidle"@,
        b@[3].0@ == "swaylock"@ && b@[3].1@ == "swaylock"@,
        b@[4].0@ == "wlopm"@ && b@[4].1@ == "wlopm"@,
{
    vec![
        ("wlr-randr", "wlr-randr"),
        ("swaybg", "swaybg"),
        ("swayidle", "swayidle"),
        ("swaylock", "swaylock"),
        ("wlopm", "wlopm"),
    ]
}

/// The entries of `pkgs` whose flag in `present` is off, in order.
pub open spec fn keep_missing(pkgs: Seq<Seq<char>>, present: Seq<bool>) -> Seq<Seq<char>>
    decreases pkgs.len(),
{
    if pkgs.len() == 0 || present.len() == 0 {
        seq![]
    } else {
        let r = keep_missing(pkgs.drop_last(), present.drop_last());
        if !present.last() { r.push(pkgs.last()) } else { r }
    }
}

pub open spec fn backend_packages() -> Seq<Seq<char>> {
    seq!["wlr-randr"@, "swaybg"@, "swayidle"@, "swaylock"@, "wlopm"@]
}

/// The packages whose binary is missing (`present[i]` says whether the i-th
/// backend binary is on `$PATH`), in table order.
pub fn missing_backends(present: &Vec<bool>) -> (m: Vec<&'static str>)
    requires
        present@.len() == 5,
    ensures
        crate::fedora::strs(m@) == keep_missing(backend_packages(), present@),
{
    let b = backends();
    let mut m: Vec<&'static str> = Vec::new();
    let mut i: usize = 0;
    while i < 5
        invariant
            i <= 5,
            present@.len() == 5,
            b@.len() == 5,
            forall|k: int| 0 <= k < 5 ==> (#[trigger] b@[k]).1@ == backend_packages()[k],
            crate::fedora::strs(m@) == keep_missing(backend_packages().take(i as int), present@.take(i as int)),
        decreases 5 - i,
    {
        assert(backend_packages().take(i + 1).drop_last() =~= backend_packages().take(i as int));
        assert(present@.take(i + 1).drop_last() =~= present@.take(i as int));
        if !present[i] {
            let ghost before = crate::fedora::strs(m@);
            m.push(b[i].1);
            assert(crate::fedora::strs(m@) =~= before.push(b@[i as int].1@));
        }
        i += 1;
    }
    assert(backend_packages().take(5) =~= backend_packages());
    assert(present@.take(5) =~= present@);
    m
}


// --- what a scheme writes into the themerc -------------------------------------------

proof fn lemma_scheme_colors_plain(key: Seq<char>)
    ensures
        crate::lines::free_of(scheme_colors_spec(key).1, '\n'),
        crate::lines::free_of(scheme_colors_spec(key).1, '\r'),
        crate::lines::free_of(scheme_colors_spec(key).2, '\n'),
        crate::lines::free_of(scheme_colors_spec(key).2, '\r'),
{
    reveal_strlit("#000000");
    reveal_strlit("#ffffff");
    reveal_strlit("#6b3f2b");
    reveal_strlit("#2b5b3f");
    reveal_strlit("#0a246a");
}

proof fn lemma_prefixed_plain(pre: Seq<char>, c: Seq<char>)
    requires
        crate::lines::free_of(pre, '\n') && crate::lines::free_of(pre, '\r'),
        crate::lines::free_of(c, '\n') && crate::lines::free_of(c, '\r'),
    ensures
        crate::lines::free_of(pre + c, '\n') && crate::lines::free_of(pre + c, '\r'),
{
    assert forall|k: int| 0 <= k < (pre + c).len() implies (pre + c)[k] != '\n' && (pre + c)[k] != '\r' by {
        if k < pre.len() { assert((pre + c)[k] == pre[k]); } else { assert((pre + c)[k] == c[k - pre.len()]); }
    }
}

/// Applying a scheme writes its background color on the active title's
/// background line and its text color on the active label's text line, and
/// leaves every other line as it was (for a themerc without `\r`).
pub proof fn law_scheme_themerc_colors(content: Seq<char>, key: Seq<char>)
    requires
        crate::lines::free_of(content, '\r'),
    ensures
        ({
            let before = lines(content);
            let after = lines(scheme_themerc_spec(content, key));
            let bg = scheme_colors_spec(key).1;
            let text = scheme_colors_spec(key).2;
            before.len() > 0 ==> {
                &&& after.len() == before.len()
                &&& forall|i: int| 0 <= i < before.len() ==> {
                    let l = #[trigger] before[i];
                    if starts_with(trim_start(l), "window.active.title.bg.color:"@) {
                        after[i] == "window.active.title.bg.color: "@ + bg
                    } else if starts_with(trim_start(l), "window.active.label.text.color:"@) {
                        after[i] == "window.active.label.text.color: "@ + text
                    } else {
                        after[i] == l
                    }
                }
            }
        }),
{
    let before = lines(content);
    let (_b, bg, text) = scheme_colors_spec(key);
    let m = before.map_values(|l: Seq<char>| themerc_line(l, bg, text));
    if before.len() > 0 {
        crate::lines::lemma_lines_plain(content);
        lemma_scheme_colors_plain(key);
        reveal_strlit("window.active.title.bg.color: ");
        reveal_strlit("window.active.label.text.color: ");
        let p1 = "window.active.title.bg.color: "@;
        let p2 = "window.active.label.text.color: "@;
        assert(crate::lines::free_of(p1, '\n') && crate::lines::free_of(p1, '\r'));
        assert(crate::lines::free_of(p2, '\n') && crate::lines::free_of(p2, '\r'));
        lemma_prefixed_plain(p1, bg);
        lemma_prefixed_plain(p2, text);
        assert(crate::lines::plain_lines(m)) by {
            assert forall|i: int| 0 <= i < m.len() implies crate::lines::free_of(#[trigger] m[i], '\n')
                && crate::lines::free_of(m[i], '\r') by {
                assert(m[i] == themerc_line(before[i], bg, text));
                assert(crate::lines::free_of(before[i], '\n') && crate::lines::free_of(before[i], '\r'));
            }
        }
        reveal_strlit("\n");
        assert("\n"@ =~= seq!['\n']);
        crate::lines::lemma_lines_join_nl(m);
    }
}

} // verus!
