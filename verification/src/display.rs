//! Display Properties: the choices of its tabs (orientation, scale, scheme,
//! icon set, theme, mode, icon color) with the keys they persist under, the
//! title-bar and GTK settings rewrites they apply, and the dialog's reaction
//! to each user action (live preview, the 15-second keep-or-revert prompt).

use vstd::prelude::*;
use crate::outputs::{DesiredOutput, Desired, Output, ScreenSaver, Wallpaper, has_refresh, Mode};
use crate::text::{chars_of, eq_str, join, join_chars, lines, lines_of, push_dec, push_str,
    starts_with, string_of, trim_start, trim_start_chars, views, begins, dec};

verus! {

/// Screen orientation.
#[derive(Debug, Clone, Copy, PartialEq, Eq, Structural)]
pub enum Orient {
    Landscape,
    Portrait,
    LandscapeFlipped,
    PortraitFlipped,
}

pub open spec fn orient_token(o: Orient) -> Seq<char> {
    match o {
        Orient::Landscape => "normal"@,
        Orient::Portrait => "90"@,
        Orient::LandscapeFlipped => "180"@,
        Orient::PortraitFlipped => "270"@,
    }
}

impl Orient {
    /// The wlr-randr transform of an orientation.
    pub fn token(self) -> (t: &'static str)
        ensures
            t@ == orient_token(self),
    {
        match self {
            Orient::Landscape => "normal",
            Orient::Portrait => "90",
            Orient::LandscapeFlipped => "180",
            Orient::PortraitFlipped => "270",
        }
    }

    /// The orientation of a transform; landscape for anything unknown.
    pub fn from_token(t: &str) -> (o: Orient)
        ensures
            o == if t@ == "90"@ { Orient::Portrait } else if t@ == "180"@ { Orient::LandscapeFlipped }
                else if t@ == "270"@ { Orient::PortraitFlipped } else { Orient::Landscape },
    {
        let v = chars_of(t);
        if eq_str(&v, "90") {
            Orient::Portrait
        } else if eq_str(&v, "180") {
            Orient::LandscapeFlipped
        } else if eq_str(&v, "270") {
            Orient::PortraitFlipped
        } else {
            Orient::Landscape
        }
    }
}

/// Appearance color scheme.
#[derive(Debug, Clone, Copy, PartialEq, Eq, Structural)]
pub enum Scheme {
    Standard,
    HighContrastBlack,
    Brick,
    Spruce,
}

pub open spec fn scheme_key(s: Scheme) -> Seq<char> {
    match s {
        Scheme::Standard => "win2k-standard"@,
        Scheme::HighContrastBlack => "high-contrast-black"@,
        Scheme::Brick => "win2k-brick"@,
        Scheme::Spruce => "win2k-spruce"@,
    }
}

impl Scheme {
    /// The scheme key `outputs::scheme_colors` reads.
    pub fn key(self) -> (k: &'static str)
        ensures
            k@ == scheme_key(self),
    {
        match self {
            Scheme::Standard => "win2k-standard",
            Scheme::HighContrastBlack => "high-contrast-black",
            Scheme::Brick => "win2k-brick",
            Scheme::Spruce => "win2k-spruce",
        }
    }
}

/// The icon set selectable on the Appearance tab.
#[derive(Debug, Clone, Copy, PartialEq, Eq, Structural)]
pub enum IconSet {
    Win2000,
    Haiku,
}

pub open spec fn icon_set_key(s: IconSet) -> Seq<char> {
    match s {
        IconSet::Win2000 => "win2k"@,
        IconSet::Haiku => "haiku"@,
    }
}

impl IconSet {
    /// The state key persisted in menu.json.
    pub fn key(self) -> (k: &'static str)
        ensures
            k@ == icon_set_key(self),
    {
        match self {
            IconSet::Win2000 => "win2k",
            IconSet::Haiku => "haiku",
        }
    }

    /// The freedesktop icon-theme directory name.
    pub fn theme(self) -> (t: &'static str)
        ensures
            t@ == match self { IconSet::Win2000 => "Win2k"@, IconSet::Haiku => "Haiku"@ },
    {
        match self {
            IconSet::Win2000 => "Win2k",
            IconSet::Haiku => "Haiku",
        }
    }

    /// The icon set of a state key; Windows 2000 for anything unknown.
    pub fn from_key(k: &str) -> (s: IconSet)
        ensures
            s == if k@ == "haiku"@ { IconSet::Haiku } else { IconSet::Win2000 },
    {
        if eq_str(&chars_of(k), "haiku") { IconSet::Haiku } else { IconSet::Win2000 }
    }
}

/// The look-and-feel theme (state key `theme`).
#[derive(Debug, Clone, Copy, PartialEq, Eq, Structural)]
pub enum Theme {
    Carbon,
    Win2000,
    Windows10,
}

pub open spec fn theme_key(t: Theme) -> Seq<char> {
    match t {
        Theme::Carbon => "carbon"@,
        Theme::Win2000 => "win2000"@,
        Theme::Windows10 => "windows10"@,
    }
}

impl Theme {
    pub fn key(self) -> (k: &'static str)
        ensures
            k@ == theme_key(self),
    {
        match self {
            Theme::Carbon => "carbon",
            Theme::Win2000 => "win2000",
            Theme::Windows10 => "windows10",
        }
    }

    /// The theme of a state key; Carbon for anything unknown.
    pub fn from_key(k: &str) -> (t: Theme)
        ensures
            t == if k@ == "win2000"@ { Theme::Win2000 } else if k@ == "windows10"@ { Theme::Windows10 }
                else { Theme::Carbon },
    {
        let v = chars_of(k);
        if eq_str(&v, "win2000") {
            Theme::Win2000
        } else if eq_str(&v, "windows10") {
            Theme::Windows10
        } else {
            Theme::Carbon
        }
    }
}

/// Light/dark mode (state key `theme_mode`).
#[derive(Debug, Clone, Copy, PartialEq, Eq, Structural)]
pub enum ThemeMode {
    Dark,
    Light,
}

pub open spec fn theme_mode_key(m: ThemeMode) -> Seq<char> {
    match m {
        ThemeMode::Dark => "dark"@,
        ThemeMode::Light => "light"@,
    }
}

impl ThemeMode {
    pub fn key(self) -> (k: &'static str)
        ensures
            k@ == theme_mode_key(self),
    {
        match self {
            ThemeMode::Dark => "dark",
            ThemeMode::Light => "light",
        }
    }

    /// The mode of a state key; dark for anything unknown.
    pub fn from_key(k: &str) -> (m: ThemeMode)
        ensures
            m == if k@ == "light"@ { ThemeMode::Light } else { ThemeMode::Dark },
    {
        if eq_str(&chars_of(k), "light") { ThemeMode::Light } else { ThemeMode::Dark }
    }
}

/// The icon accent hue (state key `icon_color`).
#[derive(Debug, Clone, Copy, PartialEq, Eq, Structural)]
pub enum IconColor {
    Neutral,
    Blue,
    Orange,
    Red,
}

pub open spec fn icon_color_key(c: IconColor) -> Seq<char> {
    match c {
        IconColor::Neutral => "neutral"@,
        IconColor::Blue => "blue"@,
        IconColor::Orange => "orange"@,
        IconColor::Red => "red"@,
    }
}

impl IconColor {
    pub fn key(self) -> (k: &'static str)
        ensures
            k@ == icon_color_key(self),
    {
        match self {
            IconColor::Neutral => "neutral",
            IconColor::Blue => "blue",
            IconColor::Orange => "orange",
            IconColor::Red => "red",
        }
    }

    /// The hue of a state key; neutral for anything unknown.
    pub fn from_key(k: &str) -> (c: IconColor)
        ensures
            c == if k@ == "blue"@ { IconColor::Blue } else if k@ == "orange"@ { IconColor::Orange }
                else if k@ == "red"@ { IconColor::Red } else { IconColor::Neutral },
    {
        let v = chars_of(k);
        if eq_str(&v, "blue") {
            IconColor::Blue
        } else if eq_str(&v, "orange") {
            IconColor::Orange
        } else if eq_str(&v, "red") {
            IconColor::Red
        } else {
            IconColor::Neutral
        }
    }
}

/// Every persisted choice reads back as itself: `from_key(key(x)) == x`
/// for the icon set, theme, mode and icon color, and `from_token(token(o))
/// == o` for the orientation.
pub proof fn law_keys_round_trip(s: IconSet, t: Theme, m: ThemeMode, c: IconColor, o: Orient)
    ensures
        (if icon_set_key(s) == "haiku"@ { IconSet::Haiku } else { IconSet::Win2000 }) == s,
        (if theme_key(t) == "win2000"@ { Theme::Win2000 } else if theme_key(t) == "windows10"@ { Theme::Windows10 }
            else { Theme::Carbon }) == t,
        (if theme_mode_key(m) == "light"@ { ThemeMode::Light } else { ThemeMode::Dark }) == m,
        (if icon_color_key(c) == "blue"@ { IconColor::Blue } else if icon_color_key(c) == "orange"@ { IconColor::Orange }
            else if icon_color_key(c) == "red"@ { IconColor::Red } else { IconColor::Neutral }) == c,
        (if orient_token(o) == "90"@ { Orient::Portrait } else if orient_token(o) == "180"@ { Orient::LandscapeFlipped }
            else if orient_token(o) == "270"@ { Orient::PortraitFlipped } else { Orient::Landscape }) == o,
{
    reveal_strlit("haiku");
    reveal_strlit("win2k");
    reveal_strlit("win2000");
    reveal_strlit("windows10");
    reveal_strlit("carbon");
    reveal_strlit("light");
    reveal_strlit("dark");
    reveal_strlit("blue");
    reveal_strlit("orange");
    reveal_strlit("red");
    reveal_strlit("neutral");
    reveal_strlit("90");
    reveal_strlit("180");
    reveal_strlit("270");
    reveal_strlit("normal");
    assert("carbon"@.len() != "win2000"@.len() && "carbon"@.len() != "windows10"@.len()
        && "win2000"@.len() != "windows10"@.len());
    assert("dark"@.len() != "light"@.len());
    assert("neutral"@[0] != "blue"@[0] && "neutral"@[0] != "orange"@[0] && "neutral"@[0] != "red"@[0]);
    assert("blue"@[0] != "orange"@[0] && "blue"@[0] != "red"@[0] && "orange"@[0] != "red"@[0]);
    assert("normal"@.len() != "90"@.len() && "normal"@.len() != "180"@.len() && "normal"@.len() != "270"@.len());
    assert("90"@.len() != "180"@.len() && "90"@.len() != "270"@.len() && "180"@[0] != "270"@[0]);
    assert("win2k"@.len() != "haiku"@.len() || "win2k"@[0] != "haiku"@[0]);
}

/// A display scale as a whole-number percent.
#[derive(Debug, Clone, Copy, PartialEq, Eq, Structural)]
pub struct ScaleChoice(pub u32);

/// The scales offered, in percent.
pub fn scale_choices() -> (v: Vec<ScaleChoice>)
    ensures
        v@ == seq![ScaleChoice(100), ScaleChoice(125), ScaleChoice(150), ScaleChoice(175), ScaleChoice(200)],
{
    let v = vec![ScaleChoice(100), ScaleChoice(125), ScaleChoice(150), ScaleChoice(175), ScaleChoice(200)];
    assert(v@ =~= seq![ScaleChoice(100), ScaleChoice(125), ScaleChoice(150), ScaleChoice(175), ScaleChoice(200)]);
    v
}

impl ScaleChoice {
    /// "125%".
    pub fn label(self) -> (s: String)
        ensures
            s@ == dec(self.0 as nat) + "%"@,
    {
        let mut s = String::new();
        push_dec(&mut s, self.0 as u64);
        push_str(&mut s, "%");
        s
    }
}

/// The screen-saver wait, in minutes.
#[derive(Debug, Clone, Copy, PartialEq, Eq, Structural)]
pub struct WaitChoice(pub u32);

impl WaitChoice {
    /// "(None)", "1 minute", or "N minutes".
    pub fn label(self) -> (s: String)
        ensures
            s@ == if self.0 == 0 { "(None)"@ } else if self.0 == 1 { "1 minute"@ }
                else { dec(self.0 as nat) + " minutes"@ },
    {
        if self.0 == 0 {
            "(None)".to_owned()
        } else if self.0 == 1 {
            "1 minute".to_owned()
        } else {
            let mut s = String::new();
            push_dec(&mut s, self.0 as u64);
            push_str(&mut s, " minutes");
            s
        }
    }
}

/// The screen-saver waits offered.
pub fn wait_options() -> (v: Vec<WaitChoice>)
    ensures
        v@ == seq![WaitChoice(0), WaitChoice(1), WaitChoice(2), WaitChoice(5), WaitChoice(10), WaitChoice(15),
            WaitChoice(30), WaitChoice(60)],
{
    let v = vec![WaitChoice(0), WaitChoice(1), WaitChoice(2), WaitChoice(5), WaitChoice(10), WaitChoice(15),
        WaitChoice(30), WaitChoice(60)];
    assert(v@ =~= seq![WaitChoice(0), WaitChoice(1), WaitChoice(2), WaitChoice(5), WaitChoice(10), WaitChoice(15),
            WaitChoice(30), WaitChoice(60)]);
    v
}

/// Where to place the selected output relative to the primary.
#[derive(Debug, Clone, Copy, PartialEq, Eq, Structural)]
pub enum Place {
    RightOf,
    LeftOf,
    Above,
    Below,
}

/// The swaybg wallpaper mode.
#[derive(Debug, Clone, Copy, PartialEq, Eq, Structural)]
pub enum BgMode {
    Center,
    Tile,
    Stretch,
    Fit,
    Fill,
}

pub open spec fn bg_mode_token(m: BgMode) -> Seq<char> {
    match m {
        BgMode::Center => "center"@,
        BgMode::Tile => "tile"@,
        BgMode::Stretch => "stretch"@,
        BgMode::Fit => "fit"@,
        BgMode::Fill => "fill"@,
    }
}

impl BgMode {
    /// The `swaybg -m` argument.
    pub fn swaybg(self) -> (t: &'static str)
        ensures
            t@ == bg_mode_token(self),
    {
        match self {
            BgMode::Center => "center",
            BgMode::Tile => "tile",
            BgMode::Stretch => "stretch",
            BgMode::Fit => "fit",
            BgMode::Fill => "fill",
        }
    }
}

// --- title bar and GTK settings --------------------------------------------------------

/// The window-frame title colors (background, text) of a theme and mode.
pub open spec fn appearance_title_spec(t: Theme, m: ThemeMode) -> (Seq<char>, Seq<char>) {
    match (t, m) {
        (Theme::Carbon, ThemeMode::Dark) => ("#161616"@, "#f4f4f4"@),
        (Theme::Carbon, ThemeMode::Light) => ("#ffffff"@, "#161616"@),
        (Theme::Win2000, _) => ("#0a246a"@, "#ffffff"@),
        (Theme::Windows10, ThemeMode::Dark) => ("#1f1f1f"@, "#ffffff"@),
        (Theme::Windows10, ThemeMode::Light) => ("#ffffff"@, "#1f1f1f"@),
    }
}

/// The window-frame title colors of a theme and mode.
pub fn appearance_title_colors(t: Theme, m: ThemeMode) -> (c: (&'static str, &'static str))
    ensures
        (c.0@, c.1@) == appearance_title_spec(t, m),
{
    match (t, m) {
        (Theme::Carbon, ThemeMode::Dark) => ("#161616", "#f4f4f4"),
        (Theme::Carbon, ThemeMode::Light) => ("#ffffff", "#161616"),
        (Theme::Win2000, _) => ("#0a246a", "#ffffff"),
        (Theme::Windows10, ThemeMode::Dark) => ("#1f1f1f", "#ffffff"),
        (Theme::Windows10, ThemeMode::Light) => ("#ffffff", "#1f1f1f"),
    }
}

/// The title colors of an icon set: the BeOS yellow tab with black text, or
/// the Windows 2000 navy with white text.
pub fn set_labwc_title(beos: bool) -> (c: (&'static str, &'static str))
    ensures
        (c.0@, c.1@) == if beos { ("#ffd700"@, "#000000"@) } else { ("#0a246a"@, "#ffffff"@) },
{
    if beos { ("#ffd700", "#000000") } else { ("#0a246a", "#ffffff") }
}

/// One themerc line with the active title colors written in, ended with a
/// line break.
pub open spec fn title_line(l: Seq<char>, bg: Seq<char>, fg: Seq<char>) -> Seq<char> {
    let t = trim_start(l);
    if starts_with(t, "window.active.title.bg.color:"@) {
        "window.active.title.bg.color: "@ + bg + "\n"@
    } else if starts_with(t, "window.active.label.text.color:"@) {
        "window.active.label.text.color: "@ + fg + "\n"@
    } else {
        l + "\n"@
    }
}

pub open spec fn title_lines(ls: Seq<Seq<char>>, bg: Seq<char>, fg: Seq<char>) -> Seq<char>
    decreases ls.len(),
{
    if ls.len() == 0 { seq![] } else { title_lines(ls.drop_last(), bg, fg) + title_line(ls.last(), bg, fg) }
}

/// The labwc themerc with the active title background and text colors
/// replaced.
pub fn title_colors_themerc(text: &str, bg: &str, fg: &str) -> (out: String)
    ensures
        out@ == title_lines(lines(text@), bg@, fg@),
{
    let v = chars_of(text);
    let ls = lines_of(&v);
    let mut out = String::new();
    let mut i: usize = 0;
    assert(views(ls@).take(0) =~= Seq::<Seq<char>>::empty());
    while i < ls.len()
        invariant
            i <= ls.len(),
            views(ls@) == lines(text@),
            out@ == title_lines(views(ls@).take(i as int), bg@, fg@),
        decreases ls.len() - i,
    {
        assert(views(ls@).take(i + 1).drop_last() =~= views(ls@).take(i as int));
        assert(views(ls@).take(i + 1).last() == ls@[i as int]@);
        let t = trim_start_chars(&ls[i]);
        let ghost before = out@;
        if begins(&t, "window.active.title.bg.color:") {
            push_str(&mut out, "window.active.title.bg.color: ");
            push_str(&mut out, bg);
            push_str(&mut out, "\n");
        } else if begins(&t, "window.active.label.text.color:") {
            push_str(&mut out, "window.active.label.text.color: ");
            push_str(&mut out, fg);
            push_str(&mut out, "\n");
        } else {
            push_str(&mut out, string_of(&ls[i]).as_str());
            push_str(&mut out, "\n");
        }
        assert(out@ =~= before + title_line(ls@[i as int]@, bg@, fg@));
        i += 1;
    }
    assert(views(ls@).take(ls.len() as int) =~= views(ls@));
    out
}

/// A settings.ini line that sets `key` (the key, then `=` after optional
/// blanks).
pub open spec fn sets_gtk_key(l: Seq<char>, key: Seq<char>) -> bool {
    let t = trim_start(l);
    starts_with(t, key) && starts_with(trim_start(t.skip(key.len() as int)), "="@)
}

/// The position just after the first `[Settings]` header line (0 when none).
pub open spec fn after_header(ls: Seq<Seq<char>>) -> int {
    if exists|i: int| 0 <= i < ls.len() && starts_with(trim_start(ls[i]), "[Settings]"@) {
        (choose|i: int| 0 <= i < ls.len() && starts_with(trim_start(ls[i]), "[Settings]"@)
            && forall|j: int| 0 <= j < i ==> !starts_with(trim_start(#[trigger] ls[j]), "[Settings]"@)) + 1
    } else {
        0
    }
}

/// A GTK settings.ini with `key` set to `value` (or removed): every line
/// setting `key` dropped, a `[Settings]` header added on top when there is
/// none, and `key = value` inserted right after the first header; lines
/// rejoined with `\n` and ended with one.
pub open spec fn gtk_settings_spec(existing: Seq<char>, key: Seq<char>, value: Option<Seq<char>>) -> Seq<char> {
    let ls = lines(existing);
    let has_header = exists|i: int| 0 <= i < ls.len() && starts_with(trim_start(ls[i]), "[Settings]"@);
    let kept = ls.filter(|l: Seq<char>| !sets_gtk_key(l, key));
    let with_header = if has_header { kept } else { seq!["[Settings]"@] + kept };
    let out = match value {
        Some(v) => with_header.insert(after_header(with_header), key + " = "@ + v),
        None => with_header,
    };
    join(out, "\n"@) + "\n"@
}

proof fn lemma_after_header_is(ls: Seq<Seq<char>>, i: int)
    requires
        0 <= i < ls.len(),
        starts_with(trim_start(ls[i]), "[Settings]"@),
        forall|j: int| 0 <= j < i ==> !starts_with(trim_start(#[trigger] ls[j]), "[Settings]"@),
    ensures
        after_header(ls) == i + 1,
{
    let c = choose|c: int| 0 <= c < ls.len() && starts_with(trim_start(ls[c]), "[Settings]"@)
        && forall|j: int| 0 <= j < c ==> !starts_with(trim_start(#[trigger] ls[j]), "[Settings]"@);
    assert(0 <= c < ls.len() && starts_with(trim_start(ls[c]), "[Settings]"@));
    if c < i {
        assert(!starts_with(trim_start(ls[c]), "[Settings]"@));
    } else if i < c {
        assert(!starts_with(trim_start(ls[i]), "[Settings]"@));
    }
}

fn is_header(l: &Vec<char>) -> (b: bool)
    ensures
        b == starts_with(trim_start(l@), "[Settings]"@),
{
    let t = trim_start_chars(l);
    begins(&t, "[Settings]")
}

/// The lines that do not set `key`, and whether some line is a
/// `[Settings]` header.
fn drop_key_lines(ls: &Vec<Vec<char>>, kv: &Vec<char>) -> (r: (Vec<Vec<char>>, bool))
    ensures
        views(r.0@) == views(ls@).filter(|l: Seq<char>| !sets_gtk_key(l, kv@)),
        r.1 == exists|k: int| 0 <= k < ls@.len() && starts_with(trim_start(#[trigger] views(ls@)[k]), "[Settings]"@),
{
    let mut kept: Vec<Vec<char>> = Vec::new();
    let mut has_header = false;
    let mut i: usize = 0;
    proof {
        reveal(Seq::filter);
    }
    assert(views(ls@).take(0) =~= Seq::<Seq<char>>::empty());
    while i < ls.len()
        invariant
            i <= ls.len(),
            views(kept@) == views(ls@).take(i as int).filter(|l: Seq<char>| !sets_gtk_key(l, kv@)),
            has_header == exists|k: int| 0 <= k < i && starts_with(trim_start(#[trigger] views(ls@)[k]), "[Settings]"@),
        decreases ls.len() - i,
    {
        proof {
            reveal(Seq::filter);
        }
        assert(views(ls@).take(i + 1).drop_last() =~= views(ls@).take(i as int));
        assert(views(ls@).take(i + 1).last() == ls@[i as int]@);
        assert(views(ls@)[i as int] == ls@[i as int]@);
        if is_header(&ls[i]) {
            has_header = true;
        }
        let t = trim_start_chars(&ls[i]);
        let drop = if crate::text::starts_with_chars(&t, kv) {
            let rest = crate::text::slice_chars(&t, kv.len(), t.len());
            assert(rest@ =~= t@.skip(kv@.len() as int));
            let rt = trim_start_chars(&rest);
            begins(&rt, "=")
        } else {
            false
        };
        assert(drop == sets_gtk_key(ls@[i as int]@, kv@));
        if !drop {
            let ghost before = views(kept@);
            kept.push(crate::text::slice_chars(&ls[i], 0, ls[i].len()));
            assert(ls@[i as int]@.subrange(0, ls@[i as int]@.len() as int) =~= ls@[i as int]@);
            assert(views(kept@) =~= before.push(ls@[i as int]@));
        }
        i += 1;
    }
    assert(views(ls@).take(ls.len() as int) =~= views(ls@));
    (kept, has_header)
}

/// The position just after the first `[Settings]` header line (0 when none).
fn header_end(kept: &Vec<Vec<char>>) -> (pos: usize)
    ensures
        pos == after_header(views(kept@)),
        pos <= kept.len(),
{
    let mut j: usize = 0;
    while j < kept.len()
        invariant
            j <= kept.len(),
            forall|k: int| 0 <= k < j ==> !starts_with(trim_start(#[trigger] views(kept@)[k]), "[Settings]"@),
        ensures
            j <= kept.len(),
            forall|k: int| 0 <= k < j ==> !starts_with(trim_start(#[trigger] views(kept@)[k]), "[Settings]"@),
            j < kept.len() ==> starts_with(trim_start(views(kept@)[j as int]), "[Settings]"@),
        decreases kept.len() - j,
    {
        assert(views(kept@)[j as int] == kept@[j as int]@);
        if is_header(&kept[j]) {
            break;
        }
        j += 1;
    }
    proof {
        if j < kept.len() {
            lemma_after_header_is(views(kept@), j as int);
        }
    }
    if j < kept.len() { j + 1 } else { 0 }
}

/// The line `key = value`.
fn setting_line(kv: &Vec<char>, val: &str) -> (line: Vec<char>)
    ensures
        line@ == kv@ + " = "@ + val@,
{
    let mut line = crate::text::slice_chars(kv, 0, kv.len());
    assert(kv@.subrange(0, kv@.len() as int) =~= kv@);
    let ghost k0 = line@;
    let eq = chars_of(" = ");
    let vv = chars_of(val);
    let mut a: usize = 0;
    while a < eq.len()
        invariant
            a <= eq.len(),
            line@ == k0 + eq@.take(a as int),
        decreases eq.len() - a,
    {
        line.push(eq[a]);
        assert(eq@.take(a + 1) =~= eq@.take(a as int).push(eq@[a as int]));
        a += 1;
    }
    assert(eq@.take(eq.len() as int) =~= eq@);
    let ghost k1 = line@;
    let mut b: usize = 0;
    while b < vv.len()
        invariant
            b <= vv.len(),
            line@ == k1 + vv@.take(b as int),
        decreases vv.len() - b,
    {
        line.push(vv[b]);
        assert(vv@.take(b + 1) =~= vv@.take(b as int).push(vv@[b as int]));
        b += 1;
    }
    assert(vv@.take(vv.len() as int) =~= vv@);
    line
}

/// Set (`Some`) or remove (`None`) a key in a GTK settings.ini body.
#[verifier::spinoff_prover]
pub fn rewrite_gtk_settings(existing: &str, key: &str, value: Option<&str>) -> (out: String)
    ensures
        out@ == gtk_settings_spec(existing@, key@, match value { Some(v) => Some(v@), None => None }),
{
    let v = chars_of(existing);
    let ls = lines_of(&v);
    let kv = chars_of(key);
    let (mut kept, has_header) = drop_key_lines(&ls, &kv);
    let ghost lsv = lines(existing@);
    let ghost wh = if has_header { views(kept@) } else { seq!["[Settings]"@] + views(kept@) };
    assert(views(ls@) == lsv);
    assert(has_header == exists|k: int| 0 <= k < lsv.len() && starts_with(trim_start(lsv[k]), "[Settings]"@));
    if !has_header {
        let ghost before = views(kept@);
        kept.insert(0, chars_of("[Settings]"));
        assert(views(kept@) =~= seq!["[Settings]"@] + before);
    }
    assert(views(kept@) == wh);
    let ghost vv: Option<Seq<char>> = match value { Some(x) => Some(x@), None => None };
    let ghost outv = match vv { Some(x) => wh.insert(after_header(wh), key@ + " = "@ + x), None => wh };
    match value {
        Some(val) => {
            let pos = header_end(&kept);
            let line = setting_line(&kv, val);
            let ghost before = views(kept@);
            kept.insert(pos, line);
            assert(views(kept@) =~= before.insert(pos as int, key@ + " = "@ + val@));
        }
        None => {}
    }
    assert(views(kept@) == outv);
    let mut r = join_chars(&kept, "\n");
    r.push('\n');
    proof {
        reveal_strlit("\n");
    }
    assert(r@ =~= join(outv, "\n"@) + "\n"@);
    string_of(&r)
}

// --- geometry ---------------------------------------------------------------------------

/// `a / b` rounded to nearest, halves away from zero (`b > 0`).
pub open spec fn div_round(a: int, b: int) -> int {
    if a >= 0 { (2 * a + b) / (2 * b) } else { -((2 * (-a) + b) / (2 * b)) }
}

/// A value saturated into `i32`, as an `as i32` cast of a float does.
pub open spec fn sat_i32(v: int) -> int {
    if v < i32::MIN { i32::MIN as int } else if v > i32::MAX { i32::MAX as int } else { v }
}

/// Logical (x, y, w, h) of a desired output: width and height swapped when
/// rotated a quarter turn, then divided by the scale (hundredths) when it is
/// positive.
pub open spec fn logical_rect_spec(d: DesiredOutput) -> (int, int, int, int) {
    let rotated = d.transform@ == "90"@ || d.transform@ == "270"@;
    let (w, h) = if rotated { (d.height as int, d.width as int) } else { (d.width as int, d.height as int) };
    if d.scale > 0 {
        (d.x as int, d.y as int, sat_i32(div_round(w * 100, d.scale as int)), sat_i32(div_round(h * 100, d.scale as int)))
    } else {
        (d.x as int, d.y as int, w, h)
    }
}

fn scaled(v: i32, scale: u32) -> (r: i32)
    requires
        scale > 0,
    ensures
        r == sat_i32(div_round(v * 100, scale as int)),
{
    let a = v as i128 * 100;
    let b = scale as i128;
    let q: i128 = if a >= 0 { (2 * a + b) / (2 * b) } else { -((2 * (-a) + b) / (2 * b)) };
    if q < i32::MIN as i128 {
        i32::MIN
    } else if q > i32::MAX as i128 {
        i32::MAX
    } else {
        q as i32
    }
}

/// Logical (x, y, w, h) of a desired output.
pub fn logical_rect(d: &DesiredOutput) -> (r: (i32, i32, i32, i32))
    ensures
        (r.0 as int, r.1 as int, r.2 as int, r.3 as int) == logical_rect_spec(*d),
{
    let t = chars_of(d.transform.as_str());
    let rotated = eq_str(&t, "90") || eq_str(&t, "270");
    let (w, h) = if rotated { (d.height, d.width) } else { (d.width, d.height) };
    if d.scale > 0 {
        (d.x, d.y, scaled(w, d.scale), scaled(h, d.scale))
    } else {
        (d.x, d.y, w, h)
    }
}

/// The first focused output, if any.
pub open spec fn primary_of(live: Seq<Output>) -> Option<int> {
    if exists|i: int| 0 <= i < live.len() && live[i].focused {
        Some(choose|i: int| 0 <= i < live.len() && live[i].focused && forall|j: int| 0 <= j < i ==> !(#[trigger] live[j]).focused)
    } else {
        None
    }
}

fn find_primary(live: &Vec<Output>) -> (r: Option<usize>)
    ensures
        match r {
            Some(i) => primary_of(live@) == Some(i as int) && i < live@.len(),
            None => primary_of(live@) is None,
        },
{
    let mut i: usize = 0;
    while i < live.len()
        invariant
            i <= live.len(),
            forall|j: int| 0 <= j < i ==> !(#[trigger] live@[j]).focused,
        decreases live.len() - i,
    {
        if live[i].focused {
            proof {
                let c = choose|c: int| 0 <= c < live@.len() && live@[c].focused && forall|j: int| 0 <= j < c ==> !(#[trigger] live@[j]).focused;
                assert(0 <= c < live@.len() && live@[c].focused);
                if c < i {
                    assert(!live@[c].focused);
                } else if i < c {
                    assert(!live@[i as int].focused);
                }
            }
            return Some(i);
        }
        i += 1;
    }
    None
}

/// Where placement moves the selected output: next to the primary's logical
/// rectangle on the given side.
pub open spec fn placed_at(prim: (int, int, int, int), sel: (int, int, int, int), p: Place) -> (int, int) {
    match p {
        Place::RightOf => (prim.0 + prim.2, prim.1),
        Place::LeftOf => (prim.0 - sel.2, prim.1),
        Place::Above => (prim.0, prim.1 - sel.3),
        Place::Below => (prim.0, prim.1 + prim.3),
    }
}

/// Placement stays inside `i32` (with the primary and selected outputs
/// present in the desired list).
pub open spec fn place_fits(live: Seq<Output>, desired: Seq<DesiredOutput>, selected: int, p: Place) -> bool {
    match primary_of(live) {
        Some(pi) => pi == selected || ({
            &&& 0 <= pi < desired.len() && 0 <= selected < desired.len()
            &&& {
                let (nx, ny) = placed_at(logical_rect_spec(desired[pi]), logical_rect_spec(desired[selected]), p);
                i32::MIN <= nx <= i32::MAX && i32::MIN <= ny <= i32::MAX
            }
        }),
        None => true,
    }
}

// --- the dialog ----------------------------------------------------------------------------

/// Seconds the keep-or-revert prompt waits.
pub const REVERT_SECS: u32 = 15;

/// The Display Properties dialog's state.
pub struct DisplayState {
    pub tab: usize,
    pub live: Vec<Output>,
    pub desired: Vec<DesiredOutput>,
    pub selected: usize,
    /// The geometry to restore on Cancel or revert.
    pub baseline: Vec<DesiredOutput>,
    pub wallpapers: Vec<String>,
    pub wp_selected: Option<usize>,
    pub bg_mode: BgMode,
    pub wait: WaitChoice,
    pub lock: bool,
    pub scheme: Scheme,
    pub icon_set: IconSet,
    pub theme: Theme,
    pub theme_mode: ThemeMode,
    pub icon_color: IconColor,
    /// Flash each output's number in its preview.
    pub identify: bool,
    /// The revert prompt's seconds remaining.
    pub revert: Option<u32>,
    /// Close once the settings are kept.
    pub close_on_keep: bool,
}

/// What the user did.
pub enum DisplayMsg {
    SelectTab(usize),
    SelectOutput(usize),
    SetResolution(i32, i32),
    SetRefresh(i32),
    SetOrient(Orient),
    SetScale(ScaleChoice),
    SetPlace(Place),
    Identify,
    SelectWallpaper(usize),
    SetBgMode(BgMode),
    Browse,
    Browsed(Option<String>),
    SetWait(WaitChoice),
    ToggleLock(bool),
    SetScheme(Scheme),
    SetIconSet(IconSet),
    SetTheme(Theme),
    SetThemeMode(ThemeMode),
    SetIconColor(IconColor),
    Apply,
    OkButton,
    Cancel,
    KeepSettings,
    RevertNow,
    Tick,
}

/// What the shell must do after a message.
#[derive(Debug, Clone, Copy, PartialEq, Eq, Structural)]
pub enum DisplayEffect {
    Nothing,
    /// Ask for a wallpaper file.
    Browse,
    /// Persist and apply the icon set, then restart the shell.
    ApplyIconSet(IconSet),
    /// Persist and apply theme, mode and icon color, then restart the shell.
    ApplyAppearance(Theme, ThemeMode, IconColor),
    /// Install missing backends, then apply the desired state live.
    ApplyLive,
    /// Restore the baseline geometry live, then exit.
    RevertAndExit,
    /// Persist the desired state; exit afterwards when the flag says so.
    Persist(bool),
    /// Restore the baseline geometry live.
    Revert,
}

pub open spec fn outs_view(v: Seq<DesiredOutput>) -> Seq<(Seq<char>, i32, i32, i32, u32, Seq<char>, i32, i32)> {
    v.map_values(|d: DesiredOutput| (d.name@, d.width, d.height, d.refresh_mhz, d.scale, d.transform@, d.x, d.y))
}

/// An exact copy of a desired output list.
pub fn clone_outputs(v: &Vec<DesiredOutput>) -> (r: Vec<DesiredOutput>)
    ensures
        outs_view(r@) == outs_view(v@),
{
    let mut r: Vec<DesiredOutput> = Vec::new();
    let mut i: usize = 0;
    while i < v.len()
        invariant
            i <= v.len(),
            outs_view(r@) == outs_view(v@).take(i as int),
        decreases v.len() - i,
    {
        let d = &v[i];
        let ghost before = outs_view(r@);
        r.push(DesiredOutput { name: d.name.clone(), width: d.width, height: d.height, refresh_mhz: d.refresh_mhz,
            scale: d.scale, transform: d.transform.clone(), x: d.x, y: d.y });
        assert(outs_view(r@) =~= before.push(outs_view(v@)[i as int]));
        assert(outs_view(v@).take(i + 1) =~= outs_view(v@).take(i as int).push(outs_view(v@)[i as int]));
        i += 1;
    }
    assert(outs_view(v@).take(v.len() as int) =~= outs_view(v@));
    r
}

/// The selected output's desired entry after choosing a resolution: the
/// size set, and the refresh snapped to the highest rate the live output
/// offers at that size (kept when it offers none).
pub open spec fn resolution_set(d: DesiredOutput, n: DesiredOutput, w: i32, h: i32, rates: Seq<Mode>) -> bool {
    &&& n.name@ == d.name@ && n.scale == d.scale && n.transform@ == d.transform@ && n.x == d.x && n.y == d.y
    &&& n.width == w && n.height == h
    &&& n.refresh_mhz == if rates.len() > 0 { rates[0].refresh_mhz } else { d.refresh_mhz }
}

/// Only the listed output changed.
pub open spec fn only_changed(a: Seq<DesiredOutput>, b: Seq<DesiredOutput>, k: int) -> bool {
    a.len() == b.len() && forall|i: int| 0 <= i < a.len() && i != k ==> outs_view(a)[i] == outs_view(b)[i]
}

/// The parts of the dialog, for saying what a message leaves alone.
pub enum DPart {
    Tab,
    Desired,
    Selected,
    Baseline,
    /// The wallpaper list and the chosen wallpaper.
    Wallpapers,
    BgMode,
    Wait,
    Lock,
    Scheme,
    IconSet,
    Theme,
    ThemeMode,
    IconColor,
    Identify,
    /// The keep-or-revert countdown and whether keeping closes the dialog.
    Prompt,
}

/// Part `p` of `f` is as it is in `o`.
pub open spec fn same_dpart(o: DisplayState, f: DisplayState, p: DPart) -> bool {
    match p {
        DPart::Tab => f.tab == o.tab,
        DPart::Desired => f.desired@ == o.desired@,
        DPart::Selected => f.selected == o.selected,
        DPart::Baseline => f.baseline@ == o.baseline@,
        DPart::Wallpapers => f.wallpapers@ == o.wallpapers@ && f.wp_selected == o.wp_selected,
        DPart::BgMode => f.bg_mode == o.bg_mode,
        DPart::Wait => f.wait == o.wait,
        DPart::Lock => f.lock == o.lock,
        DPart::Scheme => f.scheme == o.scheme,
        DPart::IconSet => f.icon_set == o.icon_set,
        DPart::Theme => f.theme == o.theme,
        DPart::ThemeMode => f.theme_mode == o.theme_mode,
        DPart::IconColor => f.icon_color == o.icon_color,
        DPart::Identify => f.identify == o.identify,
        DPart::Prompt => f.revert == o.revert && f.close_on_keep == o.close_on_keep,
    }
}

/// The parts message `msg` may change; every other part stays as it was.
pub open spec fn dtouches(msg: DisplayMsg, p: DPart) -> bool {
    match msg {
        DisplayMsg::SelectTab(_) => p is Tab,
        DisplayMsg::SelectOutput(_) => p is Selected,
        DisplayMsg::SetResolution(..) | DisplayMsg::SetRefresh(_) | DisplayMsg::SetOrient(_) | DisplayMsg::SetScale(_)
            | DisplayMsg::SetPlace(_) => p is Desired,
        DisplayMsg::Identify => p is Identify,
        DisplayMsg::SelectWallpaper(_) | DisplayMsg::Browsed(_) => p is Wallpapers,
        DisplayMsg::SetBgMode(_) => p is BgMode,
        DisplayMsg::Browse | DisplayMsg::Cancel => false,
        DisplayMsg::SetWait(_) => p is Wait,
        DisplayMsg::ToggleLock(_) => p is Lock,
        DisplayMsg::SetScheme(_) => p is Scheme,
        DisplayMsg::SetIconSet(_) => p is IconSet,
        DisplayMsg::SetTheme(_) => p is Theme,
        DisplayMsg::SetThemeMode(_) => p is ThemeMode,
        DisplayMsg::SetIconColor(_) => p is IconColor,
        DisplayMsg::Apply | DisplayMsg::OkButton => p is Prompt,
        DisplayMsg::KeepSettings => p is Baseline || p is Prompt,
        DisplayMsg::RevertNow | DisplayMsg::Tick => p is Desired || p is Prompt,
    }
}

/// Every part that `msg` does not touch is as it was.
pub open spec fn display_frame(o: DisplayState, msg: DisplayMsg, f: DisplayState) -> bool {
    forall|p: DPart| !dtouches(msg, p) ==> #[trigger] same_dpart(o, f, p)
}

/// The dialog after one message, and what the shell must do next.
pub open spec fn display_step(o: DisplayState, msg: DisplayMsg, f: DisplayState, eff: DisplayEffect) -> bool {
    match msg {
        DisplayMsg::SelectTab(i) => eff is Nothing && f.tab == i,
        DisplayMsg::SelectOutput(i) => eff is Nothing
            && f.selected == if i < o.desired@.len() { i } else { o.selected },
        DisplayMsg::SetResolution(w, h) => {
            &&& eff is Nothing
            &&& if o.selected < o.desired@.len() {
                &&& only_changed(o.desired@, f.desired@, o.selected as int)
                &&& exists|rates: Seq<Mode>| resolution_set(o.desired@[o.selected as int],
                    f.desired@[o.selected as int], w, h, rates)
                    && (o.selected < o.live@.len() ==> (rates.len() > 0 <==>
                        exists|m: Mode| o.live@[o.selected as int].modes@.contains(m) && m.width == w && m.height == h))
                    && (o.selected >= o.live@.len() ==> rates.len() == 0)
                    && (rates.len() > 0 ==> forall|m: Mode| #[trigger] o.live@[o.selected as int].modes@.contains(m)
                        && m.width == w && m.height == h ==> m.refresh_mhz <= rates[0].refresh_mhz)
            } else {
                outs_view(f.desired@) == outs_view(o.desired@)
            }
        },
        DisplayMsg::SetRefresh(mhz) => eff is Nothing && if o.selected < o.desired@.len() {
            only_changed(o.desired@, f.desired@, o.selected as int)
                && outs_view(f.desired@)[o.selected as int] == ({
                    let d = outs_view(o.desired@)[o.selected as int];
                    (d.0, d.1, d.2, mhz, d.4, d.5, d.6, d.7)
                })
        } else {
            outs_view(f.desired@) == outs_view(o.desired@)
        },
        DisplayMsg::SetOrient(or) => eff is Nothing && if o.selected < o.desired@.len() {
            only_changed(o.desired@, f.desired@, o.selected as int)
                && outs_view(f.desired@)[o.selected as int] == ({
                    let d = outs_view(o.desired@)[o.selected as int];
                    (d.0, d.1, d.2, d.3, d.4, orient_token(or), d.6, d.7)
                })
        } else {
            outs_view(f.desired@) == outs_view(o.desired@)
        },
        DisplayMsg::SetScale(sc) => eff is Nothing && if o.selected < o.desired@.len() {
            only_changed(o.desired@, f.desired@, o.selected as int)
                && outs_view(f.desired@)[o.selected as int] == ({
                    let d = outs_view(o.desired@)[o.selected as int];
                    (d.0, d.1, d.2, d.3, sc.0, d.5, d.6, d.7)
                })
        } else {
            outs_view(f.desired@) == outs_view(o.desired@)
        },
        DisplayMsg::SetPlace(p) => eff is Nothing && match primary_of(o.live@) {
            Some(pi) => if pi == o.selected {
                outs_view(f.desired@) == outs_view(o.desired@)
            } else {
                let (nx, ny) = placed_at(logical_rect_spec(o.desired@[pi]),
                    logical_rect_spec(o.desired@[o.selected as int]), p);
                &&& only_changed(o.desired@, f.desired@, o.selected as int)
                &&& outs_view(f.desired@)[o.selected as int] == ({
                    let d = outs_view(o.desired@)[o.selected as int];
                    (d.0, d.1, d.2, d.3, d.4, d.5, nx as i32, ny as i32)
                })
            },
            None => outs_view(f.desired@) == outs_view(o.desired@),
        },
        DisplayMsg::Identify => eff is Nothing && f.identify == !o.identify,
        DisplayMsg::SelectWallpaper(i) => eff is Nothing && f.wp_selected == Some(i),
        DisplayMsg::SetBgMode(m) => eff is Nothing && f.bg_mode == m,
        DisplayMsg::Browse => eff is Browse,
        DisplayMsg::Browsed(Some(path)) => {
            &&& eff is Nothing
            &&& f.wallpapers@.len() == o.wallpapers@.len() + 1
            &&& f.wallpapers@.last()@ == path@
            &&& forall|i: int| 0 <= i < o.wallpapers@.len() ==> f.wallpapers@[i]@ == o.wallpapers@[i]@
            &&& f.wp_selected == Some((f.wallpapers@.len() - 1) as usize)
        },
        DisplayMsg::Browsed(None) => eff is Nothing && f.wp_selected == o.wp_selected,
        DisplayMsg::SetWait(w) => eff is Nothing && f.wait == w,
        DisplayMsg::ToggleLock(b) => eff is Nothing && f.lock == b,
        DisplayMsg::SetScheme(sc) => eff is Nothing && f.scheme == sc,
        DisplayMsg::SetIconSet(set) => eff == DisplayEffect::ApplyIconSet(set) && f.icon_set == set,
        DisplayMsg::SetTheme(t) => f.theme == t
            && eff == DisplayEffect::ApplyAppearance(t, o.theme_mode, o.icon_color),
        DisplayMsg::SetThemeMode(m) => f.theme_mode == m
            && eff == DisplayEffect::ApplyAppearance(o.theme, m, o.icon_color),
        DisplayMsg::SetIconColor(c) => f.icon_color == c
            && eff == DisplayEffect::ApplyAppearance(o.theme, o.theme_mode, c),
        DisplayMsg::Apply => eff is ApplyLive && f.revert == Some(REVERT_SECS) && !f.close_on_keep
            && outs_view(f.desired@) == outs_view(o.desired@),
        DisplayMsg::OkButton => eff is ApplyLive && f.revert == Some(REVERT_SECS) && f.close_on_keep
            && outs_view(f.desired@) == outs_view(o.desired@),
        DisplayMsg::Cancel => eff is RevertAndExit && outs_view(f.baseline@) == outs_view(o.baseline@),
        DisplayMsg::KeepSettings => {
            &&& eff == DisplayEffect::Persist(o.close_on_keep)
            &&& outs_view(f.baseline@) == outs_view(o.desired@)
            &&& outs_view(f.desired@) == outs_view(o.desired@)
            &&& f.revert is None
        },
        DisplayMsg::RevertNow => {
            &&& eff is Revert
            &&& outs_view(f.desired@) == outs_view(o.baseline@)
            &&& outs_view(f.baseline@) == outs_view(o.baseline@)
            &&& f.revert is None && !f.close_on_keep
        },
        DisplayMsg::Tick => match o.revert {
            Some(n) => if n <= 1 {
                &&& eff is Revert
                &&& outs_view(f.desired@) == outs_view(o.baseline@)
                &&& outs_view(f.baseline@) == outs_view(o.baseline@)
                &&& f.revert is None && !f.close_on_keep
            } else {
                eff is Nothing && f.revert == Some((n - 1) as u32)
                    && outs_view(f.desired@) == outs_view(o.desired@)
            },
            None => eff is Nothing && f.revert is None && outs_view(f.desired@) == outs_view(o.desired@),
        },
    }
}

/// The messages that pick an output or change its geometry.
pub open spec fn geometry_msg(msg: DisplayMsg) -> bool {
    msg is SelectOutput
        || msg is SetResolution
        || msg is SetRefresh
        || msg is SetOrient
        || msg is SetScale
        || msg is SetPlace
}

/// Picking an output and changing its geometry.
#[verifier::spinoff_prover]
fn handle_geometry(state: &mut DisplayState, msg: DisplayMsg) -> (eff: DisplayEffect)
    requires
        msg matches DisplayMsg::SetPlace(p) ==> place_fits(old(state).live@, old(state).desired@,
            old(state).selected as int, p),
        geometry_msg(msg),
    ensures
        final(state).live@ == old(state).live@,
        display_frame(*old(state), msg, *final(state)),
        display_step(*old(state), msg, *final(state), eff),
{
    match msg {
        DisplayMsg::SelectOutput(i) => {
            if i < state.desired.len() {
                state.selected = i;
            }
            DisplayEffect::Nothing
        }
        DisplayMsg::SetResolution(w, h) => {
            let sel = state.selected;
            if sel < state.desired.len() {
                let ghost o = state.desired@;
                let rates: Vec<Mode> = if sel < state.live.len() {
                    state.live[sel].refreshes_at(w, h)
                } else {
                    Vec::new()
                };
                let mut d = state.desired.remove(sel);
                d.width = w;
                d.height = h;
                if rates.len() > 0 {
                    d.refresh_mhz = rates[0].refresh_mhz;
                }
                state.desired.insert(sel, d);
                proof {
                    assert(state.desired@ =~= o.update(sel as int, state.desired@[sel as int]));
                    assert forall|i: int| 0 <= i < o.len() && i != sel implies outs_view(o)[i] == outs_view(state.desired@)[i] by {
                        assert(state.desired@[i] == o[i]);
                    }
                    if sel < state.live@.len() {
                        let lm = state.live@[sel as int].modes@;
                        if exists|m: Mode| lm.contains(m) && m.width == w && m.height == h {
                            let m = choose|m: Mode| lm.contains(m) && m.width == w && m.height == h;
                            assert(has_refresh(rates@, m.refresh_mhz));
                        }
                        if rates@.len() > 0 {
                            assert(lm.contains(rates@[0]));
                            assert forall|m: Mode| #[trigger] lm.contains(m) && m.width == w && m.height == h
                                implies m.refresh_mhz <= rates@[0].refresh_mhz by {
                                assert(has_refresh(rates@, m.refresh_mhz));
                                let x = choose|x: int| 0 <= x < rates@.len() && rates@[x].refresh_mhz == m.refresh_mhz;
                                if x > 0 {
                                    assert(rates@[0].refresh_mhz > rates@[x].refresh_mhz);
                                }
                            }
                        }
                    }
                    assert(resolution_set(o[sel as int], state.desired@[sel as int], w, h, rates@));
                }
            }
            DisplayEffect::Nothing
        }
        DisplayMsg::SetRefresh(mhz) => {
            let sel = state.selected;
            if sel < state.desired.len() {
                let ghost o = state.desired@;
                let mut d = state.desired.remove(sel);
                d.refresh_mhz = mhz;
                state.desired.insert(sel, d);
                proof {
                    assert(state.desired@ =~= o.update(sel as int, state.desired@[sel as int]));
                    assert forall|i: int| 0 <= i < o.len() && i != sel implies outs_view(o)[i] == outs_view(state.desired@)[i] by {
                        assert(state.desired@[i] == o[i]);
                    }
                }
            }
            DisplayEffect::Nothing
        }
        DisplayMsg::SetOrient(or) => {
            let sel = state.selected;
            if sel < state.desired.len() {
                let ghost o = state.desired@;
                let mut d = state.desired.remove(sel);
                d.transform = or.token().to_owned();
                state.desired.insert(sel, d);
                proof {
                    assert(state.desired@ =~= o.update(sel as int, state.desired@[sel as int]));
                    assert forall|i: int| 0 <= i < o.len() && i != sel implies outs_view(o)[i] == outs_view(state.desired@)[i] by {
                        assert(state.desired@[i] == o[i]);
                    }
                }
            }
            DisplayEffect::Nothing
        }
        DisplayMsg::SetScale(sc) => {
            let sel = state.selected;
            if sel < state.desired.len() {
                let ghost o = state.desired@;
                let mut d = state.desired.remove(sel);
                d.scale = sc.0;
                state.desired.insert(sel, d);
                proof {
                    assert(state.desired@ =~= o.update(sel as int, state.desired@[sel as int]));
                    assert forall|i: int| 0 <= i < o.len() && i != sel implies outs_view(o)[i] == outs_view(state.desired@)[i] by {
                        assert(state.desired@[i] == o[i]);
                    }
                }
            }
            DisplayEffect::Nothing
        }
        DisplayMsg::SetPlace(p) => {
            match find_primary(&state.live) {
                Some(pi) => {
                    if pi != state.selected {
                        let sel = state.selected;
                        let ghost o = state.desired@;
                        let (px, py, pw, ph) = logical_rect(&state.desired[pi]);
                        let (_sx, _sy, sw, sh) = logical_rect(&state.desired[sel]);
                        let (nx, ny): (i32, i32) = match p {
                            Place::RightOf => (px + pw, py),
                            Place::LeftOf => (px - sw, py),
                            Place::Above => (px, py - sh),
                            Place::Below => (px, py + ph),
                        };
                        let mut d = state.desired.remove(sel);
                        d.x = nx;
                        d.y = ny;
                        state.desired.insert(sel, d);
                        proof {
                            assert(state.desired@ =~= o.update(sel as int, state.desired@[sel as int]));
                            assert forall|i: int| 0 <= i < o.len() && i != sel implies outs_view(o)[i] == outs_view(state.desired@)[i] by {
                                assert(state.desired@[i] == o[i]);
                            }
                        }
                    }
                }
                None => {}
            }
            DisplayEffect::Nothing
        }
        _ => DisplayEffect::Nothing,
    }
}

/// The messages of the keep-or-revert prompt and the dialog's buttons.
pub open spec fn prompt_msg(msg: DisplayMsg) -> bool {
    msg is Apply
        || msg is OkButton
        || msg is Cancel
        || msg is KeepSettings
        || msg is RevertNow
        || msg is Tick
}

/// The tabs, the wallpaper, the screen saver and the look.
#[verifier::spinoff_prover]
fn handle_look(state: &mut DisplayState, msg: DisplayMsg) -> (eff: DisplayEffect)
    requires
        !geometry_msg(msg),
        !prompt_msg(msg),
    ensures
        final(state).live@ == old(state).live@,
        display_frame(*old(state), msg, *final(state)),
        display_step(*old(state), msg, *final(state), eff),
{
    match msg {
        DisplayMsg::SelectTab(i) => {
            state.tab = i;
            DisplayEffect::Nothing
        }
        DisplayMsg::Identify => {
            state.identify = !state.identify;
            DisplayEffect::Nothing
        }
        DisplayMsg::SelectWallpaper(i) => {
            state.wp_selected = Some(i);
            DisplayEffect::Nothing
        }
        DisplayMsg::SetBgMode(m) => {
            state.bg_mode = m;
            DisplayEffect::Nothing
        }
        DisplayMsg::Browse => DisplayEffect::Browse,
        DisplayMsg::Browsed(Some(path)) => {
            state.wallpapers.push(path);
            state.wp_selected = Some(state.wallpapers.len() - 1);
            DisplayEffect::Nothing
        }
        DisplayMsg::Browsed(None) => DisplayEffect::Nothing,
        DisplayMsg::SetWait(w) => {
            state.wait = w;
            DisplayEffect::Nothing
        }
        DisplayMsg::ToggleLock(b) => {
            state.lock = b;
            DisplayEffect::Nothing
        }
        DisplayMsg::SetScheme(sc) => {
            state.scheme = sc;
            DisplayEffect::Nothing
        }
        DisplayMsg::SetIconSet(set) => {
            state.icon_set = set;
            DisplayEffect::ApplyIconSet(set)
        }
        DisplayMsg::SetTheme(t) => {
            state.theme = t;
            DisplayEffect::ApplyAppearance(state.theme, state.theme_mode, state.icon_color)
        }
        DisplayMsg::SetThemeMode(m) => {
            state.theme_mode = m;
            DisplayEffect::ApplyAppearance(state.theme, state.theme_mode, state.icon_color)
        }
        DisplayMsg::SetIconColor(c) => {
            state.icon_color = c;
            DisplayEffect::ApplyAppearance(state.theme, state.theme_mode, state.icon_color)
        }
        _ => DisplayEffect::Nothing,
    }
}

/// The dialog's buttons and the keep-or-revert prompt.
#[verifier::spinoff_prover]
fn handle_prompt(state: &mut DisplayState, msg: DisplayMsg) -> (eff: DisplayEffect)
    requires
        prompt_msg(msg),
    ensures
        final(state).live@ == old(state).live@,
        display_frame(*old(state), msg, *final(state)),
        display_step(*old(state), msg, *final(state), eff),
{
    match msg {
        DisplayMsg::Apply => {
            state.revert = Some(REVERT_SECS);
            state.close_on_keep = false;
            DisplayEffect::ApplyLive
        }
        DisplayMsg::OkButton => {
            state.revert = Some(REVERT_SECS);
            state.close_on_keep = true;
            DisplayEffect::ApplyLive
        }
        DisplayMsg::Cancel => DisplayEffect::RevertAndExit,
        DisplayMsg::KeepSettings => {
            state.baseline = clone_outputs(&state.desired);
            state.revert = None;
            DisplayEffect::Persist(state.close_on_keep)
        }
        DisplayMsg::RevertNow => {
            state.desired = clone_outputs(&state.baseline);
            state.revert = None;
            state.close_on_keep = false;
            DisplayEffect::Revert
        }
        DisplayMsg::Tick => {
            match state.revert {
                Some(n) => {
                    if n <= 1 {
                        state.desired = clone_outputs(&state.baseline);
                        state.revert = None;
                        state.close_on_keep = false;
                        DisplayEffect::Revert
                    } else {
                        state.revert = Some(n - 1);
                        DisplayEffect::Nothing
                    }
                }
                None => DisplayEffect::Nothing,
            }
        }
        _ => DisplayEffect::Nothing,
    }
}

/// The dialog's reaction to one message.
pub fn handle_display(state: &mut DisplayState, msg: DisplayMsg) -> (eff: DisplayEffect)
    requires
        msg matches DisplayMsg::SetPlace(p) ==> place_fits(old(state).live@, old(state).desired@,
            old(state).selected as int, p),
    ensures
        final(state).live@ == old(state).live@,
        display_frame(*old(state), msg, *final(state)),
        display_step(*old(state), msg, *final(state), eff),
{
    let geometry = match &msg {
        DisplayMsg::SelectOutput { .. }
            | DisplayMsg::SetResolution { .. }
            | DisplayMsg::SetRefresh { .. }
            | DisplayMsg::SetOrient { .. }
            | DisplayMsg::SetScale { .. }
            | DisplayMsg::SetPlace { .. } => true,
        _ => false,
    };
    let prompt = match &msg {
        DisplayMsg::Apply { .. }
            | DisplayMsg::OkButton { .. }
            | DisplayMsg::Cancel { .. }
            | DisplayMsg::KeepSettings { .. }
            | DisplayMsg::RevertNow { .. }
            | DisplayMsg::Tick { .. } => true,
        _ => false,
    };
    if geometry {
        handle_geometry(state, msg)
    } else if prompt {
        handle_prompt(state, msg)
    } else {
        handle_look(state, msg)
    }
}

/// The full desired state (geometry, wallpaper, saver, scheme) that Apply and
/// Keep act on.
pub fn build_desired(state: &DisplayState) -> (d: Desired)
    ensures
        outs_view(d.outputs@) == outs_view(state.desired@),
        match state.wp_selected {
            Some(i) if i < state.wallpapers@.len() => d.wallpaper matches Some(w)
                && w.path@ == state.wallpapers@[i as int]@ && w.mode@ == bg_mode_token(state.bg_mode),
            _ => d.wallpaper is None,
        },
        d.screensaver matches Some(sv) && sv.minutes == state.wait.0 && sv.lock == state.lock,
        d.scheme matches Some(k) && k@ == scheme_key(state.scheme),
{
    let wallpaper = match state.wp_selected {
        Some(i) => if i < state.wallpapers.len() {
            Some(Wallpaper { path: state.wallpapers[i].clone(), mode: state.bg_mode.swaybg().to_owned() })
        } else {
            None
        },
        None => None,
    };
    Desired {
        outputs: clone_outputs(&state.desired),
        wallpaper,
        screensaver: Some(ScreenSaver { minutes: state.wait.0, lock: state.lock }),
        scheme: Some(state.scheme.key().to_owned()),
    }
}

/// The baseline state a revert restores (only the geometry).
pub fn baseline_desired(state: &DisplayState) -> (d: Desired)
    ensures
        outs_view(d.outputs@) == outs_view(state.baseline@),
        d.wallpaper is None && d.screensaver is None && d.scheme is None,
{
    Desired { outputs: clone_outputs(&state.baseline), wallpaper: None, screensaver: None, scheme: None }
}


/// Placing the selected output next to the primary puts its logical
/// rectangle edge to edge with the primary's on that side, aligned with the
/// primary's top (left of, right of) or left edge (above, below); its size
/// and the primary stay as they were. Holds when the new corner fits in
/// `i32`.
pub proof fn law_place_next_to_primary(o: DisplayState, p: Place, f: DisplayState, eff: DisplayEffect)
    requires
        display_step(o, DisplayMsg::SetPlace(p), f, eff),
        primary_of(o.live@) matches Some(pi) && pi != o.selected && 0 <= pi < o.desired@.len(),
        o.selected < o.desired@.len(),
        ({
            let pr = logical_rect_spec(o.desired@[primary_of(o.live@)->0]);
            let sr = logical_rect_spec(o.desired@[o.selected as int]);
            &&& i32::MIN <= pr.0 + pr.2 <= i32::MAX
            &&& i32::MIN <= pr.0 - sr.2 <= i32::MAX
            &&& i32::MIN <= pr.1 - sr.3 <= i32::MAX
            &&& i32::MIN <= pr.1 + pr.3 <= i32::MAX
        }),
    ensures
        ({
            let pi = primary_of(o.live@)->0;
            let pr = logical_rect_spec(f.desired@[pi]);
            let sr = logical_rect_spec(f.desired@[o.selected as int]);
            let old_sr = logical_rect_spec(o.desired@[o.selected as int]);
            &&& pr == logical_rect_spec(o.desired@[pi])
            &&& sr.2 == old_sr.2 && sr.3 == old_sr.3
            &&& match p {
                Place::RightOf => sr.0 == pr.0 + pr.2 && sr.1 == pr.1,
                Place::LeftOf => sr.0 + sr.2 == pr.0 && sr.1 == pr.1,
                Place::Above => sr.0 == pr.0 && sr.1 + sr.3 == pr.1,
                Place::Below => sr.0 == pr.0 && sr.1 == pr.1 + pr.3,
            }
        }),
{
    let pi = primary_of(o.live@)->0;
    let sel = o.selected as int;
    assert(outs_view(f.desired@)[pi] == outs_view(o.desired@)[pi]);
    let a = f.desired@[pi];
    let b = o.desired@[pi];
    assert(a.width == b.width && a.height == b.height && a.scale == b.scale && a.x == b.x && a.y == b.y
        && a.transform@ == b.transform@);
    let c = f.desired@[sel];
    let d = o.desired@[sel];
    assert(outs_view(f.desired@)[sel] == outs_view(f.desired@)[sel]);
    assert(c.width == d.width && c.height == d.height && c.scale == d.scale && c.transform@ == d.transform@);
}


// --- what setting a GTK key does ----------------------------------------------------------

/// Some line of `ls` is a `[Settings]` header: then `after_header` is just
/// past the first one.
proof fn lemma_first_header(ls: Seq<Seq<char>>, k: int)
    requires
        0 <= k < ls.len(),
        starts_with(trim_start(ls[k]), "[Settings]"@),
    ensures
        1 <= after_header(ls) <= ls.len(),
        starts_with(trim_start(ls[after_header(ls) - 1]), "[Settings]"@),
        forall|j: int| 0 <= j < after_header(ls) - 1 ==> !starts_with(trim_start(#[trigger] ls[j]), "[Settings]"@),
    decreases k,
{
    if exists|j: int| 0 <= j < k && starts_with(trim_start(ls[j]), "[Settings]"@) {
        let j = choose|j: int| 0 <= j < k && starts_with(trim_start(ls[j]), "[Settings]"@);
        lemma_first_header(ls, j);
    } else {
        lemma_after_header_is(ls, k);
    }
}

/// A line starting (after blanks) with `[` sets no key that starts with
/// something else.
proof fn lemma_bracket_sets_nothing(l: Seq<char>, key: Seq<char>)
    requires
        key.len() > 0,
        key[0] != '[',
        trim_start(l).len() > 0,
        trim_start(l)[0] == '[',
    ensures
        !sets_gtk_key(l, key),
{
    let t = trim_start(l);
    if starts_with(t, key) {
        assert(t.subrange(0, key.len() as int)[0] == t[0]);
    }
}

proof fn lemma_setting_line_sets(key: Seq<char>, v: Seq<char>)
    requires
        key.len() > 0,
        !crate::text::is_ws(key[0]),
    ensures
        sets_gtk_key(key + " = "@ + v, key),
{
    reveal_strlit(" = ");
    reveal_strlit("=");
    let kv = key + " = "@ + v;
    assert(trim_start(kv) == kv);
    assert(kv.subrange(0, key.len() as int) =~= key);
    let rest = kv.skip(key.len() as int);
    assert(rest =~= seq![' '] + ("="@ + (seq![' '] + v)));
    assert(rest.drop_first() =~= "="@ + (seq![' '] + v));
    assert(trim_start(rest.drop_first()) == rest.drop_first());
    assert(trim_start(rest) == rest.drop_first());
    assert(rest.drop_first().subrange(0, 1) =~= "="@);
}

/// Setting a key in a GTK settings.ini (text without `\r`): with the key
/// removed, no line sets it and some line is a `[Settings]` header; with a
/// value, the lines are those same lines with `key = value` inserted right
/// after the first header, which makes it the only line setting the key.
/// Holds for a one-line key and value, the key starting with neither a
/// blank nor `[`.
pub proof fn law_gtk_set_key(existing: Seq<char>, key: Seq<char>, v: Seq<char>)
    requires
        crate::lines::free_of(existing, '\r'),
        key.len() > 0,
        !crate::text::is_ws(key[0]),
        key[0] != '[',
        crate::lines::free_of(key, '\n') && crate::lines::free_of(key, '\r'),
        crate::lines::free_of(v, '\n') && crate::lines::free_of(v, '\r'),
    ensures
        ({
            let n = lines(gtk_settings_spec(existing, key, None));
            let sl = lines(gtk_settings_spec(existing, key, Some(v)));
            &&& forall|i: int| 0 <= i < n.len() ==> !sets_gtk_key(#[trigger] n[i], key)
            &&& exists|h: int| {
                &&& 0 <= h < n.len()
                &&& starts_with(trim_start(n[h]), "[Settings]"@)
                &&& forall|j: int| 0 <= j < h ==> !starts_with(trim_start(#[trigger] n[j]), "[Settings]"@)
                &&& sl == n.insert(h + 1, key + " = "@ + v)
                &&& forall|i: int| 0 <= i < sl.len() ==> (sets_gtk_key(#[trigger] sl[i], key) <==> i == h + 1)
            }
        }),
{
    reveal_strlit("\n");
    reveal_strlit("[Settings]");
    reveal_strlit(" = ");
    assert("\n"@ =~= seq!['\n']);
    let hdr = "[Settings]"@;
    let ls = lines(existing);
    crate::lines::lemma_lines_plain(existing);
    let kept = ls.filter(|l: Seq<char>| !sets_gtk_key(l, key));
    let has_header = exists|i: int| 0 <= i < ls.len() && starts_with(trim_start(ls[i]), "[Settings]"@);
    let wh = if has_header { kept } else { seq![hdr] + kept };
    assert(trim_start(hdr) == hdr);
    lemma_bracket_sets_nothing(hdr, key);
    assert forall|i: int| 0 <= i < kept.len() implies !sets_gtk_key(#[trigger] kept[i], key)
        && crate::lines::free_of(kept[i], '\n') && crate::lines::free_of(kept[i], '\r') by {
        ls.lemma_filter_pred(|l: Seq<char>| !sets_gtk_key(l, key), i);
        assert(kept.contains(kept[i]));
        ls.lemma_filter_contains_rev(|l: Seq<char>| !sets_gtk_key(l, key), kept[i]);
        let j = choose|j: int| 0 <= j < ls.len() && ls[j] == kept[i];
        assert(crate::lines::free_of(ls[j], '\n') && crate::lines::free_of(ls[j], '\r'));
    }
    assert forall|i: int| 0 <= i < wh.len() implies !sets_gtk_key(#[trigger] wh[i], key)
        && crate::lines::free_of(wh[i], '\n') && crate::lines::free_of(wh[i], '\r') by {
        if !has_header {
            if i > 0 {
                assert(wh[i] == kept[i - 1]);
            }
        }
    }
    // a header survives
    let mut k: int = 0;
    if has_header {
        let k0 = choose|k0: int| 0 <= k0 < ls.len() && starts_with(trim_start(ls[k0]), "[Settings]"@);
        let t = trim_start(ls[k0]);
        assert(t.subrange(0, 10)[0] == t[0]);
        assert(hdr[0] == '[');
        lemma_bracket_sets_nothing(ls[k0], key);
        ls.lemma_filter_contains(|l: Seq<char>| !sets_gtk_key(l, key), k0);
        k = choose|k1: int| 0 <= k1 < kept.len() && kept[k1] == ls[k0];
        assert(wh[k] == ls[k0]);
    } else {
        assert(wh[0] == hdr);
        assert(hdr.subrange(0, 10) =~= hdr);
    }
    assert(0 <= k < wh.len() && starts_with(trim_start(wh[k]), "[Settings]"@));
    lemma_first_header(wh, k);
    let h = after_header(wh) - 1;
    let kv = key + " = "@ + v;
    let wh2 = wh.insert(h + 1, kv);
    assert(crate::lines::plain_lines(wh));
    crate::lines::lemma_lines_join_nl(wh);
    assert(gtk_settings_spec(existing, key, None) == join(wh, "\n"@) + "\n"@);
    assert(gtk_settings_spec(existing, key, Some(v)) == join(wh2, "\n"@) + "\n"@);
    lemma_setting_line_sets(key, v);
    assert(crate::lines::free_of(kv, '\n') && crate::lines::free_of(kv, '\r')) by {
        assert forall|q: int| 0 <= q < kv.len() implies kv[q] != '\n' && kv[q] != '\r' by {
            if q < key.len() {
                assert(kv[q] == key[q]);
            } else if q < key.len() + 3 {
                assert(kv[q] == " = "@[q - key.len()]);
            } else {
                assert(kv[q] == v[q - key.len() - 3]);
            }
        }
    }
    assert(crate::lines::plain_lines(wh2)) by {
        assert forall|i: int| 0 <= i < wh2.len() implies crate::lines::free_of(#[trigger] wh2[i], '\n')
            && crate::lines::free_of(wh2[i], '\r') by {
            if i < h + 1 {
                assert(wh2[i] == wh[i]);
            } else if i > h + 1 {
                assert(wh2[i] == wh[i - 1]);
            }
        }
    }
    crate::lines::lemma_lines_join_nl(wh2);
    let n = lines(gtk_settings_spec(existing, key, None));
    let sl = lines(gtk_settings_spec(existing, key, Some(v)));
    assert(n == wh);
    assert(sl == wh2);
    assert forall|i: int| 0 <= i < sl.len() implies (sets_gtk_key(#[trigger] sl[i], key) <==> i == h + 1) by {
        if i < h + 1 {
            assert(sl[i] == wh[i]);
        } else if i > h + 1 {
            assert(sl[i] == wh[i - 1]);
        }
    }
    assert(0 <= h < n.len() && starts_with(trim_start(n[h]), "[Settings]"@));
}

} // verus!
