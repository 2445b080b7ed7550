//! The out-of-box setup wizard: its stages and their order, the region and
//! keyboard detection from `$LANG`, the TUI picker's cursor, and the wizard's
//! reaction to each user action.

use vstd::prelude::*;
use crate::text::{chars_of, contains, has, eq_str, push_str, split_char, split_chars, views,
    lower_ascii, lower_ascii_chars, string_of};
use crate::nm::{Conn, conn_view};

verus! {

/// The wizard stages, in order.
#[derive(Debug, Clone, Copy, PartialEq, Eq, Structural)]
pub enum Stage {
    Region,
    Keyboard,
    SecondKeyboard,
    Network,
    Account,
    Pin,
    Privacy,
    YourPhone,
    Personalize,
    Finalize,
}

/// The canonical stage order.
pub open spec fn flow_spec() -> Seq<Stage> {
    seq![Stage::Region, Stage::Keyboard, Stage::SecondKeyboard, Stage::Network, Stage::Account,
        Stage::Pin, Stage::Privacy, Stage::YourPhone, Stage::Personalize, Stage::Finalize]
}

/// The canonical stage order. The live flow is this minus any stage that
/// does not apply (Network when a wired link is up).
pub fn flow() -> (f: Vec<Stage>)
    ensures
        f@ == flow_spec(),
{
    let f = vec![Stage::Region, Stage::Keyboard, Stage::SecondKeyboard, Stage::Network, Stage::Account,
        Stage::Pin, Stage::Privacy, Stage::YourPhone, Stage::Personalize, Stage::Finalize];
    assert(f@ =~= flow_spec());
    f
}

/// The first position of `s` in `flow`.
pub open spec fn position(flow: Seq<Stage>, s: Stage) -> Option<int> {
    if exists|i: int| 0 <= i < flow.len() && flow[i] == s && forall|j: int| 0 <= j < i ==> flow[j] != s {
        Some(choose|i: int| 0 <= i < flow.len() && flow[i] == s && forall|j: int| 0 <= j < i ==> flow[j] != s)
    } else {
        None
    }
}

proof fn lemma_position_is(flow: Seq<Stage>, s: Stage, i: int)
    requires
        0 <= i < flow.len(),
        flow[i] == s,
        forall|j: int| 0 <= j < i ==> flow[j] != s,
    ensures
        position(flow, s) == Some(i),
{
    let c = choose|c: int| 0 <= c < flow.len() && flow[c] == s && forall|j: int| 0 <= j < c ==> flow[j] != s;
    assert(0 <= c < flow.len() && flow[c] == s && forall|j: int| 0 <= j < c ==> flow[j] != s);
    if c < i {
        assert(flow[c] != s);
    } else if i < c {
        assert(flow[i] != s);
    }
}

/// Where `s` is in `flow` (its first occurrence).
fn find_stage(flow: &Vec<Stage>, s: Stage) -> (r: Option<usize>)
    ensures
        match r {
            Some(i) => position(flow@, s) == Some(i as int) && i < flow@.len() && flow@[i as int] == s,
            None => position(flow@, s) is None && !flow@.contains(s),
        },
{
    let mut i: usize = 0;
    while i < flow.len()
        invariant
            i <= flow.len(),
            forall|j: int| 0 <= j < i ==> flow@[j] != s,
        decreases flow.len() - i,
    {
        if flow[i] == s {
            proof {
                lemma_position_is(flow@, s, i as int);
            }
            return Some(i);
        }
        i += 1;
    }
    None
}

/// The stage after `s` in `flow`, if any.
pub open spec fn flow_next_spec(flow: Seq<Stage>, s: Stage) -> Option<Stage> {
    match position(flow, s) {
        Some(i) => if i + 1 < flow.len() { Some(flow[i + 1]) } else { None },
        None => None,
    }
}

/// The stage before `s` in `flow`, if any.
pub open spec fn flow_prev_spec(flow: Seq<Stage>, s: Stage) -> Option<Stage> {
    match position(flow, s) {
        Some(i) => if i >= 1 { Some(flow[i - 1]) } else { None },
        None => None,
    }
}

/// The stage after `s` in `flow`, or `None` at the end.
pub fn flow_next(flow: &Vec<Stage>, s: Stage) -> (r: Option<Stage>)
    ensures
        r == flow_next_spec(flow@, s),
{
    match find_stage(flow, s) {
        Some(i) => if i < flow.len() - 1 { Some(flow[i + 1]) } else { None },
        None => None,
    }
}

/// The stage before `s` in `flow`, or `None` at the start.
pub fn flow_prev(flow: &Vec<Stage>, s: Stage) -> (r: Option<Stage>)
    ensures
        r == flow_prev_spec(flow@, s),
{
    match find_stage(flow, s) {
        Some(i) => if i >= 1 { Some(flow[i - 1]) } else { None },
        None => None,
    }
}

/// No stage occurs twice.
pub open spec fn distinct_stages(flow: Seq<Stage>) -> bool {
    forall|i: int, j: int| 0 <= i < j < flow.len() ==> flow[i] != flow[j]
}

/// In a flow without repeats, stepping forward then back returns to the
/// stage, and stepping back then forward does too.
pub proof fn law_flow_round_trip(flow: Seq<Stage>, s: Stage)
    requires
        distinct_stages(flow),
    ensures
        flow_next_spec(flow, s) matches Some(n) ==> flow_prev_spec(flow, n) == Some(s),
        flow_prev_spec(flow, s) matches Some(p) ==> flow_next_spec(flow, p) == Some(s),
{
    if let Some(i) = position(flow, s) {
        assert(0 <= i < flow.len() && flow[i] == s);
        if i + 1 < flow.len() {
            lemma_position_is(flow, flow[i + 1], i + 1);
        }
        if i >= 1 {
            lemma_position_is(flow, flow[i - 1], i - 1);
        }
    }
}

// --- regions and keyboards ----------------------------------------------------------

/// Region choices: a display country and the locale it sets.
pub open spec fn regions_spec() -> Seq<(Seq<char>, Seq<char>)> {
    seq![("United States"@, "en_US.UTF-8"@), ("United Kingdom"@, "en_GB.UTF-8"@),
        ("Canada"@, "en_CA.UTF-8"@), ("Australia"@, "en_AU.UTF-8"@), ("Germany"@, "de_DE.UTF-8"@),
        ("France"@, "fr_FR.UTF-8"@), ("Spain"@, "es_ES.UTF-8"@), ("Italy"@, "it_IT.UTF-8"@)]
}

/// Region choices: a display country and the locale it sets.
pub fn regions() -> (r: Vec<(&'static str, &'static str)>)
    ensures
        r@.map_values(|p: (&'static str, &'static str)| (p.0@, p.1@)) == regions_spec(),
{
    let r = vec![("United States", "en_US.UTF-8"), ("United Kingdom", "en_GB.UTF-8"),
        ("Canada", "en_CA.UTF-8"), ("Australia", "en_AU.UTF-8"), ("Germany", "de_DE.UTF-8"),
        ("France", "fr_FR.UTF-8"), ("Spain", "es_ES.UTF-8"), ("Italy", "it_IT.UTF-8")];
    assert(r@.map_values(|p: (&'static str, &'static str)| (p.0@, p.1@)) =~= regions_spec());
    r
}

/// The part of `s` before the first `c`.
pub open spec fn head_before(s: Seq<char>, c: char) -> Seq<char> {
    split_char(s, c)[0]
}

/// The region whose locale (up to its `.`) is the non-empty head of `$LANG`
/// (up to its `.`); the United States when none is.
pub open spec fn detected_region_spec(lang: Seq<char>) -> int {
    let head = head_before(lang, '.');
    let regs = regions_spec();
    if exists|i: int| 0 <= i < regs.len() && head.len() > 0 && head_before(regs[i].1, '.') == head {
        choose|i: int| 0 <= i < regs.len() && head.len() > 0 && head_before(regs[i].1, '.') == head
            && forall|j: int| 0 <= j < i ==> head_before(regs[j].1, '.') != head
    } else {
        0
    }
}

fn head_chars(s: &Vec<char>, c: char) -> (h: Vec<char>)
    ensures
        h@ == head_before(s@, c),
{
    let parts = split_chars(s, c);
    assert(views(parts@)[0] == parts@[0]@);
    crate::text::slice_chars(&parts[0], 0, parts[0].len())
}

/// Index of the region matching `$LANG`, else the United States (0).
pub fn detected_region(lang: &str) -> (r: usize)
    ensures
        r == detected_region_spec(lang@),
        r < regions_spec().len(),
{
    let l = chars_of(lang);
    let head = head_chars(&l, '.');
    let regs = regions();
    let ghost rv = regs@.map_values(|p: (&'static str, &'static str)| (p.0@, p.1@));
    assert(rv.len() == 8);
    let mut i: usize = 0;
    while i < regs.len()
        invariant
            i <= regs.len(),
            regs@.len() == 8,
            rv == regions_spec(),
            rv == regs@.map_values(|p: (&'static str, &'static str)| (p.0@, p.1@)),
            head@ == head_before(lang@, '.'),
            head@.len() > 0 ==> forall|j: int| 0 <= j < i ==> head_before(#[trigger] regions_spec()[j].1, '.') != head@,
        decreases regs.len() - i,
    {
        let loc = chars_of(regs[i].1);
        let lh = head_chars(&loc, '.');
        assert(rv[i as int].1 == regs@[i as int].1@);
        if head.len() > 0 && crate::text::eq_chars(&lh, &head) {
            proof {
                let c = choose|c: int| 0 <= c < regions_spec().len() && head@.len() > 0
                    && head_before(regions_spec()[c].1, '.') == head@
                    && forall|j: int| 0 <= j < c ==> head_before(regions_spec()[j].1, '.') != head@;
                assert(0 <= c < 8);
                if c < i {
                    assert(head_before(regions_spec()[c].1, '.') != head@);
                } else if i < c {
                    assert(head_before(regions_spec()[i as int].1, '.') != head@);
                }
            }
            return i;
        }
        i += 1;
    }
    0
}

/// The keyboard layout matching the detected region's country (the part of
/// its locale between `_` and `.`, lowercased); US (0) when none does.
pub open spec fn detected_layout_spec(lang: Seq<char>) -> int {
    let loc = regions_spec()[detected_region_spec(lang)].1;
    let parts = split_char(loc, '_');
    let cc = lower_ascii(if parts.len() > 1 { head_before(parts[1], '.') } else { "US"@ });
    if cc == "us"@ { 0 } else if cc == "gb"@ { 1 } else if cc == "de"@ { 2 } else if cc == "fr"@ { 3 }
    else if cc == "es"@ { 4 } else if cc == "it"@ { 5 } else { 0 }
}

/// Index of the keyboard layout matching the detected region, else US (0).
pub fn detected_layout(lang: &str) -> (r: usize)
    ensures
        r == detected_layout_spec(lang@),
        r < 6,
{
    let reg = detected_region(lang);
    let regs = regions();
    assert(regs@[reg as int].1@ == regions_spec()[reg as int].1);
    let loc = chars_of(regs[reg].1);
    let parts = split_chars(&loc, '_');
    let raw = if parts.len() > 1 {
        assert(views(parts@)[1] == parts@[1]@);
        head_chars(&parts[1], '.')
    } else {
        chars_of("US")
    };
    let cc = lower_ascii_chars(&raw);
    let r = if eq_str(&cc, "us") { 0 } else if eq_str(&cc, "gb") { 1 } else if eq_str(&cc, "de") { 2 }
        else if eq_str(&cc, "fr") { 3 } else if eq_str(&cc, "es") { 4 } else if eq_str(&cc, "it") { 5 }
        else { 0 };
    r
}

/// A wired link is up: an activated connection whose type mentions ethernet.
pub open spec fn wired_spec(conns: Seq<Conn>) -> bool {
    exists|i: int| 0 <= i < conns.len() && contains((#[trigger] conns[i]).kind@, "ethernet"@)
        && conns[i].state@ == "activated"@
}

/// Is a wired (ethernet) connection already up? Then the wizard skips the
/// Network stage.
pub fn is_wired(conns: &Vec<Conn>) -> (b: bool)
    ensures
        b == wired_spec(conns@),
{
    let mut i: usize = 0;
    while i < conns.len()
        invariant
            i <= conns.len(),
            forall|k: int| 0 <= k < i ==> !(contains((#[trigger] conns@[k]).kind@, "ethernet"@)
                && conns@[k].state@ == "activated"@),
        decreases conns.len() - i,
    {
        let kind = chars_of(conns[i].kind.as_str());
        let state = chars_of(conns[i].state.as_str());
        if has(&kind, "ethernet") && eq_str(&state, "activated") {
            return true;
        }
        i += 1;
    }
    false
}

/// The live flow: the canonical one, without Network when wired.
pub fn live_flow(wired: bool) -> (f: Vec<Stage>)
    ensures
        f@ == flow_spec().filter(|s: Stage| !(wired && s == Stage::Network)),
{
    let all = flow();
    let mut f: Vec<Stage> = Vec::new();
    let mut i: usize = 0;
    proof {
        reveal(Seq::filter);
    }
    assert(all@.take(0) =~= Seq::<Stage>::empty());
    while i < all.len()
        invariant
            i <= all.len(),
            all@ == flow_spec(),
            f@ == all@.take(i as int).filter(|s: Stage| !(wired && s == Stage::Network)),
        decreases all.len() - i,
    {
        proof {
            reveal(Seq::filter);
        }
        assert(all@.take(i + 1).drop_last() =~= all@.take(i as int));
        if !(wired && all[i] == Stage::Network) {
            f.push(all[i]);
        }
        i += 1;
    }
    assert(all@.take(all.len() as int) =~= all@);
    f
}

// --- the TUI picker -----------------------------------------------------------------

/// A single-select cursor over `len` rows.
pub struct Picker {
    pub len: usize,
    pub cursor: usize,
}

/// The cursor is on a row (or 0 on an empty list).
pub open spec fn picker_wf(p: Picker) -> bool {
    if p.len == 0 { p.cursor == 0 } else { p.cursor < p.len }
}

impl Picker {
    /// A picker pre-highlighting `start`, clamped into the list.
    pub fn new(len: usize, start: usize) -> (p: Picker)
        ensures
            p.len == len,
            p.cursor == if len == 0 { 0 } else if start < len { start } else { (len - 1) as usize },
            picker_wf(p),
    {
        Picker { len, cursor: if len == 0 { 0 } else if start < len - 1 { start } else { len - 1 } }
    }

    /// Move the cursor by `delta`, clamped to `[0, len-1]` (no wrap); a no-op
    /// on an empty list.
    pub fn move_cursor(&mut self, delta: isize)
        requires
            old(self).len <= isize::MAX,
            picker_wf(*old(self)),
        ensures
            final(self).len == old(self).len,
            picker_wf(*final(self)),
            old(self).len == 0 ==> final(self).cursor == 0,
            old(self).len > 0 ==> final(self).cursor == ({
                let t = old(self).cursor + delta;
                if t < 0 { 0 } else if t > old(self).len - 1 { old(self).len - 1 } else { t }
            }),
    {
        if self.len == 0 {
            return;
        }
        let max = (self.len - 1) as i128;
        let t = self.cursor as i128 + delta as i128;
        self.cursor = if t < 0 { 0 } else if t > max { max as usize } else { t as usize };
    }
}

// --- the wizard -----------------------------------------------------------------------

/// The wizard's state.
pub struct Oobe {
    pub stage: Stage,
    /// The live stage order.
    pub flow: Vec<Stage>,
    /// Echo backend commands instead of running them.
    pub dry: bool,
    pub region: usize,
    pub layout: usize,
    /// Privacy toggles.
    pub p_location: bool,
    pub p_diagnostics: bool,
    pub p_find: bool,
    pub p_ads: bool,
    /// An optional additional keyboard layout.
    pub second_layout: Option<usize>,
    /// The chosen Wi-Fi network and its password.
    pub wifi_sel: Option<usize>,
    pub wifi_pw: String,
    /// The local-account fields.
    pub username: String,
    pub password: String,
    pub password2: String,
    pub phone: String,
    /// Accent index and light/dark.
    pub accent: usize,
    pub light: bool,
}

/// What the user did.
pub enum Msg {
    PickRegion(usize),
    PickLayout(usize),
    PickSecond(usize),
    SelectWifi(usize),
    WifiPw(String),
    Username(String),
    Password(String),
    Password2(String),
    TogglePrivacy(u8),
    PickAccent(usize),
    /// `true` is light.
    SetMode(bool),
    Phone(String),
    /// Advance without committing the current stage.
    Skip,
    Next,
    Back,
    Finish,
}

/// What the shell must do after a message.
#[derive(Debug, Clone, Copy, PartialEq, Eq, Structural)]
pub enum OobeEffect {
    Nothing,
    /// Commit what the stage collected (the wizard has moved on already).
    Commit(Stage),
    /// Stamp the wizard as done and exit.
    Finish,
}

/// The stage after moving forward (staying put at the end).
pub open spec fn advanced(flow: Seq<Stage>, s: Stage) -> Stage {
    match flow_next_spec(flow, s) {
        Some(n) => n,
        None => s,
    }
}

/// Everything but the stage, the second layout and the fields a message
/// names stays as it was.
pub open spec fn same_choices(a: Oobe, b: Oobe) -> bool {
    &&& a.flow@ == b.flow@ && a.dry == b.dry && a.region == b.region && a.layout == b.layout
    &&& a.p_location == b.p_location && a.p_diagnostics == b.p_diagnostics
    &&& a.p_find == b.p_find && a.p_ads == b.p_ads
    &&& a.wifi_sel == b.wifi_sel && a.wifi_pw@ == b.wifi_pw@
    &&& a.username@ == b.username@ && a.password@ == b.password@ && a.password2@ == b.password2@
    &&& a.phone@ == b.phone@ && a.accent == b.accent && a.light == b.light
}

/// The wizard's reaction to one message.
pub fn update(state: &mut Oobe, msg: Msg) -> (eff: OobeEffect)
    ensures
        final(state).flow@ == old(state).flow@,
        final(state).dry == old(state).dry,
        ({
            let o = *old(state);
            let f = *final(state);
            match msg {
                Msg::Skip => {
                    &&& eff == OobeEffect::Nothing
                    &&& f.stage == advanced(o.flow@, o.stage)
                    &&& f.second_layout == if o.stage == Stage::SecondKeyboard { None } else { o.second_layout }
                    &&& same_choices(o, f)
                },
                Msg::Back => {
                    &&& eff == OobeEffect::Nothing
                    &&& f.stage == match flow_prev_spec(o.flow@, o.stage) { Some(p) => p, None => o.stage }
                    &&& f.second_layout == o.second_layout && same_choices(o, f)
                },
                Msg::Next => {
                    &&& eff == OobeEffect::Commit(o.stage)
                    &&& f.stage == advanced(o.flow@, o.stage)
                    &&& f.second_layout == o.second_layout && same_choices(o, f)
                },
                Msg::Finish => eff == OobeEffect::Finish && f == o,
                Msg::PickRegion(i) => eff == OobeEffect::Nothing && f == (Oobe { region: i, ..o }),
                Msg::PickLayout(i) => eff == OobeEffect::Nothing && f == (Oobe { layout: i, ..o }),
                Msg::PickSecond(i) => eff == OobeEffect::Nothing && f == (Oobe { second_layout: Some(i), ..o }),
                Msg::SelectWifi(i) => eff == OobeEffect::Nothing && f == (Oobe { wifi_sel: Some(i), ..o }),
                Msg::WifiPw(t) => eff == OobeEffect::Nothing && f == (Oobe { wifi_pw: t, ..o }),
                Msg::Username(t) => eff == OobeEffect::Nothing && f == (Oobe { username: t, ..o }),
                Msg::Password(t) => eff == OobeEffect::Nothing && f == (Oobe { password: t, ..o }),
                Msg::Password2(t) => eff == OobeEffect::Nothing && f == (Oobe { password2: t, ..o }),
                Msg::TogglePrivacy(w) => {
                    &&& eff == OobeEffect::Nothing
                    &&& f == (Oobe {
                        p_location: if w == 0 { !o.p_location } else { o.p_location },
                        p_diagnostics: if w == 1 { !o.p_diagnostics } else { o.p_diagnostics },
                        p_find: if w == 2 { !o.p_find } else { o.p_find },
                        p_ads: if w >= 3 { !o.p_ads } else { o.p_ads },
                        ..o
                    })
                },
                Msg::PickAccent(i) => eff == OobeEffect::Nothing && f == (Oobe { accent: i, ..o }),
                Msg::SetMode(light) => eff == OobeEffect::Nothing && f == (Oobe { light, ..o }),
                Msg::Phone(t) => eff == OobeEffect::Nothing && f == (Oobe { phone: t, ..o }),
            }
        }),
{
    match msg {
        Msg::PickRegion(i) => {
            state.region = i;
            OobeEffect::Nothing
        }
        Msg::PickLayout(i) => {
            state.layout = i;
            OobeEffect::Nothing
        }
        Msg::PickSecond(i) => {
            state.second_layout = Some(i);
            OobeEffect::Nothing
        }
        Msg::SelectWifi(i) => {
            state.wifi_sel = Some(i);
            OobeEffect::Nothing
        }
        Msg::WifiPw(t) => {
            state.wifi_pw = t;
            OobeEffect::Nothing
        }
        Msg::Username(t) => {
            state.username = t;
            OobeEffect::Nothing
        }
        Msg::Password(t) => {
            state.password = t;
            OobeEffect::Nothing
        }
        Msg::Password2(t) => {
            state.password2 = t;
            OobeEffect::Nothing
        }
        Msg::TogglePrivacy(w) => {
            if w == 0 {
                state.p_location = !state.p_location;
            } else if w == 1 {
                state.p_diagnostics = !state.p_diagnostics;
            } else if w == 2 {
                state.p_find = !state.p_find;
            } else {
                state.p_ads = !state.p_ads;
            }
            OobeEffect::Nothing
        }
        Msg::PickAccent(i) => {
            state.accent = i;
            OobeEffect::Nothing
        }
        Msg::SetMode(light) => {
            state.light = light;
            OobeEffect::Nothing
        }
        Msg::Phone(t) => {
            state.phone = t;
            OobeEffect::Nothing
        }
        Msg::Skip => {
            if state.stage == Stage::SecondKeyboard {
                state.second_layout = None;
            }
            advance(state);
            OobeEffect::Nothing
        }
        Msg::Back => {
            match flow_prev(&state.flow, state.stage) {
                Some(p) => state.stage = p,
                None => {}
            }
            OobeEffect::Nothing
        }
        Msg::Next => {
            let leaving = state.stage;
            advance(state);
            OobeEffect::Commit(leaving)
        }
        Msg::Finish => OobeEffect::Finish,
    }
}

/// Move to the next stage of the live flow, if there is one.
pub fn advance(state: &mut Oobe)
    ensures
        final(state).stage == advanced(old(state).flow@, old(state).stage),
        final(state).second_layout == old(state).second_layout,
        same_choices(*old(state), *final(state)),
{
    match flow_next(&state.flow, state.stage) {
        Some(n) => state.stage = n,
        None => {}
    }
}

/// The account stage is ready to commit: a user name, a password, and the
/// same password twice.
pub fn account_ready(username: &str, password: &str, password2: &str) -> (b: bool)
    ensures
        b == (username@.len() > 0 && password@.len() > 0 && password@ == password2@),
{
    let p1 = chars_of(password);
    let p2 = chars_of(password2);
    !username.is_empty() && !password.is_empty() && crate::text::eq_chars(&p1, &p2)
}

/// The combined keymap of the primary and optional second layout
/// (`us,de`), for `localectl set-x11-keymap`.
pub fn combined_keymap(primary: &str, second: Option<&str>) -> (k: String)
    ensures
        k@ == match second {
            Some(s) => primary@ + ","@ + s@,
            None => primary@,
        },
{
    let mut k = primary.to_owned();
    match second {
        Some(s) => {
            push_str(&mut k, ",");
            push_str(&mut k, s);
        }
        None => {}
    }
    k
}

/// The Personalize accents: (icon color key, name).
pub fn accents() -> (a: Vec<(&'static str, &'static str)>)
    ensures
        a@.len() == 4,
        a@[0].0@ == "blue"@ && a@[0].1@ == "Blue"@,
        a@[1].0@ == "orange"@ && a@[1].1@ == "Orange"@,
        a@[2].0@ == "red"@ && a@[2].1@ == "Red"@,
        a@[3].0@ == "neutral"@ && a@[3].1@ == "Neutral"@,
{
    vec![("blue", "Blue"), ("orange", "Orange"), ("red", "Red"), ("neutral", "Neutral")]
}

/// The wizard shows once: a completed one runs again only when forced.
pub fn oobe_should_run(done: bool, force: bool) -> (b: bool)
    ensures
        b == (!done || force),
{
    !done || force
}

/// The stage a `--stage` name starts at.
pub open spec fn stage_named(name: Seq<char>) -> Option<Stage> {
    if name == "region"@ {
        Some(Stage::Region)
    } else if name == "keyboard"@ {
        Some(Stage::Keyboard)
    } else if name == "secondkeyboard"@ {
        Some(Stage::SecondKeyboard)
    } else if name == "network"@ {
        Some(Stage::Network)
    } else if name == "account"@ {
        Some(Stage::Account)
    } else if name == "pin"@ {
        Some(Stage::Pin)
    } else if name == "privacy"@ {
        Some(Stage::Privacy)
    } else if name == "yourphone"@ {
        Some(Stage::YourPhone)
    } else if name == "personalize"@ {
        Some(Stage::Personalize)
    } else if name == "finalize"@ {
        Some(Stage::Finalize)
    } else {
        None
    }
}

/// The stage `--stage NAME` asks for (the first `--stage` and the argument
/// after it), Region when there is none or the name is unknown.
pub fn stage_from_arg(args: &Vec<String>) -> (s: Stage)
    ensures
        s == (match crate::cli::flag_value_spec(crate::nm::string_views(args@), "--stage"@) {
            Some(n) => match stage_named(n) {
                Some(t) => t,
                None => Stage::Region,
            },
            None => Stage::Region,
        }),
{
    match crate::cli::flag_value(args, "--stage") {
        Some(n) => match stage_by_name(n.as_str()) {
            Some(t) => t,
            None => Stage::Region,
        },
        None => Stage::Region,
    }
}

fn stage_by_name(name: &str) -> (r: Option<Stage>)
    ensures
        r == stage_named(name@),
{
    let v = chars_of(name);
    if eq_str(&v, "region") {
        Some(Stage::Region)
    } else if eq_str(&v, "keyboard") {
        Some(Stage::Keyboard)
    } else if eq_str(&v, "secondkeyboard") {
        Some(Stage::SecondKeyboard)
    } else if eq_str(&v, "network") {
        Some(Stage::Network)
    } else if eq_str(&v, "account") {
        Some(Stage::Account)
    } else if eq_str(&v, "pin") {
        Some(Stage::Pin)
    } else if eq_str(&v, "privacy") {
        Some(Stage::Privacy)
    } else if eq_str(&v, "yourphone") {
        Some(Stage::YourPhone)
    } else if eq_str(&v, "personalize") {
        Some(Stage::Personalize)
    } else if eq_str(&v, "finalize") {
        Some(Stage::Finalize)
    } else {
        None
    }
}


// --- each region's own locale is detected as that region --------------------------------

/// The part before the first `c` of a text that starts with `h`, which has
/// no `c`, followed by nothing or by `c` and more, is `h`.
proof fn lemma_head_before(h: Seq<char>, suffix: Seq<char>, c: char)
    requires
        crate::lines::free_of(h, c),
        suffix.len() == 0 || suffix[0] == c,
    ensures
        head_before(h + suffix, c) == h,
{
    let s = h + suffix;
    if suffix.len() == 0 {
        assert(s =~= h);
        assert forall|k: int| 0 <= k < s.len() implies s[k] != c by {}
        crate::text::lemma_find_char_none(s, c);
    } else {
        assert(s[h.len() as int] == c);
        assert forall|k: int| 0 <= k < h.len() implies s[k] != c by {
            assert(s[k] == h[k]);
        }
        crate::text::lemma_find_char(s, c, h.len() as int);
        assert(s.subrange(0, h.len() as int) =~= h);
    }
}

/// The country-and-language head of each region's locale (before `.`).
pub open spec fn region_heads() -> Seq<Seq<char>> {
    seq!["en_US"@, "en_GB"@, "en_CA"@, "en_AU"@, "de_DE"@, "fr_FR"@, "es_ES"@, "it_IT"@]
}

proof fn lemma_region_heads()
    ensures
        region_heads().len() == regions_spec().len(),
        forall|j: int| 0 <= j < region_heads().len()
            ==> #[trigger] regions_spec()[j].1 == region_heads()[j] + ".UTF-8"@,
        forall|j: int| 0 <= j < region_heads().len()
            ==> head_before(#[trigger] regions_spec()[j].1, '.') == region_heads()[j],
        forall|j: int| 0 <= j < region_heads().len() ==> (#[trigger] region_heads()[j]).len() == 5,
        forall|j: int, k: int| 0 <= j < region_heads().len() && 0 <= k < region_heads().len()
            && (#[trigger] region_heads()[j])[3] == (#[trigger] region_heads()[k])[3] ==> j == k,
{
    reveal_strlit("en_US"); reveal_strlit("en_GB"); reveal_strlit("en_CA"); reveal_strlit("en_AU");
    reveal_strlit("de_DE"); reveal_strlit("fr_FR"); reveal_strlit("es_ES"); reveal_strlit("it_IT");
    reveal_strlit("en_US.UTF-8"); reveal_strlit("en_GB.UTF-8"); reveal_strlit("en_CA.UTF-8");
    reveal_strlit("en_AU.UTF-8"); reveal_strlit("de_DE.UTF-8"); reveal_strlit("fr_FR.UTF-8");
    reveal_strlit("es_ES.UTF-8"); reveal_strlit("it_IT.UTF-8"); reveal_strlit(".UTF-8");
    let hs = region_heads();
    let suf = ".UTF-8"@;
    assert forall|j: int| 0 <= j < hs.len() implies #[trigger] regions_spec()[j].1 == hs[j] + suf by {
        assert(regions_spec()[j].1 =~= hs[j] + suf);
    }
    assert forall|j: int| 0 <= j < hs.len() implies head_before(#[trigger] regions_spec()[j].1, '.') == hs[j] by {
        assert(regions_spec()[j].1 =~= hs[j] + suf);
        assert(crate::lines::free_of(hs[j], '.'));
        lemma_head_before(hs[j], suf, '.');
    }
}

/// Every region's own locale is detected as that region, whatever follows
/// its `.` (the encoding), or with nothing after the country.
pub proof fn law_detected_region_own_locale(i: int, suffix: Seq<char>)
    requires
        0 <= i < regions_spec().len(),
        suffix.len() == 0 || suffix[0] == '.',
    ensures
        detected_region_spec(regions_spec()[i].1) == i,
        detected_region_spec(regions_spec()[i].1.take(5) + suffix) == i,
{
    lemma_region_heads();
    let hs = region_heads();
    let regs = regions_spec();
    assert(regs[i].1.take(5) =~= hs[i]);
    assert(crate::lines::free_of(hs[i], '.')) by {
        reveal_strlit("en_US"); reveal_strlit("en_GB"); reveal_strlit("en_CA"); reveal_strlit("en_AU");
        reveal_strlit("de_DE"); reveal_strlit("fr_FR"); reveal_strlit("es_ES"); reveal_strlit("it_IT");
    }
    lemma_head_before(hs[i], suffix, '.');
    assert(head_before(regs[i].1, '.') == hs[i]);
    let lang1 = regs[i].1;
    let lang2 = hs[i] + suffix;
    assert(regs[i].1.take(5) + suffix == lang2);
    assert(hs[i].len() > 0);
    assert forall|j: int| 0 <= j < i implies head_before(#[trigger] regs[j].1, '.') != hs[i] by {
        assert(head_before(regs[j].1, '.') == hs[j]);
        if hs[j] == hs[i] {
            assert(hs[j][3] == hs[i][3]);
        }
    }
    assert(0 <= i < regs.len() && hs[i].len() > 0 && head_before(regs[i].1, '.') == hs[i]);
    let c = choose|c: int| 0 <= c < regs.len() && hs[i].len() > 0 && head_before(regs[c].1, '.') == hs[i]
        && forall|j: int| 0 <= j < c ==> head_before(regs[j].1, '.') != hs[i];
    assert(0 <= c < regs.len() && head_before(regs[c].1, '.') == hs[i]);
    if c != i {
        assert(head_before(regs[c].1, '.') == hs[c]);
        assert(hs[c][3] == hs[i][3]);
    }
    assert(detected_region_spec(lang2) == i);
    assert(detected_region_spec(lang1) == i);
}


/// The xkb codes of the keyboard layouts, in the Typing page's order.
pub open spec fn layout_codes() -> Seq<Seq<char>> {
    seq!["us"@, "gb"@, "de"@, "fr"@, "es"@, "it"@]
}

/// The country part of a region's locale (between `_` and `.`).
proof fn lemma_region_country(i: int)
    requires
        0 <= i < regions_spec().len(),
    ensures
        split_char(regions_spec()[i].1, '_').len() > 1,
        head_before(split_char(regions_spec()[i].1, '_')[1], '.') == regions_spec()[i].1.subrange(3, 5),
{
    lemma_region_heads();
    let hs = region_heads();
    let loc = regions_spec()[i].1;
    let suf = ".UTF-8"@;
    reveal_strlit(".UTF-8");
    reveal_strlit("en_US"); reveal_strlit("en_GB"); reveal_strlit("en_CA"); reveal_strlit("en_AU");
    reveal_strlit("de_DE"); reveal_strlit("fr_FR"); reveal_strlit("es_ES"); reveal_strlit("it_IT");
    let h = hs[i];
    assert(loc == h + suf);
    assert(h[0] != '_' && h[1] != '_' && h[2] == '_' && h[3] != '_' && h[4] != '_');
    assert(h[3] != '.' && h[4] != '.');
    assert(loc[2] == '_');
    crate::text::lemma_find_char(loc, '_', 2);
    let rest = loc.subrange(3, loc.len() as int);
    assert forall|k: int| 0 <= k < rest.len() implies rest[k] != '_' by {
        if k < 2 {
            assert(rest[k] == h[3 + k]);
        } else {
            assert(rest[k] == suf[k - 2]);
        }
    }
    crate::text::lemma_find_char_none(rest, '_');
    assert(split_char(rest, '_') == seq![rest]);
    assert(split_char(loc, '_') == seq![loc.subrange(0, 2)] + split_char(rest, '_'));
    let b = loc.subrange(3, 5);
    assert(rest =~= b + suf);
    assert(crate::lines::free_of(b, '.')) by {
        assert(b[0] == h[3] && b[1] == h[4]);
    }
    lemma_head_before(b, suf, '.');
}

/// The keyboard detected with a region's own locale is the layout whose
/// code is that locale's country in lower case, or US when no layout has
/// that code.
pub proof fn law_detected_layout_own_locale(i: int, suffix: Seq<char>)
    requires
        0 <= i < regions_spec().len(),
        suffix.len() == 0 || suffix[0] == '.',
    ensures
        ({
            let cc = crate::text::lower_ascii(regions_spec()[i].1.subrange(3, 5));
            let r = detected_layout_spec(regions_spec()[i].1.take(5) + suffix);
            &&& 0 <= r < layout_codes().len()
            &&& (layout_codes()[r] == cc || (r == 0 && forall|k: int| 0 <= k < layout_codes().len()
                ==> #[trigger] layout_codes()[k] != cc))
        }),
{
    law_detected_region_own_locale(i, suffix);
    lemma_region_country(i);
    reveal_strlit("en_US.UTF-8"); reveal_strlit("en_GB.UTF-8"); reveal_strlit("en_CA.UTF-8");
    reveal_strlit("en_AU.UTF-8"); reveal_strlit("de_DE.UTF-8"); reveal_strlit("fr_FR.UTF-8");
    reveal_strlit("es_ES.UTF-8"); reveal_strlit("it_IT.UTF-8");
    reveal_strlit("us"); reveal_strlit("gb"); reveal_strlit("de"); reveal_strlit("fr");
    reveal_strlit("es"); reveal_strlit("it");
    let loc = regions_spec()[i].1;
    let cc = crate::text::lower_ascii(loc.subrange(3, 5));
    assert(cc.len() == 2);
    assert(cc[0] == crate::text::lower_ascii_char(loc[3]));
    assert(cc[1] == crate::text::lower_ascii_char(loc[4]));
    let codes = layout_codes();
    if i == 0 {
        assert(cc =~= "us"@);
    } else if i == 1 {
        assert(cc =~= "gb"@);
    } else if i == 2 {
        assert(cc =~= seq!['c', 'a']);
        assert forall|k: int| 0 <= k < codes.len() implies #[trigger] codes[k] != cc by {
            assert(codes[k][0] != cc[0] || codes[k][1] != cc[1]);
        }
    } else if i == 3 {
        assert(cc =~= seq!['a', 'u']);
        assert forall|k: int| 0 <= k < codes.len() implies #[trigger] codes[k] != cc by {
            assert(codes[k][0] != cc[0] || codes[k][1] != cc[1]);
        }
    } else if i == 4 {
        assert(cc =~= "de"@);
    } else if i == 5 {
        assert(cc =~= "fr"@);
    } else if i == 6 {
        assert(cc =~= "es"@);
    } else {
        assert(cc =~= "it"@);
    }
}

} // verus!
