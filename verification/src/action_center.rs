//! The Action Center pane: the notification history with its Clear
//! actions, the quick-action tiles (what each reads and what a click runs),
//! the backlight level from `brightnessctl -m`, and the cards' relative
//! times.

use vstd::prelude::*;
use crate::notifyd::{Notif, close_notification};
use crate::text::{chars_of, contains, eq_str, has, parse_bounded, parse_u8, push_dec, push_str, split_char,
    split_chars, trim, trim_chars, trim_end_matches, trim_end_matches_chars, dec};

verus! {

// --- the backlight --------------------------------------------------------------------

/// `brightnessctl -m` prints "device,class,current,percent,max": the level
/// is the fourth field, "NN%", read as a byte.
pub open spec fn brightness_spec(csv: Seq<char>) -> Option<nat> {
    let f = split_char(csv, ',');
    if f.len() > 3 {
        parse_bounded(trim_end_matches(trim(f[3]), "%"@), u8::MAX as nat)
    } else {
        None
    }
}

/// The backlight percentage from `brightnessctl -m`, or none when the
/// output has no such field (no backlight, or no `brightnessctl`).
pub fn parse_brightness(csv: &str) -> (r: Option<u8>)
    ensures
        match r {
            Some(v) => brightness_spec(csv@) == Some(v as nat),
            None => brightness_spec(csv@) is None,
        },
{
    let fields = split_chars(&chars_of(csv), ',');
    if fields.len() > 3 {
        let t = trim_chars(&fields[3]);
        let t = trim_end_matches_chars(&t, "%");
        parse_u8(&t)
    } else {
        None
    }
}

// --- quick-action tiles --------------------------------------------------------------

/// The label and Nerd Font glyph of each tile the pane implements.
pub open spec fn tile_label_spec(id: Seq<char>) -> Option<(Seq<char>, Seq<char>)> {
    if id == "wifi"@ {
        Some(("Wi-Fi"@, "\u{f1eb}"@))
    } else if id == "bluetooth"@ {
        Some(("Bluetooth"@, "\u{f293}"@))
    } else if id == "airplane"@ {
        Some(("Airplane"@, "\u{f072}"@))
    } else if id == "mute"@ {
        Some(("Mute"@, "\u{f6a9}"@))
    } else if id == "focus"@ {
        Some(("Focus assist"@, "\u{f1f6}"@))
    } else if id == "nightlight"@ {
        Some(("Night light"@, "\u{f186}"@))
    } else {
        None
    }
}

/// A tile's label and glyph, or none for an id the pane does not implement.
pub fn tile_label(id: &str) -> (r: Option<(&'static str, &'static str)>)
    ensures
        match r {
            Some((l, g)) => tile_label_spec(id@) == Some((l@, g@)),
            None => tile_label_spec(id@) is None,
        },
{
    let v = chars_of(id);
    if eq_str(&v, "wifi") {
        Some(("Wi-Fi", "\u{f1eb}"))
    } else if eq_str(&v, "bluetooth") {
        Some(("Bluetooth", "\u{f293}"))
    } else if eq_str(&v, "airplane") {
        Some(("Airplane", "\u{f072}"))
    } else if eq_str(&v, "mute") {
        Some(("Mute", "\u{f6a9}"))
    } else if eq_str(&v, "focus") {
        Some(("Focus assist", "\u{f1f6}"))
    } else if eq_str(&v, "nightlight") {
        Some(("Night light", "\u{f186}"))
    } else {
        None
    }
}

/// The configured tile ids the pane implements, in order.
pub fn known_tiles(ids: &Vec<String>) -> (r: Vec<String>)
    ensures
        crate::nm::string_views(r@) == crate::nm::string_views(ids@).filter(
            |id: Seq<char>| tile_label_spec(id) is Some),
{
    let ghost f = |id: Seq<char>| tile_label_spec(id) is Some;
    let mut r: Vec<String> = Vec::new();
    let mut i: usize = 0;
    while i < ids.len()
        invariant
            i <= ids.len(),
            crate::nm::string_views(r@) == crate::nm::string_views(ids@).take(i as int).filter(
                |id: Seq<char>| tile_label_spec(id) is Some),
        decreases ids.len() - i,
    {
        proof {
            reveal(Seq::filter);
            let s = crate::nm::string_views(ids@);
            assert(s.take(i + 1).drop_last() =~= s.take(i as int));
            assert(s.take(i + 1).last() == ids@[i as int]@);
        }
        let ghost before = crate::nm::string_views(r@);
        if tile_label(ids[i].as_str()).is_some() {
            r.push(ids[i].clone());
            assert(crate::nm::string_views(r@) =~= before.push(ids@[i as int]@));
        }
        i += 1;
    }
    assert(crate::nm::string_views(ids@).take(ids.len() as int) =~= crate::nm::string_views(ids@));
    r
}

/// The shell command whose output tells a tile's state (focus assist is the
/// shell's own setting and needs none).
pub open spec fn tile_probe_spec(id: Seq<char>) -> Option<Seq<char>> {
    if id == "wifi"@ {
        Some("nmcli -t radio wifi"@)
    } else if id == "bluetooth"@ {
        Some("rfkill list bluetooth"@)
    } else if id == "airplane"@ {
        Some("rfkill list"@)
    } else if id == "mute"@ {
        Some("wpctl get-volume @DEFAULT_AUDIO_SINK@"@)
    } else if id == "nightlight"@ {
        Some("pgrep -x wlsunset"@)
    } else {
        None
    }
}

/// The command to run to read a tile's state.
pub fn tile_probe(id: &str) -> (r: Option<&'static str>)
    ensures
        match r {
            Some(c) => tile_probe_spec(id@) == Some(c@),
            None => tile_probe_spec(id@) is None,
        },
{
    let v = chars_of(id);
    if eq_str(&v, "wifi") {
        Some("nmcli -t radio wifi")
    } else if eq_str(&v, "bluetooth") {
        Some("rfkill list bluetooth")
    } else if eq_str(&v, "airplane") {
        Some("rfkill list")
    } else if eq_str(&v, "mute") {
        Some("wpctl get-volume @DEFAULT_AUDIO_SINK@")
    } else if eq_str(&v, "nightlight") {
        Some("pgrep -x wlsunset")
    } else {
        None
    }
}

/// Whether a tile is on, from its probe's output (`focus` is the saved
/// focus-assist flag): Wi-Fi radio "enabled"; Bluetooth not soft-blocked;
/// airplane when every radio is soft-blocked; mute when the sink says
/// MUTED; night light while `wlsunset` runs.
pub open spec fn tile_on_spec(id: Seq<char>, out: Seq<char>, focus: bool) -> bool {
    if id == "wifi"@ {
        trim(out) == "enabled"@
    } else if id == "bluetooth"@ {
        !contains(out, "Soft blocked: yes"@)
    } else if id == "airplane"@ {
        !contains(out, "Soft blocked: no"@) && contains(out, "Soft blocked"@)
    } else if id == "mute"@ {
        contains(out, "MUTED"@)
    } else if id == "focus"@ {
        focus
    } else if id == "nightlight"@ {
        trim(out).len() > 0
    } else {
        false
    }
}

/// A tile's on/off state from its probe's output.
pub fn tile_on(id: &str, out: &str, focus: bool) -> (b: bool)
    ensures
        b == tile_on_spec(id@, out@, focus),
{
    let v = chars_of(id);
    let o = chars_of(out);
    if eq_str(&v, "wifi") {
        eq_str(&trim_chars(&o), "enabled")
    } else if eq_str(&v, "bluetooth") {
        !(has(&o, "Soft blocked: yes"))
    } else if eq_str(&v, "airplane") {
        !(has(&o, "Soft blocked: no")) && has(&o, "Soft blocked")
    } else if eq_str(&v, "mute") {
        has(&o, "MUTED")
    } else if eq_str(&v, "focus") {
        focus
    } else if eq_str(&v, "nightlight") {
        trim_chars(&o).len() > 0
    } else {
        false
    }
}

/// What clicking a tile does.
#[derive(Debug, Clone, Copy, PartialEq, Eq)]
pub enum TileAction {
    /// Run a shell command, detached.
    Run(&'static str),
    /// Save focus assist as on (`true`) or off.
    SetFocus(bool),
    Nothing,
}

/// The command a click runs, given whether the tile is on.
pub open spec fn toggle_spec(id: Seq<char>, on: bool) -> Option<Seq<char>> {
    if id == "wifi"@ {
        Some(if on { "nmcli radio wifi off"@ } else { "nmcli radio wifi on"@ })
    } else if id == "bluetooth"@ {
        Some(if on { "rfkill block bluetooth"@ } else { "rfkill unblock bluetooth"@ })
    } else if id == "airplane"@ {
        Some(if on { "rfkill unblock all"@ } else { "rfkill block all"@ })
    } else if id == "mute"@ {
        Some("wpctl set-mute @DEFAULT_AUDIO_SINK@ toggle"@)
    } else if id == "nightlight"@ {
        Some(if on { "pkill -x wlsunset"@ } else { "wlsunset"@ })
    } else {
        None
    }
}

/// Flip a tile: turn its backend off when on, on when off; focus assist
/// flips the saved flag.
pub fn toggle_tile(id: &str, on: bool) -> (a: TileAction)
    ensures
        toggles(id@, on, a),
{
    proof {
        reveal_strlit("wifi");
        reveal_strlit("bluetooth");
        reveal_strlit("airplane");
        reveal_strlit("mute");
        reveal_strlit("focus");
        reveal_strlit("nightlight");
        assert("wifi"@[0] != "focus"@[0]);
        assert("wifi"@ != "focus"@);
        assert("mute"@[0] != "focus"@[0]);
        assert("mute"@ != "focus"@);
        assert("bluetooth"@ != "focus"@);
        assert("airplane"@ != "focus"@);
        assert("nightlight"@ != "focus"@);
    }
    let v = chars_of(id);
    if eq_str(&v, "wifi") {
        TileAction::Run(if on { "nmcli radio wifi off" } else { "nmcli radio wifi on" })
    } else if eq_str(&v, "bluetooth") {
        TileAction::Run(if on { "rfkill block bluetooth" } else { "rfkill unblock bluetooth" })
    } else if eq_str(&v, "airplane") {
        TileAction::Run(if on { "rfkill unblock all" } else { "rfkill block all" })
    } else if eq_str(&v, "mute") {
        TileAction::Run("wpctl set-mute @DEFAULT_AUDIO_SINK@ toggle")
    } else if eq_str(&v, "focus") {
        TileAction::SetFocus(!on)
    } else if eq_str(&v, "nightlight") {
        TileAction::Run(if on { "pkill -x wlsunset" } else { "wlsunset" })
    } else {
        TileAction::Nothing
    }
}

/// How many tiles the grid shows: all when expanded, else the first four.
pub fn shown_tiles(n: usize, expanded: bool) -> (k: usize)
    ensures
        k == if expanded || n <= 4 { n } else { 4 },
{
    if expanded || n <= 4 { n } else { 4 }
}

/// The grid's Expand/Collapse link, shown only past four tiles.
pub fn expand_label(n: usize, expanded: bool) -> (r: Option<&'static str>)
    ensures
        n <= 4 ==> r is None,
        n > 4 ==> (r matches Some(l) && l@ == if expanded { "Collapse"@ } else { "Expand"@ }),
{
    if n > 4 {
        Some(if expanded { "Collapse" } else { "Expand" })
    } else {
        None
    }
}

// --- cards -----------------------------------------------------------------------------

/// "now" under a minute (or for a time in the future), else whole minutes,
/// hours or days ago.
pub open spec fn rel_time_spec(age: Option<u64>) -> Seq<char> {
    match age {
        None => "now"@,
        Some(s) => if s < 60 {
            "now"@
        } else if s < 3600 {
            dec((s / 60) as nat) + "m ago"@
        } else if s < 86_400 {
            dec((s / 3600) as nat) + "h ago"@
        } else {
            dec((s / 86_400) as nat) + "d ago"@
        },
    }
}

/// A card's coarse relative time; `age` is the seconds since it was posted,
/// none when its time lies ahead of the clock.
pub fn rel_time(age: Option<u64>) -> (t: String)
    ensures
        t@ == rel_time_spec(age),
{
    match age {
        None => "now".to_owned(),
        Some(s) => {
            if s < 60 {
                "now".to_owned()
            } else {
                let (n, unit) = if s < 3600 {
                    (s / 60, "m ago")
                } else if s < 86_400 {
                    (s / 3600, "h ago")
                } else {
                    (s / 86_400, "d ago")
                };
                let mut t = String::new();
                push_dec(&mut t, n);
                push_str(&mut t, unit);
                t
            }
        }
    }
}

/// A group header's title: the app's name, or "Notifications" for none.
pub fn group_title(app: &str) -> (t: String)
    ensures
        t@ == if app@.len() == 0 { "Notifications"@ } else { app@ },
{
    if app.is_empty() { "Notifications".to_owned() } else { app.to_owned() }
}

// --- grouping the history by app ------------------------------------------------------

/// The positions in `[lo, len)` of the notes from `app`, newest (highest) first.
pub open spec fn members(s: Seq<Notif>, app: Seq<char>, lo: int) -> Seq<usize>
    decreases s.len() - lo,
{
    if lo < 0 || lo >= s.len() {
        Seq::empty()
    } else if s[lo].app_name@ == app {
        members(s, app, lo + 1).push(lo as usize)
    } else {
        members(s, app, lo + 1)
    }
}

/// Some group of `out` is for `app`.
pub open spec fn has_group(out: Seq<(String, Vec<usize>)>, app: Seq<char>) -> bool {
    exists|g: int| 0 <= g < out.len() && (#[trigger] out[g]).0@ == app
}

/// `out` groups the notes at positions `[lo, len)` by app: one group per
/// app, each holding that app's notes newest first, the groups ordered by
/// their newest note, newest first.
pub open spec fn grouped_from(s: Seq<Notif>, out: Seq<(String, Vec<usize>)>, lo: int) -> bool {
    &&& forall|g: int| 0 <= g < out.len() ==> (#[trigger] out[g]).1@ == members(s, out[g].0@, lo)
        && out[g].1@.len() > 0
    &&& forall|g: int, h: int| 0 <= g < h < out.len() ==> (#[trigger] out[g]).0@ != (#[trigger] out[h]).0@
        && out[g].1@[0] > out[h].1@[0]
    &&& forall|j: int| lo <= j < s.len() ==> #[trigger] has_group(out, s[j].app_name@)
    &&& forall|app: Seq<char>| #[trigger] has_group(out, app) ==> exists|j: int| lo <= j < s.len() && s[j].app_name@ == app
}

proof fn lemma_members_bounds(s: Seq<Notif>, app: Seq<char>, lo: int)
    requires
        0 <= lo,
        s.len() <= usize::MAX,
    ensures
        forall|k: int| 0 <= k < members(s, app, lo).len() ==> lo <= #[trigger] members(s, app, lo)[k] < s.len()
            && s[members(s, app, lo)[k] as int].app_name@ == app,
        members(s, app, lo).len() == 0 <==> forall|j: int| lo <= j < s.len() ==> (#[trigger] s[j]).app_name@ != app,
    decreases s.len() - lo,
{
    if lo < s.len() {
        lemma_members_bounds(s, app, lo + 1);
        if members(s, app, lo + 1).len() != 0 {
            assert(lo + 1 <= members(s, app, lo + 1)[0] < s.len());
            let w = members(s, app, lo + 1)[0] as int;
            assert(s[w].app_name@ == app);
        }
        let m = members(s, app, lo);
        let r = members(s, app, lo + 1);
        assert forall|k: int| 0 <= k < m.len() implies lo <= #[trigger] m[k] < s.len() && s[m[k] as int].app_name@ == app by {
            if k < r.len() {
                assert(m[k] == r[k]);
            }
        }
    }
}

/// The history grouped by app, as the pane shows it: the notes newest
/// first, each app's group where its newest note falls; each entry is the
/// app's name and the positions of its notes in `notes`, newest first.
pub fn note_groups(notes: &Vec<Notif>) -> (out: Vec<(String, Vec<usize>)>)
    ensures
        grouped_from(notes@, out@, 0),
{
    let mut out: Vec<(String, Vec<usize>)> = Vec::new();
    let mut lo: usize = notes.len();
    while lo > 0
        invariant
            lo <= notes.len(),
            grouped_from(notes@, out@, lo as int),
        decreases lo,
    {
        let idx = lo - 1;
        let app = chars_of(notes[idx].app_name.as_str());
        let ghost a = notes@[idx as int].app_name@;
        let mut g: usize = 0;
        while g < out.len() && !crate::text::eq_chars(&chars_of(out[g].0.as_str()), &app)
            invariant
                g <= out.len(),
                app@ == a,
                forall|h: int| 0 <= h < g ==> (#[trigger] out@[h]).0@ != a,
            decreases out.len() - g,
        {
            g += 1;
        }
        let ghost old_out = out@;
        proof {
            lemma_members_bounds(notes@, a, lo as int);
            lemma_members_bounds(notes@, a, idx as int);
            assert(members(notes@, a, idx as int) == members(notes@, a, lo as int).push(idx));
        }
        if g < out.len() {
            let mut v = out[g].1.clone();
            v.push(idx);
            let name = out[g].0.clone();
            out.set(g, (name, v));
            proof {
                assert forall|h: int| 0 <= h < out@.len() implies (#[trigger] out@[h]).1@ == members(notes@, out@[h].0@, idx as int)
                    && out@[h].1@.len() > 0 by {
                    if h != g {
                        assert(old_out[h].0@ != a);
                    }
                }
                assert forall|h: int, k: int| 0 <= h < k < out@.len() implies (#[trigger] out@[h]).0@ != (#[trigger] out@[k]).0@
                    && out@[h].1@[0] > out@[k].1@[0] by {
                    assert(old_out[h].0@ != old_out[k].0@ && old_out[h].1@[0] > old_out[k].1@[0]);
                }
                assert forall|j: int| idx <= j < notes@.len() implies #[trigger] has_group(out@, notes@[j].app_name@) by {
                    if j == idx {
                        assert(out@[g as int].0@ == a);
                    } else {
                        assert(has_group(old_out, notes@[j].app_name@));
                        let w = choose|w: int| 0 <= w < old_out.len() && (#[trigger] old_out[w]).0@ == notes@[j].app_name@;
                        assert(out@[w].0@ == old_out[w].0@);
                    }
                }
                assert forall|b: Seq<char>| #[trigger] has_group(out@, b) implies exists|j: int| idx <= j < notes@.len() && notes@[j].app_name@ == b by {
                    let w = choose|w: int| 0 <= w < out@.len() && (#[trigger] out@[w]).0@ == b;
                    assert(old_out[w].0@ == b);
                    assert(has_group(old_out, b));
                }
            }
        } else {
            let mut v: Vec<usize> = Vec::new();
            v.push(idx);
            out.push((notes[idx].app_name.clone(), v));
            proof {
                assert(!has_group(old_out, a));
                assert(members(notes@, a, lo as int).len() == 0);
                assert forall|h: int| 0 <= h < out@.len() implies (#[trigger] out@[h]).1@ == members(notes@, out@[h].0@, idx as int)
                    && out@[h].1@.len() > 0 by {
                    if h < old_out.len() {
                        assert(old_out[h].0@ != a);
                    } else {
                        assert(out@[h].1@ =~= members(notes@, a, idx as int));
                    }
                }
                assert forall|h: int, k: int| 0 <= h < k < out@.len() implies (#[trigger] out@[h]).0@ != (#[trigger] out@[k]).0@
                    && out@[h].1@[0] > out@[k].1@[0] by {
                    if k == old_out.len() {
                        assert(old_out[h].0@ != a);
                        lemma_members_bounds(notes@, old_out[h].0@, lo as int);
                        assert(old_out[h].1@[0] >= lo);
                    } else {
                        assert(old_out[h].0@ != old_out[k].0@ && old_out[h].1@[0] > old_out[k].1@[0]);
                    }
                }
                assert forall|j: int| idx <= j < notes@.len() implies #[trigger] has_group(out@, notes@[j].app_name@) by {
                    if j == idx {
                        assert(out@[old_out.len() as int].0@ == a);
                    } else {
                        assert(has_group(old_out, notes@[j].app_name@));
                        let w = choose|w: int| 0 <= w < old_out.len() && (#[trigger] old_out[w]).0@ == notes@[j].app_name@;
                        assert(out@[w].0@ == old_out[w].0@);
                    }
                }
                assert forall|b: Seq<char>| #[trigger] has_group(out@, b) implies exists|j: int| idx <= j < notes@.len() && notes@[j].app_name@ == b by {
                    let w = choose|w: int| 0 <= w < out@.len() && (#[trigger] out@[w]).0@ == b;
                    if w < old_out.len() {
                        assert(old_out[w].0@ == b);
                        assert(has_group(old_out, b));
                    } else {
                        assert(notes@[idx as int].app_name@ == b);
                    }
                }
            }
        }
        lo = idx;
    }
    out
}

// --- the pane's state --------------------------------------------------------------------

/// The pane: the history, the tiles in order with their states, the
/// backlight level (none without a backlight), and whether the grid shows
/// every tile.
pub struct Center {
    pub notes: Vec<Notif>,
    pub tiles: Vec<(String, bool)>,
    pub brightness: Option<u8>,
    pub expanded: bool,
}

/// What the user did, or what the shell read back.
pub enum CenterMsg {
    Clear(u32),
    ClearGroup(String),
    ClearAll,
    ToggleTile(String),
    /// A tile's state, read again after a toggle.
    TileRead { id: String, on: bool },
    ToggleExpand,
    Brightness(u8),
    BrightnessSet,
    AllSettings,
    Close,
}

/// What the shell must do next.
pub enum CenterEffect {
    Nothing,
    /// Close these notifications on the daemon (`CloseNotification`).
    Dismiss(Vec<u32>),
    /// Run a tile's action, read the tile again and hand back `TileRead`.
    Toggle { id: String, action: TileAction },
    /// `brightnessctl set N%`, once.
    SetBrightness(u8),
    /// Launch `mde settings` and close the pane.
    OpenSettings,
    Exit,
}

pub open spec fn tile_ids(t: Seq<(String, bool)>) -> Seq<Seq<char>> {
    t.map_values(|p: (String, bool)| p.0@)
}

/// `k` is the first tile with id `id`.
pub open spec fn first_tile(t: Seq<(String, bool)>, id: Seq<char>, k: int) -> bool {
    0 <= k < t.len() && t[k].0@ == id && forall|j: int| 0 <= j < k ==> (#[trigger] t[j]).0@ != id
}

pub open spec fn no_tile(t: Seq<(String, bool)>, id: Seq<char>) -> bool {
    forall|j: int| 0 <= j < t.len() ==> (#[trigger] t[j]).0@ != id
}

pub open spec fn note_ids_where(s: Seq<Notif>, app: Seq<char>) -> Seq<u32> {
    s.filter(|n: Notif| n.app_name@ == app).map_values(|n: Notif| n.id)
}

/// Nothing in the pane changed.
pub open spec fn unchanged(o: Center, f: Center) -> bool {
    f.notes@ == o.notes@ && f.tiles@ == o.tiles@ && f.brightness == o.brightness && f.expanded == o.expanded
}

/// The pane after one message, and what the shell must do next.
pub open spec fn center_step(o: Center, msg: CenterMsg, f: Center, eff: CenterEffect) -> bool {
    match msg {
        CenterMsg::Clear(id) => {
            &&& f.notes@ == o.notes@.filter(|n: Notif| n.id != id)
            &&& eff matches CenterEffect::Dismiss(v) && v@ == seq![id]
            &&& f.tiles@ == o.tiles@ && f.brightness == o.brightness && f.expanded == o.expanded
        },
        CenterMsg::ClearGroup(app) => {
            &&& f.notes@ == o.notes@.filter(|n: Notif| n.app_name@ != app@)
            &&& eff matches CenterEffect::Dismiss(v) && v@ == note_ids_where(o.notes@, app@)
            &&& f.tiles@ == o.tiles@ && f.brightness == o.brightness && f.expanded == o.expanded
        },
        CenterMsg::ClearAll => {
            &&& f.notes@.len() == 0
            &&& eff matches CenterEffect::Dismiss(v) && v@ == o.notes@.map_values(|n: Notif| n.id)
            &&& f.tiles@ == o.tiles@ && f.brightness == o.brightness && f.expanded == o.expanded
        },
        CenterMsg::ToggleTile(id) => {
            &&& f.notes@ == o.notes@ && f.tiles@ == o.tiles@ && f.brightness == o.brightness
                && f.expanded == o.expanded
            &&& if exists|k: int| first_tile(o.tiles@, id@, k) {
                let k = choose|k: int| first_tile(o.tiles@, id@, k);
                eff matches CenterEffect::Toggle { id: t, action } && t@ == id@
                    && toggles(id@, o.tiles@[k].1, action)
            } else {
                eff is Nothing
            }
        },
        CenterMsg::TileRead { id, on } => {
            &&& f.notes@ == o.notes@ && eff is Nothing && f.brightness == o.brightness && f.expanded == o.expanded
            &&& tile_ids(f.tiles@) == tile_ids(o.tiles@)
            &&& if exists|k: int| first_tile(o.tiles@, id@, k) {
                let k = choose|k: int| first_tile(o.tiles@, id@, k);
                &&& f.tiles@[k].1 == on
                &&& forall|j: int| 0 <= j < o.tiles@.len() && j != k ==> (#[trigger] f.tiles@[j]).1 == o.tiles@[j].1
            } else {
                forall|j: int| 0 <= j < o.tiles@.len() ==> (#[trigger] f.tiles@[j]).1 == o.tiles@[j].1
            }
        },
        CenterMsg::ToggleExpand => f.notes@ == o.notes@ && f.tiles@ == o.tiles@ && f.brightness == o.brightness
            && f.expanded == !o.expanded && eff is Nothing,
        CenterMsg::Brightness(v) => f.notes@ == o.notes@ && f.tiles@ == o.tiles@ && f.expanded == o.expanded
            && f.brightness == Some(v) && eff is Nothing,
        CenterMsg::BrightnessSet => f.notes@ == o.notes@ && f.tiles@ == o.tiles@ && f.expanded == o.expanded
            && f.brightness == o.brightness && match o.brightness {
            Some(v) => eff == CenterEffect::SetBrightness(v),
            None => eff is Nothing,
        },
        CenterMsg::AllSettings => eff is OpenSettings && unchanged(o, f),
        CenterMsg::Close => eff is Exit && unchanged(o, f),
    }
}

/// `a` is what clicking tile `id` does when it is `on`.
pub open spec fn toggles(id: Seq<char>, on: bool, a: TileAction) -> bool {
    &&& id == "focus"@ ==> a == TileAction::SetFocus(!on)
    &&& id != "focus"@ ==> match toggle_spec(id, on) {
        Some(c) => a matches TileAction::Run(r) && r@ == c,
        None => a is Nothing,
    }
}

fn first_tile_of(t: &Vec<(String, bool)>, id: &str) -> (r: Option<usize>)
    ensures
        match r {
            Some(k) => first_tile(t@, id@, k as int),
            None => no_tile(t@, id@),
        },
{
    let v = chars_of(id);
    let mut k: usize = 0;
    while k < t.len()
        invariant
            k <= t.len(),
            v@ == id@,
            forall|j: int| 0 <= j < k ==> (#[trigger] t@[j]).0@ != id@,
        decreases t.len() - k,
    {
        if crate::text::eq_chars(&chars_of(t[k].0.as_str()), &v) {
            return Some(k);
        }
        k += 1;
    }
    None
}

proof fn lemma_first_tile_unique(t: Seq<(String, bool)>, id: Seq<char>, k: int, m: int)
    requires
        first_tile(t, id, k),
        first_tile(t, id, m),
    ensures
        k == m,
{
    if k < m {
        assert(t[k].0@ != id);
    }
    if m < k {
        assert(t[m].0@ != id);
    }
}

/// The ids of the notes from app `app`, in order.
fn ids_where(notes: &Vec<Notif>, app: &str) -> (v: Vec<u32>)
    ensures
        v@ == note_ids_where(notes@, app@),
{
    let a = chars_of(app);
    let mut v: Vec<u32> = Vec::new();
    let mut i: usize = 0;
    while i < notes.len()
        invariant
            i <= notes.len(),
            a@ == app@,
            v@ == note_ids_where(notes@.take(i as int), app@),
        decreases notes.len() - i,
    {
        proof {
            reveal(Seq::filter);
            assert(notes@.take(i + 1).drop_last() =~= notes@.take(i as int));
        }
        let ghost before = v@;
        if crate::text::eq_chars(&chars_of(notes[i].app_name.as_str()), &a) {
            v.push(notes[i].id);
            proof {
                assert(notes@.take(i + 1).filter(|n: Notif| n.app_name@ == app@)
                    =~= notes@.take(i as int).filter(|n: Notif| n.app_name@ == app@).push(notes@[i as int]));
                assert(v@ =~= note_ids_where(notes@.take(i + 1), app@));
            }
        } else {
            proof {
                assert(notes@.take(i + 1).filter(|n: Notif| n.app_name@ == app@)
                    =~= notes@.take(i as int).filter(|n: Notif| n.app_name@ == app@));
            }
        }
        i += 1;
    }
    assert(notes@.take(notes.len() as int) =~= notes@);
    v
}

/// Drop the notes from app `app`, keeping the rest in order.
fn drop_app(store: &mut Vec<Notif>, app: &str)
    ensures
        final(store)@ == old(store)@.filter(|n: Notif| n.app_name@ != app@),
{
    let a = chars_of(app);
    let ghost orig = store@;
    let ghost mut j: int = 0;
    let mut i: usize = 0;
    assert(orig.take(0) =~= Seq::<Notif>::empty());
    assert(store@.take(0) =~= Seq::<Notif>::empty());
    proof {
        reveal(Seq::filter);
    }
    assert(orig.skip(0) =~= orig);
    assert(store@.skip(0) =~= store@);
    while i < store.len()
        invariant
            0 <= j <= orig.len(),
            i <= store.len(),
            a@ == app@,
            store@.take(i as int) == orig.take(j).filter(|n: Notif| n.app_name@ != app@),
            store@.skip(i as int) == orig.skip(j),
        decreases store.len() - i,
    {
        proof {
            reveal(Seq::filter);
        }
        let ghost s0 = store@;
        assert(s0.skip(i as int).len() == s0.len() - i);
        assert(orig.skip(j).len() == orig.len() - j);
        assert(s0.skip(i as int)[0] == s0[i as int]);
        assert(orig.skip(j)[0] == orig[j]);
        assert(orig[j] == s0[i as int]);
        assert(orig.take(j + 1).drop_last() =~= orig.take(j));
        if crate::text::eq_chars(&chars_of(store[i].app_name.as_str()), &a) {
            store.remove(i);
            assert(store@.take(i as int) =~= s0.take(i as int));
            assert forall|k: int| 0 <= k < store@.skip(i as int).len() implies #[trigger] store@.skip(i as int)[k] == orig.skip(j + 1)[k] by {
                assert(store@.skip(i as int)[k] == s0.skip(i as int)[k + 1]);
                assert(orig.skip(j)[k + 1] == orig.skip(j + 1)[k]);
            }
            assert(store@.skip(i as int) =~= orig.skip(j + 1));
        } else {
            assert(store@.take(i + 1) =~= s0.take(i as int).push(s0[i as int]));
            assert forall|k: int| 0 <= k < store@.skip(i + 1).len() implies #[trigger] store@.skip(i + 1)[k] == orig.skip(j + 1)[k] by {
                assert(store@.skip(i + 1)[k] == s0.skip(i as int)[k + 1]);
                assert(orig.skip(j)[k + 1] == orig.skip(j + 1)[k]);
            }
            assert(store@.skip(i + 1) =~= orig.skip(j + 1));
            i += 1;
        }
        proof {
            j = j + 1;
        }
    }
    assert(store@.skip(i as int).len() == 0);
    assert(j == orig.len());
    assert(orig.take(j) =~= orig);
    assert(store@.take(i as int) =~= store@);
}

impl Center {
    /// The pane's reaction to one message.
    pub fn handle(&mut self, msg: CenterMsg) -> (eff: CenterEffect)
        ensures
            center_step(*old(self), msg, *final(self), eff),
    {
        match msg {
            CenterMsg::Clear(id) => {
                close_notification(&mut self.notes, id);
                let mut v: Vec<u32> = Vec::new();
                v.push(id);
                assert(v@ =~= seq![id]);
                CenterEffect::Dismiss(v)
            }
            CenterMsg::ClearGroup(app) => {
                let ids = ids_where(&self.notes, app.as_str());
                drop_app(&mut self.notes, app.as_str());
                CenterEffect::Dismiss(ids)
            }
            CenterMsg::ClearAll => {
                let mut ids: Vec<u32> = Vec::new();
                let mut i: usize = 0;
                while i < self.notes.len()
                    invariant
                        i <= self.notes.len(),
                        ids@ == self.notes@.take(i as int).map_values(|n: Notif| n.id),
                    decreases self.notes.len() - i,
                {
                    ids.push(self.notes[i].id);
                    assert(self.notes@.take(i + 1).map_values(|n: Notif| n.id)
                        =~= self.notes@.take(i as int).map_values(|n: Notif| n.id).push(self.notes@[i as int].id));
                    i += 1;
                }
                assert(self.notes@.take(self.notes.len() as int) =~= self.notes@);
                self.notes = Vec::new();
                CenterEffect::Dismiss(ids)
            }
            CenterMsg::ToggleTile(id) => match first_tile_of(&self.tiles, id.as_str()) {
                Some(k) => {
                    let action = toggle_tile(id.as_str(), self.tiles[k].1);
                    proof {
                        assert(exists|m: int| first_tile(self.tiles@, id@, m));
                        let m = choose|m: int| first_tile(self.tiles@, id@, m);
                        lemma_first_tile_unique(self.tiles@, id@, k as int, m);
                    }
                    CenterEffect::Toggle { id, action }
                }
                None => CenterEffect::Nothing,
            },
            CenterMsg::TileRead { id, on } => {
                match first_tile_of(&self.tiles, id.as_str()) {
                    Some(k) => {
                        let ghost t0 = self.tiles@;
                        let (name, _) = self.tiles.remove(k);
                        self.tiles.insert(k, (name, on));
                        proof {
                            assert(exists|m: int| first_tile(t0, id@, m));
                            let m = choose|m: int| first_tile(t0, id@, m);
                            lemma_first_tile_unique(t0, id@, k as int, m);
                            assert(self.tiles@ =~= t0.update(k as int, (t0[k as int].0, on)));
                            assert(tile_ids(self.tiles@) =~= tile_ids(t0));
                        }
                    }
                    None => {}
                }
                CenterEffect::Nothing
            }
            CenterMsg::ToggleExpand => {
                self.expanded = !self.expanded;
                CenterEffect::Nothing
            }
            CenterMsg::Brightness(v) => {
                self.brightness = Some(v);
                CenterEffect::Nothing
            }
            CenterMsg::BrightnessSet => match self.brightness {
                Some(v) => CenterEffect::SetBrightness(v),
                None => CenterEffect::Nothing,
            },
            CenterMsg::AllSettings => CenterEffect::OpenSettings,
            CenterMsg::Close => CenterEffect::Exit,
        }
    }
}


// --- what a click does to the tile ---------------------------------------------------

/// What a tile's probe reports once `cmd` has run on a tile that was `on`
/// before: `nmcli radio wifi off/on` leaves the radio disabled/enabled,
/// `rfkill block` soft-blocks the radios and `rfkill unblock` lifts the
/// block, the mute toggle flips the sink's mute, `pkill -x wlsunset` stops
/// night light (no pid left) and `wlsunset` starts it (a pid).
pub open spec fn probe_after(cmd: Seq<char>, on: bool) -> Seq<char> {
    if cmd == "nmcli radio wifi off"@ {
        "disabled"@
    } else if cmd == "nmcli radio wifi on"@ {
        "enabled"@
    } else if cmd == "rfkill block bluetooth"@ || cmd == "rfkill block all"@ {
        "Soft blocked: yes"@
    } else if cmd == "rfkill unblock bluetooth"@ || cmd == "rfkill unblock all"@ {
        "Soft blocked: no"@
    } else if cmd == "wpctl set-mute @DEFAULT_AUDIO_SINK@ toggle"@ {
        if on { "Volume: 1.00"@ } else { "Volume: 1.00 [MUTED]"@ }
    } else if cmd == "pkill -x wlsunset"@ {
        seq![]
    } else if cmd == "wlsunset"@ {
        "1"@
    } else {
        seq![]
    }
}

proof fn lemma_contains_self(x: Seq<char>)
    ensures
        contains(x, x),
{
    assert(x.subrange(0, x.len() as int) =~= x);
    assert(crate::text::occurs_at(x, x, 0));
}

proof fn lemma_not_contains_longer(s: Seq<char>, p: Seq<char>)
    requires
        p.len() > s.len(),
    ensures
        !contains(s, p),
{
}

proof fn lemma_not_contains_missing(s: Seq<char>, p: Seq<char>)
    requires
        p.len() > 0,
        crate::lines::free_of(s, p[0]),
    ensures
        !contains(s, p),
{
    assert forall|i: int| !crate::text::occurs_at(s, p, i) by {
        if crate::text::occurs_at(s, p, i) {
            assert(s.subrange(i, i + p.len())[0] == s[i]);
        }
    }
}

proof fn lemma_trim_word(w: Seq<char>)
    requires
        w.len() > 0,
        !crate::text::is_ws(w[0]),
        !crate::text::is_ws(w.last()),
    ensures
        trim(w) == w,
{
    assert(crate::text::trim_start(w) == w);
    assert(crate::text::trim_end(w) == w);
}

/// Clicking a tile flips it: the command a click runs on a tile that is
/// `on` leaves its probe reporting the opposite state (focus assist saves
/// the opposite flag).
pub proof fn law_toggle_flips_tile(id: Seq<char>, on: bool, focus: bool, a: TileAction)
    requires
        toggles(id, on, a),
        tile_probe_spec(id) is Some || id == "focus"@,
    ensures
        match a {
            TileAction::Run(c) => tile_on_spec(id, probe_after(c@, on), focus) == !on,
            TileAction::SetFocus(f) => tile_on_spec(id, seq![], f) == !on,
            TileAction::Nothing => false,
        },
{
    reveal_strlit("wifi");
    reveal_strlit("bluetooth");
    reveal_strlit("airplane");
    reveal_strlit("mute");
    reveal_strlit("focus");
    reveal_strlit("nightlight");
    reveal_strlit("nmcli radio wifi off");
    reveal_strlit("nmcli radio wifi on");
    reveal_strlit("rfkill block bluetooth");
    reveal_strlit("rfkill unblock bluetooth");
    reveal_strlit("rfkill block all");
    reveal_strlit("rfkill unblock all");
    reveal_strlit("wpctl set-mute @DEFAULT_AUDIO_SINK@ toggle");
    reveal_strlit("pkill -x wlsunset");
    reveal_strlit("wlsunset");
    reveal_strlit("disabled");
    reveal_strlit("enabled");
    reveal_strlit("Soft blocked: yes");
    reveal_strlit("Soft blocked: no");
    reveal_strlit("Soft blocked");
    reveal_strlit("Volume: 1.00");
    reveal_strlit("Volume: 1.00 [MUTED]");
    reveal_strlit("MUTED");
    reveal_strlit("1");
    assert("wifi"@ != "focus"@) by { assert("wifi"@[0] != "focus"@[0]); }
    assert("mute"@ != "focus"@) by { assert("mute"@[0] != "focus"@[0]); }
    assert("bluetooth"@ != "focus"@) by { assert("bluetooth"@[0] != "focus"@[0]); }
    assert("airplane"@ != "focus"@) by { assert("airplane"@[0] != "focus"@[0]); }
    assert("nightlight"@ != "focus"@) by { assert("nightlight"@[0] != "focus"@[0]); }
    let c1 = "nmcli radio wifi off"@;
    let c2 = "nmcli radio wifi on"@;
    let c3 = "rfkill block bluetooth"@;
    let c4 = "rfkill block all"@;
    let c5 = "rfkill unblock bluetooth"@;
    let c6 = "rfkill unblock all"@;
    let c7 = "wpctl set-mute @DEFAULT_AUDIO_SINK@ toggle"@;
    let c8 = "pkill -x wlsunset"@;
    let c9 = "wlsunset"@;
    assert(c2 != c1) by { assert(c2[18] != c1[18]); }
    assert(c3 != c1 && c3 != c2) by { assert(c3[0] != c1[0]); }
    assert(c4 != c1 && c4 != c2) by { assert(c4[0] != c1[0]); }
    assert(c5 != c1 && c5 != c2 && c5 != c3 && c5 != c4) by { assert(c5[0] != c1[0] && c5[7] != c3[7]); }
    assert(c6 != c1 && c6 != c2 && c6 != c3 && c6 != c4) by { assert(c6[0] != c1[0] && c6[7] != c3[7]); }
    assert(c7 != c1 && c7 != c2 && c7 != c3 && c7 != c4 && c7 != c5 && c7 != c6) by {
        assert(c7[0] != c1[0] && c7[0] != c3[0]);
    }
    assert(c8 != c1 && c8 != c2 && c8 != c3 && c8 != c4 && c8 != c5 && c8 != c6 && c8 != c7) by {
        assert(c8[0] != c1[0] && c8[0] != c3[0] && c8[0] != c7[0]);
    }
    assert(c9 != c1 && c9 != c2 && c9 != c3 && c9 != c4 && c9 != c5 && c9 != c6 && c9 != c7 && c9 != c8) by {
        assert(c9[0] != c1[0] && c9[0] != c3[0] && c9[1] != c7[1] && c9[0] != c8[0]);
    }
    if id == "wifi"@ {
        if on {
            lemma_trim_word("disabled"@);
        } else {
            lemma_trim_word("enabled"@);
        }
    } else if id == "bluetooth"@ {
        if on {
            lemma_contains_self("Soft blocked: yes"@);
        } else {
            lemma_not_contains_longer("Soft blocked: no"@, "Soft blocked: yes"@);
        }
    } else if id == "airplane"@ {
        let yes = "Soft blocked: yes"@;
        let no = "Soft blocked: no"@;
        if on {
            lemma_contains_self(no);
        } else {
            assert forall|i: int| !crate::text::occurs_at(yes, no, i) by {
                if crate::text::occurs_at(yes, no, i) {
                    assert(yes.subrange(i, i + 16)[0] == yes[i]);
                    assert(yes.subrange(i, i + 16)[14] == yes[i + 14]);
                }
            }
            assert(yes.subrange(0, 12) =~= "Soft blocked"@);
            assert(crate::text::occurs_at(yes, "Soft blocked"@, 0));
        }
    } else if id == "mute"@ {
        if on {
            lemma_not_contains_missing("Volume: 1.00"@, "MUTED"@);
        } else {
            let m = "Volume: 1.00 [MUTED]"@;
            assert(m.subrange(14, 19) =~= "MUTED"@);
            assert(crate::text::occurs_at(m, "MUTED"@, 14));
        }
    } else if id == "nightlight"@ {
        if !on {
            lemma_trim_word("1"@);
        }
    }
    if id != "focus"@ {
        assert(tile_on_spec(id, probe_after(toggle_spec(id, on)->0, on), focus) == !on);
        assert(toggle_spec(id, on) is Some);
        match a {
            TileAction::Run(c) => {
                assert(c@ == toggle_spec(id, on)->0);
            },
            _ => {
                assert(false);
            },
        }
    } else {
        assert(tile_on_spec(id, seq![], !on) == !on);
    }
}

} // verus!
