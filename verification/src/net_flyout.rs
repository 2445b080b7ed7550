//! The network flyout: signal bars, the Wi-Fi and airplane toggles, and
//! connecting to a network (open ones at once, secured ones after the key
//! is typed).

use vstd::prelude::*;
use crate::nm::{Conn, Wifi};
use crate::text::chars_of;

verus! {

/// A one-to-four bar indicator for a signal percentage.
pub fn signal_bars(pct: u8) -> (b: &'static str)
    ensures
        b@ == if pct <= 25 {
            "\u{2582}"@
        } else if pct <= 50 {
            "\u{2582}\u{2584}"@
        } else if pct <= 75 {
            "\u{2582}\u{2584}\u{2586}"@
        } else {
            "\u{2582}\u{2584}\u{2586}\u{2588}"@
        },
{
    if pct <= 25 {
        "\u{2582}"
    } else if pct <= 50 {
        "\u{2582}\u{2584}"
    } else if pct <= 75 {
        "\u{2582}\u{2584}\u{2586}"
    } else {
        "\u{2582}\u{2584}\u{2586}\u{2588}"
    }
}

/// The flyout: active connections, visible networks, the radios, and the
/// network whose key is being typed.
pub struct Flyout {
    pub conns: Vec<Conn>,
    pub wifis: Vec<Wifi>,
    pub wifi_on: bool,
    pub airplane: bool,
    pub selected: Option<String>,
    pub password: String,
}

/// What the user did, or what the shell read back.
pub enum FlyoutMsg {
    ToggleWifi,
    /// The Wi-Fi radio and networks, read after a toggle.
    WifiRead { on: bool, wifis: Vec<Wifi> },
    ToggleAirplane,
    /// Airplane mode and the Wi-Fi radio, read after a toggle.
    AirplaneRead { airplane: bool, wifi_on: bool },
    OpenSettings,
    SelectSsid(String),
    Password(String),
    Connect,
    /// The active connections, read after a connect.
    ConnsRead(Vec<Conn>),
    Close,
}

/// What the shell must do next.
pub enum FlyoutEffect {
    Nothing,
    /// Switch the Wi-Fi radio on or off, then hand back `WifiRead`.
    SetWifi(bool),
    /// Switch airplane mode on or off, then hand back `AirplaneRead`.
    SetAirplane(bool),
    /// Connect to a network with a key (empty for an open one), then hand
    /// back `ConnsRead`.
    Connect { ssid: String, key: String },
    /// Open Settings at Network and close.
    OpenSettings,
    Exit,
}

/// Some visible network with this name is secured.
pub open spec fn is_secured(ws: Seq<Wifi>, ssid: Seq<char>) -> bool {
    exists|k: int| 0 <= k < ws.len() && (#[trigger] ws[k]).ssid@ == ssid && ws[k].secured
}

pub open spec fn sel_view(s: Option<String>) -> Option<Seq<char>> {
    match s {
        Some(x) => Some(x@),
        None => None,
    }
}

/// The flyout as plain values: connections, networks, the two radios, the
/// network whose key is being typed, and the key typed so far.
pub open spec fn fly_view(x: Flyout) -> (Seq<Conn>, Seq<Wifi>, bool, bool, Option<Seq<char>>, Seq<char>) {
    (x.conns@, x.wifis@, x.wifi_on, x.airplane, sel_view(x.selected), x.password@)
}

/// The flyout after one message, and what the shell must do next.
pub open spec fn flyout_step(o: Flyout, msg: FlyoutMsg, f: Flyout, eff: FlyoutEffect) -> bool {
    let (conns, wifis, wifi_on, airplane, sel, key) = fly_view(o);
    match msg {
        FlyoutMsg::ToggleWifi => eff == FlyoutEffect::SetWifi(!o.wifi_on) && fly_view(f) == fly_view(o),
        FlyoutMsg::WifiRead { on, wifis: w } => eff is Nothing
            && fly_view(f) == (conns, w@, on, airplane, sel, key),
        FlyoutMsg::ToggleAirplane => eff == FlyoutEffect::SetAirplane(!o.airplane) && fly_view(f) == fly_view(o),
        FlyoutMsg::AirplaneRead { airplane: a, wifi_on: w } => eff is Nothing
            && fly_view(f) == (conns, wifis, w, a, sel, key),
        FlyoutMsg::OpenSettings => eff is OpenSettings && fly_view(f) == fly_view(o),
        FlyoutMsg::SelectSsid(ssid) => if is_secured(o.wifis@, ssid@) {
            eff is Nothing && fly_view(f) == (conns, wifis, wifi_on, airplane, Some(ssid@), Seq::<char>::empty())
        } else {
            &&& fly_view(f) == fly_view(o)
            &&& eff matches FlyoutEffect::Connect { ssid: s, key: k } && s@ == ssid@ && k@.len() == 0
        },
        FlyoutMsg::Password(p) => eff is Nothing && fly_view(f) == (conns, wifis, wifi_on, airplane, sel, p@),
        FlyoutMsg::Connect => match o.selected {
            Some(s) => {
                &&& fly_view(f) == (conns, wifis, wifi_on, airplane, None::<Seq<char>>, Seq::<char>::empty())
                &&& eff matches FlyoutEffect::Connect { ssid, key: k } && ssid@ == s@ && k@ == key
            },
            None => eff is Nothing && fly_view(f) == fly_view(o),
        },
        FlyoutMsg::ConnsRead(c) => eff is Nothing && fly_view(f) == (c@, wifis, wifi_on, airplane, sel, key),
        FlyoutMsg::Close => eff is Exit && fly_view(f) == fly_view(o),
    }
}

fn secured_in(ws: &Vec<Wifi>, ssid: &str) -> (b: bool)
    ensures
        b == is_secured(ws@, ssid@),
{
    let sv = chars_of(ssid);
    let mut i: usize = 0;
    while i < ws.len()
        invariant
            i <= ws.len(),
            sv@ == ssid@,
            forall|k: int| 0 <= k < i ==> !((#[trigger] ws@[k]).ssid@ == ssid@ && ws@[k].secured),
        decreases ws.len() - i,
    {
        if ws[i].secured && crate::text::eq_chars(&chars_of(ws[i].ssid.as_str()), &sv) {
            return true;
        }
        i += 1;
    }
    false
}

impl Flyout {
    /// The flyout's reaction to one message.
    pub fn handle(&mut self, msg: FlyoutMsg) -> (eff: FlyoutEffect)
        ensures
            flyout_step(*old(self), msg, *final(self), eff),
    {
        match msg {
            FlyoutMsg::ToggleWifi => FlyoutEffect::SetWifi(!self.wifi_on),
            FlyoutMsg::WifiRead { on, wifis } => {
                self.wifi_on = on;
                self.wifis = wifis;
                FlyoutEffect::Nothing
            }
            FlyoutMsg::ToggleAirplane => FlyoutEffect::SetAirplane(!self.airplane),
            FlyoutMsg::AirplaneRead { airplane, wifi_on } => {
                self.airplane = airplane;
                self.wifi_on = wifi_on;
                FlyoutEffect::Nothing
            }
            FlyoutMsg::OpenSettings => FlyoutEffect::OpenSettings,
            FlyoutMsg::SelectSsid(ssid) => {
                if secured_in(&self.wifis, ssid.as_str()) {
                    self.selected = Some(ssid);
                    self.password = String::new();
                    FlyoutEffect::Nothing
                } else {
                    FlyoutEffect::Connect { ssid, key: String::new() }
                }
            }
            FlyoutMsg::Password(p) => {
                self.password = p;
                FlyoutEffect::Nothing
            }
            FlyoutMsg::Connect => {
                let sel = self.selected.take();
                match sel {
                    Some(s) => {
                        let mut key = String::new();
                        std::mem::swap(&mut key, &mut self.password);
                        FlyoutEffect::Connect { ssid: s, key }
                    }
                    None => FlyoutEffect::Nothing,
                }
            }
            FlyoutMsg::ConnsRead(c) => {
                self.conns = c;
                FlyoutEffect::Nothing
            }
            FlyoutMsg::Close => FlyoutEffect::Exit,
        }
    }
}

} // verus!
