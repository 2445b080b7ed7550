//! AutoPlay for removable storage: what to do when a removable filesystem
//! appears (open it in Files, notify, or nothing), per media type.
//!
//! The classification (removable drive vs memory card) and the act/skip
//! decision live here; the udisks2 D-Bus plumbing around them is the shell's.

use vstd::prelude::*;
use crate::text::{cat3, chars_of, contains, eq_ignore_ascii_case, eq_ignore_case_str, eq_str, has, lowercase, string_of, to_lowercase};

verus! {

/// What AutoPlay does for a media type.
#[derive(Debug, Clone, Copy, PartialEq, Eq, Structural)]
pub enum Action {
    /// Open the mounted volume in `mde files`.
    Open,
    /// Notify the user it's ready (a degraded "ask me what to do").
    Ask,
    /// Do nothing.
    Nothing,
}

/// The action a persisted key names; unknown keys mean `Open`.
pub open spec fn action_of_key(s: Seq<char>) -> Action {
    if s == "ask"@ {
        Action::Ask
    } else if s == "nothing"@ {
        Action::Nothing
    } else {
        Action::Open
    }
}

impl Action {
    /// Parse a persisted action key (`open` / `ask` / `nothing`).
    pub fn from_key(s: &str) -> (a: Action)
        ensures
            a == action_of_key(s@),
    {
        let v = chars_of(s);
        if eq_str(&v, "ask") {
            Action::Ask
        } else if eq_str(&v, "nothing") {
            Action::Nothing
        } else {
            Action::Open
        }
    }
}

/// The kind of removable media that appeared.
#[derive(Debug, Clone, Copy, PartialEq, Eq, Structural)]
pub enum DeviceKind {
    RemovableDrive,
    MemoryCard,
}

/// AutoPlay settings.
#[derive(Debug, Clone, Copy, PartialEq, Eq, Structural)]
pub struct Config {
    pub enabled: bool,
    pub removable: Action,
    pub memory_card: Action,
}

impl Config {
    /// The configuration from the persisted AutoPlay settings: the master
    /// switch and the action keys for removable drives and memory cards.
    pub fn load(enabled: bool, removable_key: &str, memcard_key: &str) -> (c: Config)
        ensures
            c.enabled == enabled,
            c.removable == action_of_key(removable_key@),
            c.memory_card == action_of_key(memcard_key@),
    {
        Config {
            enabled,
            removable: Action::from_key(removable_key),
            memory_card: Action::from_key(memcard_key),
        }
    }

    /// The per-type action for `kind`.
    pub fn action_for(&self, kind: DeviceKind) -> (a: Action)
        ensures
            a == (match kind {
                DeviceKind::RemovableDrive => self.removable,
                DeviceKind::MemoryCard => self.memory_card,
            }),
    {
        match kind {
            DeviceKind::RemovableDrive => self.removable,
            DeviceKind::MemoryCard => self.memory_card,
        }
    }
}

/// Whether already-lowercased udisks2 `Media` and the `ConnectionBus` name a
/// memory card: SD/MMC/CF/MS/SM flash, or the SDIO bus.
pub open spec fn is_card(media_lower: Seq<char>, bus: Seq<char>) -> bool {
    contains(media_lower, "flash_sd"@) || contains(media_lower, "flash_mmc"@)
        || contains(media_lower, "flash_cf"@) || contains(media_lower, "flash_ms"@)
        || contains(media_lower, "flash_sm"@) || eq_ignore_ascii_case(bus, "sdio"@)
}

/// Classify a drive from its lowercased `Media` and its `ConnectionBus`.
pub fn classify_lowercased(media_lower: &str, connection_bus: &str) -> (k: DeviceKind)
    ensures
        k == (if is_card(media_lower@, connection_bus@) {
            DeviceKind::MemoryCard
        } else {
            DeviceKind::RemovableDrive
        }),
{
    let m = chars_of(media_lower);
    let bus = chars_of(connection_bus);
    let card = has(&m, "flash_sd") || has(&m, "flash_mmc") || has(&m, "flash_cf")
        || has(&m, "flash_ms") || has(&m, "flash_sm") || eq_ignore_case_str(&bus, "sdio");
    if card {
        DeviceKind::MemoryCard
    } else {
        DeviceKind::RemovableDrive
    }
}

/// Classify a drive by its udisks2 `Media`/`ConnectionBus`. SD/MMC/CF/MS flash
/// and the SDIO bus are memory cards; everything else removable is a drive.
pub fn classify(media: &str, connection_bus: &str) -> (k: DeviceKind)
    ensures
        k == (if is_card(lowercase(media@), connection_bus@) {
            DeviceKind::MemoryCard
        } else {
            DeviceKind::RemovableDrive
        }),
{
    let mv = chars_of(media);
    let lower = to_lowercase(&mv);
    let ls = string_of(&lower);
    classify_lowercased(ls.as_str(), connection_bus)
}

/// What to do for this media, given the config. AutoPlay off means nothing.
pub fn decide(cfg: &Config, kind: DeviceKind) -> (a: Action)
    ensures
        a == (if !cfg.enabled {
            Action::Nothing
        } else {
            match kind {
                DeviceKind::RemovableDrive => cfg.removable,
                DeviceKind::MemoryCard => cfg.memory_card,
            }
        }),
{
    if !cfg.enabled {
        return Action::Nothing;
    }
    cfg.action_for(kind)
}

/// The kind a drive's `Media` and `ConnectionBus` name.
pub open spec fn kind_of(media: Seq<char>, bus: Seq<char>) -> DeviceKind {
    if is_card(lowercase(media), bus) { DeviceKind::MemoryCard } else { DeviceKind::RemovableDrive }
}

/// What the config does for a kind.
pub open spec fn decision(cfg: Config, k: DeviceKind) -> Action {
    if !cfg.enabled {
        Action::Nothing
    } else {
        match k {
            DeviceKind::RemovableDrive => cfg.removable,
            DeviceKind::MemoryCard => cfg.memory_card,
        }
    }
}

/// The reaction to a filesystem that appeared, from its block device's
/// hints and drive path and its drive's removability, media and bus: none
/// with AutoPlay off, for an ignored or system device, a device without a
/// drive, a fixed drive, or a kind whose action is Nothing; else the kind
/// and its action.
pub fn autoplay_reaction(cfg: &Config, hint_ignore: bool, hint_system: bool, drive_path: &str, removable: bool,
    media: &str, bus: &str) -> (r: Option<(DeviceKind, Action)>)
    ensures
        r == if !cfg.enabled || hint_ignore || hint_system || drive_path@.len() == 0 || drive_path@ == "/"@
            || !removable {
            None
        } else {
            let k = kind_of(media@, bus@);
            let a = decision(*cfg, k);
            if a == Action::Nothing { None } else { Some((k, a)) }
        },
{
    if !cfg.enabled || hint_ignore || hint_system {
        return None;
    }
    let dp = chars_of(drive_path);
    if dp.len() == 0 || eq_str(&dp, "/") || !removable {
        return None;
    }
    let k = classify(media, bus);
    let a = decide(cfg, k);
    if a == Action::Nothing { None } else { Some((k, a)) }
}

/// The Ask notification for a mounted volume: its summary and body.
pub fn ask_notification(kind: DeviceKind, mp: &str) -> (r: (String, String))
    ensures
        r.0@ == (match kind {
            DeviceKind::MemoryCard => "Memory card"@,
            DeviceKind::RemovableDrive => "Removable drive"@,
        }) + " ready"@,
        r.1@ == "Mounted at "@ + mp@ + " \u{2014} open it in Files?"@,
{
    let label = match kind {
        DeviceKind::MemoryCard => "Memory card",
        DeviceKind::RemovableDrive => "Removable drive",
    };
    (crate::text::cat2(label, " ready"), cat3("Mounted at ", mp, " \u{2014} open it in Files?"))
}

} // verus!
