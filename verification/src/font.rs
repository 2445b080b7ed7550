//! The MDE-Retro UI font families.
//!
//! Windows 2000's Tahoma isn't freely distributable, so the shell ships Droid
//! Sans; the BeOS, Carbon and Windows 10 themes use IBM Plex Sans.

use vstd::prelude::*;
use crate::palette::{PaletteState, Theme};

verus! {

/// The Windows 2000 UI font (Tahoma stand-in).
pub const FAMILY: &'static str = "Droid Sans";
/// IBM Plex Sans, the BeOS / Carbon / Windows 10 UI font.
pub const PLEX_FAMILY: &'static str = "IBM Plex Sans";
/// The Nerd Font family used for notification-area glyph icons.
pub const NERD_FAMILY: &'static str = "Hack Nerd Font";

/// Whether the active theme renders in IBM Plex Sans.
pub open spec fn uses_plex(p: PaletteState) -> bool {
    p.theme == Theme::Beos || p.theme == Theme::Carbon || p.theme == Theme::Windows10
}

/// The active UI font family.
pub fn family(p: &PaletteState) -> (f: &'static str)
    ensures
        f@ == (if uses_plex(*p) { PLEX_FAMILY@ } else { FAMILY@ }),
{
    if crate::palette::is_beos(p) || crate::palette::is_carbon(p)
        || crate::palette::is_windows10(p) {
        PLEX_FAMILY
    } else {
        FAMILY
    }
}

} // verus!
