//! Windows 2000 "Classic" system palette and the runtime theme remap.
//!
//! The constants are the canonical Win2000 role colors. Alternate themes are
//! applied by remapping those role colors at the edge ([`resolve`]), so every
//! surface retints together. The active theme, the Carbon light/dark mode and
//! the icon accent index live in a [`PaletteState`] value that the shell
//! selects once at startup.

use vstd::prelude::*;
use crate::text::{push_char};

verus! {

/// An sRGB 8-bit-per-channel color, `(r, g, b)`.
pub type Rgb = (u8, u8, u8);

// --- Core Win2000 Classic colors (COLOR_* / GetSysColor defaults) ----------
pub const BACKGROUND: Rgb = (0x3a, 0x6e, 0xa5);
pub const ACTIVE_TITLE: Rgb = (0x0a, 0x24, 0x6a);
/// Title gradient end (recorded ground truth; drawn by the compositor).
pub const ACTIVE_TITLE_GRADIENT: Rgb = (0xa6, 0xca, 0xf0);
pub const INACTIVE_TITLE: Rgb = (0x80, 0x80, 0x80);
/// Sentinel white text: pure white in Win2000, but a distinct key so the Carbon
/// remap keeps text on colored surfaces light.
pub const TITLE_TEXT: Rgb = (0xff, 0xff, 0xfe);
pub const INACTIVE_TITLE_TEXT: Rgb = (0xd4, 0xd0, 0xc8);

pub const MENU: Rgb = (0xd4, 0xd0, 0xc8);
pub const MENU_TEXT: Rgb = (0x00, 0x00, 0x00);
pub const WINDOW: Rgb = (0xff, 0xff, 0xff);
pub const WINDOW_TEXT: Rgb = (0x00, 0x00, 0x00);
/// Sentinel black frame: a window/border frame, kept apart from black text.
pub const WINDOW_FRAME: Rgb = (0x00, 0x00, 0x01);

// 3D button/face bevel ramp (light -> dark).
pub const BUTTON_FACE: Rgb = (0xd4, 0xd0, 0xc8);
pub const BUTTON_HILIGHT: Rgb = (0xff, 0xff, 0xff);
pub const BUTTON_LIGHT: Rgb = (0xdf, 0xdf, 0xdf);
pub const BUTTON_SHADOW: Rgb = (0x80, 0x80, 0x80);
pub const BUTTON_DK_SHADOW: Rgb = (0x40, 0x40, 0x40);
pub const BUTTON_TEXT: Rgb = (0x00, 0x00, 0x00);

pub const HIGHLIGHT: Rgb = (0x0a, 0x24, 0x6a);
/// Sentinel white selection text (see [`TITLE_TEXT`]).
pub const HIGHLIGHT_TEXT: Rgb = (0xff, 0xff, 0xfe);
pub const GRAY_TEXT: Rgb = (0x80, 0x80, 0x80);

pub const INFO_TEXT: Rgb = (0x00, 0x00, 0x00);
pub const INFO_WINDOW: Rgb = (0xff, 0xff, 0xe1);
/// Urgent window / critical role (maroon).
pub const URGENT: Rgb = (0x80, 0x00, 0x00);

// --- MDE-Retro app chrome (NOT GetSysColor) --------------------------------
/// The Explorer / Control Panel web-view info band.
pub const INFO_BAND: Rgb = (0x1d, 0x5c, 0xa8);
/// GUI Setup background gradient (top -> bottom).
pub const SETUP_GRADIENT_TOP: Rgb = (0x1c, 0x4a, 0x8f);
pub const SETUP_GRADIENT_BOTTOM: Rgb = (0x08, 0x16, 0x40);
/// GUI Setup progress-bar fill, and the dimmed text on it.
pub const SETUP_PROGRESS: Rgb = (0x16, 0x3a, 0xa8);
pub const SETUP_SUBTITLE: Rgb = (0x9e, 0xb2, 0xdb);
/// The shell bar / header surface (a distinct key from `BUTTON_FACE`).
pub const SHELL_HEADER: Rgb = (0xd4, 0xd0, 0xc7);

// --- Start-menu logo banner brand art (fixed in every theme) ----------------
pub const LOGO_BANNER_BG: Rgb = (0x00, 0x00, 0x00);
pub const LOGO_BANNER_GLOW: Rgb = (0x3a, 0x6a, 0xd0);
pub const LOGO_BANNER_GLOW_FADE: Rgb = (0x0a, 0x1a, 0x40);
pub const LOGO_TEXT: Rgb = (0xff, 0xff, 0xff);
pub const LOGO_TEXT_ACCENT: Rgb = (0x6f, 0x9f, 0xe0);

/// The active shell theme.
#[derive(Clone, Copy, PartialEq, Eq, Debug, Structural)]
pub enum Theme {
    Win2000,
    Beos,
    Carbon,
    Windows10,
}

/// The runtime palette selection: theme, Carbon dark mode, icon accent index.
#[derive(Clone, Copy, PartialEq, Eq, Debug, Structural)]
pub struct PaletteState {
    pub theme: Theme,
    pub dark: bool,
    pub accent: u8,
}

impl PaletteState {
    /// The startup defaults: Windows 2000, Carbon mode dark, blue icon accent.
    pub fn new() -> (p: PaletteState)
        ensures
            p.theme == Theme::Win2000,
            p.dark,
            p.accent == 0,
    {
        PaletteState { theme: Theme::Win2000, dark: true, accent: 0 }
    }
}

/// Select the active theme.
pub fn set_theme(p: &mut PaletteState, theme: Theme)
    ensures
        *final(p) == (PaletteState { theme, ..*old(p) }),
{
    p.theme = theme;
}

/// The active theme.
pub fn theme(p: &PaletteState) -> (t: Theme)
    ensures
        t == p.theme,
{
    p.theme
}

/// Set Carbon mode: dark (`true`) or light (`false`).
pub fn set_dark(p: &mut PaletteState, on: bool)
    ensures
        *final(p) == (PaletteState { dark: on, ..*old(p) }),
{
    p.dark = on;
}

/// Whether Carbon is in dark mode.
pub fn is_dark(p: &PaletteState) -> (b: bool)
    ensures
        b == p.dark,
{
    p.dark
}

/// Set the icon accent hue (0=blue 1=orange 2=red 3=neutral).
pub fn set_accent(p: &mut PaletteState, idx: u8)
    ensures
        *final(p) == (PaletteState { accent: idx, ..*old(p) }),
{
    p.accent = idx;
}

/// The icon accent index.
pub fn accent_idx(p: &PaletteState) -> (i: u8)
    ensures
        i == p.accent,
{
    p.accent
}

/// Whether the BeOS theme is active.
pub fn is_beos(p: &PaletteState) -> (b: bool)
    ensures
        b == (p.theme == Theme::Beos),
{
    p.theme == Theme::Beos
}

/// Whether the Carbon theme is active.
pub fn is_carbon(p: &PaletteState) -> (b: bool)
    ensures
        b == (p.theme == Theme::Carbon),
{
    p.theme == Theme::Carbon
}

/// Whether the Windows 10 theme is active.
pub fn is_windows10(p: &PaletteState) -> (b: bool)
    ensures
        b == (p.theme == Theme::Windows10),
{
    p.theme == Theme::Windows10
}

/// The BeOS equivalent of a Win2000 role color.
pub open spec fn beos_spec(rgb: Rgb) -> Rgb {
    if rgb == (0xd4u8, 0xd0u8, 0xc8u8) { (0xd8, 0xd8, 0xd8) }
    else if rgb == (0xdfu8, 0xdfu8, 0xdfu8) { (0xec, 0xec, 0xec) }
    else if rgb == (0x80u8, 0x80u8, 0x80u8) { (0x8c, 0x8c, 0x8c) }
    else if rgb == (0x40u8, 0x40u8, 0x40u8) { (0x55, 0x55, 0x55) }
    else if rgb == (0x0au8, 0x24u8, 0x6au8) { (0x33, 0x55, 0x9c) }
    else if rgb == (0x3au8, 0x6eu8, 0xa5u8) { (0x33, 0x66, 0x98) }
    else if rgb == (0x1du8, 0x5cu8, 0xa8u8) { (0x46, 0x7a, 0xbe) }
    else { rgb }
}

/// The Carbon Blue 60 interactive accent for a mode.
pub open spec fn carbon_accent_spec(dark: bool) -> Rgb {
    if dark { (0x45, 0x89, 0xff) } else { (0x0f, 0x62, 0xfe) }
}

/// The IBM Carbon token of a Win2000 role color in a light/dark mode.
pub open spec fn carbon_spec(rgb: Rgb, dark: bool) -> Rgb {
    let accent = carbon_accent_spec(dark);
    if rgb == (0x0au8, 0x24u8, 0x6au8) || rgb == (0xa6u8, 0xcau8, 0xf0u8)
        || rgb == (0x1du8, 0x5cu8, 0xa8u8) || rgb == (0x16u8, 0x3au8, 0xa8u8) { accent }
    else if rgb == (0xffu8, 0xffu8, 0xfeu8) { (0xff, 0xff, 0xff) }
    else if rgb == (0x00u8, 0x00u8, 0x01u8) { if dark { (0x52, 0x52, 0x52) } else { (0x8d, 0x8d, 0x8d) } }
    else if rgb == (0x00u8, 0x00u8, 0x00u8) { if dark { (0xf4, 0xf4, 0xf4) } else { (0x16, 0x16, 0x16) } }
    else if rgb == (0xffu8, 0xffu8, 0xffu8) { if dark { (0x39, 0x39, 0x39) } else { (0xff, 0xff, 0xff) } }
    else if rgb == (0xd4u8, 0xd0u8, 0xc8u8) { if dark { (0x39, 0x39, 0x39) } else { (0xf4, 0xf4, 0xf4) } }
    else if rgb == (0xd4u8, 0xd0u8, 0xc7u8) { if dark { (0x16, 0x16, 0x16) } else { (0xff, 0xff, 0xff) } }
    else if rgb == (0xdfu8, 0xdfu8, 0xdfu8) { if dark { (0x47, 0x47, 0x47) } else { (0xe8, 0xe8, 0xe8) } }
    else if rgb == (0x80u8, 0x80u8, 0x80u8) { if dark { (0x6f, 0x6f, 0x6f) } else { (0x8d, 0x8d, 0x8d) } }
    else if rgb == (0x40u8, 0x40u8, 0x40u8) { if dark { (0x52, 0x52, 0x52) } else { (0x6f, 0x6f, 0x6f) } }
    else if rgb == (0x3au8, 0x6eu8, 0xa5u8) { if dark { (0x16, 0x16, 0x16) } else { (0xd0, 0xd0, 0xd0) } }
    else if rgb == (0xffu8, 0xffu8, 0xe1u8) { if dark { (0x39, 0x39, 0x39) } else { (0xff, 0xff, 0xff) } }
    else if rgb == (0x80u8, 0x00u8, 0x00u8) { if dark { (0xfa, 0x4d, 0x56) } else { (0xda, 0x1e, 0x28) } }
    else if rgb == (0x1cu8, 0x4au8, 0x8fu8) { if dark { (0x00, 0x43, 0xce) } else { (0x0f, 0x62, 0xfe) } }
    else if rgb == (0x08u8, 0x16u8, 0x40u8) { if dark { (0x00, 0x11, 0x41) } else { (0x00, 0x2d, 0x9c) } }
    else if rgb == (0x9eu8, 0xb2u8, 0xdbu8) { if dark { (0xa6, 0xc8, 0xff) } else { (0x52, 0x52, 0x52) } }
    else { rgb }
}

/// A role color as the active theme draws it. Windows 10 shares Carbon's
/// coloring.
pub open spec fn resolve_spec(p: PaletteState, rgb: Rgb) -> Rgb {
    match p.theme {
        Theme::Win2000 => rgb,
        Theme::Beos => beos_spec(rgb),
        Theme::Carbon | Theme::Windows10 => carbon_spec(rgb, p.dark),
    }
}

/// Map a Win2000 role color to its BeOS equivalent (light-gray panels, softer
/// bevels, a blue selection; white/black pass through).
pub fn beos(rgb: Rgb) -> (r: Rgb)
    ensures
        r == beos_spec(rgb),
{
    match rgb {
        (0xd4, 0xd0, 0xc8) => (0xd8, 0xd8, 0xd8),
        (0xdf, 0xdf, 0xdf) => (0xec, 0xec, 0xec),
        (0x80, 0x80, 0x80) => (0x8c, 0x8c, 0x8c),
        (0x40, 0x40, 0x40) => (0x55, 0x55, 0x55),
        (0x0a, 0x24, 0x6a) => (0x33, 0x55, 0x9c),
        (0x3a, 0x6e, 0xa5) => (0x33, 0x66, 0x98),
        (0x1d, 0x5c, 0xa8) => (0x46, 0x7a, 0xbe),
        other => other,
    }
}

/// The Carbon Blue 60 UI accent for the active mode.
pub fn carbon_accent(p: &PaletteState) -> (r: Rgb)
    ensures
        r == carbon_accent_spec(p.dark),
{
    if p.dark {
        (0x45, 0x89, 0xff)
    } else {
        (0x0f, 0x62, 0xfe)
    }
}

/// Map a Win2000 role color to its IBM Carbon token for the active mode.
pub fn carbon(p: &PaletteState, rgb: Rgb) -> (r: Rgb)
    ensures
        r == carbon_spec(rgb, p.dark),
{
    let dark = p.dark;
    let accent = carbon_accent(p);
    match rgb {
        (0x0a, 0x24, 0x6a) => accent,
        (0xa6, 0xca, 0xf0) => accent,
        (0x1d, 0x5c, 0xa8) => accent,
        (0xff, 0xff, 0xfe) => (0xff, 0xff, 0xff),
        (0x00, 0x00, 0x01) => if dark { (0x52, 0x52, 0x52) } else { (0x8d, 0x8d, 0x8d) },
        (0x00, 0x00, 0x00) => if dark { (0xf4, 0xf4, 0xf4) } else { (0x16, 0x16, 0x16) },
        (0xff, 0xff, 0xff) => if dark { (0x39, 0x39, 0x39) } else { (0xff, 0xff, 0xff) },
        (0xd4, 0xd0, 0xc8) => if dark { (0x39, 0x39, 0x39) } else { (0xf4, 0xf4, 0xf4) },
        (0xd4, 0xd0, 0xc7) => if dark { (0x16, 0x16, 0x16) } else { (0xff, 0xff, 0xff) },
        (0xdf, 0xdf, 0xdf) => if dark { (0x47, 0x47, 0x47) } else { (0xe8, 0xe8, 0xe8) },
        (0x80, 0x80, 0x80) => if dark { (0x6f, 0x6f, 0x6f) } else { (0x8d, 0x8d, 0x8d) },
        (0x40, 0x40, 0x40) => if dark { (0x52, 0x52, 0x52) } else { (0x6f, 0x6f, 0x6f) },
        (0x3a, 0x6e, 0xa5) => if dark { (0x16, 0x16, 0x16) } else { (0xd0, 0xd0, 0xd0) },
        (0xff, 0xff, 0xe1) => if dark { (0x39, 0x39, 0x39) } else { (0xff, 0xff, 0xff) },
        (0x80, 0x00, 0x00) => if dark { (0xfa, 0x4d, 0x56) } else { (0xda, 0x1e, 0x28) },
        (0x1c, 0x4a, 0x8f) => if dark { (0x00, 0x43, 0xce) } else { (0x0f, 0x62, 0xfe) },
        (0x08, 0x16, 0x40) => if dark { (0x00, 0x11, 0x41) } else { (0x00, 0x2d, 0x9c) },
        (0x16, 0x3a, 0xa8) => accent,
        (0x9e, 0xb2, 0xdb) => if dark { (0xa6, 0xc8, 0xff) } else { (0x52, 0x52, 0x52) },
        other => other,
    }
}

/// A palette role color with the active theme applied (the toolkit converts
/// the result to its own color type at the edge).
pub fn resolve(p: &PaletteState, rgb: Rgb) -> (r: Rgb)
    ensures
        r == resolve_spec(*p, rgb),
{
    match p.theme {
        Theme::Win2000 => rgb,
        Theme::Beos => beos(rgb),
        Theme::Carbon | Theme::Windows10 => carbon(p, rgb),
    }
}

/// The UI accent: the HIGHLIGHT role under the active theme.
pub fn accent(p: &PaletteState) -> (r: Rgb)
    ensures
        r == resolve_spec(*p, HIGHLIGHT),
{
    resolve(p, HIGHLIGHT)
}

/// The lowercase hex digit of a nibble.
pub open spec fn hex_digit(n: u8) -> char {
    if n < 10 { ((n + 48) as u8) as char } else { ((n + 87) as u8) as char }
}

/// `#rrggbb` (lowercase) of a color.
pub open spec fn hex_text(c: Rgb) -> Seq<char> {
    seq!['#', hex_digit(c.0 / 16), hex_digit(c.0 % 16), hex_digit(c.1 / 16),
        hex_digit(c.1 % 16), hex_digit(c.2 / 16), hex_digit(c.2 % 16)]
}

fn nibble_char(n: u8) -> (c: char)
    requires
        n < 16,
    ensures
        c == hex_digit(n),
{
    if n < 10 {
        (n + 48) as char
    } else {
        (n + 87) as char
    }
}

/// The `#rrggbb` hex of a role color under the active theme (for CSS/config
/// generators).
pub fn hex(p: &PaletteState, rgb: Rgb) -> (s: String)
    ensures
        s@ == hex_text(resolve_spec(*p, rgb)),
{
    hex_fixed(resolve(p, rgb))
}

/// The `#rrggbb` hex of a color as given, bypassing the theme remap (brand art
/// that reads the same in every era).
pub fn hex_fixed(c: Rgb) -> (s: String)
    ensures
        s@ == hex_text(c),
{
    let mut s = String::new();
    push_char(&mut s, '#');
    push_char(&mut s, nibble_char(c.0 / 16));
    push_char(&mut s, nibble_char(c.0 % 16));
    push_char(&mut s, nibble_char(c.1 / 16));
    push_char(&mut s, nibble_char(c.1 % 16));
    push_char(&mut s, nibble_char(c.2 / 16));
    push_char(&mut s, nibble_char(c.2 % 16));
    s
}

/// The theme remap has no effect under Windows 2000, and the Windows 10 era
/// draws every role exactly as Carbon does in the same mode.
pub proof fn law_identity_and_era_sharing(p: PaletteState, rgb: Rgb)
    ensures
        p.theme == Theme::Win2000 ==> resolve_spec(p, rgb) == rgb,
        resolve_spec(PaletteState { theme: Theme::Windows10, ..p }, rgb)
            == resolve_spec(PaletteState { theme: Theme::Carbon, ..p }, rgb),
{
}

/// Under Carbon the sentinel white text roles stay white in both modes, and
/// the selection role is the Carbon accent of the mode.
pub proof fn law_carbon_text_stays_light(p: PaletteState)
    requires
        p.theme == Theme::Carbon,
    ensures
        resolve_spec(p, TITLE_TEXT) == (0xffu8, 0xffu8, 0xffu8),
        resolve_spec(p, HIGHLIGHT_TEXT) == (0xffu8, 0xffu8, 0xffu8),
        resolve_spec(p, HIGHLIGHT) == carbon_accent_spec(p.dark),
        resolve_spec(p, WINDOW_FRAME) != resolve_spec(p, WINDOW_TEXT),
{
}

/// Every setter changes exactly its own field and a getter reads back what the
/// setter wrote.
pub proof fn law_setters_read_back(p: PaletteState, t: Theme, d: bool, a: u8)
    ensures
        (PaletteState { theme: t, ..p }).theme == t,
        (PaletteState { theme: t, ..p }).dark == p.dark,
        (PaletteState { dark: d, ..p }).dark == d,
        (PaletteState { dark: d, ..p }).theme == p.theme,
        (PaletteState { accent: a, ..p }).accent == a,
        (PaletteState { accent: a, ..p }).theme == p.theme,
{
}

} // verus!
