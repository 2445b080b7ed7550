//! Windows 2000 default UI metrics at 96 DPI (the accuracy targets).
//!
//! Sizes are whole device pixels (or points), so they are kept as integers.

use vstd::prelude::*;

verus! {

/// Title-bar height (SM_CYCAPTION), excluding the 3D frame.
pub const TITLE_BAR_HEIGHT: u16 = 18;
/// Sizing-frame thickness around a resizable window (SM_CXSIZEFRAME).
pub const SIZE_FRAME: u16 = 3;
/// Thin 3D frame thickness around a fixed/dialog window.
pub const FIXED_FRAME: u16 = 1;
/// Each bevel is two 1px lines.
pub const BEVEL_LINE: u16 = 1;
/// Scrollbar thickness (SM_CXVSCROLL / SM_CYHSCROLL).
pub const SCROLLBAR: u16 = 16;
/// Menu-bar item height (SM_CYMENU).
pub const MENU_HEIGHT: u16 = 18;
/// The taskbar height.
pub const TASKBAR_HEIGHT: u16 = 28;
/// Default min width of a taskbar window button before it elides.
pub const TASKBAR_BUTTON_MIN: u16 = 160;
/// The Win2000 UI font target (not shipped; see `font::FAMILY`).
pub const UI_FONT_TARGET: &'static str = "Tahoma";
/// The Windows 10 era's UI font target (not shipped either).
pub const UI_FONT_TARGET_WIN10: &'static str = "Segoe UI";
/// UI font size in points (Tahoma 8pt).
pub const UI_FONT_PT: u16 = 8;
/// `UI_FONT_PT` in device pixels at 96 DPI (8pt -> 10.67px, rounded to 11).
pub const UI_PX: u16 = 11;
/// The web-view info-band folder title size.
pub const INFO_TITLE_PX: u16 = 16;
/// Setup-wizard heading size.
pub const WIZARD_HEADING_PX: u16 = 15;
/// Setup-wizard status-bar caption size.
pub const WIZARD_STATUS_PX: u16 = 10;
/// The big monitor-number overlay drawn by Display > Identify.
pub const IDENTIFY_PX: u16 = 48;
/// Title-bar font is the UI font, bold, at the same size.
pub const TITLE_FONT_BOLD: bool = true;
/// The Windows 10 Task View window-tile size (px).
pub const TASKVIEW_TILE: u16 = 200;

/// Points to pixels at 96 DPI, rounded to the nearest pixel (halves up).
pub open spec fn pt_to_px(pt: int) -> int {
    (pt * 96 * 2 + 72) / 144int
}

/// `UI_PX` is derived from `UI_FONT_PT`, not an independent literal.
pub proof fn law_ui_px_is_derived()
    ensures
        UI_PX as int == pt_to_px(UI_FONT_PT as int),
{
}

} // verus!
