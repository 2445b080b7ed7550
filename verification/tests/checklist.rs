use mde::font;
use mde::metrics;
use mde::palette;
use mde::palette::Rgb;

#[test]
fn desktop_background_is_win2000_blue() {
    assert_eq!(palette::BACKGROUND, (0x3a, 0x6e, 0xa5));
}

#[test]
fn active_title_is_navy_with_blue_gradient_end() {
    assert_eq!(palette::ACTIVE_TITLE, (0x0a, 0x24, 0x6a));
    assert_eq!(palette::ACTIVE_TITLE_GRADIENT, (0xa6, 0xca, 0xf0));
}

#[test]
fn inactive_title_is_gray() {
    assert_eq!(palette::INACTIVE_TITLE, (0x80, 0x80, 0x80));
}

#[test]
fn selection_highlight_is_navy_on_white() {
    assert_eq!(palette::HIGHLIGHT, (0x0a, 0x24, 0x6a));
    assert_eq!(palette::HIGHLIGHT_TEXT, (0xff, 0xff, 0xfe));
}

#[test]
fn window_and_frame_silver() {
    assert_eq!(palette::WINDOW, (0xff, 0xff, 0xff));
    assert_eq!(palette::MENU, (0xd4, 0xd0, 0xc8));
    assert_eq!(palette::BUTTON_FACE, (0xd4, 0xd0, 0xc8));
}

#[test]
fn carbon_sentinels_and_header_are_pinned() {
    assert_eq!(palette::TITLE_TEXT, (0xff, 0xff, 0xfe));
    assert_eq!(palette::HIGHLIGHT_TEXT, (0xff, 0xff, 0xfe));
    assert_eq!(palette::WINDOW_FRAME, (0x00, 0x00, 0x01));
    assert_eq!(palette::SHELL_HEADER, (0xd4, 0xd0, 0xc7));
}

#[test]
fn bevel_ramp_is_monotonically_darker() {
    let lum = |c: Rgb| c.0 as u32 + c.1 as u32 + c.2 as u32;
    assert!(lum(palette::BUTTON_HILIGHT) > lum(palette::BUTTON_LIGHT));
    assert!(lum(palette::BUTTON_LIGHT) > lum(palette::BUTTON_FACE));
    assert!(lum(palette::BUTTON_FACE) > lum(palette::BUTTON_SHADOW));
    assert!(lum(palette::BUTTON_SHADOW) > lum(palette::BUTTON_DK_SHADOW));
}

#[test]
fn bevel_endpoints_match_checklist() {
    assert_eq!(palette::BUTTON_HILIGHT, (0xff, 0xff, 0xff));
    assert_eq!(palette::BUTTON_LIGHT, (0xdf, 0xdf, 0xdf));
    assert_eq!(palette::BUTTON_SHADOW, (0x80, 0x80, 0x80));
    assert_eq!(palette::BUTTON_DK_SHADOW, (0x40, 0x40, 0x40));
}

#[test]
fn app_chrome_colors_are_pinned() {
    assert_eq!(palette::INFO_BAND, (0x1d, 0x5c, 0xa8));
    assert_eq!(palette::SETUP_GRADIENT_TOP, (0x1c, 0x4a, 0x8f));
    assert_eq!(palette::SETUP_GRADIENT_BOTTOM, (0x08, 0x16, 0x40));
    assert_eq!(palette::SETUP_PROGRESS, (0x16, 0x3a, 0xa8));
    assert_eq!(palette::LOGO_BANNER_BG, (0x00, 0x00, 0x00));
    assert_eq!(palette::LOGO_BANNER_GLOW, (0x3a, 0x6a, 0xd0));
    assert_eq!(palette::LOGO_BANNER_GLOW_FADE, (0x0a, 0x1a, 0x40));
    assert_eq!(palette::LOGO_TEXT, (0xff, 0xff, 0xff));
    assert_eq!(palette::LOGO_TEXT_ACCENT, (0x6f, 0x9f, 0xe0));
    assert_eq!(palette::URGENT, (0x80, 0x00, 0x00));
}

#[test]
fn title_bar_is_18px() {
    assert_eq!(metrics::TITLE_BAR_HEIGHT, 18);
}

#[test]
fn frames_match_win2000() {
    assert_eq!(metrics::SIZE_FRAME, 3);
    assert_eq!(metrics::FIXED_FRAME, 1);
    assert_eq!(metrics::BEVEL_LINE, 1);
}

#[test]
fn taskbar_is_28px() {
    assert_eq!(metrics::TASKBAR_HEIGHT, 28);
}

#[test]
fn scrollbar_and_menu_rows() {
    assert_eq!(metrics::SCROLLBAR, 16);
    assert_eq!(metrics::MENU_HEIGHT, 18);
}

#[test]
fn ui_font_is_the_shipped_substitute() {
    assert_eq!(font::FAMILY, "Droid Sans");
    assert_eq!(metrics::UI_FONT_TARGET, "Tahoma");
    assert!(metrics::TITLE_FONT_BOLD);
}

#[test]
fn ui_size_is_one_source_of_truth() {
    assert_eq!(metrics::UI_FONT_PT as f64, 8.0);
    assert_eq!(metrics::UI_PX as f64, (metrics::UI_FONT_PT as f64 * 96.0 / 72.0).round());
    assert_eq!(metrics::INFO_TITLE_PX as f64, 16.0);
    assert_eq!(metrics::IDENTIFY_PX as f64, 48.0);
    assert_eq!(metrics::WIZARD_HEADING_PX as f64, 15.0);
    assert_eq!(metrics::WIZARD_STATUS_PX as f64, 10.0);
    assert_eq!(metrics::TASKBAR_BUTTON_MIN, 160);
}
