use mde::greeter::{conf, css};
use mde::palette;
use mde::palette::{PaletteState, Theme};

#[test]
fn css_colours_are_palette_sourced() {
    let mut p = PaletteState::new();
    palette::set_theme(&mut p, Theme::Windows10);
    let css = css(&p);
    let known: std::collections::HashSet<String> = [
        palette::WINDOW,
        palette::WINDOW_TEXT,
        palette::HIGHLIGHT,
        palette::HIGHLIGHT_TEXT,
        palette::BUTTON_FACE,
        palette::WINDOW_FRAME,
        palette::GRAY_TEXT,
    ]
    .iter()
    .map(|r| palette::hex(&p, *r))
    .collect();
    for h in &known {
        assert!(css.contains(h.as_str()), "greeter CSS must use the palette hex {h}");
    }
    let bytes = css.as_bytes();
    for (i, _) in css.match_indices('#') {
        if i + 7 <= css.len() && bytes[i + 1..i + 7].iter().all(u8::is_ascii_hexdigit) {
            let lit = &css[i..i + 7];
            assert!(known.contains(lit), "stray non-palette hex in greeter CSS: {lit}");
        }
    }
}

#[test]
fn conf_selects_the_theme_and_optional_background() {
    let c = conf("/usr/share/mde/greeter/win10-bg.png");
    assert!(c.contains("theme-name = win10"));
    assert!(c.contains("background = /usr/share/mde/greeter/win10-bg.png"));
    assert!(!conf("").contains("background ="));
}
