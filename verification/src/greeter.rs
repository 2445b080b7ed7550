//! LightDM-gtk-greeter "Windows 10" theme: its GTK CSS and its
//! `lightdm-gtk-greeter.conf`, every color taken from the palette.

use vstd::prelude::*;
use crate::palette::{hex, hex_text, resolve_spec, PaletteState, Rgb, BUTTON_FACE, GRAY_TEXT,
    HIGHLIGHT, HIGHLIGHT_TEXT, WINDOW, WINDOW_FRAME, WINDOW_TEXT};
use crate::text::push_str;

verus! {

/// The palette hex of a role color.
pub open spec fn role_hex(p: PaletteState, rgb: Rgb) -> Seq<char> {
    hex_text(resolve_spec(p, rgb))
}

/// The GTK-3 CSS of the greeter theme: seven `@define-color`s from the
/// palette, then the rules that use them by name.
pub open spec fn css_spec(p: PaletteState) -> Seq<char> {
    "/* MDE-Retro Windows 10 greeter theme \u{2014} generated (E10.9). Do not hand-edit;\nregenerate with tests/stage-greeter-assets.sh. Colours are palette-sourced. */\n@define-color mde_bg "@
        + role_hex(p, WINDOW) + ";\n@define-color mde_fg "@ + role_hex(p, WINDOW_TEXT)
        + ";\n@define-color mde_accent "@ + role_hex(p, HIGHLIGHT)
        + ";\n@define-color mde_accent_fg "@ + role_hex(p, HIGHLIGHT_TEXT)
        + ";\n@define-color mde_field "@ + role_hex(p, BUTTON_FACE)
        + ";\n@define-color mde_frame "@ + role_hex(p, WINDOW_FRAME)
        + ";\n@define-color mde_dim "@ + role_hex(p, GRAY_TEXT) + ";\n"@ + css_rules()
}

/// The rule block of the greeter CSS.
pub open spec fn css_rules() -> Seq<char> {
    "\nwindow, #panel_window, #login_window, #content_frame {\n\tbackground-color: @mde_bg;\n\tcolor: @mde_fg;\n}\nlabel { color: @mde_fg; }\nlabel.gtk-tooltip, .prompt { color: @mde_dim; }\n#clock_label { color: @mde_fg; font-size: 32px; font-weight: 300; }\nentry {\n\tbackground-color: @mde_field;\n\tcolor: @mde_fg;\n\tborder: 1px solid @mde_frame;\n\tborder-radius: 2px;\n\tpadding: 6px 8px;\n}\nentry:focus { border-color: @mde_accent; }\nbutton {\n\tbackground-color: @mde_field;\n\tcolor: @mde_fg;\n\tborder: 1px solid @mde_frame;\n\tborder-radius: 2px;\n\tpadding: 4px 12px;\n}\nbutton:hover, button:focus { background-color: @mde_accent; color: @mde_accent_fg; }\n#panel_window { border-bottom: 1px solid @mde_frame; }\n"@
}

/// The GTK-3 CSS for the greeter theme, under the given palette.
pub fn css(p: &PaletteState) -> (s: String)
    ensures
        s@ == css_spec(*p),
{
    let mut s = "/* MDE-Retro Windows 10 greeter theme \u{2014} generated (E10.9). Do not hand-edit;\nregenerate with tests/stage-greeter-assets.sh. Colours are palette-sourced. */\n@define-color mde_bg ".to_owned();
    push_str(&mut s, hex(p, WINDOW).as_str());
    push_str(&mut s, ";\n@define-color mde_fg ");
    push_str(&mut s, hex(p, WINDOW_TEXT).as_str());
    push_str(&mut s, ";\n@define-color mde_accent ");
    push_str(&mut s, hex(p, HIGHLIGHT).as_str());
    push_str(&mut s, ";\n@define-color mde_accent_fg ");
    push_str(&mut s, hex(p, HIGHLIGHT_TEXT).as_str());
    push_str(&mut s, ";\n@define-color mde_field ");
    push_str(&mut s, hex(p, BUTTON_FACE).as_str());
    push_str(&mut s, ";\n@define-color mde_frame ");
    push_str(&mut s, hex(p, WINDOW_FRAME).as_str());
    push_str(&mut s, ";\n@define-color mde_dim ");
    push_str(&mut s, hex(p, GRAY_TEXT).as_str());
    push_str(&mut s, ";\n");
    push_str(&mut s, "\nwindow, #panel_window, #login_window, #content_frame {\n\tbackground-color: @mde_bg;\n\tcolor: @mde_fg;\n}\nlabel { color: @mde_fg; }\nlabel.gtk-tooltip, .prompt { color: @mde_dim; }\n#clock_label { color: @mde_fg; font-size: 32px; font-weight: 300; }\nentry {\n\tbackground-color: @mde_field;\n\tcolor: @mde_fg;\n\tborder: 1px solid @mde_frame;\n\tborder-radius: 2px;\n\tpadding: 6px 8px;\n}\nentry:focus { border-color: @mde_accent; }\nbutton {\n\tbackground-color: @mde_field;\n\tcolor: @mde_fg;\n\tborder: 1px solid @mde_frame;\n\tborder-radius: 2px;\n\tpadding: 4px 12px;\n}\nbutton:hover, button:focus { background-color: @mde_accent; color: @mde_accent_fg; }\n#panel_window { border-bottom: 1px solid @mde_frame; }\n");
    assert(s@ =~= css_spec(*p));
    s
}

/// The fixed part of the greeter conf.
pub open spec fn conf_head() -> Seq<char> {
    "# MDE-Retro Windows 10 greeter \u{2014} generated (E10.9). Regenerate with\n# tests/stage-greeter-assets.sh; installed by the RPM %post (E10.10).\n[greeter]\ntheme-name = win10\nicon-theme-name = Adwaita\nfont-name = IBM Plex Sans 11\nxft-antialias = true\nxft-hintstyle = slight\nclock-format = %l:%M %p\nindicators = ~host;~spacer;~clock;~spacer;~session;~power\nposition = 50%,center 55%,center\n"@
}

/// The `lightdm-gtk-greeter.conf` `[greeter]` block, with a background line
/// when a wallpaper is given.
pub fn conf(wallpaper: &str) -> (c: String)
    ensures
        c@ == conf_head() + if wallpaper@.len() == 0 { seq![] } else { "background = "@ + wallpaper@ + "\n"@ },
{
    let mut c = "# MDE-Retro Windows 10 greeter \u{2014} generated (E10.9). Regenerate with\n# tests/stage-greeter-assets.sh; installed by the RPM %post (E10.10).\n[greeter]\ntheme-name = win10\nicon-theme-name = Adwaita\nfont-name = IBM Plex Sans 11\nxft-antialias = true\nxft-hintstyle = slight\nclock-format = %l:%M %p\nindicators = ~host;~spacer;~clock;~spacer;~session;~power\nposition = 50%,center 55%,center\n".to_owned();
    if !wallpaper.is_empty() {
        push_str(&mut c, "background = ");
        push_str(&mut c, wallpaper);
        push_str(&mut c, "\n");
    }
    assert(c@ =~= conf_head() + if wallpaper@.len() == 0 { seq![] } else { "background = "@ + wallpaper@ + "\n"@ });
    c
}

} // verus!
