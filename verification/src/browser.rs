//! Default-web-browser surfacing: map the system default browser's `.desktop`
//! id to a display name + icon key, quote a URL for the shell, and the
//! commands that make Firefox the default.

use vstd::prelude::*;
use crate::text::{chars_of, eq_str, push_replaced, push_str, replace_char, string_of, trim,
    trim_chars, trim_end_matches, trim_end_matches_chars};

verus! {

/// The resolved default browser: a display name + an icon key.
pub struct Browser {
    pub name: String,
    pub icon: String,
}

/// The `.desktop` stem of an id: trimmed, every trailing `.desktop` removed.
pub open spec fn desktop_stem(id: Seq<char>) -> Seq<char> {
    trim_end_matches(trim(id), ".desktop"@)
}

/// The (name, icon) a desktop-id stem maps to. Empty/unknown ids that are
/// Firefox's fall back to Firefox; a recognized-but-unbundled browser keeps its
/// own name; anything else keeps its stem and the generic `web-browser` icon.
pub open spec fn browser_for(stem: Seq<char>) -> (Seq<char>, Seq<char>) {
    if stem == ""@ || stem == "firefox"@ || stem == "org.mozilla.firefox"@ || stem == "firefox-esr"@ {
        ("Firefox"@, "firefox"@)
    } else if stem == "google-chrome"@ || stem == "google-chrome-stable"@ {
        ("Google Chrome"@, "google-chrome"@)
    } else if stem == "chromium"@ || stem == "chromium-browser"@ {
        ("Chromium"@, "chromium"@)
    } else if stem == "brave-browser"@ {
        ("Brave"@, "brave-browser"@)
    } else if stem == "microsoft-edge"@ {
        ("Microsoft Edge"@, "microsoft-edge"@)
    } else {
        (stem, "web-browser"@)
    }
}

fn browser(name: &str, icon: &str) -> (b: Browser)
    ensures
        b.name@ == name@,
        b.icon@ == icon@,
{
    let nv = chars_of(name);
    let iv = chars_of(icon);
    Browser { name: string_of(&nv), icon: string_of(&iv) }
}

/// Map a `.desktop` id (e.g. `firefox.desktop`) to a display name + icon key.
pub fn id_to_browser(desktop_id: &str) -> (b: Browser)
    ensures
        (b.name@, b.icon@) == browser_for(desktop_stem(desktop_id@)),
{
    let idv = chars_of(desktop_id);
    let t = trim_chars(&idv);
    let stem = trim_end_matches_chars(&t, ".desktop");
    if eq_str(&stem, "") || eq_str(&stem, "firefox") || eq_str(&stem, "org.mozilla.firefox")
        || eq_str(&stem, "firefox-esr") {
        browser("Firefox", "firefox")
    } else if eq_str(&stem, "google-chrome") || eq_str(&stem, "google-chrome-stable") {
        browser("Google Chrome", "google-chrome")
    } else if eq_str(&stem, "chromium") || eq_str(&stem, "chromium-browser") {
        browser("Chromium", "chromium")
    } else if eq_str(&stem, "brave-browser") {
        browser("Brave", "brave-browser")
    } else if eq_str(&stem, "microsoft-edge") {
        browser("Microsoft Edge", "microsoft-edge")
    } else {
        let iv = chars_of("web-browser");
        Browser { name: string_of(&stem), icon: string_of(&iv) }
    }
}

/// The single-quoted shell form of `url`: each `'` becomes `'\''`.
pub open spec fn shell_single_quoted(url: Seq<char>) -> Seq<char> {
    "'"@ + replace_char(url, '\'', "'\\''"@) + "'"@
}

/// The shell command that opens `url` in the default browser; the URL is
/// single-quote-escaped so `sh -c` can't break out of it.
pub fn open_url_cmd(url: &str) -> (s: String)
    ensures
        s@ == "xdg-open "@ + shell_single_quoted(url@),
{
    let mut s = String::new();
    push_str(&mut s, "xdg-open '");
    let uv = chars_of(url);
    push_replaced(&mut s, &uv, '\'', "'\\''");
    push_str(&mut s, "'");
    proof {
        reveal_strlit("xdg-open '");
        reveal_strlit("xdg-open ");
        reveal_strlit("'");
    }
    assert(s@ =~= "xdg-open "@ + shell_single_quoted(url@));
    s
}

/// One command: a program and its arguments, as plain text.
pub open spec fn cmd_view(c: (&'static str, Vec<&'static str>)) -> (Seq<char>, Seq<Seq<char>>) {
    (c.0@, c.1@.map_values(|a: &'static str| a@))
}

/// The commands that make Firefox the default browser + http(s)/html handler.
pub open spec fn set_default_spec() -> Seq<(Seq<char>, Seq<Seq<char>>)> {
    seq![
        ("xdg-settings"@, seq!["set"@, "default-web-browser"@, "firefox.desktop"@]),
        ("xdg-mime"@, seq!["default"@, "firefox.desktop"@, "x-scheme-handler/http"@]),
        ("xdg-mime"@, seq!["default"@, "firefox.desktop"@, "x-scheme-handler/https"@]),
        ("xdg-mime"@, seq!["default"@, "firefox.desktop"@, "text/html"@]),
    ]
}

/// The commands that make Firefox the default browser, as (program, args)
/// pairs, returned (not run).
pub fn set_default_cmds() -> (v: Vec<(&'static str, Vec<&'static str>)>)
    ensures
        v@.map_values(|c: (&'static str, Vec<&'static str>)| cmd_view(c)) == set_default_spec(),
{
    let v = vec![
        ("xdg-settings", vec!["set", "default-web-browser", "firefox.desktop"]),
        ("xdg-mime", vec!["default", "firefox.desktop", "x-scheme-handler/http"]),
        ("xdg-mime", vec!["default", "firefox.desktop", "x-scheme-handler/https"]),
        ("xdg-mime", vec!["default", "firefox.desktop", "text/html"]),
    ];
    assert(v@.map_values(|c: (&'static str, Vec<&'static str>)| cmd_view(c)) =~= set_default_spec()) by {
        assert(v@[0].1@.map_values(|a: &'static str| a@) =~= seq!["set"@, "default-web-browser"@, "firefox.desktop"@]);
        assert(v@[1].1@.map_values(|a: &'static str| a@) =~= seq!["default"@, "firefox.desktop"@, "x-scheme-handler/http"@]);
        assert(v@[2].1@.map_values(|a: &'static str| a@) =~= seq!["default"@, "firefox.desktop"@, "x-scheme-handler/https"@]);
        assert(v@[3].1@.map_values(|a: &'static str| a@) =~= seq!["default"@, "firefox.desktop"@, "text/html"@]);
    }
    v
}

} // verus!
