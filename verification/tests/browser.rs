use mde::browser::{id_to_browser, open_url_cmd, set_default_cmds};

#[test]
fn open_url_cmd_shell_quotes() {
    assert_eq!(open_url_cmd("https://x.com/a"), "xdg-open 'https://x.com/a'");
    assert_eq!(open_url_cmd("https://x.com/it's"), "xdg-open 'https://x.com/it'\\''s'");
}

#[test]
fn desktop_id_maps_to_name_and_icon() {
    let f = id_to_browser("firefox.desktop");
    assert_eq!(f.name, "Firefox");
    assert_eq!(f.icon, "firefox");
    assert_eq!(id_to_browser("").name, "Firefox");
    assert_eq!(id_to_browser("google-chrome.desktop").name, "Google Chrome");
    let u = id_to_browser("falkon.desktop");
    assert_eq!(u.name, "falkon");
    assert_eq!(u.icon, "web-browser");
}

#[test]
fn set_default_builds_the_exact_xdg_commands() {
    let cmds = set_default_cmds();
    assert_eq!(
        cmds,
        vec![
            ("xdg-settings", vec!["set", "default-web-browser", "firefox.desktop"]),
            ("xdg-mime", vec!["default", "firefox.desktop", "x-scheme-handler/http"]),
            ("xdg-mime", vec!["default", "firefox.desktop", "x-scheme-handler/https"]),
            ("xdg-mime", vec!["default", "firefox.desktop", "text/html"]),
        ]
    );
}
