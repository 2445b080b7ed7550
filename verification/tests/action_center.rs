use mde::action_center::{
    expand_label, group_title, known_tiles, note_groups, parse_brightness, rel_time, shown_tiles, tile_label, tile_on, tile_probe,
    toggle_tile, Center, CenterEffect, CenterMsg, TileAction,
};
use mde::notifyd::{Notif, Stamp};

fn note(id: u32, app: &str) -> Notif {
    Notif {
        id,
        app_name: app.into(),
        app_icon: String::new(),
        summary: String::new(),
        body: String::new(),
        actions: Vec::new(),
        hint_urgency: 1,
        timestamp: Stamp { secs: 0, nanos: 0 },
        transient: false,
    }
}

#[test]
fn brightness_reads_the_percent_field() {
    assert_eq!(parse_brightness("intel_backlight,backlight,19200,80%,24000\n"), Some(80));
    assert_eq!(parse_brightness("a,b,c, 5% ,d"), Some(5));
    assert_eq!(parse_brightness(""), None);
    assert_eq!(parse_brightness("a,b,c,300%,d"), None);
}

#[test]
fn tiles_have_labels_and_probes() {
    assert_eq!(tile_label("wifi"), Some(("Wi-Fi", "\u{f1eb}")));
    assert_eq!(tile_label("nightlight"), Some(("Night light", "\u{f186}")));
    assert_eq!(tile_label("bogus"), None);
    assert_eq!(tile_probe("mute"), Some("wpctl get-volume @DEFAULT_AUDIO_SINK@"));
    assert_eq!(tile_probe("focus"), None);
    let ids = vec!["wifi".to_string(), "x".to_string(), "focus".to_string()];
    assert_eq!(known_tiles(&ids), vec!["wifi".to_string(), "focus".to_string()]);
}

#[test]
fn tile_states_read_from_probe_output() {
    assert!(tile_on("wifi", "enabled\n", false));
    assert!(!tile_on("wifi", "disabled\n", false));
    assert!(tile_on("bluetooth", "Soft blocked: no", false));
    assert!(tile_on("airplane", "Soft blocked: yes\nSoft blocked: yes", false));
    assert!(!tile_on("airplane", "Soft blocked: yes\nSoft blocked: no", false));
    assert!(!tile_on("airplane", "", false));
    assert!(tile_on("mute", "Volume: 0.40 [MUTED]", false));
    assert!(tile_on("focus", "", true));
    assert!(tile_on("nightlight", "1234\n", false));
    assert!(!tile_on("nightlight", "  \n", false));
}

#[test]
fn toggles_flip_the_backend() {
    assert_eq!(toggle_tile("wifi", true), TileAction::Run("nmcli radio wifi off"));
    assert_eq!(toggle_tile("airplane", false), TileAction::Run("rfkill block all"));
    assert_eq!(toggle_tile("focus", true), TileAction::SetFocus(false));
    assert_eq!(toggle_tile("nightlight", false), TileAction::Run("wlsunset"));
    assert_eq!(toggle_tile("zzz", false), TileAction::Nothing);
}

#[test]
fn relative_times() {
    assert_eq!(rel_time(None), "now");
    assert_eq!(rel_time(Some(59)), "now");
    assert_eq!(rel_time(Some(60)), "1m ago");
    assert_eq!(rel_time(Some(7200)), "2h ago");
    assert_eq!(rel_time(Some(3 * 86_400 + 5)), "3d ago");
}

#[test]
fn grid_and_titles() {
    assert_eq!(shown_tiles(6, false), 4);
    assert_eq!(shown_tiles(6, true), 6);
    assert_eq!(shown_tiles(3, false), 3);
    assert_eq!(expand_label(6, false), Some("Expand"));
    assert_eq!(expand_label(6, true), Some("Collapse"));
    assert_eq!(expand_label(4, false), None);
    assert_eq!(group_title(""), "Notifications");
    assert_eq!(group_title("Files"), "Files");
}

#[test]
fn clearing_dismisses_on_the_daemon() {
    let mut c = Center {
        notes: vec![note(1, "a"), note(2, "b"), note(3, "a")],
        tiles: vec![("wifi".into(), true)],
        brightness: Some(50),
        expanded: false,
    };
    match c.handle(CenterMsg::ClearGroup("a".into())) {
        CenterEffect::Dismiss(ids) => assert_eq!(ids, vec![1, 3]),
        _ => panic!("dismiss expected"),
    }
    assert_eq!(c.notes.len(), 1);
    match c.handle(CenterMsg::Clear(2)) {
        CenterEffect::Dismiss(ids) => assert_eq!(ids, vec![2]),
        _ => panic!("dismiss expected"),
    }
    assert!(c.notes.is_empty());
    match c.handle(CenterMsg::ToggleTile("wifi".into())) {
        CenterEffect::Toggle { id, action } => {
            assert_eq!(id, "wifi");
            assert_eq!(action, TileAction::Run("nmcli radio wifi off"));
        }
        _ => panic!("toggle expected"),
    }
    c.handle(CenterMsg::TileRead { id: "wifi".into(), on: false });
    assert!(!c.tiles[0].1);
    assert!(matches!(c.handle(CenterMsg::BrightnessSet), CenterEffect::SetBrightness(50)));
}

#[test]
fn history_groups_by_app_newest_first() {
    let notes = vec![note(1, "mail"), note(2, "chat"), note(3, "mail"), note(4, ""), note(5, "chat")];
    let groups = note_groups(&notes);
    let shown: Vec<(&str, Vec<usize>)> = groups.iter().map(|(a, m)| (a.as_str(), m.clone())).collect();
    assert_eq!(shown, vec![("chat", vec![4, 1]), ("", vec![3]), ("mail", vec![2, 0])]);
    assert!(note_groups(&Vec::new()).is_empty());
}
