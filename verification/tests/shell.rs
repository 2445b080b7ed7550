use mde::apps::{category, parse_entry, programs, App};
use mde::bluez::{device_method, discovery_method, DeviceAction};
use mde::catalogue::is_xen_guest;
use mde::cli::{
    accent_choice, dark_choice, flag_value, handoff_command, has_flag, install_scope, packages_arg, resolve_command,
    setup_route, theme_choice, tui_command, SetupRoute,
};
use mde::control_panel::{menu_items, tool_label, tool_number, ControlPanel, CpEffect, CpMenuAction, CpMsg, CpView};
use mde::dialogs::{choice_label, choices, fedora_version, registered_name, run_command, shutdown_command, Choice};
use mde::filedialog::{human_size, is_image, parse_filters};
use mde::mount::{sshfs_remote, uses_sshfs};
use mde::net_flyout::{signal_bars, Flyout, FlyoutEffect, FlyoutMsg};
use mde::nm::{connection_zone, gsettings_value, proxy_mode, wifi_autoconnect, wifi_enabled, Wifi};
use mde::oobe::{account_ready, combined_keymap};
use mde::palette::Theme;

fn args(v: &[&str]) -> Vec<String> {
    v.iter().map(|s| s.to_string()).collect()
}

#[test]
fn desktop_entry_parses_name_command_and_folder() {
    let text = "[Desktop Entry]\nType=Application\nName=Firefox\nName=Other\nExec=firefox %u --new\nTerminal=False\nCategories=Network;WebBrowser;\n[Desktop Action new]\nName=New Window\n";
    let (app, cat) = parse_entry(text).unwrap();
    assert_eq!(app.name, "Firefox");
    assert_eq!(app.command, "firefox --new");
    assert!(!app.terminal);
    assert_eq!(cat, "Internet");
}

#[test]
fn hidden_or_non_application_entries_are_skipped() {
    assert!(parse_entry("[Desktop Entry]\nType=Application\nName=X\nExec=x\nNoDisplay=true\n").is_none());
    assert!(parse_entry("[Desktop Entry]\nType=Link\nName=X\nExec=x\n").is_none());
    assert!(parse_entry("[Desktop Entry]\nType=Application\nName=X\nExec=%f\n").is_none());
    assert!(parse_entry("Type=Application\nName=X\nExec=x\n").is_none());
    let (app, cat) = parse_entry("[Desktop Entry]\nType=Application\nName=Term\nExec=foot\nTerminal=TRUE\n").unwrap();
    assert!(app.terminal);
    assert_eq!(cat, "Other");
}

fn app(name: &str, command: &str) -> App {
    App { name: name.to_string(), command: command.to_string(), terminal: false }
}

#[test]
fn programs_menu_orders_folders_and_names() {
    let found = vec![
        (app("zed", "zed"), "Programming".to_string()),
        (app("Firefox", "firefox"), "Internet".to_string()),
        (app("Zz Tool", "zz"), "Weird".to_string()),
        (app("calc", "calc-a"), "Accessories".to_string()),
        (app("Aa Tool", "aa"), "Extra".to_string()),
        (app("Builder", "builder"), "Programming".to_string()),
        (app("calc", "calc-b"), "Accessories".to_string()),
        (app("Clock", "clock"), "Accessories".to_string()),
        (app("Terminal", "foot"), "Other".to_string()),
    ];
    let out = programs(&found);
    let folders: Vec<&str> = out.iter().map(|(c, _)| c.as_str()).collect();
    assert_eq!(folders, vec!["Accessories", "Internet", "Programming", "Other", "Extra", "Weird"]);
    let acc: Vec<(&str, &str)> = out[0].1.iter().map(|a| (a.name.as_str(), a.command.as_str())).collect();
    // sorted by lowercased name; of two apps with one name the first found stays
    assert_eq!(acc, vec![("calc", "calc-a"), ("Clock", "clock")]);
    let prog: Vec<&str> = out[2].1.iter().map(|a| a.name.as_str()).collect();
    assert_eq!(prog, vec!["Builder", "zed"]);
    assert!(programs(&Vec::new()).is_empty());
}

#[test]
fn categories_file_into_folders() {
    assert_eq!(category("AudioVideo;Player;"), "Multimedia");
    assert_eq!(category("Development;IDE;"), "Programming");
    assert_eq!(category("System;Settings"), "Accessories");
    assert_eq!(category("Game;Graphics"), "Graphics");
    assert_eq!(category(""), "Other");
}

#[test]
fn bluetooth_methods() {
    assert_eq!(device_method(DeviceAction::Pair), "Pair");
    assert_eq!(device_method(DeviceAction::Disconnect), "Disconnect");
    assert_eq!(discovery_method(true), "StartDiscovery");
    assert_eq!(discovery_method(false), "StopDiscovery");
}

#[test]
fn xen_detection() {
    assert!(is_xen_guest(Some("xen\n"), None));
    assert!(is_xen_guest(Some("none"), Some(" xen ")));
    assert!(!is_xen_guest(Some("kvm"), None));
    assert!(!is_xen_guest(None, None));
}

#[test]
fn command_line_routing() {
    let a = args(&["mde", "files", "/tmp"]);
    assert_eq!(resolve_command("mde", &a), ("files".to_string(), 2));
    assert_eq!(resolve_command("mde-panel", &a), ("panel".to_string(), 1));
    assert_eq!(resolve_command("mde", &args(&["mde"])), ("help".to_string(), 1));
    assert!(has_flag(&args(&["--gui", "--dry-run"]), "--dry-run"));
    assert!(!has_flag(&args(&["--gui"]), "--tui"));
    assert_eq!(flag_value(&args(&["--select", "Home", "--select", "x"]), "--select"), Some("Home".to_string()));
    assert_eq!(flag_value(&args(&["--select"]), "--select"), None);
    assert_eq!(theme_choice("win2000", "haiku"), Theme::Beos);
    assert_eq!(theme_choice("win2000", "x"), Theme::Win2000);
    assert_eq!(theme_choice("windows10", ""), Theme::Windows10);
    assert_eq!(theme_choice("", ""), Theme::Carbon);
    assert!(dark_choice("dark"));
    assert!(!dark_choice("light"));
    assert_eq!(accent_choice("orange"), 1);
    assert_eq!(accent_choice("pink"), 3);
}

#[test]
fn setup_arguments() {
    assert_eq!(packages_arg(&args(&["--tui", "--packages=a,,b"])), Some(vec!["a".to_string(), "b".to_string()]));
    assert_eq!(packages_arg(&args(&["--tui"])), None);
    assert_eq!(setup_route(true, true, true), SetupRoute::Gui);
    assert_eq!(setup_route(false, false, true), SetupRoute::Tui);
    assert_eq!(setup_route(false, false, false), SetupRoute::Terminal);
    assert_eq!(tui_command("/usr/bin/mde", false, &None), "pkexec '/usr/bin/mde' setup --tui");
    assert_eq!(
        tui_command("/m", false, &Some(vec!["a".to_string(), "b".to_string()])),
        "pkexec '/m' setup --tui --packages='a,b'"
    );
    assert_eq!(
        tui_command("/m", true, &Some(Vec::new())),
        "'/m' setup --tui --dry-run; printf '\\nPress Enter to close\u{2026} '; read _"
    );
    assert_eq!(handoff_command("/m", &vec!["x".to_string()]), "pkexec '/m' setup --tui --packages='x'");
    assert_eq!(install_scope(&args(&["--only", "win2k"])), Ok(Some("win2k".to_string())));
    assert_eq!(install_scope(&args(&["--only", "kde"])), Err("kde".to_string()));
    assert_eq!(install_scope(&args(&["--dry-run"])), Ok(None));
}

#[test]
fn dialogs_wording_and_commands() {
    assert_eq!(choices().len(), 4);
    assert_eq!(choice_label(Choice::StandBy), "Stand by");
    assert_eq!(shutdown_command(Choice::LogOff), ("swaymsg", "exit"));
    assert_eq!(shutdown_command(Choice::Restart), ("systemctl", "reboot"));
    assert_eq!(run_command("  firefox  "), Some("firefox".to_string()));
    assert_eq!(run_command("   "), None);
    assert_eq!(fedora_version("44 (Workstation Edition)"), "44");
    assert_eq!(fedora_version(""), "");
    let passwd = "root:x:0:0:root:/root:/bin/bash\nme:x:1000:1000:Jane Doe,,,:/home/me:/bin/bash\nbob:x:1001:1001::/home/bob:/bin/sh\n";
    assert_eq!(registered_name(passwd, "me"), "Jane Doe");
    assert_eq!(registered_name(passwd, "bob"), "bob");
    assert_eq!(registered_name(passwd, "nobody"), "nobody");
}

#[test]
fn control_panel_clicks_install_then_open() {
    let mut cp = ControlPanel::new(vec![true, false]);
    assert_eq!(cp.handle(CpMsg::Activate(0), 2), CpEffect::Launch(0));
    assert_eq!(cp.handle(CpMsg::Activate(1), 2), CpEffect::Install(1));
    assert_eq!(cp.handle(CpMsg::Installed(1, true), 2), CpEffect::Launch(1));
    assert_eq!(cp.installed, vec![true, true]);
    assert_eq!(cp.handle(CpMsg::Activate(7), 2), CpEffect::Nothing);
    cp.handle(CpMsg::OpenMenu(2), 2);
    assert_eq!(cp.menu_open, Some(2));
    cp.handle(CpMsg::OpenMenu(2), 2);
    assert_eq!(cp.menu_open, None);
    cp.handle(CpMsg::SetView(CpView::Details), 2);
    assert_eq!(cp.view, CpView::Details);
}

#[test]
fn control_panel_menus_and_labels() {
    let v = menu_items(2, CpView::List);
    assert_eq!(v.len(), 4);
    assert_eq!(v[0].label, "  Large Icons");
    assert_eq!(v[1].label, "\u{2022} List");
    assert_eq!(v[3].action, CpMenuAction::Refresh);
    assert!(!menu_items(1, CpView::List)[0].enabled);
    assert!(menu_items(9, CpView::List).is_empty());
    assert_eq!(tool_label(&vec![true, false], 1, "Disks"), "Disks  (install)");
    assert_eq!(tool_label(&vec![true, false], 0, "Files"), "Files");
    assert_eq!(tool_number(Some("1"), 3), Some(0));
    assert_eq!(tool_number(Some("0"), 3), Some(0));
    assert_eq!(tool_number(Some("4"), 3), None);
    assert_eq!(tool_number(Some("x"), 3), None);
}

#[test]
fn network_flyout_connects() {
    assert_eq!(signal_bars(10), "\u{2582}");
    assert_eq!(signal_bars(60), "\u{2582}\u{2584}\u{2586}");
    assert_eq!(signal_bars(100), "\u{2582}\u{2584}\u{2586}\u{2588}");
    let mut f = Flyout {
        conns: Vec::new(),
        wifis: vec![Wifi { ssid: "Home".into(), signal: 80, secured: true }, Wifi { ssid: "Cafe".into(), signal: 40, secured: false }],
        wifi_on: true,
        airplane: false,
        selected: None,
        password: String::new(),
    };
    assert!(matches!(f.handle(FlyoutMsg::ToggleWifi), FlyoutEffect::SetWifi(false)));
    match f.handle(FlyoutMsg::SelectSsid("Cafe".into())) {
        FlyoutEffect::Connect { ssid, key } => {
            assert_eq!(ssid, "Cafe");
            assert!(key.is_empty());
        }
        _ => panic!("an open network connects at once"),
    }
    assert!(matches!(f.handle(FlyoutMsg::SelectSsid("Home".into())), FlyoutEffect::Nothing));
    assert_eq!(f.selected.as_deref(), Some("Home"));
    f.handle(FlyoutMsg::Password("secret".into()));
    match f.handle(FlyoutMsg::Connect) {
        FlyoutEffect::Connect { ssid, key } => {
            assert_eq!(ssid, "Home");
            assert_eq!(key, "secret");
        }
        _ => panic!("connect expected"),
    }
    assert!(f.selected.is_none() && f.password.is_empty());
}

#[test]
fn file_dialog_helpers() {
    assert_eq!(human_size(0), "0 KB");
    assert_eq!(human_size(1), "1 KB");
    assert_eq!(human_size(2048), "2 KB");
    assert_eq!(human_size(2049), "3 KB");
    assert!(is_image("photo.JPG"));
    assert!(!is_image("notes.txt"));
    let f = parse_filters("Images:png,.JPG;All files");
    assert_eq!(f.len(), 2);
    assert_eq!(f[0].label, "Images (*.png;*.jpg)");
    assert_eq!(f[0].exts, vec!["png".to_string(), "jpg".to_string()]);
    assert_eq!(f[1].label, "All files (*.*)");
    assert!(f[0].accepts("a.PNG"));
    assert!(!f[0].accepts("a.gif"));
    assert!(f[1].accepts("anything"));
}

#[test]
fn mount_helpers() {
    assert!(uses_sshfs("sftp"));
    assert!(!uses_sshfs("smb"));
    assert_eq!(sshfs_remote("sftp://me@host:22/home/me"), "me@host:22:/home/me");
    assert_eq!(sshfs_remote("sftp://host"), "host:/");
}

#[test]
fn network_manager_small_readers() {
    assert_eq!(gsettings_value(" 'manual'\n"), "manual");
    assert_eq!(proxy_mode("''"), "none");
    assert!(wifi_enabled("enabled\n"));
    assert!(!wifi_enabled("disabled"));
    assert_eq!(connection_zone(" home \n"), "home");
    assert!(wifi_autoconnect(None));
    assert!(wifi_autoconnect(Some("yes\n")));
    assert!(!wifi_autoconnect(Some("no")));
}

#[test]
fn setup_account_and_keymap() {
    assert!(account_ready("me", "pw", "pw"));
    assert!(!account_ready("me", "pw", "px"));
    assert!(!account_ready("", "pw", "pw"));
    assert_eq!(combined_keymap("us", Some("de")), "us,de");
    assert_eq!(combined_keymap("us", None), "us");
}
