use mde::catalogue::{available, Component};
use mde::dialogs::{item_kind, logoff_update, run_update, Choice, DialogEffect, DialogMsg, DlgKey, RunEffect, RunMsg,
    ShutdownDlg};
use mde::filedialog::{dialog_listing, parse_filters, DlgEffect, DlgMsg, FileDialog};
use mde::files::Entry;
use mde::installer::{Setup, SetupEffect, SetupMsg};
use mde::nm::proxy_http_outcome;
use mde::oobe::{oobe_should_run, stage_from_arg, Stage};
use mde::packages::{AddRemove, Pkg, PkgEffect, PkgMsg, PkgTab, Update};

fn pkg(package: &'static str, installed: bool) -> Pkg {
    Pkg { package, category: "Apps", name: package, mandatory: false, installed }
}

#[test]
fn add_remove_runs_one_transaction_at_a_time() {
    let (mut w, eff) = AddRemove::open(vec![pkg("htop", false), pkg("gimp", true)], false);
    assert!(matches!(eff, PkgEffect::Nothing));
    match w.handle(PkgMsg::Act("htop".into(), true)) {
        PkgEffect::Act { package, install } => {
            assert_eq!(package, "htop");
            assert!(install);
        }
        _ => panic!("expected an install"),
    }
    assert_eq!(w.status.as_deref(), Some("Installing htop\u{2026}"));
    assert!(matches!(w.handle(PkgMsg::Act("gimp".into(), false)), PkgEffect::Nothing));
    w.handle(PkgMsg::Done { package: "htop".into(), ok: true, installed: true });
    assert!(w.busy.is_none());
    assert!(w.rows[0].installed);
    assert_eq!(w.status.as_deref(), Some("Done: htop."));
    w.handle(PkgMsg::Done { package: "gimp".into(), ok: false, installed: true });
    assert_eq!(w.status.as_deref(), Some("'gimp' was not changed (cancelled or failed)."));
}

#[test]
fn add_remove_checks_updates_once_and_counts_them() {
    let (mut w, eff) = AddRemove::open(Vec::new(), true);
    assert!(matches!(eff, PkgEffect::Check));
    assert_eq!(w.tab, PkgTab::Updates);
    assert!(matches!(w.handle(PkgMsg::CheckUpdates), PkgEffect::Nothing));
    let up = |p: &str| Update { package: p.into(), version: "1".into() };
    w.handle(PkgMsg::Checked(Ok(vec![up("a.x86_64"), up("b.noarch"), up("c.x86_64")])));
    assert_eq!(w.status.as_deref(), Some("3 updates available."));
    assert!(matches!(w.handle(PkgMsg::UpdateAll), PkgEffect::Upgrade));
    assert!(matches!(w.handle(PkgMsg::UpdatedAll(true)), PkgEffect::Check));
    w.handle(PkgMsg::Checked(Ok(vec![up("a.x86_64")])));
    assert_eq!(w.status.as_deref(), Some("1 update available."));
    w.handle(PkgMsg::Checked(Err("offline".into())));
    assert_eq!(w.status.as_deref(), Some("Could not check for updates: offline"));
    assert!(matches!(w.handle(PkgMsg::UpdateAll), PkgEffect::Nothing));
}

fn comp(package: &'static str, mandatory: bool, default_on: bool) -> Component {
    Component { package, category: "Apps", name: package, mandatory, default_on }
}

#[test]
fn availability_follows_the_repository_query() {
    let pkgs = vec!["a", "b", "c"];
    assert_eq!(available(&pkgs, &vec![false, true, false], Some("a\n  x\n")), vec![true, true, false]);
    assert_eq!(available(&pkgs, &vec![false, false, false], None), vec![true, true, true]);
}

#[test]
fn setup_picker_presets_and_handoff() {
    let cat = vec![comp("base", true, true), comp("gimp", false, true), comp("vlc", false, false), comp("gone", false, true)];
    let mut s = Setup::new(cat, &vec![false, false, true, false], vec![true, true, true, false]);
    assert_eq!(s.locked, vec![true, false, true, false]);
    assert_eq!(s.checked, vec![true, true, true, false]);
    s.handle(SetupMsg::Toggle(1));
    s.handle(SetupMsg::Toggle(2));
    s.handle(SetupMsg::Toggle(3));
    assert_eq!(s.checked, vec![true, false, true, false]);
    s.handle(SetupMsg::Preset(0));
    assert_eq!(s.checked, vec![true, false, true, false]);
    s.handle(SetupMsg::Preset(2));
    assert_eq!(s.checked, vec![true, true, true, false]);
    match s.handle(SetupMsg::Install) {
        SetupEffect::Handoff(v) => assert_eq!(v, vec!["base", "gimp", "vlc"]),
        _ => panic!("expected a hand-off"),
    }
    assert!(matches!(s.handle(SetupMsg::Cancel), SetupEffect::Exit));
}

fn ent(name: &str, dir: bool) -> Entry {
    Entry { name: name.into(), path: format!("/d/{name}"), is_dir: dir, size: 1 }
}

#[test]
fn file_dialog_lists_navigates_and_chooses() {
    let filters = parse_filters("Images:png;All Files:*");
    let raw = vec![ent("b.png", false), ent(".hidden", true), ent("notes.txt", false), ent("Zdir", true), ent("a.PNG", false)];
    let names: Vec<String> = dialog_listing(&raw, &filters[0]).iter().map(|e| e.name.clone()).collect();
    assert_eq!(names, vec!["Zdir", "a.PNG", "b.png"]);
    let (mut d, eff) = FileDialog::open(false, "/d".into(), String::new(), filters);
    assert!(matches!(eff, DlgEffect::Read));
    d.handle(DlgMsg::Listed(raw));
    assert_eq!(d.entries.len(), 3);
    d.handle(DlgMsg::ClickEntry { index: 1, now_ms: 100 });
    assert_eq!(d.filename, "a.PNG");
    match d.handle(DlgMsg::ClickEntry { index: 1, now_ms: 300 }) {
        DlgEffect::Choose(p) => assert_eq!(p, "/d/a.PNG"),
        _ => panic!("expected a choice"),
    }
    d.handle(DlgMsg::FilenameChanged(" sub ".into()));
    match d.handle(DlgMsg::Accept) {
        DlgEffect::Probe(p) => assert_eq!(p, "/d/sub"),
        _ => panic!("expected a probe"),
    }
    assert!(matches!(d.handle(DlgMsg::Probed { path: "/d/sub".into(), is_dir: true }), DlgEffect::Read));
    assert_eq!(d.current, "/d/sub");
    assert_eq!(d.filename, "");
    assert!(matches!(d.handle(DlgMsg::SetFilter(9)), DlgEffect::Read));
    assert_eq!(d.filter_idx, 1);
    assert!(matches!(d.handle(DlgMsg::Cancel), DlgEffect::Cancel));
}

#[test]
fn small_dialogs_react_to_keys() {
    assert_eq!(logoff_update(DialogMsg::Key(DlgKey::Enter)), DialogEffect::Run("swaymsg", "exit"));
    assert_eq!(logoff_update(DialogMsg::Key(DlgKey::Escape)), DialogEffect::Exit);
    let mut s = ShutdownDlg::new();
    assert_eq!(s.handle(DialogMsg::Confirm), DialogEffect::Run("systemctl", "poweroff"));
    s.handle(DialogMsg::Pick(Choice::Restart));
    assert_eq!(s.handle(DialogMsg::Key(DlgKey::Enter)), DialogEffect::Run("systemctl", "reboot"));
    assert_eq!(s.handle(DialogMsg::Key(DlgKey::Other)), DialogEffect::Nothing);
    let mut cmd = String::new();
    run_update(&mut cmd, RunMsg::Input("  foot  ".into()));
    match run_update(&mut cmd, RunMsg::OkButton) {
        RunEffect::Launch(c) => assert_eq!(c.as_deref(), Some("foot")),
        _ => panic!("expected a launch"),
    }
    assert!(matches!(run_update(&mut cmd, RunMsg::Cancel), RunEffect::Exit));
    assert_eq!(item_kind("firefox"), "Application");
    assert_eq!(item_kind(""), "Item");
}

#[test]
fn proxy_port_waits_for_the_host() {
    assert_eq!(proxy_http_outcome(false, None), (false, false));
    assert_eq!(proxy_http_outcome(true, None), (true, false));
    assert_eq!(proxy_http_outcome(true, Some(true)), (true, true));
    assert_eq!(proxy_http_outcome(true, Some(false)), (true, false));
}

#[test]
fn oobe_runs_once_and_starts_where_asked() {
    assert!(oobe_should_run(false, false));
    assert!(!oobe_should_run(true, false));
    assert!(oobe_should_run(true, true));
    let args = |v: &[&str]| v.iter().map(|s| s.to_string()).collect::<Vec<String>>();
    assert_eq!(stage_from_arg(&args(&["--stage", "privacy"])), Stage::Privacy);
    assert_eq!(stage_from_arg(&args(&["--stage", "bogus"])), Stage::Region);
    assert_eq!(stage_from_arg(&args(&["--dry-run"])), Stage::Region);
}
