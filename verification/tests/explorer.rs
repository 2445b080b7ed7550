use mde::explorer::{handle_files, sort_entries, Files, FilesEffect, FilesKey, FilesMsg, PasteOutcome, ReadError};
use mde::files::{kind, Entry, Pane};

fn e(name: &str, dir: bool, size: u64) -> Entry {
    Entry { name: name.into(), path: format!("/home/me/{name}"), is_dir: dir, size }
}

fn names(v: &[Entry]) -> Vec<String> {
    v.iter().map(|x| x.name.clone()).collect()
}

fn window() -> Files {
    Files::open("/home/me".into(), Pane::Folder, Vec::new(), Some("/home/me".into()))
}

#[test]
fn sort_puts_folders_first_then_name_case_insensitively() {
    let v = vec![e("b.txt", false, 5), e("Zeta", true, 0), e("A.txt", false, 9), e("alpha", true, 0)];
    let s = sort_entries(v, 0, false);
    assert_eq!(names(&s), vec!["alpha", "Zeta", "A.txt", "b.txt"]);
}

#[test]
fn sort_by_size_descending_keeps_folders_first() {
    let v = vec![e("small", false, 1), e("dir", true, 0), e("big", false, 100), e("mid", false, 50)];
    let s = sort_entries(v, 1, true);
    assert_eq!(names(&s), vec!["dir", "big", "mid", "small"]);
}

#[test]
fn sort_by_type_uses_the_extension() {
    let v = vec![e("x.zip", false, 1), e("y.doc", false, 1), e("a.zip", false, 1)];
    let s = sort_entries(v, 2, false);
    assert_eq!(names(&s), vec!["y.doc", "a.zip", "x.zip"]);
}

#[test]
fn kind_uppercases_the_extension() {
    assert_eq!(kind(&e("report.pdf", false, 1)), "PDF File");
    assert_eq!(kind(&e("folder", true, 0)), "File Folder");
    assert_eq!(kind(&e("README", false, 1)), "File");
}

#[test]
fn up_goes_to_the_parent_folder() {
    let mut f = window();
    let eff = handle_files(&mut f, FilesMsg::Up);
    assert!(matches!(eff, FilesEffect::Load));
    assert_eq!(f.cwd, "/home");
    assert_eq!(f.history, vec!["/home/me".to_string(), "/home".to_string()]);
    assert_eq!(f.hpos, 1);
}

#[test]
fn up_from_the_root_does_nothing() {
    let mut f = Files::open("/".into(), Pane::Folder, Vec::new(), None);
    assert!(matches!(handle_files(&mut f, FilesMsg::Up), FilesEffect::Nothing));
    assert_eq!(f.cwd, "/");
}

#[test]
fn back_returns_and_forward_reenters() {
    let mut f = window();
    handle_files(&mut f, FilesMsg::Home(Some("/tmp".into())));
    assert_eq!(f.cwd, "/tmp");
    assert!(matches!(handle_files(&mut f, FilesMsg::Back), FilesEffect::Load));
    assert_eq!(f.cwd, "/home/me");
    assert!(matches!(handle_files(&mut f, FilesMsg::Forward), FilesEffect::Load));
    assert_eq!(f.cwd, "/tmp");
    assert!(matches!(handle_files(&mut f, FilesMsg::Forward), FilesEffect::Nothing));
}

#[test]
fn navigating_after_back_drops_the_forward_history() {
    let mut f = window();
    handle_files(&mut f, FilesMsg::Home(Some("/a".into())));
    handle_files(&mut f, FilesMsg::Back);
    handle_files(&mut f, FilesMsg::Home(Some("/b".into())));
    assert_eq!(f.history, vec!["/home/me".to_string(), "/b".to_string()]);
}

#[test]
fn loaded_listing_is_sorted_and_errors_are_worded() {
    let mut f = window();
    handle_files(&mut f, FilesMsg::Loaded(Ok(vec![e("b", false, 1), e("a", false, 1)])));
    assert_eq!(names(&f.entries), vec!["a", "b"]);
    assert_eq!(f.address, "/home/me");
    handle_files(&mut f, FilesMsg::Loaded(Err(ReadError::PermissionDenied)));
    assert_eq!(f.error.as_deref(), Some("Access denied."));
    assert!(f.entries.is_empty());
    handle_files(&mut f, FilesMsg::Loaded(Err(ReadError::NotFound)));
    assert_eq!(f.error.as_deref(), Some("Folder not found."));
}

#[test]
fn single_click_selects_double_click_opens() {
    let mut f = window();
    handle_files(&mut f, FilesMsg::Loaded(Ok(vec![e("docs", true, 0), e("a.txt", false, 1)])));
    assert!(matches!(handle_files(&mut f, FilesMsg::Open { index: 1, now_ms: 1000 }), FilesEffect::Nothing));
    assert_eq!(f.selected, Some(1));
    match handle_files(&mut f, FilesMsg::Open { index: 1, now_ms: 1200 }) {
        FilesEffect::Launch(p) => assert_eq!(p, "/home/me/a.txt"),
        _ => panic!("a double click opens the file"),
    }
    handle_files(&mut f, FilesMsg::Open { index: 0, now_ms: 5000 });
    assert!(matches!(handle_files(&mut f, FilesMsg::Open { index: 0, now_ms: 5600 }), FilesEffect::Nothing));
    assert!(matches!(handle_files(&mut f, FilesMsg::Open { index: 0, now_ms: 5700 }), FilesEffect::Load));
    assert_eq!(f.cwd, "/home/me/docs");
}

#[test]
fn arrow_keys_clamp_at_both_ends() {
    let mut f = window();
    handle_files(&mut f, FilesMsg::Loaded(Ok(vec![e("a", false, 1), e("b", false, 1)])));
    handle_files(&mut f, FilesMsg::Key(FilesKey::Down));
    assert_eq!(f.selected, Some(0));
    handle_files(&mut f, FilesMsg::Key(FilesKey::Down));
    handle_files(&mut f, FilesMsg::Key(FilesKey::Down));
    assert_eq!(f.selected, Some(1));
    handle_files(&mut f, FilesMsg::Key(FilesKey::Up));
    handle_files(&mut f, FilesMsg::Key(FilesKey::Up));
    assert_eq!(f.selected, Some(0));
    handle_files(&mut f, FilesMsg::Key(FilesKey::Escape));
    assert_eq!(f.selected, None);
}

#[test]
fn header_click_flips_direction_and_keeps_the_selection() {
    let mut f = window();
    handle_files(&mut f, FilesMsg::Loaded(Ok(vec![e("a", false, 1), e("b", false, 2), e("c", false, 3)])));
    handle_files(&mut f, FilesMsg::RowContext(0));
    handle_files(&mut f, FilesMsg::CloseCtx);
    handle_files(&mut f, FilesMsg::HeaderClick(0));
    assert!(f.sort_desc);
    assert_eq!(names(&f.entries), vec!["c", "b", "a"]);
    assert_eq!(f.selected, Some(2));
    handle_files(&mut f, FilesMsg::HeaderClick(1));
    assert!(!f.sort_desc);
    assert_eq!(f.sort_col, 1);
}

#[test]
fn cut_then_paste_moves_into_the_current_folder() {
    let mut f = Files::open("/src".into(), Pane::Folder, Vec::new(), None);
    handle_files(&mut f, FilesMsg::Loaded(Ok(vec![Entry { name: "a.txt".into(), path: "/src/a.txt".into(), is_dir: false, size: 1 }])));
    handle_files(&mut f, FilesMsg::RowContext(0));
    handle_files(&mut f, FilesMsg::CtxCut);
    assert_eq!(f.clipboard, Some(("/src/a.txt".to_string(), true)));
    handle_files(&mut f, FilesMsg::Home(Some("/dst".into())));
    match handle_files(&mut f, FilesMsg::CtxPaste) {
        FilesEffect::Paste { src, dst, cut } => {
            assert_eq!(src, "/src/a.txt");
            assert_eq!(dst, "/dst/a.txt");
            assert!(cut);
        }
        _ => panic!("paste expected"),
    }
    assert!(matches!(handle_files(&mut f, FilesMsg::PasteDone(PasteOutcome::Done)), FilesEffect::Load));
    assert_eq!(f.clipboard, None);
}

#[test]
fn paste_into_the_same_folder_does_nothing() {
    let mut f = Files::open("/src".into(), Pane::Folder, Vec::new(), None);
    f.clipboard = Some(("/src/a.txt".into(), false));
    assert!(matches!(handle_files(&mut f, FilesMsg::CtxPaste), FilesEffect::Nothing));
}

#[test]
fn tree_toggle_twice_restores_the_tree() {
    let mut f = window();
    handle_files(&mut f, FilesMsg::TreeToggle("/etc".into()));
    assert!(f.tree_expanded.contains(&"/etc".to_string()));
    handle_files(&mut f, FilesMsg::TreeToggle("/etc".into()));
    assert_eq!(f.tree_expanded, vec!["/home/me".to_string()]);
}

#[test]
fn pins_toggle_and_ask_to_be_saved() {
    let mut f = window();
    assert!(matches!(handle_files(&mut f, FilesMsg::TogglePin("/x".into())), FilesEffect::SavePins));
    assert_eq!(f.pins, vec!["/x".to_string()]);
    handle_files(&mut f, FilesMsg::TogglePin("/x".into()));
    assert!(f.pins.is_empty());
}

#[test]
fn address_bar_remote_and_missing_paths() {
    let mut f = window();
    handle_files(&mut f, FilesMsg::AddressChanged("  smb://nas/media ".into()));
    match handle_files(&mut f, FilesMsg::GoAddress { is_dir: false }) {
        FilesEffect::Mount { uri, cloud_id } => {
            assert_eq!(uri, "smb://nas/media");
            assert!(cloud_id.is_none());
        }
        _ => panic!("a remote address mounts"),
    }
    assert_eq!(f.error.as_deref(), Some("Connecting to smb://nas/media\u{2026}"));
    handle_files(&mut f, FilesMsg::AddressChanged("/nope".into()));
    handle_files(&mut f, FilesMsg::GoAddress { is_dir: false });
    assert_eq!(f.error.as_deref(), Some("Cannot find '/nope'."));
}

#[test]
fn network_browse_reports_empty_servers() {
    let mut f = window();
    handle_files(&mut f, FilesMsg::NetHostChanged(" nas ".into()));
    match handle_files(&mut f, FilesMsg::NetBrowse) {
        FilesEffect::Browse(h) => assert_eq!(h, "nas"),
        _ => panic!("browse expected"),
    }
    assert!(f.net_busy);
    assert_eq!(f.error.as_deref(), Some("Browsing \\\\nas\u{2026}"));
    handle_files(&mut f, FilesMsg::NetBrowsed(Ok(Vec::new())));
    assert!(!f.net_busy);
    assert_eq!(f.error.as_deref(), Some("No shares found on 'nas'."));
}

#[test]
fn trash_failure_names_the_file() {
    let mut f = window();
    handle_files(&mut f, FilesMsg::Loaded(Ok(vec![e("a.txt", false, 1)])));
    handle_files(&mut f, FilesMsg::Key(FilesKey::Down));
    match handle_files(&mut f, FilesMsg::Key(FilesKey::Delete)) {
        FilesEffect::Trash { path, name } => {
            assert_eq!(path, "/home/me/a.txt");
            assert_eq!(name, "a.txt");
        }
        _ => panic!("trash expected"),
    }
    handle_files(&mut f, FilesMsg::Trashed { name: "a.txt".into(), ok: false });
    assert_eq!(f.error.as_deref(), Some("Could not delete 'a.txt'."));
}

#[test]
fn a_single_click_leaves_the_search_and_menus_alone() {
    let mut f = window();
    handle_files(&mut f, FilesMsg::Loaded(Ok(vec![e("a.txt", false, 1), e("b", true, 0)])));
    handle_files(&mut f, FilesMsg::SearchChanged("a".into()));
    handle_files(&mut f, FilesMsg::QuickContext("/home/me/b".into()));
    handle_files(&mut f, FilesMsg::Open { index: 1, now_ms: 10 });
    assert_eq!(f.search, "a");
    assert_eq!(f.qctx.as_deref(), Some("/home/me/b"));
    assert_eq!(f.selected, Some(1));
    handle_files(&mut f, FilesMsg::RowContext(0));
    assert_eq!(f.qctx.as_deref(), Some("/home/me/b"));
    assert_eq!(f.last_click, Some((1, 10)));
}

#[test]
fn sort_keeps_the_listing_order_of_entries_ranked_alike() {
    let v = vec![
        Entry { name: "Readme".into(), path: "/a/Readme".into(), is_dir: false, size: 3 },
        Entry { name: "b".into(), path: "/a/b".into(), is_dir: false, size: 1 },
        Entry { name: "README".into(), path: "/b/README".into(), is_dir: false, size: 7 },
        Entry { name: "readme".into(), path: "/c/readme".into(), is_dir: false, size: 5 },
    ];
    let s = sort_entries(v, 0, false);
    let paths: Vec<String> = s.iter().map(|x| x.path.clone()).collect();
    assert_eq!(paths, vec!["/a/b", "/a/Readme", "/b/README", "/c/readme"]);
}
