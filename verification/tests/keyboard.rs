use mde::keyboard::{rewrite_keyboard, upsert_env};

const KB: &str = "\
<?xml version=\"1.0\"?>
<labwc_config>
  <keyboard>
    <keybind key=\"W-l\"><action name=\"Execute\"><command>mde lock</command></action></keybind>
    <keybind key=\"A-F4\"><action name=\"Close\"/></keybind>
  </keyboard>
  <mouse>
    <default/>
  </mouse>
</labwc_config>
";

#[test]
fn inserts_repeat_and_keeps_keybinds() {
    let out = rewrite_keyboard(KB, 30, 400);
    assert!(out.contains("<repeatRate>30</repeatRate>"));
    assert!(out.contains("<repeatDelay>400</repeatDelay>"));
    assert!(out.contains("mde lock"));
    assert!(out.contains("key=\"A-F4\""));
    assert!(out.contains("<default/>"));
    let kb = out.find("<keyboard").unwrap();
    let rate = out.find("<repeatRate>").unwrap();
    let first_bind = out.find("<keybind").unwrap();
    assert!(kb < rate && rate < first_bind);
}

#[test]
fn repeat_rewrite_is_idempotent() {
    let once = rewrite_keyboard(KB, 25, 600);
    let twice = rewrite_keyboard(&once, 25, 600);
    assert_eq!(once, twice);
    assert_eq!(twice.matches("<repeatRate>").count(), 1);
    assert_eq!(twice.matches("<repeatDelay>").count(), 1);
}

#[test]
fn changing_rate_replaces_not_appends() {
    let first = rewrite_keyboard(KB, 25, 600);
    let second = rewrite_keyboard(&first, 40, 300);
    assert_eq!(second.matches("<repeatRate>").count(), 1);
    assert!(second.contains("<repeatRate>40</repeatRate>"));
    assert!(!second.contains("<repeatRate>25</repeatRate>"));
}

#[test]
fn env_upsert_replaces_or_appends() {
    let a = upsert_env("XKB_DEFAULT_MODEL=pc105\n", "XKB_DEFAULT_LAYOUT", "de");
    assert!(a.contains("XKB_DEFAULT_MODEL=pc105"));
    assert!(a.contains("XKB_DEFAULT_LAYOUT=de"));
    let b = upsert_env("XKB_DEFAULT_LAYOUT=us\n", "XKB_DEFAULT_LAYOUT", "fr");
    assert_eq!(b.matches("XKB_DEFAULT_LAYOUT=").count(), 1);
    assert!(b.contains("XKB_DEFAULT_LAYOUT=fr"));
    assert!(!b.contains("XKB_DEFAULT_LAYOUT=us"));
}

#[test]
fn env_upsert_exact_text() {
    assert_eq!(upsert_env("A=1\nB=2", "B", "3"), "A=1\nB=3\n");
    assert_eq!(upsert_env("", "K", "v"), "K=v\n");
    assert_eq!(upsert_env("  K=old\nK=older\n", "K", "new"), "K=new\nK=new\n");
}

#[test]
fn keyboard_without_a_keyboard_block_only_loses_repeat_lines() {
    let xml = "<labwc_config>\n  <repeatRate>9</repeatRate>\n</labwc_config>\n";
    assert_eq!(rewrite_keyboard(xml, 30, 400), "<labwc_config>\n</labwc_config>\n");
}

#[test]
fn repeat_lines_go_right_after_the_keyboard_tag() {
    let out = rewrite_keyboard("<keyboard>\n</keyboard>", 30, 400);
    assert_eq!(out, "<keyboard>\n    <repeatRate>30</repeatRate>\n    <repeatDelay>400</repeatDelay>\n</keyboard>");
}

#[test]
fn text_after_the_keyboard_tag_keeps_its_own_line() {
    let once = rewrite_keyboard("<keyboard><a/></keyboard>\n", 25, 600);
    assert_eq!(
        once,
        "<keyboard>\n    <repeatRate>25</repeatRate>\n    <repeatDelay>600</repeatDelay>\n<a/></keyboard>\n"
    );
    assert_eq!(rewrite_keyboard(&once, 25, 600), once);
}

#[test]
fn rewriting_with_new_settings_replaces_the_old_ones_on_a_shared_tag_line() {
    let xml = "<keyboard><default/>\n</keyboard>\n";
    let once = rewrite_keyboard(xml, 25, 600);
    let again = rewrite_keyboard(&once, 40, 300);
    assert_eq!(again, rewrite_keyboard(xml, 40, 300));
    assert_eq!(
        again,
        "<keyboard>\n    <repeatRate>40</repeatRate>\n    <repeatDelay>300</repeatDelay>\n<default/>\n</keyboard>\n"
    );
}
