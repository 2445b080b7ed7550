use mde::mouse::{libinput_block, pointer_speed, rewrite_libinput, scroll_factor, Touchpad};

const SAMPLE: &str = "\
<?xml version=\"1.0\"?>
<labwc_config>
  <libinput>
    <device category=\"default\">
      <naturalScroll>no</naturalScroll>
      <leftHanded>no</leftHanded>
      <scrollFactor>1.00</scrollFactor>
    </device>
  </libinput>
  <keyboard>
    <keybind key=\"W-l\"><action name=\"Execute\"><command>mde lock</command></action></keybind>
  </keyboard>
  <mouse>
    <default/>
    <context name=\"Root\">
      <mousebind button=\"Right\" action=\"Press\"><action name=\"ShowMenu\"><menu>root-menu</menu></action></mousebind>
    </context>
  </mouse>
</labwc_config>
";

fn factor(lines: u8) -> f64 {
    scroll_factor(lines) as f64 / 100.0
}

fn speed(level: u8) -> f64 {
    pointer_speed(level) as f64 / 100.0
}

#[test]
fn scroll_factor_maps() {
    assert!((factor(3) - 1.0).abs() < 1e-6);
    assert!((factor(6) - 2.0).abs() < 1e-6);
    assert!((factor(0) - factor(1)).abs() < 1e-6);
    assert!((factor(99) - factor(10)).abs() < 1e-6);
}

#[test]
fn pointer_speed_maps() {
    assert!((speed(5) - 0.0).abs() < 1e-6);
    assert!((speed(10) - 1.0).abs() < 1e-6);
    assert!((speed(1) - (-0.8)).abs() < 1e-6);
    assert!((speed(0) - speed(1)).abs() < 1e-6);
}

#[test]
fn block_omits_the_advisory_and_touchpad_when_none() {
    let b = libinput_block(true, true, 6, None);
    assert!(b.contains("<leftHanded>yes</leftHanded>"));
    assert!(b.contains("<naturalScroll>yes</naturalScroll>"));
    assert!(b.contains("<scrollFactor>2.00</scrollFactor>"));
    assert!(!b.contains("category=\"touchpad\""));
    assert!(!b.to_lowercase().contains("inactive"));
}

#[test]
fn block_emits_touchpad_device_when_present() {
    let tp = Touchpad {
        enabled: false,
        pointer_speed: pointer_speed(10),
        tap: false,
        two_finger: false,
        natural_scroll: true,
    };
    let b = libinput_block(false, false, 3, Some(&tp));
    assert!(b.contains("category=\"default\""));
    assert!(b.contains("category=\"touchpad\""));
    assert!(b.find("category=\"default\"").unwrap() < b.find("category=\"touchpad\"").unwrap());
    assert!(b.contains("<sendEventsMode>no</sendEventsMode>"));
    assert!(b.contains("<scrollMethod>none</scrollMethod>"));
    assert!(b.contains("<pointerSpeed>1.00</pointerSpeed>"));
    assert!(b.contains("<tap>no</tap>"));
    assert_eq!(b.matches("<libinput>").count(), 1);
}

#[test]
fn rewrite_swaps_block_and_keeps_mouse_default() {
    let block = libinput_block(true, false, 3, None);
    let out = rewrite_libinput(SAMPLE, &block);
    assert!(out.contains("<leftHanded>yes</leftHanded>"));
    assert!(!out.contains("<leftHanded>no</leftHanded>"));
    assert_eq!(out.matches("<libinput>").count(), 1);
    assert!(out.contains("<mouse>"));
    assert!(out.contains("<default/>"));
    assert!(out.contains("root-menu"));
    assert!(out.contains("mde lock"));
}

#[test]
fn rewrite_inserts_when_absent_keeping_mouse() {
    let no_li = "<labwc_config>\n  <mouse>\n    <default/>\n  </mouse>\n</labwc_config>\n";
    let block = libinput_block(false, true, 5, None);
    let out = rewrite_libinput(no_li, &block);
    assert_eq!(out.matches("<libinput>").count(), 1);
    assert!(out.contains("<naturalScroll>yes</naturalScroll>"));
    assert!(out.contains("<default/>"));
    assert!(out.find("<libinput>").unwrap() < out.find("</labwc_config>").unwrap());
}

#[test]
fn rewrite_is_idempotent_with_touchpad() {
    let tp = Touchpad { enabled: true, pointer_speed: 20, tap: true, two_finger: true, natural_scroll: false };
    let block = libinput_block(true, true, 7, Some(&tp));
    let once = rewrite_libinput(SAMPLE, &block);
    let twice = rewrite_libinput(&once, &block);
    assert_eq!(once, twice);
    assert_eq!(twice.matches("category=\"touchpad\"").count(), 1);
}

#[test]
fn scroll_factor_exact_hundredths() {
    assert_eq!(scroll_factor(1), 33);
    assert_eq!(scroll_factor(4), 133);
    assert_eq!(scroll_factor(10), 333);
}

#[test]
fn pointer_speed_exact_hundredths() {
    assert_eq!(pointer_speed(0), -80);
    assert_eq!(pointer_speed(7), 40);
    assert_eq!(pointer_speed(200), 100);
}

#[test]
fn rewrite_keeps_text_before_the_element_on_its_line() {
    assert_eq!(rewrite_libinput("a<libinput></libinput>", "B"), "aB");
    assert_eq!(
        rewrite_libinput("<c>\n  <libinput>x</libinput>\n</c>\n", "\n  <libinput>y</libinput>\n"),
        "<c>\n  <libinput>y</libinput>\n</c>\n"
    );
    assert_eq!(rewrite_libinput("<m/>\t <libinput/></libinput>z", "B"), "<m/>\t Bz");
    assert_eq!(rewrite_libinput("x\n \t<libinput>old</libinput>\ny", "B"), "x\nB\ny");
}
