use mde::keyboard::layouts;
use mde::oobe::{detected_layout, detected_region, flow, flow_next, flow_prev, live_flow, regions, Picker, Stage};

#[test]
fn stage_flow_is_linear_and_terminates() {
    let f = flow();
    assert_eq!(flow_next(&f, Stage::Region), Some(Stage::Keyboard));
    assert_eq!(flow_prev(&f, Stage::Region), None);
    assert_eq!(flow_next(&f, *f.last().unwrap()), None);
    for w in f.windows(2) {
        assert_eq!(flow_next(&f, w[0]), Some(w[1]));
        assert_eq!(flow_prev(&f, w[1]), Some(w[0]));
    }
}

#[test]
fn wired_link_drops_the_network_stage() {
    let f: Vec<Stage> = flow().iter().copied().filter(|s| *s != Stage::Network).collect();
    assert_eq!(flow_next(&f, Stage::SecondKeyboard), Some(Stage::Account));
    assert!(!f.contains(&Stage::Network));
}

#[test]
fn detected_region_falls_back_to_us() {
    assert!(detected_region("") < regions().len());
    assert!(detected_layout("") < layouts().len());
    assert_eq!(detected_region("xx_YY.UTF-8"), 0);
}

#[test]
fn picker_starts_at_detected_and_clamps_both_ends() {
    let n = regions().len();
    let mut p = Picker::new(n, 3);
    assert_eq!(p.cursor, 3, "pre-highlighted to the detected index");
    p.move_cursor(-1);
    assert_eq!(p.cursor, 2);
    p.move_cursor(-10);
    assert_eq!(p.cursor, 0, "clamps at the top, no wrap");
    p.move_cursor(1000);
    assert_eq!(p.cursor, n - 1, "clamps at the bottom, no wrap");
}

#[test]
fn picker_start_index_clamps_into_range() {
    let p = Picker::new(3, 99);
    assert_eq!(p.cursor, 2);
}

#[test]
fn picker_on_empty_list_is_a_safe_noop() {
    let mut p = Picker::new(0, 5);
    assert_eq!(p.cursor, 0);
    p.move_cursor(1);
    p.move_cursor(-1);
    assert_eq!(p.cursor, 0);
}

#[test]
fn live_flow_drops_network_only_when_wired() {
    assert!(!live_flow(true).contains(&Stage::Network));
    assert_eq!(live_flow(false), flow());
}

#[test]
fn flow_round_trip_on_every_stage_but_the_last() {
    let f = flow();
    for s in f.iter().take(f.len() - 1) {
        let n = flow_next(&f, *s).unwrap();
        assert_eq!(flow_prev(&f, n), Some(*s));
    }
}
