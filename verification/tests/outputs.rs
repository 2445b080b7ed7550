use mde::outputs::{idle_text, output_args, persist_text, shell_quote, Desired, DesiredOutput, Mode, Output, ScreenSaver};

fn dp1() -> Output {
    Output {
        name: "DP-1".into(),
        make: "Dell".into(),
        model: "U2419H".into(),
        active: true,
        focused: true,
        scale: 100,
        transform: "normal".into(),
        x: 0,
        y: 0,
        rect_w: 1920,
        rect_h: 1080,
        current: Some(Mode { width: 1920, height: 1080, refresh_mhz: 60000 }),
        modes: vec![
            Mode { width: 1920, height: 1080, refresh_mhz: 60000 },
            Mode { width: 1920, height: 1080, refresh_mhz: 59951 },
            Mode { width: 1280, height: 720, refresh_mhz: 60000 },
        ],
    }
}

#[test]
fn resolutions_are_sorted_and_deduped() {
    let res = dp1().resolutions();
    assert_eq!(res, vec![(1920, 1080), (1280, 720)]);
}

#[test]
fn refreshes_at_resolution_dedup_by_rate() {
    let r = dp1().refreshes_at(1920, 1080);
    assert_eq!(r.len(), 2);
    assert_eq!(r[0].refresh_mhz, 60000);
}

#[test]
fn mode_tokens_and_labels() {
    let m = Mode { width: 1920, height: 1080, refresh_mhz: 60000 };
    assert_eq!(m.mode_arg(), "1920x1080@60.000Hz");
    assert_eq!(m.refresh_label(), "60 Hz");
    assert_eq!(m.res_label(), "1920 x 1080");
    let odd = Mode { width: 2560, height: 1440, refresh_mhz: 59951 };
    assert_eq!(odd.refresh_label(), "59.951 Hz");
}

#[test]
fn output_args_cover_all_axes() {
    let d = DesiredOutput {
        name: "DP-1".into(),
        width: 1920,
        height: 1080,
        refresh_mhz: 60000,
        scale: 150,
        transform: "90".into(),
        x: 100,
        y: 0,
    };
    let a = output_args(&d).join(" ");
    assert_eq!(a, "--output DP-1 --mode 1920x1080@60.000Hz --transform 90 --scale 1.50 --pos 100,0");
}

#[test]
fn persist_text_is_an_executable_wlr_randr_script() {
    let d = Desired {
        outputs: vec![DesiredOutput {
            name: "DP-1".into(),
            width: 1280,
            height: 720,
            refresh_mhz: 60000,
            scale: 100,
            transform: "normal".into(),
            x: 0,
            y: 0,
        }],
        wallpaper: None,
        screensaver: None,
        scheme: None,
    };
    let text = persist_text(&d);
    assert!(text.starts_with("#!/bin/sh"));
    assert!(text.contains("wlr-randr --output DP-1 --mode 1280x720@60.000Hz --transform normal --scale 1 --pos 0,0"));
}

#[test]
fn idle_script_uses_wlopm_or_swaylock() {
    let off = idle_text(&ScreenSaver { minutes: 10, lock: false });
    assert!(off.contains("swayidle -w timeout 600"));
    assert!(off.contains("wlopm --off"));
    let lock = idle_text(&ScreenSaver { minutes: 5, lock: true });
    assert!(lock.contains("swayidle -w timeout 300"));
    assert!(lock.contains("swaylock"));
}

#[test]
fn shell_quote_wraps_spaces() {
    assert_eq!(shell_quote("/a/b.png"), "/a/b.png");
    assert_eq!(shell_quote("/a b/c.png"), "\"/a b/c.png\"");
}

#[test]
fn refresh_labels_drop_only_a_trailing_zero_fraction() {
    assert_eq!(Mode { width: 1, height: 1, refresh_mhz: 59996 }.refresh_label(), "59.996 Hz");
    assert_eq!(Mode { width: 1, height: 1, refresh_mhz: 75004 }.refresh_label(), "75.004 Hz");
    assert_eq!(Mode { width: 1, height: 1, refresh_mhz: 144005 }.refresh_label(), "144.005 Hz");
    assert_eq!(Mode { width: 1, height: 1, refresh_mhz: 75000 }.refresh_label(), "75 Hz");
    assert_eq!(Mode { width: 1, height: 1, refresh_mhz: 74950 }.refresh_label(), "74.950 Hz");
}

#[test]
fn output_label_names_make_and_model() {
    let l = dp1().label();
    assert!(l.contains("DP-1"));
}

#[test]
fn resolutions_hold_each_size_once() {
    let mut o = dp1();
    o.modes = vec![
        Mode { width: 1920, height: 1080, refresh_mhz: 60000 },
        Mode { width: 1080, height: 1920, refresh_mhz: 60000 },
        Mode { width: 1920, height: 1080, refresh_mhz: 50000 },
        Mode { width: 2560, height: 1440, refresh_mhz: 60000 },
    ];
    assert_eq!(o.resolutions(), vec![(2560, 1440), (1920, 1080), (1080, 1920)]);
}
