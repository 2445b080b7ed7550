use mde::nm::{is_vpn, parse_airplane, parse_connections, parse_saved_wifi, parse_wifi, split_terse, Wifi};

#[test]
fn split_terse_unescapes_colons_and_backslashes() {
    assert_eq!(split_terse("a:b:c"), vec!["a", "b", "c"]);
    assert_eq!(split_terse(r"My\:Net:72:WPA2"), vec!["My:Net", "72", "WPA2"]);
    assert_eq!(split_terse(r"a\\b:c"), vec![r"a\b", "c"]);
}

#[test]
fn parse_wifi_reads_ssid_signal_security() {
    let out = "HomeNet:88:WPA2\nGuest:40:\nCafe\\:Wifi:65:WPA1 WPA2\n:0:WPA2\n";
    let w = parse_wifi(out);
    assert_eq!(w.len(), 3, "the blank-SSID hidden net is dropped");
    assert_eq!(w[0], Wifi { ssid: "HomeNet".into(), signal: 88, secured: true });
    assert!(!w[1].secured, "empty SECURITY = open");
    assert_eq!(w[2].ssid, "Cafe:Wifi");
    assert_eq!(w[2].signal, 65);
}

#[test]
fn parse_saved_wifi_picks_wireless_connections() {
    let out = "Wired connection 1:802-3-ethernet\nHomeNet:802-11-wireless\n\
               MyVPN:vpn\nCafe:802-11-wireless\n";
    assert_eq!(parse_saved_wifi(out), vec!["HomeNet", "Cafe"]);
    assert!(parse_saved_wifi("").is_empty());
}

#[test]
fn parse_airplane_needs_all_radios_blocked() {
    let all_blocked = "0: phy0: Wireless LAN\n\tSoft blocked: yes\n\tHard blocked: no\n\
                       1: hci0: Bluetooth\n\tSoft blocked: yes\n";
    let one_on = "0: phy0: Wireless LAN\n\tSoft blocked: no\n\
                  1: hci0: Bluetooth\n\tSoft blocked: yes\n";
    assert!(parse_airplane(all_blocked));
    assert!(!parse_airplane(one_on));
    assert!(!parse_airplane(""), "no radios = not airplane");
}

#[test]
fn parse_connections_reads_four_fields() {
    let out = "Wired connection 1:802-3-ethernet:enp0s3:activated\n\
               MyVPN:vpn:tun0:activated\n";
    let c = parse_connections(out);
    assert_eq!(c.len(), 2);
    assert_eq!(c[0].name, "Wired connection 1");
    assert_eq!(c[0].device, "enp0s3");
    assert!(is_vpn(&c[1].kind));
}

#[test]
fn vpn_kinds_are_recognised_case_insensitively() {
    assert!(is_vpn("WireGuard"));
    assert!(!is_vpn("802-3-ethernet"));
}
