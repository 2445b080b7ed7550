//! Fedora system-tool wiring for the Control Panel and the System Tools menu:
//! each entry maps a descriptive name to a real Fedora tool, the dnf package
//! that provides it, its category, and whether it runs in a terminal. Also the
//! installed-package listing (largest first) and the uninstall argv.

use vstd::prelude::*;
use crate::text::{chars_of, find, lex_le, lex_le_chars, lemma_lex_antisym, lemma_lex_refl,
    lemma_lex_total, lemma_lex_trans, lines, lines_of, occurs_at, parse_bounded, parse_u64, rfind_chars,
    rfind, slice_chars, split_ws, split_ws_chars, string_of, trim, trim_chars, views, eq_chars};

verus! {

/// One system tool.
#[derive(Clone, Copy)]
pub struct Tool {
    /// Grouping (Control Panel section / right-click submenu).
    pub category: &'static str,
    /// Display name.
    pub name: &'static str,
    /// Shell command that launches it.
    pub command: &'static str,
    /// Run inside a terminal (CLI tools).
    pub terminal: bool,
    /// dnf package that provides it (for install-if-missing).
    pub package: &'static str,
    /// Specific binary to test on `$PATH`; empty means detect via the rpm.
    pub detect_bin: &'static str,
    /// Freedesktop icon-name candidates, best first.
    pub icons: &'static [&'static str],
}

/// A tool as plain text.
pub struct ToolView {
    pub category: Seq<char>,
    pub name: Seq<char>,
    pub command: Seq<char>,
    pub terminal: bool,
    pub package: Seq<char>,
    pub detect_bin: Seq<char>,
    pub icons: Seq<Seq<char>>,
}

pub open spec fn tool_row(category: Seq<char>, name: Seq<char>, command: Seq<char>, terminal: bool,
    package: Seq<char>, detect_bin: Seq<char>, icons: Seq<Seq<char>>) -> ToolView {
    ToolView { category, name, command, terminal, package, detect_bin, icons }
}

impl Tool {
    pub open spec fn view(self) -> ToolView {
        ToolView {
            category: self.category@,
            name: self.name@,
            command: self.command@,
            terminal: self.terminal,
            package: self.package@,
            detect_bin: self.detect_bin@,
            icons: self.icons@.map_values(|s: &'static str| s@),
        }
    }
}

pub open spec fn tool_views(t: Seq<Tool>) -> Seq<ToolView> {
    t.map_values(|x: Tool| x.view())
}

/// The full tool table, in menu / Control Panel order.
pub open spec fn tools_spec() -> Seq<ToolView> {
    seq![
        tool_row("Control Panel"@, "Add/Remove Programs"@, "mde add-remove"@, false, "mde"@, "mde"@, seq!["system-software-install"@]),
        tool_row("Control Panel"@, "Automatic Updates"@, "sudo dnf upgrade"@, true, "dnf"@, "dnf"@, seq!["system-software-update"@]),
        tool_row("Control Panel"@, "MackesDE Firewall"@, "firewall-config"@, false, "firewall-config"@, "firewall-config"@, seq!["security-high"@]),
        tool_row("Control Panel"@, "Network and Dial-up Connections"@, "nm-connection-editor"@, false, "nm-connection-editor"@, "nm-connection-editor"@, seq!["network-wired"@]),
        tool_row("Control Panel"@, "Sounds and Multimedia"@, "pavucontrol"@, false, "pavucontrol"@, "pavucontrol"@, seq!["multimedia-volume-control"@]),
        tool_row("Control Panel"@, "Disk Management"@, "gnome-disks"@, false, "gnome-disk-utility"@, "gnome-disks"@, seq!["drive-harddisk"@]),
        tool_row("Control Panel"@, "Partition Manager"@, "gparted"@, false, "gparted"@, "gparted"@, seq!["gparted"@]),
        tool_row("Control Panel"@, "Storage Spaces"@, "blivet-gui"@, false, "blivet-gui"@, "blivet-gui"@, seq!["drive-multidisk"@]),
        tool_row("Control Panel"@, "Users and Passwords"@, "seahorse"@, false, "seahorse"@, "seahorse"@, seq!["system-users"@]),
        tool_row("Control Panel"@, "Regional Options"@, "system-config-language"@, false, "system-config-language"@, "system-config-language"@, seq!["preferences-desktop-locale"@]),
        tool_row("Control Panel"@, "Keyboard"@, "im-chooser"@, false, "im-chooser"@, "im-chooser"@, seq!["input-keyboard"@]),
        tool_row("Control Panel"@, "Event Viewer"@, "gnome-abrt"@, false, "gnome-abrt"@, "gnome-abrt"@, seq!["logviewer"@]),
        tool_row("Control Panel"@, "Security Center"@, "sealert -b"@, false, "setroubleshoot-server"@, "sealert"@, seq!["security-high"@]),
        tool_row("Control Panel"@, "Create Installation Media"@, "mediawriter"@, false, "mediawriter"@, "mediawriter"@, seq!["media-optical"@]),
        tool_row("Control Panel"@, "System"@, "mde system-properties"@, false, "mde"@, "mde"@, seq!["computer"@]),
        tool_row("Control Panel"@, "Mobile Devices"@, "mde phone"@, false, "mde"@, "mde"@, seq!["smartphone"@, "phone"@, "preferences-system-network"@]),
        tool_row("Control Panel"@, "Display"@, "mde display"@, false, "mde"@, "mde"@, seq!["preferences-desktop-display"@, "video-display"@]),
        tool_row("Control Panel"@, "Date and Time"@, "timedatectl; echo; read -p 'Press Enter to close '"@, true, "systemd"@, "timedatectl"@, seq!["preferences-system-time"@]),
        tool_row("Control Panel"@, "Printers"@, "system-config-printer"@, false, "system-config-printer"@, "system-config-printer"@, seq!["printer"@]),
        tool_row("Administrative Tools"@, "Services"@, "systemctl --no-pager list-units --type=service; echo; read -p 'Press Enter to close '"@, true, "systemd"@, "systemctl"@, seq!["preferences-system"@]),
        tool_row("Administrative Tools"@, "Boot Performance"@, "systemd-analyze; echo; systemd-analyze blame | head -n 30; echo; read -p 'Press Enter to close '"@, true, "systemd"@, "systemd-analyze"@, seq!["utilities-system-monitor"@]),
        tool_row("Administrative Tools"@, "Name Resolution (DNS)"@, "resolvectl status; echo; read -p 'Press Enter to close '"@, true, "systemd-resolved"@, "resolvectl"@, seq!["network-wired"@]),
        tool_row("Administrative Tools"@, "Temporary Files"@, "systemd-tmpfiles --cat-config | less"@, true, "systemd"@, "systemd-tmpfiles"@, seq!["folder-temp"@]),
        tool_row("All-in-One Dashboard"@, "Cockpit (Web Console)"@, "xdg-open https://localhost:9090"@, false, "cockpit"@, ""@, seq!["network-server"@]),
        tool_row("All-in-One Dashboard"@, "Stacer"@, "stacer"@, false, "stacer"@, "stacer"@, seq!["stacer"@, "system-run"@]),
        tool_row("Resource Monitoring"@, "btop"@, "btop"@, true, "btop"@, "btop"@, seq!["utilities-system-monitor"@]),
        tool_row("Resource Monitoring"@, "htop"@, "htop"@, true, "htop"@, "htop"@, seq!["utilities-system-monitor"@]),
        tool_row("Resource Monitoring"@, "Glances"@, "glances"@, true, "glances"@, "glances"@, seq!["utilities-system-monitor"@]),
        tool_row("Resource Monitoring"@, "iotop (Disk I/O)"@, "iotop -o"@, true, "iotop"@, "iotop"@, seq!["drive-harddisk"@]),
        tool_row("Resource Monitoring"@, "nvtop (GPU)"@, "nvtop"@, true, "nvtop"@, "nvtop"@, seq!["video-display"@]),
        tool_row("Storage & Disk"@, "ncdu (Disk Usage)"@, "ncdu /"@, true, "ncdu"@, "ncdu"@, seq!["drive-harddisk"@]),
        tool_row("Storage & Disk"@, "Drive Health (SMART)"@, "smartctl --scan; echo; echo 'Detail: smartctl -a /dev/sdX'; read -p 'Press Enter to close '"@, true, "smartmontools"@, "smartctl"@, seq!["drive-harddisk"@]),
        tool_row("Backup & Recovery"@, "Timeshift (Snapshots)"@, "timeshift-launcher"@, false, "timeshift"@, "timeshift-launcher"@, seq!["document-save"@]),
        tool_row("Package Management"@, "DNF Plugins"@, "dnf config-manager --help 2>&1 | less"@, true, "dnf-plugins-core"@, ""@, seq!["package-x-generic"@]),
        tool_row("Package Management"@, "Flatpak"@, "flatpak list; echo; read -p 'Press Enter to close '"@, true, "flatpak"@, "flatpak"@, seq!["package-x-generic"@]),
        tool_row("Network Tools"@, "Nmap"@, "echo 'Usage: nmap <target>'; nmap --version; echo; read -p 'Press Enter to close '"@, true, "nmap"@, "nmap"@, seq!["network-workgroup"@]),
        tool_row("Network Tools"@, "iPerf3"@, "echo 'Server: iperf3 -s   Client: iperf3 -c <host>'; iperf3 --version; echo; read -p 'Press Enter to close '"@, true, "iperf3"@, "iperf3"@, seq!["network-wired"@]),
        tool_row("Network Tools"@, "Wireshark"@, "wireshark"@, false, "wireshark"@, "wireshark"@, seq!["wireshark"@, "network-wired"@]),
        tool_row("Power Management"@, "PowerTOP"@, "echo 'Tip: pkexec powertop'; powertop --version; echo; read -p 'Press Enter to close '"@, true, "powertop"@, "powertop"@, seq!["battery"@]),
        tool_row("Hardware Info"@, "fastfetch"@, "fastfetch; echo; read -p 'Press Enter to close '"@, true, "fastfetch"@, "fastfetch"@, seq!["computer"@]),
        tool_row("Hardware Info"@, "Sensors (lm_sensors)"@, "sensors; echo; read -p 'Press Enter to close '"@, true, "lm_sensors"@, "sensors"@, seq!["temperature"@]),
        tool_row("System Security"@, "Lynis (Audit)"@, "echo 'Full audit: pkexec lynis audit system'; lynis show version; echo; read -p 'Press Enter to close '"@, true, "lynis"@, "lynis"@, seq!["security-high"@]),
    ]
}

/// The full tool table. Categories order = menu/Control Panel order.
pub fn tools() -> (v: Vec<Tool>)
    ensures
        tool_views(v@) == tools_spec(),
{
    let v = vec![
        Tool { category: "Control Panel", name: "Add/Remove Programs", command: "mde add-remove", terminal: false, package: "mde", detect_bin: "mde", icons: &["system-software-install"] },
        Tool { category: "Control Panel", name: "Automatic Updates", command: "sudo dnf upgrade", terminal: true, package: "dnf", detect_bin: "dnf", icons: &["system-software-update"] },
        Tool { category: "Control Panel", name: "MackesDE Firewall", command: "firewall-config", terminal: false, package: "firewall-config", detect_bin: "firewall-config", icons: &["security-high"] },
        Tool { category: "Control Panel", name: "Network and Dial-up Connections", command: "nm-connection-editor", terminal: false, package: "nm-connection-editor", detect_bin: "nm-connection-editor", icons: &["network-wired"] },
        Tool { category: "Control Panel", name: "Sounds and Multimedia", command: "pavucontrol", terminal: false, package: "pavucontrol", detect_bin: "pavucontrol", icons: &["multimedia-volume-control"] },
        Tool { category: "Control Panel", name: "Disk Management", command: "gnome-disks", terminal: false, package: "gnome-disk-utility", detect_bin: "gnome-disks", icons: &["drive-harddisk"] },
        Tool { category: "Control Panel", name: "Partition Manager", command: "gparted", terminal: false, package: "gparted", detect_bin: "gparted", icons: &["gparted"] },
        Tool { category: "Control Panel", name: "Storage Spaces", command: "blivet-gui", terminal: false, package: "blivet-gui", detect_bin: "blivet-gui", icons: &["drive-multidisk"] },
        Tool { category: "Control Panel", name: "Users and Passwords", command: "seahorse", terminal: false, package: "seahorse", detect_bin: "seahorse", icons: &["system-users"] },
        Tool { category: "Control Panel", name: "Regional Options", command: "system-config-language", terminal: false, package: "system-config-language", detect_bin: "system-config-language", icons: &["preferences-desktop-locale"] },
        Tool { category: "Control Panel", name: "Keyboard", command: "im-chooser", terminal: false, package: "im-chooser", detect_bin: "im-chooser", icons: &["input-keyboard"] },
        Tool { category: "Control Panel", name: "Event Viewer", command: "gnome-abrt", terminal: false, package: "gnome-abrt", detect_bin: "gnome-abrt", icons: &["logviewer"] },
        Tool { category: "Control Panel", name: "Security Center", command: "sealert -b", terminal: false, package: "setroubleshoot-server", detect_bin: "sealert", icons: &["security-high"] },
        Tool { category: "Control Panel", name: "Create Installation Media", command: "mediawriter", terminal: false, package: "mediawriter", detect_bin: "mediawriter", icons: &["media-optical"] },
        Tool { category: "Control Panel", name: "System", command: "mde system-properties", terminal: false, package: "mde", detect_bin: "mde", icons: &["computer"] },
        Tool { category: "Control Panel", name: "Mobile Devices", command: "mde phone", terminal: false, package: "mde", detect_bin: "mde", icons: &["smartphone", "phone", "preferences-system-network"] },
        Tool { category: "Control Panel", name: "Display", command: "mde display", terminal: false, package: "mde", detect_bin: "mde", icons: &["preferences-desktop-display", "video-display"] },
        Tool { category: "Control Panel", name: "Date and Time", command: "timedatectl; echo; read -p 'Press Enter to close '", terminal: true, package: "systemd", detect_bin: "timedatectl", icons: &["preferences-system-time"] },
        Tool { category: "Control Panel", name: "Printers", command: "system-config-printer", terminal: false, package: "system-config-printer", detect_bin: "system-config-printer", icons: &["printer"] },
        Tool { category: "Administrative Tools", name: "Services", command: "systemctl --no-pager list-units --type=service; echo; read -p 'Press Enter to close '", terminal: true, package: "systemd", detect_bin: "systemctl", icons: &["preferences-system"] },
        Tool { category: "Administrative Tools", name: "Boot Performance", command: "systemd-analyze; echo; systemd-analyze blame | head -n 30; echo; read -p 'Press Enter to close '", terminal: true, package: "systemd", detect_bin: "systemd-analyze", icons: &["utilities-system-monitor"] },
        Tool { category: "Administrative Tools", name: "Name Resolution (DNS)", command: "resolvectl status; echo; read -p 'Press Enter to close '", terminal: true, package: "systemd-resolved", detect_bin: "resolvectl", icons: &["network-wired"] },
        Tool { category: "Administrative Tools", name: "Temporary Files", command: "systemd-tmpfiles --cat-config | less", terminal: true, package: "systemd", detect_bin: "systemd-tmpfiles", icons: &["folder-temp"] },
        Tool { category: "All-in-One Dashboard", name: "Cockpit (Web Console)", command: "xdg-open https://localhost:9090", terminal: false, package: "cockpit", detect_bin: "", icons: &["network-server"] },
        Tool { category: "All-in-One Dashboard", name: "Stacer", command: "stacer", terminal: false, package: "stacer", detect_bin: "stacer", icons: &["stacer", "system-run"] },
        Tool { category: "Resource Monitoring", name: "btop", command: "btop", terminal: true, package: "btop", detect_bin: "btop", icons: &["utilities-system-monitor"] },
        Tool { category: "Resource Monitoring", name: "htop", command: "htop", terminal: true, package: "htop", detect_bin: "htop", icons: &["utilities-system-monitor"] },
        Tool { category: "Resource Monitoring", name: "Glances", command: "glances", terminal: true, package: "glances", detect_bin: "glances", icons: &["utilities-system-monitor"] },
        Tool { category: "Resource Monitoring", name: "iotop (Disk I/O)", command: "iotop -o", terminal: true, package: "iotop", detect_bin: "iotop", icons: &["drive-harddisk"] },
        Tool { category: "Resource Monitoring", name: "nvtop (GPU)", command: "nvtop", terminal: true, package: "nvtop", detect_bin: "nvtop", icons: &["video-display"] },
        Tool { category: "Storage & Disk", name: "ncdu (Disk Usage)", command: "ncdu /", terminal: true, package: "ncdu", detect_bin: "ncdu", icons: &["drive-harddisk"] },
        Tool { category: "Storage & Disk", name: "Drive Health (SMART)", command: "smartctl --scan; echo; echo 'Detail: smartctl -a /dev/sdX'; read -p 'Press Enter to close '", terminal: true, package: "smartmontools", detect_bin: "smartctl", icons: &["drive-harddisk"] },
        Tool { category: "Backup & Recovery", name: "Timeshift (Snapshots)", command: "timeshift-launcher", terminal: false, package: "timeshift", detect_bin: "timeshift-launcher", icons: &["document-save"] },
        Tool { category: "Package Management", name: "DNF Plugins", command: "dnf config-manager --help 2>&1 | less", terminal: true, package: "dnf-plugins-core", detect_bin: "", icons: &["package-x-generic"] },
        Tool { category: "Package Management", name: "Flatpak", command: "flatpak list; echo; read -p 'Press Enter to close '", terminal: true, package: "flatpak", detect_bin: "flatpak", icons: &["package-x-generic"] },
        Tool { category: "Network Tools", name: "Nmap", command: "echo 'Usage: nmap <target>'; nmap --version; echo; read -p 'Press Enter to close '", terminal: true, package: "nmap", detect_bin: "nmap", icons: &["network-workgroup"] },
        Tool { category: "Network Tools", name: "iPerf3", command: "echo 'Server: iperf3 -s   Client: iperf3 -c <host>'; iperf3 --version; echo; read -p 'Press Enter to close '", terminal: true, package: "iperf3", detect_bin: "iperf3", icons: &["network-wired"] },
        Tool { category: "Network Tools", name: "Wireshark", command: "wireshark", terminal: false, package: "wireshark", detect_bin: "wireshark", icons: &["wireshark", "network-wired"] },
        Tool { category: "Power Management", name: "PowerTOP", command: "echo 'Tip: pkexec powertop'; powertop --version; echo; read -p 'Press Enter to close '", terminal: true, package: "powertop", detect_bin: "powertop", icons: &["battery"] },
        Tool { category: "Hardware Info", name: "fastfetch", command: "fastfetch; echo; read -p 'Press Enter to close '", terminal: true, package: "fastfetch", detect_bin: "fastfetch", icons: &["computer"] },
        Tool { category: "Hardware Info", name: "Sensors (lm_sensors)", command: "sensors; echo; read -p 'Press Enter to close '", terminal: true, package: "lm_sensors", detect_bin: "sensors", icons: &["temperature"] },
        Tool { category: "System Security", name: "Lynis (Audit)", command: "echo 'Full audit: pkexec lynis audit system'; lynis show version; echo; read -p 'Press Enter to close '", terminal: true, package: "lynis", detect_bin: "lynis", icons: &["security-high"] },
    ];
    assert(tool_views(v@) =~= tools_spec()) by {
        assert(v@[0].icons@.map_values(|s: &'static str| s@) =~= seq!["system-software-install"@]);
        assert(v@[1].icons@.map_values(|s: &'static str| s@) =~= seq!["system-software-update"@]);
        assert(v@[2].icons@.map_values(|s: &'static str| s@) =~= seq!["security-high"@]);
        assert(v@[3].icons@.map_values(|s: &'static str| s@) =~= seq!["network-wired"@]);
        assert(v@[4].icons@.map_values(|s: &'static str| s@) =~= seq!["multimedia-volume-control"@]);
        assert(v@[5].icons@.map_values(|s: &'static str| s@) =~= seq!["drive-harddisk"@]);
        assert(v@[6].icons@.map_values(|s: &'static str| s@) =~= seq!["gparted"@]);
        assert(v@[7].icons@.map_values(|s: &'static str| s@) =~= seq!["drive-multidisk"@]);
        assert(v@[8].icons@.map_values(|s: &'static str| s@) =~= seq!["system-users"@]);
        assert(v@[9].icons@.map_values(|s: &'static str| s@) =~= seq!["preferences-desktop-locale"@]);
        assert(v@[10].icons@.map_values(|s: &'static str| s@) =~= seq!["input-keyboard"@]);
        assert(v@[11].icons@.map_values(|s: &'static str| s@) =~= seq!["logviewer"@]);
        assert(v@[12].icons@.map_values(|s: &'static str| s@) =~= seq!["security-high"@]);
        assert(v@[13].icons@.map_values(|s: &'static str| s@) =~= seq!["media-optical"@]);
        assert(v@[14].icons@.map_values(|s: &'static str| s@) =~= seq!["computer"@]);
        assert(v@[15].icons@.map_values(|s: &'static str| s@) =~= seq!["smartphone"@, "phone"@, "preferences-system-network"@]);
        assert(v@[16].icons@.map_values(|s: &'static str| s@) =~= seq!["preferences-desktop-display"@, "video-display"@]);
        assert(v@[17].icons@.map_values(|s: &'static str| s@) =~= seq!["preferences-system-time"@]);
        assert(v@[18].icons@.map_values(|s: &'static str| s@) =~= seq!["printer"@]);
        assert(v@[19].icons@.map_values(|s: &'static str| s@) =~= seq!["preferences-system"@]);
        assert(v@[20].icons@.map_values(|s: &'static str| s@) =~= seq!["utilities-system-monitor"@]);
        assert(v@[21].icons@.map_values(|s: &'static str| s@) =~= seq!["network-wired"@]);
        assert(v@[22].icons@.map_values(|s: &'static str| s@) =~= seq!["folder-temp"@]);
        assert(v@[23].icons@.map_values(|s: &'static str| s@) =~= seq!["network-server"@]);
        assert(v@[24].icons@.map_values(|s: &'static str| s@) =~= seq!["stacer"@, "system-run"@]);
        assert(v@[25].icons@.map_values(|s: &'static str| s@) =~= seq!["utilities-system-monitor"@]);
        assert(v@[26].icons@.map_values(|s: &'static str| s@) =~= seq!["utilities-system-monitor"@]);
        assert(v@[27].icons@.map_values(|s: &'static str| s@) =~= seq!["utilities-system-monitor"@]);
        assert(v@[28].icons@.map_values(|s: &'static str| s@) =~= seq!["drive-harddisk"@]);
        assert(v@[29].icons@.map_values(|s: &'static str| s@) =~= seq!["video-display"@]);
        assert(v@[30].icons@.map_values(|s: &'static str| s@) =~= seq!["drive-harddisk"@]);
        assert(v@[31].icons@.map_values(|s: &'static str| s@) =~= seq!["drive-harddisk"@]);
        assert(v@[32].icons@.map_values(|s: &'static str| s@) =~= seq!["document-save"@]);
        assert(v@[33].icons@.map_values(|s: &'static str| s@) =~= seq!["package-x-generic"@]);
        assert(v@[34].icons@.map_values(|s: &'static str| s@) =~= seq!["package-x-generic"@]);
        assert(v@[35].icons@.map_values(|s: &'static str| s@) =~= seq!["network-workgroup"@]);
        assert(v@[36].icons@.map_values(|s: &'static str| s@) =~= seq!["network-wired"@]);
        assert(v@[37].icons@.map_values(|s: &'static str| s@) =~= seq!["wireshark"@, "network-wired"@]);
        assert(v@[38].icons@.map_values(|s: &'static str| s@) =~= seq!["battery"@]);
        assert(v@[39].icons@.map_values(|s: &'static str| s@) =~= seq!["computer"@]);
        assert(v@[40].icons@.map_values(|s: &'static str| s@) =~= seq!["temperature"@]);
        assert(v@[41].icons@.map_values(|s: &'static str| s@) =~= seq!["security-high"@]);
    }
    v
}


/// The leading binary of a command (`sealert -b` -> `sealert`); a command with
/// no word is its own binary.
pub open spec fn binary_spec(command: Seq<char>) -> Seq<char> {
    if split_ws(command).len() > 0 { split_ws(command)[0] } else { command }
}

/// The leading binary of a command.
pub fn binary(command: &str) -> (b: String)
    ensures
        b@ == binary_spec(command@),
{
    let v = chars_of(command);
    let words = split_ws_chars(&v);
    if words.len() > 0 {
        assert(views(words@)[0] == words@[0]@);
        string_of(&words[0])
    } else {
        string_of(&v)
    }
}

/// The distinct entries of `s`, in order of first appearance.
pub open spec fn dedup(s: Seq<Seq<char>>) -> Seq<Seq<char>>
    decreases s.len(),
{
    if s.len() == 0 {
        seq![]
    } else {
        let d = dedup(s.drop_last());
        if d.contains(s.last()) { d } else { d.push(s.last()) }
    }
}

/// The text of each string of a list.
pub open spec fn strs(v: Seq<&'static str>) -> Seq<Seq<char>> {
    v.map_values(|x: &'static str| x@)
}

/// Whether `list` holds `s`.
pub fn list_has(list: &Vec<&'static str>, s: &'static str) -> (b: bool)
    ensures
        b == strs(list@).contains(s@),
{
    let sv = chars_of(s);
    let mut i: usize = 0;
    while i < list.len()
        invariant
            i <= list.len(),
            sv@ == s@,
            forall|k: int| 0 <= k < i ==> strs(list@)[k] != s@,
        decreases list.len() - i,
    {
        let lv = chars_of(list[i]);
        if eq_chars(&lv, &sv) {
            assert(strs(list@)[i as int] == s@);
            return true;
        }
        i += 1;
    }
    false
}

/// Ordered, de-duplicated list of categories of the tool table.
pub fn categories() -> (c: Vec<&'static str>)
    ensures
        strs(c@) == dedup(tools_spec().map_values(|t: ToolView| t.category)),
{
    let t = tools();
    let ghost cats = tools_spec().map_values(|t: ToolView| t.category);
    let mut out: Vec<&'static str> = Vec::new();
    let mut i: usize = 0;
    while i < t.len()
        invariant
            i <= t.len(),
            tool_views(t@) == tools_spec(),
            cats == tools_spec().map_values(|t: ToolView| t.category),
            strs(out@) == dedup(cats.take(i as int)),
        decreases t.len() - i,
    {
        assert(cats.take(i + 1).drop_last() =~= cats.take(i as int));
        assert(cats.take(i + 1).last() == t@[i as int].category@);
        if !list_has(&out, t[i].category) {
            out.push(t[i].category);
            assert(strs(out@) =~= dedup(cats.take(i as int)).push(t@[i as int].category@));
        }
        i += 1;
    }
    assert(cats.take(t.len() as int) =~= cats);
    out
}

/// The tools that `installed` marks as not present (in table order).
pub open spec fn missing_spec(t: Seq<ToolView>, installed: Seq<bool>) -> Seq<ToolView>
    decreases t.len(),
{
    if t.len() == 0 {
        seq![]
    } else {
        let rest = missing_spec(t.drop_last(), installed);
        if installed[t.len() - 1] { rest } else { rest.push(t.last()) }
    }
}

/// Tools whose package/binary is not currently present, given each tool's
/// installed state (in table order).
pub fn missing(installed: &Vec<bool>) -> (m: Vec<Tool>)
    requires
        installed.len() == tools_spec().len(),
    ensures
        tool_views(m@) == missing_spec(tools_spec(), installed@),
{
    let t = tools();
    let mut out: Vec<Tool> = Vec::new();
    let mut i: usize = 0;
    while i < t.len()
        invariant
            i <= t.len(),
            installed.len() == t.len(),
            tool_views(t@) == tools_spec(),
            tool_views(out@) == missing_spec(tools_spec().take(i as int), installed@),
        decreases t.len() - i,
    {
        assert(tools_spec().take(i + 1).drop_last() =~= tools_spec().take(i as int));
        if !installed[i] {
            out.push(t[i]);
            assert(tool_views(out@) =~= missing_spec(tools_spec().take(i as int), installed@).push(t@[i as int].view()));
        }
        i += 1;
    }
    assert(tools_spec().take(t.len() as int) =~= tools_spec());
    out
}

/// Strictly increasing in lexicographic order (sorted, no duplicates).
pub open spec fn strictly_sorted(s: Seq<Seq<char>>) -> bool {
    forall|i: int, j: int| 0 <= i < j < s.len() ==> lex_le(s[i], s[j]) && s[i] != s[j]
}

/// Inserting `x` between the entries below it and those above it keeps a
/// list strictly sorted.
proof fn lemma_insert_strictly_sorted(l0: Seq<Seq<char>>, i: int, x: Seq<char>)
    requires
        strictly_sorted(l0),
        0 <= i <= l0.len(),
        forall|k: int| 0 <= k < i ==> lex_le(#[trigger] l0[k], x) && l0[k] != x,
        forall|k: int| i <= k < l0.len() ==> lex_le(x, #[trigger] l0[k]) && l0[k] != x,
    ensures
        strictly_sorted(l0.insert(i, x)),
{
    let l1 = l0.insert(i, x);
    assert forall|a: int, b: int| 0 <= a < b < l1.len() implies lex_le(l1[a], l1[b]) && l1[a] != l1[b] by {
        if a < i {
            assert(l1[a] == l0[a]);
            if b < i {
                assert(l1[b] == l0[b]);
            } else if b == i {
                assert(l1[b] == x);
            } else {
                assert(l1[b] == l0[b - 1]);
                assert(lex_le(l0[a], l0[b - 1]) && l0[a] != l0[b - 1]);
            }
        } else if a == i {
            assert(l1[a] == x);
            assert(l1[b] == l0[b - 1]);
        } else {
            assert(l1[a] == l0[a - 1]);
            assert(l1[b] == l0[b - 1]);
        }
    }
}

/// Insert `x` into a strictly sorted list unless present.
#[verifier::spinoff_prover]
fn insert_sorted_unique(list: &mut Vec<&'static str>, x: &'static str)
    requires
        strictly_sorted(strs(old(list)@)),
    ensures
        strictly_sorted(strs(final(list)@)),
        strs(final(list)@).to_set() == strs(old(list)@).to_set().insert(x@),
{
    let xv = chars_of(x);
    let ghost l0 = strs(list@);
    let mut i: usize = 0;
    while i < list.len()
        invariant
            i <= list.len(),
            xv@ == x@,
            strs(list@) == l0,
            strictly_sorted(l0),
            forall|k: int| 0 <= k < i ==> lex_le(#[trigger] l0[k], x@) && l0[k] != x@,
        ensures
            i <= list.len(),
            strs(list@) == l0,
            forall|k: int| 0 <= k < i ==> lex_le(#[trigger] l0[k], x@) && l0[k] != x@,
            i < list.len() ==> !lex_le(l0[i as int], x@),
        decreases list.len() - i,
    {
        let lv = chars_of(list[i]);
        assert(lv@ == l0[i as int]);
        if eq_chars(&lv, &xv) {
            assert(l0.to_set().insert(x@) =~= l0.to_set());
            return;
        }
        if !lex_le_chars(&lv, &xv) {
            break;
        }
        i += 1;
    }
    proof {
        if i < l0.len() {
            lemma_lex_total(l0[i as int], x@);
            lemma_lex_refl(x@);
        }
        assert forall|k: int| i <= k < l0.len() implies lex_le(x@, #[trigger] l0[k]) && l0[k] != x@ by {
            if k > i {
                lemma_lex_trans(x@, l0[i as int], l0[k]);
                if l0[k] == x@ {
                    lemma_lex_antisym(l0[i as int], l0[k]);
                }
            }
        }
    }
    list.insert(i, x);
    let ghost l1 = strs(list@);
    assert(l1 =~= l0.insert(i as int, x@));
    proof {
        lemma_insert_strictly_sorted(l0, i as int, x@);
    }
    assert(l1.to_set() =~= l0.to_set().insert(x@)) by {
        assert forall|e: Seq<char>| l1.to_set().contains(e) <==> l0.to_set().insert(x@).contains(e) by {
            if l1.contains(e) {
                let k = choose|k: int| 0 <= k < l1.len() && l1[k] == e;
                if k < i {
                    assert(l0[k] == e);
                } else if k > i {
                    assert(l0[k - 1] == e);
                }
            }
            if l0.contains(e) {
                let k = choose|k: int| 0 <= k < l0.len() && l0[k] == e;
                if k < i {
                    assert(l1[k] == e);
                } else {
                    assert(l1[k + 1] == e);
                }
            }
            if e == x@ {
                assert(l1[i as int] == e);
            }
        }
    }
}

/// Unique dnf packages needed to satisfy all missing tools, sorted.
pub fn missing_packages(installed: &Vec<bool>) -> (p: Vec<&'static str>)
    requires
        installed.len() == tools_spec().len(),
    ensures
        strictly_sorted(strs(p@)),
        strs(p@).to_set() == missing_spec(tools_spec(), installed@)
            .map_values(|t: ToolView| t.package).to_set(),
{
    let m = missing(installed);
    let ghost pk = missing_spec(tools_spec(), installed@).map_values(|t: ToolView| t.package);
    let mut out: Vec<&'static str> = Vec::new();
    let mut i: usize = 0;
    while i < m.len()
        invariant
            i <= m.len(),
            tool_views(m@) == missing_spec(tools_spec(), installed@),
            pk == missing_spec(tools_spec(), installed@).map_values(|t: ToolView| t.package),
            strictly_sorted(strs(out@)),
            strs(out@).to_set() == pk.take(i as int).to_set(),
        decreases m.len() - i,
    {
        insert_sorted_unique(&mut out, m[i].package);
        assert(pk.take(i + 1) =~= pk.take(i as int).push(m@[i as int].package@));
        proof {
            pk.take(i as int).lemma_push_to_set_commute(m@[i as int].package@);
        }
        i += 1;
    }
    assert(pk.take(m.len() as int) =~= pk);
    out
}

/// One installed package and its on-disk size (bytes).
#[derive(Debug, Clone, PartialEq, Eq)]
pub struct Package {
    pub name: String,
    pub size: u64,
}

/// A package as plain values.
pub open spec fn pkg_view(p: Package) -> (Seq<char>, nat) {
    (p.name@, p.size as nat)
}

/// One `NAME SIZE` line of `rpm -qa --qf '%{NAME} %{SIZE}\n'`: split at the last
/// space of the trimmed line; the size (trimmed) must parse as a `u64`, the
/// name part must be non-empty; the name is kept trimmed.
pub open spec fn parse_package_line(l: Seq<char>) -> Option<(Seq<char>, nat)> {
    let t = trim(l);
    match rfind(t, seq![' ']) {
        Some(p) => if 0 <= p < t.len() {
            match parse_bounded(trim(t.subrange(p + 1, t.len() as int)), u64::MAX as nat) {
                Some(n) => if p > 0 { Some((trim(t.subrange(0, p)), n)) } else { None },
                None => None,
            }
        } else {
            None
        },
        None => None,
    }
}

/// The packages of all well-formed lines, in input order.
pub open spec fn parse_package_lines(ls: Seq<Seq<char>>) -> Seq<(Seq<char>, nat)>
    decreases ls.len(),
{
    if ls.len() == 0 {
        seq![]
    } else {
        let rest = parse_package_lines(ls.drop_last());
        match parse_package_line(ls.last()) {
            Some(p) => rest.push(p),
            None => rest,
        }
    }
}

/// The listing order: larger size first, then name ascending.
pub open spec fn pkg_le(a: (Seq<char>, nat), b: (Seq<char>, nat)) -> bool {
    a.1 > b.1 || (a.1 == b.1 && lex_le(a.0, b.0))
}

pub open spec fn pkgs_sorted(s: Seq<(Seq<char>, nat)>) -> bool {
    forall|i: int, j: int| 0 <= i < j < s.len() ==> pkg_le(s[i], s[j])
}

proof fn lemma_pkg_le_trans(a: (Seq<char>, nat), b: (Seq<char>, nat), c: (Seq<char>, nat))
    requires
        pkg_le(a, b),
        pkg_le(b, c),
    ensures
        pkg_le(a, c),
{
    if a.1 == b.1 && b.1 == c.1 {
        lemma_lex_trans(a.0, b.0, c.0);
    }
}

fn parse_line(l: &Vec<char>) -> (r: Option<Package>)
    ensures
        match r {
            Some(p) => parse_package_line(l@) == Some(pkg_view(p)),
            None => parse_package_line(l@) is None,
        },
{
    let t = trim_chars(l);
    let sp = vec![' '];
    assert(sp@ =~= seq![' ']);
    match rfind_chars(&t, &sp) {
        Some(p) => {
            assert(occurs_at(t@, sp@, p as int));
            let sz = slice_chars(&t, p + 1, t.len());
            let szt = trim_chars(&sz);
            match parse_u64(&szt) {
                Some(n) => {
                    if p > 0 {
                        let nm = slice_chars(&t, 0, p);
                        let nmt = trim_chars(&nm);
                        Some(Package { name: string_of(&nmt), size: n })
                    } else {
                        None
                    }
                }
                None => None,
            }
        }
        None => None,
    }
}

/// Parse `rpm -qa --qf '%{NAME} %{SIZE}\n'` into packages, largest first (then
/// by name). Malformed/sizeless lines are skipped.
pub fn parse_packages(out: &str) -> (r: Vec<Package>)
    ensures
        pkgs_sorted(r@.map_values(|p: Package| pkg_view(p))),
        r@.map_values(|p: Package| pkg_view(p)).to_multiset()
            == parse_package_lines(lines(out@)).to_multiset(),
{
    let v = chars_of(out);
    let ls = lines_of(&v);
    let mut res: Vec<Package> = Vec::new();
    let mut i: usize = 0;
    assert(views(ls@).take(0) =~= Seq::<Seq<char>>::empty());
    assert(res@.map_values(|p: Package| pkg_view(p)) =~= Seq::<(Seq<char>, nat)>::empty());
    while i < ls.len()
        invariant
            i <= ls.len(),
            views(ls@) == lines(out@),
            pkgs_sorted(res@.map_values(|p: Package| pkg_view(p))),
            res@.map_values(|p: Package| pkg_view(p)).to_multiset()
                == parse_package_lines(views(ls@).take(i as int)).to_multiset(),
        decreases ls.len() - i,
    {
        assert(views(ls@).take(i + 1).drop_last() =~= views(ls@).take(i as int));
        assert(views(ls@).take(i + 1).last() == ls@[i as int]@);
        let ghost before = parse_package_lines(views(ls@).take(i as int));
        match parse_line(&ls[i]) {
            Some(p) => {
                let ghost pv = pkg_view(p);
                insert_pkg(&mut res, p);
                proof {
                    vstd::seq_lib::to_multiset_build(before, pv);
                }
            }
            None => {}
        }
        i += 1;
    }
    assert(views(ls@).take(ls.len() as int) =~= views(ls@));
    res
}

/// Insert `p` into the package list keeping it sorted.
fn insert_pkg(res: &mut Vec<Package>, p: Package)
    requires
        pkgs_sorted(old(res)@.map_values(|q: Package| pkg_view(q))),
    ensures
        pkgs_sorted(final(res)@.map_values(|q: Package| pkg_view(q))),
        final(res)@.map_values(|q: Package| pkg_view(q)).to_multiset()
            == old(res)@.map_values(|q: Package| pkg_view(q)).to_multiset().insert(pkg_view(p)),
{
    let ghost s0 = res@.map_values(|q: Package| pkg_view(q));
    let ghost x = pkg_view(p);
    let pn = chars_of(p.name.as_str());
    let mut i: usize = 0;
    while i < res.len()
        invariant
            i <= res.len(),
            s0 == res@.map_values(|q: Package| pkg_view(q)),
            pkgs_sorted(s0),
            pn@ == p.name@,
            x == pkg_view(p),
            forall|k: int| 0 <= k < i ==> pkg_le(#[trigger] s0[k], x),
        ensures
            i <= res.len(),
            s0 == res@.map_values(|q: Package| pkg_view(q)),
            forall|k: int| 0 <= k < i ==> pkg_le(#[trigger] s0[k], x),
            i < res.len() ==> !pkg_le(s0[i as int], x),
        decreases res.len() - i,
    {
        let qn = chars_of(res[i].name.as_str());
        let le = res[i].size > p.size || (res[i].size == p.size && lex_le_chars(&qn, &pn));
        assert(le == pkg_le(s0[i as int], x));
        if !le {
            break;
        }
        i += 1;
    }
    proof {
        if i < s0.len() {
            lemma_lex_total(s0[i as int].0, x.0);
        }
        assert forall|k: int| i <= k < s0.len() implies pkg_le(x, #[trigger] s0[k]) by {
            if k > i {
                lemma_pkg_le_trans(x, s0[i as int], s0[k]);
            }
        }
    }
    res.insert(i, p);
    let ghost s1 = res@.map_values(|q: Package| pkg_view(q));
    assert(s1 =~= s0.insert(i as int, x));
    assert forall|a: int, b: int| 0 <= a < b < s1.len() implies pkg_le(s1[a], s1[b]) by {
        if a < i && b > i {
            assert(s1[b] == s0[b - 1]);
            lemma_pkg_le_trans(s1[a], x, s0[b - 1]);
        } else if a > i {
            assert(s1[a] == s0[a - 1]);
            assert(s1[b] == s0[b - 1]);
        } else if a == i {
            assert(s1[b] == s0[b - 1]);
        }
    }
    proof {
        vstd::seq_lib::to_multiset_insert(s0, i as int, x);
    }
}

/// `dnf remove -y <pkg>`: the uninstall argv (run via `pkexec`).
pub fn dnf_remove_cmd(pkg: &str) -> (v: Vec<String>)
    ensures
        v@.map_values(|s: String| s@) == seq!["dnf"@, "remove"@, "-y"@, pkg@],
{
    let a = chars_of("dnf");
    let b = chars_of("remove");
    let c = chars_of("-y");
    let d = chars_of(pkg);
    let v = vec![string_of(&a), string_of(&b), string_of(&c), string_of(&d)];
    assert(v@.map_values(|s: String| s@) =~= seq!["dnf"@, "remove"@, "-y"@, pkg@]);
    v
}

} // verus!
