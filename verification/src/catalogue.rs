//! The selectable software catalogue of the Setup "Choose Components" screen:
//! the bare session, the applications the shell launches, the Control Panel
//! tools and the virtualization guest tools, each with a category, a
//! default-on flag and whether it is mandatory.

use vstd::prelude::*;
use crate::fedora::{dedup, strs, tools, tools_spec, tool_views, ToolView, list_has};
use crate::text::{chars_of, eq_chars, eq_str, trim, trim_chars, lines, lines_of, views};

verus! {

/// One catalogue entry.
pub struct Component {
    pub package: &'static str,
    pub category: &'static str,
    pub name: &'static str,
    /// Always installed; shown checked and locked.
    pub mandatory: bool,
    /// Curated default (Standard preset).
    pub default_on: bool,
}

/// A catalogue entry as plain values.
pub struct ComponentView {
    pub package: Seq<char>,
    pub category: Seq<char>,
    pub name: Seq<char>,
    pub mandatory: bool,
    pub default_on: bool,
}

pub open spec fn component_view(c: Component) -> ComponentView {
    ComponentView { package: c.package@, category: c.category@, name: c.name@, mandatory: c.mandatory,
        default_on: c.default_on }
}

pub open spec fn component_views(v: Seq<Component>) -> Seq<ComponentView> {
    v.map_values(|c: Component| component_view(c))
}

/// The bare session: the minimum to boot into the shell (mandatory).
pub open spec fn base_spec() -> Seq<(Seq<char>, Seq<char>)> {
    seq![("labwc"@, "Window manager (labwc)"@), ("foot"@, "Terminal"@), ("swaybg"@, "Wallpaper"@), ("NetworkManager"@, "Networking"@), ("pipewire"@, "Audio (PipeWire)"@), ("wireplumber"@, "Audio session manager"@), ("polkit"@, "Authorization (polkit)"@), ("xkeyboard-config"@, "Keyboard layouts"@), ("google-droid-sans-fonts"@, "UI font"@), ("lightdm"@, "Login manager (LightDM)"@), ("lightdm-gtk-greeter"@, "Login greeter"@), ("python3"@, "Asset installer runtime"@), ("git"@, "Asset fetcher"@)]
}

/// Session utilities the shell and its scripts use.
pub open spec fn session_spec() -> Seq<(Seq<char>, Seq<char>)> {
    seq![("wlr-randr"@, "Display geometry"@), ("wlopm"@, "Monitor power"@), ("swayidle"@, "Idle/screensaver"@), ("swaylock"@, "Screen lock"@), ("brightnessctl"@, "Brightness keys"@), ("grim"@, "Screenshots"@), ("xdg-utils"@, "xdg-open / MIME"@), ("nm-connection-editor"@, "Network config GUI"@)]
}

/// Applications the desktop launches or the menus reference.
pub open spec fn apps_spec() -> Seq<(Seq<char>, Seq<char>)> {
    seq![("firefox"@, "Web Browser (Firefox)"@), ("terminator"@, "Terminal (Terminator)"@), ("playerctl"@, "Media key control"@), ("swayosd"@, "On-screen volume/brightness OSD"@)]
}

/// Virtualization guest tools (Xen / XCP-ng).
pub open spec fn virt_spec() -> Seq<(Seq<char>, Seq<char>)> {
    seq![("xe-guest-utilities-latest"@, "XCP-ng / XenServer guest agent \u{2014} IP & memory report, clean shutdown/reboot, time sync"@), ("mesa-dri-drivers"@, "Software OpenGL (llvmpipe) \u{2014} renders the desktop in a GPU-less VM"@), ("mesa-vulkan-drivers"@, "Software Vulkan (lavapipe) \u{2014} the iced shell's wgpu backend in a VM"@)]
}

/// Tool packages that are base or always present, not offered as extras.
pub open spec fn tools_skip_spec() -> Seq<Seq<char>> {
    seq!["mde"@, "systemd"@, "systemd-resolved"@]
}

/// Extras left unchecked by default (heavyweight or niche).
pub open spec fn default_off_spec() -> Seq<Seq<char>> {
    seq!["cockpit"@, "wireshark"@, "timeshift"@, "setroubleshoot-server"@, "mediawriter"@, "stacer"@, "blivet-gui"@, "nvtop"@]
}

/// The category of the guest tools.
pub open spec fn virt_category() -> Seq<char> {
    "Virtualization (Xen/XCP-ng guest)"@
}

pub open spec fn rows_of(pairs: Seq<(Seq<char>, Seq<char>)>, category: Seq<char>, mandatory: bool,
    default_on: bool) -> Seq<ComponentView> {
    pairs.map_values(|p: (Seq<char>, Seq<char>)| ComponentView { package: p.0, category, name: p.1, mandatory,
        default_on })
}

/// The Control Panel tools, in table order, without the skipped packages.
pub open spec fn tool_rows(t: Seq<ToolView>) -> Seq<ComponentView>
    decreases t.len(),
{
    if t.len() == 0 {
        seq![]
    } else {
        let rest = tool_rows(t.drop_last());
        let x = t.last();
        if tools_skip_spec().contains(x.package) {
            rest
        } else {
            rest.push(ComponentView { package: x.package, category: x.category, name: x.name,
                mandatory: false, default_on: !default_off_spec().contains(x.package) })
        }
    }
}

/// Every candidate row, in display order.
pub open spec fn candidate_rows(xen: bool) -> Seq<ComponentView> {
    rows_of(base_spec(), "Base System"@, true, true) + rows_of(session_spec(), "Session"@, false, true)
        + rows_of(apps_spec(), "Applications"@, false, true) + tool_rows(tools_spec())
        + rows_of(virt_spec(), virt_category(), false, xen)
}

/// The rows in order, each package kept at its first appearance only.
pub open spec fn first_per_package(rows: Seq<ComponentView>) -> Seq<ComponentView>
    decreases rows.len(),
{
    if rows.len() == 0 {
        seq![]
    } else {
        let prev = first_per_package(rows.drop_last());
        if prev.map_values(|c: ComponentView| c.package).contains(rows.last().package) {
            prev
        } else {
            prev.push(rows.last())
        }
    }
}

/// The full selectable catalogue, in display order.
pub open spec fn catalogue_spec(xen: bool) -> Seq<ComponentView> {
    first_per_package(candidate_rows(xen))
}

pub open spec fn catalogue_len(xen: bool) -> nat {
    catalogue_spec(xen).len()
}

fn push_rows(out: &mut Vec<Component>, pairs: Vec<(&'static str, &'static str)>, category: &'static str,
    mandatory: bool, default_on: bool)
    ensures
        component_views(final(out)@) == component_views(old(out)@)
            + rows_of(pairs@.map_values(|p: (&'static str, &'static str)| (p.0@, p.1@)), category@, mandatory,
                default_on),
{
    let ghost start = component_views(out@);
    let ghost ps = pairs@.map_values(|p: (&'static str, &'static str)| (p.0@, p.1@));
    let mut i: usize = 0;
    while i < pairs.len()
        invariant
            i <= pairs.len(),
            ps == pairs@.map_values(|p: (&'static str, &'static str)| (p.0@, p.1@)),
            component_views(out@) == start + rows_of(ps.take(i as int), category@, mandatory, default_on),
        decreases pairs.len() - i,
    {
        let ghost before = component_views(out@);
        out.push(Component { package: pairs[i].0, category, name: pairs[i].1, mandatory, default_on });
        assert(component_views(out@) =~= before.push(component_view(out@.last())));
        assert(rows_of(ps.take(i + 1), category@, mandatory, default_on)
            =~= rows_of(ps.take(i as int), category@, mandatory, default_on).push(component_view(out@.last())));
        i += 1;
    }
    assert(ps.take(pairs.len() as int) =~= ps);
}

/// Every candidate row, in display order.
fn candidates(xen: bool) -> (v: Vec<Component>)
    ensures
        component_views(v@) == candidate_rows(xen),
{
    let mut v: Vec<Component> = Vec::new();
    let base = vec![("labwc", "Window manager (labwc)"), ("foot", "Terminal"), ("swaybg", "Wallpaper"), ("NetworkManager", "Networking"), ("pipewire", "Audio (PipeWire)"), ("wireplumber", "Audio session manager"), ("polkit", "Authorization (polkit)"), ("xkeyboard-config", "Keyboard layouts"), ("google-droid-sans-fonts", "UI font"), ("lightdm", "Login manager (LightDM)"), ("lightdm-gtk-greeter", "Login greeter"), ("python3", "Asset installer runtime"), ("git", "Asset fetcher")];
    assert(base@.map_values(|p: (&'static str, &'static str)| (p.0@, p.1@)) =~= base_spec());
    push_rows(&mut v, base, "Base System", true, true);
    let session = vec![("wlr-randr", "Display geometry"), ("wlopm", "Monitor power"), ("swayidle", "Idle/screensaver"), ("swaylock", "Screen lock"), ("brightnessctl", "Brightness keys"), ("grim", "Screenshots"), ("xdg-utils", "xdg-open / MIME"), ("nm-connection-editor", "Network config GUI")];
    assert(session@.map_values(|p: (&'static str, &'static str)| (p.0@, p.1@)) =~= session_spec());
    push_rows(&mut v, session, "Session", false, true);
    let apps = vec![("firefox", "Web Browser (Firefox)"), ("terminator", "Terminal (Terminator)"), ("playerctl", "Media key control"), ("swayosd", "On-screen volume/brightness OSD")];
    assert(apps@.map_values(|p: (&'static str, &'static str)| (p.0@, p.1@)) =~= apps_spec());
    push_rows(&mut v, apps, "Applications", false, true);
    let skip: Vec<&'static str> = vec!["mde", "systemd", "systemd-resolved"];
    let off: Vec<&'static str> = vec!["cockpit", "wireshark", "timeshift", "setroubleshoot-server", "mediawriter", "stacer", "blivet-gui", "nvtop"];
    assert(strs(skip@) =~= tools_skip_spec());
    assert(strs(off@) =~= default_off_spec());
    let t = tools();
    let ghost start = component_views(v@);
    let mut i: usize = 0;
    assert(tools_spec().take(0) =~= Seq::<ToolView>::empty());
    assert(start + tool_rows(tools_spec().take(0)) =~= start);
    while i < t.len()
        invariant
            i <= t.len(),
            tool_views(t@) == tools_spec(),
            strs(skip@) == tools_skip_spec(),
            strs(off@) == default_off_spec(),
            component_views(v@) == start + tool_rows(tools_spec().take(i as int)),
        decreases t.len() - i,
    {
        assert(tools_spec().take(i + 1).drop_last() =~= tools_spec().take(i as int));
        assert(tools_spec().take(i + 1).last() == t@[i as int].view());
        if !list_has(&skip, t[i].package) {
            let ghost before = component_views(v@);
            v.push(Component { package: t[i].package, category: t[i].category, name: t[i].name,
                mandatory: false, default_on: !list_has(&off, t[i].package) });
            assert(component_views(v@) =~= before.push(component_view(v@.last())));
        }
        i += 1;
    }
    assert(tools_spec().take(t.len() as int) =~= tools_spec());
    let virt = vec![("xe-guest-utilities-latest", "XCP-ng / XenServer guest agent \u{2014} IP & memory report, clean shutdown/reboot, time sync"), ("mesa-dri-drivers", "Software OpenGL (llvmpipe) \u{2014} renders the desktop in a GPU-less VM"), ("mesa-vulkan-drivers", "Software Vulkan (lavapipe) \u{2014} the iced shell's wgpu backend in a VM")];
    assert(virt@.map_values(|p: (&'static str, &'static str)| (p.0@, p.1@)) =~= virt_spec());
    push_rows(&mut v, virt, "Virtualization (Xen/XCP-ng guest)", false, xen);
    assert(component_views(v@) =~= candidate_rows(xen));
    v
}

/// Whether `out` already holds a component of `package`.
fn has_package(out: &Vec<Component>, package: &'static str) -> (b: bool)
    ensures
        b == component_views(out@).map_values(|c: ComponentView| c.package).contains(package@),
{
    let p = chars_of(package);
    let ghost pk = component_views(out@).map_values(|c: ComponentView| c.package);
    let mut i: usize = 0;
    while i < out.len()
        invariant
            i <= out.len(),
            p@ == package@,
            pk == component_views(out@).map_values(|c: ComponentView| c.package),
            forall|k: int| 0 <= k < i ==> pk[k] != package@,
        decreases out.len() - i,
    {
        let q = chars_of(out[i].package);
        if eq_chars(&q, &p) {
            assert(pk[i as int] == package@);
            return true;
        }
        i += 1;
    }
    false
}

/// The full selectable catalogue, in display order (categories grouped);
/// the guest tools are default-on on a Xen guest.
pub fn catalogue(xen: bool) -> (c: Vec<Component>)
    ensures
        component_views(c@) == catalogue_spec(xen),
{
    let rows = candidates(xen);
    let mut out: Vec<Component> = Vec::new();
    let mut i: usize = 0;
    assert(component_views(rows@).take(0) =~= Seq::<ComponentView>::empty());
    while i < rows.len()
        invariant
            i <= rows.len(),
            component_views(rows@) == candidate_rows(xen),
            component_views(out@) == first_per_package(component_views(rows@).take(i as int)),
        decreases rows.len() - i,
    {
        let ghost r = component_views(rows@);
        assert(r.take(i + 1).drop_last() =~= r.take(i as int));
        assert(r.take(i + 1).last() == component_view(rows@[i as int]));
        if !has_package(&out, rows[i].package) {
            let ghost before = component_views(out@);
            let x = &rows[i];
            out.push(Component { package: x.package, category: x.category, name: x.name,
                mandatory: x.mandatory, default_on: x.default_on });
            assert(component_views(out@) =~= before.push(component_view(rows@[i as int])));
        }
        i += 1;
    }
    assert(component_views(rows@).take(rows.len() as int) =~= component_views(rows@));
    out
}

/// Ordered, de-duplicated categories as they appear in the catalogue.
pub fn categories(cat: &Vec<Component>) -> (c: Vec<&'static str>)
    ensures
        strs(c@) == dedup(component_views(cat@).map_values(|x: ComponentView| x.category)),
{
    let ghost cats = component_views(cat@).map_values(|x: ComponentView| x.category);
    let mut out: Vec<&'static str> = Vec::new();
    let mut i: usize = 0;
    assert(cats.take(0) =~= Seq::<Seq<char>>::empty());
    while i < cat.len()
        invariant
            i <= cat.len(),
            cats == component_views(cat@).map_values(|x: ComponentView| x.category),
            strs(out@) == dedup(cats.take(i as int)),
        decreases cat.len() - i,
    {
        assert(cats.take(i + 1).drop_last() =~= cats.take(i as int));
        assert(cats.take(i + 1).last() == cat@[i as int].category@);
        if !list_has(&out, cat[i].category) {
            out.push(cat[i].category);
            assert(strs(out@) =~= dedup(cats.take(i as int)).push(cat@[i as int].category@));
        }
        i += 1;
    }
    assert(cats.take(cat.len() as int) =~= cats);
    out
}

/// Whether this machine is a Xen guest: `systemd-detect-virt` printed `xen`,
/// or else `/sys/hypervisor/type` reads `xen`.
pub fn is_xen_guest(detect_virt: Option<&str>, hypervisor_type: Option<&str>) -> (b: bool)
    ensures
        b == ((detect_virt matches Some(d) && trim(d@) == "xen"@)
            || (hypervisor_type matches Some(h) && trim(h@) == "xen"@)),
{
    let first = match detect_virt {
        Some(d) => {
            let v = chars_of(d);
            eq_str(&trim_chars(&v), "xen")
        }
        None => false,
    };
    if first {
        return true;
    }
    match hypervisor_type {
        Some(h) => {
            let v = chars_of(h);
            eq_str(&trim_chars(&v), "xen")
        }
        None => false,
    }
}

/// The repository query named package `p` on a line of its own.
pub open spec fn repo_offers(out: Seq<char>, p: Seq<char>) -> bool {
    p.len() > 0 && exists|k: int| 0 <= k < lines(out).len() && trim(#[trigger] lines(out)[k]) == p
}

/// Which packages can be offered: an installed one always; otherwise one
/// the repository query (`dnf repoquery`, one name per line) named, or
/// every one when the query failed (`None`), so nothing is hidden for no
/// reason.
pub fn available(packages: &Vec<&'static str>, installed: &Vec<bool>, query: Option<&str>) -> (avail: Vec<bool>)
    requires
        installed@.len() == packages@.len(),
    ensures
        avail@.len() == packages@.len(),
        forall|i: int| 0 <= i < packages@.len() ==> #[trigger] avail@[i] == (installed@[i] || match query {
            Some(out) => repo_offers(out@, packages@[i]@),
            None => true,
        }),
{
    let ls: Vec<Vec<char>> = match query {
        Some(out) => lines_of(&chars_of(out)),
        None => Vec::new(),
    };
    let mut avail: Vec<bool> = Vec::new();
    let mut i: usize = 0;
    while i < packages.len()
        invariant
            i <= packages.len(),
            installed@.len() == packages@.len(),
            avail@.len() == i,
            query matches Some(out) ==> views(ls@) == lines(out@),
            forall|j: int| 0 <= j < i ==> #[trigger] avail@[j] == (installed@[j] || match query {
                Some(out) => repo_offers(out@, packages@[j]@),
                None => true,
            }),
        decreases packages.len() - i,
    {
        let a = if installed[i] {
            true
        } else if query.is_none() {
            true
        } else {
            let pv = chars_of(packages[i]);
            let mut found = false;
            if pv.len() > 0 {
                let mut k: usize = 0;
                while k < ls.len()
                    invariant_except_break
                        !found,
                    invariant
                        k <= ls.len(),
                        pv@ == packages@[i as int]@,
                        forall|j: int| 0 <= j < k ==> trim(#[trigger] views(ls@)[j]) != pv@,
                    ensures
                        found ==> exists|j: int| 0 <= j < ls@.len() && trim(#[trigger] views(ls@)[j]) == pv@,
                        !found ==> forall|j: int| 0 <= j < ls@.len() ==> trim(#[trigger] views(ls@)[j]) != pv@,
                    decreases ls.len() - k,
                {
                    assert(views(ls@)[k as int] == ls@[k as int]@);
                    if eq_chars(&trim_chars(&ls[k]), &pv) {
                        found = true;
                        break;
                    }
                    k += 1;
                }
            }
            found
        };
        avail.push(a);
        i += 1;
    }
    avail
}

} // verus!
