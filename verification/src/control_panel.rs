//! The Control Panel window's logic: its View/menu dropdowns, the list
//! labels of tools not yet installed, `--launch N`, and what a click on a
//! tool does (open it, or install it and then open it).

use vstd::prelude::*;
use crate::text::{chars_of, parse_bounded, parse_u64, push_str};

verus! {

/// How the applets are laid out.
#[derive(Debug, Clone, Copy, PartialEq, Eq, Structural)]
pub enum CpView {
    LargeIcons,
    List,
    Details,
}

/// What the user did, or what the shell reports back.
pub enum CpMsg {
    Activate(usize),
    /// The install of tool `i` finished, successfully or not.
    Installed(usize, bool),
    OpenMenu(usize),
    CloseMenus,
    SetView(CpView),
    Refresh,
    /// The installed state of every tool, read again.
    Refreshed(Vec<bool>),
    About,
    CloseWindow,
    Noop,
}

/// What the shell must do next.
#[derive(Debug, Clone, Copy, PartialEq, Eq, Structural)]
pub enum CpEffect {
    Nothing,
    /// Launch tool `i`.
    Launch(usize),
    /// Install tool `i`'s package; hand back `Installed`.
    Install(usize),
    /// Read every tool's installed state; hand back `Refreshed`.
    Refresh,
    Exit,
}

/// The window: the selected tool, each tool's installed state, the open
/// dropdown, the About box, and the view mode.
pub struct ControlPanel {
    pub selected: Option<usize>,
    pub installed: Vec<bool>,
    pub menu_open: Option<usize>,
    pub about_open: bool,
    pub view: CpView,
}

/// The window as plain values: selected tool, installed states, open
/// dropdown, About box, view mode.
pub open spec fn cp_view(c: ControlPanel) -> (Option<usize>, Seq<bool>, Option<usize>, bool, CpView) {
    (c.selected, c.installed@, c.menu_open, c.about_open, c.view)
}

/// The window after one message, and what the shell must do next.
pub open spec fn cp_step(o: ControlPanel, msg: CpMsg, f: ControlPanel, eff: CpEffect, n_tools: nat) -> bool {
    let (sel, inst, menu, about, view) = cp_view(o);
    match msg {
        CpMsg::Activate(i) => {
            &&& cp_view(f) == (Some(i), inst, menu, about, view)
            &&& eff == if i >= n_tools {
                CpEffect::Nothing
            } else if i < o.installed@.len() && o.installed@[i as int] {
                CpEffect::Launch(i)
            } else {
                CpEffect::Install(i)
            }
        },
        CpMsg::Installed(i, ok) => if ok {
            &&& cp_view(f) == (sel, if i < inst.len() { inst.update(i as int, true) } else { inst }, menu, about, view)
            &&& eff == CpEffect::Launch(i)
        } else {
            cp_view(f) == cp_view(o) && eff is Nothing
        },
        CpMsg::OpenMenu(i) => eff is Nothing
            && cp_view(f) == (sel, inst, if menu == Some(i) { None } else { Some(i) }, about, view),
        CpMsg::CloseMenus => eff is Nothing && cp_view(f) == (sel, inst, None::<usize>, false, view),
        CpMsg::SetView(v) => eff is Nothing && cp_view(f) == (sel, inst, None::<usize>, about, v),
        CpMsg::Refresh => eff is Refresh && cp_view(f) == (sel, inst, None::<usize>, about, view),
        CpMsg::Refreshed(v) => eff is Nothing && cp_view(f) == (sel, v@, menu, about, view),
        CpMsg::About => eff is Nothing && cp_view(f) == (sel, inst, None::<usize>, true, view),
        CpMsg::CloseWindow => eff is Exit && cp_view(f) == cp_view(o),
        CpMsg::Noop => eff is Nothing && cp_view(f) == cp_view(o),
    }
}

impl ControlPanel {
    /// The window at startup, with the tools' installed states.
    pub fn new(installed: Vec<bool>) -> (c: ControlPanel)
        ensures
            c.installed@ == installed@,
            c.selected is None && c.menu_open is None && !c.about_open,
            c.view == CpView::LargeIcons,
    {
        ControlPanel { selected: None, installed, menu_open: None, about_open: false, view: CpView::LargeIcons }
    }

    /// The window's reaction to one message; there are `n_tools` tools.
    pub fn handle(&mut self, msg: CpMsg, n_tools: usize) -> (eff: CpEffect)
        ensures
            cp_step(*old(self), msg, *final(self), eff, n_tools as nat),
    {
        match msg {
            CpMsg::Activate(i) => {
                self.selected = Some(i);
                if i >= n_tools {
                    CpEffect::Nothing
                } else if i < self.installed.len() && self.installed[i] {
                    CpEffect::Launch(i)
                } else {
                    CpEffect::Install(i)
                }
            }
            CpMsg::Installed(i, ok) => {
                if ok {
                    if i < self.installed.len() {
                        self.installed.set(i, true);
                    }
                    CpEffect::Launch(i)
                } else {
                    CpEffect::Nothing
                }
            }
            CpMsg::OpenMenu(i) => {
                self.menu_open = if self.menu_open == Some(i) { None } else { Some(i) };
                CpEffect::Nothing
            }
            CpMsg::CloseMenus => {
                self.menu_open = None;
                self.about_open = false;
                CpEffect::Nothing
            }
            CpMsg::SetView(v) => {
                self.view = v;
                self.menu_open = None;
                CpEffect::Nothing
            }
            CpMsg::Refresh => {
                self.menu_open = None;
                CpEffect::Refresh
            }
            CpMsg::Refreshed(v) => {
                self.installed = v;
                CpEffect::Nothing
            }
            CpMsg::About => {
                self.about_open = true;
                self.menu_open = None;
                CpEffect::Nothing
            }
            CpMsg::CloseWindow => CpEffect::Exit,
            CpMsg::Noop => CpEffect::Nothing,
        }
    }
}

/// One dropdown entry: its label, what it does, and whether it is enabled.
pub struct MenuItem {
    pub label: &'static str,
    pub action: CpMenuAction,
    pub enabled: bool,
}

/// What a dropdown entry does.
#[derive(Debug, Clone, Copy, PartialEq, Eq, Structural)]
pub enum CpMenuAction {
    CloseWindow,
    SetView(CpView),
    Refresh,
    About,
    Noop,
}

pub open spec fn item_view(m: MenuItem) -> (Seq<char>, CpMenuAction, bool) {
    (m.label@, m.action, m.enabled)
}

/// A View entry's label: a bullet marks the active mode.
pub open spec fn mark(view: CpView, v: CpView, name: Seq<char>) -> Seq<char> {
    if view == v { "\u{2022} "@ + name } else { "  "@ + name }
}

/// The dropdown of menubar title `i` (File, Edit, View, Favorites, Tools,
/// Help); entries that do not apply to this window are shown disabled.
pub open spec fn menu_items_spec(i: usize, view: CpView) -> Seq<(Seq<char>, CpMenuAction, bool)> {
    if i == 0 {
        seq![("Close"@, CpMenuAction::CloseWindow, true)]
    } else if i == 1 {
        seq![("Cut"@, CpMenuAction::Noop, false), ("Copy"@, CpMenuAction::Noop, false),
            ("Paste"@, CpMenuAction::Noop, false)]
    } else if i == 2 {
        seq![(mark(view, CpView::LargeIcons, "Large Icons"@), CpMenuAction::SetView(CpView::LargeIcons), true),
            (mark(view, CpView::List, "List"@), CpMenuAction::SetView(CpView::List), true),
            (mark(view, CpView::Details, "Details"@), CpMenuAction::SetView(CpView::Details), true),
            ("Refresh"@, CpMenuAction::Refresh, true)]
    } else if i == 3 {
        seq![("Add to Favorites\u{2026}"@, CpMenuAction::Noop, false)]
    } else if i == 4 {
        seq![("Folder Options\u{2026}"@, CpMenuAction::Noop, false)]
    } else if i == 5 {
        seq![("About Control Panel"@, CpMenuAction::About, true)]
    } else {
        seq![]
    }
}

fn view_item(view: CpView, v: CpView, on: &'static str, off: &'static str, Ghost(name): Ghost<Seq<char>>) -> (m: MenuItem)
    requires
        on@ == "\u{2022} "@ + name,
        off@ == "  "@ + name,
    ensures
        item_view(m) == (mark(view, v, name), CpMenuAction::SetView(v), true),
{
    MenuItem { label: if view == v { on } else { off }, action: CpMenuAction::SetView(v), enabled: true }
}

/// The dropdown entries of menubar title `i`.
pub fn menu_items(i: usize, view: CpView) -> (v: Vec<MenuItem>)
    ensures
        v@.map_values(|m: MenuItem| item_view(m)) == menu_items_spec(i, view),
{
    let mut v: Vec<MenuItem> = Vec::new();
    if i == 0 {
        v.push(MenuItem { label: "Close", action: CpMenuAction::CloseWindow, enabled: true });
    } else if i == 1 {
        v.push(MenuItem { label: "Cut", action: CpMenuAction::Noop, enabled: false });
        v.push(MenuItem { label: "Copy", action: CpMenuAction::Noop, enabled: false });
        v.push(MenuItem { label: "Paste", action: CpMenuAction::Noop, enabled: false });
    } else if i == 2 {
        proof {
            reveal_strlit("\u{2022} Large Icons");
            reveal_strlit("  Large Icons");
            reveal_strlit("Large Icons");
            reveal_strlit("\u{2022} List");
            reveal_strlit("  List");
            reveal_strlit("List");
            reveal_strlit("\u{2022} Details");
            reveal_strlit("  Details");
            reveal_strlit("Details");
            reveal_strlit("\u{2022} ");
            reveal_strlit("  ");
            assert("\u{2022} Large Icons"@ =~= "\u{2022} "@ + "Large Icons"@);
            assert("  Large Icons"@ =~= "  "@ + "Large Icons"@);
            assert("\u{2022} List"@ =~= "\u{2022} "@ + "List"@);
            assert("  List"@ =~= "  "@ + "List"@);
            assert("\u{2022} Details"@ =~= "\u{2022} "@ + "Details"@);
            assert("  Details"@ =~= "  "@ + "Details"@);
        }
        v.push(view_item(view, CpView::LargeIcons, "\u{2022} Large Icons", "  Large Icons", Ghost("Large Icons"@)));
        v.push(view_item(view, CpView::List, "\u{2022} List", "  List", Ghost("List"@)));
        v.push(view_item(view, CpView::Details, "\u{2022} Details", "  Details", Ghost("Details"@)));
        v.push(MenuItem { label: "Refresh", action: CpMenuAction::Refresh, enabled: true });
    } else if i == 3 {
        v.push(MenuItem { label: "Add to Favorites\u{2026}", action: CpMenuAction::Noop, enabled: false });
    } else if i == 4 {
        v.push(MenuItem { label: "Folder Options\u{2026}", action: CpMenuAction::Noop, enabled: false });
    } else if i == 5 {
        v.push(MenuItem { label: "About Control Panel", action: CpMenuAction::About, enabled: true });
    }
    assert(v@.map_values(|m: MenuItem| item_view(m)) =~= menu_items_spec(i, view));
    v
}

/// A tool's list label: its name, with an "(install)" hint when it is known
/// not to be installed.
pub fn tool_label(installed: &Vec<bool>, i: usize, name: &str) -> (l: String)
    ensures
        l@ == if i < installed@.len() && !installed@[i as int] { name@ + "  (install)"@ } else { name@ },
{
    let mut l = name.to_owned();
    if i < installed.len() && !installed[i] {
        push_str(&mut l, "  (install)");
    }
    l
}

/// `--launch N`: tool number N counts from one (N = 0 is the first tool too);
/// none when N is not a number or past the last tool.
pub fn tool_number(arg: Option<&str>, n_tools: usize) -> (r: Option<usize>)
    ensures
        match arg {
            Some(a) => match parse_bounded(a@, usize::MAX as nat) {
                Some(n) => {
                    let k = if n >= 1 { n - 1 } else { 0 };
                    if k < n_tools { r == Some(k as usize) } else { r is None }
                },
                None => r is None,
            },
            None => r is None,
        },
{
    match arg {
        Some(a) => match parse_u64(&chars_of(a)) {
            Some(n) => {
                if n as u128 > usize::MAX as u128 {
                    return None;
                }
                let n = n as usize;
                let k = if n >= 1 { n - 1 } else { 0 };
                if k < n_tools { Some(k) } else { None }
            }
            None => {
                assert(parse_bounded(a@, usize::MAX as nat) is None) by {
                    assert(parse_bounded(a@, u64::MAX as nat) is None);
                }
                None
            }
        },
        None => None,
    }
}

} // verus!
