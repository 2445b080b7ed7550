//! Add/Remove Programs: the catalogue rows with their installed state, the
//! search filter, and the pending updates read from `dnf check-update`.

use vstd::prelude::*;
use crate::text::{chars_of, contains, eq_ignore_ascii_case, eq_ignore_case_str, has, lines,
    lines_of, lowercase, split_ws, split_ws_chars, string_of, to_lowercase, trim, trim_chars, views, cat2, cat3,
    dec, push_dec, push_str};

verus! {

/// One catalogue package and its live installed state.
pub struct Pkg {
    pub package: &'static str,
    pub category: &'static str,
    pub name: &'static str,
    /// Base-session package: always installed, never removable.
    pub mandatory: bool,
    pub installed: bool,
}

/// One pending package update.
#[derive(Debug, Clone, PartialEq, Eq)]
pub struct Update {
    /// The dnf package id, e.g. `bash.x86_64`.
    pub package: String,
    /// The candidate new version, e.g. `5.2.21-1.fc40`.
    pub version: String,
}

/// A package matches a search: the query is empty, or occurs in its display
/// name or package id (both lowercased).
pub open spec fn pkg_matches_spec(name: Seq<char>, package: Seq<char>, q: Seq<char>) -> bool {
    q.len() == 0 || contains(lowercase(name), q) || contains(lowercase(package), q)
}

/// Whether the package matches the search query.
pub fn pkg_matches(p: &Pkg, q: &str) -> (b: bool)
    ensures
        b == pkg_matches_spec(p.name@, p.package@, q@),
{
    if q.is_empty() {
        return true;
    }
    let qv = chars_of(q);
    let n = to_lowercase(&chars_of(p.name));
    if crate::text::contains_chars(&n, &qv) {
        return true;
    }
    let k = to_lowercase(&chars_of(p.package));
    crate::text::contains_chars(&k, &qv)
}

/// One `dnf check-update` row: at least three columns, the first a dotted
/// package id; gives (package, version).
pub open spec fn update_line(l: Seq<char>) -> Option<(Seq<char>, Seq<char>)> {
    let cols = split_ws(l);
    if cols.len() >= 3 && contains(cols[0], "."@) { Some((cols[0], cols[1])) } else { None }
}

/// The line opening the "Obsoleting Packages" block.
pub open spec fn obsoleting_line(l: Seq<char>) -> bool {
    eq_ignore_ascii_case(trim(l), "Obsoleting Packages"@)
}

/// The updates of the lines, stopping at the "Obsoleting Packages" block.
pub open spec fn updates_of(ls: Seq<Seq<char>>) -> Seq<(Seq<char>, Seq<char>)>
    decreases ls.len(),
{
    if ls.len() == 0 || obsoleting_line(ls[0]) {
        seq![]
    } else {
        let rest = updates_of(ls.drop_first());
        match update_line(ls[0]) {
            Some(u) => seq![u] + rest,
            None => rest,
        }
    }
}

pub open spec fn update_views(v: Seq<Update>) -> Seq<(Seq<char>, Seq<char>)> {
    v.map_values(|u: Update| (u.package@, u.version@))
}

/// Parse `dnf check-update` into pending updates, ignoring the trailing
/// "Obsoleting Packages" block.
pub fn parse_check_update(output: &str) -> (r: Vec<Update>)
    ensures
        update_views(r@) == updates_of(lines(output@)),
{
    let v = chars_of(output);
    let ls = lines_of(&v);
    let mut out: Vec<Update> = Vec::new();
    let mut i: usize = 0;
    assert(views(ls@).skip(0) =~= views(ls@));
    assert(update_views(out@) + updates_of(views(ls@)) =~= updates_of(views(ls@)));
    while i < ls.len()
        invariant
            i <= ls.len(),
            views(ls@) == lines(output@),
            update_views(out@) + updates_of(views(ls@).skip(i as int)) == updates_of(views(ls@)),
        decreases ls.len() - i,
    {
        let ghost rest = views(ls@).skip(i as int);
        assert(rest[0] == ls@[i as int]@);
        assert(rest.drop_first() =~= views(ls@).skip(i + 1));
        let t = trim_chars(&ls[i]);
        if eq_ignore_case_str(&t, "Obsoleting Packages") {
            assert(updates_of(rest) =~= Seq::<(Seq<char>, Seq<char>)>::empty());
            assert(update_views(out@) =~= updates_of(views(ls@)));
            return out;
        }
        let cols = split_ws_chars(&ls[i]);
        assert(views(cols@).len() == cols@.len());
        let dot = chars_of(".");
        if cols.len() >= 3 && crate::text::contains_chars(&cols[0], &dot) {
            assert(views(cols@)[0] == cols@[0]@);
            assert(views(cols@)[1] == cols@[1]@);
            let ghost before = update_views(out@);
            out.push(Update { package: string_of(&cols[0]), version: string_of(&cols[1]) });
            assert(update_views(out@) =~= before.push((cols@[0]@, cols@[1]@)));
            assert(update_views(out@) + updates_of(views(ls@).skip(i + 1))
                =~= before + updates_of(rest));
        } else {
            proof {
                if cols.len() >= 3 {
                    assert(views(cols@)[0] == cols@[0]@);
                }
            }
        }
        i += 1;
    }
    assert(views(ls@).skip(i as int) =~= Seq::<Seq<char>>::empty());
    assert(update_views(out@) =~= updates_of(views(ls@)));
    out
}

/// The catalogue rows with their installed state (`installed[i]` for the
/// i-th catalogue entry).
pub fn load_rows(installed: &Vec<bool>) -> (rows: Vec<Pkg>)
    requires
        installed@.len() == crate::catalogue::catalogue_len(false),
    ensures
        rows@.len() == installed@.len(),
        forall|i: int| 0 <= i < rows@.len() ==> {
            let c = crate::catalogue::catalogue_spec(false)[i];
            &&& (#[trigger] rows@[i]).package@ == c.package
            &&& rows@[i].category@ == c.category
            &&& rows@[i].name@ == c.name
            &&& rows@[i].mandatory == c.mandatory
            &&& rows@[i].installed == installed@[i]
        },
{
    let cat = crate::catalogue::catalogue(false);
    let mut rows: Vec<Pkg> = Vec::new();
    let mut i: usize = 0;
    while i < cat.len()
        invariant
            i <= cat.len(),
            cat@.len() == installed@.len(),
            crate::catalogue::component_views(cat@) == crate::catalogue::catalogue_spec(false),
            rows@.len() == i,
            forall|k: int| 0 <= k < i ==> {
                let c = crate::catalogue::catalogue_spec(false)[k];
                &&& (#[trigger] rows@[k]).package@ == c.package
                &&& rows@[k].category@ == c.category
                &&& rows@[k].name@ == c.name
                &&& rows@[k].mandatory == c.mandatory
                &&& rows@[k].installed == installed@[k]
            },
        decreases cat.len() - i,
    {
        let c = &cat[i];
        assert(crate::catalogue::component_views(cat@)[i as int] == crate::catalogue::component_view(cat@[i as int]));
        rows.push(Pkg {
            package: c.package,
            category: c.category,
            name: c.name,
            mandatory: c.mandatory,
            installed: installed[i],
        });
        i += 1;
    }
    rows
}

// --- the window ---------------------------------------------------------------------

/// Which tab of the window is showing.
#[derive(Debug, Clone, Copy, PartialEq, Eq, Structural)]
pub enum PkgTab {
    Programs,
    Updates,
}

/// The Add/Remove Programs window.
pub struct AddRemove {
    pub rows: Vec<Pkg>,
    /// The package an install or remove (or `(updating all)`) runs for; one
    /// dnf transaction at a time.
    pub busy: Option<String>,
    /// The last result line, shown in the status bar.
    pub status: Option<String>,
    /// The search box.
    pub search: String,
    pub tab: PkgTab,
    /// The pending updates: `None` until checked.
    pub updates: Option<Vec<Update>>,
    /// A `dnf check-update` is running.
    pub checking: bool,
}

/// What the user did, or what the shell reports back.
pub enum PkgMsg {
    /// Install (`true`) or remove (`false`) a package.
    Act(String, bool),
    /// The transaction for a package finished (`ok`); `installed` is its
    /// installed state read from rpm again afterwards.
    Done { package: String, ok: bool, installed: bool },
    SearchChanged(String),
    SwitchTab(PkgTab),
    CheckUpdates,
    /// `dnf check-update` finished: the pending updates, or what went wrong.
    Checked(Result<Vec<Update>, String>),
    UpdateAll,
    /// The upgrade finished (`true` when it succeeded).
    UpdatedAll(bool),
}

/// What the shell must do next.
pub enum PkgEffect {
    Nothing,
    /// `pkexec dnf install|remove -y <package>`; hand back `Done`.
    Act { package: String, install: bool },
    /// `dnf check-update`; hand back `Checked`.
    Check,
    /// `pkexec dnf upgrade -y`; hand back `UpdatedAll`.
    Upgrade,
}

pub open spec fn opt_view(o: Option<String>) -> Option<Seq<char>> {
    match o {
        Some(s) => Some(s@),
        None => None,
    }
}

pub open spec fn row_view(p: Pkg) -> (Seq<char>, Seq<char>, Seq<char>, bool, bool) {
    (p.package@, p.category@, p.name@, p.mandatory, p.installed)
}

pub open spec fn rows_view(v: Seq<Pkg>) -> Seq<(Seq<char>, Seq<char>, Seq<char>, bool, bool)> {
    v.map_values(|p: Pkg| row_view(p))
}

pub open spec fn updates_view(u: Option<Vec<Update>>) -> Option<Seq<(Seq<char>, Seq<char>)>> {
    match u {
        Some(v) => Some(update_views(v@)),
        None => None,
    }
}

/// The window as plain values: rows, busy package, status line, search,
/// tab, pending updates, and whether a check runs.
pub open spec fn ar_view(a: AddRemove) -> (Seq<(Seq<char>, Seq<char>, Seq<char>, bool, bool)>, Option<Seq<char>>,
    Option<Seq<char>>, Seq<char>, PkgTab, Option<Seq<(Seq<char>, Seq<char>)>>, bool) {
    (rows_view(a.rows@), opt_view(a.busy), opt_view(a.status), a.search@, a.tab, updates_view(a.updates), a.checking)
}

pub open spec fn checking_text() -> Seq<char> {
    "Checking for updates\u{2026}"@
}

/// The status line after a check found `n` updates.
pub open spec fn found_text(n: nat) -> Seq<char> {
    if n == 0 {
        "Your programs are up to date."@
    } else if n == 1 {
        "1 update available."@
    } else {
        dec(n) + " updates available."@
    }
}

/// The rows with the first row for `package` given installed state `now`.
pub open spec fn rows_after_done(rows: Seq<(Seq<char>, Seq<char>, Seq<char>, bool, bool)>, package: Seq<char>,
    now: bool) -> Seq<(Seq<char>, Seq<char>, Seq<char>, bool, bool)> {
    if exists|k: int| 0 <= k < rows.len() && rows[k].0 == package {
        let k = choose|k: int| 0 <= k < rows.len() && rows[k].0 == package
            && forall|j: int| 0 <= j < k ==> (#[trigger] rows[j]).0 != package;
        rows.update(k, (rows[k].0, rows[k].1, rows[k].2, rows[k].3, now))
    } else {
        rows
    }
}

/// The window after one message, and what the shell must do next.
pub open spec fn ar_step(o: AddRemove, msg: PkgMsg, f: AddRemove, eff: PkgEffect) -> bool {
    let (rows, busy, status, search, tab, updates, checking) = ar_view(o);
    match msg {
        PkgMsg::Act(package, install) => if busy is None {
            &&& ar_view(f) == (rows, Some(package@), Some((if install { "Installing "@ } else { "Removing "@ })
                + package@ + "\u{2026}"@), search, tab, updates, checking)
            &&& eff matches PkgEffect::Act { package: p, install: i } && p@ == package@ && i == install
        } else {
            ar_view(f) == ar_view(o) && eff is Nothing
        },
        PkgMsg::Done { package, ok, installed } => {
            &&& eff is Nothing
            &&& ar_view(f) == (rows_after_done(rows, package@, installed), None::<Seq<char>>,
                Some(if ok { "Done: "@ + package@ + "."@ } else { "'"@ + package@ + "' was not changed (cancelled or failed)."@ }),
                search, tab, updates, checking)
        },
        PkgMsg::SearchChanged(q) => eff is Nothing && ar_view(f) == (rows, busy, status, q@, tab, updates, checking),
        PkgMsg::SwitchTab(t) => if t == PkgTab::Updates && updates is None && !checking {
            eff is Check && ar_view(f) == (rows, busy, Some(checking_text()), search, t, updates, true)
        } else {
            eff is Nothing && ar_view(f) == (rows, busy, status, search, t, updates, checking)
        },
        PkgMsg::CheckUpdates => if !checking && busy is None {
            eff is Check && ar_view(f) == (rows, busy, Some(checking_text()), search, tab,
                None::<Seq<(Seq<char>, Seq<char>)>>, true)
        } else {
            eff is Nothing && ar_view(f) == ar_view(o)
        },
        PkgMsg::Checked(r) => eff is Nothing && match r {
            Ok(list) => ar_view(f) == (rows, busy, Some(found_text(list@.len())), search, tab,
                Some(update_views(list@)), false),
            Err(e) => ar_view(f) == (rows, busy, Some("Could not check for updates: "@ + e@), search, tab,
                Some(Seq::<(Seq<char>, Seq<char>)>::empty()), false),
        },
        PkgMsg::UpdateAll => if busy is None && !checking && (updates matches Some(u) && u.len() > 0) {
            eff is Upgrade && ar_view(f) == (rows, Some("(updating all)"@), Some("Installing all updates\u{2026}"@),
                search, tab, updates, checking)
        } else {
            eff is Nothing && ar_view(f) == ar_view(o)
        },
        PkgMsg::UpdatedAll(ok) => if ok {
            eff is Check && ar_view(f) == (rows, None::<Seq<char>>,
                Some("Updates installed \u{2014} rechecking\u{2026}"@), search, tab, updates, true)
        } else {
            eff is Nothing && ar_view(f) == (rows, None::<Seq<char>>, Some("Update was cancelled or failed."@),
                search, tab, updates, checking)
        },
    }
}

/// Give the first row for `package` installed state `now`.
fn set_installed(rows: &mut Vec<Pkg>, package: &str, now: bool)
    ensures
        rows_view(final(rows)@) == rows_after_done(rows_view(old(rows)@), package@, now),
{
    let pv = chars_of(package);
    let ghost rv = rows_view(rows@);
    let mut k: usize = 0;
    while k < rows.len()
        invariant
            k <= rows.len(),
            pv@ == package@,
            rv == rows_view(rows@),
            rv == rows_view(old(rows)@),
            forall|j: int| 0 <= j < k ==> (#[trigger] rv[j]).0 != package@,
        decreases rows.len() - k,
    {
        assert(rv[k as int] == row_view(rows@[k as int]));
        if crate::text::eq_chars(&chars_of(rows[k].package), &pv) {
            let r = &rows[k];
            let np = Pkg { package: r.package, category: r.category, name: r.name, mandatory: r.mandatory,
                installed: now };
            rows.set(k, np);
            proof {
                assert(rv[k as int].0 == package@);
                let c = choose|c: int| 0 <= c < rv.len() && rv[c].0 == package@
                    && forall|j: int| 0 <= j < c ==> (#[trigger] rv[j]).0 != package@;
                if c < k {
                    assert(rv[c].0 != package@);
                } else if k < c {
                    assert(rv[k as int].0 != package@);
                }
                assert(rows_view(rows@) =~= rv.update(k as int, (rv[k as int].0, rv[k as int].1,
                    rv[k as int].2, rv[k as int].3, now)));
            }
            return;
        }
        k += 1;
    }
}

impl AddRemove {
    /// The window at start with its rows; `updates` opens it on the Updates
    /// tab, checking at once (`Check`).
    pub fn open(rows: Vec<Pkg>, updates: bool) -> (r: (AddRemove, PkgEffect))
        ensures
            ar_view(r.0) == (rows_view(rows@), None::<Seq<char>>,
                if updates { Some(checking_text()) } else { None::<Seq<char>> }, Seq::<char>::empty(),
                if updates { PkgTab::Updates } else { PkgTab::Programs }, None::<Seq<(Seq<char>, Seq<char>)>>, updates),
            if updates { r.1 is Check } else { r.1 is Nothing },
    {
        let a = AddRemove {
            rows,
            busy: None,
            status: if updates { Some("Checking for updates\u{2026}".to_owned()) } else { None },
            search: String::new(),
            tab: if updates { PkgTab::Updates } else { PkgTab::Programs },
            updates: None,
            checking: updates,
        };
        (a, if updates { PkgEffect::Check } else { PkgEffect::Nothing })
    }

    /// The window's reaction to one message.
    pub fn handle(&mut self, msg: PkgMsg) -> (eff: PkgEffect)
        ensures
            ar_step(*old(self), msg, *final(self), eff),
    {
        match msg {
            PkgMsg::Act(package, install) => {
                if self.busy.is_none() {
                    let status = cat3(if install { "Installing " } else { "Removing " }, package.as_str(), "\u{2026}");
                    self.busy = Some(package.clone());
                    self.status = Some(status);
                    PkgEffect::Act { package, install }
                } else {
                    PkgEffect::Nothing
                }
            }
            PkgMsg::Done { package, ok, installed } => {
                self.busy = None;
                set_installed(&mut self.rows, package.as_str(), installed);
                self.status = Some(if ok {
                    cat3("Done: ", package.as_str(), ".")
                } else {
                    cat3("'", package.as_str(), "' was not changed (cancelled or failed).")
                });
                PkgEffect::Nothing
            }
            PkgMsg::SearchChanged(q) => {
                self.search = q;
                PkgEffect::Nothing
            }
            PkgMsg::SwitchTab(t) => {
                self.tab = t;
                if t == PkgTab::Updates && self.updates.is_none() && !self.checking {
                    self.checking = true;
                    self.status = Some("Checking for updates\u{2026}".to_owned());
                    PkgEffect::Check
                } else {
                    PkgEffect::Nothing
                }
            }
            PkgMsg::CheckUpdates => {
                if !self.checking && self.busy.is_none() {
                    self.checking = true;
                    self.updates = None;
                    self.status = Some("Checking for updates\u{2026}".to_owned());
                    PkgEffect::Check
                } else {
                    PkgEffect::Nothing
                }
            }
            PkgMsg::Checked(r) => {
                self.checking = false;
                match r {
                    Ok(list) => {
                        let n = list.len();
                        let text = if n == 0 {
                            "Your programs are up to date.".to_owned()
                        } else if n == 1 {
                            "1 update available.".to_owned()
                        } else {
                            let mut t = String::new();
                            push_dec(&mut t, n as u64);
                            push_str(&mut t, " updates available.");
                            t
                        };
                        self.status = Some(text);
                        self.updates = Some(list);
                    }
                    Err(e) => {
                        self.status = Some(cat2("Could not check for updates: ", e.as_str()));
                        self.updates = Some(Vec::new());
                        assert(update_views(Seq::<Update>::empty()) =~= Seq::<(Seq<char>, Seq<char>)>::empty());
                    }
                }
                PkgEffect::Nothing
            }
            PkgMsg::UpdateAll => {
                let has_updates = match &self.updates {
                    Some(u) => u.len() > 0,
                    None => false,
                };
                if self.busy.is_none() && !self.checking && has_updates {
                    self.busy = Some("(updating all)".to_owned());
                    self.status = Some("Installing all updates\u{2026}".to_owned());
                    PkgEffect::Upgrade
                } else {
                    PkgEffect::Nothing
                }
            }
            PkgMsg::UpdatedAll(ok) => {
                self.busy = None;
                if ok {
                    self.checking = true;
                    self.status = Some("Updates installed \u{2014} rechecking\u{2026}".to_owned());
                    PkgEffect::Check
                } else {
                    self.status = Some("Update was cancelled or failed.".to_owned());
                    PkgEffect::Nothing
                }
            }
        }
    }
}

} // verus!
