//! Installed-application entries for the Programs submenu: parsing a
//! `.desktop` file and filing it into a Programs folder (Accessories,
//! Internet, Office, ...) by its freedesktop Categories.

use vstd::prelude::*;
use crate::text::{chars_of, split_char, split_chars, views, eq_chars, lines, lines_of, trim, trim_chars, starts_with,
    begins, slice_chars, string_of, eq_ignore_ascii_case, eq_ignore_case_str, split_ws, split_ws_chars, join,
    join_chars, eq_str, lex_le, lex_le_chars, lemma_lex_total, lemma_lex_trans, lemma_lex_antisym, lemma_lex_refl,
    lowercase, to_lowercase};

verus! {

/// One launchable application.
pub struct App {
    pub name: String,
    /// The Exec= line with its field codes dropped.
    pub command: String,
    pub terminal: bool,
}

/// `parts` holds `k` as one of its entries.
pub open spec fn has_part(parts: Seq<Seq<char>>, k: Seq<char>) -> bool {
    parts.contains(k)
}

/// The Programs folder for a `;`-separated freedesktop Categories value.
pub open spec fn category_spec(cats: Seq<char>) -> Seq<char> {
    let p = split_char(cats, ';');
    if has_part(p, "Network"@) || has_part(p, "WebBrowser"@) || has_part(p, "Email"@) {
        "Internet"@
    } else if has_part(p, "AudioVideo"@) || has_part(p, "Audio"@) || has_part(p, "Video"@) {
        "Multimedia"@
    } else if has_part(p, "Development"@) {
        "Programming"@
    } else if has_part(p, "Graphics"@) {
        "Graphics"@
    } else if has_part(p, "Office"@) {
        "Office"@
    } else if has_part(p, "Game"@) {
        "Games"@
    } else if has_part(p, "Utility"@) || has_part(p, "Accessories"@) || has_part(p, "System"@)
        || has_part(p, "Settings"@) {
        "Accessories"@
    } else {
        "Other"@
    }
}

/// Whether one of `parts` is exactly `k`.
fn parts_have(parts: &Vec<Vec<char>>, k: &str) -> (b: bool)
    ensures
        b == has_part(views(parts@), k@),
{
    let kv = chars_of(k);
    let mut i: usize = 0;
    while i < parts.len()
        invariant
            i <= parts.len(),
            kv@ == k@,
            forall|j: int| 0 <= j < i ==> views(parts@)[j] != k@,
        decreases parts.len() - i,
    {
        if eq_chars(&parts[i], &kv) {
            assert(views(parts@)[i as int] == k@);
            return true;
        }
        i += 1;
    }
    false
}

/// The Programs folder for a Categories value.
pub fn category(cats: &str) -> (c: String)
    ensures
        c@ == category_spec(cats@),
{
    let v = chars_of(cats);
    let p = split_chars(&v, ';');
    let name = if parts_have(&p, "Network") || parts_have(&p, "WebBrowser") || parts_have(&p, "Email") {
        "Internet"
    } else if parts_have(&p, "AudioVideo") || parts_have(&p, "Audio") || parts_have(&p, "Video") {
        "Multimedia"
    } else if parts_have(&p, "Development") {
        "Programming"
    } else if parts_have(&p, "Graphics") {
        "Graphics"
    } else if parts_have(&p, "Office") {
        "Office"
    } else if parts_have(&p, "Game") {
        "Games"
    } else if parts_have(&p, "Utility") || parts_have(&p, "Accessories") || parts_have(&p, "System")
        || parts_have(&p, "Settings") {
        "Accessories"
    } else {
        "Other"
    };
    name.to_owned()
}

// --- .desktop files -------------------------------------------------------------------

/// What a scan of a `.desktop` file has gathered so far: Name, Exec and Type
/// (the first of each), Categories (the last), Terminal, whether NoDisplay
/// or Hidden said true, and whether the scan is inside `[Desktop Entry]`.
pub struct Scan {
    pub name: Option<Vec<char>>,
    pub exec_line: Option<Vec<char>>,
    pub typ: Option<Vec<char>>,
    pub cats: Vec<char>,
    pub terminal: bool,
    pub nodisplay: bool,
    pub in_entry: bool,
}

pub type ScanView = (Option<Seq<char>>, Option<Seq<char>>, Option<Seq<char>>, Seq<char>, bool, bool, bool);

pub open spec fn opt_view(o: Option<Vec<char>>) -> Option<Seq<char>> {
    match o {
        Some(v) => Some(v@),
        None => None,
    }
}

pub open spec fn scan_view(s: Scan) -> ScanView {
    (opt_view(s.name), opt_view(s.exec_line), opt_view(s.typ), s.cats@, s.terminal, s.nodisplay, s.in_entry)
}

pub open spec fn first_set(o: Option<Seq<char>>, v: Seq<char>) -> Option<Seq<char>> {
    match o {
        Some(x) => Some(x),
        None => Some(v),
    }
}

/// One line of a `.desktop` file, trimmed: a `[Group]` header starts or
/// ends the Desktop Entry group; inside it the known keys are recorded.
pub open spec fn scan_line(st: ScanView, raw: Seq<char>) -> ScanView {
    let l = trim(raw);
    let (name, exec, typ, cats, terminal, nodisplay, in_entry) = st;
    if l.len() > 0 && l[0] == '[' {
        (name, exec, typ, cats, terminal, nodisplay, l == "[Desktop Entry]"@)
    } else if !in_entry {
        st
    } else if starts_with(l, "Name="@) {
        (first_set(name, l.skip(5)), exec, typ, cats, terminal, nodisplay, in_entry)
    } else if starts_with(l, "Exec="@) {
        (name, first_set(exec, l.skip(5)), typ, cats, terminal, nodisplay, in_entry)
    } else if starts_with(l, "Categories="@) {
        (name, exec, typ, l.skip(11), terminal, nodisplay, in_entry)
    } else if starts_with(l, "Terminal="@) {
        (name, exec, typ, cats, eq_ignore_ascii_case(l.skip(9), "true"@), nodisplay, in_entry)
    } else if starts_with(l, "NoDisplay="@) {
        (name, exec, typ, cats, terminal, nodisplay || eq_ignore_ascii_case(l.skip(10), "true"@), in_entry)
    } else if starts_with(l, "Hidden="@) {
        (name, exec, typ, cats, terminal, nodisplay || eq_ignore_ascii_case(l.skip(7), "true"@), in_entry)
    } else if starts_with(l, "Type="@) {
        (name, exec, first_set(typ, l.skip(5)), cats, terminal, nodisplay, in_entry)
    } else {
        st
    }
}

pub open spec fn scan_start() -> ScanView {
    (None, None, None, seq![], false, false, false)
}

/// The scan after the given lines.
pub open spec fn scan_lines(ls: Seq<Seq<char>>) -> ScanView
    decreases ls.len(),
{
    if ls.len() == 0 {
        scan_start()
    } else {
        scan_line(scan_lines(ls.drop_last()), ls.last())
    }
}

/// The Exec line as a command: its words without `%` field codes, joined by
/// single spaces.
pub open spec fn command_of(exec: Seq<char>) -> Seq<char> {
    join(split_ws(exec).filter(|t: Seq<char>| !(t.len() > 0 && t[0] == '%')), " "@)
}

/// A `.desktop` file's menu entry and Programs folder: none for a hidden
/// entry, one that is not an Application, or one without a name or a
/// command.
pub open spec fn entry_spec(text: Seq<char>) -> Option<(Seq<char>, Seq<char>, bool, Seq<char>)> {
    let (name, exec, typ, cats, terminal, nodisplay, _) = scan_lines(lines(text));
    if nodisplay || typ != Some("Application"@) {
        None
    } else {
        match (name, exec) {
            (Some(n), Some(e)) => if command_of(e).len() == 0 {
                None
            } else {
                Some((n, command_of(e), terminal, category_spec(cats)))
            },
            _ => None,
        }
    }
}

fn key_value(l: &Vec<char>, key: &str, k: usize) -> (v: Vec<char>)
    requires
        starts_with(l@, key@),
        key@.len() == k,
    ensures
        v@ == l@.skip(k as int),
{
    let n = l.len();
    slice_chars(l, k, n)
}

fn scan_one(st: &mut Scan, raw: &Vec<char>)
    ensures
        scan_view(*final(st)) == scan_line(scan_view(*old(st)), raw@),
{
    proof {
        reveal_strlit("Name=");
        reveal_strlit("Exec=");
        reveal_strlit("Categories=");
        reveal_strlit("Terminal=");
        reveal_strlit("NoDisplay=");
        reveal_strlit("Hidden=");
        reveal_strlit("Type=");
    }
    let l = trim_chars(raw);
    if l.len() > 0 && l[0] == '[' {
        st.in_entry = eq_str(&l, "[Desktop Entry]");
    } else if !st.in_entry {
    } else if begins(&l, "Name=") {
        if st.name.is_none() {
            st.name = Some(key_value(&l, "Name=", 5));
        }
    } else if begins(&l, "Exec=") {
        if st.exec_line.is_none() {
            st.exec_line = Some(key_value(&l, "Exec=", 5));
        }
    } else if begins(&l, "Categories=") {
        st.cats = key_value(&l, "Categories=", 11);
    } else if begins(&l, "Terminal=") {
        st.terminal = eq_ignore_case_str(&key_value(&l, "Terminal=", 9), "true");
    } else if begins(&l, "NoDisplay=") {
        let b = eq_ignore_case_str(&key_value(&l, "NoDisplay=", 10), "true");
        st.nodisplay = st.nodisplay || b;
    } else if begins(&l, "Hidden=") {
        let b = eq_ignore_case_str(&key_value(&l, "Hidden=", 7), "true");
        st.nodisplay = st.nodisplay || b;
    } else if begins(&l, "Type=") {
        if st.typ.is_none() {
            st.typ = Some(key_value(&l, "Type=", 5));
        }
    }
}

/// The command of an Exec line: its words without `%` field codes.
pub fn command(exec: &Vec<char>) -> (c: Vec<char>)
    ensures
        c@ == command_of(exec@),
{
    let words = split_ws_chars(exec);
    let mut kept: Vec<Vec<char>> = Vec::new();
    let mut i: usize = 0;
    while i < words.len()
        invariant
            i <= words.len(),
            views(kept@) == views(words@).take(i as int).filter(|t: Seq<char>| !(t.len() > 0 && t[0] == '%')),
        decreases words.len() - i,
    {
        proof {
            reveal(Seq::filter);
            assert(views(words@).take(i + 1).drop_last() =~= views(words@).take(i as int));
            assert(views(words@).take(i + 1).last() == words@[i as int]@);
        }
        let ghost before = views(kept@);
        let w = &words[i];
        if !(w.len() > 0 && w[0] == '%') {
            kept.push(slice_chars(w, 0, w.len()));
            assert(w@.subrange(0, w@.len() as int) =~= w@);
            assert(views(kept@) =~= before.push(w@));
        }
        i += 1;
    }
    assert(views(words@).take(words.len() as int) =~= views(words@));
    join_chars(&kept, " ")
}

/// A `.desktop` file's menu entry and its Programs folder.
pub fn parse_entry(text: &str) -> (r: Option<(App, String)>)
    ensures
        match r {
            Some((app, cat)) => entry_spec(text@) == Some((app.name@, app.command@, app.terminal, cat@)),
            None => entry_spec(text@) is None,
        },
{
    let ls = lines_of(&chars_of(text));
    let mut st = Scan { name: None, exec_line: None, typ: None, cats: Vec::new(), terminal: false, nodisplay: false,
        in_entry: false };
    let mut i: usize = 0;
    assert(scan_view(st) == scan_start());
    assert(views(ls@).take(0) =~= Seq::<Seq<char>>::empty());
    while i < ls.len()
        invariant
            i <= ls.len(),
            scan_view(st) == scan_lines(views(ls@).take(i as int)),
        decreases ls.len() - i,
    {
        assert(views(ls@).take(i + 1).drop_last() =~= views(ls@).take(i as int));
        assert(views(ls@).take(i + 1).last() == ls@[i as int]@);
        scan_one(&mut st, &ls[i]);
        i += 1;
    }
    assert(views(ls@).take(ls.len() as int) =~= views(ls@));
    let is_app = match &st.typ {
        Some(t) => eq_str(t, "Application"),
        None => false,
    };
    if st.nodisplay || !is_app {
        return None;
    }
    match (&st.name, &st.exec_line) {
        (Some(n), Some(e)) => {
            let c = command(e);
            if c.len() == 0 {
                None
            } else {
                let cats = string_of(&st.cats);
                Some((App { name: string_of(n), command: string_of(&c), terminal: st.terminal },
                    category(cats.as_str())))
            }
        }
        _ => None,
    }
}

// --- the Programs folders ------------------------------------------------------------

/// An application as plain values: name, command, terminal.
pub open spec fn app_view(a: App) -> (Seq<char>, Seq<char>, bool) {
    (a.name@, a.command@, a.terminal)
}

pub open spec fn app_views(s: Seq<App>) -> Seq<(Seq<char>, Seq<char>, bool)> {
    s.map_values(|a: App| app_view(a))
}

/// The key applications are ordered by: the lowercased name.
pub open spec fn name_key(a: (Seq<char>, Seq<char>, bool)) -> Seq<char> {
    lowercase(a.0)
}

pub open spec fn sorted_by_name(t: Seq<(Seq<char>, Seq<char>, bool)>) -> bool {
    forall|i: int, j: int| 0 <= i < j < t.len() ==> lex_le(name_key(#[trigger] t[i]), name_key(#[trigger] t[j]))
}

/// The applications of `s` whose key is `k`, in order.
pub open spec fn with_key(s: Seq<(Seq<char>, Seq<char>, bool)>, k: Seq<char>) -> Seq<(Seq<char>, Seq<char>, bool)> {
    s.filter(|a: (Seq<char>, Seq<char>, bool)| name_key(a) == k)
}

/// `t` is `s` sorted by lowercased name, keeping the order of equal keys.
pub open spec fn stable_sort_of(s: Seq<(Seq<char>, Seq<char>, bool)>, t: Seq<(Seq<char>, Seq<char>, bool)>) -> bool {
    &&& sorted_by_name(t)
    &&& forall|k: Seq<char>| #[trigger] with_key(t, k) == with_key(s, k)
}

/// Runs of applications with the same name reduced to their first.
pub open spec fn dedup_names(t: Seq<(Seq<char>, Seq<char>, bool)>) -> Seq<(Seq<char>, Seq<char>, bool)>
    decreases t.len(),
{
    if t.len() <= 1 {
        t
    } else if t.last().0 == t[t.len() - 2].0 {
        dedup_names(t.drop_last())
    } else {
        dedup_names(t.drop_last()).push(t.last())
    }
}

/// A folder's place in the Programs menu (unknown folders last).
pub open spec fn folder_rank(c: Seq<char>) -> nat {
    if c == "Accessories"@ {
        0
    } else if c == "Internet"@ {
        1
    } else if c == "Office"@ {
        2
    } else if c == "Graphics"@ {
        3
    } else if c == "Multimedia"@ {
        4
    } else if c == "Programming"@ {
        5
    } else if c == "Games"@ {
        6
    } else if c == "Other"@ {
        7
    } else {
        8
    }
}

/// Folder `a` comes before folder `b`: by menu place, then by name.
pub open spec fn folder_before(a: Seq<char>, b: Seq<char>) -> bool {
    folder_rank(a) < folder_rank(b) || (folder_rank(a) == folder_rank(b) && lex_le(a, b) && a != b)
}

/// The applications filed under folder `c`, in the order found.
pub open spec fn apps_in(found: Seq<(App, String)>, c: Seq<char>) -> Seq<(Seq<char>, Seq<char>, bool)> {
    found.filter(|p: (App, String)| p.1@ == c).map_values(|p: (App, String)| app_view(p.0))
}

/// Some folder of `out` is `c`.
pub open spec fn out_has(out: Seq<(String, Vec<App>)>, c: Seq<char>) -> bool {
    exists|i: int| 0 <= i < out.len() && (#[trigger] out[i]).0@ == c
}

/// One of the first `k` found entries is filed under `c`.
pub open spec fn found_has(found: Seq<(App, String)>, k: int, c: Seq<char>) -> bool {
    exists|j: int| 0 <= j < k && (#[trigger] found[j]).1@ == c
}

/// `c` is listed in `r`.
pub open spec fn listed(r: Seq<String>, c: Seq<char>) -> bool {
    exists|i: int| 0 <= i < r.len() && (#[trigger] r[i])@ == c
}

/// The Programs menu built from the found entries: each folder that has an
/// entry, once, in menu order; in each, its applications sorted by
/// lowercased name (equal names in the order found) with repeated names
/// dropped.
pub open spec fn programs_spec(found: Seq<(App, String)>, out: Seq<(String, Vec<App>)>) -> bool {
    &&& forall|i: int, j: int| 0 <= i < j < out.len() ==> folder_before((#[trigger] out[i]).0@, (#[trigger] out[j]).0@)
    &&& forall|c: Seq<char>| #[trigger] out_has(out, c) <==> found_has(found, found.len() as int, c)
    &&& forall|i: int| 0 <= i < out.len() ==> #[trigger] group_of(found, out[i].0@, out[i].1@)
}

/// `g` is folder `c`'s applications: those filed under `c`, sorted by
/// lowercased name (equal names in the order found), repeated names dropped.
pub open spec fn group_of(found: Seq<(App, String)>, c: Seq<char>, g: Seq<App>) -> bool {
    exists|t: Seq<(Seq<char>, Seq<char>, bool)>| stable_sort_of(apps_in(found, c), t) && app_views(g) == dedup_names(t)
}

proof fn lemma_folder_order(a: Seq<char>, b: Seq<char>, c: Seq<char>)
    ensures
        folder_before(a, b) && folder_before(b, c) ==> folder_before(a, c),
        a != b ==> folder_before(a, b) || folder_before(b, a),
        !(folder_before(a, b) && folder_before(b, a)),
        !folder_before(a, a),
{
    lemma_lex_total(a, b);
    if lex_le(a, b) && lex_le(b, a) {
        lemma_lex_antisym(a, b);
    }
    if folder_before(a, b) && folder_before(b, c) && folder_rank(a) == folder_rank(c) {
        lemma_lex_trans(a, b, c);
        if a == c {
            lemma_lex_antisym(a, b);
        }
    }
}

fn folder_rank_exec(c: &str) -> (r: u8)
    ensures
        r as nat == folder_rank(c@),
{
    let v = chars_of(c);
    if eq_str(&v, "Accessories") {
        0
    } else if eq_str(&v, "Internet") {
        1
    } else if eq_str(&v, "Office") {
        2
    } else if eq_str(&v, "Graphics") {
        3
    } else if eq_str(&v, "Multimedia") {
        4
    } else if eq_str(&v, "Programming") {
        5
    } else if eq_str(&v, "Games") {
        6
    } else if eq_str(&v, "Other") {
        7
    } else {
        8
    }
}

fn folder_before_exec(a: &str, b: &str) -> (r: bool)
    ensures
        r == folder_before(a@, b@),
{
    let ra = folder_rank_exec(a);
    let rb = folder_rank_exec(b);
    if ra != rb {
        return ra < rb;
    }
    let av = chars_of(a);
    let bv = chars_of(b);
    lex_le_chars(&av, &bv) && !eq_chars(&av, &bv)
}

/// The distinct folders of the found entries, in menu order.
fn folders_of(found: &Vec<(App, String)>) -> (r: Vec<String>)
    ensures
        forall|i: int, j: int| 0 <= i < j < r@.len() ==> folder_before((#[trigger] r@[i])@, (#[trigger] r@[j])@),
        forall|c: Seq<char>| #[trigger] listed(r@, c) <==> found_has(found@, found@.len() as int, c),
{
    let mut r: Vec<String> = Vec::new();
    let mut k: usize = 0;
    while k < found.len()
        invariant
            k <= found.len(),
            forall|i: int, j: int| 0 <= i < j < r@.len() ==> folder_before((#[trigger] r@[i])@, (#[trigger] r@[j])@),
            forall|c: Seq<char>| #[trigger] listed(r@, c) <==> found_has(found@, k as int, c),
        decreases found.len() - k,
    {
        let c = &found[k].1;
        let mut p: usize = 0;
        while p < r.len() && folder_before_exec(r[p].as_str(), c.as_str())
            invariant
                p <= r@.len(),
                forall|i: int| 0 <= i < p ==> folder_before((#[trigger] r@[i])@, c@),
            decreases r.len() - p,
        {
            p += 1;
        }
        let dup = p < r.len() && eq_chars(&chars_of(r[p].as_str()), &chars_of(c.as_str()));
        let ghost r0 = r@;
        if !dup {
            proof {
                if p < r0.len() {
                    lemma_folder_order(r0[p as int]@, c@, c@);
                }
                assert forall|i: int| p <= i < r0.len() implies folder_before(c@, #[trigger] r0[i]@) by {
                    lemma_folder_order(r0[p as int]@, c@, c@);
                    lemma_folder_order(c@, r0[p as int]@, r0[i]@);
                }
                assert forall|i: int| 0 <= i < p implies !(#[trigger] r0[i]@ == c@) by {
                    lemma_folder_order(c@, c@, c@);
                }
            }
            r.insert(p, c.clone());
            proof {
                assert forall|i: int, j: int| 0 <= i < j < r@.len() implies
                    folder_before((#[trigger] r@[i])@, (#[trigger] r@[j])@) by {
                    if i < p && j == p {
                    } else if i == p {
                        assert(r@[j] == r0[j - 1]);
                    } else if j < p {
                        assert(r@[i] == r0[i] && r@[j] == r0[j]);
                    } else if i < p {
                        assert(r@[i] == r0[i] && r@[j] == r0[j - 1]);
                        lemma_folder_order(r0[i]@, c@, r0[j - 1]@);
                    } else {
                        assert(r@[i] == r0[i - 1] && r@[j] == r0[j - 1]);
                    }
                }
                assert forall|x: Seq<char>| #[trigger] listed(r@, x) <==> found_has(found@, k + 1, x) by {
                    if listed(r@, x) {
                        let i = choose|i: int| 0 <= i < r@.len() && (#[trigger] r@[i])@ == x;
                        if i < p {
                            assert(r0[i]@ == x);
                            assert(listed(r0, x));
                        } else if i == p {
                            assert(found@[k as int].1@ == x);
                        } else {
                            assert(r0[i - 1]@ == x);
                            assert(listed(r0, x));
                        }
                    }
                    if found_has(found@, k + 1, x) {
                        let j = choose|j: int| 0 <= j < k + 1 && (#[trigger] found@[j]).1@ == x;
                        if j == k {
                            assert(r@[p as int]@ == x);
                        } else {
                            assert(found_has(found@, k as int, x));
                            assert(listed(r0, x));
                            let i = choose|i: int| 0 <= i < r0.len() && (#[trigger] r0[i])@ == x;
                            if i < p {
                                assert(r@[i] == r0[i]);
                            } else {
                                assert(r@[i + 1] == r0[i]);
                            }
                        }
                    }
                }
            }
        } else {
            proof {
                assert(r0[p as int]@ == c@);
                assert forall|x: Seq<char>| #[trigger] listed(r@, x) <==> found_has(found@, k + 1, x) by {
                    if found_has(found@, k + 1, x) {
                        let j = choose|j: int| 0 <= j < k + 1 && (#[trigger] found@[j]).1@ == x;
                        if j == k {
                            assert(r@[p as int]@ == x);
                        } else {
                            assert(found_has(found@, k as int, x));
                        }
                    }
                    if listed(r@, x) {
                        assert(found_has(found@, k as int, x));
                    }
                }
            }
        }
        k += 1;
    }
    r
}

fn clone_app(a: &App) -> (r: App)
    ensures
        app_view(r) == app_view(*a),
{
    App { name: a.name.clone(), command: a.command.clone(), terminal: a.terminal }
}

proof fn lemma_with_key_push(s: Seq<(Seq<char>, Seq<char>, bool)>, x: (Seq<char>, Seq<char>, bool), k: Seq<char>)
    ensures
        with_key(s.push(x), k) == if name_key(x) == k { with_key(s, k).push(x) } else { with_key(s, k) },
{
    reveal(Seq::filter);
    assert(s.push(x).drop_last() =~= s);
}

proof fn lemma_with_key_none(s: Seq<(Seq<char>, Seq<char>, bool)>, k: Seq<char>)
    requires
        forall|i: int| 0 <= i < s.len() ==> name_key(#[trigger] s[i]) != k,
    ensures
        with_key(s, k) == Seq::<(Seq<char>, Seq<char>, bool)>::empty(),
    decreases s.len(),
{
    reveal(Seq::filter);
    if s.len() > 0 {
        lemma_with_key_none(s.drop_last(), k);
        assert(s.drop_last().push(s.last()) =~= s);
    }
}

/// Inserting after every element whose key is no greater keeps a stable
/// sort stable.
proof fn lemma_stable_insert(s: Seq<(Seq<char>, Seq<char>, bool)>, t: Seq<(Seq<char>, Seq<char>, bool)>,
    x: (Seq<char>, Seq<char>, bool), p: int)
    requires
        stable_sort_of(s, t),
        0 <= p <= t.len(),
        forall|i: int| 0 <= i < p ==> lex_le(name_key(#[trigger] t[i]), name_key(x)),
        p < t.len() ==> !lex_le(name_key(t[p]), name_key(x)),
    ensures
        stable_sort_of(s.push(x), t.insert(p, x)),
{
    let t2 = t.insert(p, x);
    let kx = name_key(x);
    assert forall|i: int| p <= i < t.len() implies !lex_le(name_key(#[trigger] t[i]), kx) && name_key(t[i]) != kx by {
        if i > p && lex_le(name_key(t[i]), kx) {
            lemma_lex_trans(name_key(t[p]), name_key(t[i]), kx);
        }
        if name_key(t[i]) == kx {
            lemma_lex_refl(kx);
        }
    }
    assert forall|i: int, j: int| 0 <= i < j < t2.len() implies lex_le(name_key(#[trigger] t2[i]), name_key(#[trigger] t2[j])) by {
        if i < p && j == p {
        } else if i == p {
            assert(t2[j] == t[j - 1]);
            lemma_lex_total(name_key(t[j - 1]), kx);
        } else if j < p {
            assert(t2[i] == t[i] && t2[j] == t[j]);
        } else if i < p {
            assert(t2[i] == t[i] && t2[j] == t[j - 1]);
            lemma_lex_total(name_key(t[j - 1]), kx);
            lemma_lex_trans(name_key(t[i]), kx, name_key(t[j - 1]));
        } else {
            assert(t2[i] == t[i - 1] && t2[j] == t[j - 1]);
        }
    }
    let a = t.take(p);
    let b = t.skip(p);
    assert(t =~= a + b);
    assert(t2 =~= a + seq![x] + b);
    assert forall|k: Seq<char>| #[trigger] with_key(t2, k) == with_key(s.push(x), k) by {
        Seq::filter_distributes_over_add(a + seq![x], b, |m: (Seq<char>, Seq<char>, bool)| name_key(m) == k);
        Seq::filter_distributes_over_add(a, seq![x], |m: (Seq<char>, Seq<char>, bool)| name_key(m) == k);
        Seq::filter_distributes_over_add(a, b, |m: (Seq<char>, Seq<char>, bool)| name_key(m) == k);
        lemma_with_key_push(s, x, k);
        lemma_with_key_push(Seq::<(Seq<char>, Seq<char>, bool)>::empty(), x, k);
        assert(Seq::<(Seq<char>, Seq<char>, bool)>::empty().push(x) =~= seq![x]);
        assert(with_key(Seq::<(Seq<char>, Seq<char>, bool)>::empty(), k) =~= Seq::<(Seq<char>, Seq<char>, bool)>::empty()) by {
            reveal(Seq::filter);
        }
        assert(with_key(t, k) == with_key(s, k));
        if k == kx {
            assert forall|i: int| 0 <= i < b.len() implies name_key(#[trigger] b[i]) != k by {
                assert(b[i] == t[p + i]);
            }
            lemma_with_key_none(b, k);
            assert(with_key(t2, k) =~= with_key(a, k).push(x));
            assert(with_key(t, k) =~= with_key(a, k));
        } else {
            assert(with_key(t2, k) =~= with_key(a, k) + with_key(b, k));
        }
    }
}

/// The applications filed under `c`, sorted by lowercased name (equal
/// names in the order found) with repeated names dropped.
fn group_for(found: &Vec<(App, String)>, c: &str) -> (g: Vec<App>)
    ensures
        group_of(found@, c@, g@),
{
    let cv = chars_of(c);
    let mut t: Vec<App> = Vec::new();
    let mut k: usize = 0;
    assert(found@.take(0).filter(|p: (App, String)| p.1@ == c@) =~= Seq::<(App, String)>::empty()) by {
        reveal(Seq::filter);
    }
    assert(apps_in(found@.take(0), c@) =~= Seq::<(Seq<char>, Seq<char>, bool)>::empty());
    assert(stable_sort_of(apps_in(found@.take(0), c@), app_views(t@))) by {
        assert(app_views(t@) =~= Seq::<(Seq<char>, Seq<char>, bool)>::empty());
    }
    while k < found.len()
        invariant
            k <= found.len(),
            cv@ == c@,
            stable_sort_of(apps_in(found@.take(k as int), c@), app_views(t@)),
        decreases found.len() - k,
    {
        proof {
            reveal(Seq::filter);
            assert(found@.take(k + 1).drop_last() =~= found@.take(k as int));
            assert(found@.take(k + 1).last() == found@[k as int]);
        }
        if eq_chars(&chars_of(found[k].1.as_str()), &cv) {
            let x = clone_app(&found[k].0);
            let xk = to_lowercase(&chars_of(x.name.as_str()));
            let mut p: usize = 0;
            while p < t.len() && lex_le_chars(&to_lowercase(&chars_of(t[p].name.as_str())), &xk)
                invariant
                    p <= t.len(),
                    xk@ == lowercase(x.name@),
                    forall|i: int| 0 <= i < p ==> lex_le(name_key(#[trigger] app_views(t@)[i]), name_key(app_view(x))),
                decreases t.len() - p,
            {
                assert(app_views(t@)[p as int] == app_view(t@[p as int]));
                p += 1;
            }
            let ghost before = app_views(t@);
            let ghost s0 = apps_in(found@.take(k as int), c@);
            proof {
                if p < t.len() {
                    assert(before[p as int] == app_view(t@[p as int]));
                }
                lemma_stable_insert(s0, before, app_view(x), p as int);
                assert(found@.take(k + 1).filter(|q: (App, String)| q.1@ == c@)
                    =~= found@.take(k as int).filter(|q: (App, String)| q.1@ == c@).push(found@[k as int]));
                assert(apps_in(found@.take(k + 1), c@) =~= s0.push(app_view(x)));
            }
            t.insert(p, x);
            assert(app_views(t@) =~= before.insert(p as int, app_view(x)));
        } else {
            proof {
                assert(found@.take(k + 1).filter(|q: (App, String)| q.1@ == c@)
                    =~= found@.take(k as int).filter(|q: (App, String)| q.1@ == c@));
                assert(apps_in(found@.take(k + 1), c@) =~= apps_in(found@.take(k as int), c@));
            }
        }
        k += 1;
    }
    assert(found@.take(found.len() as int) =~= found@);
    let ghost tv = app_views(t@);
    let mut g: Vec<App> = Vec::new();
    let mut i: usize = 0;
    assert(tv.take(0) =~= Seq::<(Seq<char>, Seq<char>, bool)>::empty());
    while i < t.len()
        invariant
            i <= t.len(),
            tv == app_views(t@),
            app_views(g@) == dedup_names(tv.take(i as int)),
        decreases t.len() - i,
    {
        let ghost prev = app_views(g@);
        assert(tv.take(i + 1).drop_last() =~= tv.take(i as int));
        assert(tv.take(i + 1).last() == app_view(t@[i as int]));
        if i == 0 {
            g.push(clone_app(&t[i]));
            assert(tv.take(1) =~= seq![app_view(t@[0])]);
            assert(app_views(g@) =~= seq![app_view(t@[0])]);
        } else {
            assert(tv.take(i + 1)[i - 1] == app_view(t@[i - 1]));
            if !eq_chars(&chars_of(t[i].name.as_str()), &chars_of(t[i - 1].name.as_str())) {
                g.push(clone_app(&t[i]));
                assert(app_views(g@) =~= prev.push(app_view(t@[i as int])));
            }
        }
        i += 1;
    }
    assert(tv.take(t.len() as int) =~= tv);
    assert(stable_sort_of(apps_in(found@, c@), tv) && app_views(g@) == dedup_names(tv));
    g
}

/// The Programs menu from the found `.desktop` entries and their folders:
/// each folder once, in menu order, with its applications sorted by name
/// and repeated names dropped.
pub fn programs(found: &Vec<(App, String)>) -> (out: Vec<(String, Vec<App>)>)
    ensures
        programs_spec(found@, out@),
{
    let folders = folders_of(found);
    let mut out: Vec<(String, Vec<App>)> = Vec::new();
    let mut i: usize = 0;
    while i < folders.len()
        invariant
            i <= folders.len(),
            out@.len() == i,
            forall|a: int, b: int| 0 <= a < b < folders@.len() ==> folder_before((#[trigger] folders@[a])@, (#[trigger] folders@[b])@),
            forall|c: Seq<char>| #[trigger] listed(folders@, c) <==> found_has(found@, found@.len() as int, c),
            forall|j: int| 0 <= j < i ==> (#[trigger] out@[j]).0@ == folders@[j]@,
            forall|j: int| 0 <= j < i ==> #[trigger] group_of(found@, out@[j].0@, out@[j].1@),
        decreases folders.len() - i,
    {
        let g = group_for(found, folders[i].as_str());
        out.push((folders[i].clone(), g));
        i += 1;
    }
    proof {
        assert forall|a: int, b: int| 0 <= a < b < out@.len() implies folder_before((#[trigger] out@[a]).0@, (#[trigger] out@[b]).0@) by {
            assert(out@[a].0@ == folders@[a]@ && out@[b].0@ == folders@[b]@);
        }
        assert forall|c: Seq<char>| #[trigger] out_has(out@, c) <==> found_has(found@, found@.len() as int, c) by {
            if out_has(out@, c) {
                let j = choose|j: int| 0 <= j < out@.len() && (#[trigger] out@[j]).0@ == c;
                assert(folders@[j]@ == c);
                assert(listed(folders@, c));
            }
            if found_has(found@, found@.len() as int, c) {
                assert(listed(folders@, c));
                let j = choose|j: int| 0 <= j < folders@.len() && (#[trigger] folders@[j])@ == c;
                assert(out@[j].0@ == c);
            }
        }
    }
    out
}

} // verus!
