//! The classic Open/Save dialog: its file-type filters (parsed from
//! `"Images:png,jpg;All Files:*"`), which names a filter accepts, sizes and
//! image detection, the places bar, and new-folder naming.

use vstd::prelude::*;
use crate::files::{extension, extension_spec, join_path, join_path_str, Entry};
use crate::explorer::{sort_entries, sorted_by, path_parent, parent_of, find_path, first_with_path};
use crate::text::{chars_of, eq_str, find, join, lower_ascii, lower_ascii_chars, push_dec, push_str,
    split_char, split_chars, string_of, trim, trim_chars, views, dec, strip_leading};

verus! {

/// One file-type filter.
pub struct Filter {
    pub label: String,
    /// Lowercased extensions, or a single "*" meaning all files.
    pub exts: Vec<String>,
}

pub open spec fn ext_views(f: Filter) -> Seq<Seq<char>> {
    f.exts@.map_values(|e: String| e@)
}

/// The extension a filter compares: the file name's, ASCII-lowercased
/// (empty when there is none).
pub open spec fn name_ext(name: Seq<char>) -> Seq<char> {
    lower_ascii(match extension_spec(name) { Some(x) => x, None => seq![] })
}

/// A filter accepts every name when it lists `*`, else the names whose
/// extension it lists.
pub open spec fn accepts_spec(exts: Seq<Seq<char>>, name: Seq<char>) -> bool {
    exts.contains("*"@) || exts.contains(name_ext(name))
}

/// The pattern shown for a filter: `*.*`, or `*.a;*.b`.
pub open spec fn pattern_spec(exts: Seq<Seq<char>>) -> Seq<char> {
    if exts.contains("*"@) {
        "*.*"@
    } else {
        join(exts.map_values(|e: Seq<char>| "*."@ + e), ";"@)
    }
}

fn has_ext(exts: &Vec<String>, e: &Vec<char>) -> (b: bool)
    ensures
        b == exts@.map_values(|x: String| x@).contains(e@),
{
    let ghost v = exts@.map_values(|x: String| x@);
    let mut i: usize = 0;
    while i < exts.len()
        invariant
            i <= exts.len(),
            v == exts@.map_values(|x: String| x@),
            forall|k: int| 0 <= k < i ==> v[k] != e@,
        decreases exts.len() - i,
    {
        let x = chars_of(exts[i].as_str());
        if crate::text::eq_chars(&x, e) {
            assert(v[i as int] == e@);
            return true;
        }
        i += 1;
    }
    false
}

impl Filter {
    /// Whether the filter accepts a file name.
    pub fn accepts(&self, name: &str) -> (b: bool)
        ensures
            b == accepts_spec(ext_views(*self), name@),
    {
        let star = chars_of("*");
        if has_ext(&self.exts, &star) {
            return true;
        }
        let raw = match extension(name) {
            Some(x) => x,
            None => Vec::new(),
        };
        let ext = lower_ascii_chars(&raw);
        has_ext(&self.exts, &ext)
    }

    /// "*.*" or "*.png;*.jpg".
    pub fn pattern(&self) -> (p: String)
        ensures
            p@ == pattern_spec(ext_views(*self)),
    {
        let star = chars_of("*");
        if has_ext(&self.exts, &star) {
            return "*.*".to_owned();
        }
        let ghost ev = ext_views(*self);
        let mut parts: Vec<Vec<char>> = Vec::new();
        let mut i: usize = 0;
        while i < self.exts.len()
            invariant
                i <= self.exts.len(),
                ev == ext_views(*self),
                views(parts@) == ev.take(i as int).map_values(|e: Seq<char>| "*."@ + e),
            decreases self.exts.len() - i,
        {
            let mut p = chars_of("*.");
            let e = chars_of(self.exts[i].as_str());
            let ghost p0 = p@;
            let mut k: usize = 0;
            while k < e.len()
                invariant
                    k <= e.len(),
                    p@ == p0 + e@.take(k as int),
                decreases e.len() - k,
            {
                p.push(e[k]);
                assert(e@.take(k + 1) =~= e@.take(k as int).push(e@[k as int]));
                k += 1;
            }
            assert(e@.take(e.len() as int) =~= e@);
            let ghost before = views(parts@);
            parts.push(p);
            assert(views(parts@) =~= before.push("*."@ + ev[i as int]));
            assert(ev.take(i + 1).map_values(|e: Seq<char>| "*."@ + e)
                =~= ev.take(i as int).map_values(|e: Seq<char>| "*."@ + e).push("*."@ + ev[i as int]));
            i += 1;
        }
        assert(ev.take(self.exts.len() as int) =~= ev);
        let j = crate::text::join_chars(&parts, ";");
        string_of(&j)
    }
}

/// One `,`-separated extension of a filter group: trimmed, leading dots
/// dropped, ASCII-lowercased.
pub open spec fn clean_ext(e: Seq<char>) -> Seq<char> {
    lower_ascii(strip_leading(trim(e), '.'))
}

/// The extensions of a group's extension list, empty ones dropped; `*` when
/// none is left.
pub open spec fn group_exts(list: Seq<char>) -> Seq<Seq<char>> {
    let es = split_char(list, ',').map_values(|e: Seq<char>| clean_ext(e)).filter(|e: Seq<char>| e.len() > 0);
    if es.len() == 0 { seq!["*"@] } else { es }
}

/// A `label:exts` group: its label and extensions (`*` when there is no
/// `:`).
pub open spec fn group_parts(g: Seq<char>) -> (Seq<char>, Seq<char>) {
    let p = split_char(g, ':');
    if p.len() > 1 { (p[0], g.skip(p[0].len() as int + 1)) } else { (g, "*"@) }
}

/// The filter of one group: "Label (pattern)" and its extensions.
pub open spec fn group_filter(g: Seq<char>) -> (Seq<char>, Seq<Seq<char>>) {
    let (label, list) = group_parts(g);
    let exts = group_exts(list);
    (trim(label) + " ("@ + pattern_spec(exts) + ")"@, exts)
}

/// The filters of a spec: one per non-blank `;` group; All Files when there
/// is none.
pub open spec fn parse_filters_spec(spec: Seq<char>) -> Seq<(Seq<char>, Seq<Seq<char>>)> {
    let gs = split_char(spec, ';').filter(|g: Seq<char>| trim(g).len() > 0).map_values(|g: Seq<char>| group_filter(g));
    if gs.len() == 0 { seq![("All Files (*.*)"@, seq!["*"@])] } else { gs }
}

pub open spec fn filter_view(f: Filter) -> (Seq<char>, Seq<Seq<char>>) {
    (f.label@, ext_views(f))
}

pub open spec fn filter_views(v: Seq<Filter>) -> Seq<(Seq<char>, Seq<Seq<char>>)> {
    v.map_values(|f: Filter| filter_view(f))
}

/// `e` cleaned: trimmed, leading dots dropped, ASCII-lowercased.
fn clean_ext_chars(e: &Vec<char>) -> (r: Vec<char>)
    ensures
        r@ == clean_ext(e@),
{
    let t = trim_chars(e);
    let mut lo: usize = 0;
    assert(t@.skip(0) =~= t@);
    while lo < t.len() && t[lo] == '.'
        invariant
            lo <= t.len(),
            strip_leading(t@, '.') == strip_leading(t@.skip(lo as int), '.'),
        decreases t.len() - lo,
    {
        assert(t@.skip(lo as int).drop_first() =~= t@.skip(lo + 1));
        lo += 1;
    }
    assert(lo < t.len() ==> t@.skip(lo as int)[0] != '.');
    assert(strip_leading(t@.skip(lo as int), '.') == t@.skip(lo as int));
    let rest = crate::text::slice_chars(&t, lo, t.len());
    assert(rest@ =~= t@.skip(lo as int));
    lower_ascii_chars(&rest)
}

/// The extensions of a group's extension list.
fn group_exts_exec(list: &Vec<char>) -> (r: Vec<String>)
    ensures
        r@.map_values(|x: String| x@) == group_exts(list@),
{
    let pieces = split_chars(list, ',');
    let ghost cleaned = split_char(list@, ',').map_values(|e: Seq<char>| clean_ext(e));
    let mut out: Vec<String> = Vec::new();
    let mut i: usize = 0;
    proof {
        reveal(Seq::filter);
    }
    assert(cleaned.take(0) =~= Seq::<Seq<char>>::empty());
    while i < pieces.len()
        invariant
            i <= pieces.len(),
            views(pieces@) == split_char(list@, ','),
            cleaned == split_char(list@, ',').map_values(|e: Seq<char>| clean_ext(e)),
            out@.map_values(|x: String| x@) == cleaned.take(i as int).filter(|e: Seq<char>| e.len() > 0),
        decreases pieces.len() - i,
    {
        proof {
            reveal(Seq::filter);
        }
        assert(cleaned.take(i + 1).drop_last() =~= cleaned.take(i as int));
        assert(cleaned.take(i + 1).last() == clean_ext(pieces@[i as int]@));
        let c = clean_ext_chars(&pieces[i]);
        if c.len() > 0 {
            let ghost before = out@.map_values(|x: String| x@);
            out.push(string_of(&c));
            assert(out@.map_values(|x: String| x@) =~= before.push(c@));
        }
        i += 1;
    }
    assert(cleaned.take(pieces.len() as int) =~= cleaned);
    if out.len() == 0 {
        let r = vec!["*".to_owned()];
        assert(r@.map_values(|x: String| x@) =~= seq!["*"@]);
        r
    } else {
        out
    }
}

proof fn lemma_split_head(g: Seq<char>, c: char)
    requires
        split_char(g, c).len() > 1,
    ensures
        split_char(g, c)[0].len() < g.len(),
        g[split_char(g, c)[0].len() as int] == c,
{
    match find(g, seq![c]) {
        Some(i) => {
            if 0 <= i < g.len() {
                assert(split_char(g, c)[0] == g.subrange(0, i));
                assert(crate::text::occurs_at(g, seq![c], i));
                assert(g.subrange(i, i + 1)[0] == g[i]);
            } else {
                assert(split_char(g, c).len() == 1);
            }
        }
        None => {
            assert(split_char(g, c).len() == 1);
        }
    }
}

/// The filter of one `label:exts` group.
fn group_filter_exec(g: &Vec<char>) -> (f: Filter)
    ensures
        filter_view(f) == group_filter(g@),
{
    let parts = split_chars(g, ':');
    let (label, list) = if parts.len() > 1 {
        proof {
            lemma_split_head(g@, ':');
        }
        assert(views(parts@)[0] == parts@[0]@);
        let n = parts[0].len();
        let l = crate::text::slice_chars(&parts[0], 0, n);
        assert(parts@[0]@.subrange(0, n as int) =~= parts@[0]@);
        let gl = g.len();
        assert(n + 1 <= gl);
        let rest = crate::text::slice_chars(g, n + 1, gl);
        assert(rest@ =~= g@.skip(n as int + 1));
        (l, rest)
    } else {
        let l = crate::text::slice_chars(g, 0, g.len());
        assert(g@.subrange(0, g@.len() as int) =~= g@);
        (l, chars_of("*"))
    };
    let exts = group_exts_exec(&list);
    let tmp = Filter { label: String::new(), exts };
    let pat = tmp.pattern();
    let lt = trim_chars(&label);
    let mut lab = string_of(&lt);
    push_str(&mut lab, " (");
    push_str(&mut lab, pat.as_str());
    push_str(&mut lab, ")");
    Filter { label: lab, exts: tmp.exts }
}

/// Parse `"Images:png,jpg;All Files:*"` into filters; All Files when empty.
pub fn parse_filters(spec: &str) -> (r: Vec<Filter>)
    ensures
        filter_views(r@) == parse_filters_spec(spec@),
{
    let v = chars_of(spec);
    let groups = split_chars(&v, ';');
    let ghost gs = split_char(spec@, ';');
    let mut out: Vec<Filter> = Vec::new();
    let mut i: usize = 0;
    proof {
        reveal(Seq::filter);
    }
    assert(gs.take(0) =~= Seq::<Seq<char>>::empty());
    while i < groups.len()
        invariant
            i <= groups.len(),
            views(groups@) == gs,
            gs == split_char(spec@, ';'),
            filter_views(out@) == gs.take(i as int).filter(|g: Seq<char>| trim(g).len() > 0)
                .map_values(|g: Seq<char>| group_filter(g)),
        decreases groups.len() - i,
    {
        proof {
            reveal(Seq::filter);
        }
        assert(gs.take(i + 1).drop_last() =~= gs.take(i as int));
        assert(gs.take(i + 1).last() == groups@[i as int]@);
        let t = trim_chars(&groups[i]);
        if t.len() > 0 {
            let f = group_filter_exec(&groups[i]);
            let ghost before = filter_views(out@);
            let ghost kept = gs.take(i as int).filter(|g: Seq<char>| trim(g).len() > 0);
            out.push(f);
            assert(filter_views(out@) =~= before.push(group_filter(groups@[i as int]@)));
            assert(gs.take(i + 1).filter(|g: Seq<char>| trim(g).len() > 0) == kept.push(groups@[i as int]@));
            assert(kept.push(groups@[i as int]@).map_values(|g: Seq<char>| group_filter(g))
                =~= kept.map_values(|g: Seq<char>| group_filter(g)).push(group_filter(groups@[i as int]@)));
        }
        i += 1;
    }
    assert(gs.take(groups.len() as int) =~= gs);
    if out.len() == 0 {
        let f = Filter { label: "All Files (*.*)".to_owned(), exts: vec!["*".to_owned()] };
        assert(ext_views(f) =~= seq!["*"@]);
        let r = vec![f];
        assert(filter_views(r@) =~= seq![("All Files (*.*)"@, seq!["*"@])]);
        r
    } else {
        out
    }
}

/// "N KB": the size in KiB, rounded up.
pub fn human_size(bytes: u64) -> (s: String)
    ensures
        s@ == dec(((bytes as int + 1023) / 1024) as nat) + " KB"@,
{
    let kb = bytes / 1024 + if bytes % 1024 != 0 { 1 } else { 0 };
    assert(kb == (bytes as int + 1023) / 1024);
    let mut s = String::new();
    push_dec(&mut s, kb);
    push_str(&mut s, " KB");
    s
}

/// Whether a file name looks like an image (by its extension).
pub fn is_image(name: &str) -> (b: bool)
    ensures
        b == seq!["png"@, "jpg"@, "jpeg"@, "bmp"@, "webp"@, "gif"@].contains(name_ext(name@)),
{
    let raw = match extension(name) {
        Some(x) => x,
        None => Vec::new(),
    };
    let ext = lower_ascii_chars(&raw);
    let r = eq_str(&ext, "png") || eq_str(&ext, "jpg") || eq_str(&ext, "jpeg") || eq_str(&ext, "bmp")
        || eq_str(&ext, "webp") || eq_str(&ext, "gif");
    proof {
        let s = seq!["png"@, "jpg"@, "jpeg"@, "bmp"@, "webp"@, "gif"@];
        if r {
            if ext@ == "png"@ { assert(s[0] == ext@); }
            if ext@ == "jpg"@ { assert(s[1] == ext@); }
            if ext@ == "jpeg"@ { assert(s[2] == ext@); }
            if ext@ == "bmp"@ { assert(s[3] == ext@); }
            if ext@ == "webp"@ { assert(s[4] == ext@); }
            if ext@ == "gif"@ { assert(s[5] == ext@); }
        }
    }
    r
}

/// The name of the `n`-th new folder: "New Folder", then "New Folder (n)".
pub open spec fn new_folder_name(n: nat) -> Seq<char> {
    if n <= 1 { "New Folder"@ } else { "New Folder"@ + " ("@ + dec(n) + ")"@ }
}

/// The new folder to create in `dir`: the first of "New Folder", "New Folder
/// (2)" ... "New Folder (999)" that does not exist (`taken[k]` for the
/// (k+1)-th), else "New Folder".
pub fn unique_new_folder(dir: &str, taken: &Vec<bool>) -> (p: String)
    requires
        taken@.len() == 999,
    ensures
        p@ == join_path(dir@, new_folder_name(
            if exists|k: int| 0 <= k < 999 && !taken@[k] {
                (choose|k: int| 0 <= k < 999 && !taken@[k] && forall|j: int| 0 <= j < k ==> taken@[j]) + 1
            } else {
                1
            } as nat)),
{
    let mut k: usize = 0;
    while k < 999
        invariant
            k <= 999,
            taken@.len() == 999,
            forall|j: int| 0 <= j < k ==> taken@[j],
        decreases 999 - k,
    {
        if !taken[k] {
            proof {
                let c = choose|c: int| 0 <= c < 999 && !taken@[c] && forall|j: int| 0 <= j < c ==> taken@[j];
                assert(0 <= c < 999 && !taken@[c]);
                if c < k {
                    assert(taken@[c]);
                } else if k < c {
                    assert(taken@[k as int]);
                }
            }
            return folder_path(dir, k as u64 + 1);
        }
        k += 1;
    }
    folder_path(dir, 1)
}

fn folder_path(dir: &str, n: u64) -> (p: String)
    ensures
        p@ == join_path(dir@, new_folder_name(n as nat)),
{
    let mut name = "New Folder".to_owned();
    if n > 1 {
        push_str(&mut name, " (");
        push_dec(&mut name, n);
        push_str(&mut name, ")");
    }
    join_path_str(dir, name.as_str())
}

// --- the dialog ---------------------------------------------------------------------

/// A name the dialog hides: a dotfile.
pub open spec fn hidden(name: Seq<char>) -> bool {
    name.len() > 0 && name[0] == '.'
}

/// An entry the dialog lists under filter `f`: not hidden, and a folder or a
/// file the filter accepts.
pub open spec fn shown(f: Filter, e: Entry) -> bool {
    !hidden(e.name@) && (e.is_dir || accepts_spec(ext_views(f), e.name@))
}

/// `r` is the listing of the folder entries `raw` under filter `f`: the
/// shown entries, folders first, each group by lowercased name.
pub open spec fn is_listing(r: Seq<Entry>, raw: Seq<Entry>, f: Filter) -> bool {
    &&& r.to_multiset() == raw.filter(|e: Entry| shown(f, e)).to_multiset()
    &&& sorted_by(0, false, r)
}

/// The folder's entries as the dialog lists them.
pub fn dialog_listing(raw: &Vec<Entry>, f: &Filter) -> (r: Vec<Entry>)
    ensures
        is_listing(r@, raw@, *f),
{
    let mut v: Vec<Entry> = Vec::new();
    let mut i: usize = 0;
    proof {
        reveal(Seq::filter);
    }
    assert(raw@.take(0) =~= Seq::<Entry>::empty());
    while i < raw.len()
        invariant
            i <= raw.len(),
            v@ == raw@.take(i as int).filter(|e: Entry| shown(*f, e)),
        decreases raw.len() - i,
    {
        proof {
            reveal(Seq::filter);
            assert(raw@.take(i + 1).drop_last() =~= raw@.take(i as int));
            assert(raw@.take(i + 1).last() == raw@[i as int]);
        }
        let e = &raw[i];
        let name = chars_of(e.name.as_str());
        let dot = name.len() > 0 && name[0] == '.';
        if !dot && (e.is_dir || f.accepts(e.name.as_str())) {
            let c = Entry { name: e.name.clone(), path: e.path.clone(), is_dir: e.is_dir, size: e.size };
            assert(c == raw@[i as int]);
            v.push(c);
        }
        i += 1;
    }
    assert(raw@.take(raw.len() as int) =~= raw@);
    sort_entries(v, 0, false)
}

/// The Open/Save dialog.
pub struct FileDialog {
    pub save: bool,
    pub current: String,
    pub entries: Vec<Entry>,
    pub selected: Option<usize>,
    /// The last single click: the row and when, in milliseconds.
    pub last_click: Option<(usize, u64)>,
    pub filename: String,
    pub filters: Vec<Filter>,
    pub filter_idx: usize,
    /// Details view rather than the list.
    pub details: bool,
}

/// What the user did, or what the shell reports back.
pub enum DlgMsg {
    /// A folder picked in the Look-in list.
    LookIn(String),
    /// A places-bar button, with its folder when there is one.
    Place(Option<String>),
    Up,
    NewFolder,
    /// The new folder, when it could be made, and the folder read again.
    FolderMade { path: Option<String>, raw: Vec<Entry> },
    ToggleView,
    /// A click on row `index` at `now_ms`.
    ClickEntry { index: usize, now_ms: u64 },
    FilenameChanged(String),
    SetFilter(usize),
    /// The current folder's entries, read.
    Listed(Vec<Entry>),
    Accept,
    /// Whether the chosen path is a folder.
    Probed { path: String, is_dir: bool },
    Cancel,
}

/// What the shell must do next.
pub enum DlgEffect {
    Nothing,
    /// Read the current folder; hand back `Listed`.
    Read,
    /// Create the next free "New Folder" in the current folder and read it
    /// again; hand back `FolderMade`.
    MakeFolder,
    /// Find out whether a path is a folder; hand back `Probed`.
    Probe(String),
    /// Print the chosen path and exit with success.
    Choose(String),
    /// Exit with failure.
    Cancel,
}

/// There is a filter and the active one is one of them.
pub open spec fn dlg_wf(d: FileDialog) -> bool {
    d.filters@.len() > 0 && d.filter_idx < d.filters@.len()
}

/// Nothing but the listed parts changes: the mode and the filters never do.
pub open spec fn dlg_fixed(o: FileDialog, f: FileDialog) -> bool {
    f.save == o.save && filter_views(f.filters@) == filter_views(o.filters@)
}

/// Every part of the dialog is as it was.
pub open spec fn dlg_same(o: FileDialog, f: FileDialog) -> bool {
    &&& f.current@ == o.current@ && f.entries@ == o.entries@ && f.selected == o.selected
    &&& f.last_click == o.last_click && f.filename@ == o.filename@ && f.filter_idx == o.filter_idx
    &&& f.details == o.details
}

/// `f` is `o` after entering folder `dir`: the selection and the file name
/// cleared, the folder to be read.
pub open spec fn dlg_entered(o: FileDialog, f: FileDialog, dir: Seq<char>) -> bool {
    &&& f.current@ == dir && f.entries@ == o.entries@ && f.selected is None
    &&& f.last_click == o.last_click && f.filename@.len() == 0 && f.filter_idx == o.filter_idx
    &&& f.details == o.details
}

/// A second click on row `i` within 400 ms (a clock that went back counts as
/// no time at all).
pub open spec fn dlg_double(last: Option<(usize, u64)>, i: usize, now_ms: u64) -> bool {
    match last {
        Some((li, lt)) => li == i && (now_ms < lt || now_ms - lt < 400),
        None => false,
    }
}

/// What Accept chooses: the typed name (absolute, or in the current folder),
/// else the selected row.
pub open spec fn accept_target(o: FileDialog) -> Option<Seq<char>> {
    let name = trim(o.filename@);
    if name.len() == 0 {
        match o.selected {
            Some(i) => if i < o.entries@.len() { Some(o.entries@[i as int].path@) } else { None },
            None => None,
        }
    } else if name[0] == '/' {
        Some(name)
    } else {
        Some(join_path(o.current@, name))
    }
}

/// The dialog after one message, and what the shell must do next.
pub open spec fn dlg_step(o: FileDialog, msg: DlgMsg, f: FileDialog, eff: DlgEffect) -> bool {
    &&& dlg_fixed(o, f)
    &&& match msg {
        DlgMsg::LookIn(p) => dlg_entered(o, f, p@) && eff is Read,
        DlgMsg::Place(Some(p)) => dlg_entered(o, f, p@) && eff is Read,
        DlgMsg::Place(None) => dlg_same(o, f) && eff is Nothing,
        DlgMsg::Up => match path_parent(o.current@) {
            Some(p) => dlg_entered(o, f, p) && eff is Read,
            None => dlg_same(o, f) && eff is Nothing,
        },
        DlgMsg::NewFolder => dlg_same(o, f) && eff is MakeFolder,
        DlgMsg::FolderMade { path, raw } => eff is Nothing && match path {
            Some(p) => {
                &&& is_listing(f.entries@, raw@, o.filters@[o.filter_idx as int])
                &&& first_with_path(f.entries@, p@, f.selected)
                &&& f.current@ == o.current@ && f.last_click == o.last_click && f.filename@ == o.filename@
                &&& f.filter_idx == o.filter_idx && f.details == o.details
            },
            None => dlg_same(o, f),
        },
        DlgMsg::ToggleView => eff is Nothing && f.details == !o.details && f.current@ == o.current@
            && f.entries@ == o.entries@ && f.selected == o.selected && f.last_click == o.last_click
            && f.filename@ == o.filename@ && f.filter_idx == o.filter_idx,
        DlgMsg::ClickEntry { index, now_ms } => if index < o.entries@.len() {
            let e = o.entries@[index as int];
            if dlg_double(o.last_click, index, now_ms) && e.is_dir {
                dlg_entered(o, f, e.path@) && eff is Read
            } else if dlg_double(o.last_click, index, now_ms) {
                &&& eff matches DlgEffect::Choose(p) && p@ == e.path@
                &&& f.selected == Some(index) && f.filename@ == e.name@ && f.last_click == o.last_click
                &&& f.current@ == o.current@ && f.entries@ == o.entries@ && f.filter_idx == o.filter_idx
                &&& f.details == o.details
            } else {
                &&& eff is Nothing
                &&& f.selected == Some(index) && f.filename@ == e.name@ && f.last_click == Some((index, now_ms))
                &&& f.current@ == o.current@ && f.entries@ == o.entries@ && f.filter_idx == o.filter_idx
                &&& f.details == o.details
            }
        } else {
            &&& eff is Nothing
            &&& f.selected == Some(index) && f.last_click == Some((index, now_ms)) && f.filename@ == o.filename@
            &&& f.current@ == o.current@ && f.entries@ == o.entries@ && f.filter_idx == o.filter_idx
            &&& f.details == o.details
        },
        DlgMsg::FilenameChanged(t) => eff is Nothing && f.filename@ == t@ && f.current@ == o.current@
            && f.entries@ == o.entries@ && f.selected == o.selected && f.last_click == o.last_click
            && f.filter_idx == o.filter_idx && f.details == o.details,
        DlgMsg::SetFilter(i) => {
            &&& eff is Read
            &&& f.filter_idx == if i < o.filters@.len() { i } else { (o.filters@.len() - 1) as usize }
            &&& f.selected is None && f.current@ == o.current@ && f.entries@ == o.entries@
            &&& f.last_click == o.last_click && f.filename@ == o.filename@ && f.details == o.details
        },
        DlgMsg::Listed(raw) => {
            &&& eff is Nothing && is_listing(f.entries@, raw@, o.filters@[o.filter_idx as int])
            &&& f.current@ == o.current@ && f.selected == o.selected && f.last_click == o.last_click
            &&& f.filename@ == o.filename@ && f.filter_idx == o.filter_idx && f.details == o.details
        },
        DlgMsg::Accept => dlg_same(o, f) && match accept_target(o) {
            Some(t) => eff matches DlgEffect::Probe(p) && p@ == t,
            None => eff is Nothing,
        },
        DlgMsg::Probed { path, is_dir } => if is_dir {
            dlg_entered(o, f, path@) && eff is Read
        } else {
            dlg_same(o, f) && (eff matches DlgEffect::Choose(p) && p@ == path@)
        },
        DlgMsg::Cancel => dlg_same(o, f) && eff is Cancel,
    }
}

impl FileDialog {
    /// The dialog opened on folder `current` (to be read first, `Read`).
    pub fn open(save: bool, current: String, filename: String, filters: Vec<Filter>) -> (r: (FileDialog, DlgEffect))
        requires
            filters@.len() > 0,
        ensures
            dlg_wf(r.0),
            r.0.save == save && r.0.current@ == current@ && r.0.filename@ == filename@,
            filter_views(r.0.filters@) == filter_views(filters@),
            r.0.entries@.len() == 0 && r.0.selected is None && r.0.last_click is None,
            r.0.filter_idx == 0 && !r.0.details,
            r.1 is Read,
    {
        (FileDialog { save, current, entries: Vec::new(), selected: None, last_click: None, filename, filters,
            filter_idx: 0, details: false }, DlgEffect::Read)
    }

    fn enter(&mut self, dir: String)
        ensures
            dlg_entered(*old(self), *final(self), dir@),
            final(self).save == old(self).save && final(self).filters == old(self).filters,
    {
        self.current = dir;
        self.selected = None;
        self.filename = String::new();
    }

    /// The dialog's reaction to one message.
    pub fn handle(&mut self, msg: DlgMsg) -> (eff: DlgEffect)
        requires
            dlg_wf(*old(self)),
        ensures
            dlg_wf(*final(self)),
            dlg_step(*old(self), msg, *final(self), eff),
    {
        match msg {
            DlgMsg::LookIn(p) => {
                self.enter(p);
                DlgEffect::Read
            }
            DlgMsg::Place(Some(p)) => {
                self.enter(p);
                DlgEffect::Read
            }
            DlgMsg::Place(None) => DlgEffect::Nothing,
            DlgMsg::Up => match parent_of(self.current.as_str()) {
                Some(p) => {
                    self.enter(p);
                    DlgEffect::Read
                }
                None => DlgEffect::Nothing,
            },
            DlgMsg::NewFolder => DlgEffect::MakeFolder,
            DlgMsg::FolderMade { path, raw } => {
                match path {
                    Some(p) => {
                        let listing = dialog_listing(&raw, &self.filters[self.filter_idx]);
                        self.selected = find_path(&listing, p.as_str());
                        self.entries = listing;
                    }
                    None => {}
                }
                DlgEffect::Nothing
            }
            DlgMsg::ToggleView => {
                self.details = !self.details;
                DlgEffect::Nothing
            }
            DlgMsg::ClickEntry { index, now_ms } => {
                let dbl = match self.last_click {
                    Some((li, lt)) => li == index && (now_ms < lt || now_ms - lt < 400),
                    None => false,
                };
                self.selected = Some(index);
                if index < self.entries.len() {
                    self.filename = self.entries[index].name.clone();
                    if dbl {
                        if self.entries[index].is_dir {
                            let p = self.entries[index].path.clone();
                            self.enter(p);
                            return DlgEffect::Read;
                        } else {
                            return DlgEffect::Choose(self.entries[index].path.clone());
                        }
                    }
                }
                self.last_click = Some((index, now_ms));
                DlgEffect::Nothing
            }
            DlgMsg::FilenameChanged(t) => {
                self.filename = t;
                DlgEffect::Nothing
            }
            DlgMsg::SetFilter(i) => {
                self.filter_idx = if i < self.filters.len() { i } else { self.filters.len() - 1 };
                self.selected = None;
                DlgEffect::Read
            }
            DlgMsg::Listed(raw) => {
                self.entries = dialog_listing(&raw, &self.filters[self.filter_idx]);
                DlgEffect::Nothing
            }
            DlgMsg::Accept => {
                let name = trim_chars(&chars_of(self.filename.as_str()));
                if name.len() == 0 {
                    match self.selected {
                        Some(i) => if i < self.entries.len() {
                            DlgEffect::Probe(self.entries[i].path.clone())
                        } else {
                            DlgEffect::Nothing
                        },
                        None => DlgEffect::Nothing,
                    }
                } else if name[0] == '/' {
                    DlgEffect::Probe(string_of(&name))
                } else {
                    let n = string_of(&name);
                    DlgEffect::Probe(join_path_str(self.current.as_str(), n.as_str()))
                }
            }
            DlgMsg::Probed { path, is_dir } => {
                if is_dir {
                    self.enter(path);
                    DlgEffect::Read
                } else {
                    DlgEffect::Choose(path)
                }
            }
            DlgMsg::Cancel => DlgEffect::Cancel,
        }
    }
}

} // verus!
