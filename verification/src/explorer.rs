//! The File Explorer window's state machine: the listing's sort order, the
//! back/forward history, selection and keyboard navigation, the right-click
//! clipboard, Quick access pins, the folder tree's expanded set, and the
//! network and cloud panes. Reading folders, launching files and mounting
//! remote shares are the shell's work; `handle_files` says which to do next.

use vstd::prelude::*;
use crate::files::{Entry, Pane, kind, kind_spec, file_name, file_name_spec, join_path, join_path_str};
use crate::text::{chars_of, contains, lex_le, lex_le_chars, lemma_lex_total, lemma_lex_trans, lemma_lex_refl,
    lowercase, to_lowercase, push_str, trim, trim_chars, string_of, cat2, cat3};

verus! {

// --- the listing's order ----------------------------------------------------------

/// The text an entry is ordered by in column `col` (1 = Size has none):
/// the lowercased type for Type (2), the lowercased name otherwise.
pub open spec fn text_key(col: usize, e: Entry) -> Seq<char> {
    if col == 2 { lowercase(kind_spec(e)) } else { lowercase(e.name@) }
}

/// The entries tie in column `col`.
pub open spec fn primary_eq(col: usize, a: Entry, b: Entry) -> bool {
    if col == 1 { a.size == b.size } else { text_key(col, a) == text_key(col, b) }
}

/// `a` comes no later than `b` in column `col`, ascending.
pub open spec fn primary_le(col: usize, a: Entry, b: Entry) -> bool {
    if col == 1 { a.size <= b.size } else { lex_le(text_key(col, a), text_key(col, b)) }
}

/// The details list's order: folders before files, then the active column
/// in the active direction, then the lowercased name.
pub open spec fn entry_le(col: usize, desc: bool, a: Entry, b: Entry) -> bool {
    if a.is_dir != b.is_dir {
        a.is_dir
    } else if !primary_eq(col, a, b) {
        if desc { primary_le(col, b, a) } else { primary_le(col, a, b) }
    } else {
        lex_le(lowercase(a.name@), lowercase(b.name@))
    }
}

/// A listing in that order.
pub open spec fn sorted_by(col: usize, desc: bool, s: Seq<Entry>) -> bool {
    forall|i: int, j: int| 0 <= i < j < s.len() ==> entry_le(col, desc, #[trigger] s[i], #[trigger] s[j])
}

proof fn lemma_primary_le_antisym(col: usize, a: Entry, b: Entry)
    requires
        primary_le(col, a, b),
        primary_le(col, b, a),
    ensures
        primary_eq(col, a, b),
{
    if col != 1 {
        crate::text::lemma_lex_antisym(text_key(col, a), text_key(col, b));
    }
}

pub proof fn lemma_entry_le_total(col: usize, desc: bool, a: Entry, b: Entry)
    ensures
        entry_le(col, desc, a, b) || entry_le(col, desc, b, a),
{
    lemma_lex_total(text_key(col, a), text_key(col, b));
    lemma_lex_total(lowercase(a.name@), lowercase(b.name@));
}

proof fn lemma_primary_trans(col: usize, a: Entry, b: Entry, c: Entry)
    requires
        primary_le(col, a, b),
        primary_le(col, b, c),
    ensures
        primary_le(col, a, c),
{
    if col != 1 {
        lemma_lex_trans(text_key(col, a), text_key(col, b), text_key(col, c));
    }
}

pub proof fn lemma_entry_le_trans(col: usize, desc: bool, a: Entry, b: Entry, c: Entry)
    requires
        entry_le(col, desc, a, b),
        entry_le(col, desc, b, c),
    ensures
        entry_le(col, desc, a, c),
{
    if a.is_dir == b.is_dir && b.is_dir == c.is_dir {
        if primary_eq(col, a, b) && primary_eq(col, b, c) {
            lemma_lex_trans(lowercase(a.name@), lowercase(b.name@), lowercase(c.name@));
        } else if !primary_eq(col, a, b) && !primary_eq(col, b, c) {
            if desc {
                lemma_primary_trans(col, c, b, a);
                if primary_eq(col, a, c) {
                    lemma_primary_le_antisym(col, b, c);
                }
            } else {
                lemma_primary_trans(col, a, b, c);
                if primary_eq(col, a, c) {
                    lemma_primary_le_antisym(col, a, b);
                }
            }
        }
    }
}

/// `entry_le`, computed.
fn entry_le_exec(col: usize, desc: bool, a: &Entry, b: &Entry) -> (r: bool)
    ensures
        r == entry_le(col, desc, *a, *b),
{
    if a.is_dir != b.is_dir {
        return a.is_dir;
    }
    let an = to_lowercase(&chars_of(a.name.as_str()));
    let bn = to_lowercase(&chars_of(b.name.as_str()));
    let (eq, le_ab, le_ba) = if col == 1 {
        (a.size == b.size, a.size <= b.size, b.size <= a.size)
    } else {
        let (ka, kb) = if col == 2 {
            let ka = kind(a);
            let kb = kind(b);
            (to_lowercase(&chars_of(ka.as_str())), to_lowercase(&chars_of(kb.as_str())))
        } else {
            (an.clone(), bn.clone())
        };
        let l1 = lex_le_chars(&ka, &kb);
        let l2 = lex_le_chars(&kb, &ka);
        proof {
            if l1 && l2 {
                crate::text::lemma_lex_antisym(ka@, kb@);
            }
            if ka@ == kb@ {
                lemma_lex_refl(ka@);
            }
        }
        (l1 && l2, l1, l2)
    };
    if !eq {
        if desc { le_ba } else { le_ab }
    } else {
        lex_le_chars(&an, &bn)
    }
}

/// Two entries that the order ranks alike.
pub open spec fn same_rank(col: usize, desc: bool, a: Entry, b: Entry) -> bool {
    entry_le(col, desc, a, b) && entry_le(col, desc, b, a)
}

/// The entries of `s` ranked alike with `e`, in their order in `s`.
pub open spec fn ties(col: usize, desc: bool, s: Seq<Entry>, e: Entry) -> Seq<Entry> {
    s.filter(|y: Entry| same_rank(col, desc, y, e))
}

/// Inserting `x` before every entry it does not follow adds it in front of
/// the entries ranked alike with it.
proof fn lemma_ties_insert(col: usize, desc: bool, r0: Seq<Entry>, p: int, x: Entry, e: Entry)
    requires
        0 <= p <= r0.len(),
        forall|k: int| 0 <= k < p ==> !entry_le(col, desc, x, #[trigger] r0[k]),
    ensures
        ties(col, desc, r0.insert(p, x), e)
            == (if same_rank(col, desc, x, e) { seq![x] } else { Seq::<Entry>::empty() }) + ties(col, desc, r0, e),
{
    let a = r0.take(p);
    let b = r0.skip(p);
    assert(r0.insert(p, x) =~= a + (seq![x] + b));
    assert(r0 =~= a + b);
    Seq::filter_distributes_over_add(a, seq![x] + b, |y: Entry| same_rank(col, desc, y, e));
    Seq::filter_distributes_over_add(a, b, |y: Entry| same_rank(col, desc, y, e));
    b.lemma_filter_prepend(x, |y: Entry| same_rank(col, desc, y, e));
    if same_rank(col, desc, x, e) {
        assert forall|k: int| 0 <= k < a.len() implies !same_rank(col, desc, #[trigger] a[k], e) by {
            if same_rank(col, desc, a[k], e) {
                lemma_entry_le_trans(col, desc, x, e, a[k]);
                assert(a[k] == r0[k]);
            }
        }
        assert(a.all(|y: Entry| !same_rank(col, desc, y, e))) by {
            assert forall|k: int| 0 <= k < a.len() implies (|y: Entry| !same_rank(col, desc, y, e))(#[trigger] a[k]) by {}
        }
        a.lemma_all_neg_filter_empty(|y: Entry| same_rank(col, desc, y, e));
        assert(a.filter(|y: Entry| same_rank(col, desc, y, e)) =~= Seq::<Entry>::empty());
    }
}

/// The listing sorted for display: the same entries, in the details list's
/// order; entries ranked alike keep their order in the listing (a stable
/// sort).
pub fn sort_entries(entries: Vec<Entry>, col: usize, desc: bool) -> (r: Vec<Entry>)
    ensures
        r@.to_multiset() == entries@.to_multiset(),
        sorted_by(col, desc, r@),
        forall|e: Entry| #[trigger] ties(col, desc, r@, e) == ties(col, desc, entries@, e),
{
    broadcast use vstd::multiset::group_multiset_axioms, vstd::multiset::group_multiset_properties,
        vstd::seq_lib::group_to_multiset_ensures;
    let ghost es = entries@;
    let mut src = entries;
    let mut r: Vec<Entry> = Vec::new();
    let ghost orig = src@.to_multiset();
    proof {
        assert forall|e: Entry| #[trigger] ties(col, desc, r@, e) == ties(col, desc, es.skip(src.len() as int), e) by {
            reveal(Seq::filter);
            assert(es.skip(src.len() as int) =~= Seq::<Entry>::empty());
        }
        assert(src@ =~= es.take(src.len() as int));
    }
    while src.len() > 0
        invariant
            r@.to_multiset().add(src@.to_multiset()) == orig,
            sorted_by(col, desc, r@),
            src.len() <= es.len(),
            src@ == es.take(src.len() as int),
            forall|e: Entry| #[trigger] ties(col, desc, r@, e) == ties(col, desc, es.skip(src.len() as int), e),
        decreases src.len(),
    {
        broadcast use vstd::multiset::group_multiset_axioms;
        let ghost before_src = src@;
        let x = src.pop().unwrap();
        proof {
            vstd::seq_lib::to_multiset_build(src@, x);
            assert(before_src =~= src@.push(x));
        }
        let mut p: usize = 0;
        while p < r.len() && !entry_le_exec(col, desc, &x, &r[p])
            invariant
                p <= r.len(),
                forall|k: int| 0 <= k < p ==> !entry_le(col, desc, x, #[trigger] r@[k]),
            decreases r.len() - p,
        {
            p += 1;
        }
        let ghost r0 = r@;
        proof {
            assert forall|k: int| 0 <= k < p implies entry_le(col, desc, #[trigger] r0[k], x) by {
                lemma_entry_le_total(col, desc, x, r0[k]);
            }
            assert forall|k: int| p <= k < r0.len() implies entry_le(col, desc, x, #[trigger] r0[k]) by {
                if k > p {
                    lemma_entry_le_trans(col, desc, x, r0[p as int], r0[k]);
                }
            }
        }
        r.insert(p, x);
        proof {
            let n = src.len() as int;
            assert(x == es[n]);
            assert(src@ =~= es.take(n));
            assert(es.skip(n) =~= seq![x] + es.skip(n + 1));
            assert forall|e: Entry| #[trigger] ties(col, desc, r@, e) == ties(col, desc, es.skip(n), e) by {
                lemma_ties_insert(col, desc, r0, p as int, x, e);
                es.skip(n + 1).lemma_filter_prepend(x, |y: Entry| same_rank(col, desc, y, e));
            }
            vstd::seq_lib::to_multiset_insert(r0, p as int, x);
            assert(r@ == r0.insert(p as int, x));
            assert forall|i: int, j: int| 0 <= i < j < r@.len() implies
                entry_le(col, desc, #[trigger] r@[i], #[trigger] r@[j]) by {
                if i < p && j == p {
                    assert(r@[i] == r0[i]);
                } else if i == p {
                    assert(r@[j] == r0[j - 1]);
                } else if j < p {
                    assert(r@[i] == r0[i] && r@[j] == r0[j]);
                } else if i < p {
                    assert(r@[i] == r0[i] && r@[j] == r0[j - 1]);
                    lemma_entry_le_trans(col, desc, r0[i], x, r0[j - 1]);
                } else {
                    assert(r@[i] == r0[i - 1] && r@[j] == r0[j - 1]);
                }
            }
        }
    }
    assert(es.skip(0) =~= es);
    r
}

// --- paths --------------------------------------------------------------------------

/// The parent of a path, as `std::path::Path::parent` gives it.
pub uninterp spec fn path_parent(p: Seq<char>) -> Option<Seq<char>>;

/// `std::path::Path::parent`: the path without its last component, none for
/// a root or an empty path. What that is on given text is left to the name.
#[verifier::external_body]
pub(crate) fn parent_of(p: &str) -> (r: Option<String>)
    ensures
        match r {
            Some(q) => path_parent(p@) == Some(q@),
            None => path_parent(p@) is None,
        },
{
    std::path::Path::new(p).parent().map(|q| q.to_string_lossy().into_owned())
}

// --- the window's state ------------------------------------------------------------

/// A paired KDE Connect device.
pub struct CloudDevice {
    pub id: String,
    pub name: String,
    pub address: String,
}

/// Why a folder could not be read.
#[derive(Debug, Clone, Copy, PartialEq, Eq, Structural)]
pub enum ReadError {
    PermissionDenied,
    NotFound,
    Other,
}

/// The keys the window handles while no menu is open.
#[derive(Debug, Clone, Copy, PartialEq, Eq, Structural)]
pub enum FilesKey {
    Enter,
    Backspace,
    Delete,
    F5,
    Down,
    Up,
    Escape,
}

/// How a paste ended.
pub enum PasteOutcome {
    Done,
    /// A cut-less folder: copying folders is not offered.
    FolderCopy,
    Failed(String),
}

/// How "make available offline" ended.
pub enum OfflineOutcome {
    Copied(u64),
    CopyFailed(String),
    MountFailed(String),
}

/// The window's state.
pub struct Files {
    pub cwd: String,
    pub address: String,
    pub entries: Vec<Entry>,
    pub history: Vec<String>,
    pub hpos: usize,
    pub selected: Option<usize>,
    /// The last single click: the row and when, in milliseconds.
    pub last_click: Option<(usize, u64)>,
    /// The last navigation or I/O problem, shown in the status bar.
    pub error: Option<String>,
    /// The expanded folders of the tree pane, each once.
    pub tree_expanded: Vec<String>,
    pub open_menu: Option<usize>,
    pub show_tree: bool,
    pub ctx: Option<usize>,
    /// A cut (`true`) or copied path.
    pub clipboard: Option<(String, bool)>,
    pub sort_col: usize,
    pub sort_desc: bool,
    pub search: String,
    pub pane: Pane,
    pub pins: Vec<String>,
    pub qctx: Option<String>,
    pub cloud_device: Option<String>,
    pub cloud_ctx: Option<String>,
    pub net_host: String,
    pub net_shares: Vec<String>,
    pub net_busy: bool,
}

/// What the user did, or what the shell observed and hands back.
pub enum FilesMsg {
    /// A click on row `index` at `now_ms`.
    Open { index: usize, now_ms: u64 },
    Up,
    Back,
    Forward,
    /// The Home button, with the home folder if there is one.
    Home(Option<String>),
    Refresh,
    AddressChanged(String),
    SearchChanged(String),
    /// Enter in the address bar; `is_dir` says whether `go_target` names a folder.
    GoAddress { is_dir: bool },
    TreeToggle(String),
    TreeNav { path: String, is_dir: bool },
    OpenPath { path: String, is_dir: bool },
    QuickContext(String),
    TogglePin(String),
    ShowQuick,
    ShowThisPc,
    ShowNetwork,
    NetHostChanged(String),
    NetBrowse,
    NetBrowsed(Result<Vec<String>, String>),
    OpenShare(String),
    ShowCloud,
    MountCloud { id: String, devices: Vec<CloudDevice> },
    MountDone { result: Result<String, String>, cloud_id: Option<String> },
    CloudContext(String),
    /// The device list and the device's local mirror folder, if there is one.
    MakeOffline { id: String, devices: Vec<CloudDevice>, mirror: Option<String> },
    OfflineDone { name: String, outcome: OfflineOutcome },
    FreeUp { id: String, mirror: Option<String> },
    FreedUp(Result<(), String>),
    ToggleFolders,
    HeaderClick(usize),
    ToggleMenu(usize),
    CloseMenu,
    NewFolder,
    FolderMade(Result<(), String>),
    CloseWindow,
    About,
    Key(FilesKey),
    RowContext(usize),
    CloseCtx,
    CtxOpen,
    CtxCut,
    CtxCopy,
    CtxPaste,
    CtxDelete,
    CtxProperties,
    /// The folder was read (or not).
    Loaded(Result<Vec<Entry>, ReadError>),
    LaunchFailed,
    Trashed { name: String, ok: bool },
    PasteDone(PasteOutcome),
    Noop,
}

/// What the shell must do next.
pub enum FilesEffect {
    Nothing,
    /// Read `cwd` and hand back `Loaded`.
    Load,
    /// Open a file with `xdg-open`; `LaunchFailed` if that cannot start.
    Launch(String),
    /// Move a path to the trash; hand back `Trashed`.
    Trash { path: String, name: String },
    /// Mount a remote URI off-thread; hand back `MountDone`.
    Mount { uri: String, cloud_id: Option<String> },
    /// List a server's shares; hand back `NetBrowsed`.
    Browse(String),
    /// Persist the Quick access pins.
    SavePins,
    /// Create the next free "New Folder" in `cwd`; hand back `FolderMade`.
    NewFolder,
    /// Move (`cut`) or copy `src` to `dst`; hand back `PasteDone`.
    Paste { src: String, dst: String, cut: bool },
    /// Open the Properties dialog.
    Properties { name: String, path: String },
    /// Mount `uri` and copy it into `mirror`; hand back `OfflineDone`.
    MakeOffline { uri: String, mirror: String, name: String },
    /// Remove a mirror folder; hand back `FreedUp`.
    RemoveDir(String),
    Exit,
}

pub open spec fn hist(v: Seq<String>) -> Seq<Seq<char>> {
    v.map_values(|s: String| s@)
}

/// The history holds the current folder at its position, and the tree's
/// expanded folders are listed once each.
pub open spec fn files_wf(s: Files) -> bool {
    &&& s.history@.len() > 0
    &&& s.hpos < s.history@.len()
    &&& s.cwd@ == s.history@[s.hpos as int]@
    &&& hist(s.tree_expanded@).no_duplicates()
}

/// The tree pane shows `p` expanded.
pub open spec fn expanded(s: Files, p: Seq<char>) -> bool {
    hist(s.tree_expanded@).contains(p)
}

/// The current folder and the history are as they were.
pub open spec fn keeps_place(o: Files, f: Files) -> bool {
    &&& f.cwd@ == o.cwd@
    &&& hist(f.history@) == hist(o.history@)
    &&& f.hpos == o.hpos
    &&& f.pane == o.pane
}

/// `f` is `o` after entering `path`: the folder pane, the search cleared,
/// the forward history dropped and `path` appended as the current place.
pub open spec fn navigated(o: Files, f: Files, path: Seq<char>) -> bool {
    &&& f.pane == Pane::Folder
    &&& f.search@.len() == 0
    &&& f.cwd@ == path
    &&& hist(f.history@) == hist(o.history@).take(o.hpos + 1).push(path)
    &&& f.hpos == o.hpos + 1
}

/// `f` is `o` after moving to history position `k`.
pub open spec fn moved_to(o: Files, f: Files, k: int) -> bool {
    &&& f.pane == Pane::Folder
    &&& f.search@.len() == 0
    &&& f.hpos == k
    &&& f.cwd@ == o.history@[k]@
    &&& hist(f.history@) == hist(o.history@)
}

/// Nothing visible changed.
pub open spec fn unchanged(o: Files, f: Files) -> bool {
    &&& keeps_place(o, f)
    &&& f.entries@ == o.entries@
    &&& f.selected == o.selected
    &&& f.error == o.error
}

/// Opening row `i`: a folder is entered, a file is launched.
pub open spec fn activated(o: Files, f: Files, i: usize, eff: FilesEffect) -> bool {
    if i < o.entries@.len() {
        if o.entries@[i as int].is_dir {
            navigated(o, f, o.entries@[i as int].path@) && eff is Load
        } else {
            keeps_place(o, f) && (eff matches FilesEffect::Launch(p) && p@ == o.entries@[i as int].path@)
        }
    } else {
        keeps_place(o, f) && eff is Nothing
    }
}

/// Deleting row `i` asks for it to be trashed.
pub open spec fn trash_asked(o: Files, f: Files, i: usize, eff: FilesEffect) -> bool {
    &&& keeps_place(o, f)
    &&& if i < o.entries@.len() {
        eff matches FilesEffect::Trash { path, name } && path@ == o.entries@[i as int].path@
            && name@ == o.entries@[i as int].name@
    } else {
        eff is Nothing
    }
}

/// The row a context action applies to: the right-clicked one, else the
/// selected one.
pub open spec fn target(o: Files) -> Option<usize> {
    match o.ctx {
        Some(i) => Some(i),
        None => o.selected,
    }
}

/// `r` is the first row of `s` whose path is `p`.
pub open spec fn first_with_path(s: Seq<Entry>, p: Seq<char>, r: Option<usize>) -> bool {
    match r {
        Some(k) => k < s.len() && s[k as int].path@ == p && forall|j: int| 0 <= j < k ==> (#[trigger] s[j]).path@ != p,
        None => forall|j: int| 0 <= j < s.len() ==> (#[trigger] s[j]).path@ != p,
    }
}

/// The status line for an unreadable folder.
pub open spec fn read_error_text(e: ReadError) -> Seq<char> {
    match e {
        ReadError::PermissionDenied => "Access denied."@,
        ReadError::NotFound => "Folder not found."@,
        ReadError::Other => "Cannot read this folder."@,
    }
}

/// The first device with id `id`.
pub open spec fn device_with(ds: Seq<CloudDevice>, id: Seq<char>, r: Option<int>) -> bool {
    match r {
        Some(k) => 0 <= k < ds.len() && ds[k].id@ == id && forall|j: int| 0 <= j < k ==> (#[trigger] ds[j]).id@ != id,
        None => forall|j: int| 0 <= j < ds.len() ==> (#[trigger] ds[j]).id@ != id,
    }
}

/// `k` is where `x` first occurs in `s`.
pub open spec fn first_at(s: Seq<Seq<char>>, x: Seq<char>, k: int) -> bool {
    0 <= k < s.len() && s[k] == x && forall|j: int| 0 <= j < k ==> s[j] != x
}

pub open spec fn err_is(f: Files, t: Seq<char>) -> bool {
    f.error matches Some(e) && e@ == t
}

/// The address bar's target: its text, trimmed.
pub open spec fn address_target(o: Files) -> Seq<char> {
    trim(o.address@)
}

/// A second click on the same row within 400 ms (a clock that went back
/// counts as no time at all).
pub open spec fn is_double(o: Files, index: usize, now_ms: u64) -> bool {
    match o.last_click {
        Some((li, lt)) => li == index && (now_ms < lt || now_ms - lt < 400),
        None => false,
    }
}

/// The selection after Down: the first row, or the next one, stopping at
/// the last.
pub open spec fn next_row(sel: Option<usize>, n: nat) -> usize {
    match sel {
        None => 0,
        Some(i) => if i + 1 < n { (i + 1) as usize } else { (n - 1) as usize },
    }
}

/// The selection after Up: the first row, or the previous one, stopping at
/// the first.
pub open spec fn prev_row(sel: Option<usize>) -> usize {
    match sel {
        None => 0,
        Some(i) => if i > 0 { (i - 1) as usize } else { 0 },
    }
}

/// The parts of the window, for saying what a message leaves alone.
pub enum Part {
    /// The current folder and the history.
    Place,
    Pane,
    Address,
    Entries,
    Selected,
    /// The last single click.
    LastClick,
    Error,
    /// The tree's expanded folders and whether the tree shows.
    Tree,
    /// The open dropdown.
    OpenMenu,
    /// The row context menu.
    Ctx,
    /// The Quick access context menu.
    QCtx,
    /// The cloud device context menu.
    CloudCtx,
    Clipboard,
    Sort,
    Search,
    Pins,
    CloudDevice,
    /// The server being browsed, its shares, and whether a browse runs.
    Net,
}

/// Part `p` of `f` is as it is in `o`.
pub open spec fn same_part(o: Files, f: Files, p: Part) -> bool {
    match p {
        Part::Place => f.cwd@ == o.cwd@ && f.history@ == o.history@ && f.hpos == o.hpos,
        Part::Pane => f.pane == o.pane,
        Part::Address => f.address@ == o.address@,
        Part::Entries => f.entries@ == o.entries@,
        Part::Selected => f.selected == o.selected,
        Part::LastClick => f.last_click == o.last_click,
        Part::Error => f.error == o.error,
        Part::Tree => f.tree_expanded@ == o.tree_expanded@ && f.show_tree == o.show_tree,
        Part::OpenMenu => f.open_menu == o.open_menu,
        Part::Ctx => f.ctx == o.ctx,
        Part::QCtx => f.qctx == o.qctx,
        Part::CloudCtx => f.cloud_ctx == o.cloud_ctx,
        Part::Clipboard => f.clipboard == o.clipboard,
        Part::Sort => f.sort_col == o.sort_col && f.sort_desc == o.sort_desc,
        Part::Search => f.search@ == o.search@,
        Part::Pins => f.pins@ == o.pins@,
        Part::CloudDevice => f.cloud_device == o.cloud_device,
        Part::Net => f.net_host@ == o.net_host@ && f.net_shares@ == o.net_shares@ && f.net_busy == o.net_busy,
    }
}

/// The parts entering a folder changes.
pub open spec fn nav_part(p: Part) -> bool {
    p is Place || p is Pane || p is Search
}

/// Opening row `i` enters a folder.
pub open spec fn opens_folder(o: Files, i: usize) -> bool {
    i < o.entries@.len() && o.entries@[i as int].is_dir
}

/// The parts message `msg` may change in window `o`; every other part stays
/// as it was.
pub open spec fn touches(o: Files, msg: FilesMsg, p: Part) -> bool {
    match msg {
        FilesMsg::Open { index, now_ms } => if is_double(o, index, now_ms) {
            p is LastClick || (nav_part(p) && opens_folder(o, index))
        } else {
            p is Selected || p is LastClick
        },
        FilesMsg::Up => nav_part(p) && path_parent(o.cwd@) is Some,
        FilesMsg::Back => nav_part(p) && o.hpos > 0,
        FilesMsg::Forward => nav_part(p) && o.hpos + 1 < o.history@.len(),
        FilesMsg::Home(h) => nav_part(p) && h is Some,
        FilesMsg::OpenPath { is_dir, .. } => nav_part(p) && is_dir,
        FilesMsg::Refresh | FilesMsg::CloseWindow | FilesMsg::Noop => false,
        FilesMsg::AddressChanged(_) => p is Address || p is Error,
        FilesMsg::SearchChanged(_) => p is Search,
        FilesMsg::GoAddress { .. } => nav_part(p) || p is Error,
        FilesMsg::TreeToggle(_) | FilesMsg::ToggleFolders => p is Tree,
        FilesMsg::TreeNav { is_dir, .. } => is_dir && (nav_part(p) || p is Tree),
        FilesMsg::QuickContext(_) => p is QCtx || p is Ctx || p is OpenMenu,
        FilesMsg::CloudContext(_) => p is CloudCtx || p is Ctx || p is QCtx || p is OpenMenu,
        FilesMsg::FreeUp { .. } => p is CloudCtx,
        FilesMsg::ToggleMenu(_) | FilesMsg::CloseMenu | FilesMsg::NewFolder => p is OpenMenu,
        FilesMsg::CloseCtx => p is Ctx || p is QCtx || p is CloudCtx,
        FilesMsg::CtxProperties | FilesMsg::CtxPaste | FilesMsg::CtxDelete => p is Ctx,
        FilesMsg::TogglePin(_) => p is Ctx || p is QCtx || p is Pins,
        FilesMsg::ShowQuick | FilesMsg::ShowThisPc | FilesMsg::ShowNetwork => p is Pane,
        FilesMsg::NetHostChanged(_) => p is Net,
        FilesMsg::NetBrowse | FilesMsg::NetBrowsed(_) => p is Net || p is Error,
        FilesMsg::OpenShare(_) | FilesMsg::OfflineDone { .. } | FilesMsg::FreedUp(_) | FilesMsg::FolderMade(_)
            | FilesMsg::LaunchFailed | FilesMsg::Trashed { .. } => p is Error,
        FilesMsg::ShowCloud => p is CloudDevice || p is Pane,
        FilesMsg::MountCloud { .. } => p is CloudDevice || p is Pane || p is Error,
        FilesMsg::MountDone { .. } => nav_part(p) || p is CloudDevice || p is Error,
        FilesMsg::MakeOffline { .. } => p is CloudCtx || p is Error,
        FilesMsg::About => p is OpenMenu || p is Error,
        FilesMsg::HeaderClick(_) => p is Sort || p is Entries || p is Selected,
        FilesMsg::Key(k) => if o.ctx is Some || o.open_menu is Some {
            false
        } else {
            match k {
                FilesKey::Enter => match o.selected {
                    Some(i) => nav_part(p) && opens_folder(o, i),
                    None => false,
                },
                FilesKey::Backspace => nav_part(p) && path_parent(o.cwd@) is Some,
                FilesKey::Down | FilesKey::Up | FilesKey::Escape => p is Selected,
                FilesKey::Delete | FilesKey::F5 => false,
            }
        },
        FilesMsg::RowContext(_) => p is Selected || p is Ctx || p is OpenMenu,
        FilesMsg::CtxOpen => p is Ctx || (nav_part(p) && match target(o) {
            Some(i) => opens_folder(o, i),
            None => false,
        }),
        FilesMsg::CtxCut | FilesMsg::CtxCopy => p is Clipboard || p is Ctx,
        FilesMsg::Loaded(_) => p is Entries || p is Error || p is Address || p is Selected || p is LastClick,
        FilesMsg::PasteDone(_) => p is Clipboard || p is Error,
    }
}

/// Every part that `msg` does not touch is as it was.
pub open spec fn files_frame(o: Files, msg: FilesMsg, f: Files) -> bool {
    forall|p: Part| !touches(o, msg, p) ==> #[trigger] same_part(o, f, p)
}

/// The window after one message, and what the shell must do next.
pub open spec fn files_step(o: Files, msg: FilesMsg, f: Files, eff: FilesEffect) -> bool {
    match msg {
        FilesMsg::Open { index, now_ms } => if is_double(o, index, now_ms) {
            f.last_click is None && activated(o, f, index, eff)
        } else {
            keeps_place(o, f) && eff is Nothing && f.selected == Some(index) && f.last_click == Some((index, now_ms))
        },
        FilesMsg::Up => match path_parent(o.cwd@) {
            Some(p) => navigated(o, f, p) && eff is Load,
            None => unchanged(o, f) && eff is Nothing,
        },
        FilesMsg::Back => if o.hpos > 0 {
            moved_to(o, f, o.hpos - 1) && eff is Load
        } else {
            unchanged(o, f) && eff is Nothing
        },
        FilesMsg::Forward => if o.hpos + 1 < o.history@.len() {
            moved_to(o, f, o.hpos + 1) && eff is Load
        } else {
            unchanged(o, f) && eff is Nothing
        },
        FilesMsg::Home(h) => match h {
            Some(p) => navigated(o, f, p@) && eff is Load,
            None => unchanged(o, f) && eff is Nothing,
        },
        FilesMsg::Refresh => keeps_place(o, f) && eff is Load,
        FilesMsg::AddressChanged(t) => keeps_place(o, f) && eff is Nothing && f.address@ == t@ && f.error is None,
        FilesMsg::SearchChanged(t) => keeps_place(o, f) && eff is Nothing && f.search@ == t@,
        FilesMsg::GoAddress { is_dir } => {
            let addr = address_target(o);
            if contains(addr, "://"@) {
                &&& keeps_place(o, f)
                &&& err_is(f, "Connecting to "@ + addr + "\u{2026}"@)
                &&& eff matches FilesEffect::Mount { uri, cloud_id } && uri@ == addr && cloud_id is None
            } else if is_dir {
                navigated(o, f, addr) && eff is Load
            } else {
                keeps_place(o, f) && eff is Nothing && err_is(f, "Cannot find '"@ + addr + "'."@)
            }
        },
        FilesMsg::TreeToggle(p) => {
            &&& keeps_place(o, f) && eff is Nothing
            &&& expanded(f, p@) == !expanded(o, p@)
            &&& forall|q: Seq<char>| q != p@ ==> expanded(f, q) == expanded(o, q)
        },
        FilesMsg::TreeNav { path, is_dir } => if is_dir {
            &&& navigated(o, f, path@) && eff is Load
            &&& forall|q: Seq<char>| expanded(f, q) == (expanded(o, q) || q == path@)
        } else {
            unchanged(o, f) && eff is Nothing
        },
        FilesMsg::OpenPath { path, is_dir } => if is_dir {
            navigated(o, f, path@) && eff is Load
        } else {
            keeps_place(o, f) && (eff matches FilesEffect::Launch(q) && q@ == path@)
        },
        FilesMsg::QuickContext(p) => {
            &&& keeps_place(o, f) && eff is Nothing
            &&& (f.qctx matches Some(q) && q@ == p@)
            &&& f.ctx is None && f.open_menu is None
        },
        FilesMsg::TogglePin(p) => {
            &&& keeps_place(o, f) && eff is SavePins
            &&& f.ctx is None && f.qctx is None
            &&& if hist(o.pins@).contains(p@) {
                exists|k: int| first_at(hist(o.pins@), p@, k) && hist(f.pins@) == hist(o.pins@).remove(k)
            } else {
                hist(f.pins@) == hist(o.pins@).push(p@)
            }
        },
        FilesMsg::ShowQuick => f.pane == Pane::QuickAccess && eff is Nothing,
        FilesMsg::ShowThisPc => f.pane == Pane::ThisPc && eff is Nothing,
        FilesMsg::ShowNetwork => f.pane == Pane::Network && eff is Nothing,
        FilesMsg::NetHostChanged(t) => keeps_place(o, f) && eff is Nothing && f.net_host@ == t@,
        FilesMsg::NetBrowse => {
            let host = trim(o.net_host@);
            if host.len() > 0 {
                &&& keeps_place(o, f)
                &&& f.net_busy && f.net_shares@.len() == 0
                &&& err_is(f, "Browsing \\\\"@ + host + "\u{2026}"@)
                &&& eff matches FilesEffect::Browse(h) && h@ == host
            } else {
                unchanged(o, f) && eff is Nothing
            }
        },
        FilesMsg::NetBrowsed(r) => {
            &&& keeps_place(o, f) && eff is Nothing && !f.net_busy
            &&& match r {
                Ok(shares) => {
                    &&& hist(f.net_shares@) == hist(shares@)
                    &&& if shares@.len() == 0 {
                        err_is(f, "No shares found on '"@ + trim(o.net_host@) + "'."@)
                    } else {
                        f.error is None
                    }
                },
                Err(e) => f.net_shares@.len() == 0 && err_is(f, e@),
            }
        },
        FilesMsg::OpenShare(uri) => {
            &&& keeps_place(o, f)
            &&& err_is(f, "Connecting to "@ + uri@ + "\u{2026}"@)
            &&& eff matches FilesEffect::Mount { uri: u, cloud_id } && u@ == uri@ && cloud_id is None
        },
        FilesMsg::ShowCloud => f.cloud_device is None && f.pane == Pane::CloudDevice && eff is Nothing,
        FilesMsg::MountCloud { id, devices } => exists|r: Option<int>| device_with(devices@, id@, r) && match r {
            Some(k) => {
                let d = devices@[k];
                &&& (f.cloud_device matches Some(c) && c@ == id@)
                &&& f.pane == Pane::CloudDevice
                &&& if d.address@.len() > 0 {
                    &&& err_is(f, "Connecting to '"@ + d.name@ + "'\u{2026}"@)
                    &&& eff matches FilesEffect::Mount { uri, cloud_id } && uri@ == "sftp://"@ + d.address@
                        && (cloud_id matches Some(c) && c@ == id@)
                } else {
                    err_is(f, "No address configured for '"@ + d.name@ + "'."@) && eff is Nothing
                }
            },
            None => unchanged(o, f) && eff is Nothing,
        },
        FilesMsg::MountDone { result, cloud_id } => match result {
            Ok(path) => navigated(o, f, path@) && eff is Load,
            Err(e) => {
                &&& err_is(f, e@) && eff is Nothing
                &&& f.cwd@ == o.cwd@ && hist(f.history@) == hist(o.history@) && f.hpos == o.hpos
                &&& match cloud_id {
                    Some(c) => (f.cloud_device matches Some(d) && d@ == c@) && f.pane == Pane::CloudDevice,
                    None => f.pane == o.pane,
                }
            },
        },
        FilesMsg::CloudContext(id) => {
            &&& keeps_place(o, f) && eff is Nothing
            &&& (f.cloud_ctx matches Some(c) && c@ == id@)
            &&& f.ctx is None && f.qctx is None && f.open_menu is None
        },
        FilesMsg::MakeOffline { id, devices, mirror } => {
            &&& keeps_place(o, f) && f.cloud_ctx is None
            &&& exists|r: Option<int>| device_with(devices@, id@, r) && match r {
                Some(k) => {
                    let d = devices@[k];
                    match mirror {
                        Some(m) => if d.address@.len() > 0 {
                            eff matches FilesEffect::MakeOffline { uri, mirror: mm, name }
                                && uri@ == "sftp://"@ + d.address@ && mm@ == m@ && name@ == d.name@
                        } else {
                            err_is(f, "No address configured for '"@ + d.name@ + "'."@) && eff is Nothing
                        },
                        None => err_is(f, "No address configured for '"@ + d.name@ + "'."@) && eff is Nothing,
                    }
                },
                None => f.error == o.error && eff is Nothing,
            }
        },
        FilesMsg::OfflineDone { name, outcome } => keeps_place(o, f) && eff is Nothing && match outcome {
            OfflineOutcome::Copied(n) => err_is(f, "'"@ + name@ + "' is now available offline ("@
                + crate::text::dec(n as nat) + " file(s))."@),
            OfflineOutcome::CopyFailed(e) => err_is(f, "Could not copy '"@ + name@ + "' offline: "@ + e@),
            OfflineOutcome::MountFailed(e) => err_is(f, e@),
        },
        FilesMsg::FreeUp { id, mirror } => keeps_place(o, f) && f.cloud_ctx is None && match mirror {
            Some(m) => eff matches FilesEffect::RemoveDir(d) && d@ == m@,
            None => eff is Nothing,
        },
        FilesMsg::FreedUp(r) => keeps_place(o, f) && eff is Nothing && match r {
            Ok(()) => f.error == o.error,
            Err(e) => err_is(f, "Could not free up space: "@ + e@),
        },
        FilesMsg::ToggleFolders => keeps_place(o, f) && eff is Nothing && f.show_tree == !o.show_tree,
        FilesMsg::HeaderClick(col) => {
            &&& keeps_place(o, f) && eff is Nothing
            &&& if o.sort_col == col {
                f.sort_col == col && f.sort_desc == !o.sort_desc
            } else {
                f.sort_col == col && !f.sort_desc
            }
            &&& f.entries@.to_multiset() == o.entries@.to_multiset()
            &&& sorted_by(f.sort_col, f.sort_desc, f.entries@)
            &&& match o.selected {
                Some(i) => if i < o.entries@.len() {
                    first_with_path(f.entries@, o.entries@[i as int].path@, f.selected)
                } else {
                    f.selected is None
                },
                None => f.selected is None,
            }
        },
        FilesMsg::ToggleMenu(i) => keeps_place(o, f) && eff is Nothing
            && f.open_menu == if o.open_menu == Some(i) { None } else { Some(i) },
        FilesMsg::CloseMenu => keeps_place(o, f) && eff is Nothing && f.open_menu is None,
        FilesMsg::NewFolder => keeps_place(o, f) && eff is NewFolder && f.open_menu is None,
        FilesMsg::FolderMade(r) => keeps_place(o, f) && match r {
            Ok(()) => eff is Load,
            Err(e) => eff is Nothing && err_is(f, "Could not create folder: "@ + e@),
        },
        FilesMsg::CloseWindow => eff is Exit,
        FilesMsg::About => keeps_place(o, f) && eff is Nothing && f.open_menu is None
            && err_is(f, "MDE-Retro file manager"@),
        FilesMsg::Key(k) => if o.ctx is Some || o.open_menu is Some {
            unchanged(o, f) && eff is Nothing
        } else {
            match k {
                FilesKey::Enter => match o.selected {
                    Some(i) => activated(o, f, i, eff),
                    None => unchanged(o, f) && eff is Nothing,
                },
                FilesKey::Backspace => match path_parent(o.cwd@) {
                    Some(p) => navigated(o, f, p) && eff is Load,
                    None => unchanged(o, f) && eff is Nothing,
                },
                FilesKey::Delete => match o.selected {
                    Some(i) => trash_asked(o, f, i, eff),
                    None => unchanged(o, f) && eff is Nothing,
                },
                FilesKey::F5 => keeps_place(o, f) && eff is Load,
                FilesKey::Down => keeps_place(o, f) && eff is Nothing && if o.entries@.len() > 0 {
                    f.selected == Some(next_row(o.selected, o.entries@.len()))
                } else {
                    f.selected == o.selected
                },
                FilesKey::Up => keeps_place(o, f) && eff is Nothing && if o.entries@.len() > 0 {
                    f.selected == Some(prev_row(o.selected))
                } else {
                    f.selected == o.selected
                },
                FilesKey::Escape => keeps_place(o, f) && eff is Nothing && f.selected is None,
            }
        },
        FilesMsg::RowContext(i) => keeps_place(o, f) && eff is Nothing && f.selected == Some(i)
            && f.ctx == Some(i) && f.open_menu is None,
        FilesMsg::CloseCtx => keeps_place(o, f) && eff is Nothing && f.ctx is None && f.qctx is None
            && f.cloud_ctx is None,
        FilesMsg::CtxOpen => f.ctx is None && match target(o) {
            Some(i) => activated(o, f, i, eff),
            None => keeps_place(o, f) && eff is Nothing,
        },
        FilesMsg::CtxCut => clipped(o, f, true) && eff is Nothing,
        FilesMsg::CtxCopy => clipped(o, f, false) && eff is Nothing,
        FilesMsg::CtxPaste => keeps_place(o, f) && f.ctx is None && match o.clipboard {
            Some((src, cut)) => match file_name_spec(src@) {
                Some(n) => {
                    let dst = join_path(o.cwd@, n);
                    if dst == src@ {
                        eff is Nothing
                    } else {
                        eff matches FilesEffect::Paste { src: s, dst: d, cut: c } && s@ == src@ && d@ == dst && c == cut
                    }
                },
                None => eff is Nothing,
            },
            None => eff is Nothing,
        },
        FilesMsg::CtxDelete => f.ctx is None && match target(o) {
            Some(i) => trash_asked(o, f, i, eff),
            None => keeps_place(o, f) && eff is Nothing,
        },
        FilesMsg::CtxProperties => keeps_place(o, f) && f.ctx is None && match target(o) {
            Some(i) => if i < o.entries@.len() {
                eff matches FilesEffect::Properties { name, path } && name@ == o.entries@[i as int].name@
                    && path@ == o.entries@[i as int].path@
            } else {
                eff is Nothing
            },
            None => eff is Nothing,
        },
        FilesMsg::Loaded(r) => {
            &&& keeps_place(o, f) && eff is Nothing
            &&& f.address@ == o.cwd@ && f.selected is None && f.last_click is None
            &&& match r {
                Ok(list) => f.error is None && f.entries@.to_multiset() == list@.to_multiset()
                    && sorted_by(o.sort_col, o.sort_desc, f.entries@),
                Err(k) => err_is(f, read_error_text(k)) && f.entries@.len() == 0,
            }
        },
        FilesMsg::LaunchFailed => keeps_place(o, f) && eff is Nothing && err_is(f, "Could not open this file."@),
        FilesMsg::Trashed { name, ok } => keeps_place(o, f) && if ok {
            eff is Load
        } else {
            eff is Nothing && err_is(f, "Could not delete '"@ + name@ + "'."@)
        },
        FilesMsg::PasteDone(outcome) => keeps_place(o, f) && match outcome {
            PasteOutcome::Done => eff is Load && match o.clipboard {
                Some((_, true)) => f.clipboard is None,
                _ => f.clipboard == o.clipboard,
            },
            PasteOutcome::FolderCopy => eff is Nothing && err_is(f, "Copying folders isn't supported yet."@),
            PasteOutcome::Failed(e) => eff is Nothing && err_is(f, "Paste failed: "@ + e@),
        },
        FilesMsg::Noop => unchanged(o, f) && eff is Nothing,
    }
}


// --- the reaction --------------------------------------------------------------------

fn trimmed(s: &str) -> (r: String)
    ensures
        r@ == trim(s@),
{
    string_of(&trim_chars(&chars_of(s)))
}

impl Files {
    /// A window opened on `start`, showing `pane`, with the home folder
    /// expanded in the tree; the shell reads `start` next (`Load`).
    pub fn open(start: String, pane: Pane, pins: Vec<String>, home: Option<String>) -> (f: Files)
        ensures
            files_wf(f),
            f.cwd@ == start@,
            hist(f.history@) == seq![start@],
            f.hpos == 0,
            f.pane == pane,
            hist(f.pins@) == hist(pins@),
            forall|q: Seq<char>| expanded(f, q) == (home matches Some(h) && q == h@),
            f.entries@.len() == 0,
            f.selected is None && f.error is None && f.clipboard is None,
            f.sort_col == 0 && !f.sort_desc,
    {
        let tree: Vec<String> = match home {
            Some(h) => vec![h],
            None => Vec::new(),
        };
        let f = Files {
            cwd: start.clone(),
            address: start.clone(),
            entries: Vec::new(),
            history: vec![start],
            hpos: 0,
            selected: None,
            last_click: None,
            error: None,
            tree_expanded: tree,
            open_menu: None,
            show_tree: false,
            ctx: None,
            clipboard: None,
            sort_col: 0,
            sort_desc: false,
            search: String::new(),
            pane,
            pins,
            qctx: None,
            cloud_device: None,
            cloud_ctx: None,
            net_host: String::new(),
            net_shares: Vec::new(),
            net_busy: false,
        };
        proof {
            assert(hist(f.history@) =~= seq![f.cwd@]);
            assert(hist(f.tree_expanded@).len() <= 1);
            assert forall|q: Seq<char>| expanded(f, q) == (home matches Some(h) && q == h@) by {
                if expanded(f, q) {
                    let k = choose|k: int| 0 <= k < hist(f.tree_expanded@).len() && hist(f.tree_expanded@)[k] == q;
                    assert(k == 0);
                }
                if home matches Some(h) && q == h@ {
                    assert(hist(f.tree_expanded@)[0] == q);
                }
            }
        }
        f
    }

    /// The address bar's trimmed text, which `GoAddress` acts on.
    pub fn go_target(&self) -> (t: String)
        ensures
            t@ == address_target(*self),
    {
        trimmed(self.address.as_str())
    }

    fn navigate(&mut self, path: String)
        requires
            files_wf(*old(self)),
        ensures
            navigated(*old(self), *final(self), path@),
            files_wf(*final(self)),
            forall|p: Part| !nav_part(p) ==> #[trigger] same_part(*old(self), *final(self), p),
            final(self).tree_expanded@ == old(self).tree_expanded@,
            final(self).entries@ == old(self).entries@,
            final(self).ctx == old(self).ctx,
            final(self).last_click == old(self).last_click,
            final(self).error == old(self).error,
    {
        let ghost h0 = hist(self.history@);
        self.pane = Pane::Folder;
        self.search = String::new();
        self.cwd = path.clone();
        let n = self.history.len();
        assert(self.hpos < n);
        self.history.truncate(self.hpos + 1);
        self.history.push(path);
        self.hpos = self.history.len() - 1;
        proof {
            assert(hist(self.history@) =~= h0.take(old(self).hpos + 1).push(self.cwd@));
        }
    }

    fn go_to(&mut self, k: usize)
        requires
            files_wf(*old(self)),
            k < old(self).history@.len(),
        ensures
            moved_to(*old(self), *final(self), k as int),
            files_wf(*final(self)),
            forall|p: Part| !nav_part(p) ==> #[trigger] same_part(*old(self), *final(self), p),
            final(self).tree_expanded@ == old(self).tree_expanded@,
    {
        self.hpos = k;
        self.cwd = self.history[k].clone();
        self.pane = Pane::Folder;
        self.search = String::new();
    }

    fn activate(&mut self, i: usize) -> (eff: FilesEffect)
        requires
            files_wf(*old(self)),
        ensures
            activated(*old(self), *final(self), i, eff),
            files_wf(*final(self)),
            forall|p: Part| !(nav_part(p) && opens_folder(*old(self), i)) ==> #[trigger] same_part(*old(self), *final(self), p),
            final(self).last_click == old(self).last_click,
            final(self).ctx == old(self).ctx,
    {
        if i < self.entries.len() {
            if self.entries[i].is_dir {
                let p = self.entries[i].path.clone();
                self.navigate(p);
                FilesEffect::Load
            } else {
                FilesEffect::Launch(self.entries[i].path.clone())
            }
        } else {
            FilesEffect::Nothing
        }
    }

    fn trash(&self, i: usize) -> (eff: FilesEffect)
        ensures
            trash_asked(*self, *self, i, eff),
    {
        if i < self.entries.len() {
            FilesEffect::Trash { path: self.entries[i].path.clone(), name: self.entries[i].name.clone() }
        } else {
            FilesEffect::Nothing
        }
    }

    fn target_row(&self) -> (r: Option<usize>)
        ensures
            r == target(*self),
    {
        match self.ctx {
            Some(i) => Some(i),
            None => self.selected,
        }
    }

    fn clip(&mut self, cut: bool)
        requires
            files_wf(*old(self)),
        ensures
            clipped(*old(self), *final(self), cut),
            files_wf(*final(self)),
            forall|p: Part| !(p is Clipboard || p is Ctx) ==> #[trigger] same_part(*old(self), *final(self), p),
    {
        match self.target_row() {
            Some(i) => {
                if i < self.entries.len() {
                    self.clipboard = Some((self.entries[i].path.clone(), cut));
                }
            }
            None => {}
        }
        self.ctx = None;
    }

    fn paste(&self) -> (eff: FilesEffect)
        ensures
            match self.clipboard {
                Some((src, cut)) => match file_name_spec(src@) {
                    Some(n) => {
                        let dst = join_path(self.cwd@, n);
                        if dst == src@ {
                            eff is Nothing
                        } else {
                            eff matches FilesEffect::Paste { src: s, dst: d, cut: c } && s@ == src@ && d@ == dst && c == cut
                        }
                    },
                    None => eff is Nothing,
                },
                None => eff is Nothing,
            },
    {
        match &self.clipboard {
            Some((src, cut)) => match file_name(src.as_str()) {
                Some(n) => {
                    let dst = join_path_str(self.cwd.as_str(), n.as_str());
                    if crate::text::eq_chars(&chars_of(dst.as_str()), &chars_of(src.as_str())) {
                        FilesEffect::Nothing
                    } else {
                        FilesEffect::Paste { src: src.clone(), dst, cut: *cut }
                    }
                },
                None => FilesEffect::Nothing,
            },
            None => FilesEffect::Nothing,
        }
    }
}

/// The index of `p` in `v`, if it is there.
fn position_of(v: &Vec<String>, p: &str) -> (r: Option<usize>)
    ensures
        match r {
            Some(k) => k < v@.len() && hist(v@)[k as int] == p@ && forall|j: int| 0 <= j < k ==> hist(v@)[j] != p@,
            None => !hist(v@).contains(p@),
        },
{
    let pv = chars_of(p);
    let mut k: usize = 0;
    while k < v.len()
        invariant
            k <= v.len(),
            pv@ == p@,
            forall|j: int| 0 <= j < k ==> hist(v@)[j] != p@,
        decreases v.len() - k,
    {
        if crate::text::eq_chars(&chars_of(v[k].as_str()), &pv) {
            return Some(k);
        }
        k += 1;
    }
    proof {
        if hist(v@).contains(p@) {
            let j = choose|j: int| 0 <= j < hist(v@).len() && hist(v@)[j] == p@;
            assert(hist(v@)[j] == p@);
        }
    }
    None
}

/// The first device with id `id`, if any.
fn find_device(ds: &Vec<CloudDevice>, id: &str) -> (r: Option<usize>)
    ensures
        device_with(ds@, id@, match r { Some(k) => Some(k as int), None => None }),
{
    let pv = chars_of(id);
    let mut k: usize = 0;
    while k < ds.len()
        invariant
            k <= ds.len(),
            pv@ == id@,
            forall|j: int| 0 <= j < k ==> (#[trigger] ds@[j]).id@ != id@,
        decreases ds.len() - k,
    {
        if crate::text::eq_chars(&chars_of(ds[k].id.as_str()), &pv) {
            return Some(k);
        }
        k += 1;
    }
    None
}

/// The first row of `s` whose path is `p`.
pub(crate) fn find_path(s: &Vec<Entry>, p: &str) -> (r: Option<usize>)
    ensures
        first_with_path(s@, p@, r),
{
    let pv = chars_of(p);
    let mut k: usize = 0;
    while k < s.len()
        invariant
            k <= s.len(),
            pv@ == p@,
            forall|j: int| 0 <= j < k ==> (#[trigger] s@[j]).path@ != p@,
        decreases s.len() - k,
    {
        if crate::text::eq_chars(&chars_of(s[k].path.as_str()), &pv) {
            return Some(k);
        }
        k += 1;
    }
    None
}


impl Files {
    fn tree_toggle(&mut self, p: String)
        requires
            files_wf(*old(self)),
        ensures
            files_wf(*final(self)),
            keeps_place(*old(self), *final(self)),
            expanded(*final(self), p@) == !expanded(*old(self), p@),
            forall|q: Seq<char>| q != p@ ==> expanded(*final(self), q) == expanded(*old(self), q),
            forall|t: Part| !(t is Tree) ==> #[trigger] same_part(*old(self), *final(self), t),
    {
        let ghost t0 = hist(self.tree_expanded@);
        match position_of(&self.tree_expanded, p.as_str()) {
            Some(k) => {
                self.tree_expanded.remove(k);
                proof {
                    let t1 = hist(self.tree_expanded@);
                    assert(t1 =~= t0.remove(k as int));
                    assert forall|q: Seq<char>| q != p@ implies t1.contains(q) == t0.contains(q) by {
                        if t0.contains(q) {
                            let j = choose|j: int| 0 <= j < t0.len() && t0[j] == q;
                            if j < k { assert(t1[j] == q); } else { assert(t1[j - 1] == q); }
                        }
                        if t1.contains(q) {
                            let j = choose|j: int| 0 <= j < t1.len() && t1[j] == q;
                            if j < k { assert(t0[j] == q); } else { assert(t0[j + 1] == q); }
                        }
                    }
                    if t1.contains(p@) {
                        let j = choose|j: int| 0 <= j < t1.len() && t1[j] == p@;
                        if j < k { assert(t0[j] == p@); } else { assert(t0[j + 1] == p@); }
                    }
                    assert(t0[k as int] == p@);
                    assert forall|a: int, b: int| 0 <= a < t1.len() && 0 <= b < t1.len() && a != b
                        implies t1[a] != t1[b] by {
                        let a0 = if a < k { a } else { a + 1 };
                        let b0 = if b < k { b } else { b + 1 };
                        assert(t1[a] == t0[a0] && t1[b] == t0[b0]);
                    }
                }
            }
            None => {
                self.tree_expanded.push(p);
                proof {
                    let t1 = hist(self.tree_expanded@);
                    assert(t1 =~= t0.push(p@));
                    assert(t1[t0.len() as int] == p@);
                    assert forall|q: Seq<char>| q != p@ implies t1.contains(q) == t0.contains(q) by {
                        if t0.contains(q) {
                            let j = choose|j: int| 0 <= j < t0.len() && t0[j] == q;
                            assert(t1[j] == q);
                        }
                        if t1.contains(q) {
                            let j = choose|j: int| 0 <= j < t1.len() && t1[j] == q;
                            assert(t0[j] == q);
                        }
                    }
                    assert forall|a: int, b: int| 0 <= a < t1.len() && 0 <= b < t1.len() && a != b
                        implies t1[a] != t1[b] by {
                        if a == t0.len() { assert(t0[b] == t1[b]); }
                        else if b == t0.len() { assert(t0[a] == t1[a]); }
                    }
                }
            }
        }
    }

    fn tree_insert(&mut self, p: &String)
        requires
            files_wf(*old(self)),
        ensures
            files_wf(*final(self)),
            keeps_place(*old(self), *final(self)),
            forall|q: Seq<char>| expanded(*final(self), q) == (expanded(*old(self), q) || q == p@),
            forall|t: Part| !(t is Tree) ==> #[trigger] same_part(*old(self), *final(self), t),
    {
        if position_of(&self.tree_expanded, p.as_str()).is_none() {
            self.tree_toggle(p.clone());
        }
    }
}

/// The messages `handle_place` takes.
pub open spec fn place_msg(msg: FilesMsg) -> bool {
    msg is Open
        || msg is Up
        || msg is Back
        || msg is Forward
        || msg is Home
        || msg is Refresh
        || msg is AddressChanged
        || msg is SearchChanged
        || msg is GoAddress
        || msg is TreeToggle
        || msg is TreeNav
        || msg is OpenPath
}

/// The messages `handle_remote` takes.
pub open spec fn remote_msg(msg: FilesMsg) -> bool {
    msg is QuickContext
        || msg is TogglePin
        || msg is ShowQuick
        || msg is ShowThisPc
        || msg is ShowNetwork
        || msg is NetHostChanged
        || msg is NetBrowse
        || msg is NetBrowsed
        || msg is OpenShare
        || msg is ShowCloud
        || msg is MountCloud
        || msg is MountDone
}

/// The messages `handle_menus` takes.
pub open spec fn menus_msg(msg: FilesMsg) -> bool {
    msg is CloudContext
        || msg is MakeOffline
        || msg is OfflineDone
        || msg is FreeUp
        || msg is FreedUp
        || msg is ToggleFolders
        || msg is HeaderClick
        || msg is ToggleMenu
        || msg is CloseMenu
        || msg is NewFolder
        || msg is FolderMade
        || msg is CloseWindow
        || msg is About
}

/// The messages `handle_rows` takes.
pub open spec fn rows_msg(msg: FilesMsg) -> bool {
    msg is Key
        || msg is RowContext
        || msg is CloseCtx
        || msg is CtxOpen
        || msg is CtxCut
        || msg is CtxCopy
        || msg is CtxPaste
        || msg is CtxDelete
        || msg is CtxProperties
        || msg is Loaded
        || msg is LaunchFailed
        || msg is Trashed
        || msg is PasteDone
        || msg is Noop
}

/// Navigation, the address and search boxes, and the tree.
#[verifier::spinoff_prover]
fn handle_place(state: &mut Files, msg: FilesMsg) -> (eff: FilesEffect)
    requires
        files_wf(*old(state)),
        place_msg(msg),
    ensures
        files_wf(*final(state)),
        files_step(*old(state), msg, *final(state), eff),
        files_frame(*old(state), msg, *final(state)),
{
    match msg {
        FilesMsg::Open { index, now_ms } => {
            let double = match state.last_click {
                Some((li, lt)) => li == index && (now_ms < lt || now_ms - lt < 400),
                None => false,
            };
            if double {
                state.last_click = None;
                let ghost mid = *state;
                let e = state.activate(index);
                proof {
                    assert forall|p: Part| !(p is LastClick || (nav_part(p) && opens_folder(*old(state), index)))
                        implies #[trigger] same_part(*old(state), *state, p) by {
                        assert(same_part(mid, *state, p));
                    }
                }
                e
            } else {
                state.selected = Some(index);
                state.last_click = Some((index, now_ms));
                FilesEffect::Nothing
            }
        }
        FilesMsg::Up => match parent_of(state.cwd.as_str()) {
            Some(p) => {
                state.navigate(p);
                FilesEffect::Load
            }
            None => FilesEffect::Nothing,
        },
        FilesMsg::Back => {
            if state.hpos > 0 {
                let k = state.hpos - 1;
                state.go_to(k);
                FilesEffect::Load
            } else {
                FilesEffect::Nothing
            }
        }
        FilesMsg::Forward => {
            let n = state.history.len();
            if state.hpos < n - 1 {
                let k = state.hpos + 1;
                state.go_to(k);
                FilesEffect::Load
            } else {
                FilesEffect::Nothing
            }
        }
        FilesMsg::Home(h) => match h {
            Some(p) => {
                state.navigate(p);
                FilesEffect::Load
            }
            None => FilesEffect::Nothing,
        },
        FilesMsg::Refresh => FilesEffect::Load,
        FilesMsg::AddressChanged(t) => {
            state.address = t;
            state.error = None;
            FilesEffect::Nothing
        }
        FilesMsg::SearchChanged(t) => {
            state.search = t;
            FilesEffect::Nothing
        }
        FilesMsg::GoAddress { is_dir } => {
            let addr = state.go_target();
            if crate::text::has(&chars_of(addr.as_str()), "://") {
                state.error = Some(cat3("Connecting to ", addr.as_str(), "\u{2026}"));
                FilesEffect::Mount { uri: addr, cloud_id: None }
            } else if is_dir {
                state.navigate(addr);
                FilesEffect::Load
            } else {
                state.error = Some(cat3("Cannot find '", addr.as_str(), "'."));
                FilesEffect::Nothing
            }
        }
        FilesMsg::TreeToggle(p) => {
            state.tree_toggle(p);
            FilesEffect::Nothing
        }
        FilesMsg::TreeNav { path, is_dir } => {
            if is_dir {
                state.tree_insert(&path);
                let ghost mid = *state;
                state.navigate(path);
                proof {
                    assert forall|p: Part| !(nav_part(p) || p is Tree) implies #[trigger] same_part(*old(state), *state, p) by {
                        assert(same_part(*old(state), mid, p));
                        assert(same_part(mid, *state, p));
                    }
                }
                FilesEffect::Load
            } else {
                FilesEffect::Nothing
            }
        }
        FilesMsg::OpenPath { path, is_dir } => {
            if is_dir {
                state.navigate(path);
                FilesEffect::Load
            } else {
                FilesEffect::Launch(path)
            }
        }
        _ => FilesEffect::Nothing,
    }
}

/// Quick access, the panes, network browsing and cloud mounts.
#[verifier::spinoff_prover]
fn handle_remote(state: &mut Files, msg: FilesMsg) -> (eff: FilesEffect)
    requires
        files_wf(*old(state)),
        remote_msg(msg),
    ensures
        files_wf(*final(state)),
        files_step(*old(state), msg, *final(state), eff),
        files_frame(*old(state), msg, *final(state)),
{
    match msg {
        FilesMsg::QuickContext(p) => {
            state.qctx = Some(p);
            state.ctx = None;
            state.open_menu = None;
            FilesEffect::Nothing
        }
        FilesMsg::TogglePin(p) => {
            state.ctx = None;
            state.qctx = None;
            let ghost p0 = hist(state.pins@);
            match position_of(&state.pins, p.as_str()) {
                Some(k) => {
                    state.pins.remove(k);
                    proof {
                        assert(p0.contains(p@)) by { assert(p0[k as int] == p@); }
                        assert(first_at(p0, p@, k as int));
                        assert(hist(state.pins@) =~= p0.remove(k as int));
                    }
                }
                None => {
                    state.pins.push(p);
                    proof { assert(hist(state.pins@) =~= p0.push(p@)); }
                }
            }
            FilesEffect::SavePins
        }
        FilesMsg::ShowQuick => {
            state.pane = Pane::QuickAccess;
            FilesEffect::Nothing
        }
        FilesMsg::ShowThisPc => {
            state.pane = Pane::ThisPc;
            FilesEffect::Nothing
        }
        FilesMsg::ShowNetwork => {
            state.pane = Pane::Network;
            FilesEffect::Nothing
        }
        FilesMsg::NetHostChanged(t) => {
            state.net_host = t;
            FilesEffect::Nothing
        }
        FilesMsg::NetBrowse => {
            let host = trimmed(state.net_host.as_str());
            if host.as_str().is_empty() {
                FilesEffect::Nothing
            } else {
                state.net_busy = true;
                state.net_shares = Vec::new();
                state.error = Some(cat3("Browsing \\\\", host.as_str(), "\u{2026}"));
                FilesEffect::Browse(host)
            }
        }
        FilesMsg::NetBrowsed(r) => {
            state.net_busy = false;
            match r {
                Ok(shares) => {
                    if shares.len() == 0 {
                        let host = trimmed(state.net_host.as_str());
                        state.error = Some(cat3("No shares found on '", host.as_str(), "'."));
                    } else {
                        state.error = None;
                    }
                    state.net_shares = shares;
                }
                Err(e) => {
                    state.net_shares = Vec::new();
                    state.error = Some(e);
                }
            }
            FilesEffect::Nothing
        }
        FilesMsg::OpenShare(uri) => {
            state.error = Some(cat3("Connecting to ", uri.as_str(), "\u{2026}"));
            FilesEffect::Mount { uri, cloud_id: None }
        }
        FilesMsg::ShowCloud => {
            state.cloud_device = None;
            state.pane = Pane::CloudDevice;
            FilesEffect::Nothing
        }
        FilesMsg::MountCloud { id, devices } => {
            let found = find_device(&devices, id.as_str());
            match found {
                Some(k) => {
                    let d = &devices[k];
                    state.cloud_device = Some(id.clone());
                    state.pane = Pane::CloudDevice;
                    if d.address.as_str().is_empty() {
                        state.error = Some(cat3("No address configured for '", d.name.as_str(), "'."));
                        FilesEffect::Nothing
                    } else {
                        state.error = Some(cat3("Connecting to '", d.name.as_str(), "'\u{2026}"));
                        let mut uri = "sftp://".to_owned();
                        push_str(&mut uri, d.address.as_str());
                        FilesEffect::Mount { uri, cloud_id: Some(id) }
                    }
                }
                None => FilesEffect::Nothing,
            }
        }
        FilesMsg::MountDone { result, cloud_id } => match result {
            Ok(path) => {
                state.navigate(path);
                FilesEffect::Load
            }
            Err(e) => {
                match cloud_id {
                    Some(c) => {
                        state.cloud_device = Some(c);
                        state.pane = Pane::CloudDevice;
                    }
                    None => {}
                }
                state.error = Some(e);
                FilesEffect::Nothing
            }
        },
        _ => FilesEffect::Nothing,
    }
}

/// The cloud context menu, the menus, sorting and the toolbar.
#[verifier::spinoff_prover]
fn handle_menus(state: &mut Files, msg: FilesMsg) -> (eff: FilesEffect)
    requires
        files_wf(*old(state)),
        menus_msg(msg),
    ensures
        files_wf(*final(state)),
        files_step(*old(state), msg, *final(state), eff),
        files_frame(*old(state), msg, *final(state)),
{
    match msg {
        FilesMsg::CloudContext(id) => {
            state.cloud_ctx = Some(id);
            state.ctx = None;
            state.qctx = None;
            state.open_menu = None;
            FilesEffect::Nothing
        }
        FilesMsg::MakeOffline { id, devices, mirror } => {
            state.cloud_ctx = None;
            let found = find_device(&devices, id.as_str());
            match found {
                Some(k) => {
                    let d = &devices[k];
                    match mirror {
                        Some(m) => {
                            if d.address.as_str().is_empty() {
                                state.error = Some(cat3("No address configured for '", d.name.as_str(), "'."));
                                FilesEffect::Nothing
                            } else {
                                let mut uri = "sftp://".to_owned();
                                push_str(&mut uri, d.address.as_str());
                                FilesEffect::MakeOffline { uri, mirror: m, name: d.name.clone() }
                            }
                        }
                        None => {
                            state.error = Some(cat3("No address configured for '", d.name.as_str(), "'."));
                            FilesEffect::Nothing
                        }
                    }
                }
                None => FilesEffect::Nothing,
            }
        }
        FilesMsg::OfflineDone { name, outcome } => {
            match outcome {
                OfflineOutcome::Copied(n) => {
                    let mut t = cat3("'", name.as_str(), "' is now available offline (");
                    crate::text::push_dec(&mut t, n);
                    push_str(&mut t, " file(s)).");
                    state.error = Some(t);
                }
                OfflineOutcome::CopyFailed(e) => {
                    let mut t = cat3("Could not copy '", name.as_str(), "' offline: ");
                    push_str(&mut t, e.as_str());
                    state.error = Some(t);
                }
                OfflineOutcome::MountFailed(e) => {
                    state.error = Some(e);
                }
            }
            FilesEffect::Nothing
        }
        FilesMsg::FreeUp { id, mirror } => {
            state.cloud_ctx = None;
            match mirror {
                Some(m) => FilesEffect::RemoveDir(m),
                None => FilesEffect::Nothing,
            }
        }
        FilesMsg::FreedUp(r) => {
            match r {
                Ok(()) => {}
                Err(e) => {
                    state.error = Some(cat2("Could not free up space: ", e.as_str()));
                }
            }
            FilesEffect::Nothing
        }
        FilesMsg::ToggleFolders => {
            state.show_tree = !state.show_tree;
            FilesEffect::Nothing
        }
        FilesMsg::HeaderClick(col) => {
            header_click(state, col);
            FilesEffect::Nothing
        }
        FilesMsg::ToggleMenu(i) => {
            state.open_menu = if state.open_menu == Some(i) { None } else { Some(i) };
            FilesEffect::Nothing
        }
        FilesMsg::CloseMenu => {
            state.open_menu = None;
            FilesEffect::Nothing
        }
        FilesMsg::NewFolder => {
            state.open_menu = None;
            FilesEffect::NewFolder
        }
        FilesMsg::FolderMade(r) => match r {
            Ok(()) => FilesEffect::Load,
            Err(e) => {
                state.error = Some(cat2("Could not create folder: ", e.as_str()));
                FilesEffect::Nothing
            }
        },
        FilesMsg::CloseWindow => FilesEffect::Exit,
        FilesMsg::About => {
            state.open_menu = None;
            state.error = Some("MDE-Retro file manager".to_owned());
            FilesEffect::Nothing
        }
        _ => FilesEffect::Nothing,
    }
}

/// The keyboard, the row context menu, and what the shell reads back.
#[verifier::spinoff_prover]
fn handle_rows(state: &mut Files, msg: FilesMsg) -> (eff: FilesEffect)
    requires
        files_wf(*old(state)),
        rows_msg(msg),
    ensures
        files_wf(*final(state)),
        files_step(*old(state), msg, *final(state), eff),
        files_frame(*old(state), msg, *final(state)),
{
    match msg {
        FilesMsg::Key(k) => key(state, k),
        FilesMsg::RowContext(i) => {
            state.selected = Some(i);
            state.ctx = Some(i);
            state.open_menu = None;
            FilesEffect::Nothing
        }
        FilesMsg::CloseCtx => {
            state.ctx = None;
            state.qctx = None;
            state.cloud_ctx = None;
            FilesEffect::Nothing
        }
        FilesMsg::CtxOpen => {
            let t = state.target_row();
            state.ctx = None;
            let ghost mid = *state;
            let e = match t {
                Some(i) => state.activate(i),
                None => FilesEffect::Nothing,
            };
            proof {
                assert forall|p: Part| !(p is Ctx || (nav_part(p) && match target(*old(state)) {
                    Some(i) => opens_folder(*old(state), i),
                    None => false,
                })) implies #[trigger] same_part(*old(state), *state, p) by {
                    assert(same_part(mid, *state, p));
                }
            }
            e
        }
        FilesMsg::CtxCut => {
            state.clip(true);
            FilesEffect::Nothing
        }
        FilesMsg::CtxCopy => {
            state.clip(false);
            FilesEffect::Nothing
        }
        FilesMsg::CtxPaste => {
            state.ctx = None;
            state.paste()
        }
        FilesMsg::CtxDelete => {
            let t = state.target_row();
            state.ctx = None;
            match t {
                Some(i) => state.trash(i),
                None => FilesEffect::Nothing,
            }
        }
        FilesMsg::CtxProperties => {
            let t = state.target_row();
            state.ctx = None;
            match t {
                Some(i) => {
                    if i < state.entries.len() {
                        FilesEffect::Properties {
                            name: state.entries[i].name.clone(),
                            path: state.entries[i].path.clone(),
                        }
                    } else {
                        FilesEffect::Nothing
                    }
                }
                None => FilesEffect::Nothing,
            }
        }
        FilesMsg::Loaded(r) => {
            loaded(state, r);
            FilesEffect::Nothing
        }
        FilesMsg::LaunchFailed => {
            state.error = Some("Could not open this file.".to_owned());
            FilesEffect::Nothing
        }
        FilesMsg::Trashed { name, ok } => {
            if ok {
                FilesEffect::Load
            } else {
                state.error = Some(cat3("Could not delete '", name.as_str(), "'."));
                FilesEffect::Nothing
            }
        }
        FilesMsg::PasteDone(outcome) => match outcome {
            PasteOutcome::Done => {
                let was_cut = match &state.clipboard {
                    Some((_, c)) => *c,
                    None => false,
                };
                if was_cut {
                    state.clipboard = None;
                }
                FilesEffect::Load
            }
            PasteOutcome::FolderCopy => {
                state.error = Some("Copying folders isn't supported yet.".to_owned());
                FilesEffect::Nothing
            }
            PasteOutcome::Failed(e) => {
                state.error = Some(cat2("Paste failed: ", e.as_str()));
                FilesEffect::Nothing
            }
        },
        FilesMsg::Noop => FilesEffect::Nothing,
        _ => FilesEffect::Nothing,
    }
}

/// The window's reaction to one message.
pub fn handle_files(state: &mut Files, msg: FilesMsg) -> (eff: FilesEffect)
    requires
        files_wf(*old(state)),
    ensures
        files_wf(*final(state)),
        files_step(*old(state), msg, *final(state), eff),
        files_frame(*old(state), msg, *final(state)),
{
    let g: u8 = match &msg {
        FilesMsg::Open { .. }
            | FilesMsg::Up { .. }
            | FilesMsg::Back { .. }
            | FilesMsg::Forward { .. }
            | FilesMsg::Home { .. }
            | FilesMsg::Refresh { .. }
            | FilesMsg::AddressChanged { .. }
            | FilesMsg::SearchChanged { .. }
            | FilesMsg::GoAddress { .. }
            | FilesMsg::TreeToggle { .. }
            | FilesMsg::TreeNav { .. }
            | FilesMsg::OpenPath { .. } => 0,
        FilesMsg::QuickContext { .. }
            | FilesMsg::TogglePin { .. }
            | FilesMsg::ShowQuick { .. }
            | FilesMsg::ShowThisPc { .. }
            | FilesMsg::ShowNetwork { .. }
            | FilesMsg::NetHostChanged { .. }
            | FilesMsg::NetBrowse { .. }
            | FilesMsg::NetBrowsed { .. }
            | FilesMsg::OpenShare { .. }
            | FilesMsg::ShowCloud { .. }
            | FilesMsg::MountCloud { .. }
            | FilesMsg::MountDone { .. } => 1,
        FilesMsg::CloudContext { .. }
            | FilesMsg::MakeOffline { .. }
            | FilesMsg::OfflineDone { .. }
            | FilesMsg::FreeUp { .. }
            | FilesMsg::FreedUp { .. }
            | FilesMsg::ToggleFolders { .. }
            | FilesMsg::HeaderClick { .. }
            | FilesMsg::ToggleMenu { .. }
            | FilesMsg::CloseMenu { .. }
            | FilesMsg::NewFolder { .. }
            | FilesMsg::FolderMade { .. }
            | FilesMsg::CloseWindow { .. }
            | FilesMsg::About { .. } => 2,
        FilesMsg::Key { .. }
            | FilesMsg::RowContext { .. }
            | FilesMsg::CloseCtx { .. }
            | FilesMsg::CtxOpen { .. }
            | FilesMsg::CtxCut { .. }
            | FilesMsg::CtxCopy { .. }
            | FilesMsg::CtxPaste { .. }
            | FilesMsg::CtxDelete { .. }
            | FilesMsg::CtxProperties { .. }
            | FilesMsg::Loaded { .. }
            | FilesMsg::LaunchFailed { .. }
            | FilesMsg::Trashed { .. }
            | FilesMsg::PasteDone { .. }
            | FilesMsg::Noop { .. } => 3,
    };
    if g == 0 {
        handle_place(state, msg)
    } else if g == 1 {
        handle_remote(state, msg)
    } else if g == 2 {
        handle_menus(state, msg)
    } else {
        handle_rows(state, msg)
    }
}


fn header_click(state: &mut Files, col: usize)
    requires
        files_wf(*old(state)),
    ensures
        files_wf(*final(state)),
        files_step(*old(state), FilesMsg::HeaderClick(col), *final(state), FilesEffect::Nothing),
        forall|p: Part| !(p is Sort || p is Entries || p is Selected) ==> #[trigger] same_part(*old(state), *final(state), p),
{
    if state.sort_col == col {
        state.sort_desc = !state.sort_desc;
    } else {
        state.sort_col = col;
        state.sort_desc = false;
    }
    let sel: Option<String> = match state.selected {
        Some(i) => if i < state.entries.len() { Some(state.entries[i].path.clone()) } else { None },
        None => None,
    };
    let mut entries: Vec<Entry> = Vec::new();
    std::mem::swap(&mut entries, &mut state.entries);
    state.entries = sort_entries(entries, state.sort_col, state.sort_desc);
    state.selected = match sel {
        Some(p) => find_path(&state.entries, p.as_str()),
        None => None,
    };
}

fn loaded(state: &mut Files, r: Result<Vec<Entry>, ReadError>)
    requires
        files_wf(*old(state)),
    ensures
        files_wf(*final(state)),
        files_step(*old(state), FilesMsg::Loaded(r), *final(state), FilesEffect::Nothing),
        forall|p: Part| !(p is Entries || p is Error || p is Address || p is Selected || p is LastClick)
            ==> #[trigger] same_part(*old(state), *final(state), p),
{
    match r {
        Ok(list) => {
            state.entries = sort_entries(list, state.sort_col, state.sort_desc);
            state.error = None;
        }
        Err(k) => {
            state.entries = Vec::new();
            state.error = Some(match k {
                ReadError::PermissionDenied => "Access denied.".to_owned(),
                ReadError::NotFound => "Folder not found.".to_owned(),
                ReadError::Other => "Cannot read this folder.".to_owned(),
            });
        }
    }
    state.address = state.cwd.clone();
    state.selected = None;
    state.last_click = None;
}

fn key(state: &mut Files, k: FilesKey) -> (eff: FilesEffect)
    requires
        files_wf(*old(state)),
    ensures
        files_wf(*final(state)),
        files_step(*old(state), FilesMsg::Key(k), *final(state), eff),
        forall|p: Part| !touches(*old(state), FilesMsg::Key(k), p) ==> #[trigger] same_part(*old(state), *final(state), p),
{
    if state.ctx.is_some() || state.open_menu.is_some() {
        return FilesEffect::Nothing;
    }
    match k {
        FilesKey::Enter => match state.selected {
            Some(i) => state.activate(i),
            None => FilesEffect::Nothing,
        },
        FilesKey::Backspace => match parent_of(state.cwd.as_str()) {
            Some(p) => {
                state.navigate(p);
                FilesEffect::Load
            }
            None => FilesEffect::Nothing,
        },
        FilesKey::Delete => match state.selected {
            Some(i) => state.trash(i),
            None => FilesEffect::Nothing,
        },
        FilesKey::F5 => FilesEffect::Load,
        FilesKey::Down => {
            let n = state.entries.len();
            if n > 0 {
                state.selected = Some(match state.selected {
                    None => 0,
                    Some(i) => if i < n - 1 { i + 1 } else { n - 1 },
                });
            }
            FilesEffect::Nothing
        }
        FilesKey::Up => {
            if state.entries.len() > 0 {
                state.selected = Some(match state.selected {
                    None => 0,
                    Some(i) => if i > 0 { i - 1 } else { 0 },
                });
            }
            FilesEffect::Nothing
        }
        FilesKey::Escape => {
            state.selected = None;
            FilesEffect::Nothing
        }
    }
}

/// Cut or copy: the target row's path goes to the clipboard.
pub open spec fn clipped(o: Files, f: Files, cut: bool) -> bool {
    &&& keeps_place(o, f) && f.ctx is None
    &&& match target(o) {
        Some(i) => if i < o.entries@.len() {
            f.clipboard matches Some((p, c)) && p@ == o.entries@[i as int].path@ && c == cut
        } else {
            f.clipboard == o.clipboard
        },
        None => f.clipboard == o.clipboard,
    }
}

// --- laws ---------------------------------------------------------------------------

/// Back after entering a folder returns to the folder the window was in,
/// and Forward then enters that folder again.
pub proof fn law_back_then_forward_after_navigate(o: Files, m: Files, b: Files, f: Files, p: Seq<char>,
    e1: FilesEffect, e2: FilesEffect)
    requires
        files_wf(o),
        navigated(o, m, p),
        files_step(m, FilesMsg::Back, b, e1),
        files_step(b, FilesMsg::Forward, f, e2),
    ensures
        b.cwd@ == o.cwd@,
        b.hpos == o.hpos,
        f.cwd@ == p,
        f.hpos == m.hpos,
{
    let hm = hist(m.history@);
    let ho = hist(o.history@);
    assert(hm.len() == m.history@.len() && ho.len() == o.history@.len());
    assert(hm[o.hpos as int] == ho[o.hpos as int]);
    assert(hm[o.hpos as int] == m.history@[o.hpos as int]@);
    assert(ho[o.hpos as int] == o.history@[o.hpos as int]@);
    assert(hist(b.history@) == hm);
    assert(hist(b.history@).len() == b.history@.len());
    assert(hm[m.hpos as int] == p);
    assert(hm[m.hpos as int] == m.history@[m.hpos as int]@);
    assert(hist(b.history@)[m.hpos as int] == b.history@[m.hpos as int]@);
}

/// Back and then Forward come back to the same folder.
pub proof fn law_back_forward_round_trip(o: Files, m: Files, f: Files, e1: FilesEffect, e2: FilesEffect)
    requires
        files_wf(o),
        o.hpos > 0,
        files_step(o, FilesMsg::Back, m, e1),
        files_step(m, FilesMsg::Forward, f, e2),
    ensures
        f.cwd@ == o.cwd@,
        f.hpos == o.hpos,
{
    let hm = hist(m.history@);
    let ho = hist(o.history@);
    assert(hm.len() == m.history@.len() && ho.len() == o.history@.len());
    assert(hm[o.hpos as int] == m.history@[o.hpos as int]@);
    assert(ho[o.hpos as int] == o.history@[o.hpos as int]@);
}

/// Toggling a tree folder twice leaves the tree as it was, and every other
/// part of the window untouched.
pub proof fn law_tree_toggle_twice(o: Files, m: Files, f: Files, p: String, q: String, e1: FilesEffect,
    e2: FilesEffect)
    requires
        p@ == q@,
        files_step(o, FilesMsg::TreeToggle(p), m, e1),
        files_frame(o, FilesMsg::TreeToggle(p), m),
        files_step(m, FilesMsg::TreeToggle(q), f, e2),
        files_frame(m, FilesMsg::TreeToggle(q), f),
    ensures
        forall|x: Seq<char>| expanded(f, x) == expanded(o, x),
        forall|t: Part| !(t is Tree) ==> #[trigger] same_part(o, f, t),
{
    assert forall|t: Part| !(t is Tree) implies #[trigger] same_part(o, f, t) by {
        assert(same_part(o, m, t) && same_part(m, f, t));
    }
}

/// Clicking the same column header twice restores the sort direction, and
/// re-sorting never adds or drops a row.
pub proof fn law_header_click_twice(o: Files, m: Files, f: Files, col: usize, e1: FilesEffect, e2: FilesEffect)
    requires
        files_step(o, FilesMsg::HeaderClick(col), m, e1),
        files_step(m, FilesMsg::HeaderClick(col), f, e2),
    ensures
        f.sort_col == col,
        o.sort_col == col ==> f.sort_desc == o.sort_desc,
        f.entries@.to_multiset() == o.entries@.to_multiset(),
{
}

} // verus!
