//! Start menu model: the classic column with cascading submenus, its keyboard
//! navigation (arrow stepping that skips separators and wraps, accelerator
//! letters), the open-submenu path, and the menu tree itself.

use vstd::prelude::*;
use crate::text::{chars_of, has, lower_ascii, lower_ascii_char, lower_ascii_chars,
    to_ascii_lower_char, contains};
use crate::fedora::{categories, strs, tools, tools_spec, tool_views, ToolView, dedup};
use crate::apps::App;
use crate::text::push_str;

verus! {

/// What a leaf does when activated.
pub enum Act {
    /// A fedora tool, by its index in the tool table.
    Tool(usize),
    /// A shell command, and whether it runs in a terminal.
    Cmd(String, bool),
    /// Re-exec this binary with a subcommand.
    Mde(&'static str),
    Run,
    Help,
    LogOff,
    ShutDown,
}

/// A node in the menu tree.
pub enum Node {
    Sep,
    Leaf(String, Act),
    Sub(String, Vec<Node>),
}

/// The Start menu's state.
pub struct Menu {
    pub root: Vec<Node>,
    /// Indices of the currently-open submenu chain (column 0 selects column 1...).
    pub open: Vec<usize>,
    /// Keyboard selection within the active (deepest-open) column; `None` until
    /// the first arrow key.
    pub cursor: Option<usize>,
    /// The (column, index) of the right-clicked item showing a context menu.
    pub context: Option<(usize, usize)>,
    /// "Show small icons in Start menu".
    pub small_icons: bool,
    /// Names of currently-pinned items.
    pub pinned: Vec<String>,
}

/// An activation as plain values.
pub enum ActView {
    Tool(nat),
    Cmd(Seq<char>, bool),
    Mde(Seq<char>),
    Run,
    Help,
    LogOff,
    ShutDown,
}

pub open spec fn act_view(a: Act) -> ActView {
    match a {
        Act::Tool(i) => ActView::Tool(i as nat),
        Act::Cmd(c, t) => ActView::Cmd(c@, t),
        Act::Mde(s) => ActView::Mde(s@),
        Act::Run => ActView::Run,
        Act::Help => ActView::Help,
        Act::LogOff => ActView::LogOff,
        Act::ShutDown => ActView::ShutDown,
    }
}

/// The label of a leaf or submenu (empty for a separator).
pub open spec fn label_of(n: Node) -> Seq<char> {
    match n {
        Node::Leaf(l, _) => l@,
        Node::Sub(l, _) => l@,
        Node::Sep => seq![],
    }
}

/// The entries of a submenu (empty for anything else).
pub open spec fn children(n: Node) -> Seq<Node> {
    match n {
        Node::Sub(_, c) => c@,
        _ => seq![],
    }
}

/// `n` is the leaf `label` doing `a`.
pub open spec fn is_leaf(n: Node, label: Seq<char>, a: ActView) -> bool {
    n matches Node::Leaf(l, x) && l@ == label && act_view(x) == a
}

/// `n` is the submenu `label`.
pub open spec fn is_sub(n: Node, label: Seq<char>) -> bool {
    n matches Node::Sub(l, _) && l@ == label
}

// --- columns and the open path ------------------------------------------------

/// The visible columns from `cur` along the open path: the column itself, then
/// each opened submenu's entries, stopping at the first index that is not a
/// submenu.
pub open spec fn cols_from(cur: Seq<Node>, open: Seq<usize>) -> Seq<Seq<Node>>
    decreases open.len(),
{
    if open.len() > 0 && open[0] < cur.len() && cur[open[0] as int] is Sub {
        seq![cur] + cols_from(children(cur[open[0] as int]), open.drop_first())
    } else {
        seq![cur]
    }
}

pub open spec fn menu_cols(m: Menu) -> Seq<Seq<Node>> {
    cols_from(m.root@, m.open@)
}

/// Every index of the open path names a submenu: there is one column per
/// opened level, plus the root.
pub open spec fn menu_wf(m: Menu) -> bool {
    menu_cols(m).len() == m.open@.len() + 1
}

/// The active (deepest-open) column's entries.
pub open spec fn active_nodes(m: Menu) -> Seq<Node> {
    menu_cols(m)[m.open@.len() as int]
}

pub open spec fn col_views(c: Seq<&Vec<Node>>) -> Seq<Seq<Node>> {
    c.map_values(|v: &Vec<Node>| v@)
}

proof fn lemma_cols_len(cur: Seq<Node>, open: Seq<usize>)
    ensures
        1 <= cols_from(cur, open).len() <= open.len() + 1,
        cols_from(cur, open)[0] == cur,
    decreases open.len(),
{
    if open.len() > 0 && open[0] < cur.len() && cur[open[0] as int] is Sub {
        lemma_cols_len(children(cur[open[0] as int]), open.drop_first());
    }
}

/// Extending a fully valid path by one index adds the column of that entry when
/// it is a submenu, and nothing otherwise.
proof fn lemma_cols_push(cur: Seq<Node>, open: Seq<usize>, c: usize)
    requires
        cols_from(cur, open).len() == open.len() + 1,
    ensures
        ({
            let last = cols_from(cur, open).last();
            cols_from(cur, open.push(c)) == if c < last.len() && last[c as int] is Sub {
                cols_from(cur, open).push(children(last[c as int]))
            } else {
                cols_from(cur, open)
            }
        }),
    decreases open.len(),
{
    lemma_cols_len(cur, open);
    if open.len() == 0 {
        assert(open.push(c).drop_first() =~= Seq::<usize>::empty());
        assert(cols_from(cur, open) =~= seq![cur]);
        let last = cols_from(cur, open).last();
        assert(last == cur);
        if c < cur.len() && cur[c as int] is Sub {
            assert(open.push(c)[0] == c);
            assert(cols_from(children(cur[c as int]), open.push(c).drop_first()) =~= seq![children(cur[c as int])]);
            assert(cols_from(cur, open.push(c)) =~= seq![cur] + seq![children(cur[c as int])]);
        }
    } else {
        let ch = children(cur[open[0] as int]);
        assert(open.push(c).drop_first() =~= open.drop_first().push(c));
        assert(open.push(c)[0] == open[0]);
        lemma_cols_push(ch, open.drop_first(), c);
        lemma_cols_len(ch, open.drop_first());
        lemma_cols_len(ch, open.drop_first().push(c));
        let last = cols_from(ch, open.drop_first()).last();
        assert(cols_from(cur, open).last() == last);
        if c < last.len() && last[c as int] is Sub {
            assert(cols_from(cur, open.push(c)) =~= cols_from(cur, open).push(children(last[c as int])));
        } else {
            assert(cols_from(cur, open.push(c)) =~= cols_from(cur, open));
        }
    }
}

/// Dropping the last index of a fully valid path drops the last column.
proof fn lemma_cols_pop(cur: Seq<Node>, open: Seq<usize>)
    requires
        open.len() > 0,
        cols_from(cur, open).len() == open.len() + 1,
    ensures
        cols_from(cur, open.drop_last()) == cols_from(cur, open).drop_last(),
        cols_from(cur, open.drop_last()).len() == open.len(),
    decreases open.len(),
{
    lemma_cols_len(cur, open.drop_last());
    if !(open[0] < cur.len() && cur[open[0] as int] is Sub) {
        lemma_cols_len(cur, open);
    } else {
        let ch = children(cur[open[0] as int]);
        lemma_cols_len(ch, open.drop_first());
        if open.len() == 1 {
            assert(open.drop_last() =~= Seq::<usize>::empty());
            assert(cols_from(ch, open.drop_first()).len() == 1);
            assert(cols_from(cur, open).drop_last() =~= seq![cur]);
        } else {
            assert(open.drop_last().drop_first() =~= open.drop_first().drop_last());
            assert(open.drop_last()[0] == open[0]);
            lemma_cols_pop(ch, open.drop_first());
            assert(cols_from(cur, open.drop_last()) =~= cols_from(cur, open).drop_last());
        }
    }
}

/// The visible columns for the current open path: column 0 is the root, each
/// further column is the opened submenu's entries.
pub fn columns(menu: &Menu) -> (cols: Vec<&Vec<Node>>)
    ensures
        col_views(cols@) == menu_cols(*menu),
{
    let mut cols: Vec<&Vec<Node>> = Vec::new();
    cols.push(&menu.root);
    let mut cur: &Vec<Node> = &menu.root;
    let mut j: usize = 0;
    assert(menu.open@.skip(0) =~= menu.open@);
    while j < menu.open.len()
        invariant
            j <= menu.open.len(),
            cols.len() >= 1,
            col_views(cols@).last() == cur@,
            menu_cols(*menu) == col_views(cols@).drop_last() + cols_from(cur@, menu.open@.skip(j as int)),
        ensures
            menu_cols(*menu) == col_views(cols@),
        decreases menu.open.len() - j,
    {
        let i = menu.open[j];
        let ghost rest = menu.open@.skip(j as int);
        assert(rest[0] == i);
        assert(rest.drop_first() =~= menu.open@.skip(j + 1));
        if i < cur.len() {
            match &cur[i] {
                Node::Sub(_, ch) => {
                    let ghost before = col_views(cols@);
                    cols.push(ch);
                    assert(col_views(cols@) =~= before.push(ch@));
                    assert(col_views(cols@).drop_last() =~= before);
                    assert(before =~= before.drop_last().push(cur@));
                    assert(before.drop_last() + cols_from(cur@, rest) =~= col_views(cols@).drop_last()
                        + cols_from(ch@, menu.open@.skip(j + 1)));
                    cur = ch;
                }
                _ => {
                    assert(col_views(cols@) =~= col_views(cols@).drop_last().push(cur@));
                    break;
                }
            }
        } else {
            assert(col_views(cols@) =~= col_views(cols@).drop_last().push(cur@));
            break;
        }
        j += 1;
    }
    proof {
        if j == menu.open.len() {
            assert(menu.open@.skip(j as int) =~= Seq::<usize>::empty());
            assert(col_views(cols@) =~= col_views(cols@).drop_last().push(cur@));
        }
    }
    cols
}

/// Index of the active (deepest-open) column.
pub fn active_col(menu: &Menu) -> (c: usize)
    ensures
        c == menu.open@.len(),
{
    menu.open.len()
}

/// The entry that column `col` shows highlighted: the cursor in the active
/// column, the opened submenu in the columns before it.
pub fn highlight_for(menu: &Menu, col: usize) -> (h: Option<usize>)
    ensures
        h == if col == menu.open@.len() {
            menu.cursor
        } else if col < menu.open@.len() {
            Some(menu.open@[col as int])
        } else {
            None
        },
{
    if col == active_col(menu) {
        menu.cursor
    } else if col < menu.open.len() {
        Some(menu.open[col])
    } else {
        None
    }
}

// --- stepping and accelerators ------------------------------------------------

/// Walk from position `i` by `delta` (wrapping) at most `fuel` times, stopping
/// at the first entry that is not a separator.
pub open spec fn step_walk(nodes: Seq<Node>, i: int, delta: int, fuel: nat) -> Option<int>
    decreases fuel,
{
    if fuel == 0 {
        None
    } else {
        let j = (i + delta) % (nodes.len() as int);
        if !(nodes[j] is Sep) {
            Some(j)
        } else {
            step_walk(nodes, j, delta, (fuel - 1) as nat)
        }
    }
}

/// Where stepping starts: the current selection, or just before the first
/// entry (stepping down) / just after the last (stepping up).
pub open spec fn step_start(len: int, from: Option<usize>, delta: int) -> int {
    match from {
        Some(i) => i as int,
        None => if delta > 0 { -1 } else { len },
    }
}

pub open spec fn step_spec(nodes: Seq<Node>, from: Option<usize>, delta: int) -> Option<int> {
    if nodes.len() == 0 {
        None
    } else {
        step_walk(nodes, step_start(nodes.len() as int, from, delta), delta, nodes.len())
    }
}

proof fn lemma_walk_lands(nodes: Seq<Node>, i: int, delta: int, fuel: nat)
    requires
        nodes.len() > 0,
    ensures
        step_walk(nodes, i, delta, fuel) matches Some(j) ==> 0 <= j < nodes.len() && !(nodes[j] is Sep),
        (forall|k: int| 0 <= k < nodes.len() ==> (#[trigger] nodes[k]) is Sep) ==> step_walk(nodes, i, delta, fuel) is None,
    decreases fuel,
{
    if fuel > 0 {
        let j = (i + delta) % (nodes.len() as int);
        lemma_walk_lands(nodes, j, delta, (fuel - 1) as nat);
    }
}

/// Arrow-key stepping only ever lands on a real entry, never a separator,
/// and a menu made only of separators steps nowhere.
pub proof fn law_step_lands_on_entry(nodes: Seq<Node>, from: Option<usize>, delta: int)
    ensures
        step_spec(nodes, from, delta) matches Some(j) ==> 0 <= j < nodes.len() && !(nodes[j] is Sep),
        (forall|k: int| 0 <= k < nodes.len() ==> (#[trigger] nodes[k]) is Sep) ==> step_spec(nodes, from, delta) is None,
{
    if nodes.len() > 0 {
        lemma_walk_lands(nodes, step_start(nodes.len() as int, from, delta), delta, nodes.len());
    }
}

proof fn lemma_neg_mod(x: int, m: int)
    requires
        m > 0,
        x < 0,
    ensures
        (-x) % m != 0 ==> x % m == m - ((-x) % m),
        (-x) % m == 0 ==> x % m == 0,
{
    let q = (-x) / m;
    let r = (-x) % m;
    vstd::arithmetic::div_mod::lemma_fundamental_div_mod(-x, m);
    vstd::arithmetic::div_mod::lemma_mod_pos_bound(-x, m);
    assert((-q - 1) * m == -(m * q) - m) by (nonlinear_arith);
    assert((-q) * m == -(m * q)) by (nonlinear_arith);
    if r != 0 {
        vstd::arithmetic::div_mod::lemma_fundamental_div_mod_converse(x, m, -q - 1, m - r);
    } else {
        vstd::arithmetic::div_mod::lemma_fundamental_div_mod_converse(x, m, -q, 0);
    }
}

/// Euclidean remainder (always in `0..m`).
fn rem_euclid(x: i128, m: i128) -> (r: i128)
    requires
        m > 0,
    ensures
        r == x % m,
        0 <= r < m,
{
    let r = x % m;
    proof {
        if x < 0 {
            lemma_neg_mod(x as int, m as int);
        }
    }
    if r < 0 {
        r + m
    } else {
        r
    }
}

/// Step the selection by `delta` within `nodes`, skipping separators and
/// wrapping. No selection lands on the first (`delta > 0`) or last item.
pub fn step(nodes: &Vec<Node>, from: Option<usize>, delta: isize) -> (r: Option<usize>)
    ensures
        opt_int(r) == step_spec(nodes@, from, delta as int),
{
    let len = nodes.len();
    if len == 0 {
        return None;
    }
    let mut i: i128 = match from {
        Some(f) => f as i128,
        None => if delta > 0 { -1 } else { len as i128 },
    };
    let mut n: usize = 0;
    while n < len
        invariant
            len == nodes.len(),
            len > 0,
            n <= len,
            -1 <= i <= usize::MAX,
            step_spec(nodes@, from, delta as int) == step_walk(nodes@, i as int, delta as int, (len - n) as nat),
        decreases len - n,
    {
        let j = rem_euclid(i + delta as i128, len as i128);
        let ju = j as usize;
        assert(ju as int == (i as int + delta as int) % (nodes@.len() as int));
        match &nodes[ju] {
            Node::Sep => {
                assert(nodes@[ju as int] is Sep);
                assert(step_walk(nodes@, i as int, delta as int, (len - n) as nat)
                    == step_walk(nodes@, ju as int, delta as int, (len - n - 1) as nat));
            }
            _ => {
                return Some(ju);
            }
        }
        i = j;
        n += 1;
    }
    None
}

pub open spec fn opt_int(r: Option<usize>) -> Option<int> {
    match r {
        Some(i) => Some(i as int),
        None => None,
    }
}

/// Entry `i` is not a separator and its label starts with `ch` (ASCII case
/// folded).
pub open spec fn jump_hit(nodes: Seq<Node>, i: int, ch: char) -> bool {
    !(nodes[i] is Sep) && label_of(nodes[i]).len() > 0 && lower_ascii_char(label_of(nodes[i])[0]) == ch
}

pub open spec fn jump_start(from: Option<usize>) -> int {
    match from {
        Some(i) => i + 1,
        None => 0,
    }
}

/// The `k`-th position tried by an accelerator jump.
pub open spec fn jump_at(len: nat, from: Option<usize>, k: int) -> int {
    (jump_start(from) + k) % (len as int)
}

/// The `k`-th try of a jump is the first hit.
pub open spec fn jump_first(nodes: Seq<Node>, from: Option<usize>, ch: char, k: int) -> bool {
    &&& 0 <= k < nodes.len()
    &&& jump_hit(nodes, jump_at(nodes.len(), from, k), ch)
    &&& forall|k2: int| 0 <= k2 < k ==> !jump_hit(nodes, #[trigger] jump_at(nodes.len(), from, k2), ch)
}

/// Where an accelerator jump lands: the first position after `from`
/// (wrapping) whose entry's label starts with `ch`, if any.
pub open spec fn jump_spec(nodes: Seq<Node>, from: Option<usize>, ch: char) -> Option<int> {
    if exists|k: int| jump_first(nodes, from, ch, k) {
        Some(jump_at(nodes.len(), from, choose|k: int| jump_first(nodes, from, ch, k)))
    } else {
        None
    }
}

/// An accelerator jump lands on a real entry whose label starts with the
/// typed letter.
pub proof fn law_jump_lands_on_match(nodes: Seq<Node>, from: Option<usize>, ch: char)
    requires
        nodes.len() > 0,
    ensures
        jump_spec(nodes, from, ch) matches Some(j) ==> 0 <= j < nodes.len() && jump_hit(nodes, j, ch),
{
    if exists|k: int| jump_first(nodes, from, ch, k) {
        let k = choose|k: int| jump_first(nodes, from, ch, k);
        assert(0 <= jump_at(nodes.len(), from, k) < nodes.len());
    }
}

proof fn lemma_jump_first_unique(nodes: Seq<Node>, from: Option<usize>, ch: char, k: int)
    requires
        jump_first(nodes, from, ch, k),
    ensures
        jump_spec(nodes, from, ch) == Some(jump_at(nodes.len(), from, k)),
{
    let c = choose|k: int| jump_first(nodes, from, ch, k);
    assert(jump_first(nodes, from, ch, c));
    if c < k {
        assert(!jump_hit(nodes, jump_at(nodes.len(), from, c), ch));
    } else if k < c {
        assert(!jump_hit(nodes, jump_at(nodes.len(), from, k), ch));
    }
}

/// Accelerator jump: the next item after `from` (wrapping) whose label starts
/// with `ch` (case-insensitive), skipping separators.
pub fn jump(nodes: &Vec<Node>, from: Option<usize>, ch: char) -> (r: Option<usize>)
    ensures
        opt_int(r) == jump_spec(nodes@, from, ch),
        r is None ==> forall|k: int| 0 <= k < nodes.len() ==> !jump_hit(nodes@, #[trigger] jump_at(nodes@.len(), from, k), ch),
{
    let len = nodes.len();
    if len == 0 {
        assert(!exists|k: int| jump_first(nodes@, from, ch, k));
        return None;
    }
    let start: u128 = match from {
        Some(i) => i as u128 + 1,
        None => 0,
    };
    assert(start == jump_start(from));
    let mut k: usize = 0;
    while k < len
        invariant
            len == nodes.len(),
            len > 0,
            k <= len,
            start == jump_start(from),
            start <= usize::MAX + 1,
            forall|k2: int| 0 <= k2 < k ==> !jump_hit(nodes@, #[trigger] jump_at(nodes@.len(), from, k2), ch),
        decreases len - k,
    {
        let i = ((start + k as u128) % len as u128) as usize;
        let hit = match &nodes[i] {
            Node::Leaf(l, _) => first_lower_is(l, ch),
            Node::Sub(l, _) => first_lower_is(l, ch),
            Node::Sep => false,
        };
        assert(i == jump_at(nodes@.len(), from, k as int));
        assert(hit == jump_hit(nodes@, i as int, ch));
        if hit {
            proof {
                lemma_jump_first_unique(nodes@, from, ch, k as int);
            }
            return Some(i);
        }
        k += 1;
    }
    proof {
        if exists|k: int| jump_first(nodes@, from, ch, k) {
            let c = choose|k: int| jump_first(nodes@, from, ch, k);
            assert(!jump_hit(nodes@, jump_at(nodes@.len(), from, c), ch));
        }
    }
    None
}

/// The first character of `l`, ASCII-lowercased, is `ch`.
fn first_lower_is(l: &String, ch: char) -> (b: bool)
    ensures
        b == (l@.len() > 0 && lower_ascii_char(l@[0]) == ch),
{
    let v = chars_of(l.as_str());
    if v.len() == 0 {
        false
    } else {
        to_ascii_lower_char(v[0]) == ch
    }
}

// --- commands -------------------------------------------------------------------

/// The launch command of an activation, where it has one.
pub open spec fn command_spec(a: ActView) -> Option<Seq<char>> {
    match a {
        ActView::Cmd(c, _) => Some(c),
        ActView::Mde(sub) => Some("mde "@ + sub),
        ActView::Tool(i) => if i < tools_spec().len() { Some(tools_spec()[i as int].command) } else { None },
        _ => None,
    }
}

/// The launch command of an activation (used by Pin and Properties).
pub fn command_for(act: &Act) -> (r: Option<String>)
    ensures
        match r {
            Some(c) => command_spec(act_view(*act)) == Some(c@),
            None => command_spec(act_view(*act)) is None,
        },
{
    match act {
        Act::Cmd(c, _) => Some(c.clone()),
        Act::Mde(sub) => {
            let mut s = "mde ".to_owned();
            push_str(&mut s, sub);
            Some(s)
        }
        Act::Tool(i) => {
            let t = tools();
            if *i < t.len() {
                assert(t@[*i as int].view() == tools_spec()[*i as int]);
                Some(t[*i].command.to_owned())
            } else {
                None
            }
        }
        _ => None,
    }
}

/// An exact copy of an activation.
pub fn clone_act(a: &Act) -> (r: Act)
    ensures
        r == *a,
{
    match a {
        Act::Tool(i) => Act::Tool(*i),
        Act::Cmd(c, t) => Act::Cmd(c.clone(), *t),
        Act::Mde(sub) => Act::Mde(*sub),
        Act::Run => Act::Run,
        Act::Help => Act::Help,
        Act::LogOff => Act::LogOff,
        Act::ShutDown => Act::ShutDown,
    }
}

/// (display name, launch command) of the leaf at (`col`, `idx`), if it has a
/// runnable command.
pub open spec fn node_meta_spec(cols: Seq<Seq<Node>>, col: int, idx: int) -> Option<(Seq<char>, Seq<char>)> {
    if 0 <= col < cols.len() && 0 <= idx < cols[col].len() {
        match cols[col][idx] {
            Node::Leaf(l, a) => match command_spec(act_view(a)) {
                Some(c) => Some((l@, c)),
                None => None,
            },
            _ => None,
        }
    } else {
        None
    }
}

pub open spec fn pair_view(p: Option<(String, String)>) -> Option<(Seq<char>, Seq<char>)> {
    match p {
        Some((a, b)) => Some((a@, b@)),
        None => None,
    }
}

/// (display name, launch command) for a leaf, if it has a runnable command.
pub fn node_meta(menu: &Menu, col: usize, idx: usize) -> (r: Option<(String, String)>)
    ensures
        pair_view(r) == node_meta_spec(menu_cols(*menu), col as int, idx as int),
{
    let cols = columns(menu);
    if col < cols.len() {
        assert(cols@[col as int]@ == menu_cols(*menu)[col as int]);
        let c = cols[col];
        if idx < c.len() {
            match &c[idx] {
                Node::Leaf(label, act) => match command_for(act) {
                    Some(cmd) => Some((label.clone(), cmd)),
                    None => None,
                },
                _ => None,
            }
        } else {
            None
        }
    } else {
        None
    }
}

/// The active column's entries (the open path is valid, so it exists).
fn active_column<'a>(menu: &'a Menu) -> (c: &'a Vec<Node>)
    requires
        menu_wf(*menu),
    ensures
        c@ == active_nodes(*menu),
{
    let cols = columns(menu);
    let a = active_col(menu);
    assert(col_views(cols@)[a as int] == cols@[a as int]@);
    cols[a]
}

/// Open the submenu the cursor is on (if it is one), selecting its first item.
pub fn open_cursor_sub(menu: &mut Menu)
    requires
        menu_wf(*old(menu)),
    ensures
        menu_wf(*final(menu)),
        final(menu).root == old(menu).root,
        final(menu).context == old(menu).context,
        final(menu).small_icons == old(menu).small_icons,
        final(menu).pinned == old(menu).pinned,
        ({
            let act = active_nodes(*old(menu));
            match old(menu).cursor {
                Some(c) => if c < act.len() && act[c as int] is Sub {
                    &&& final(menu).open@ == old(menu).open@.push(c)
                    &&& opt_int(final(menu).cursor) == step_spec(children(act[c as int]), None, 1)
                } else {
                    final(menu).open@ == old(menu).open@ && final(menu).cursor == old(menu).cursor
                },
                None => final(menu).open@ == old(menu).open@ && final(menu).cursor == old(menu).cursor,
            }
        }),
{
    proof {
        lemma_cols_len(menu.root@, menu.open@);
    }
    let is_sub = match menu.cursor {
        Some(c) => {
            let col = active_column(menu);
            c < col.len() && match &col[c] {
                Node::Sub(_, _) => true,
                _ => false,
            }
        }
        None => false,
    };
    if is_sub {
        let c = menu.cursor.unwrap();
        proof {
            lemma_cols_push(menu.root@, menu.open@, c);
        }
        menu.open.push(c);
        let first = {
            let col = active_column(menu);
            step(col, None, 1)
        };
        menu.cursor = first;
    }
}

/// Reset navigation after the root column was rebuilt (a pin change shifts
/// the pinned band and therefore the indices).
pub fn refresh_pins(menu: &mut Menu, root: Vec<Node>)
    ensures
        final(menu).root == root,
        final(menu).open@.len() == 0,
        final(menu).cursor is None,
        final(menu).context == old(menu).context,
        final(menu).small_icons == old(menu).small_icons,
        final(menu).pinned == old(menu).pinned,
        menu_wf(*final(menu)),
{
    menu.root = root;
    menu.open.clear();
    menu.cursor = None;
}

// --- icons ------------------------------------------------------------------------

/// Icon-name candidates for a Start-menu entry, by label keyword (ASCII case
/// folded); unmatched entries get a generic executable.
pub open spec fn menu_icon_spec(label: Seq<char>) -> Seq<Seq<char>> {
    let l = lower_ascii(label);
    if contains(l, "program"@) {
        seq!["applications-other"@, "folder-applications"@, "applications-all"@]
    } else if contains(l, "document"@) {
        seq!["folder-documents"@, "folder"@]
    } else if contains(l, "display"@) {
        seq!["preferences-desktop-display"@, "video-display"@]
    } else if contains(l, "setting"@) || contains(l, "control panel"@) || contains(l, "taskbar"@) {
        seq!["preferences-system"@, "gnome-control-center"@]
    } else if contains(l, "search"@) || contains(l, "files or folders"@) {
        seq!["system-search"@, "edit-find"@, "search"@]
    } else if contains(l, "firefox"@) {
        seq!["firefox"@, "firefox-esr"@, "web-browser"@]
    } else if contains(l, "on the internet"@) || contains(l, "internet"@) {
        seq!["applications-internet"@, "web-browser"@, "internet-web-browser"@]
    } else if contains(l, "help"@) {
        seq!["help-browser"@, "system-help"@, "help-contents"@]
    } else if contains(l, "run"@) {
        seq!["system-run"@, "gnome-run"@]
    } else if contains(l, "log off"@) {
        seq!["system-log-out"@]
    } else if contains(l, "shut down"@) {
        seq!["system-shutdown"@]
    } else if contains(l, "update"@) {
        seq!["system-software-update"@]
    } else if contains(l, "system tools"@) || contains(l, "administrative"@) {
        seq!["applications-system"@, "preferences-system"@]
    } else if contains(l, "network"@) || contains(l, "dial-up"@) {
        seq!["network-workgroup"@, "network-wired"@]
    } else if contains(l, "printer"@) {
        seq!["printer"@]
    } else if contains(l, "terminal"@) || contains(l, "command prompt"@) {
        seq!["utilities-terminal"@, "terminal"@]
    } else if contains(l, "file manager"@) || contains(l, "explorer"@) {
        seq!["system-file-manager"@, "folder"@]
    } else {
        seq!["application-x-executable"@, "applications-other"@]
    }
}

/// Freedesktop icon-name candidates for a Start-menu entry, best first.
pub fn menu_icon(label: &str) -> (r: &'static [&'static str])
    ensures
        strs(r@) == menu_icon_spec(label@),
{
    let lv = chars_of(label);
    let l = lower_ascii_chars(&lv);
    let r: &'static [&'static str] = if has(&l, "program") {
        &["applications-other", "folder-applications", "applications-all"]
    } else if has(&l, "document") {
        &["folder-documents", "folder"]
    } else if has(&l, "display") {
        &["preferences-desktop-display", "video-display"]
    } else if has(&l, "setting") || has(&l, "control panel") || has(&l, "taskbar") {
        &["preferences-system", "gnome-control-center"]
    } else if has(&l, "search") || has(&l, "files or folders") {
        &["system-search", "edit-find", "search"]
    } else if has(&l, "firefox") {
        &["firefox", "firefox-esr", "web-browser"]
    } else if has(&l, "on the internet") || has(&l, "internet") {
        &["applications-internet", "web-browser", "internet-web-browser"]
    } else if has(&l, "help") {
        &["help-browser", "system-help", "help-contents"]
    } else if has(&l, "run") {
        &["system-run", "gnome-run"]
    } else if has(&l, "log off") {
        &["system-log-out"]
    } else if has(&l, "shut down") {
        &["system-shutdown"]
    } else if has(&l, "update") {
        &["system-software-update"]
    } else if has(&l, "system tools") || has(&l, "administrative") {
        &["applications-system", "preferences-system"]
    } else if has(&l, "network") || has(&l, "dial-up") {
        &["network-workgroup", "network-wired"]
    } else if has(&l, "printer") {
        &["printer"]
    } else if has(&l, "terminal") || has(&l, "command prompt") {
        &["utilities-terminal", "terminal"]
    } else if has(&l, "file manager") || has(&l, "explorer") {
        &["system-file-manager", "folder"]
    } else {
        &["application-x-executable", "applications-other"]
    };
    assert(strs(r@) =~= menu_icon_spec(label@));
    r
}

// --- the menu tree ------------------------------------------------------------------

/// A leaf labelled `l` doing `a`.
fn leaf(l: &str, a: Act) -> (n: Node)
    ensures
        n matches Node::Leaf(x, y) && x@ == l@ && y == a,
{
    Node::Leaf(l.to_owned(), a)
}

pub open spec fn settings_shape(s: Seq<Node>) -> bool {
    &&& s.len() == 5
    &&& is_leaf(s[0], "Control Panel"@, ActView::Mde("control-panel"@))
    &&& is_leaf(s[1], "Display"@, ActView::Mde("display"@))
    &&& is_leaf(s[2], "Network and Dial-up Connections"@, ActView::Cmd("nm-connection-editor"@, false))
    &&& is_leaf(s[3], "Printers"@, ActView::Cmd("system-config-printer"@, false))
    &&& is_leaf(s[4], "Taskbar & Start Menu"@, ActView::Mde("taskbar-properties"@))
}

/// The Settings submenu.
pub fn settings_tree() -> (r: Vec<Node>)
    ensures
        settings_shape(r@),
{
    vec![
        leaf("Control Panel", Act::Mde("control-panel")),
        leaf("Display", Act::Mde("display")),
        leaf("Network and Dial-up Connections", Act::Cmd("nm-connection-editor".to_owned(), false)),
        leaf("Printers", Act::Cmd("system-config-printer".to_owned(), false)),
        leaf("Taskbar & Start Menu", Act::Mde("taskbar-properties")),
    ]
}

pub open spec fn search_shape(s: Seq<Node>) -> bool {
    &&& s.len() == 2
    &&& is_leaf(s[0], "For Files or Folders..."@, ActView::Mde("files"@))
    &&& is_leaf(s[1], "On the Internet..."@, ActView::Cmd("xdg-open https://duckduckgo.com"@, false))
}

/// The Search submenu.
pub fn search_tree() -> (r: Vec<Node>)
    ensures
        search_shape(r@),
{
    vec![
        leaf("For Files or Folders...", Act::Mde("files")),
        leaf("On the Internet...", Act::Cmd("xdg-open https://duckduckgo.com".to_owned(), false)),
    ]
}

/// The indices of the tools of category `cat`, in table order.
pub open spec fn tools_of(t: Seq<ToolView>, cat: Seq<char>) -> Seq<int>
    decreases t.len(),
{
    if t.len() == 0 {
        seq![]
    } else {
        let rest = tools_of(t.drop_last(), cat);
        if t.last().category == cat { rest.push(t.len() - 1) } else { rest }
    }
}

/// A category submenu: one leaf per tool of the category, launching it.
pub open spec fn tool_leaves(s: Seq<Node>, cat: Seq<char>) -> bool {
    let idx = tools_of(tools_spec(), cat);
    &&& s.len() == idx.len()
    &&& forall|j: int| 0 <= j < s.len() ==> is_leaf(#[trigger] s[j], tools_spec()[idx[j]].name,
        ActView::Tool(idx[j] as nat))
}

pub open spec fn system_tools_shape(s: Seq<Node>) -> bool {
    let cats = dedup(tools_spec().map_values(|t: ToolView| t.category));
    &&& s.len() == cats.len()
    &&& forall|k: int| 0 <= k < s.len() ==> is_sub(#[trigger] s[k], cats[k]) && tool_leaves(children(s[k]), cats[k])
}

/// The leaves of one category, in table order.
fn category_leaves(t: &Vec<crate::fedora::Tool>, cat: &'static str) -> (r: Vec<Node>)
    requires
        tool_views(t@) == tools_spec(),
    ensures
        tool_leaves(r@, cat@),
{
    let cv = chars_of(cat);
    let mut out: Vec<Node> = Vec::new();
    let mut i: usize = 0;
    while i < t.len()
        invariant
            i <= t.len(),
            tool_views(t@) == tools_spec(),
            cv@ == cat@,
            ({
                let idx = tools_of(tools_spec().take(i as int), cat@);
                &&& out@.len() == idx.len()
                &&& forall|j: int| 0 <= j < out@.len() ==> is_leaf(#[trigger] out@[j], tools_spec()[idx[j]].name,
                    ActView::Tool(idx[j] as nat))
            }),
        decreases t.len() - i,
    {
        assert(tools_spec().take(i + 1).drop_last() =~= tools_spec().take(i as int));
        assert(t@[i as int].view() == tools_spec()[i as int]);
        let c = chars_of(t[i].category);
        if crate::text::eq_chars(&c, &cv) {
            out.push(leaf(t[i].name, Act::Tool(i)));
        }
        i += 1;
    }
    assert(tools_spec().take(t.len() as int) =~= tools_spec());
    out
}

/// The System Tools submenu: one submenu per tool category.
pub fn system_tools_tree() -> (r: Vec<Node>)
    ensures
        system_tools_shape(r@),
{
    let cats = categories();
    let t = tools();
    let mut out: Vec<Node> = Vec::new();
    let mut k: usize = 0;
    while k < cats.len()
        invariant
            k <= cats.len(),
            strs(cats@) == dedup(tools_spec().map_values(|t: ToolView| t.category)),
            tool_views(t@) == tools_spec(),
            out@.len() == k,
            forall|j: int| 0 <= j < k ==> is_sub(#[trigger] out@[j], strs(cats@)[j])
                && tool_leaves(children(out@[j]), strs(cats@)[j]),
        decreases cats.len() - k,
    {
        let ch = category_leaves(&t, cats[k]);
        assert(strs(cats@)[k as int] == cats@[k as int]@);
        out.push(Node::Sub(cats[k].to_owned(), ch));
        k += 1;
    }
    let ghost d = dedup(tools_spec().map_values(|t: ToolView| t.category));
    assert(out@.len() == d.len());
    assert forall|j: int| 0 <= j < out@.len() implies is_sub(#[trigger] out@[j], d[j]) && tool_leaves(children(out@[j]), d[j]) by {
        assert(strs(cats@)[j] == d[j]);
    }
    out
}

/// The Programs submenu for the given folders: one submenu per folder with a
/// leaf per application, or a single placeholder when there are none.
pub open spec fn programs_shape(s: Seq<Node>, programs: Seq<(String, Vec<App>)>) -> bool {
    if programs.len() == 0 {
        s.len() == 1 && is_leaf(s[0], "(no applications found)"@, ActView::Help)
    } else {
        &&& s.len() == programs.len()
        &&& forall|k: int| 0 <= k < s.len() ==> {
            &&& is_sub(#[trigger] s[k], programs[k].0@)
            &&& children(s[k]).len() == programs[k].1@.len()
            &&& forall|j: int| 0 <= j < children(s[k]).len() ==> is_leaf(#[trigger] children(s[k])[j],
                programs[k].1@[j].name@, ActView::Cmd(programs[k].1@[j].command@, programs[k].1@[j].terminal))
        }
    }
}

/// The Programs submenu.
pub fn programs_tree(programs: &Vec<(String, Vec<App>)>) -> (r: Vec<Node>)
    ensures
        programs_shape(r@, programs@),
{
    let mut nodes: Vec<Node> = Vec::new();
    let mut k: usize = 0;
    while k < programs.len()
        invariant
            k <= programs.len(),
            nodes@.len() == k,
            forall|i: int| 0 <= i < k ==> {
                &&& is_sub(#[trigger] nodes@[i], programs@[i].0@)
                &&& children(nodes@[i]).len() == programs@[i].1@.len()
                &&& forall|j: int| 0 <= j < children(nodes@[i]).len() ==> is_leaf(#[trigger] children(nodes@[i])[j],
                    programs@[i].1@[j].name@, ActView::Cmd(programs@[i].1@[j].command@, programs@[i].1@[j].terminal))
            },
        decreases programs.len() - k,
    {
        let apps = &programs[k].1;
        let mut ch: Vec<Node> = Vec::new();
        let mut j: usize = 0;
        while j < apps.len()
            invariant
                j <= apps.len(),
                ch@.len() == j,
                forall|x: int| 0 <= x < j ==> is_leaf(#[trigger] ch@[x], apps@[x].name@,
                    ActView::Cmd(apps@[x].command@, apps@[x].terminal)),
            decreases apps.len() - j,
        {
            ch.push(Node::Leaf(apps[j].name.clone(), Act::Cmd(apps[j].command.clone(), apps[j].terminal)));
            j += 1;
        }
        nodes.push(Node::Sub(programs[k].0.clone(), ch));
        k += 1;
    }
    if nodes.len() == 0 {
        nodes.push(leaf("(no applications found)", Act::Help));
    }
    nodes
}

/// A pinned Start-menu item.
pub struct PinnedItem {
    pub name: String,
    pub command: String,
}

/// The fixed part of the root column, from index `b` on.
pub open spec fn root_tail_shape(r: Seq<Node>, b: int, programs: Seq<(String, Vec<App>)>) -> bool {
    &&& r.len() == b + 15
    &&& is_leaf(r[b], "File Explorer"@, ActView::Mde("files"@))
    &&& is_leaf(r[b + 1], "Terminal (Terminator)"@, ActView::Cmd("terminator"@, false))
    &&& is_leaf(r[b + 2], "Firefox"@, ActView::Cmd("firefox"@, false))
    &&& is_leaf(r[b + 3], "MackesDE Update"@, ActView::Cmd("sudo dnf upgrade"@, true))
    &&& r[b + 4] is Sep
    &&& is_sub(r[b + 5], "Programs"@) && programs_shape(children(r[b + 5]), programs)
    &&& is_sub(r[b + 6], "Settings"@) && settings_shape(children(r[b + 6]))
    &&& is_sub(r[b + 7], "Search"@) && search_shape(children(r[b + 7]))
    &&& is_sub(r[b + 8], "System Tools"@) && system_tools_shape(children(r[b + 8]))
    &&& is_leaf(r[b + 9], "Help"@, ActView::Help)
    &&& is_leaf(r[b + 10], "About MDE Retro Workstation"@, ActView::Mde("about"@))
    &&& is_leaf(r[b + 11], "Run..."@, ActView::Run)
    &&& r[b + 12] is Sep
    &&& is_leaf(r[b + 13], "Log Off..."@, ActView::LogOff)
    &&& is_leaf(r[b + 14], "Shut Down..."@, ActView::ShutDown)
}

/// The root column: pinned items (each running its command) above their own
/// separator when there are any, then the fixed entries.
pub open spec fn root_shape(r: Seq<Node>, pinned: Seq<PinnedItem>, programs: Seq<(String, Vec<App>)>) -> bool {
    let b: int = if pinned.len() > 0 { pinned.len() + 1int } else { 0int };
    &&& forall|k: int| 0 <= k < pinned.len() ==> is_leaf(#[trigger] r[k], pinned[k].name@,
        ActView::Cmd(pinned[k].command@, false))
    &&& pinned.len() > 0 ==> r[pinned.len() as int] is Sep
    &&& root_tail_shape(r, b, programs)
}

/// The root column of the Start menu.
pub fn build_root(pinned: &Vec<PinnedItem>, programs: &Vec<(String, Vec<App>)>) -> (r: Vec<Node>)
    ensures
        root_shape(r@, pinned@, programs@),
{
    let mut root: Vec<Node> = Vec::new();
    let mut k: usize = 0;
    while k < pinned.len()
        invariant
            k <= pinned.len(),
            root@.len() == k,
            forall|i: int| 0 <= i < k ==> is_leaf(#[trigger] root@[i], pinned@[i].name@,
                ActView::Cmd(pinned@[i].command@, false)),
        decreases pinned.len() - k,
    {
        root.push(Node::Leaf(pinned[k].name.clone(), Act::Cmd(pinned[k].command.clone(), false)));
        k += 1;
    }
    if pinned.len() > 0 {
        root.push(Node::Sep);
    }
    let ghost b = root@.len();
    root.push(leaf("File Explorer", Act::Mde("files")));
    root.push(leaf("Terminal (Terminator)", Act::Cmd("terminator".to_owned(), false)));
    root.push(leaf("Firefox", Act::Cmd("firefox".to_owned(), false)));
    root.push(leaf("MackesDE Update", Act::Cmd("sudo dnf upgrade".to_owned(), true)));
    root.push(Node::Sep);
    root.push(Node::Sub("Programs".to_owned(), programs_tree(programs)));
    root.push(Node::Sub("Settings".to_owned(), settings_tree()));
    root.push(Node::Sub("Search".to_owned(), search_tree()));
    root.push(Node::Sub("System Tools".to_owned(), system_tools_tree()));
    root.push(leaf("Help", Act::Help));
    root.push(leaf("About MDE Retro Workstation", Act::Mde("about")));
    root.push(leaf("Run...", Act::Run));
    root.push(Node::Sep);
    root.push(leaf("Log Off...", Act::LogOff));
    root.push(leaf("Shut Down...", Act::ShutDown));
    root
}

// --- pinned items ---------------------------------------------------------------------

pub open spec fn pinned_names(items: Seq<PinnedItem>) -> Seq<Seq<char>> {
    items.map_values(|p: PinnedItem| p.name@)
}

/// Pin `name` (running `command`) unless an item of that name is pinned
/// already; says whether it was added.
pub fn pin_item(items: &mut Vec<PinnedItem>, name: String, command: String) -> (added: bool)
    ensures
        added == !pinned_names(old(items)@).contains(name@),
        added ==> final(items)@ == old(items)@.push(PinnedItem { name, command }),
        !added ==> final(items)@ == old(items)@,
{
    let mut i: usize = 0;
    while i < items.len()
        invariant
            i <= items.len(),
            forall|j: int| 0 <= j < i ==> pinned_names(items@)[j] != name@,
        decreases items.len() - i,
    {
        if items[i].name == name {
            assert(pinned_names(items@)[i as int] == name@);
            return false;
        }
        i += 1;
    }
    items.push(PinnedItem { name, command });
    true
}

/// Drop every pinned item named `name`, keeping the others in order; says
/// whether one was dropped.
pub fn unpin_item(items: &mut Vec<PinnedItem>, name: &String) -> (removed: bool)
    ensures
        final(items)@ == old(items)@.filter(|p: PinnedItem| p.name@ != name@),
        removed == pinned_names(old(items)@).contains(name@),
{
    let ghost orig = items@;
    let mut kept: Vec<PinnedItem> = Vec::new();
    let mut removed = false;
    let mut i: usize = 0;
    while i < items.len()
        invariant
            i <= items.len(),
            items@ == orig,
            kept@ == orig.take(i as int).filter(|p: PinnedItem| p.name@ != name@),
            removed == pinned_names(orig.take(i as int)).contains(name@),
        decreases items.len() - i,
    {
        proof {
            reveal(Seq::filter);
            broadcast use vstd::seq_lib::group_seq_properties;
        }
        assert(orig.take(i + 1).drop_last() =~= orig.take(i as int));
        assert(pinned_names(orig.take(i + 1)) =~= pinned_names(orig.take(i as int)).push(orig[i as int].name@));
        if items[i].name == *name {
            removed = true;
        } else {
            kept.push(PinnedItem { name: items[i].name.clone(), command: items[i].command.clone() });
        }
        i += 1;
    }
    assert(orig.take(orig.len() as int) =~= orig);
    *items = kept;
    removed
}

// --- events ----------------------------------------------------------------------------

/// What the user did.
pub enum MenuEvent {
    /// A left click on (column, index).
    Click(usize, usize),
    /// A right click on (column, index): opens the context menu.
    RightClick(usize, usize),
    CtxOpen,
    CtxPin,
    CtxUnpin,
    CtxProperties,
    /// A click on the backdrop.
    Close,
    Escape,
    Down,
    Up,
    Right,
    Left,
    Enter,
    /// A character key (accelerator).
    Letter(char),
}

/// What the shell must do after an event.
pub enum MenuEffect {
    Stay,
    /// Close the menu.
    Exit,
    /// Run the activation, then close the menu.
    Launch(Act),
    /// Pin (name, command), then rebuild the root column.
    Pin(String, String),
    /// Unpin the item of that name, then rebuild the root column.
    Unpin(String),
    /// Open the properties of (name, command), then close the menu.
    Properties(String, String),
}

/// The navigation state of the menu.
pub open spec fn nav(m: Menu) -> (Seq<usize>, Option<usize>, Option<(usize, usize)>) {
    (m.open@, m.cursor, m.context)
}

/// The leaf activation at (col, idx) of the visible columns.
pub open spec fn leaf_act_at(cols: Seq<Seq<Node>>, col: int, idx: int) -> Option<ActView> {
    if 0 <= col < cols.len() && 0 <= idx < cols[col].len() {
        match cols[col][idx] {
            Node::Leaf(_, a) => Some(act_view(a)),
            _ => None,
        }
    } else {
        None
    }
}

proof fn lemma_cols_take(cur: Seq<Node>, open: Seq<usize>, k: int)
    requires
        cols_from(cur, open).len() == open.len() + 1,
        0 <= k <= open.len(),
    ensures
        cols_from(cur, open.take(k)) == cols_from(cur, open).take(k + 1),
    decreases open.len() - k,
{
    if k == open.len() {
        assert(open.take(k) =~= open);
        assert(cols_from(cur, open).take(k + 1) =~= cols_from(cur, open));
    } else {
        lemma_cols_pop(cur, open);
        lemma_cols_take(cur, open.drop_last(), k);
        assert(open.drop_last().take(k) =~= open.take(k));
        assert(cols_from(cur, open).drop_last().take(k + 1) =~= cols_from(cur, open).take(k + 1));
    }
}

/// The Start menu's reaction to one event: the new navigation state, and what
/// the shell must do.
pub fn handle(menu: &mut Menu, ev: MenuEvent) -> (eff: MenuEffect)
    requires
        menu_wf(*old(menu)),
    ensures
        menu_wf(*final(menu)),
        final(menu).root == old(menu).root,
        final(menu).small_icons == old(menu).small_icons,
        final(menu).pinned == old(menu).pinned,
        ({
            let m = *old(menu);
            let f = *final(menu);
            let cols = menu_cols(m);
            let act = active_nodes(m);
            match ev {
                MenuEvent::Click(col, idx) => {
                    &&& f.context is None
                    &&& if col < cols.len() && idx < cols[col as int].len() && cols[col as int][idx as int] is Sub {
                        &&& eff is Stay
                        &&& f.cursor == m.cursor
                        &&& f.open@ == if col < m.open@.len() && m.open@[col as int] == idx {
                            m.open@.take(col as int)
                        } else {
                            m.open@.take(col as int).push(idx)
                        }
                    } else {
                        &&& f.open@ == m.open@ && f.cursor == m.cursor
                        &&& match leaf_act_at(cols, col as int, idx as int) {
                            Some(a) => eff matches MenuEffect::Launch(x) && act_view(x) == a,
                            None => eff is Stay,
                        }
                    }
                },
                MenuEvent::RightClick(col, idx) => {
                    nav(f) == (m.open@, m.cursor, Some((col, idx))) && eff is Stay
                },
                MenuEvent::Close => {
                    if m.context is Some {
                        nav(f) == (m.open@, m.cursor, None::<(usize, usize)>) && eff is Stay
                    } else {
                        nav(f) == nav(m) && eff is Exit
                    }
                },
                MenuEvent::CtxOpen => {
                    &&& f.open@ == m.open@ && f.cursor == m.cursor
                    &&& match m.context {
                        Some((c, i)) => match leaf_act_at(cols, c as int, i as int) {
                            Some(a) => eff matches MenuEffect::Launch(x) && act_view(x) == a && f.context == m.context,
                            None => eff is Stay && f.context is None,
                        },
                        None => eff is Stay && f.context is None,
                    }
                },
                MenuEvent::CtxPin => {
                    &&& nav(f) == (m.open@, m.cursor, None::<(usize, usize)>)
                    &&& match m.context {
                        Some((c, i)) => match node_meta_spec(cols, c as int, i as int) {
                            Some((n, cmd)) => eff matches MenuEffect::Pin(x, y) && x@ == n && y@ == cmd,
                            None => eff is Stay,
                        },
                        None => eff is Stay,
                    }
                },
                MenuEvent::CtxUnpin => {
                    &&& nav(f) == (m.open@, m.cursor, None::<(usize, usize)>)
                    &&& match m.context {
                        Some((c, i)) => match node_meta_spec(cols, c as int, i as int) {
                            Some((n, _)) => eff matches MenuEffect::Unpin(x) && x@ == n,
                            None => eff is Stay,
                        },
                        None => eff is Stay,
                    }
                },
                MenuEvent::CtxProperties => {
                    &&& nav(f) == nav(m)
                    &&& match m.context {
                        Some((c, i)) => match node_meta_spec(cols, c as int, i as int) {
                            Some((n, cmd)) => eff matches MenuEffect::Properties(x, y) && x@ == n && y@ == cmd,
                            None => eff is Exit,
                        },
                        None => eff is Exit,
                    }
                },
                MenuEvent::Escape => {
                    if m.open@.len() == 0 {
                        nav(f) == nav(m) && eff is Exit
                    } else {
                        nav(f) == (m.open@.drop_last(), None::<usize>, m.context) && eff is Stay
                    }
                },
                MenuEvent::Down => {
                    &&& f.open@ == m.open@ && f.context == m.context && eff is Stay
                    &&& opt_int(f.cursor) == step_spec(act, m.cursor, 1)
                },
                MenuEvent::Up => {
                    &&& f.open@ == m.open@ && f.context == m.context && eff is Stay
                    &&& opt_int(f.cursor) == step_spec(act, m.cursor, -1)
                },
                MenuEvent::Right => {
                    &&& f.context == m.context && eff is Stay
                    &&& opens_cursor_sub(m, f)
                },
                MenuEvent::Left => {
                    &&& f.context == m.context && eff is Stay
                    &&& if m.open@.len() == 0 {
                        f.open@ == m.open@ && f.cursor == m.cursor
                    } else {
                        f.open@ == m.open@.drop_last() && f.cursor == Some(m.open@.last())
                    }
                },
                MenuEvent::Enter => {
                    match m.cursor {
                        Some(c) if c < act.len() && act[c as int] is Leaf => {
                            &&& nav(f) == nav(m)
                            &&& eff matches MenuEffect::Launch(x) && act_view(x) == act_view(act[c as int]->Leaf_1)
                        },
                        _ => f.context == m.context && eff is Stay && opens_cursor_sub(m, f),
                    }
                },
                MenuEvent::Letter(ch) => {
                    &&& f.open@ == m.open@ && f.context == m.context && eff is Stay
                    &&& match jump_spec(act, m.cursor, lower_ascii_char(ch)) {
                        Some(i) => f.cursor == Some(i as usize),
                        None => f.cursor == m.cursor,
                    }
                },
            }
        }),
{
    proof {
        lemma_cols_len(menu.root@, menu.open@);
    }
    match ev {
        MenuEvent::Click(col, idx) => {
            menu.context = None;
            let kind: u8 = {
                let cols = columns(menu);
                if col < cols.len() && idx < cols[col].len() {
                    match &cols[col][idx] {
                        Node::Sub(_, _) => 1,
                        Node::Leaf(_, _) => 2,
                        Node::Sep => 0,
                    }
                } else {
                    0
                }
            };
            if kind == 1 {
                proof {
                    lemma_cols_take(menu.root@, menu.open@, col as int);
                    lemma_cols_push(menu.root@, menu.open@.take(col as int), idx);
                }
                let toggle = col < menu.open.len() && menu.open[col] == idx;
                menu.open.truncate(col);
                assert(menu.open@ =~= old(menu).open@.take(col as int));
                if !toggle {
                    menu.open.push(idx);
                }
                MenuEffect::Stay
            } else if kind == 2 {
                let cols = columns(menu);
                match &cols[col][idx] {
                    Node::Leaf(_, a) => MenuEffect::Launch(clone_act(a)),
                    _ => MenuEffect::Stay,
                }
            } else {
                MenuEffect::Stay
            }
        }
        MenuEvent::RightClick(col, idx) => {
            menu.context = Some((col, idx));
            MenuEffect::Stay
        }
        MenuEvent::Close => {
            if menu.context.is_some() {
                menu.context = None;
                MenuEffect::Stay
            } else {
                MenuEffect::Exit
            }
        }
        MenuEvent::CtxOpen => {
            let act = match menu.context {
                Some((c, i)) => {
                    let cols = columns(menu);
                    if c < cols.len() && i < cols[c].len() {
                        match &cols[c][i] {
                            Node::Leaf(_, a) => Some(clone_act(a)),
                            _ => None,
                        }
                    } else {
                        None
                    }
                }
                None => None,
            };
            match act {
                Some(a) => MenuEffect::Launch(a),
                None => {
                    menu.context = None;
                    MenuEffect::Stay
                }
            }
        }
        MenuEvent::CtxPin => {
            let eff = match menu.context {
                Some((c, i)) => match node_meta(menu, c, i) {
                    Some((name, command)) => MenuEffect::Pin(name, command),
                    None => MenuEffect::Stay,
                },
                None => MenuEffect::Stay,
            };
            menu.context = None;
            eff
        }
        MenuEvent::CtxUnpin => {
            let eff = match menu.context {
                Some((c, i)) => match node_meta(menu, c, i) {
                    Some((name, _)) => MenuEffect::Unpin(name),
                    None => MenuEffect::Stay,
                },
                None => MenuEffect::Stay,
            };
            menu.context = None;
            eff
        }
        MenuEvent::CtxProperties => {
            match menu.context {
                Some((c, i)) => match node_meta(menu, c, i) {
                    Some((name, command)) => MenuEffect::Properties(name, command),
                    None => MenuEffect::Exit,
                },
                None => MenuEffect::Exit,
            }
        }
        MenuEvent::Escape => {
            if menu.open.len() == 0 {
                MenuEffect::Exit
            } else {
                proof {
                    lemma_cols_pop(menu.root@, menu.open@);
                }
                menu.open.pop();
                menu.cursor = None;
                MenuEffect::Stay
            }
        }
        MenuEvent::Down => {
            let next = {
                let col = active_column(menu);
                step(col, menu.cursor, 1)
            };
            menu.cursor = next;
            MenuEffect::Stay
        }
        MenuEvent::Up => {
            let next = {
                let col = active_column(menu);
                step(col, menu.cursor, -1)
            };
            menu.cursor = next;
            MenuEffect::Stay
        }
        MenuEvent::Right => {
            open_cursor_sub(menu);
            MenuEffect::Stay
        }
        MenuEvent::Left => {
            if menu.open.len() > 0 {
                proof {
                    lemma_cols_pop(menu.root@, menu.open@);
                }
                let parent = menu.open.pop().unwrap();
                menu.cursor = Some(parent);
            }
            MenuEffect::Stay
        }
        MenuEvent::Enter => {
            let act = match menu.cursor {
                Some(c) => {
                    let col = active_column(menu);
                    if c < col.len() {
                        match &col[c] {
                            Node::Leaf(_, a) => Some(clone_act(a)),
                            _ => None,
                        }
                    } else {
                        None
                    }
                }
                None => None,
            };
            match act {
                Some(a) => MenuEffect::Launch(a),
                None => {
                    open_cursor_sub(menu);
                    MenuEffect::Stay
                }
            }
        }
        MenuEvent::Letter(ch) => {
            let l = to_ascii_lower_char(ch);
            let next = {
                let col = active_column(menu);
                jump(col, menu.cursor, l)
            };
            if next.is_some() {
                menu.cursor = next;
            }
            MenuEffect::Stay
        }
    }
}

/// `f` is `m` after "open the submenu under the cursor".
pub open spec fn opens_cursor_sub(m: Menu, f: Menu) -> bool {
    let act = active_nodes(m);
    match m.cursor {
        Some(c) => if c < act.len() && act[c as int] is Sub {
            &&& f.open@ == m.open@.push(c)
            &&& opt_int(f.cursor) == step_spec(children(act[c as int]), None, 1)
        } else {
            f.open@ == m.open@ && f.cursor == m.cursor
        },
        None => f.open@ == m.open@ && f.cursor == m.cursor,
    }
}

} // verus!
