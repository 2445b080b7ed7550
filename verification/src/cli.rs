//! The `mde` command line: which subcommand runs, the look chosen from the
//! saved settings at startup, and the argument handling of `mde setup` and
//! `mde install`.

use vstd::prelude::*;
use crate::nm::string_views;
use crate::palette::Theme;
use crate::text::{chars_of, eq_str, starts_with, begins, slice_chars, split_chars, split_char, string_of, views,
    join, join_chars, push_str};

verus! {

// --- arguments ---------------------------------------------------------------------------

/// `flag` is one of the arguments.
pub fn has_flag(args: &Vec<String>, flag: &str) -> (b: bool)
    ensures
        b == string_views(args@).contains(flag@),
{
    let fv = chars_of(flag);
    let mut i: usize = 0;
    while i < args.len()
        invariant
            i <= args.len(),
            fv@ == flag@,
            forall|j: int| 0 <= j < i ==> string_views(args@)[j] != flag@,
        decreases args.len() - i,
    {
        if crate::text::eq_chars(&chars_of(args[i].as_str()), &fv) {
            assert(string_views(args@)[i as int] == flag@);
            return true;
        }
        i += 1;
    }
    false
}

/// The first position of `x` in `s`.
pub open spec fn first_pos(s: Seq<Seq<char>>, x: Seq<char>, k: int) -> bool {
    0 <= k < s.len() && s[k] == x && forall|j: int| 0 <= j < k ==> s[j] != x
}

/// The argument after the first `flag`, if both are there.
pub open spec fn flag_value_spec(args: Seq<Seq<char>>, flag: Seq<char>) -> Option<Seq<char>> {
    if exists|k: int| first_pos(args, flag, k) {
        let k = choose|k: int| first_pos(args, flag, k);
        if k + 1 < args.len() { Some(args[k + 1]) } else { None }
    } else {
        None
    }
}

proof fn lemma_first_pos_unique(s: Seq<Seq<char>>, x: Seq<char>, a: int, b: int)
    requires
        first_pos(s, x, a),
        first_pos(s, x, b),
    ensures
        a == b,
{
    if a < b {
        assert(s[a] != x);
    }
    if b < a {
        assert(s[b] != x);
    }
}

/// The value given after `flag` (`--select <ssid>`, `--only <set>`).
pub fn flag_value(args: &Vec<String>, flag: &str) -> (r: Option<String>)
    ensures
        match r {
            Some(v) => flag_value_spec(string_views(args@), flag@) == Some(v@),
            None => flag_value_spec(string_views(args@), flag@) is None,
        },
{
    let fv = chars_of(flag);
    let ghost s = string_views(args@);
    let mut i: usize = 0;
    while i < args.len()
        invariant
            i <= args.len(),
            fv@ == flag@,
            s == string_views(args@),
            forall|j: int| 0 <= j < i ==> s[j] != flag@,
        decreases args.len() - i,
    {
        if crate::text::eq_chars(&chars_of(args[i].as_str()), &fv) {
            proof {
                assert(first_pos(s, flag@, i as int));
                let k = choose|k: int| first_pos(s, flag@, k);
                lemma_first_pos_unique(s, flag@, i as int, k);
            }
            if i + 1 < args.len() {
                assert(s[i + 1] == args@[i + 1]@);
                return Some(args[i + 1].clone());
            } else {
                return None;
            }
        }
        i += 1;
    }
    None
}

// --- the subcommand ---------------------------------------------------------------------

/// Which subcommand runs, and where its arguments start: a `mde-<name>`
/// program name picks `<name>` with everything after it; otherwise the first
/// argument does, with the arguments after it; with neither, `help`.
pub open spec fn resolve_spec(argv0_name: Seq<char>, args: Seq<Seq<char>>) -> (Seq<char>, int) {
    if starts_with(argv0_name, "mde-"@) {
        (argv0_name.skip(4), 1)
    } else if args.len() > 1 {
        (args[1], 2)
    } else {
        ("help"@, args.len() as int)
    }
}

/// The subcommand and the index of its first argument; `argv0_name` is the
/// program's file name.
pub fn resolve_command(argv0_name: &str, args: &Vec<String>) -> (r: (String, usize))
    ensures
        r.0@ == resolve_spec(argv0_name@, string_views(args@)).0,
        r.1 as int == resolve_spec(argv0_name@, string_views(args@)).1,
        r.1 <= args@.len() || args@.len() == 0,
{
    proof {
        reveal_strlit("mde-");
    }
    let a = chars_of(argv0_name);
    if begins(&a, "mde-") {
        let n = a.len();
        (string_of(&slice_chars(&a, 4, n)), 1)
    } else if args.len() > 1 {
        assert(string_views(args@)[1] == args@[1]@);
        (args[1].clone(), 2)
    } else {
        ("help".to_owned(), args.len())
    }
}

// --- the look at startup ----------------------------------------------------------------

/// The theme the saved `theme` selects: the Windows 2000 look (in its BeOS
/// palette with the Haiku icon set), Windows 10, or Carbon for anything else.
pub fn theme_choice(theme: &str, icon_set: &str) -> (t: Theme)
    ensures
        t == if theme@ == "win2000"@ {
            if icon_set@ == "haiku"@ { Theme::Beos } else { Theme::Win2000 }
        } else if theme@ == "windows10"@ {
            Theme::Windows10
        } else {
            Theme::Carbon
        },
{
    let tv = chars_of(theme);
    if eq_str(&tv, "win2000") {
        if eq_str(&chars_of(icon_set), "haiku") { Theme::Beos } else { Theme::Win2000 }
    } else if eq_str(&tv, "windows10") {
        Theme::Windows10
    } else {
        Theme::Carbon
    }
}

/// Dark mode unless the saved mode is "light".
pub fn dark_choice(mode: &str) -> (b: bool)
    ensures
        b == (mode@ != "light"@),
{
    !eq_str(&chars_of(mode), "light")
}

/// The icon accent slot of a saved color: blue, orange, red, else neutral.
pub fn accent_choice(color: &str) -> (i: u8)
    ensures
        i == if color@ == "blue"@ { 0u8 } else if color@ == "orange"@ { 1u8 } else if color@ == "red"@ { 2u8 } else { 3u8 },
{
    let c = chars_of(color);
    if eq_str(&c, "blue") {
        0
    } else if eq_str(&c, "orange") {
        1
    } else if eq_str(&c, "red") {
        2
    } else {
        3
    }
}

// --- mde setup and mde install ------------------------------------------------------------

/// The non-empty comma-separated names of the first `--packages=` argument.
pub open spec fn packages_spec(args: Seq<Seq<char>>) -> Option<Seq<Seq<char>>>
    decreases args.len(),
{
    if args.len() == 0 {
        None
    } else if starts_with(args[0], "--packages="@) {
        Some(split_char(args[0].skip(11), ',').filter(|p: Seq<char>| p.len() > 0))
    } else {
        packages_spec(args.drop_first())
    }
}

/// The explicit package set of `mde setup --packages=a,b`, if given.
pub fn packages_arg(args: &Vec<String>) -> (r: Option<Vec<String>>)
    ensures
        match r {
            Some(v) => packages_spec(string_views(args@)) == Some(string_views(v@)),
            None => packages_spec(string_views(args@)) is None,
        },
{
    proof {
        reveal_strlit("--packages=");
    }
    let ghost s = string_views(args@);
    let mut i: usize = 0;
    assert(s.skip(0) =~= s);
    assert("--packages="@.len() == 11);
    while i < args.len()
        invariant
            i <= args.len(),
            s == string_views(args@),
            "--packages="@.len() == 11,
            packages_spec(s) == packages_spec(s.skip(i as int)),
        decreases args.len() - i,
    {
        let a = chars_of(args[i].as_str());
        assert(s.skip(i as int)[0] == args@[i as int]@);
        assert(s.skip(i as int).drop_first() =~= s.skip(i + 1));
        if begins(&a, "--packages=") {
            let n = a.len();
            let parts = split_chars(&slice_chars(&a, 11, n), ',');
            let mut out: Vec<String> = Vec::new();
            let mut k: usize = 0;
            while k < parts.len()
                invariant
                    k <= parts.len(),
                    string_views(out@) == views(parts@).take(k as int).filter(|p: Seq<char>| p.len() > 0),
                decreases parts.len() - k,
            {
                proof {
                    reveal(Seq::filter);
                    assert(views(parts@).take(k + 1).drop_last() =~= views(parts@).take(k as int));
                    assert(views(parts@).take(k + 1).last() == parts@[k as int]@);
                }
                let ghost before = string_views(out@);
                if parts[k].len() > 0 {
                    out.push(string_of(&parts[k]));
                    assert(string_views(out@) =~= before.push(parts@[k as int]@));
                }
                k += 1;
            }
            assert(views(parts@).take(parts.len() as int) =~= views(parts@));
            return Some(out);
        }
        i += 1;
    }
    None
}

/// Where `mde setup` goes.
#[derive(Debug, Clone, Copy, PartialEq, Eq, Structural)]
pub enum SetupRoute {
    /// The themed component picker.
    Gui,
    /// The text-mode installer, here.
    Tui,
    /// The text-mode installer in a terminal window, privileged.
    Terminal,
}

/// `--gui` opts into the picker; `--tui` or no compositor runs the text
/// installer here; otherwise it opens in a terminal.
pub fn setup_route(gui: bool, tui: bool, headless: bool) -> (r: SetupRoute)
    ensures
        r == if gui { SetupRoute::Gui } else if tui || headless { SetupRoute::Tui } else { SetupRoute::Terminal },
{
    if gui {
        SetupRoute::Gui
    } else if tui || headless {
        SetupRoute::Tui
    } else {
        SetupRoute::Terminal
    }
}

/// The ` --packages='a,b'` suffix forwarded to the installer (empty with no
/// explicit set, or an empty one).
pub open spec fn packages_suffix(packages: Option<Seq<Seq<char>>>) -> Seq<char> {
    match packages {
        Some(p) => if p.len() > 0 { " --packages='"@ + join(p, ","@) + "'"@ } else { seq![] },
        None => seq![],
    }
}

fn join_strings(v: &Vec<String>, sep: &str) -> (r: String)
    ensures
        r@ == join(string_views(v@), sep@),
{
    let mut cv: Vec<Vec<char>> = Vec::new();
    let mut i: usize = 0;
    while i < v.len()
        invariant
            i <= v.len(),
            views(cv@) == string_views(v@).take(i as int),
        decreases v.len() - i,
    {
        let ghost before = views(cv@);
        cv.push(chars_of(v[i].as_str()));
        assert(views(cv@) =~= before.push(v@[i as int]@));
        assert(string_views(v@).take(i + 1) =~= string_views(v@).take(i as int).push(v@[i as int]@));
        i += 1;
    }
    assert(string_views(v@).take(v.len() as int) =~= string_views(v@));
    string_of(&join_chars(&cv, sep))
}

/// The shell line the terminal runs: the installer as root, or for a dry run
/// unprivileged and waiting for Enter before the window closes.
pub open spec fn tui_command_spec(exe: Seq<char>, dry: bool, packages: Option<Seq<Seq<char>>>) -> Seq<char> {
    if dry {
        "'"@ + exe + "' setup --tui --dry-run"@ + packages_suffix(packages)
            + "; printf '\\nPress Enter to close\u{2026} '; read _"@
    } else {
        "pkexec '"@ + exe + "' setup --tui"@ + packages_suffix(packages)
    }
}

pub fn tui_command(exe: &str, dry: bool, packages: &Option<Vec<String>>) -> (c: String)
    ensures
        c@ == tui_command_spec(exe@, dry, match packages { Some(p) => Some(string_views(p@)), None => None }),
{
    let mut suffix = String::new();
    match packages {
        Some(p) => {
            if p.len() > 0 {
                push_str(&mut suffix, " --packages='");
                let j = join_strings(p, ",");
                push_str(&mut suffix, j.as_str());
                push_str(&mut suffix, "'");
            }
        }
        None => {}
    }
    let mut c = String::new();
    if dry {
        push_str(&mut c, "'");
        push_str(&mut c, exe);
        push_str(&mut c, "' setup --tui --dry-run");
        push_str(&mut c, suffix.as_str());
        push_str(&mut c, "; printf '\\nPress Enter to close\u{2026} '; read _");
    } else {
        push_str(&mut c, "pkexec '");
        push_str(&mut c, exe);
        push_str(&mut c, "' setup --tui");
        push_str(&mut c, suffix.as_str());
    }
    c
}

/// The picker's hand-off line: the installer as root with the chosen set.
pub fn handoff_command(exe: &str, packages: &Vec<String>) -> (c: String)
    ensures
        c@ == "pkexec '"@ + exe@ + "' setup --tui --packages='"@ + join(string_views(packages@), ","@) + "'"@,
{
    let mut c = String::new();
    push_str(&mut c, "pkexec '");
    push_str(&mut c, exe);
    push_str(&mut c, "' setup --tui --packages='");
    let j = join_strings(packages, ",");
    push_str(&mut c, j.as_str());
    push_str(&mut c, "'");
    c
}

/// `mde install --only <set>`: none for both sets, the set when it is
/// `chicago95` or `win2k`, else the refused value.
pub fn install_scope(args: &Vec<String>) -> (r: Result<Option<String>, String>)
    ensures
        match flag_value_spec(string_views(args@), "--only"@) {
            Some(o) => if o == "chicago95"@ || o == "win2k"@ {
                r matches Ok(Some(s)) && s@ == o
            } else {
                r matches Err(e) && e@ == o
            },
            None => r matches Ok(None),
        },
{
    match flag_value(args, "--only") {
        Some(o) => {
            let v = chars_of(o.as_str());
            if eq_str(&v, "chicago95") || eq_str(&v, "win2k") {
                Ok(Some(o))
            } else {
                Err(o)
            }
        }
        None => Ok(None),
    }
}

} // verus!
