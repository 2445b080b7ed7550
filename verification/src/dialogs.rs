//! The small shell dialogs: Shut Down's choices and the command each runs,
//! the Run box's command, and the About box's Fedora version and registered
//! owner.

use vstd::prelude::*;
use crate::text::{chars_of, split_char, split_chars, split_ws, split_ws_chars, string_of, trim, trim_chars, lines,
    lines_of, views, eq_chars};

verus! {

/// What Shut Down does.
#[derive(Debug, Clone, Copy, PartialEq, Eq, Structural)]
pub enum Choice {
    LogOff,
    ShutDown,
    Restart,
    StandBy,
}

/// The drop-down's wording of a choice.
pub fn choice_label(c: Choice) -> (l: &'static str)
    ensures
        l@ == match c {
            Choice::LogOff => "Log off"@,
            Choice::ShutDown => "Shut down"@,
            Choice::Restart => "Restart"@,
            Choice::StandBy => "Stand by"@,
        },
{
    match c {
        Choice::LogOff => "Log off",
        Choice::ShutDown => "Shut down",
        Choice::Restart => "Restart",
        Choice::StandBy => "Stand by",
    }
}

/// The choices, in the drop-down's order.
pub fn choices() -> (v: Vec<Choice>)
    ensures
        v@ == seq![Choice::LogOff, Choice::ShutDown, Choice::Restart, Choice::StandBy],
{
    let v = vec![Choice::LogOff, Choice::ShutDown, Choice::Restart, Choice::StandBy];
    assert(v@ =~= seq![Choice::LogOff, Choice::ShutDown, Choice::Restart, Choice::StandBy]);
    v
}

/// The program and argument that carry out a choice, as text.
pub open spec fn command_words(c: Choice) -> (Seq<char>, Seq<char>) {
    (if c == Choice::LogOff { "swaymsg"@ } else { "systemctl"@ }, match c {
        Choice::LogOff => "exit"@,
        Choice::ShutDown => "poweroff"@,
        Choice::Restart => "reboot"@,
        Choice::StandBy => "suspend"@,
    })
}

/// The program and its one argument that carry a choice out: log off exits
/// the compositor session, the rest are `systemctl` power actions.
pub fn shutdown_command(c: Choice) -> (r: (&'static str, &'static str))
    ensures
        r.0@ == if c == Choice::LogOff { "swaymsg"@ } else { "systemctl"@ },
        r.1@ == match c {
            Choice::LogOff => "exit"@,
            Choice::ShutDown => "poweroff"@,
            Choice::Restart => "reboot"@,
            Choice::StandBy => "suspend"@,
        },
{
    match c {
        Choice::LogOff => ("swaymsg", "exit"),
        Choice::ShutDown => ("systemctl", "poweroff"),
        Choice::Restart => ("systemctl", "reboot"),
        Choice::StandBy => ("systemctl", "suspend"),
    }
}

/// The Run box's command: the typed text trimmed, or none when blank.
pub fn run_command(input: &str) -> (r: Option<String>)
    ensures
        match r {
            Some(c) => trim(input@).len() > 0 && c@ == trim(input@),
            None => trim(input@).len() == 0,
        },
{
    let t = trim_chars(&chars_of(input));
    if t.len() == 0 { None } else { Some(string_of(&t)) }
}

/// The short Fedora version from os-release's VERSION ("44 (Workstation
/// Edition)" gives "44"): its first word, else the whole text.
pub open spec fn fedora_version_spec(version: Seq<char>) -> Seq<char> {
    let w = split_ws(version);
    if w.len() > 0 { w[0] } else { version }
}

pub fn fedora_version(version: &str) -> (v: String)
    ensures
        v@ == fedora_version_spec(version@),
{
    let w = split_ws_chars(&chars_of(version));
    if w.len() > 0 {
        assert(views(w@)[0] == w@[0]@);
        string_of(&w[0])
    } else {
        version.to_owned()
    }
}

/// The GECOS full name of `user` in an `/etc/passwd` text: the first
/// comma-separated part of the fifth field, trimmed, on the first line
/// whose first field is `user`, when that part is not empty.
pub open spec fn gecos_name(passwd_lines: Seq<Seq<char>>, user: Seq<char>) -> Option<Seq<char>>
    decreases passwd_lines.len(),
{
    if passwd_lines.len() == 0 {
        None
    } else {
        match gecos_name(passwd_lines.drop_last(), user) {
            Some(n) => Some(n),
            None => {
                let f = split_char(passwd_lines.last(), ':');
                if f[0] == user && f.len() > 4 && trim(split_char(f[4], ',')[0]).len() > 0 {
                    Some(trim(split_char(f[4], ',')[0]))
                } else {
                    None
                }
            },
        }
    }
}

/// The account's display name for the About box: the GECOS full name from
/// the passwd text, else the user name.
pub fn registered_name(passwd: &str, user: &str) -> (n: String)
    ensures
        n@ == match gecos_name(lines(passwd@), user@) {
            Some(g) => g,
            None => user@,
        },
{
    let pv = chars_of(passwd);
    let ls = lines_of(&pv);
    assert(views(ls@) == lines(passwd@));
    let u = chars_of(user);
    let mut i: usize = 0;
    assert(views(ls@).take(0) =~= Seq::<Seq<char>>::empty());
    while i < ls.len()
        invariant
            i <= ls.len(),
            u@ == user@,
            views(ls@) == lines(passwd@),
            gecos_name(views(ls@).take(i as int), user@) is None,
        decreases ls.len() - i,
    {
        assert(views(ls@).take(i + 1).drop_last() =~= views(ls@).take(i as int));
        assert(views(ls@).take(i + 1).last() == ls@[i as int]@);
        let f = split_chars(&ls[i], ':');
        assert(views(f@)[0] == f@[0]@);
        if eq_chars(&f[0], &u) && f.len() > 4 {
            let parts = split_chars(&f[4], ',');
            let name = trim_chars(&parts[0]);
            if name.len() > 0 {
                proof {
                    assert(views(f@)[4] == f@[4]@);
                    assert(views(parts@)[0] == parts@[0]@);
                    assert(gecos_name(views(ls@).take(i + 1), user@) == Some(name@));
                    lemma_gecos_extends(views(ls@), i as int, user@);
                }
                return string_of(&name);
            }
        }
        i += 1;
    }
    assert(views(ls@).take(ls.len() as int) =~= views(ls@));
    user.to_owned()
}

proof fn lemma_gecos_extends(ls: Seq<Seq<char>>, i: int, user: Seq<char>)
    requires
        0 <= i < ls.len(),
        gecos_name(ls.take(i + 1), user) is Some,
    ensures
        gecos_name(ls, user) == gecos_name(ls.take(i + 1), user),
    decreases ls.len() - i,
{
    if i + 1 < ls.len() {
        assert(ls.take(i + 1).take(i) =~= ls.take(i));
        lemma_gecos_prefix(ls, i + 1, user);
    } else {
        assert(ls.take(i + 1) =~= ls);
    }
}

/// Once a prefix names the user, every longer prefix names them the same.
proof fn lemma_gecos_prefix(ls: Seq<Seq<char>>, k: int, user: Seq<char>)
    requires
        0 <= k <= ls.len(),
    ensures
        gecos_name(ls.take(k), user) is Some ==> gecos_name(ls, user) == gecos_name(ls.take(k), user),
    decreases ls.len() - k,
{
    if k < ls.len() {
        lemma_gecos_prefix(ls, k + 1, user);
        assert(ls.take(k + 1).drop_last() =~= ls.take(k));
    } else {
        assert(ls.take(k) =~= ls);
    }
}

// --- the dialogs' reactions --------------------------------------------------------

/// A key the dialogs react to: Enter takes the default button, Escape
/// cancels.
#[derive(Debug, Clone, Copy, PartialEq, Eq, Structural)]
pub enum DlgKey {
    Enter,
    Escape,
    Other,
}

/// What the user did in Log Off or Shut Down.
pub enum DialogMsg {
    Confirm,
    Cancel,
    Pick(Choice),
    Key(DlgKey),
}

/// What the shell must do next.
#[derive(Debug, Clone, Copy, PartialEq, Eq)]
pub enum DialogEffect {
    Nothing,
    /// Run `program arg`, then exit with its success.
    Run(&'static str, &'static str),
    /// Exit without doing anything.
    Exit,
}

/// The message confirms (OK, or Enter).
pub open spec fn confirms(m: DialogMsg) -> bool {
    m is Confirm || m == DialogMsg::Key(DlgKey::Enter)
}

/// The message cancels (Cancel, or Escape).
pub open spec fn cancels(m: DialogMsg) -> bool {
    m is Cancel || m == DialogMsg::Key(DlgKey::Escape)
}

/// Log Off: confirming runs `swaymsg exit`, cancelling exits.
pub fn logoff_update(m: DialogMsg) -> (e: DialogEffect)
    ensures
        confirms(m) ==> (e matches DialogEffect::Run(p, a) && p@ == "swaymsg"@ && a@ == "exit"@),
        cancels(m) ==> e is Exit,
        !confirms(m) && !cancels(m) ==> e is Nothing,
{
    match m {
        DialogMsg::Confirm | DialogMsg::Key(DlgKey::Enter) => {
            let (p, a) = shutdown_command(Choice::LogOff);
            DialogEffect::Run(p, a)
        }
        DialogMsg::Cancel | DialogMsg::Key(DlgKey::Escape) => DialogEffect::Exit,
        _ => DialogEffect::Nothing,
    }
}

/// The Shut Down dialog: the chosen action.
pub struct ShutdownDlg {
    pub sel: Choice,
}

impl ShutdownDlg {
    /// The dialog as it opens: Shut down chosen.
    pub fn new() -> (d: ShutdownDlg)
        ensures
            d.sel == Choice::ShutDown,
    {
        ShutdownDlg { sel: Choice::ShutDown }
    }

    /// Picking changes the choice; confirming runs its command; cancelling
    /// exits.
    pub fn handle(&mut self, m: DialogMsg) -> (e: DialogEffect)
        ensures
            final(self).sel == match m {
                DialogMsg::Pick(c) => c,
                _ => old(self).sel,
            },
            confirms(m) ==> (e matches DialogEffect::Run(p, a) && (p@, a@) == command_words(old(self).sel)),
            cancels(m) ==> e is Exit,
            !confirms(m) && !cancels(m) ==> e is Nothing,
    {
        match m {
            DialogMsg::Pick(c) => {
                self.sel = c;
                DialogEffect::Nothing
            }
            DialogMsg::Confirm | DialogMsg::Key(DlgKey::Enter) => {
                let (p, a) = shutdown_command(self.sel);
                DialogEffect::Run(p, a)
            }
            DialogMsg::Cancel | DialogMsg::Key(DlgKey::Escape) => DialogEffect::Exit,
            DialogMsg::Key(DlgKey::Other) => DialogEffect::Nothing,
        }
    }
}

/// What the user did in the Run box.
pub enum RunMsg {
    Input(String),
    OkButton,
    Cancel,
    Key(DlgKey),
}

/// What the shell must do next.
pub enum RunEffect {
    Nothing,
    /// Start the command with `sh -c` (when there is one), then exit.
    Launch(Option<String>),
    Exit,
}

/// The Run box's reaction: typing edits the command, OK or Enter launches
/// it trimmed (nothing for a blank line) and exits, Cancel or Escape exits.
pub fn run_update(cmd: &mut String, m: RunMsg) -> (e: RunEffect)
    ensures
        final(cmd)@ == match m {
            RunMsg::Input(s) => s@,
            _ => old(cmd)@,
        },
        (m is OkButton || m == RunMsg::Key(DlgKey::Enter)) ==> (e matches RunEffect::Launch(c) && match c {
            Some(t) => trim(old(cmd)@).len() > 0 && t@ == trim(old(cmd)@),
            None => trim(old(cmd)@).len() == 0,
        }),
        (m is Cancel || m == RunMsg::Key(DlgKey::Escape)) ==> e is Exit,
        (m is Input || m == RunMsg::Key(DlgKey::Other)) ==> e is Nothing,
{
    match m {
        RunMsg::Input(s) => {
            *cmd = s;
            RunEffect::Nothing
        }
        RunMsg::OkButton | RunMsg::Key(DlgKey::Enter) => RunEffect::Launch(run_command(cmd.as_str())),
        RunMsg::Cancel | RunMsg::Key(DlgKey::Escape) => RunEffect::Exit,
        RunMsg::Key(DlgKey::Other) => RunEffect::Nothing,
    }
}

/// The Properties box's Type line: "Application" for a launcher with a
/// target, "Item" for one without.
pub fn item_kind(target: &str) -> (k: &'static str)
    ensures
        k@ == if target@.len() > 0 { "Application"@ } else { "Item"@ },
{
    if target.is_empty() { "Item" } else { "Application" }
}

} // verus!
