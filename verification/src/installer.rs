//! The Setup "Choose Components" picker: which components start checked,
//! which are locked, the presets, and the set handed to the installer.

use vstd::prelude::*;
use crate::catalogue::{Component, ComponentView, component_view, component_views};

verus! {

/// The picker: the catalogue, and for each entry whether it is checked,
/// locked (mandatory or installed) and available.
pub struct Setup {
    pub cat: Vec<Component>,
    pub checked: Vec<bool>,
    /// Mandatory or already installed: shown checked, not toggleable.
    pub locked: Vec<bool>,
    /// Offered by an enabled repository (else dimmed, not selectable).
    pub avail: Vec<bool>,
}

/// What the user did.
pub enum SetupMsg {
    Toggle(usize),
    /// Minimal (0), Standard (1) or Everything (2).
    Preset(u8),
    Install,
    Cancel,
}

/// What the shell must do next.
pub enum SetupEffect {
    Nothing,
    /// Hand these packages to the installer, then exit.
    Handoff(Vec<String>),
    Exit,
}

/// One flag per catalogue entry.
pub open spec fn setup_wf(s: Setup) -> bool {
    s.checked@.len() == s.cat@.len() && s.locked@.len() == s.cat@.len() && s.avail@.len() == s.cat@.len()
}

/// Whether entry `i` is checked under preset `p`.
pub open spec fn preset_checked(s: Setup, p: u8, i: int) -> bool {
    s.locked@[i] || (s.avail@[i] && (p == 2 || (p == 1 && s.cat@[i].default_on)))
}

/// The packages of the checked entries, in catalogue order.
pub open spec fn chosen(cat: Seq<ComponentView>, checked: Seq<bool>) -> Seq<Seq<char>>
    decreases cat.len(),
{
    if cat.len() == 0 || checked.len() != cat.len() {
        Seq::empty()
    } else {
        let rest = chosen(cat.drop_last(), checked.drop_last());
        if checked.last() { rest.push(cat.last().package) } else { rest }
    }
}

/// The picker after one message, and what the shell must do next.
pub open spec fn setup_step(o: Setup, msg: SetupMsg, f: Setup, eff: SetupEffect) -> bool {
    &&& component_views(f.cat@) == component_views(o.cat@) && f.locked@ == o.locked@ && f.avail@ == o.avail@
    &&& match msg {
        SetupMsg::Toggle(i) => eff is Nothing && f.checked@ == if o.avail@[i as int] && !o.locked@[i as int] {
            o.checked@.update(i as int, !o.checked@[i as int])
        } else {
            o.checked@
        },
        SetupMsg::Preset(p) => eff is Nothing && f.checked@.len() == o.checked@.len()
            && forall|i: int| 0 <= i < o.checked@.len() ==> #[trigger] f.checked@[i] == preset_checked(o, p, i),
        SetupMsg::Install => f.checked@ == o.checked@ && (eff matches SetupEffect::Handoff(v)
            && v@.map_values(|s: String| s@) == chosen(component_views(o.cat@), o.checked@)),
        SetupMsg::Cancel => f.checked@ == o.checked@ && eff is Exit,
    }
}

impl Setup {
    /// The picker for `cat`, each entry's installed state and availability:
    /// mandatory and installed entries locked; those and the available
    /// default-on entries checked.
    pub fn new(cat: Vec<Component>, installed: &Vec<bool>, avail: Vec<bool>) -> (s: Setup)
        requires
            installed@.len() == cat@.len(),
            avail@.len() == cat@.len(),
        ensures
            setup_wf(s),
            component_views(s.cat@) == component_views(cat@),
            s.avail@ == avail@,
            forall|i: int| 0 <= i < cat@.len() ==> #[trigger] s.locked@[i] == (cat@[i].mandatory || installed@[i]),
            forall|i: int| 0 <= i < cat@.len() ==> #[trigger] s.checked@[i]
                == (cat@[i].mandatory || installed@[i] || (cat@[i].default_on && avail@[i])),
    {
        let mut checked: Vec<bool> = Vec::new();
        let mut locked: Vec<bool> = Vec::new();
        let mut i: usize = 0;
        while i < cat.len()
            invariant
                i <= cat.len(),
                installed@.len() == cat@.len(),
                avail@.len() == cat@.len(),
                checked@.len() == i && locked@.len() == i,
                forall|j: int| 0 <= j < i ==> #[trigger] locked@[j] == (cat@[j].mandatory || installed@[j]),
                forall|j: int| 0 <= j < i ==> #[trigger] checked@[j]
                    == (cat@[j].mandatory || installed@[j] || (cat@[j].default_on && avail@[j])),
            decreases cat.len() - i,
        {
            let c = &cat[i];
            locked.push(c.mandatory || installed[i]);
            checked.push(c.mandatory || installed[i] || (c.default_on && avail[i]));
            i += 1;
        }
        Setup { cat, checked, locked, avail }
    }

    /// The picker's reaction to one message.
    pub fn handle(&mut self, msg: SetupMsg) -> (eff: SetupEffect)
        requires
            setup_wf(*old(self)),
            msg matches SetupMsg::Toggle(i) ==> i < old(self).cat@.len(),
        ensures
            setup_wf(*final(self)),
            setup_step(*old(self), msg, *final(self), eff),
    {
        match msg {
            SetupMsg::Toggle(i) => {
                if self.avail[i] && !self.locked[i] {
                    let c = !self.checked[i];
                    self.checked.set(i, c);
                }
                SetupEffect::Nothing
            }
            SetupMsg::Preset(p) => {
                let n = self.cat.len();
                let mut i: usize = 0;
                while i < n
                    invariant
                        n == self.cat@.len(),
                        setup_wf(*self),
                        i <= n,
                        component_views(self.cat@) == component_views(old(self).cat@),
                        self.cat@ == old(self).cat@,
                        self.locked@ == old(self).locked@ && self.avail@ == old(self).avail@,
                        forall|j: int| 0 <= j < i ==> #[trigger] self.checked@[j] == preset_checked(*old(self), p, j),
                    decreases n - i,
                {
                    let on = self.locked[i]
                        || (self.avail[i] && (p == 2 || (p == 1 && self.cat[i].default_on)));
                    self.checked.set(i, on);
                    i += 1;
                }
                SetupEffect::Nothing
            }
            SetupMsg::Install => {
                let mut v: Vec<String> = Vec::new();
                let ghost cv = component_views(self.cat@);
                let mut i: usize = 0;
                while i < self.cat.len()
                    invariant
                        setup_wf(*self),
                        i <= self.cat@.len(),
                        cv == component_views(self.cat@),
                        v@.map_values(|s: String| s@) == chosen(cv.take(i as int), self.checked@.take(i as int)),
                    decreases self.cat.len() - i,
                {
                    proof {
                        assert(cv.take(i + 1).drop_last() =~= cv.take(i as int));
                        assert(self.checked@.take(i + 1).drop_last() =~= self.checked@.take(i as int));
                        assert(cv[i as int] == component_view(self.cat@[i as int]));
                    }
                    let ghost before = v@.map_values(|s: String| s@);
                    if self.checked[i] {
                        v.push(self.cat[i].package.to_owned());
                        assert(v@.map_values(|s: String| s@) =~= before.push(cv[i as int].package));
                    }
                    i += 1;
                }
                proof {
                    assert(cv.take(cv.len() as int) =~= cv);
                    assert(self.checked@.take(self.checked@.len() as int) =~= self.checked@);
                }
                SetupEffect::Handoff(v)
            }
            SetupMsg::Cancel => SetupEffect::Exit,
        }
    }
}

} // verus!
