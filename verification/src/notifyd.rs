//! Freedesktop notification daemon (`org.freedesktop.Notifications`): the
//! notification record, the Action Center history store and its updates, and
//! the daemon's fixed replies.

use vstd::prelude::*;

verus! {

/// A point in time as seconds and nanoseconds since the Unix epoch.
#[derive(Debug, Clone, Copy, PartialEq, Eq)]
pub struct Stamp {
    pub secs: u64,
    pub nanos: u32,
}

/// The Unix epoch.
pub fn epoch() -> (e: Stamp)
    ensures
        e.secs == 0 && e.nanos == 0,
{
    Stamp { secs: 0, nanos: 0 }
}

/// One notification record (the Action Center history unit).
pub struct Notif {
    pub id: u32,
    pub app_name: String,
    pub app_icon: String,
    pub summary: String,
    pub body: String,
    /// (action_key, label) pairs from the freedesktop `actions` array.
    pub actions: Vec<(String, String)>,
    pub hint_urgency: u8,
    pub timestamp: Stamp,
    /// Transient (e.g. volume OSD): kept in history but never toasted.
    pub transient: bool,
}

/// The on-disk mirror, with the `last_read` marker behind the unread badge.
pub struct NotifFile {
    pub notifications: Vec<Notif>,
    pub last_read: Stamp,
}

pub open spec fn ids(s: Seq<Notif>) -> Seq<u32> {
    s.map_values(|n: Notif| n.id)
}

/// The freedesktop `actions` array is a flat [key, label, key, label, ...]
/// list: consecutive pairs, a trailing odd key dropped.
pub open spec fn pairs_of(flat: Seq<Seq<char>>) -> Seq<(Seq<char>, Seq<char>)> {
    Seq::new(flat.len() / 2, |i: int| (flat[2 * i], flat[2 * i + 1]))
}

pub open spec fn pair_views(v: Seq<(String, String)>) -> Seq<(Seq<char>, Seq<char>)> {
    v.map_values(|p: (String, String)| (p.0@, p.1@))
}

/// Pair up the flat `actions` array.
pub fn pair_actions(flat: &Vec<String>) -> (r: Vec<(String, String)>)
    ensures
        pair_views(r@) == pairs_of(flat@.map_values(|s: String| s@)),
{
    let ghost f = flat@.map_values(|s: String| s@);
    let mut r: Vec<(String, String)> = Vec::new();
    let mut i: usize = 0;
    while i + 1 < flat.len()
        invariant
            i % 2 == 0,
            i <= flat.len(),
            r@.len() == i / 2,
            f == flat@.map_values(|s: String| s@),
            forall|k: int| 0 <= k < r@.len() ==> #[trigger] pair_views(r@)[k] == (f[2 * k], f[2 * k + 1]),
        decreases flat.len() - i,
    {
        let ghost before = r@;
        r.push((flat[i].clone(), flat[i + 1].clone()));
        assert forall|k: int| 0 <= k < r@.len() implies #[trigger] pair_views(r@)[k] == (f[2 * k], f[2 * k + 1]) by {
            if k < before.len() {
                assert(r@[k] == before[k]);
                assert(pair_views(before)[k] == (f[2 * k], f[2 * k + 1]));
            }
        }
        i += 2;
    }
    assert(pair_views(r@) =~= pairs_of(f));
    r
}

/// Drop every notification with id `id`, keeping the rest in order.
pub fn close_notification(store: &mut Vec<Notif>, id: u32)
    ensures
        final(store)@ == old(store)@.filter(|n: Notif| n.id != id),
{
    let ghost orig = store@;
    let ghost mut j: int = 0;
    let mut i: usize = 0;
    assert(orig.take(0) =~= Seq::<Notif>::empty());
    assert(store@.take(0) =~= Seq::<Notif>::empty());
    proof {
        reveal(Seq::filter);
    }
    assert(orig.skip(0) =~= orig);
    assert(store@.skip(0) =~= store@);
    while i < store.len()
        invariant
            0 <= j <= orig.len(),
            i <= store.len(),
            store@.take(i as int) == orig.take(j).filter(|n: Notif| n.id != id),
            store@.skip(i as int) == orig.skip(j),
        decreases store.len() - i,
    {
        proof {
            reveal(Seq::filter);
        }
        let ghost s0 = store@;
        assert(s0.skip(i as int).len() == s0.len() - i);
        assert(orig.skip(j).len() == orig.len() - j);
        assert(s0.skip(i as int)[0] == s0[i as int]);
        assert(orig.skip(j)[0] == orig[j]);
        assert(orig[j] == s0[i as int]);
        assert(orig.take(j + 1).drop_last() =~= orig.take(j));
        if store[i].id == id {
            store.remove(i);
            assert(store@.take(i as int) =~= s0.take(i as int));
            assert forall|k: int| 0 <= k < store@.skip(i as int).len() implies #[trigger] store@.skip(i as int)[k] == orig.skip(j + 1)[k] by {
                assert(store@.skip(i as int)[k] == s0.skip(i as int)[k + 1]);
                assert(orig.skip(j)[k + 1] == orig.skip(j + 1)[k]);
            }
            assert(store@.skip(i as int) =~= orig.skip(j + 1));
        } else {
            assert(store@.take(i + 1) =~= s0.take(i as int).push(s0[i as int]));
            assert forall|k: int| 0 <= k < store@.skip(i + 1).len() implies #[trigger] store@.skip(i + 1)[k] == orig.skip(j + 1)[k] by {
                assert(store@.skip(i + 1)[k] == s0.skip(i as int)[k + 1]);
                assert(orig.skip(j)[k + 1] == orig.skip(j + 1)[k]);
            }
            assert(store@.skip(i + 1) =~= orig.skip(j + 1));
            i += 1;
        }
        proof {
            j = j + 1;
        }
    }
    assert(store@.skip(i as int).len() == 0);
    assert(j == orig.len());
    assert(orig.take(j) =~= orig);
    assert(store@.take(i as int) =~= store@);
}

/// Post a notification: any earlier one with its id is replaced, and it goes
/// last (the newest).
pub fn post(store: &mut Vec<Notif>, n: Notif)
    ensures
        final(store)@ == old(store)@.filter(|x: Notif| x.id != n.id).push(n),
{
    close_notification(store, n.id);
    store.push(n);
}

/// The id of a posted notification: the one it replaces, else the next free
/// id (which then advances, wrapping).
pub fn assign_id(replaces_id: u32, next: &mut u32) -> (id: u32)
    ensures
        replaces_id != 0 ==> id == replaces_id && *final(next) == *old(next),
        replaces_id == 0 ==> id == *old(next)
            && *final(next) == (if *old(next) == u32::MAX { 0 } else { *old(next) + 1 }),
{
    if replaces_id != 0 {
        replaces_id
    } else {
        let id = *next;
        *next = if id == u32::MAX { 0 } else { id + 1 };
        id
    }
}

/// The first id to hand out: one past the largest id already stored.
pub fn seed_next_id(store: &Vec<Notif>) -> (next: u32)
    requires
        forall|i: int| 0 <= i < store@.len() ==> (#[trigger] store@[i]).id < u32::MAX,
    ensures
        forall|i: int| 0 <= i < store@.len() ==> (#[trigger] store@[i]).id < next,
        next == 1 || exists|i: int| 0 <= i < store@.len() && next == (#[trigger] store@[i]).id + 1,
{
    let mut max: u32 = 0;
    let mut i: usize = 0;
    while i < store.len()
        invariant
            i <= store.len(),
            forall|k: int| 0 <= k < store@.len() ==> (#[trigger] store@[k]).id < u32::MAX,
            forall|k: int| 0 <= k < i ==> (#[trigger] store@[k]).id <= max,
            max == 0 || exists|k: int| 0 <= k < i && max == (#[trigger] store@[k]).id,
        decreases store.len() - i,
    {
        if store[i].id > max {
            max = store[i].id;
        }
        i += 1;
    }
    max + 1
}

/// What a `Notify` call carries besides its id.
pub struct Incoming {
    pub app_name: String,
    pub app_icon: String,
    pub summary: String,
    pub body: String,
    /// The flat `[key, label, key, label, ...]` actions array.
    pub actions: Vec<String>,
    /// The `urgency` hint (1, normal, when absent).
    pub urgency: u8,
    /// The `transient` hint.
    pub transient: bool,
}

/// `Notify`: the notification gets the id it replaces or the next free one,
/// its actions paired up and the given time, and goes into the store in place
/// of any earlier one with that id. Returns the id and whether to pop a
/// toast (not for a transient one).
pub fn notify(store: &mut Vec<Notif>, next: &mut u32, replaces_id: u32, n: Incoming, now: Stamp) -> (r: (u32, bool))
    ensures
        replaces_id != 0 ==> r.0 == replaces_id && *final(next) == *old(next),
        replaces_id == 0 ==> r.0 == *old(next)
            && *final(next) == (if *old(next) == u32::MAX { 0 } else { *old(next) + 1 }),
        r.1 == !n.transient,
        final(store)@.len() == old(store)@.filter(|x: Notif| x.id != r.0).len() + 1,
        final(store)@.drop_last() == old(store)@.filter(|x: Notif| x.id != r.0),
        ({
            let posted = final(store)@.last();
            &&& posted.id == r.0
            &&& posted.app_name@ == n.app_name@ && posted.app_icon@ == n.app_icon@
            &&& posted.summary@ == n.summary@ && posted.body@ == n.body@
            &&& pair_views(posted.actions@) == pairs_of(n.actions@.map_values(|s: String| s@))
            &&& posted.hint_urgency == n.urgency && posted.timestamp == now && posted.transient == n.transient
        }),
{
    let id = assign_id(replaces_id, next);
    let toast = !n.transient;
    let actions = pair_actions(&n.actions);
    let notif = Notif {
        id,
        app_name: n.app_name,
        app_icon: n.app_icon,
        summary: n.summary,
        body: n.body,
        actions,
        hint_urgency: n.urgency,
        timestamp: now,
        transient: n.transient,
    };
    post(store, notif);
    proof {
        assert(store@.drop_last() =~= old(store)@.filter(|x: Notif| x.id != id));
    }
    (id, toast)
}

/// The store mirrored into the on-disk file: its notifications replaced, the
/// `last_read` marker kept.
pub fn mirror(file: &mut NotifFile, store: Vec<Notif>)
    ensures
        final(file).notifications@ == store@,
        final(file).last_read == old(file).last_read,
{
    file.notifications = store;
}

/// What the daemon supports.
pub fn get_capabilities() -> (c: Vec<String>)
    ensures
        c@.map_values(|s: String| s@) == seq!["body"@, "actions"@, "icon-static"@, "body-markup"@, "persistence"@],
{
    let c = vec!["body".to_owned(), "actions".to_owned(), "icon-static".to_owned(),
        "body-markup".to_owned(), "persistence".to_owned()];
    assert(c@.map_values(|s: String| s@) =~= seq!["body"@, "actions"@, "icon-static"@, "body-markup"@, "persistence"@]);
    c
}

/// (name, vendor, version, spec version) of the daemon, for its package
/// version.
pub fn get_server_information(version: &str) -> (r: (String, String, String, String))
    ensures
        r.0@ == "MDE Action Center"@,
        r.1@ == "MDE-Retro"@,
        r.2@ == version@,
        r.3@ == "1.2"@,
{
    ("MDE Action Center".to_owned(), "MDE-Retro".to_owned(), version.to_owned(), "1.2".to_owned())
}

proof fn lemma_filter_no_id(s: Seq<Notif>, id: u32)
    ensures
        s.filter(|x: Notif| x.id != id).filter(|x: Notif| x.id == id).len() == 0,
        s.filter(|x: Notif| x.id != id).filter(|x: Notif| x.id != id) == s.filter(|x: Notif| x.id != id),
    decreases s.len(),
{
    reveal(Seq::filter);
    if s.len() > 0 {
        lemma_filter_no_id(s.drop_last(), id);
        let t = s.drop_last().filter(|x: Notif| x.id != id);
        if s.last().id != id {
            assert(s.filter(|x: Notif| x.id != id) == t.push(s.last()));
            assert(t.push(s.last()).drop_last() =~= t);
        } else {
            assert(s.filter(|x: Notif| x.id != id) == t);
        }
    }
}

/// After posting `n`, the store holds exactly one notification with its id,
/// `n` itself; closing that id then leaves the store as closing it before the
/// post would have.
pub proof fn law_post_then_close(s: Seq<Notif>, n: Notif)
    ensures
        s.filter(|x: Notif| x.id != n.id).push(n).filter(|x: Notif| x.id == n.id) == seq![n],
        s.filter(|x: Notif| x.id != n.id).push(n).filter(|x: Notif| x.id != n.id)
            == s.filter(|x: Notif| x.id != n.id),
{
    reveal(Seq::filter);
    lemma_filter_no_id(s, n.id);
    let t = s.filter(|x: Notif| x.id != n.id);
    assert(t.push(n).drop_last() =~= t);
    assert(t.filter(|x: Notif| x.id == n.id) =~= Seq::<Notif>::empty());
    assert(t.push(n).filter(|x: Notif| x.id == n.id) =~= seq![n]);
}

} // verus!
