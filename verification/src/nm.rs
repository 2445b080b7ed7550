//! NetworkManager / rfkill / proxy parsers: the data layer of the Network
//! flyout and the Settings network pages. Each reader is a pure function of
//! the text that `nmcli`, `rfkill` or `gsettings` printed.

use vstd::prelude::*;
use crate::text::{lemma_filter_map_step, strip_leading, strip_trailing, trim_matches_chars, chars_of, contains, eq_str, has, is_ws, lines, lines_of, lowercase, parse_bounded,
    parse_u8, push_char, starts_with, begins, slice_chars, string_of, to_lowercase, trim,
    trim_chars, views};

verus! {

/// One scanned Wi-Fi network.
#[derive(Debug, Clone, PartialEq, Eq)]
pub struct Wifi {
    pub ssid: String,
    pub signal: u8,
    pub secured: bool,
}

/// One NetworkManager connection (active list / VPN list).
#[derive(Debug, Clone, PartialEq, Eq)]
pub struct Conn {
    pub name: String,
    pub kind: String,
    pub device: String,
    pub state: String,
}

// --- terse fields ------------------------------------------------------------

/// Put `p` in front of the first field.
pub open spec fn prepend_first(p: Seq<char>, f: Seq<Seq<char>>) -> Seq<Seq<char>> {
    f.update(0, p + f[0])
}

/// The fields of one `nmcli -t` line: `:`-separated, where `\x` stands for the
/// character `x` (so `\:` is a literal colon and `\\` a backslash); a lone
/// trailing backslash is dropped.
pub open spec fn terse(s: Seq<char>) -> Seq<Seq<char>>
    decreases s.len(),
{
    if s.len() == 0 {
        seq![seq![]]
    } else if s[0] == '\\' {
        if s.len() >= 2 {
            prepend_first(seq![s[1]], terse(s.skip(2)))
        } else {
            seq![seq![]]
        }
    } else if s[0] == ':' {
        seq![seq![]] + terse(s.skip(1))
    } else {
        prepend_first(seq![s[0]], terse(s.skip(1)))
    }
}

proof fn lemma_terse_nonempty(s: Seq<char>)
    ensures
        terse(s).len() >= 1,
    decreases s.len(),
{
    if s.len() > 0 {
        if s[0] == '\\' {
            if s.len() >= 2 {
                lemma_terse_nonempty(s.skip(2));
            }
        } else {
            lemma_terse_nonempty(s.skip(1));
        }
    }
}

pub open spec fn string_views(v: Seq<String>) -> Seq<Seq<char>> {
    v.map_values(|s: String| s@)
}

/// Split one `nmcli -t` (terse) line into fields, un-escaping `\:` and `\\`.
pub fn split_terse(line: &str) -> (r: Vec<String>)
    ensures
        string_views(r@) == terse(line@),
{
    let v = chars_of(line);
    terse_fields(&v)
}

/// The terse fields of a line given as characters.
pub fn terse_fields(v: &Vec<char>) -> (r: Vec<String>)
    ensures
        string_views(r@) == terse(v@),
{
    let mut out: Vec<String> = Vec::new();
    let mut cur = String::new();
    let mut i: usize = 0;
    proof {
        assert(v@.skip(0) =~= v@);
        lemma_terse_nonempty(v@);
        assert(prepend_first(seq![], terse(v@)) =~~= terse(v@));
    }
    while i < v.len()
        invariant
            i <= v.len(),
            terse(v@) == string_views(out@) + prepend_first(cur@, terse(v@.skip(i as int))),
        decreases v.len() - i,
    {
        let ghost rest = v@.skip(i as int);
        proof {
            lemma_terse_nonempty(rest);
        }
        assert(rest[0] == v@[i as int]);
        let c = v[i];
        if c == '\\' {
            if i + 1 < v.len() {
                proof {
                    assert(rest.skip(2) =~= v@.skip(i + 2));
                    assert(rest[1] == v@[i + 1]);
                    lemma_terse_nonempty(v@.skip(i + 2));
                    assert(prepend_first(cur@, prepend_first(seq![v@[i + 1]], terse(v@.skip(i + 2))))
                        =~~= prepend_first(cur@.push(v@[i + 1]), terse(v@.skip(i + 2))));
                }
                push_char(&mut cur, v[i + 1]);
                i += 2;
            } else {
                proof {
                    assert(rest.len() == 1);
                    assert(v@.skip(i + 1) =~= Seq::<char>::empty());
                    assert(prepend_first(cur@, terse(rest)) =~= prepend_first(cur@, terse(v@.skip(i + 1))));
                }
                i += 1;
            }
        } else if c == ':' {
            proof {
                assert(rest.skip(1) =~= v@.skip(i + 1));
                lemma_terse_nonempty(v@.skip(i + 1));
                let t = terse(v@.skip(i + 1));
                assert(prepend_first(cur@, seq![seq![]] + t) =~= seq![cur@] + prepend_first(seq![], t));
                assert(prepend_first(seq![], t) =~~= t);
            }
            let ghost before = string_views(out@);
            out.push(cur);
            assert(string_views(out@) =~= before.push(cur@));
            cur = String::new();
            proof {
                let t = terse(v@.skip(i + 1));
                assert(prepend_first(seq![], t) =~~= t);
                assert(before + (seq![out@.last()@] + t) =~= string_views(out@) + t);
            }
            i += 1;
        } else {
            proof {
                assert(rest.skip(1) =~= v@.skip(i + 1));
                lemma_terse_nonempty(v@.skip(i + 1));
                assert(prepend_first(cur@, prepend_first(seq![c], terse(v@.skip(i + 1))))
                    =~~= prepend_first(cur@.push(c), terse(v@.skip(i + 1))));
            }
            push_char(&mut cur, c);
            i += 1;
        }
    }
    proof {
        assert(v@.skip(i as int) =~= Seq::<char>::empty());
        assert(prepend_first(cur@, seq![seq![]]) =~~= seq![cur@]);
    }
    let ghost before = string_views(out@);
    out.push(cur);
    assert(string_views(out@) =~= before.push(cur@));
    out
}

// --- line parsers --------------------------------------------------------------

/// One line of `nmcli -t -f SSID,SIGNAL,SECURITY dev wifi`: hidden networks
/// (blank SSID) and short lines give nothing; an unreadable signal is 0; an
/// empty or `--` SECURITY means open.
pub open spec fn wifi_line(l: Seq<char>) -> Option<(Seq<char>, nat, bool)> {
    let f = terse(l);
    if f.len() < 3 || f[0].len() == 0 {
        None
    } else {
        let signal = match parse_bounded(trim(f[1]), u8::MAX as nat) {
            Some(n) => n,
            None => 0,
        };
        Some((f[0], signal, f[2].len() > 0 && f[2] != "--"@))
    }
}

pub open spec fn wifi_view(w: Wifi) -> (Seq<char>, nat, bool) {
    (w.ssid@, w.signal as nat, w.secured)
}

pub open spec fn wifi_views(v: Seq<Wifi>) -> Seq<(Seq<char>, nat, bool)> {
    v.map_values(|w: Wifi| wifi_view(w))
}

/// The text of a field.
fn field_chars(f: &Vec<String>, i: usize) -> (v: Vec<char>)
    requires
        i < f.len(),
    ensures
        v@ == f@[i as int]@,
{
    chars_of(f[i].as_str())
}

fn wifi_of_line(l: &Vec<char>) -> (r: Option<Wifi>)
    ensures
        match r {
            Some(w) => wifi_line(l@) == Some(wifi_view(w)),
            None => wifi_line(l@) is None,
        },
{
    let f = terse_fields(l);
    assert(string_views(f@).len() == f@.len());
    if f.len() < 3 || f[0].as_str().is_empty() {
        proof {
            if f.len() >= 3 {
                assert(string_views(f@)[0] == f@[0]@);
            }
        }
        return None;
    }
    assert(string_views(f@)[0] == f@[0]@);
    assert(string_views(f@)[1] == f@[1]@);
    assert(string_views(f@)[2] == f@[2]@);
    let sig_chars = field_chars(&f, 1);
    let sig_t = trim_chars(&sig_chars);
    let signal = match parse_u8(&sig_t) {
        Some(n) => n,
        None => 0,
    };
    let sec = field_chars(&f, 2);
    let secured = sec.len() > 0 && !eq_str(&sec, "--");
    Some(Wifi { ssid: f[0].clone(), signal, secured })
}

/// Parse `nmcli -t -f SSID,SIGNAL,SECURITY dev wifi` into networks, in order.
pub fn parse_wifi(out: &str) -> (r: Vec<Wifi>)
    ensures
        wifi_views(r@) == lines(out@).filter_map(|l: Seq<char>| wifi_line(l)),
{
    let v = chars_of(out);
    let ls = lines_of(&v);
    let mut r: Vec<Wifi> = Vec::new();
    let mut i: usize = 0;
    assert(views(ls@).take(0) =~= Seq::<Seq<char>>::empty());
    while i < ls.len()
        invariant
            i <= ls.len(),
            views(ls@) == lines(out@),
            wifi_views(r@) == views(ls@).take(i as int).filter_map(|l: Seq<char>| wifi_line(l)),
        decreases ls.len() - i,
    {
        proof {
            lemma_filter_map_step(views(ls@), i as int, |l: Seq<char>| wifi_line(l));
        }
        assert(views(ls@)[i as int] == ls@[i as int]@);
        match wifi_of_line(&ls[i]) {
            Some(w) => {
                let ghost before = wifi_views(r@);
                r.push(w);
                assert(wifi_views(r@) =~= before.push(wifi_view(w)));
            }
            None => {}
        }
        i += 1;
    }
    assert(views(ls@).take(ls.len() as int) =~= views(ls@));
    r
}

/// One line of `nmcli -t -f NAME,TYPE,DEVICE,STATE connection show`: four
/// fields with a non-empty name.
pub open spec fn conn_line(l: Seq<char>) -> Option<(Seq<char>, Seq<char>, Seq<char>, Seq<char>)> {
    let f = terse(l);
    if f.len() < 4 || f[0].len() == 0 {
        None
    } else {
        Some((f[0], f[1], f[2], f[3]))
    }
}

pub open spec fn conn_view(c: Conn) -> (Seq<char>, Seq<char>, Seq<char>, Seq<char>) {
    (c.name@, c.kind@, c.device@, c.state@)
}

pub open spec fn conn_views(v: Seq<Conn>) -> Seq<(Seq<char>, Seq<char>, Seq<char>, Seq<char>)> {
    v.map_values(|c: Conn| conn_view(c))
}

fn conn_of_line(l: &Vec<char>) -> (r: Option<Conn>)
    ensures
        match r {
            Some(c) => conn_line(l@) == Some(conn_view(c)),
            None => conn_line(l@) is None,
        },
{
    let f = terse_fields(l);
    assert(string_views(f@).len() == f@.len());
    if f.len() < 4 || f[0].as_str().is_empty() {
        proof {
            if f.len() >= 4 {
                assert(string_views(f@)[0] == f@[0]@);
            }
        }
        return None;
    }
    assert(string_views(f@)[0] == f@[0]@);
    assert(string_views(f@)[1] == f@[1]@);
    assert(string_views(f@)[2] == f@[2]@);
    assert(string_views(f@)[3] == f@[3]@);
    Some(Conn { name: f[0].clone(), kind: f[1].clone(), device: f[2].clone(), state: f[3].clone() })
}

/// Parse `nmcli -t -f NAME,TYPE,DEVICE,STATE connection show [--active]`.
pub fn parse_connections(out: &str) -> (r: Vec<Conn>)
    ensures
        conn_views(r@) == lines(out@).filter_map(|l: Seq<char>| conn_line(l)),
{
    let v = chars_of(out);
    let ls = lines_of(&v);
    let mut r: Vec<Conn> = Vec::new();
    let mut i: usize = 0;
    assert(views(ls@).take(0) =~= Seq::<Seq<char>>::empty());
    while i < ls.len()
        invariant
            i <= ls.len(),
            views(ls@) == lines(out@),
            conn_views(r@) == views(ls@).take(i as int).filter_map(|l: Seq<char>| conn_line(l)),
        decreases ls.len() - i,
    {
        proof {
            lemma_filter_map_step(views(ls@), i as int, |l: Seq<char>| conn_line(l));
        }
        assert(views(ls@)[i as int] == ls@[i as int]@);
        match conn_of_line(&ls[i]) {
            Some(c) => {
                let ghost before = conn_views(r@);
                r.push(c);
                assert(conn_views(r@) =~= before.push(conn_view(c)));
            }
            None => {}
        }
        i += 1;
    }
    assert(views(ls@).take(ls.len() as int) =~= views(ls@));
    r
}

/// A connection type is a VPN-ish tunnel (vpn / wireguard), case-insensitively.
pub open spec fn vpn_kind(kind: Seq<char>) -> bool {
    contains(lowercase(kind), "vpn"@) || contains(lowercase(kind), "wireguard"@)
}

/// Whether a connection type is a VPN-ish tunnel (vpn / wireguard).
pub fn is_vpn(kind: &str) -> (b: bool)
    ensures
        b == vpn_kind(kind@),
{
    let v = chars_of(kind);
    let k = to_lowercase(&v);
    has(&k, "vpn") || has(&k, "wireguard")
}

/// All VPN/WireGuard connections of `nmcli -t -f NAME,TYPE,DEVICE,STATE
/// connection show`, active or not.
pub fn vpn_list(out: &str) -> (r: Vec<Conn>)
    ensures
        conn_views(r@) == lines(out@).filter_map(|l: Seq<char>| conn_line(l))
            .filter(|c: (Seq<char>, Seq<char>, Seq<char>, Seq<char>)| vpn_kind(c.1)),
{
    let all = parse_connections(out);
    let ghost src = conn_views(all@);
    let mut r: Vec<Conn> = Vec::new();
    let mut i: usize = 0;
    proof {
        reveal(Seq::filter);
    }
    assert(src.take(0) =~= Seq::<(Seq<char>, Seq<char>, Seq<char>, Seq<char>)>::empty());
    while i < all.len()
        invariant
            i <= all.len(),
            src == conn_views(all@),
            conn_views(r@) == src.take(i as int).filter(|c: (Seq<char>, Seq<char>, Seq<char>, Seq<char>)| vpn_kind(c.1)),
        decreases all.len() - i,
    {
        proof {
            reveal(Seq::filter);
        }
        assert(src.take(i + 1).drop_last() =~= src.take(i as int));
        assert(src.take(i + 1).last() == conn_view(all@[i as int]));
        if is_vpn(all[i].kind.as_str()) {
            let c = Conn {
                name: all[i].name.clone(),
                kind: all[i].kind.clone(),
                device: all[i].device.clone(),
                state: all[i].state.clone(),
            };
            r.push(c);
            assert(conn_views(r@) =~= src.take(i + 1).filter(|c: (Seq<char>, Seq<char>, Seq<char>, Seq<char>)| vpn_kind(c.1)));
        } else {
            assert(src.take(i + 1).filter(|c: (Seq<char>, Seq<char>, Seq<char>, Seq<char>)| vpn_kind(c.1)) == src.take(i as int).filter(|c: (Seq<char>, Seq<char>, Seq<char>, Seq<char>)| vpn_kind(c.1)));
        }
        i += 1;
    }
    assert(src.take(all.len() as int) =~= src);
    r
}

/// One line of `nmcli -t -f NAME,TYPE connection show` naming a saved Wi-Fi
/// connection (its TYPE mentions "wireless").
pub open spec fn saved_wifi_line(l: Seq<char>) -> Option<Seq<char>> {
    let f = terse(l);
    if f.len() >= 2 && f[0].len() > 0 && contains(f[1], "wireless"@) {
        Some(f[0])
    } else {
        None
    }
}

/// Saved Wi-Fi connection names, in order.
pub fn parse_saved_wifi(out: &str) -> (r: Vec<String>)
    ensures
        string_views(r@) == lines(out@).filter_map(|l: Seq<char>| saved_wifi_line(l)),
{
    let v = chars_of(out);
    let ls = lines_of(&v);
    let mut r: Vec<String> = Vec::new();
    let mut i: usize = 0;
    assert(views(ls@).take(0) =~= Seq::<Seq<char>>::empty());
    while i < ls.len()
        invariant
            i <= ls.len(),
            views(ls@) == lines(out@),
            string_views(r@) == views(ls@).take(i as int).filter_map(|l: Seq<char>| saved_wifi_line(l)),
        decreases ls.len() - i,
    {
        proof {
            lemma_filter_map_step(views(ls@), i as int, |l: Seq<char>| saved_wifi_line(l));
        }
        assert(views(ls@)[i as int] == ls@[i as int]@);
        let fl = terse_fields(&ls[i]);
        assert(string_views(fl@).len() == fl@.len());
        if fl.len() >= 2 && !fl[0].as_str().is_empty() {
            assert(string_views(fl@)[0] == fl@[0]@);
            assert(string_views(fl@)[1] == fl@[1]@);
            let kind = field_chars(&fl, 1);
            if has(&kind, "wireless") {
                let ghost before = string_views(r@);
                r.push(fl[0].clone());
                assert(string_views(r@) =~= before.push(fl@[0]@));
            }
        } else {
            proof {
                if fl.len() >= 2 {
                    assert(string_views(fl@)[0] == fl@[0]@);
                }
            }
        }
        i += 1;
    }
    assert(views(ls@).take(ls.len() as int) =~= views(ls@));
    r
}

/// A `Soft blocked:` line of `rfkill list`: whether that radio is blocked.
pub open spec fn soft_line(l: Seq<char>) -> Option<bool> {
    let t = trim(l);
    if starts_with(t, "Soft blocked:"@) {
        Some(trim(t.skip(13)) == "yes"@)
    } else {
        None
    }
}

/// Airplane mode: there is a radio, and every radio is soft-blocked.
pub open spec fn airplane_spec(out: Seq<char>) -> bool {
    let soft = lines(out).filter_map(|l: Seq<char>| soft_line(l));
    soft.len() > 0 && forall|i: int| 0 <= i < soft.len() ==> soft[i]
}

/// Parse `rfkill list`: airplane mode means every radio is soft-blocked.
pub fn parse_airplane(out: &str) -> (b: bool)
    ensures
        b == airplane_spec(out@),
{
    let v = chars_of(out);
    let ls = lines_of(&v);
    let mut soft: Vec<bool> = Vec::new();
    let mut i: usize = 0;
    assert(views(ls@).take(0) =~= Seq::<Seq<char>>::empty());
    while i < ls.len()
        invariant
            i <= ls.len(),
            views(ls@) == lines(out@),
            soft@ == views(ls@).take(i as int).filter_map(|l: Seq<char>| soft_line(l)),
        decreases ls.len() - i,
    {
        proof {
            lemma_filter_map_step(views(ls@), i as int, |l: Seq<char>| soft_line(l));
        }
        assert(views(ls@)[i as int] == ls@[i as int]@);
        let t = trim_chars(&ls[i]);
        if begins(&t, "Soft blocked:") {
            assert("Soft blocked:"@.len() == 13) by {
                reveal_strlit("Soft blocked:");
            }
            let rest = slice_chars(&t, 13, t.len());
            assert(rest@ =~= t@.skip(13));
            let rt = trim_chars(&rest);
            soft.push(eq_str(&rt, "yes"));
        }
        i += 1;
    }
    assert(views(ls@).take(ls.len() as int) =~= views(ls@));
    let mut all = true;
    let mut j: usize = 0;
    while j < soft.len()
        invariant
            j <= soft.len(),
            all == forall|k: int| 0 <= k < j ==> soft@[k],
        decreases soft.len() - j,
    {
        all = all && soft[j];
        j += 1;
    }
    soft.len() > 0 && all
}

// --- gsettings and single-value readers --------------------------------------

/// A `gsettings get` value as text: trimmed, and without its single quotes.
pub open spec fn gvalue(raw: Seq<char>) -> Seq<char> {
    strip_trailing(strip_leading(trim(raw), '\''), '\'')
}

/// The text of a `gsettings get` reply.
pub fn gsettings_value(raw: &str) -> (s: String)
    ensures
        s@ == gvalue(raw@),
{
    let v = chars_of(raw);
    let t = trim_chars(&v);
    let r = trim_matches_chars(&t, '\'');
    string_of(&r)
}

/// The GNOME proxy mode (`none`/`manual`/`auto`) from `gsettings get
/// org.gnome.system.proxy mode`; `none` when unset.
pub fn proxy_mode(raw: &str) -> (m: String)
    ensures
        m@ == if gvalue(raw@).len() == 0 { "none"@ } else { gvalue(raw@) },
{
    let m = gsettings_value(raw);
    if m.as_str().is_empty() {
        "none".to_owned()
    } else {
        m
    }
}

/// The manual HTTP proxy (host, port) from the two `gsettings get` replies.
pub fn proxy_http(raw_host: &str, raw_port: &str) -> (r: (String, String))
    ensures
        r.0@ == gvalue(raw_host@),
        r.1@ == gvalue(raw_port@),
{
    (gsettings_value(raw_host), gsettings_value(raw_port))
}

pub open spec fn argv_views(v: Seq<String>) -> Seq<Seq<char>> {
    v.map_values(|s: String| s@)
}

/// The `gsettings` arguments that set the GNOME proxy mode.
pub fn set_proxy_mode(mode: &str) -> (argv: Vec<String>)
    ensures
        argv_views(argv@) == seq!["set"@, "org.gnome.system.proxy"@, "mode"@, mode@],
{
    let v = vec!["set".to_owned(), "org.gnome.system.proxy".to_owned(), "mode".to_owned(), mode.to_owned()];
    assert(argv_views(v@) =~= seq!["set"@, "org.gnome.system.proxy"@, "mode"@, mode@]);
    v
}

/// The two `gsettings` calls that set the manual HTTP proxy, host first; an
/// empty port is written as `0`. The second runs only if the first succeeds.
pub fn set_proxy_http(host: &str, port: &str) -> (calls: Vec<Vec<String>>)
    ensures
        calls@.len() == 2,
        argv_views(calls@[0]@) == seq!["set"@, "org.gnome.system.proxy.http"@, "host"@, host@],
        argv_views(calls@[1]@) == seq!["set"@, "org.gnome.system.proxy.http"@, "port"@,
            if port@.len() == 0 { "0"@ } else { port@ }],
{
    let p = if port.is_empty() { "0" } else { port };
    let a = vec!["set".to_owned(), "org.gnome.system.proxy.http".to_owned(), "host".to_owned(), host.to_owned()];
    let b = vec!["set".to_owned(), "org.gnome.system.proxy.http".to_owned(), "port".to_owned(), p.to_owned()];
    assert(argv_views(a@) =~= seq!["set"@, "org.gnome.system.proxy.http"@, "host"@, host@]);
    assert(argv_views(b@) =~= seq!["set"@, "org.gnome.system.proxy.http"@, "port"@,
        if port@.len() == 0 { "0"@ } else { port@ }]);
    vec![a, b]
}

/// Setting the HTTP proxy, as the calls come back: the host call's success,
/// and the port call's once it ran. Gives whether the port call runs (only
/// after the host was set) and the overall result (both set).
pub fn proxy_http_outcome(host_ok: bool, port_ok: Option<bool>) -> (r: (bool, bool))
    ensures
        r.0 == host_ok,
        r.1 == (host_ok && port_ok == Some(true)),
{
    (host_ok, host_ok && match port_ok {
        Some(b) => b,
        None => false,
    })
}

/// Whether the Wi-Fi radio is on, from `nmcli -t radio wifi`.
pub fn wifi_enabled(out: &str) -> (b: bool)
    ensures
        b == (trim(out@) == "enabled"@),
{
    let v = chars_of(out);
    let t = trim_chars(&v);
    eq_str(&t, "enabled")
}

/// A connection's firewalld zone, from `nmcli -g connection.zone connection
/// show <name>`.
pub fn connection_zone(out: &str) -> (z: String)
    ensures
        z@ == trim(out@),
{
    let v = chars_of(out);
    let t = trim_chars(&v);
    string_of(&t)
}

/// Whether saved Wi-Fi auto-connects: the first saved network's
/// `connection.autoconnect` reply is `yes`; on when none is saved.
pub fn wifi_autoconnect(first_reply: Option<&str>) -> (b: bool)
    ensures
        b == match first_reply {
            Some(r) => trim(r@) == "yes"@,
            None => true,
        },
{
    match first_reply {
        Some(r) => {
            let v = chars_of(r);
            let t = trim_chars(&v);
            eq_str(&t, "yes")
        }
        None => true,
    }
}

} // verus!
