//! Remote mounts for the File Explorer's Network and Cloud panes: the URI
//! check, the sshfs remote spec, which backend a scheme goes to, and the
//! messages a failed mount reports.

use vstd::prelude::*;
use crate::text::{chars_of, eq_str, find, find_chars, push_str, rfind, rfind_chars, slice_chars,
    split_char, split_chars, string_of, trim, trim_chars, views};

verus! {

/// The part of `s` after its last `c` (all of `s` when there is none).
pub open spec fn after_last(s: Seq<char>, c: char) -> Seq<char> {
    match rfind(s, seq![c]) {
        Some(i) => if 0 <= i < s.len() { s.skip(i + 1) } else { s },
        None => s,
    }
}

/// The part of `s` before its first `c` (all of `s` when there is none).
pub open spec fn before_first(s: Seq<char>, c: char) -> Seq<char> {
    split_char(s, c)[0]
}

/// `scheme://[user@]host[:port][/path]` checked: (scheme, host), or the
/// message saying what is missing.
pub open spec fn parse_uri_spec(uri: Seq<char>) -> Result<(Seq<char>, Seq<char>), Seq<char>> {
    match find(uri, "://"@) {
        None => Err("not a URI (expected scheme://host\u{2026}): '"@ + uri + "'"@),
        Some(i) => {
            let scheme = uri.take(i);
            let rest = uri.skip(i + 3);
            if scheme.len() == 0 {
                Err("URI has no scheme: '"@ + uri + "'"@)
            } else {
                let host = before_first(after_last(before_first(rest, '/'), '@'), ':');
                if host.len() == 0 {
                    Err("URI has no host: '"@ + uri + "'"@)
                } else {
                    Ok((scheme, host))
                }
            }
        },
    }
}

pub open spec fn result_view(r: Result<(String, String), String>) -> Result<(Seq<char>, Seq<char>), Seq<char>> {
    match r {
        Ok((a, b)) => Ok((a@, b@)),
        Err(e) => Err(e@),
    }
}

fn first_piece(v: &Vec<char>, c: char) -> (r: Vec<char>)
    ensures
        r@ == before_first(v@, c),
{
    let parts = split_chars(v, c);
    assert(views(parts@)[0] == parts@[0]@);
    slice_chars(&parts[0], 0, parts[0].len())
}

fn last_piece(v: &Vec<char>, c: char) -> (r: Vec<char>)
    ensures
        r@ == after_last(v@, c),
{
    let cv = vec![c];
    assert(cv@ =~= seq![c]);
    assert(cv@.len() == 1);
    match rfind_chars(v, &cv) {
        Some(i) => {
            assert(crate::text::occurs_at(v@, cv@, i as int));
            let vl = v.len();
            assert(i + 1 <= vl);
            let r = slice_chars(v, i + 1, vl);
            assert(r@ =~= v@.skip(i + 1));
            r
        }
        None => slice_chars(v, 0, v.len()),
    }
}

/// Quote `uri` into a message: `head` + uri + `'`.
fn quoted(head: &str, uri: &str) -> (s: String)
    ensures
        s@ == head@ + uri@ + "'"@,
{
    let mut s = head.to_owned();
    push_str(&mut s, uri);
    push_str(&mut s, "'");
    s
}

/// Validate a `scheme://[user@]host[:port][/path]` URI, returning (scheme, host).
pub fn parse_uri(uri: &str) -> (r: Result<(String, String), String>)
    ensures
        result_view(r) == parse_uri_spec(uri@),
{
    let u = chars_of(uri);
    let sep = chars_of("://");
    proof {
        reveal_strlit("://");
    }
    match find_chars(&u, &sep) {
        None => Err(quoted("not a URI (expected scheme://host\u{2026}): '", uri)),
        Some(i) => {
            assert(crate::text::occurs_at(u@, sep@, i as int));
            assert(sep@.len() == 3);
            let ul = u.len();
            assert(i + 3 <= ul);
            let scheme = slice_chars(&u, 0, i);
            let rest = slice_chars(&u, i + 3, ul);
            assert(scheme@ =~= uri@.take(i as int));
            assert(rest@ =~= uri@.skip(i + 3));
            if scheme.len() == 0 {
                Err(quoted("URI has no scheme: '", uri))
            } else {
                let authority = first_piece(&rest, '/');
                let h1 = last_piece(&authority, '@');
                let host = first_piece(&h1, ':');
                if host.len() == 0 {
                    Err(quoted("URI has no host: '", uri))
                } else {
                    Ok((string_of(&scheme), string_of(&host)))
                }
            }
        }
    }
}

/// Which backend mounts a scheme: sshfs for `sftp`/`ssh`, GVfs otherwise.
pub fn uses_sshfs(scheme: &str) -> (b: bool)
    ensures
        b == (scheme@ == "sftp"@ || scheme@ == "ssh"@),
{
    let s = chars_of(scheme);
    eq_str(&s, "sftp") || eq_str(&s, "ssh")
}

/// The sshfs remote spec of `scheme://[user@]host[:port]/path`:
/// `[user@]host[:port]:/path` (path `/` when there is none).
pub open spec fn sshfs_remote_spec(uri: Seq<char>) -> Seq<char> {
    let rest = match find(uri, "://"@) {
        Some(i) => uri.skip(i + 3),
        None => seq![],
    };
    match find(rest, "/"@) {
        Some(j) => rest.take(j) + ":"@ + "/"@ + rest.skip(j + 1),
        None => rest + ":"@ + "/"@,
    }
}

/// The sshfs remote spec for a URI.
pub fn sshfs_remote(uri: &str) -> (r: String)
    ensures
        r@ == sshfs_remote_spec(uri@),
{
    let u = chars_of(uri);
    let sep = chars_of("://");
    proof {
        reveal_strlit("://");
        reveal_strlit("/");
        reveal_strlit(":");
        reveal_strlit(":/");
    }
    let rest = match find_chars(&u, &sep) {
        Some(i) => {
            assert(crate::text::occurs_at(u@, sep@, i as int));
            assert(sep@.len() == 3);
            let ul = u.len();
            assert(i + 3 <= ul);
            let r = slice_chars(&u, i + 3, ul);
            assert(r@ =~= uri@.skip(i + 3));
            r
        }
        None => Vec::new(),
    };
    let slash = chars_of("/");
    let mut out = String::new();
    match find_chars(&rest, &slash) {
        Some(j) => {
            assert(crate::text::occurs_at(rest@, slash@, j as int));
            assert(slash@.len() == 1);
            let a = slice_chars(&rest, 0, j);
            let p = slice_chars(&rest, j + 1, rest.len());
            out = string_of(&a);
            push_str(&mut out, ":/");
            push_str(&mut out, string_of(&p).as_str());
            assert(out@ =~= sshfs_remote_spec(uri@));
        }
        None => {
            out = string_of(&rest);
            push_str(&mut out, ":/");
            assert(out@ =~= sshfs_remote_spec(uri@));
        }
    }
    out
}

/// How a `gio mount` run ended.
pub enum GioOutcome {
    /// Exit status 124: the `timeout` wrapper stopped it.
    TimedOut,
    /// Another failure, with what it printed on stderr.
    Failed(String),
    /// It succeeded (yet no GVfs entry names the host).
    Succeeded,
    /// It could not be started.
    Unavailable(String),
}

/// The message of a GVfs mount whose entry was not found.
pub open spec fn gio_error_spec(o: GioOutcome, host: Seq<char>, uri: Seq<char>) -> Seq<char> {
    let detail = match o {
        GioOutcome::TimedOut => "connection to '"@ + host + "' timed out"@,
        GioOutcome::Failed(e) => trim(e@),
        GioOutcome::Succeeded => "mounted, but its GVfs path was not found"@,
        GioOutcome::Unavailable(e) => "gio not available: "@ + e@,
    };
    if detail.len() == 0 { "could not mount '"@ + uri + "'"@ } else { detail }
}

/// The error of a GVfs mount whose entry was not found afterwards.
pub fn gio_error(o: GioOutcome, host: &str, uri: &str) -> (e: String)
    ensures
        e@ == gio_error_spec(o, host@, uri@),
{
    let detail = match o {
        GioOutcome::TimedOut => {
            let mut d = "connection to '".to_owned();
            push_str(&mut d, host);
            push_str(&mut d, "' timed out");
            d
        }
        GioOutcome::Failed(e) => {
            let v = chars_of(e.as_str());
            let t = trim_chars(&v);
            string_of(&t)
        }
        GioOutcome::Succeeded => "mounted, but its GVfs path was not found".to_owned(),
        GioOutcome::Unavailable(e) => {
            let mut d = "gio not available: ".to_owned();
            push_str(&mut d, e.as_str());
            d
        }
    };
    if detail.as_str().is_empty() {
        quoted("could not mount '", uri)
    } else {
        detail
    }
}

/// Whether a GVfs FUSE entry belongs to `host` (GVfs names embed it).
pub fn gvfs_entry_matches(name: &str, host: &str) -> (b: bool)
    ensures
        b == crate::text::contains(name@, host@),
{
    let n = chars_of(name);
    let h = chars_of(host);
    crate::text::contains_chars(&n, &h)
}

} // verus!
