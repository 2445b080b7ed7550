//! File Explorer logic: path names and kinds, the in-folder search filter,
//! entry icons, `/proc/mounts` unescaping, GVfs network labels, the
//! `smbclient -L` share table, and the Quick access folder list.

use vstd::prelude::*;
use crate::text::{chars_of, contains, eq_str, find, lines, lines_of, lower_ascii, lower_ascii_chars,
    lowercase, push_str, rfind, rfind_chars, slice_chars, split_char, split_chars, split_ws,
    split_ws_chars, starts_with, string_of, to_lowercase, to_uppercase, trim, trim_chars,
    uppercase, views, begins};

verus! {

/// One directory entry.
pub struct Entry {
    pub name: String,
    pub path: String,
    pub is_dir: bool,
    pub size: u64,
}

/// Which view the main area shows.
#[derive(Debug, Clone, Copy, PartialEq, Eq, Structural)]
pub enum Pane {
    Folder,
    QuickAccess,
    ThisPc,
    Network,
    CloudDevice,
}

// --- paths ------------------------------------------------------------------------

/// The named components of a `/`-separated path (empty and `.` pieces
/// dropped), in order.
pub open spec fn components(p: Seq<char>) -> Seq<Seq<char>> {
    split_char(p, '/').filter(|c: Seq<char>| c.len() > 0 && c != "."@)
}

/// `Path::file_name`: the last component, unless there is none or it is `..`.
pub open spec fn file_name_spec(p: Seq<char>) -> Option<Seq<char>> {
    let c = components(p);
    if c.len() == 0 || c.last() == ".."@ { None } else { Some(c.last()) }
}

/// The last component of a path, if it has a name.
pub fn file_name(p: &str) -> (r: Option<String>)
    ensures
        match r {
            Some(n) => file_name_spec(p@) == Some(n@),
            None => file_name_spec(p@) is None,
        },
{
    let v = chars_of(p);
    let parts = split_chars(&v, '/');
    let mut comps: Vec<Vec<char>> = Vec::new();
    let mut i: usize = 0;
    proof {
        reveal(Seq::filter);
    }
    assert(views(parts@).take(0) =~= Seq::<Seq<char>>::empty());
    while i < parts.len()
        invariant
            i <= parts.len(),
            views(parts@) == split_char(p@, '/'),
            views(comps@) == views(parts@).take(i as int).filter(|c: Seq<char>| c.len() > 0 && c != "."@),
        decreases parts.len() - i,
    {
        proof {
            reveal(Seq::filter);
        }
        assert(views(parts@).take(i + 1).drop_last() =~= views(parts@).take(i as int));
        assert(views(parts@).take(i + 1).last() == parts@[i as int]@);
        if parts[i].len() > 0 && !eq_str(&parts[i], ".") {
            let ghost before = views(comps@);
            comps.push(slice_chars(&parts[i], 0, parts[i].len()));
            assert(parts@[i as int]@.subrange(0, parts@[i as int]@.len() as int) =~= parts@[i as int]@);
            assert(views(comps@) =~= before.push(parts@[i as int]@));
        }
        i += 1;
    }
    assert(views(parts@).take(parts.len() as int) =~= views(parts@));
    if comps.len() == 0 {
        return None;
    }
    let last = comps.len() - 1;
    assert(views(comps@).last() == comps@[last as int]@);
    if eq_str(&comps[last], "..") {
        None
    } else {
        Some(string_of(&comps[last]))
    }
}

/// `Path::extension`: the part of the file name after its last `.`, unless
/// the name has no `.` or only a leading one.
pub open spec fn extension_spec(p: Seq<char>) -> Option<Seq<char>> {
    match file_name_spec(p) {
        Some(n) => match rfind(n, "."@) {
            Some(i) => if 0 < i < n.len() { Some(n.skip(i + 1)) } else { None },
            None => None,
        },
        None => None,
    }
}

/// The extension of a path's file name, if any.
pub fn extension(p: &str) -> (r: Option<Vec<char>>)
    ensures
        match r {
            Some(e) => extension_spec(p@) == Some(e@),
            None => extension_spec(p@) is None,
        },
{
    match file_name(p) {
        Some(n) => {
            let nv = chars_of(n.as_str());
            let dot = chars_of(".");
            proof {
                reveal_strlit(".");
            }
            match rfind_chars(&nv, &dot) {
                Some(i) => {
                    assert(crate::text::occurs_at(nv@, dot@, i as int));
                    assert(dot@.len() == 1);
                    let nl = nv.len();
                    if 0 < i {
                        let e = slice_chars(&nv, i + 1, nl);
                        assert(e@ =~= nv@.skip(i + 1));
                        Some(e)
                    } else {
                        None
                    }
                }
                None => None,
            }
        }
        None => None,
    }
}

/// The tree label of a folder: its name, else the whole path.
pub fn tree_label(path: &str) -> (l: String)
    ensures
        l@ == match file_name_spec(path@) {
            Some(n) => n,
            None => path@,
        },
{
    match file_name(path) {
        Some(n) => n,
        None => path.to_owned(),
    }
}

// --- entries ------------------------------------------------------------------------

/// The Type column: "File Folder", "<EXT> File" (extension uppercased), or
/// "File".
pub open spec fn kind_spec(e: Entry) -> Seq<char> {
    if e.is_dir {
        "File Folder"@
    } else {
        match extension_spec(e.path@) {
            Some(x) => uppercase(x) + " File"@,
            None => "File"@,
        }
    }
}

/// The Type column of an entry.
pub fn kind(e: &Entry) -> (k: String)
    ensures
        k@ == kind_spec(*e),
{
    if e.is_dir {
        "File Folder".to_owned()
    } else {
        match extension(e.path.as_str()) {
            Some(x) => {
                let up = to_uppercase(&x);
                let mut k = string_of(&up);
                push_str(&mut k, " File");
                k
            }
            None => "File".to_owned(),
        }
    }
}

/// `x` is one of the strings of `set`.
pub open spec fn one_of(x: Seq<char>, set: Seq<Seq<char>>) -> bool {
    set.contains(x)
}

/// Icon-name candidates for an entry, by kind and (ASCII-lowercased)
/// extension.
pub open spec fn icon_names_spec(e: Entry) -> Seq<Seq<char>> {
    if e.is_dir {
        seq!["folder"@]
    } else {
        let ext = lower_ascii(match extension_spec(e.path@) { Some(x) => x, None => seq![] });
        if one_of(ext, seq!["txt"@, "md"@, "log"@, "rst"@, "ini"@, "conf"@, "cfg"@, "toml"@, "yaml"@, "yml"@]) {
            seq!["text-x-generic"@, "text-plain"@]
        } else if one_of(ext, seq!["png"@, "jpg"@, "jpeg"@, "gif"@, "bmp"@, "svg"@, "webp"@, "ico"@]) {
            seq!["image-x-generic"@]
        } else if one_of(ext, seq!["mp3"@, "flac"@, "ogg"@, "wav"@, "m4a"@]) {
            seq!["audio-x-generic"@]
        } else if one_of(ext, seq!["mp4"@, "mkv"@, "webm"@, "avi"@, "mov"@]) {
            seq!["video-x-generic"@]
        } else if ext == "pdf"@ {
            seq!["application-pdf"@, "text-x-generic"@]
        } else if one_of(ext, seq!["zip"@, "gz"@, "xz"@, "bz2"@, "tar"@, "tgz"@, "zst"@, "7z"@, "rpm"@]) {
            seq!["package-x-generic"@, "application-x-archive"@, "text-x-generic"@]
        } else if one_of(ext, seq!["sh"@, "bash"@, "zsh"@, "py"@, "rs"@, "c"@, "cpp"@, "h"@, "js"@, "ts"@]) {
            seq!["text-x-script"@, "text-x-generic"@]
        } else if one_of(ext, seq!["html"@, "htm"@, "xml"@, "json"@]) {
            seq!["text-html"@, "text-x-generic"@]
        } else if ext == "desktop"@ {
            seq!["application-x-executable"@, "text-x-generic"@]
        } else {
            seq!["text-x-generic"@, "application-x-generic"@, "unknown"@]
        }
    }
}

/// Whether `v` is one of the strings of `set`.
fn is_one_of(v: &Vec<char>, set: Vec<&'static str>) -> (b: bool)
    ensures
        b == one_of(v@, crate::fedora::strs(set@)),
{
    let mut i: usize = 0;
    while i < set.len()
        invariant
            i <= set.len(),
            forall|k: int| 0 <= k < i ==> crate::fedora::strs(set@)[k] != v@,
        decreases set.len() - i,
    {
        if eq_str(v, set[i]) {
            assert(crate::fedora::strs(set@)[i as int] == v@);
            return true;
        }
        i += 1;
    }
    false
}

/// Candidate freedesktop icon names for an entry, best first.
pub fn icon_names(e: &Entry) -> (r: &'static [&'static str])
    ensures
        crate::fedora::strs(r@) == icon_names_spec(*e),
{
    if e.is_dir {
        let r: &'static [&'static str] = &["folder"];
        assert(crate::fedora::strs(r@) =~= icon_names_spec(*e));
        return r;
    }
    let raw = match extension(e.path.as_str()) {
        Some(x) => x,
        None => Vec::new(),
    };
    let ext = lower_ascii_chars(&raw);
    let a = vec!["txt", "md", "log", "rst", "ini", "conf", "cfg", "toml", "yaml", "yml"];
    assert(crate::fedora::strs(a@) =~= seq!["txt"@, "md"@, "log"@, "rst"@, "ini"@, "conf"@, "cfg"@, "toml"@, "yaml"@, "yml"@]);
    let b = vec!["png", "jpg", "jpeg", "gif", "bmp", "svg", "webp", "ico"];
    assert(crate::fedora::strs(b@) =~= seq!["png"@, "jpg"@, "jpeg"@, "gif"@, "bmp"@, "svg"@, "webp"@, "ico"@]);
    let c = vec!["mp3", "flac", "ogg", "wav", "m4a"];
    assert(crate::fedora::strs(c@) =~= seq!["mp3"@, "flac"@, "ogg"@, "wav"@, "m4a"@]);
    let d = vec!["mp4", "mkv", "webm", "avi", "mov"];
    assert(crate::fedora::strs(d@) =~= seq!["mp4"@, "mkv"@, "webm"@, "avi"@, "mov"@]);
    let f = vec!["zip", "gz", "xz", "bz2", "tar", "tgz", "zst", "7z", "rpm"];
    assert(crate::fedora::strs(f@) =~= seq!["zip"@, "gz"@, "xz"@, "bz2"@, "tar"@, "tgz"@, "zst"@, "7z"@, "rpm"@]);
    let g = vec!["sh", "bash", "zsh", "py", "rs", "c", "cpp", "h", "js", "ts"];
    assert(crate::fedora::strs(g@) =~= seq!["sh"@, "bash"@, "zsh"@, "py"@, "rs"@, "c"@, "cpp"@, "h"@, "js"@, "ts"@]);
    let h = vec!["html", "htm", "xml", "json"];
    assert(crate::fedora::strs(h@) =~= seq!["html"@, "htm"@, "xml"@, "json"@]);
    let r: &'static [&'static str] = if is_one_of(&ext, a) {
        &["text-x-generic", "text-plain"]
    } else if is_one_of(&ext, b) {
        &["image-x-generic"]
    } else if is_one_of(&ext, c) {
        &["audio-x-generic"]
    } else if is_one_of(&ext, d) {
        &["video-x-generic"]
    } else if eq_str(&ext, "pdf") {
        &["application-pdf", "text-x-generic"]
    } else if is_one_of(&ext, f) {
        &["package-x-generic", "application-x-archive", "text-x-generic"]
    } else if is_one_of(&ext, g) {
        &["text-x-script", "text-x-generic"]
    } else if is_one_of(&ext, h) {
        &["text-html", "text-x-generic"]
    } else if eq_str(&ext, "desktop") {
        &["application-x-executable", "text-x-generic"]
    } else {
        &["text-x-generic", "application-x-generic", "unknown"]
    };
    assert(crate::fedora::strs(r@) =~= icon_names_spec(*e));
    r
}

/// The in-folder search: the (already lowercased) query is empty or occurs
/// in the lowercased name.
pub fn name_matches(name: &str, q_lower: &str) -> (b: bool)
    ensures
        b == (q_lower@.len() == 0 || contains(lowercase(name@), q_lower@)),
{
    if q_lower.is_empty() {
        return true;
    }
    let n = to_lowercase(&chars_of(name));
    let q = chars_of(q_lower);
    crate::text::contains_chars(&n, &q)
}

// --- mounts and network locations --------------------------------------------------------

/// `/proc/mounts` octal escapes decoded: `\040` space, `\011` tab, `\012`
/// newline, `\134` backslash (applied in that order).
pub open spec fn unescape_mount_spec(s: Seq<char>) -> Seq<char> {
    crate::text::replace_str(crate::text::replace_str(crate::text::replace_str(
        crate::text::replace_str(s, "\\040"@, " "@), "\\011"@, "\t"@), "\\012"@, "\n"@), "\\134"@, "\\"@)
}

/// Decode the octal escapes /proc/mounts uses for special characters.
pub fn unescape_mount(s: &str) -> (r: String)
    ensures
        r@ == unescape_mount_spec(s@),
{
    let v = chars_of(s);
    let a = crate::text::replace_chars(&v, "\\040", " ");
    let b = crate::text::replace_chars(&a, "\\011", "\t");
    let c = crate::text::replace_chars(&b, "\\012", "\n");
    let d = crate::text::replace_chars(&c, "\\134", "\\");
    string_of(&d)
}

/// The pieces of `s` between `,` and `:` separators.
pub open spec fn split_fields(s: Seq<char>) -> Seq<Seq<char>>
    decreases s.len(),
{
    if s.len() == 0 {
        seq![seq![]]
    } else if s[0] == ',' || s[0] == ':' {
        seq![seq![]] + split_fields(s.skip(1))
    } else {
        crate::nm::prepend_first(seq![s[0]], split_fields(s.skip(1)))
    }
}

proof fn lemma_split_fields_nonempty(s: Seq<char>)
    ensures
        split_fields(s).len() >= 1,
    decreases s.len(),
{
    if s.len() > 0 {
        lemma_split_fields_nonempty(s.skip(1));
    }
}

/// Split at `,` and `:`.
fn split_fields_chars(v: &Vec<char>) -> (r: Vec<Vec<char>>)
    ensures
        views(r@) == split_fields(v@),
{
    let mut out: Vec<Vec<char>> = Vec::new();
    let mut cur: Vec<char> = Vec::new();
    let mut i: usize = 0;
    proof {
        assert(v@.skip(0) =~= v@);
        lemma_split_fields_nonempty(v@);
        assert(crate::nm::prepend_first(seq![], split_fields(v@)) =~~= split_fields(v@));
    }
    while i < v.len()
        invariant
            i <= v.len(),
            split_fields(v@) == views(out@) + crate::nm::prepend_first(cur@, split_fields(v@.skip(i as int))),
        decreases v.len() - i,
    {
        let ghost rest = v@.skip(i as int);
        assert(rest[0] == v@[i as int]);
        assert(rest.skip(1) =~= v@.skip(i + 1));
        proof {
            lemma_split_fields_nonempty(v@.skip(i + 1));
        }
        let c = v[i];
        if c == ',' || c == ':' {
            let ghost before = views(out@);
            let ghost t = split_fields(v@.skip(i + 1));
            out.push(cur);
            cur = Vec::new();
            assert(views(out@) =~= before.push(out@.last()@));
            assert(crate::nm::prepend_first(seq![], t) =~~= t);
            assert(before + crate::nm::prepend_first(out@.last()@, seq![seq![]] + t) =~~= views(out@) + t);
        } else {
            let ghost t = split_fields(v@.skip(i + 1));
            assert(crate::nm::prepend_first(cur@, crate::nm::prepend_first(seq![c], t))
                =~~= crate::nm::prepend_first(cur@.push(c), t));
            cur.push(c);
        }
        i += 1;
    }
    proof {
        assert(v@.skip(i as int) =~= Seq::<char>::empty());
        assert(crate::nm::prepend_first(cur@, seq![seq![]]) =~~= seq![cur@]);
    }
    let ghost before = views(out@);
    out.push(cur);
    assert(views(out@) =~= before.push(out@.last()@));
    out
}

/// The value after `key` of the first piece that starts with it.
pub open spec fn first_with_prefix(pieces: Seq<Seq<char>>, key: Seq<char>) -> Option<Seq<char>>
    decreases pieces.len(),
{
    if pieces.len() == 0 {
        None
    } else if starts_with(pieces[0], key) {
        Some(pieces[0].skip(key.len() as int))
    } else {
        first_with_prefix(pieces.drop_first(), key)
    }
}

/// A `key=value` field of a GVfs entry name: the first `,`/`:` piece that
/// starts with `key`, if its value is not empty.
pub open spec fn gvfs_field(name: Seq<char>, key: Seq<char>) -> Option<Seq<char>> {
    match first_with_prefix(split_fields(name), key) {
        Some(v) => if v.len() > 0 { Some(v) } else { None },
        None => None,
    }
}

fn field_of(pieces: &Vec<Vec<char>>, key: &str) -> (r: Option<Vec<char>>)
    ensures
        match r {
            Some(v) => gvfs_field_of(views(pieces@), key@) == Some(v@),
            None => gvfs_field_of(views(pieces@), key@) is None,
        },
{
    let kv = chars_of(key);
    let mut i: usize = 0;
    assert(views(pieces@).skip(0) =~= views(pieces@));
    while i < pieces.len()
        invariant
            i <= pieces.len(),
            kv@ == key@,
            first_with_prefix(views(pieces@), key@) == first_with_prefix(views(pieces@).skip(i as int), key@),
        decreases pieces.len() - i,
    {
        let ghost rest = views(pieces@).skip(i as int);
        assert(rest[0] == pieces@[i as int]@);
        assert(rest.drop_first() =~= views(pieces@).skip(i + 1));
        if crate::text::starts_with_chars(&pieces[i], &kv) {
            let v = slice_chars(&pieces[i], kv.len(), pieces[i].len());
            assert(v@ =~= pieces@[i as int]@.skip(key@.len() as int));
            if v.len() > 0 {
                return Some(v);
            } else {
                return None;
            }
        }
        i += 1;
    }
    assert(views(pieces@).skip(i as int) =~= Seq::<Seq<char>>::empty());
    None
}

pub open spec fn gvfs_field_of(pieces: Seq<Seq<char>>, key: Seq<char>) -> Option<Seq<char>> {
    match first_with_prefix(pieces, key) {
        Some(v) => if v.len() > 0 { Some(v) } else { None },
        None => None,
    }
}

/// A friendly label for a GVfs mount entry: "share on server" for SMB,
/// "host (SCHEME)" for host-based schemes, else the entry name, else the
/// whole path.
pub open spec fn network_label_spec(p: Seq<char>) -> Seq<char> {
    let name = match file_name_spec(p) { Some(n) => n, None => seq![] };
    match (gvfs_field(name, "server="@), gvfs_field(name, "share="@)) {
        (Some(server), Some(share)) => share + " on "@ + server,
        _ => match gvfs_field(name, "host="@) {
            Some(host) => {
                let scheme = split_char(name, ':')[0];
                if scheme.len() == 0 || scheme == name { host } else { host + " ("@ + uppercase(scheme) + ")"@ }
            },
            None => if name.len() > 0 { name } else { p },
        },
    }
}

/// The label of a mounted network location.
pub fn network_label(p: &str) -> (l: String)
    ensures
        l@ == network_label_spec(p@),
{
    let name = match file_name(p) {
        Some(n) => chars_of(n.as_str()),
        None => Vec::new(),
    };
    let pieces = split_fields_chars(&name);
    let server = field_of(&pieces, "server=");
    let share = field_of(&pieces, "share=");
    match (server, share) {
        (Some(sv), Some(sh)) => {
            let mut l = string_of(&sh);
            push_str(&mut l, " on ");
            push_str(&mut l, string_of(&sv).as_str());
            return l;
        }
        _ => {}
    }
    match field_of(&pieces, "host=") {
        Some(host) => {
            let parts = split_chars(&name, ':');
            assert(views(parts@)[0] == parts@[0]@);
            let scheme = &parts[0];
            if scheme.len() == 0 || crate::text::eq_chars(scheme, &name) {
                string_of(&host)
            } else {
                let up = to_uppercase(scheme);
                let mut l = string_of(&host);
                push_str(&mut l, " (");
                push_str(&mut l, string_of(&up).as_str());
                push_str(&mut l, ")");
                l
            }
        }
        None => {
            if name.len() > 0 {
                string_of(&name)
            } else {
                p.to_owned()
            }
        }
    }
}

/// The shares of an `smbclient -L` listing, from the `Sharename` header on:
/// `Disk` rows except the `IPC$`/`print$` admin shares, up to the blank line
/// ending the table; `---` rules are skipped.
pub open spec fn smb_rows(ls: Seq<Seq<char>>, in_table: bool) -> Seq<Seq<char>>
    decreases ls.len(),
{
    if ls.len() == 0 {
        seq![]
    } else {
        let t = trim(ls[0]);
        let rest = ls.drop_first();
        if starts_with(t, "Sharename"@) {
            smb_rows(rest, true)
        } else if !in_table {
            smb_rows(rest, false)
        } else if t.len() == 0 {
            seq![]
        } else if starts_with(t, "---"@) {
            smb_rows(rest, true)
        } else {
            let c = split_ws(t);
            (if c.len() >= 2 && c[1] == "Disk"@ && c[0] != "IPC$"@ && c[0] != "print$"@ {
                seq![c[0]]
            } else {
                seq![]
            }) + smb_rows(rest, true)
        }
    }
}

/// The disk shares of an `smbclient -L host -N` listing, in order.
pub fn parse_smb_shares(output: &str) -> (r: Vec<String>)
    ensures
        crate::nm::string_views(r@) == smb_rows(lines(output@), false),
{
    let v = chars_of(output);
    let ls = lines_of(&v);
    let mut shares: Vec<String> = Vec::new();
    let mut in_table = false;
    let mut i: usize = 0;
    assert(views(ls@).skip(0) =~= views(ls@));
    assert(crate::nm::string_views(shares@) + smb_rows(views(ls@), false) =~= smb_rows(views(ls@), false));
    while i < ls.len()
        invariant
            i <= ls.len(),
            views(ls@) == lines(output@),
            crate::nm::string_views(shares@) + smb_rows(views(ls@).skip(i as int), in_table)
                == smb_rows(views(ls@), false),
        decreases ls.len() - i,
    {
        let ghost rest = views(ls@).skip(i as int);
        assert(rest[0] == ls@[i as int]@);
        assert(rest.drop_first() =~= views(ls@).skip(i + 1));
        let t = trim_chars(&ls[i]);
        if begins(&t, "Sharename") {
            in_table = true;
        } else if !in_table {
        } else if t.len() == 0 {
            assert(smb_rows(rest, in_table) =~= Seq::<Seq<char>>::empty());
            assert(crate::nm::string_views(shares@) =~= smb_rows(views(ls@), false));
            return shares;
        } else if begins(&t, "---") {
        } else {
            let cols = split_ws_chars(&t);
            assert(views(cols@).len() == cols@.len());
            let ghost before = crate::nm::string_views(shares@);
            if cols.len() >= 2 && eq_str(&cols[1], "Disk") && !eq_str(&cols[0], "IPC$")
                && !eq_str(&cols[0], "print$") {
                assert(views(cols@)[0] == cols@[0]@);
                assert(views(cols@)[1] == cols@[1]@);
                shares.push(string_of(&cols[0]));
                assert(crate::nm::string_views(shares@) =~= before + seq![cols@[0]@]);
            } else {
                proof {
                    if cols.len() >= 2 {
                        assert(views(cols@)[0] == cols@[0]@);
                        assert(views(cols@)[1] == cols@[1]@);
                    }
                }
            }
        }
        i += 1;
    }
    assert(views(ls@).skip(i as int) =~= Seq::<Seq<char>>::empty());
    assert(crate::nm::string_views(shares@) =~= smb_rows(views(ls@), false));
    shares
}

// --- Quick access -------------------------------------------------------------------------

/// `PathBuf::join` of a relative name: `base/name` (no doubled separator).
pub open spec fn join_path(base: Seq<char>, name: Seq<char>) -> Seq<char> {
    if base.len() == 0 || base.last() == '/' { base + name } else { base + "/"@ + name }
}

/// `base` joined with `name`.
pub fn join_path_str(base: &str, name: &str) -> (p: String)
    ensures
        p@ == join_path(base@, name@),
{
    let b = chars_of(base);
    let mut p = base.to_owned();
    if b.len() > 0 && b[b.len() - 1] != '/' {
        push_str(&mut p, "/");
    }
    push_str(&mut p, name);
    p
}

/// The standard user folders of Quick access, in order.
pub open spec fn standard_folders() -> Seq<Seq<char>> {
    seq!["Desktop"@, "Documents"@, "Downloads"@, "Pictures"@]
}

/// Quick access "Frequent folders": the standard user folders under the home
/// folder that exist (`std_is_dir[i]`), then the pinned folders that exist
/// (`pin_is_dir[i]`) and are not listed yet.
pub open spec fn frequent_spec(home: Option<Seq<char>>, std_is_dir: Seq<bool>, pins: Seq<Seq<char>>,
    pin_is_dir: Seq<bool>) -> Seq<Seq<char>>
    decreases pins.len(),
{
    if pins.len() == 0 {
        match home {
            Some(h) => crate::outputs::keep_missing(
                standard_folders().map_values(|n: Seq<char>| join_path(h, n)),
                std_is_dir.map_values(|b: bool| !b)),
            None => seq![],
        }
    } else {
        let prev = frequent_spec(home, std_is_dir, pins.drop_last(), pin_is_dir.drop_last());
        if pin_is_dir.last() && !prev.contains(pins.last()) { prev.push(pins.last()) } else { prev }
    }
}

/// Quick access "Frequent folders".
pub fn frequent_folders(home: Option<&str>, std_is_dir: &Vec<bool>, pins: &Vec<String>,
    pin_is_dir: &Vec<bool>) -> (v: Vec<String>)
    requires
        std_is_dir@.len() == 4,
        pin_is_dir@.len() == pins@.len(),
    ensures
        crate::nm::string_views(v@) == frequent_spec(match home { Some(h) => Some(h@), None => None },
            std_is_dir@, crate::nm::string_views(pins@), pin_is_dir@),
{
    let ghost hv = match home { Some(h) => Some(h@), None => None::<Seq<char>> };
    let ghost pv = crate::nm::string_views(pins@);
    let mut v: Vec<String> = Vec::new();
    let names = vec!["Desktop", "Documents", "Downloads", "Pictures"];
    match home {
        Some(h) => {
            let ghost full = standard_folders().map_values(|n: Seq<char>| join_path(h@, n));
            let ghost absent = std_is_dir@.map_values(|b: bool| !b);
            let mut i: usize = 0;
            while i < 4
                invariant
                    i <= 4,
                    names@.len() == 4,
                    std_is_dir@.len() == 4,
                    forall|k: int| 0 <= k < 4 ==> (#[trigger] names@[k])@ == standard_folders()[k],
                    full == standard_folders().map_values(|n: Seq<char>| join_path(h@, n)),
                    absent == std_is_dir@.map_values(|b: bool| !b),
                    crate::nm::string_views(v@) == crate::outputs::keep_missing(full.take(i as int), absent.take(i as int)),
                decreases 4 - i,
            {
                assert(full.take(i + 1).drop_last() =~= full.take(i as int));
                assert(absent.take(i + 1).drop_last() =~= absent.take(i as int));
                if std_is_dir[i] {
                    let ghost before = crate::nm::string_views(v@);
                    v.push(join_path_str(h, names[i]));
                    assert(crate::nm::string_views(v@) =~= before.push(join_path(h@, standard_folders()[i as int])));
                }
                i += 1;
            }
            assert(full.take(4) =~= full);
            assert(absent.take(4) =~= absent);
        }
        None => {}
    }
    assert(pv.take(0) =~= Seq::<Seq<char>>::empty());
    assert(pin_is_dir@.take(0) =~= Seq::<bool>::empty());
    let mut j: usize = 0;
    while j < pins.len()
        invariant
            j <= pins.len(),
            pin_is_dir@.len() == pins@.len(),
            pv == crate::nm::string_views(pins@),
            crate::nm::string_views(v@) == frequent_spec(hv, std_is_dir@, pv.take(j as int), pin_is_dir@.take(j as int)),
        decreases pins.len() - j,
    {
        assert(pv.take(j + 1).drop_last() =~= pv.take(j as int));
        assert(pin_is_dir@.take(j + 1).drop_last() =~= pin_is_dir@.take(j as int));
        assert(pv.take(j + 1).last() == pins@[j as int]@);
        if pin_is_dir[j] {
            let mut found = false;
            let mut k: usize = 0;
            while k < v.len()
                invariant
                    k <= v.len(),
                    j < pins.len(),
                    found == exists|x: int| 0 <= x < k && (#[trigger] crate::nm::string_views(v@)[x]) == pins@[j as int]@,
                decreases v.len() - k,
            {
                assert(crate::nm::string_views(v@)[k as int] == v@[k as int]@);
                if v[k] == pins[j] {
                    found = true;
                }
                k += 1;
            }
            if !found {
                let ghost before = crate::nm::string_views(v@);
                v.push(pins[j].clone());
                assert(crate::nm::string_views(v@) =~= before.push(pins@[j as int]@));
            }
        }
        j += 1;
    }
    assert(pv.take(pins.len() as int) =~= pv);
    assert(pin_is_dir@.take(pins.len() as int) =~= pin_is_dir@);
    v
}

} // verus!
