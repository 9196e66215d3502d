//! Steam / Counter-Strike 2 install path discovery.
//!
//! Discovery goes in three steps:
//!  1. find Steam's install directory (the registry on Windows, well-known
//!     folders under the home directory elsewhere);
//!  2. read `<steam>/steamapps/libraryfolders.vdf` to enumerate the library
//!     folders;
//!  3. in each library, read `steamapps/appmanifest_730.acf`, whose
//!     `installdir` value names the game folder under `steamapps/common/`.
//!
//! The file system and the registry are read by the caller; this module
//! parses what was read and decides which candidate wins. Failures are
//! reported as [`Error::SteamDiscovery`], and the caller is expected to fall
//! back to a user-supplied path.

use vstd::prelude::*;
use crate::error::Error;
use crate::text::{
    all_white, chars_of, collapse_backslash_chars, collapse_backslashes, is_white, split,
    lemma_split_nonempty, push_char, split_chars, string_of, trim, trim_chars, white,
};

verus! {

/// Steam app id for Counter-Strike 2.
pub const CS2_APP_ID: u32 = 730;

/// The game folder assumed when an app manifest names none.
pub const DEFAULT_INSTALL_DIR: &'static str = "Counter-Strike Global Offensive";

/// The pieces of `pieces` that hold something other than white space, in order.
pub open spec fn nonblank(pieces: Seq<Seq<char>>) -> Seq<Seq<char>>
    decreases pieces.len(),
{
    if pieces.len() == 0 {
        Seq::empty()
    } else if all_white(pieces.last()) {
        nonblank(pieces.drop_last())
    } else {
        nonblank(pieces.drop_last()).push(pieces.last())
    }
}

/// The quoted fields of one line of a Valve KeyValues file: the line is
/// trimmed, cut at every double quote, and the blank pieces are dropped.
pub open spec fn fields(line: Seq<char>) -> Seq<Seq<char>> {
    nonblank(split(trim(line), '"'))
}

/// The first field of `line`, trimmed, is `key`.
pub open spec fn keyed(line: Seq<char>, key: Seq<char>) -> bool {
    fields(line).len() >= 1 && trim(fields(line)[0]) == key
}

/// The lines of a text. (`str::lines` differs in dropping a final empty
/// line and a carriage return before each line break; neither changes what
/// the parsers below read, since every line is trimmed first and a blank
/// line has no field.)
pub open spec fn text_lines(s: Seq<char>) -> Seq<Seq<char>> {
    split(s, '\n')
}

/// Every `"path" "..."` value of a `libraryfolders.vdf`, in order, with
/// doubled backslashes collapsed.
pub open spec fn vdf_paths(lines: Seq<Seq<char>>) -> Seq<Seq<char>>
    decreases lines.len(),
{
    if lines.len() == 0 {
        Seq::empty()
    } else {
        let rest = vdf_paths(lines.drop_last());
        let f = fields(lines.last());
        if keyed(lines.last(), "path"@) && f.len() >= 2 {
            rest.push(collapse_backslashes(f[1]))
        } else {
            rest
        }
    }
}

/// The `"installdir"` value of an app manifest: the first line whose key is
/// `installdir` decides; its value, with doubled backslashes collapsed, if
/// it has one, and nothing if it has none.
pub open spec fn acf_installdir(lines: Seq<Seq<char>>) -> Option<Seq<char>>
    decreases lines.len(),
{
    if lines.len() == 0 {
        None
    } else if keyed(lines[0], "installdir"@) {
        let f = fields(lines[0]);
        if f.len() >= 2 {
            Some(collapse_backslashes(f[1]))
        } else {
            None
        }
    } else {
        acf_installdir(lines.drop_first())
    }
}

/// Whether every character of `s` is white space.
fn blank(s: &Vec<char>) -> (r: bool)
    ensures
        r == all_white(s@),
{
    let mut i: usize = 0;
    while i < s.len()
        invariant
            i <= s@.len(),
            forall|j: int| 0 <= j < i ==> is_white(#[trigger] s@[j]),
        decreases s.len() - i,
    {
        if !white(s[i]) {
            return false;
        }
        i = i + 1;
    }
    true
}

/// Whether `a` and `b` hold the same characters.
fn same_chars(a: &Vec<char>, b: &Vec<char>) -> (r: bool)
    ensures
        r == (a@ == b@),
{
    if a.len() != b.len() {
        return false;
    }
    let mut i: usize = 0;
    while i < a.len()
        invariant
            a@.len() == b@.len(),
            i <= a@.len(),
            forall|j: int| 0 <= j < i ==> a@[j] == b@[j],
        decreases a.len() - i,
    {
        if a[i] != b[i] {
            return false;
        }
        i = i + 1;
    }
    assert(a@ =~= b@);
    true
}

/// The quoted fields of `line` (see [`fields`]).
fn line_fields(line: &Vec<char>) -> (r: Vec<Vec<char>>)
    ensures
        r@.map_values(|v: Vec<char>| v@) == fields(line@),
{
    let t = trim_chars(line);
    let pieces = split_chars(&t, '"');
    let ghost ps = pieces@.map_values(|v: Vec<char>| v@);
    let mut out: Vec<Vec<char>> = Vec::new();
    let mut i: usize = 0;
    assert(ps.take(0) =~= Seq::<Seq<char>>::empty());
    while i < pieces.len()
        invariant
            i <= pieces@.len(),
            ps == pieces@.map_values(|v: Vec<char>| v@),
            out@.map_values(|v: Vec<char>| v@) == nonblank(ps.take(i as int)),
        decreases pieces.len() - i,
    {
        proof {
            assert(ps.take(i + 1).drop_last() =~= ps.take(i as int));
            assert(ps.take(i + 1).last() == pieces@[i as int]@);
        }
        if !blank(&pieces[i]) {
            let p = copy_chars(&pieces[i]);
            out.push(p);
            assert(out@.map_values(|v: Vec<char>| v@) =~= nonblank(ps.take(i as int)).push(ps[i as int]));
        }
        i = i + 1;
    }
    assert(ps.take(ps.len() as int) =~= ps);
    out
}

/// A copy of `s`.
fn copy_chars(s: &Vec<char>) -> (r: Vec<char>)
    ensures
        r@ == s@,
{
    let mut out: Vec<char> = Vec::new();
    let mut i: usize = 0;
    while i < s.len()
        invariant
            i <= s@.len(),
            out@ == s@.take(i as int),
        decreases s.len() - i,
    {
        out.push(s[i]);
        assert(s@.take(i + 1) =~= s@.take(i as int).push(s@[i as int]));
        i = i + 1;
    }
    assert(s@.take(s@.len() as int) =~= s@);
    out
}

/// Whether the fields `f` of a line start with `key` (after trimming).
fn starts_with_key(f: &Vec<Vec<char>>, key: &Vec<char>) -> (r: bool)
    ensures
        r == (f@.len() >= 1 && trim(f@[0]@) == key@),
{
    if f.len() == 0 {
        return false;
    }
    let k = trim_chars(&f[0]);
    same_chars(&k, key)
}

/// Extracts every `"path"  "..."` value from a Steam `libraryfolders.vdf`.
///
/// Valve KeyValues is a small recursive format; only the leaf `"path"` key
/// is needed here, so a linear scan of the lines is enough. Steam writes
/// backslashes doubled; they are collapsed.
pub fn parse_vdf_paths(content: &str) -> (r: Vec<String>)
    ensures
        r@.map_values(|s: String| s@) == vdf_paths(text_lines(content@)),
{
    let cs = chars_of(content);
    let lines = split_chars(&cs, '\n');
    let ghost ls = lines@.map_values(|v: Vec<char>| v@);
    let key = chars_of("path");
    let mut out: Vec<String> = Vec::new();
    let mut i: usize = 0;
    assert(ls.take(0) =~= Seq::<Seq<char>>::empty());
    while i < lines.len()
        invariant
            i <= lines@.len(),
            ls == lines@.map_values(|v: Vec<char>| v@),
            ls == text_lines(content@),
            key@ == "path"@,
            out@.map_values(|s: String| s@) == vdf_paths(ls.take(i as int)),
        decreases lines.len() - i,
    {
        proof {
            assert(ls.take(i + 1).drop_last() =~= ls.take(i as int));
            assert(ls.take(i + 1).last() == lines@[i as int]@);
        }
        let f = line_fields(&lines[i]);
        if f.len() >= 2 && starts_with_key(&f, &key) {
            let value = string_of(&collapse_backslash_chars(&f[1]));
            let ghost before = out@.map_values(|s: String| s@);
            out.push(value);
            assert(out@.map_values(|s: String| s@) =~= before.push(value@));
        }
        i = i + 1;
    }
    assert(ls.take(ls.len() as int) =~= ls);
    out
}

/// Pulls `"installdir"` out of an app manifest (ACF) file.
pub fn parse_acf_installdir(content: &str) -> (r: Option<String>)
    ensures
        match acf_installdir(text_lines(content@)) {
            Some(v) => r is Some && r->0@ == v,
            None => r is None,
        },
{
    let cs = chars_of(content);
    let lines = split_chars(&cs, '\n');
    let ghost ls = lines@.map_values(|v: Vec<char>| v@);
    let key = chars_of("installdir");
    let mut i: usize = 0;
    assert(ls.skip(0) =~= ls);
    while i < lines.len()
        invariant
            i <= lines@.len(),
            ls == lines@.map_values(|v: Vec<char>| v@),
            ls == text_lines(content@),
            key@ == "installdir"@,
            acf_installdir(ls) == acf_installdir(ls.skip(i as int)),
        decreases lines.len() - i,
    {
        let ghost rest = ls.skip(i as int);
        proof {
            assert(rest[0] == lines@[i as int]@);
            assert(rest.drop_first() =~= ls.skip(i + 1));
        }
        let f = line_fields(&lines[i]);
        if starts_with_key(&f, &key) {
            if f.len() >= 2 {
                return Some(string_of(&collapse_backslash_chars(&f[1])));
            } else {
                return None;
            }
        }
        i = i + 1;
    }
    None
}

/// The index of the first candidate marked present.
fn first_found(c: &Vec<(String, bool)>) -> (r: Option<usize>)
    ensures
        match r {
            Some(i) => i < c@.len() && c@[i as int].1 && forall|j: int| 0 <= j < i ==> !(#[trigger] c@[j]).1,
            None => forall|j: int| 0 <= j < c@.len() ==> !(#[trigger] c@[j]).1,
        },
{
    let mut i: usize = 0;
    while i < c.len()
        invariant
            i <= c@.len(),
            forall|j: int| 0 <= j < i ==> !(#[trigger] c@[j]).1,
        decreases c.len() - i,
    {
        if c[i].1 {
            return Some(i);
        }
        i = i + 1;
    }
    None
}

/// What a search over `c` gives: the first candidate marked present, or the
/// discovery error with `message`.
pub open spec fn search_result(c: Seq<(String, bool)>, r: Result<String, Error>, message: Seq<char>) -> bool {
    match r {
        Ok(p) => exists|i: int| 0 <= i < c.len() && c[i].1 && p@ == c[i].0@
            && forall|j: int| 0 <= j < i ==> !(#[trigger] c[j]).1,
        Err(e) => (forall|j: int| 0 <= j < c.len() ==> !(#[trigger] c[j]).1)
            && (e matches Error::SteamDiscovery(m) && m@ == message),
    }
}

fn search(c: &Vec<(String, bool)>, message: &str) -> (r: Result<String, Error>)
    ensures
        search_result(c@, r, message@),
{
    match first_found(c) {
        Some(i) => Ok(c[i].0.clone()),
        None => Err(Error::SteamDiscovery(message.to_string())),
    }
}

/// Locates the root of the Steam installation.
///
/// `candidates` are the platform's candidate directories in order of
/// preference (the registry entry on Windows; `~/.steam/steam` then
/// `~/.local/share/Steam` on Linux; `~/Library/Application Support/Steam` on
/// macOS), each with whether it is an existing directory. The first existing
/// one wins.
pub fn find_steam_root(candidates: &Vec<(String, bool)>) -> (r: Result<String, Error>)
    ensures
        search_result(candidates@, r, "Steam install directory not found"@),
{
    search(candidates, "Steam install directory not found")
}

/// Resolves the CS2 game directory (the folder that contains
/// `game/csgo/pak01_dir.vpk`).
///
/// `candidates` are the game folders of the libraries that hold an app
/// manifest for CS2, in library order, each with whether the game's main
/// archive is present in it. The first complete install wins.
pub fn find_cs2_install_dir(candidates: &Vec<(String, bool)>) -> (r: Result<String, Error>)
    ensures
        search_result(candidates@, r, "CS2 (app id 730) is not installed in any Steam library"@),
{
    search(candidates, "CS2 (app id 730) is not installed in any Steam library")
}

/// `base` extended by the relative path `part`: with `sep` between them,
/// unless `base` is empty or already ends with a separator (`sep`, or `/`,
/// which every platform accepts).
pub open spec fn joined(base: Seq<char>, part: Seq<char>, sep: char) -> Seq<char> {
    if base.len() == 0 || base.last() == sep || base.last() == '/' {
        base + part
    } else {
        base + seq![sep] + part
    }
}

/// Extends the path `base` by the relative path `part`; `sep` is the
/// platform's path separator.
pub fn join_path(base: &str, part: &str, sep: char) -> (r: String)
    ensures
        r@ == joined(base@, part@, sep),
{
    let cs = chars_of(base);
    let mut out = base.to_string();
    if cs.len() > 0 && cs[cs.len() - 1] != sep && cs[cs.len() - 1] != '/' {
        push_char(&mut out, sep);
    }
    out.append(part);
    out
}

/// The cfg directory of the game installed in `install`.
pub open spec fn cfg_dir_of(install: Seq<char>, sep: char) -> Seq<char> {
    joined(joined(joined(install, "game"@, sep), "csgo"@, sep), "cfg"@, sep)
}

/// Resolves the CS2 cfg directory, `<install>/game/csgo/cfg`, where the
/// install is found as [`find_cs2_install_dir`] finds it; `sep` is the
/// platform's path separator.
pub fn find_cs2_cfg_dir(candidates: &Vec<(String, bool)>, sep: char) -> (r: Result<String, Error>)
    ensures
        match r {
            Ok(p) => exists|i: int| 0 <= i < candidates@.len() && candidates@[i].1
                && p@ == cfg_dir_of(candidates@[i].0@, sep)
                && forall|j: int| 0 <= j < i ==> !(#[trigger] candidates@[j]).1,
            Err(e) => (forall|j: int| 0 <= j < candidates@.len() ==> !(#[trigger] candidates@[j]).1)
                && (e matches Error::SteamDiscovery(m)
                    && m@ == "CS2 (app id 730) is not installed in any Steam library"@),
        },
{
    let install = find_cs2_install_dir(candidates)?;
    let game = join_path(install.as_str(), "game", sep);
    let csgo = join_path(game.as_str(), "csgo", sep);
    Ok(join_path(csgo.as_str(), "cfg", sep))
}

/// The game folder name an app manifest gives: its `installdir` value, or
/// [`DEFAULT_INSTALL_DIR`] when it names none.
pub fn install_dir_name(manifest: &str) -> (r: String)
    ensures
        r@ == match acf_installdir(text_lines(manifest@)) {
            Some(v) => v,
            None => DEFAULT_INSTALL_DIR@,
        },
{
    match parse_acf_installdir(manifest) {
        Some(v) => v,
        None => DEFAULT_INSTALL_DIR.to_string(),
    }
}

/// `p` with every `sep` written as `/`, which every platform accepts as a
/// separator too.
pub open spec fn unified(p: Seq<char>, sep: char) -> Seq<char> {
    p.map_values(|c: char| if c == sep { '/' } else { c })
}

/// The pieces that name a folder: every piece that is neither empty (from a
/// doubled or trailing separator) nor `.`.
pub open spec fn normal_pieces(ps: Seq<Seq<char>>) -> Seq<Seq<char>>
    decreases ps.len(),
{
    if ps.len() == 0 {
        Seq::empty()
    } else if ps.last().len() == 0 || ps.last() == "."@ {
        normal_pieces(ps.drop_last())
    } else {
        normal_pieces(ps.drop_last()).push(ps.last())
    }
}

/// A separator: `/`, or the platform's separator `sep`.
pub open spec fn is_path_sep(c: char, sep: char) -> bool {
    c == '/' || c == sep
}

/// The position of the first separator in `r` (its length if there is none).
pub open spec fn first_sep(r: Seq<char>, sep: char) -> int
    decreases r.len(),
{
    if r.len() == 0 || is_path_sep(r[0], sep) {
        0
    } else {
        1 + first_sep(r.skip(1), sep)
    }
}

/// An ASCII letter, as a Windows drive letter is.
pub open spec fn is_drive_letter(c: char) -> bool {
    ('a' <= c <= 'z') || ('A' <= c <= 'Z')
}

/// The upper-case form of an ASCII letter (any other character unchanged).
pub open spec fn upper(c: char) -> char {
    if 'a' <= c <= 'z' {
        ((c as u32) - 32) as char
    } else {
        c
    }
}

/// The server, the share and what follows them, in the text after the
/// leading `\\` of a UNC path.
pub open spec fn unc_parts(r: Seq<char>, sep: char) -> (Seq<char>, Seq<char>, Seq<char>) {
    let s = first_sep(r, sep);
    let after = if s < r.len() { r.skip(s + 1) } else { Seq::<char>::empty() };
    let t = first_sep(after, sep);
    (r.take(s), after.take(t), after.skip(t))
}

/// The Windows prefix of a path (`sep` is `\\` on Windows; elsewhere no
/// path has a prefix): what it is compared by, the rest of the path, and
/// whether the prefix brings a root of its own.
///
/// A drive (`C:`) is compared by its letter, without regard to case; a UNC
/// prefix (`\\server\share`) by its server and share, and it brings a root;
/// a verbatim (`\\?\`) or device (`\\.\`) path is compared by its whole text.
/// The compared form starts with a tag (`d`, `u`, `v`) that keeps the kinds
/// apart; a path without a prefix compares by the empty text.
pub open spec fn path_prefix(p: Seq<char>, sep: char) -> (Seq<char>, Seq<char>, bool) {
    if sep == '\\' && p.len() >= 2 && is_drive_letter(p[0]) && p[1] == ':' {
        (seq!['d', upper(p[0]), ':'], p.skip(2), false)
    } else if sep == '\\' && p.len() >= 2 && p[0] == '\\' && p[1] == '\\' {
        if p.len() >= 4 && (p[2] == '?' || p[2] == '.') && p[3] == '\\' {
            (seq!['v'] + p, Seq::empty(), false)
        } else {
            let parts = unc_parts(p.skip(2), sep);
            (seq!['u'] + parts.0 + seq!['\\'] + parts.1, parts.2, true)
        }
    } else {
        (Seq::empty(), p, false)
    }
}

/// What a path is compared by, component by component as `Path` compares:
/// its prefix, whether it starts at the root, whether it starts with `.`,
/// and the folder names along it. Separators may be `sep` or `/`; doubled
/// and trailing separators and inner `.` components do not count.
pub open spec fn path_key(p: Seq<char>, sep: char) -> (Seq<char>, bool, bool, Seq<Seq<char>>) {
    let pre = path_prefix(p, sep);
    let u = unified(pre.1, sep);
    let ps = split(u, '/');
    (pre.0, pre.2 || (u.len() > 0 && u[0] == '/'), ps[0] == "."@, normal_pieces(ps))
}

proof fn lemma_first_sep(r: Seq<char>, sep: char, n: int)
    requires
        0 <= n <= r.len(),
        forall|j: int| 0 <= j < n ==> !is_path_sep(#[trigger] r[j], sep),
        n == r.len() || is_path_sep(r[n], sep),
    ensures
        first_sep(r, sep) == n,
    decreases n,
{
    if n > 0 {
        assert forall|j: int| 0 <= j < n - 1 implies !is_path_sep(#[trigger] r.skip(1)[j], sep) by {
            assert(r.skip(1)[j] == r[j + 1]);
        }
        if n < r.len() {
            assert(r.skip(1)[n - 1] == r[n]);
        }
        assert(!is_path_sep(r[0], sep));
        lemma_first_sep(r.skip(1), sep, n - 1);
    }
}

/// The first separator at or after `from`, or the length.
fn scan_sep(p: &Vec<char>, from: usize, sep: char) -> (r: usize)
    requires
        from <= p@.len(),
    ensures
        from <= r <= p@.len(),
        r - from == first_sep(p@.skip(from as int), sep),
{
    let mut i = from;
    while i < p.len() && p[i] != '/' && p[i] != sep
        invariant
            from <= i <= p@.len(),
            forall|j: int| from <= j < i ==> !is_path_sep(#[trigger] p@[j], sep),
        decreases p.len() - i,
    {
        i = i + 1;
    }
    proof {
        let r = p@.skip(from as int);
        assert forall|j: int| 0 <= j < i - from implies !is_path_sep(#[trigger] r[j], sep) by {
            assert(r[j] == p@[from + j]);
        }
        if i < p@.len() {
            assert(r[i - from] == p@[i as int]);
        }
        lemma_first_sep(r, sep, i - from);
    }
    i
}

/// The characters of `p` from `a` to `b`.
fn slice_chars(p: &Vec<char>, a: usize, b: usize) -> (r: Vec<char>)
    requires
        a <= b <= p@.len(),
    ensures
        r@ == p@.subrange(a as int, b as int),
{
    let mut out: Vec<char> = Vec::new();
    let mut i = a;
    while i < b
        invariant
            a <= i <= b <= p@.len(),
            out@ == p@.subrange(a as int, i as int),
        decreases b - i,
    {
        out.push(p[i]);
        assert(p@.subrange(a as int, i + 1) =~= p@.subrange(a as int, i as int).push(p@[i as int]));
        i = i + 1;
    }
    out
}

/// The prefix of `p` (see [`path_prefix`]).
fn prefix_of(p: &Vec<char>, sep: char) -> (r: (Vec<char>, Vec<char>, bool))
    ensures
        r.0@ == path_prefix(p@, sep).0,
        r.1@ == path_prefix(p@, sep).1,
        r.2 == path_prefix(p@, sep).2,
{
    let n = p.len();
    if sep == '\\' && n >= 2 && (('a' <= p[0] && p[0] <= 'z') || ('A' <= p[0] && p[0] <= 'Z')) && p[1] == ':' {
        let c = p[0];
        let mut letter = c;
        if 'a' <= c && c <= 'z' {
            match char_from_u32(c as u32 - 32) {
                Some(u) => {
                    letter = u;
                },
                None => {
                    assert(false);
                },
            }
        }
        let mut key: Vec<char> = Vec::new();
        key.push('d');
        key.push(letter);
        key.push(':');
        assert(key@ =~= seq!['d', upper(p@[0]), ':']);
        let rest = slice_chars(p, 2, n);
        assert(rest@ =~= p@.skip(2));
        (key, rest, false)
    } else if sep == '\\' && n >= 2 && p[0] == '\\' && p[1] == '\\' {
        if n >= 4 && (p[2] == '?' || p[2] == '.') && p[3] == '\\' {
            let mut key: Vec<char> = Vec::new();
            key.push('v');
            let mut all = slice_chars(p, 0, n);
            key.append(&mut all);
            assert(key@ =~= seq!['v'] + p@);
            (key, Vec::new(), false)
        } else {
            let ghost r = p@.skip(2);
            let s = scan_sep(p, 2, sep);
            let a = if s < n { s + 1 } else { n };
            let t = scan_sep(p, a, sep);
            proof {
                assert(p@.skip(2) =~= r);
                if s < n {
                    assert(r.skip(s - 2 + 1) =~= p@.skip(a as int));
                } else {
                    assert(p@.skip(a as int) =~= Seq::<char>::empty());
                }
            }
            let mut server = slice_chars(p, 2, s);
            let mut share = slice_chars(p, a, t);
            let rest = slice_chars(p, t, n);
            let mut key: Vec<char> = Vec::new();
            key.push('u');
            key.append(&mut server);
            key.push('\\');
            key.append(&mut share);
            proof {
                let parts = unc_parts(r, sep);
                let after = p@.skip(a as int);
                assert(parts.0 =~= p@.subrange(2, s as int));
                assert(parts.1 =~= p@.subrange(a as int, t as int));
                assert(parts.2 =~= p@.subrange(t as int, n as int));
            }
            (key, rest, true)
        }
    } else {
        let rest = slice_chars(p, 0, n);
        assert(rest@ =~= p@);
        (Vec::new(), rest, false)
    }
}

/// `a` and `b` name the same path.
pub open spec fn same_path(a: Seq<char>, b: Seq<char>, sep: char) -> bool {
    path_key(a, sep) == path_key(b, sep)
}

/// Some path of `l` is the same path as `p`.
pub open spec fn listed_path(l: Seq<Seq<char>>, p: Seq<char>, sep: char) -> bool {
    exists|i: int| 0 <= i < l.len() && same_path(#[trigger] l[i], p, sep)
}

/// The library folders: the Steam root first, then each folder named by
/// `libraryfolders.vdf` that exists and is not the same path as one listed
/// already, in order.
pub open spec fn libraries(root: Seq<char>, found: Seq<(String, bool)>, sep: char) -> Seq<Seq<char>>
    decreases found.len(),
{
    if found.len() == 0 {
        seq![root]
    } else {
        let rest = libraries(root, found.drop_last(), sep);
        let p = found.last().0@;
        if found.last().1 && !listed_path(rest, p, sep) {
            rest.push(p)
        } else {
            rest
        }
    }
}

/// The key of the path `p` (see [`path_key`]).
fn path_key_of(p: &str, sep: char) -> (r: (Vec<char>, bool, bool, Vec<Vec<char>>))
    ensures
        r.0@ == path_key(p@, sep).0,
        r.1 == path_key(p@, sep).1,
        r.2 == path_key(p@, sep).2,
        r.3@.map_values(|v: Vec<char>| v@) == path_key(p@, sep).3,
{
    let all = chars_of(p);
    let (key, cs, implicit) = prefix_of(&all, sep);
    let mut u: Vec<char> = Vec::new();
    let mut i: usize = 0;
    while i < cs.len()
        invariant
            i <= cs@.len(),
            u@ == unified(cs@.take(i as int), sep),
        decreases cs.len() - i,
    {
        let c = cs[i];
        if c == sep {
            u.push('/');
        } else {
            u.push(c);
        }
        assert(u@ =~= unified(cs@.take(i + 1), sep));
        i = i + 1;
    }
    assert(cs@.take(cs@.len() as int) =~= cs@);
    let pieces = split_chars(&u, '/');
    let ghost ps = pieces@.map_values(|v: Vec<char>| v@);
    proof {
        lemma_split_nonempty(u@, '/');
    }
    let dot = chars_of(".");
    let rooted = implicit || (u.len() > 0 && u[0] == '/');
    let leading_dot = same_chars(&pieces[0], &dot);
    let mut out: Vec<Vec<char>> = Vec::new();
    let mut k: usize = 0;
    assert(ps.take(0) =~= Seq::<Seq<char>>::empty());
    while k < pieces.len()
        invariant
            k <= pieces@.len(),
            ps == pieces@.map_values(|v: Vec<char>| v@),
            dot@ == "."@,
            out@.map_values(|v: Vec<char>| v@) == normal_pieces(ps.take(k as int)),
        decreases pieces.len() - k,
    {
        proof {
            assert(ps.take(k + 1).drop_last() =~= ps.take(k as int));
            assert(ps.take(k + 1).last() == pieces@[k as int]@);
        }
        if pieces[k].len() > 0 && !same_chars(&pieces[k], &dot) {
            let q = copy_chars(&pieces[k]);
            out.push(q);
            assert(out@.map_values(|v: Vec<char>| v@) =~= normal_pieces(ps.take(k as int)).push(ps[k as int]));
        }
        k = k + 1;
    }
    assert(ps.take(ps.len() as int) =~= ps);
    (key, rooted, leading_dot, out)
}

/// Whether two lists of pieces hold the same pieces.
fn same_pieces(a: &Vec<Vec<char>>, b: &Vec<Vec<char>>) -> (r: bool)
    ensures
        r == (a@.map_values(|v: Vec<char>| v@) == b@.map_values(|v: Vec<char>| v@)),
{
    let ghost av = a@.map_values(|v: Vec<char>| v@);
    let ghost bv = b@.map_values(|v: Vec<char>| v@);
    if a.len() != b.len() {
        assert(av.len() != bv.len());
        return false;
    }
    let mut i: usize = 0;
    while i < a.len()
        invariant
            a@.len() == b@.len(),
            i <= a@.len(),
            av == a@.map_values(|v: Vec<char>| v@),
            bv == b@.map_values(|v: Vec<char>| v@),
            forall|j: int| 0 <= j < i ==> av[j] == bv[j],
        decreases a.len() - i,
    {
        if !same_chars(&a[i], &b[i]) {
            assert(av[i as int] != bv[i as int]);
            return false;
        }
        i = i + 1;
    }
    assert(av =~= bv);
    true
}

/// Whether `v` holds a path that is the same path as `p`.
fn listed(v: &Vec<String>, p: &String, sep: char) -> (r: bool)
    ensures
        r == listed_path(v@.map_values(|s: String| s@), p@, sep),
{
    let ghost vs = v@.map_values(|s: String| s@);
    let key = path_key_of(p.as_str(), sep);
    let mut i: usize = 0;
    while i < v.len()
        invariant
            i <= v@.len(),
            vs == v@.map_values(|s: String| s@),
            key.0@ == path_key(p@, sep).0,
            key.1 == path_key(p@, sep).1,
            key.2 == path_key(p@, sep).2,
            key.3@.map_values(|v: Vec<char>| v@) == path_key(p@, sep).3,
            forall|j: int| 0 <= j < i ==> !same_path(#[trigger] vs[j], p@, sep),
        decreases v.len() - i,
    {
        let other = path_key_of(v[i].as_str(), sep);
        if same_chars(&other.0, &key.0) && other.1 == key.1 && other.2 == key.2
            && same_pieces(&other.3, &key.3) {
            assert(same_path(vs[i as int], p@, sep));
            return true;
        }
        i = i + 1;
    }
    false
}

/// Enumerates the Steam library folders.
///
/// `found` pairs each path that `libraryfolders.vdf` names (see
/// [`parse_vdf_paths`]) with whether it is an existing directory; `sep` is
/// the platform's path separator.
pub fn steam_libraries(steam_root: &str, found: &Vec<(String, bool)>, sep: char) -> (r: Vec<String>)
    ensures
        r@.map_values(|s: String| s@) == libraries(steam_root@, found@, sep),
{
    let mut out: Vec<String> = Vec::new();
    out.push(steam_root.to_string());
    let mut i: usize = 0;
    assert(out@.map_values(|s: String| s@) =~= seq![steam_root@]);
    assert(found@.take(0) =~= Seq::<(String, bool)>::empty());
    while i < found.len()
        invariant
            i <= found@.len(),
            out@.map_values(|s: String| s@) == libraries(steam_root@, found@.take(i as int), sep),
        decreases found.len() - i,
    {
        proof {
            assert(found@.take(i + 1).drop_last() =~= found@.take(i as int));
            assert(found@.take(i + 1).last() == found@[i as int]);
        }
        if found[i].1 && !listed(&out, &found[i].0, sep) {
            let p = found[i].0.clone();
            let ghost before = out@.map_values(|s: String| s@);
            out.push(p);
            assert(out@.map_values(|s: String| s@) =~= before.push(found@[i as int].0@));
        }
        i = i + 1;
    }
    assert(found@.take(found@.len() as int) =~= found@);
    out
}

/// The library list starts with the Steam root and never names the same
/// path twice.
pub proof fn lemma_libraries_distinct(root: Seq<char>, found: Seq<(String, bool)>, sep: char)
    ensures
        libraries(root, found, sep).len() >= 1,
        libraries(root, found, sep)[0] == root,
        forall|a: int, b: int| 0 <= a < b < libraries(root, found, sep).len()
            ==> !same_path(libraries(root, found, sep)[a], libraries(root, found, sep)[b], sep),
    decreases found.len(),
{
    if found.len() > 0 {
        lemma_libraries_distinct(root, found.drop_last(), sep);
        let rest = libraries(root, found.drop_last(), sep);
        let p = found.last().0@;
        if found.last().1 && !listed_path(rest, p, sep) {
            let l = rest.push(p);
            assert forall|a: int, b: int| 0 <= a < b < l.len() implies !same_path(l[a], l[b], sep) by {
                if b == l.len() - 1 {
                    assert(l[a] == rest[a]);
                    if same_path(l[a], l[b], sep) {
                        assert(same_path(rest[a], p, sep));
                    }
                } else {
                    assert(l[a] == rest[a] && l[b] == rest[b]);
                }
            }
        }
    }
}

/// A UTF-16 code unit reserved for surrogate pairs.
pub open spec fn is_surrogate(u: u16) -> bool {
    0xD800 <= u <= 0xDFFF
}

/// A leading (high) surrogate.
pub open spec fn is_high(u: u16) -> bool {
    0xD800 <= u <= 0xDBFF
}

/// A trailing (low) surrogate.
pub open spec fn is_low(u: u16) -> bool {
    0xDC00 <= u <= 0xDFFF
}

/// The UTF-16 code units of one character.
pub open spec fn utf16_of(c: char) -> Seq<u16> {
    let u = c as u32;
    if u < 0x10000 {
        seq![u as u16]
    } else {
        seq![(0xD800 + (u - 0x10000) / 0x400) as u16, (0xDC00 + (u - 0x10000) % 0x400) as u16]
    }
}

/// The UTF-16 encoding of a text.
pub open spec fn utf16(s: Seq<char>) -> Seq<u16>
    decreases s.len(),
{
    if s.len() == 0 {
        Seq::empty()
    } else {
        utf16_of(s[0]) + utf16(s.skip(1))
    }
}

/// The scalar value a surrogate pair stands for.
pub open spec fn pair_value(hi: u16, lo: u16) -> u32 {
    (0x10000 + (hi - 0xD800) * 0x400 + (lo - 0xDC00)) as u32
}

/// The text that UTF-16 code units decode to, each ill-formed unit
/// replaced by U+FFFD, as `String::from_utf16_lossy` decodes them.
pub open spec fn decode_utf16(w: Seq<u16>) -> Seq<char>
    decreases w.len(),
{
    if w.len() == 0 {
        Seq::empty()
    } else if !is_surrogate(w[0]) {
        seq![w[0] as char] + decode_utf16(w.skip(1))
    } else if is_high(w[0]) && w.len() >= 2 && is_low(w[1]) {
        seq![pair_value(w[0], w[1]) as char] + decode_utf16(w.skip(2))
    } else {
        seq!['\u{FFFD}'] + decode_utf16(w.skip(1))
    }
}

/// The code units before the first NUL unit (all of them if there is none).
pub open spec fn until_nul(w: Seq<u16>) -> Seq<u16>
    decreases w.len(),
{
    if w.len() == 0 {
        w
    } else if w[0] == 0 {
        Seq::empty()
    } else {
        seq![w[0]] + until_nul(w.skip(1))
    }
}

/// `char::from_u32`, which the standard library documents as giving the
/// character whose scalar value is `u`, and `None` when `u` is not a
/// valid scalar value.
#[verifier::external_body]
fn char_from_u32(u: u32) -> (r: Option<char>)
    ensures
        r == (if vstd::utf8::is_scalar(u) { Some(u as char) } else { None }),
{
    char::from_u32(u)
}

proof fn lemma_utf16_push(s: Seq<char>, c: char)
    ensures
        utf16(s.push(c)) == utf16(s) + utf16_of(c),
    decreases s.len(),
{
    if s.len() == 0 {
        assert(s.push(c).skip(1) =~= Seq::<char>::empty());
        assert(s.push(c)[0] == c);
        assert(utf16(Seq::<char>::empty()) =~= Seq::<u16>::empty());
        assert(utf16(s.push(c)) =~= utf16_of(c));
    } else {
        assert(s.push(c).skip(1) =~= s.skip(1).push(c));
        lemma_utf16_push(s.skip(1), c);
        assert(s.push(c)[0] == s[0]);
        assert(utf16(s.push(c)) =~= utf16(s) + utf16_of(c));
    }
}

/// Encodes a text as NUL-terminated UTF-16, the form the Windows wide
/// character API takes.
pub fn wide(s: &str) -> (r: Vec<u16>)
    ensures
        r@ == utf16(s@).push(0u16),
{
    let cs = chars_of(s);
    let mut out: Vec<u16> = Vec::new();
    let mut i: usize = 0;
    assert(cs@.take(0) =~= Seq::<char>::empty());
    while i < cs.len()
        invariant
            i <= cs@.len(),
            out@ == utf16(cs@.take(i as int)),
        decreases cs.len() - i,
    {
        let c = cs[i];
        let u = c as u32;
        proof {
            assert(cs@.take(i + 1) =~= cs@.take(i as int).push(c));
            lemma_utf16_push(cs@.take(i as int), c);
            vstd::utf8::char_is_scalar(c);
        }
        if u < 0x10000 {
            out.push(u as u16);
            assert(out@ =~= utf16(cs@.take(i + 1)));
        } else {
            let v = u - 0x10000;
            assert(v <= 0xFFFFF);
            out.push((0xD800 + v / 0x400) as u16);
            out.push((0xDC00 + v % 0x400) as u16);
            assert(out@ =~= utf16(cs@.take(i + 1)));
        }
        i = i + 1;
    }
    assert(cs@.take(cs@.len() as int) =~= cs@);
    out.push(0);
    out
}

proof fn lemma_until_nul_prefix(w: Seq<u16>, n: int)
    requires
        0 <= n <= w.len(),
        forall|j: int| 0 <= j < n ==> w[j] != 0,
        n == w.len() || w[n] == 0,
    ensures
        until_nul(w) == w.take(n),
    decreases n,
{
    if n == 0 {
        assert(w.take(0) =~= Seq::<u16>::empty());
    } else {
        assert forall|j: int| 0 <= j < n - 1 implies w.skip(1)[j] != 0 by {
            assert(w.skip(1)[j] == w[j + 1]);
        }
        if n < w.len() {
            assert(w.skip(1)[n - 1] == w[n]);
        }
        lemma_until_nul_prefix(w.skip(1), n - 1);
        assert(w.take(n) =~= seq![w[0]] + w.skip(1).take(n - 1));
    }
}

/// The text of a registry string value read as UTF-16 code units: the
/// units before the first NUL, decoded with every ill-formed unit replaced
/// by U+FFFD.
pub fn registry_text(words: &Vec<u16>) -> (r: String)
    ensures
        r@ == decode_utf16(until_nul(words@)),
{
    let mut end: usize = 0;
    while end < words.len() && words[end] != 0
        invariant
            end <= words@.len(),
            forall|j: int| 0 <= j < end ==> words@[j] != 0,
        decreases words.len() - end,
    {
        end = end + 1;
    }
    proof {
        lemma_until_nul_prefix(words@, end as int);
    }
    let ghost w = words@.take(end as int);
    let mut out = String::new();
    let mut i: usize = 0;
    assert(w.skip(0) =~= w);
    while i < end
        invariant
            i <= end <= words@.len(),
            w == words@.take(end as int),
            out@ + decode_utf16(w.skip(i as int)) == decode_utf16(w),
        decreases end - i,
    {
        let ghost rest = w.skip(i as int);
        let u = words[i];
        assert(rest[0] == u);
        if u < 0xD800 || u > 0xDFFF {
            assert(rest.skip(1) =~= w.skip(i + 1));
            match char_from_u32(u as u32) {
                Some(c) => {
                    push_char(&mut out, c);
                    assert(out@ + decode_utf16(w.skip(i + 1)) =~= decode_utf16(w));
                },
                None => {
                    assert(false);
                },
            }
            i = i + 1;
        } else if u <= 0xDBFF && i + 1 < end && words[i + 1] >= 0xDC00 && words[i + 1] <= 0xDFFF {
            let lo = words[i + 1];
            assert(rest[1] == lo);
            assert(rest.skip(2) =~= w.skip(i + 2));
            let v: u32 = 0x10000 + ((u as u32) - 0xD800) * 0x400 + ((lo as u32) - 0xDC00);
            assert(v == pair_value(u, lo));
            match char_from_u32(v) {
                Some(c) => {
                    push_char(&mut out, c);
                    assert(out@ + decode_utf16(w.skip(i + 2)) =~= decode_utf16(w));
                },
                None => {
                    assert(false);
                },
            }
            i = i + 2;
        } else {
            assert(rest.skip(1) =~= w.skip(i + 1));
            push_char(&mut out, '\u{FFFD}');
            assert(out@ + decode_utf16(w.skip(i + 1)) =~= decode_utf16(w));
            i = i + 1;
        }
    }
    assert(w.skip(end as int) =~= Seq::<u16>::empty());
    assert(out@ + decode_utf16(w.skip(end as int)) =~= out@);
    out
}

proof fn lemma_until_nul_append(a: Seq<u16>, b: Seq<u16>)
    requires
        forall|j: int| 0 <= j < a.len() ==> a[j] != 0,
    ensures
        until_nul(a + b) == a + until_nul(b),
    decreases a.len(),
{
    if a.len() == 0 {
        assert(a + b =~= b);
        assert(a + until_nul(b) =~= until_nul(b));
    } else {
        assert((a + b)[0] == a[0]);
        assert((a + b).skip(1) =~= a.skip(1) + b);
        assert forall|j: int| 0 <= j < a.len() - 1 implies a.skip(1)[j] != 0 by {
            assert(a.skip(1)[j] == a[j + 1]);
        }
        lemma_until_nul_append(a.skip(1), b);
        assert(a =~= seq![a[0]] + a.skip(1));
        assert(seq![a[0]] + (a.skip(1) + until_nul(b)) =~= a + until_nul(b));
    }
}

proof fn lemma_decode_one(c: char, rest: Seq<u16>)
    ensures
        decode_utf16(utf16_of(c) + rest) == seq![c] + decode_utf16(rest),
        c != '\0' ==> forall|j: int| 0 <= j < utf16_of(c).len() ==> utf16_of(c)[j] != 0,
{
    let u = c as u32;
    vstd::utf8::char_is_scalar(c);
    vstd::utf8::char_u32_cast(c, u);
    let w = utf16_of(c) + rest;
    if u < 0x10000 {
        assert(w[0] == u as u16);
        assert(w.skip(1) =~= rest);
        assert((u as u16) as char == c);
    } else {
        let v = u - 0x10000;
        vstd::arithmetic::div_mod::lemma_fundamental_div_mod(v as int, 0x400);
        assert(0 <= v % 0x400 < 0x400);
        assert(0 <= v / 0x400 < 0x400);
        let hi = (0xD800 + v / 0x400) as u16;
        let lo = (0xDC00 + v % 0x400) as u16;
        assert(w[0] == hi && w[1] == lo);
        assert(is_high(hi) && is_low(lo));
        assert(pair_value(hi, lo) == u);
        assert(w.skip(2) =~= rest);
    }
}

/// A text without NUL characters comes back unchanged from the registry's
/// wide-character form: [`registry_text`] of what [`wide`] encodes is the
/// text itself.
pub proof fn lemma_registry_text_of_wide(s: Seq<char>)
    requires
        forall|i: int| 0 <= i < s.len() ==> s[i] != '\0',
    ensures
        decode_utf16(until_nul(utf16(s).push(0u16))) == s,
    decreases s.len(),
{
    if s.len() == 0 {
        assert(utf16(s).push(0u16) =~= seq![0u16]);
        assert(until_nul(seq![0u16]) =~= Seq::<u16>::empty());
        assert(s =~= Seq::<char>::empty());
    } else {
        let c = s[0];
        let t = s.skip(1);
        assert forall|i: int| 0 <= i < t.len() implies t[i] != '\0' by {
            assert(t[i] == s[i + 1]);
        }
        lemma_registry_text_of_wide(t);
        lemma_decode_one(c, until_nul(utf16(t).push(0u16)));
        assert(utf16(s).push(0u16) =~= utf16_of(c) + utf16(t).push(0u16));
        lemma_until_nul_append(utf16_of(c), utf16(t).push(0u16));
        assert(s =~= seq![c] + t);
    }
}

} // verus!
