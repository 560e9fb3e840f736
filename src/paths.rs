//! Project paths in the two shapes the IDE records: POSIX paths, and drive
//! paths such as `C:\Users\me`, recognised by their drive prefix on every
//! platform. Also the `file://` URI written for a local path.

use vstd::prelude::*;
use vstd::string::StringExecFns;
use vstd::utf8::encode_utf8;
use crate::folder_uri::{is_ascii_letter, replace_char, local_path_of, is_drive_url_path};
use crate::text::{chars_of, push_char, push_hex_digit, hex_digit, opt_view};

verus! {

/// Whether a path begins with a drive, as `C:` does.
pub open spec fn is_drive_path(p: Seq<char>) -> bool {
    p.len() >= 2 && is_ascii_letter(p[0]) && p[1] == ':'
}

/// The POSIX form of a path: a drive path gets a leading `/` and forward
/// slashes; any other path stays as it is.
pub open spec fn posix_form(p: Seq<char>) -> Seq<char> {
    if is_drive_path(p) {
        seq!['/'] + replace_char(p, '\\', '/')
    } else {
        p
    }
}

/// Whether a byte of a path stands for itself in a `file` URI: the `/`
/// separator, and the printable ASCII characters other than space and
/// `" # % < > ? \ ` { }`.
pub open spec fn kept_in_uri(b: u8) -> bool {
    b == 0x2f || (0x20 < b < 0x7f && b != 0x22 && b != 0x23 && b != 0x25 && b != 0x3c && b != 0x3e
        && b != 0x3f && b != 0x5c && b != 0x60 && b != 0x7b && b != 0x7d)
}

/// The URI text of path bytes: each byte that is kept as its character, each
/// other as `%` and two upper-case hexadecimal digits.
pub open spec fn uri_encoded(bs: Seq<u8>) -> Seq<char>
    decreases bs.len(),
{
    if bs.len() == 0 {
        Seq::empty()
    } else {
        let b = bs.last();
        uri_encoded(bs.drop_last()) + if kept_in_uri(b) {
            seq![b as char]
        } else {
            seq!['%', hex_digit(b / 16, false), hex_digit(b % 16, false)]
        }
    }
}

/// The `file` URI of a path, where its POSIX form is absolute.
pub open spec fn file_uri_of(p: Seq<char>) -> Option<Seq<char>> {
    let q = posix_form(p);
    if q.len() > 0 && q[0] == '/' {
        Some("file://"@ + uri_encoded(encode_utf8(q)))
    } else {
        None
    }
}

/// The POSIX form of a path.
pub fn to_posix_form(p: &str) -> (r: String)
    ensures
        r@ == posix_form(p@),
{
    let v = chars_of(p);
    if v.len() >= 2 && (('a' <= v[0] && v[0] <= 'z') || ('A' <= v[0] && v[0] <= 'Z')) && v[1] == ':' {
        let mut r = String::new();
        push_char(&mut r, '/');
        let mut i: usize = 0;
        while i < v.len()
            invariant
                i <= v.len(),
                v@ == p@,
                r@ == seq!['/'] + replace_char(p@, '\\', '/').take(i as int),
            decreases v.len() - i,
        {
            let c = if v[i] == '\\' {
                '/'
            } else {
                v[i]
            };
            push_char(&mut r, c);
            i = i + 1;
            assert(replace_char(p@, '\\', '/').take(i as int) =~= replace_char(p@, '\\', '/').take(
                i - 1,
            ).push(c));
        }
        assert(replace_char(p@, '\\', '/').take(v.len() as int) =~= replace_char(p@, '\\', '/'));
        r
    } else {
        String::from_str(p)
    }
}

/// Formats the `file` URI of a local path: `file://`, then the path's POSIX
/// form with every byte that does not stand for itself percent-encoded.
/// `None` where that form is not absolute.
pub fn path_to_file_uri(path: &str) -> (r: Option<String>)
    ensures
        opt_view(r) == file_uri_of(path@),
{
    let q = to_posix_form(path);
    let qv = chars_of(q.as_str());
    if qv.len() == 0 || qv[0] != '/' {
        return None;
    }
    let bytes = q.as_str().as_bytes();
    let mut r = String::from_str("file://");
    proof {
        reveal_strlit("file://");
    }
    let mut i: usize = 0;
    while i < bytes.len()
        invariant
            i <= bytes.len(),
            bytes@ == encode_utf8(q@),
            r@ == "file://"@ + uri_encoded(bytes@.take(i as int)),
        decreases bytes.len() - i,
    {
        let b = bytes[i];
        assert(bytes@.take(i + 1).drop_last() == bytes@.take(i as int));
        let keep = b == 0x2f || (0x20 < b && b < 0x7f && b != 0x22 && b != 0x23 && b != 0x25 && b
            != 0x3c && b != 0x3e && b != 0x3f && b != 0x5c && b != 0x60 && b != 0x7b && b != 0x7d);
        if keep {
            push_char(&mut r, b as char);
        } else {
            push_char(&mut r, '%');
            push_hex_digit(&mut r, b / 16, false);
            push_hex_digit(&mut r, b % 16, false);
        }
        i = i + 1;
    }
    assert(bytes@.take(bytes.len() as int) == bytes@);
    Some(r)
}

/// Whether every character of `p` is ASCII and stands for itself in a URI.
pub open spec fn is_plain_path(p: Seq<char>) -> bool {
    forall|i: int| 0 <= i < p.len() ==> '\0' <= #[trigger] p[i] <= '\u{7f}' && kept_in_uri(
        p[i] as u8,
    )
}

proof fn lemma_plain_encoded(q: Seq<char>)
    requires
        is_plain_path(q),
    ensures
        uri_encoded(encode_utf8(q)) == q,
    decreases q.len(),
{
    vstd::utf8::is_ascii_chars_encode_utf8(q);
    let bs = encode_utf8(q);
    if q.len() > 0 {
        let p = q.drop_last();
        assert(is_plain_path(p)) by {
            assert forall|i: int| 0 <= i < p.len() implies '\0' <= #[trigger] p[i] <= '\u{7f}'
                && kept_in_uri(p[i] as u8) by {
                assert(p[i] == q[i]);
            }
        }
        lemma_plain_encoded(p);
        vstd::utf8::is_ascii_chars_encode_utf8(p);
        assert(bs.drop_last() =~= encode_utf8(p));
        assert(bs.last() == q.last() as u8);
        assert((q.last() as u8) as char == q.last());
        assert(uri_encoded(bs) =~= q);
    } else {
        assert(bs =~= Seq::<u8>::empty());
    }
}

/// Formatting a plain absolute POSIX path as a `file` URI only prefixes
/// `file://`, and reading the URI's decoded path back as a local path gives
/// the path again.
pub proof fn lemma_plain_posix_path_round_trip(p: Seq<char>)
    requires
        p.len() > 0,
        p[0] == '/',
        is_plain_path(p),
        !is_drive_url_path(p),
    ensures
        file_uri_of(p) == Some("file://"@ + p),
        local_path_of(p) == p,
{
    assert(!is_drive_path(p));
    lemma_plain_encoded(p);
}

/// A workspace index file: the URI of the folder that the workspace holds.
#[derive(Clone, Debug)]
pub struct WorkspaceJson {
    pub folder: String,
}

impl WorkspaceJson {
    /// The index of the workspace for a local path, `None` where the path is
    /// not absolute.
    pub fn new(path: &str) -> (r: Option<WorkspaceJson>)
        ensures
            match r {
                Some(w) => file_uri_of(path@) == Some(w.folder@),
                None => file_uri_of(path@) is None,
            },
    {
        match path_to_file_uri(path) {
            Some(folder) => Some(WorkspaceJson { folder }),
            None => None,
        }
    }
}

/// The extended-length prefix `\\?\` of a Windows path.
pub open spec fn verbatim_prefix() -> Seq<char> {
    seq!['\\', '\\', '?', '\\']
}

/// A path without its extended-length prefix, where it has one.
pub open spec fn without_verbatim_prefix(p: Seq<char>) -> Seq<char> {
    if p.len() >= 4 && p.take(4) == verbatim_prefix() {
        p.skip(4)
    } else {
        p
    }
}

/// Drops the extended-length prefix `\\?\` that Windows puts before a
/// resolved path, which the IDE never records.
pub fn strip_windows_prefix(path: &str) -> (r: String)
    ensures
        r@ == without_verbatim_prefix(path@),
{
    let v = chars_of(path);
    if v.len() >= 4 && v[0] == '\\' && v[1] == '\\' && v[2] == '?' && v[3] == '\\' {
        assert(path@.take(4) =~= verbatim_prefix());
        crate::text::string_of_range(&v, 4, v.len())
    } else {
        proof {
            if path@.len() >= 4 && path@.take(4) == verbatim_prefix() {
                assert(path@.take(4)[0] == path@[0]);
                assert(path@.take(4)[1] == path@[1]);
                assert(path@.take(4)[2] == path@[2]);
                assert(path@.take(4)[3] == path@[3]);
            }
        }
        String::from_str(path)
    }
}

/// Whether `c` separates the parts of a path of the given shape.
pub open spec fn is_separator(c: char, drive: bool) -> bool {
    c == '/' || (drive && c == '\\')
}

/// The words of `s` read so far, and the word being read.
pub open spec fn words_state(s: Seq<char>, drive: bool) -> (Seq<Seq<char>>, Seq<char>)
    decreases s.len(),
{
    if s.len() == 0 {
        (Seq::empty(), Seq::empty())
    } else {
        let (ws, cur) = words_state(s.drop_last(), drive);
        if is_separator(s.last(), drive) {
            if cur.len() > 0 {
                (ws.push(cur), Seq::empty())
            } else {
                (ws, Seq::empty())
            }
        } else {
            (ws, cur.push(s.last()))
        }
    }
}

/// The non-empty parts of `s` between separators.
pub open spec fn words(s: Seq<char>, drive: bool) -> Seq<Seq<char>> {
    let (ws, cur) = words_state(s, drive);
    if cur.len() > 0 {
        ws.push(cur)
    } else {
        ws
    }
}

/// The parts left when each `.` is dropped and each `..` takes away the part
/// before it, where there is one.
pub open spec fn resolve(ws: Seq<Seq<char>>) -> Seq<Seq<char>>
    decreases ws.len(),
{
    if ws.len() == 0 {
        Seq::empty()
    } else {
        let r = resolve(ws.drop_last());
        let w = ws.last();
        if w == seq!['.'] {
            r
        } else if w == seq!['.', '.'] {
            if r.len() > 0 {
                r.drop_last()
            } else {
                r
            }
        } else {
            r.push(w)
        }
    }
}

/// Parts joined by `sep`.
pub open spec fn join_words(ws: Seq<Seq<char>>, sep: char) -> Seq<char>
    decreases ws.len(),
{
    if ws.len() == 0 {
        Seq::empty()
    } else if ws.len() == 1 {
        ws[0]
    } else {
        join_words(ws.drop_last(), sep).push(sep) + ws.last()
    }
}

/// A path with `.` and `..` resolved, separators collapsed, and no separator
/// at its end, symbolic links left alone. A drive path keeps its drive and
/// uses `\`; any other path uses `/`.
pub open spec fn cleaned(p: Seq<char>) -> Seq<char> {
    if is_drive_path(p) {
        let rooted = p.len() > 2 && is_separator(p[2], true);
        p.take(2) + (if rooted {
            seq!['\\']
        } else {
            Seq::empty()
        }) + join_words(resolve(words(p.skip(2), true)), '\\')
    } else {
        (if p.len() > 0 && p[0] == '/' {
            seq!['/']
        } else {
            Seq::empty()
        }) + join_words(resolve(words(p, false)), '/')
    }
}

spec fn word_views(v: Seq<Vec<char>>) -> Seq<Seq<char>> {
    v.map_values(|w: Vec<char>| w@)
}

fn split_words(v: &Vec<char>, from: usize, drive: bool) -> (r: Vec<Vec<char>>)
    requires
        from <= v.len(),
    ensures
        word_views(r@) == words(v@.skip(from as int), drive),
{
    let ghost s = v@.skip(from as int);
    let mut ws: Vec<Vec<char>> = Vec::new();
    let mut cur: Vec<char> = Vec::new();
    let mut i: usize = from;
    assert(s.take(0) =~= Seq::<char>::empty());
    while i < v.len()
        invariant
            from <= i <= v.len(),
            s == v@.skip(from as int),
            (word_views(ws@), cur@) == words_state(s.take(i - from), drive),
        decreases v.len() - i,
    {
        assert(s.take(i + 1 - from).drop_last() == s.take(i - from));
        assert(s.take(i + 1 - from).last() == v@[i as int]);
        let c = v[i];
        if c == '/' || (drive && c == '\\') {
            if cur.len() > 0 {
                let ghost before = ws@;
                let ghost w = cur@;
                ws.push(cur);
                assert(word_views(ws@) =~= word_views(before).push(w));
                cur = Vec::new();
            } else {
                cur = Vec::new();
            }
        } else {
            cur.push(c);
        }
        i = i + 1;
    }
    assert(s.take(v.len() - from) == s);
    if cur.len() > 0 {
        let ghost before = ws@;
        let ghost w = cur@;
        ws.push(cur);
        assert(word_views(ws@) =~= word_views(before).push(w));
    }
    ws
}

fn resolve_words(ws: Vec<Vec<char>>) -> (r: Vec<Vec<char>>)
    ensures
        word_views(r@) == resolve(word_views(ws@)),
{
    let ghost all = word_views(ws@);
    let mut out: Vec<Vec<char>> = Vec::new();
    let mut rest = ws;
    let ghost mut k: int = 0;
    assert(all.take(0) =~= Seq::<Seq<char>>::empty());
    while rest.len() > 0
        invariant
            0 <= k <= all.len(),
            word_views(rest@) == all.skip(k),
            word_views(out@) == resolve(all.take(k)),
        decreases rest.len(),
    {
        let ghost rest_before = rest@;
        let w = rest.remove(0);
        proof {
            assert(word_views(rest_before)[0] == w@);
            assert(word_views(rest_before).len() == rest_before.len());
            assert(k < all.len());
            assert(all.skip(k)[0] == all[k]);
            assert(all.take(k + 1).drop_last() =~= all.take(k));
            assert(all.take(k + 1).last() == w@);
            let ghost wb = word_views(rest_before);
            assert(rest@ =~= rest_before.skip(1));
            assert(word_views(rest@) =~= wb.skip(1));
            assert(wb.skip(1) =~= all.skip(k + 1));
            k = k + 1;
        }
        let dot = w.len() == 1 && w[0] == '.';
        let dotdot = w.len() == 2 && w[0] == '.' && w[1] == '.';
        proof {
            assert(dot == (w@ == seq!['.'])) by {
                if w@ == seq!['.'] {
                    assert(w@[0] == '.');
                }
                if dot {
                    assert(w@ =~= seq!['.']);
                }
            }
            assert(dotdot == (w@ == seq!['.', '.'])) by {
                if w@ == seq!['.', '.'] {
                    assert(w@[0] == '.' && w@[1] == '.');
                }
                if dotdot {
                    assert(w@ =~= seq!['.', '.']);
                }
            }
        }
        if dot {
        } else if dotdot {
            if out.len() > 0 {
                let ghost before = out@;
                out.pop();
                assert(word_views(out@) =~= word_views(before).drop_last());
            }
        } else {
            let ghost before = out@;
            let ghost wv = w@;
            out.push(w);
            assert(word_views(out@) =~= word_views(before).push(wv));
        }
    }
    assert(all.take(k) == all);
    out
}

fn join_into(s: &mut String, ws: &Vec<Vec<char>>, sep: char)
    ensures
        final(s)@ == old(s)@ + join_words(word_views(ws@), sep),
{
    let ghost start = s@;
    let mut i: usize = 0;
    assert(word_views(ws@).take(0) =~= Seq::<Seq<char>>::empty());
    while i < ws.len()
        invariant
            i <= ws.len(),
            s@ == start + join_words(word_views(ws@).take(i as int), sep),
        decreases ws.len() - i,
    {
        let ghost t = word_views(ws@).take(i + 1);
        assert(t.drop_last() == word_views(ws@).take(i as int));
        assert(t.last() == ws@[i as int]@);
        if i > 0 {
            push_char(s, sep);
        }
        let w = &ws[i];
        let mut j: usize = 0;
        let ghost mid = s@;
        while j < w.len()
            invariant
                j <= w.len(),
                s@ == mid + w@.take(j as int),
            decreases w.len() - j,
        {
            push_char(s, w[j]);
            j = j + 1;
            assert(s@ =~= mid + w@.take(j as int));
        }
        assert(w@.take(w.len() as int) == w@);
        proof {
            if i == 0 {
                assert(t.len() == 1);
                assert(t[0] == w@);
            }
        }
        i = i + 1;
        assert(s@ =~= start + join_words(word_views(ws@).take(i as int), sep));
    }
    assert(word_views(ws@).take(ws.len() as int) == word_views(ws@));
}

/// Resolves `.` and `..` in a path without following symbolic links, as the
/// IDE records paths.
pub fn clean_path(path: &str) -> (r: String)
    ensures
        r@ == cleaned(path@),
{
    let v = chars_of(path);
    let mut r = String::new();
    if v.len() >= 2 && (('a' <= v[0] && v[0] <= 'z') || ('A' <= v[0] && v[0] <= 'Z')) && v[1] == ':' {
        push_char(&mut r, v[0]);
        push_char(&mut r, v[1]);
        let rooted = v.len() > 2 && (v[2] == '/' || v[2] == '\\');
        if rooted {
            push_char(&mut r, '\\');
        }
        let ws = resolve_words(split_words(&v, 2, true));
        join_into(&mut r, &ws, '\\');
        assert(r@ =~= cleaned(path@));
    } else {
        if v.len() > 0 && v[0] == '/' {
            push_char(&mut r, '/');
        }
        let ws = resolve_words(split_words(&v, 0, false));
        assert(v@.skip(0) == v@);
        join_into(&mut r, &ws, '/');
        assert(r@ =~= cleaned(path@));
    }
    r
}

} // verus!
