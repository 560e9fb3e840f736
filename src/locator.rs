//! Finding the workspace-storage directory that the IDE keeps for a project,
//! among the records of its workspace index.

use vstd::prelude::*;
use crate::folder_uri::{url_parts, url_parts_of};
use crate::paths::{path_to_file_uri, file_uri_of};
use crate::text::{
    chars_of, push_char, string_of_chars, string_of_range, to_lowercase, lower_of, same_text,
    ascii_lower, all_ascii, opt_view};

verus! {

/// One record of the workspace index: the name of a storage directory and the
/// folder URI that its index file holds.
#[derive(Clone, Debug)]
pub struct WorkspaceEntry {
    pub storage_id: String,
    pub folder: String,
}

/// Why a lookup could not be made.
#[derive(Clone, Copy, Debug, PartialEq, Eq, Structural)]
pub enum LocateError {
    /// The project exists locally but its path has no `file` URI: it is not
    /// absolute.
    InvalidPath,
}

/// `s` without the `/` characters at its end.
pub open spec fn trim_slashes(s: Seq<char>) -> Seq<char>
    decreases s.len(),
{
    if s.len() > 0 && s.last() == '/' {
        trim_slashes(s.drop_last())
    } else {
        s
    }
}

/// `s` with each `%3a` read as `:`, from the left.
pub open spec fn decode_colons(s: Seq<char>) -> Seq<char>
    decreases s.len(),
{
    if s.len() < 3 {
        s
    } else if s.take(3) == "%3a"@ {
        seq![':'] + decode_colons(s.skip(3))
    } else {
        seq![s[0]] + decode_colons(s.skip(1))
    }
}

/// The form in which a URI is compared on a case-insensitive file system:
/// no `/` at the end, in lower case, `%3a` read as `:`. On ASCII text lower
/// case is that of the ASCII letters.
pub open spec fn windows_uri_key(u: Seq<char>) -> Seq<char> {
    if all_ascii(u) {
        decode_colons(trim_slashes(u).map_values(|c: char| ascii_lower(c)))
    } else {
        decode_colons(lower_of(trim_slashes(u)))
    }
}

/// Trimming keeps a prefix.
proof fn lemma_trim_prefix(s: Seq<char>)
    ensures
        trim_slashes(s).len() <= s.len(),
        trim_slashes(s) == s.take(trim_slashes(s).len() as int),
    decreases s.len(),
{
    if s.len() > 0 && s.last() == '/' {
        lemma_trim_prefix(s.drop_last());
        assert(s.drop_last().take(trim_slashes(s).len() as int) == s.take(
            trim_slashes(s).len() as int,
        ));
    } else {
        assert(s.take(s.len() as int) == s);
    }
}

/// Trimming and lowering ASCII text can be done in either order.
proof fn lemma_trim_lower(s: Seq<char>)
    requires
        all_ascii(s),
    ensures
        trim_slashes(s).map_values(|c: char| ascii_lower(c)) == trim_slashes(
            s.map_values(|c: char| ascii_lower(c)),
        ),
    decreases s.len(),
{
    let l = s.map_values(|c: char| ascii_lower(c));
    if s.len() > 0 {
        assert(l.last() == ascii_lower(s.last()));
        assert(l.drop_last() =~= s.drop_last().map_values(|c: char| ascii_lower(c)));
        if s.last() == '/' {
            lemma_trim_lower(s.drop_last());
        } else {
            assert(s.last() <= '\u{7f}');
            assert(ascii_lower(s.last()) != '/');
        }
    }
}

/// The form in which a URI is compared: `case_insensitive` selects the
/// comparison of a file system whose drive letters ignore case.
pub open spec fn uri_key(u: Seq<char>, case_insensitive: bool) -> Seq<char> {
    if case_insensitive {
        windows_uri_key(u)
    } else {
        trim_slashes(u)
    }
}

/// Removes the `/` characters at the end of a text.
pub fn trim_trailing_slashes(s: &str) -> (r: String)
    ensures
        r@ == trim_slashes(s@),
{
    let v = chars_of(s);
    let mut j: usize = v.len();
    assert(v@.take(j as int) == s@);
    while j > 0 && v[j - 1] == '/'
        invariant
            j <= v.len(),
            v@ == s@,
            trim_slashes(s@) == trim_slashes(v@.take(j as int)),
        decreases j,
    {
        assert(v@.take(j as int).drop_last() == v@.take(j - 1));
        j = j - 1;
    }
    string_of_range(&v, 0, j)
}

/// Reads each `%3a` of a text as `:`.
pub fn decode_encoded_colons(s: &str) -> (r: String)
    ensures
        r@ == decode_colons(s@),
{
    proof {
        reveal_strlit("%3a");
    }
    let v = chars_of(s);
    let mut out = String::new();
    let mut i: usize = 0;
    assert(s@.skip(0) == s@);
    while i < v.len()
        invariant
            i <= v.len(),
            v@ == s@,
            out@ + decode_colons(s@.skip(i as int)) == decode_colons(s@),
        decreases v.len() - i,
    {
        let ghost rest = s@.skip(i as int);
        proof {
            reveal_strlit("%3a");
        }
        if v.len() - i >= 3 && v[i] == '%' && v[i + 1] == '3' && v[i + 2] == 'a' {
            assert(rest.take(3) =~= "%3a"@);
            assert(rest.skip(3) == s@.skip(i + 3));
            push_char(&mut out, ':');
            i = i + 3;
        } else {
            proof {
                if rest.len() >= 3 {
                    assert(rest.take(3) != "%3a"@) by {
                        if rest.take(3) == "%3a"@ {
                            assert(rest.take(3)[0] == '%');
                            assert(rest.take(3)[1] == '3');
                            assert(rest.take(3)[2] == 'a');
                        }
                    }
                } else {
                    assert(decode_colons(rest.skip(1)) == rest.skip(1));
                    assert(rest =~= seq![rest[0]] + rest.skip(1));
                }
                assert(rest.skip(1) == s@.skip(i + 1));
            }
            push_char(&mut out, v[i]);
            i = i + 1;
        }
        assert(out@ + decode_colons(s@.skip(i as int)) =~= decode_colons(s@));
    }
    assert(s@.skip(v.len() as int) =~= Seq::<char>::empty());
    out
}

/// The comparison form of a URI on a case-insensitive file system: no `/` at
/// the end, lower case, `%3a` read as `:`.
pub fn normalize_uri_windows(uri: &str) -> (r: String)
    ensures
        r@ == windows_uri_key(uri@),
{
    let t = trim_trailing_slashes(uri);
    let l = to_lowercase(t.as_str());
    proof {
        if all_ascii(uri@) {
            lemma_trim_prefix(uri@);
            assert(all_ascii(t@));
        }
    }
    decode_encoded_colons(l.as_str())
}

/// The form in which a URI is compared.
pub fn normalize_uri_for_comparison(uri: &str, case_insensitive: bool) -> (r: String)
    ensures
        r@ == uri_key(uri@, case_insensitive),
{
    if case_insensitive {
        normalize_uri_windows(uri)
    } else {
        trim_trailing_slashes(uri)
    }
}

/// Whether `c` separates the parts of a path.
pub open spec fn is_path_separator(c: char, backslash_too: bool) -> bool {
    c == '/' || (backslash_too && c == '\\')
}

/// The last part of a path: what follows its last separator.
pub open spec fn last_part(s: Seq<char>, backslash_too: bool) -> Seq<char>
    decreases s.len(),
{
    if s.len() == 0 {
        Seq::empty()
    } else if is_path_separator(s.last(), backslash_too) {
        Seq::empty()
    } else {
        last_part(s.drop_last(), backslash_too).push(s.last())
    }
}

/// What follows the last separator of a path.
pub fn last_path_part(s: &str, backslash_too: bool) -> (r: String)
    ensures
        r@ == last_part(s@, backslash_too),
{
    let v = chars_of(s);
    let mut out: Vec<char> = Vec::new();
    let mut i: usize = 0;
    while i < v.len()
        invariant
            i <= v.len(),
            v@ == s@,
            out@ == last_part(s@.take(i as int), backslash_too),
        decreases v.len() - i,
    {
        assert(s@.take(i + 1).drop_last() == s@.take(i as int));
        if v[i] == '/' || (backslash_too && v[i] == '\\') {
            out = Vec::new();
        } else {
            out.push(v[i]);
        }
        i = i + 1;
    }
    assert(s@.take(v.len() as int) == s@);
    string_of_chars(&out)
}

/// The path, without `/` at its end, of a `vscode-remote` URI.
pub open spec fn remote_path_of(folder: Seq<char>) -> Option<Seq<char>> {
    match url_parts_of(folder) {
        Some(u) => if u.scheme == "vscode-remote"@ {
            Some(trim_slashes(u.path))
        } else {
            None
        },
        None => None,
    }
}

/// A way in which an index record can match a project.
pub enum MatchRule {
    /// Its folder URI has the comparison form `key`.
    Local(Seq<char>, bool),
    /// It is remote and its path is `path`.
    RemotePath(Seq<char>),
    /// It is remote and the last part of its path is `name`, not empty.
    RemoteName(Seq<char>),
}

/// Whether the record whose folder URI is `folder` matches by `m`.
pub open spec fn matches_rule(folder: Seq<char>, m: MatchRule) -> bool {
    match m {
        MatchRule::Local(key, ci) => uri_key(folder, ci) == key,
        MatchRule::RemotePath(p) => remote_path_of(folder) == Some(p),
        MatchRule::RemoteName(n) => match remote_path_of(folder) {
            Some(rp) => last_part(rp, false).len() > 0 && last_part(rp, false) == n,
            None => false,
        },
    }
}

/// The position of the first record among `es` that matches by `m`.
pub open spec fn first_match(es: Seq<WorkspaceEntry>, m: MatchRule) -> Option<int>
    decreases es.len(),
{
    if es.len() == 0 {
        None
    } else {
        match first_match(es.drop_last(), m) {
            Some(i) => Some(i),
            None => if matches_rule(es.last().folder@, m) {
                Some(es.len() - 1)
            } else {
                None
            },
        }
    }
}

proof fn lemma_first_match_prefix(es: Seq<WorkspaceEntry>, m: MatchRule, k: int)
    requires
        0 <= k <= es.len(),
        first_match(es.take(k), m) is Some,
    ensures
        first_match(es, m) == first_match(es.take(k), m),
    decreases es.len() - k,
{
    if k == es.len() {
        assert(es.take(k) == es);
    } else {
        assert(es.take(k + 1).drop_last() == es.take(k));
        lemma_first_match_prefix(es, m, k + 1);
    }
}

proof fn lemma_first_match_bounds(es: Seq<WorkspaceEntry>, m: MatchRule)
    ensures
        first_match(es, m) matches Some(i) ==> 0 <= i < es.len(),
    decreases es.len(),
{
    if es.len() > 0 {
        lemma_first_match_bounds(es.drop_last(), m);
    }
}

/// The storage directory of the first record among `es` that matches by `m`.
pub open spec fn matched_id(es: Seq<WorkspaceEntry>, m: MatchRule) -> Option<Seq<char>> {
    match first_match(es, m) {
        Some(i) => Some(es[i].storage_id@),
        None => None,
    }
}

/// The storage directory of a project at `path`. Where the project exists on
/// this machine, the first record whose folder URI compares equal to the
/// path's `file` URI. Otherwise, the first remote record whose path is the
/// path, and failing that, as a last resort, the first remote record whose
/// last path part is the path's.
pub open spec fn located(es: Seq<WorkspaceEntry>, path: Seq<char>, exists_locally: bool, case_insensitive: bool) -> Result<Option<Seq<char>>, LocateError> {
    if exists_locally {
        match file_uri_of(path) {
            Some(u) => Ok(matched_id(es, MatchRule::Local(uri_key(u, case_insensitive), case_insensitive))),
            None => Err(LocateError::InvalidPath),
        }
    } else {
        let search = trim_slashes(path);
        match matched_id(es, MatchRule::RemotePath(search)) {
            Some(id) => Ok(Some(id)),
            None => {
                let name = last_part(search, true);
                Ok(matched_id(es, MatchRule::RemoteName(name)))
            },
        }
    }
}

/// What a lookup rule needs, computed once.
enum Rule {
    Local(String, bool),
    RemotePath(String),
    RemoteName(String),
}

spec fn rule_view(r: Rule) -> MatchRule {
    match r {
        Rule::Local(k, ci) => MatchRule::Local(k@, ci),
        Rule::RemotePath(p) => MatchRule::RemotePath(p@),
        Rule::RemoteName(n) => MatchRule::RemoteName(n@),
    }
}

fn entry_matches(folder: &str, rule: &Rule) -> (r: bool)
    ensures
        r == matches_rule(folder@, rule_view(*rule)),
{
    proof {
        reveal_strlit("vscode-remote");
    }
    match rule {
        Rule::Local(key, ci) => {
            let k = normalize_uri_for_comparison(folder, *ci);
            same_text(k.as_str(), key.as_str())
        },
        Rule::RemotePath(p) => match url_parts(folder) {
            Some(u) => if same_text(u.scheme.as_str(), "vscode-remote") {
                let rp = trim_trailing_slashes(u.path.as_str());
                same_text(rp.as_str(), p.as_str())
            } else {
                false
            },
            None => false,
        },
        Rule::RemoteName(n) => match url_parts(folder) {
            Some(u) => if same_text(u.scheme.as_str(), "vscode-remote") {
                let rp = trim_trailing_slashes(u.path.as_str());
                let last = last_path_part(rp.as_str(), false);
                !last.as_str().is_empty() && same_text(last.as_str(), n.as_str())
            } else {
                false
            },
            None => false,
        },
    }
}

fn find_matching(es: &Vec<WorkspaceEntry>, rule: &Rule) -> (r: Option<String>)
    ensures
        opt_view(r) == matched_id(es@, rule_view(*rule)),
{
    let mut i: usize = 0;
    while i < es.len()
        invariant
            i <= es.len(),
            first_match(es@.take(i as int), rule_view(*rule)) is None,
        decreases es.len() - i,
    {
        assert(es@.take(i + 1).drop_last() == es@.take(i as int));
        if entry_matches(es[i].folder.as_str(), rule) {
            proof {
                lemma_first_match_prefix(es@, rule_view(*rule), i + 1);
            }
            return Some(es[i].storage_id.clone());
        }
        i = i + 1;
    }
    assert(es@.take(es.len() as int) == es@);
    None
}

/// Finds the storage directory of the project at `path` among the index
/// records `entries`; see `located`. Absence is `Ok(None)`; the one error is
/// a local project whose path is not absolute.
pub fn find_workspace(entries: &Vec<WorkspaceEntry>, path: &str, exists_locally: bool, case_insensitive: bool) -> (r: Result<Option<String>, LocateError>)
    ensures
        match r {
            Ok(o) => located(entries@, path@, exists_locally, case_insensitive) == Ok::<
                Option<Seq<char>>,
                LocateError,
            >(opt_view(o)),
            Err(e) => located(entries@, path@, exists_locally, case_insensitive) == Err::<
                Option<Seq<char>>,
                LocateError,
            >(e),
        },
        !exists_locally ==> r is Ok,
{
    if exists_locally {
        match path_to_file_uri(path) {
            Some(u) => {
                let key = normalize_uri_for_comparison(u.as_str(), case_insensitive);
                let rule = Rule::Local(key, case_insensitive);
                Ok(find_matching(entries, &rule))
            },
            None => Err(LocateError::InvalidPath),
        }
    } else {
        let search = trim_trailing_slashes(path);
        let by_path = Rule::RemotePath(search.clone());
        match find_matching(entries, &by_path) {
            Some(id) => Ok(Some(id)),
            None => {
                let name = last_path_part(search.as_str(), true);
                let by_name = Rule::RemoteName(name);
                Ok(find_matching(entries, &by_name))
            },
        }
    }
}

/// Two ASCII URIs that differ only in the case of letters, as a drive letter
/// may, compare equal on a case-insensitive file system.
pub proof fn lemma_letter_case_ignored(u1: Seq<char>, u2: Seq<char>)
    requires
        all_ascii(u1),
        all_ascii(u2),
        u1.map_values(|c: char| ascii_lower(c)) == u2.map_values(|c: char| ascii_lower(c)),
    ensures
        uri_key(u1, true) == uri_key(u2, true),
{
    lemma_trim_lower(u1);
    lemma_trim_lower(u2);
}

/// An index holding one record whose folder URI compares equal to the `file`
/// URI of a local project is found for that project: its storage directory is
/// returned.
pub proof fn lemma_single_local_record_found(e: WorkspaceEntry, path: Seq<char>, u: Seq<char>, case_insensitive: bool)
    requires
        file_uri_of(path) == Some(u),
        uri_key(e.folder@, case_insensitive) == uri_key(u, case_insensitive),
    ensures
        located(seq![e], path, true, case_insensitive) == Ok::<Option<Seq<char>>, LocateError>(
            Some(e.storage_id@),
        ),
{
    let es = seq![e];
    let m = MatchRule::Local(uri_key(u, case_insensitive), case_insensitive);
    assert(es.drop_last() =~= Seq::<WorkspaceEntry>::empty());
    assert(es.last() == e);
    assert(first_match(es.drop_last(), m) is None);
    assert(matches_rule(e.folder@, m));
    assert(first_match(es, m) == Some(0int));
}

/// On a case-insensitive file system, the record of a local project is still
/// found when its folder URI writes letters, such as the drive letter, in
/// another case than the project's `file` URI.
pub proof fn lemma_drive_letter_case_still_found(e: WorkspaceEntry, path: Seq<char>, u: Seq<char>)
    requires
        file_uri_of(path) == Some(u),
        all_ascii(u),
        all_ascii(e.folder@),
        e.folder@.map_values(|c: char| ascii_lower(c)) == u.map_values(|c: char| ascii_lower(c)),
    ensures
        located(seq![e], path, true, true) == Ok::<Option<Seq<char>>, LocateError>(
            Some(e.storage_id@),
        ),
{
    lemma_letter_case_ignored(e.folder@, u);
    lemma_single_local_record_found(e, path, u, true);
}

} // verus!
