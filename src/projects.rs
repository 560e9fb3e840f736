//! The projects that the workspace index records: how each is listed and
//! selected, which are orphaned, and which chat-session identifiers a clone
//! renews.

use vstd::prelude::*;
use vstd::string::StringExecFns;
use crate::folder_uri::{FolderLocationView, RemoteInfo, location_of_parts, parse_folder_url, folder_location, url_parts, url_parts_of, location_from_parts};
use crate::text::{chars_of, find_char, index_of, has_prefix, push_decimal, push_str, decimal, same_text, starts_with, string_of_range, opt_view};

verus! {

/// A project found in the workspace index.
#[derive(Clone, Debug)]
pub struct Project {
    /// The name of its storage directory.
    pub folder_id: String,
    /// Its path as recorded.
    pub path: String,
    /// The remote it lives on, `None` for a local project.
    pub remote: Option<RemoteInfo>,
    /// When its storage was last modified, in milliseconds since the epoch.
    pub last_modified: Option<u64>,
    /// How many chat sessions it has.
    pub chat_count: usize,
}

/// How the list of projects is shown.
#[derive(Clone, Debug)]
pub struct ListOptions {
    /// Show the storage directory of each project.
    pub with_id: bool,
    /// Order: `name`, `chats`, or by last modification.
    pub sort: String,
    /// Reverse the order.
    pub reverse: bool,
    /// `local`, `remote`, or a text that the path must contain.
    pub filter: Option<String>,
    /// Show at most this many.
    pub limit: Option<usize>,
}

/// The project that an index record describes, where its folder URI locates a
/// folder.
pub fn project_from_record(folder_id: String, folder_url: &str, last_modified: Option<u64>, chat_count: usize) -> (r: Option<Project>)
    ensures
        match r {
            Some(p) => folder_location(folder_url@) == Some(
                FolderLocationView {
                    path: p.path@,
                    remote: match p.remote {
                        Some(ri) => Some(ri@),
                        None => None,
                    },
                },
            ) && p.folder_id == folder_id && p.last_modified == last_modified && p.chat_count
                == chat_count,
            None => folder_location(folder_url@) is None,
        },
{
    match parse_folder_url(folder_url) {
        Some(loc) => Some(
            Project { folder_id, path: loc.path, remote: loc.remote, last_modified, chat_count },
        ),
        None => None,
    }
}

/// Whether `h` holds `n` somewhere.
pub open spec fn contains_text(h: Seq<char>, n: Seq<char>) -> bool {
    exists|i: int| 0 <= i && i + n.len() <= h.len() && #[trigger] h.subrange(i, i + n.len()) == n
}

/// Whether the characters `h` hold the text `n` somewhere.
pub fn find_text(h: &Vec<char>, n: &str) -> (r: bool)
    ensures
        r == contains_text(h@, n@),
{
    let nv = chars_of(n);
    if nv.len() > h.len() {
        return false;
    }
    let mut i: usize = 0;
    while i <= h.len() - nv.len()
        invariant
            nv@ == n@,
            nv.len() <= h.len(),
            i <= h.len() - nv.len() + 1,
            forall|k: int| 0 <= k < i ==> #[trigger] h@.subrange(k, k + nv.len()) != n@,
        decreases h.len() - nv.len() + 1 - i,
    {
        let mut j: usize = 0;
        while j < nv.len() && h[i + j] == nv[j]
            invariant
                j <= nv.len(),
                i + nv.len() <= h.len(),
                forall|m: int| 0 <= m < j ==> h@[i + m] == nv@[m],
            decreases nv.len() - j,
        {
            j = j + 1;
        }
        if j == nv.len() {
            assert(h@.subrange(i as int, i + nv.len()) =~= n@);
            return true;
        }
        assert(h@.subrange(i as int, i + nv.len())[j as int] != n@[j as int]);
        i = i + 1;
    }
    assert forall|k: int| 0 <= k && k + n@.len() <= h@.len() implies #[trigger] h@.subrange(
        k,
        k + n@.len(),
    ) != n@ by {
        assert(k < i);
    }
    false
}

/// Whether a project is kept by a list filter: `local` keeps the local
/// projects, `remote` the remote ones, any other text the projects whose path
/// contains it.
pub open spec fn kept_by_filter(p: Project, filter: Seq<char>) -> bool {
    if filter == "local"@ {
        p.remote is None
    } else if filter == "remote"@ {
        p.remote is Some
    } else {
        contains_text(p.path@, filter)
    }
}

/// Whether a project is kept by a list filter.
pub fn keep_project(p: &Project, filter: &str) -> (r: bool)
    ensures
        r == kept_by_filter(*p, filter@),
{
    if same_text(filter, "local") {
        p.remote.is_none()
    } else if same_text(filter, "remote") {
        p.remote.is_some()
    } else {
        let h = chars_of(p.path.as_str());
        find_text(&h, filter)
    }
}

/// Keeps the projects that a list filter keeps, in their order.
pub fn filter_projects(v: Vec<Project>, filter: &str) -> (r: Vec<Project>)
    ensures
        r@ == v@.filter(|p: Project| kept_by_filter(p, filter@)),
{
    let ghost orig = v@;
    let mut rest = v;
    let mut out: Vec<Project> = Vec::new();
    let ghost mut k: int = 0;
    while rest.len() > 0
        invariant
            0 <= k <= orig.len(),
            rest@ == orig.skip(k),
            out@ == orig.take(k).filter(|p: Project| kept_by_filter(p, filter@)),
        decreases rest.len(),
    {
        let x = rest.remove(0);
        let keep = keep_project(&x, filter);
        proof {
            assert(orig.take(k + 1).drop_last() == orig.take(k));
            assert(orig.take(k + 1).last() == x);
            reveal(Seq::filter);
            k = k + 1;
            assert(rest@ =~= orig.skip(k));
        }
        if keep {
            out.push(x);
        }
    }
    assert(orig.take(k) == orig);
    out
}

/// The line under the list of projects.
pub open spec fn summary_text(shown: usize, total: usize) -> Seq<char> {
    if shown < total {
        "Showing "@ + decimal(shown as u64) + " of "@ + decimal(total as u64) + " projects"@
    } else {
        decimal(total as u64) + " projects found"@
    }
}

/// The line under the list of projects: how many are shown of how many.
pub fn list_summary(shown: usize, total: usize) -> (r: String)
    ensures
        r@ == summary_text(shown, total),
{
    let mut s = String::new();
    if shown < total {
        push_str(&mut s, "Showing ");
        push_decimal(&mut s, shown as u64);
        push_str(&mut s, " of ");
        push_decimal(&mut s, total as u64);
        push_str(&mut s, " projects");
    } else {
        push_decimal(&mut s, total as u64);
        push_str(&mut s, " projects found");
    }
    assert(s@ =~= summary_text(shown, total));
    s
}

/// A workspace storage directory whose project folder is gone.
#[derive(Clone, Debug)]
pub struct OrphanedWorkspace {
    pub storage_path: String,
    pub folder_url: String,
    pub size_bytes: u64,
}

/// The local folder whose absence makes a record orphaned: that of a `file`
/// URI that locates one. Remote folders cannot be checked from here.
pub open spec fn folder_to_check(folder_url: Seq<char>) -> Option<Seq<char>> {
    match url_parts_of(folder_url) {
        Some(u) => if u.scheme == "file"@ {
            match location_of_parts(u) {
                Some(l) => Some(l.path),
                None => None,
            }
        } else {
            None
        },
        None => None,
    }
}

/// The local folder to look for to tell whether a record is orphaned.
pub fn orphan_check_path(folder_url: &str) -> (r: Option<String>)
    ensures
        opt_view(r) == folder_to_check(folder_url@),
{
    match url_parts(folder_url) {
        Some(u) => if same_text(u.scheme.as_str(), "file") {
            match location_from_parts(&u) {
                Some(l) => Some(l.path),
                None => None,
            }
        } else {
            None
        },
        None => None,
    }
}

/// Where `x` goes among `s`: before the first workspace smaller than `x`.
pub open spec fn size_insert_pos(s: Seq<OrphanedWorkspace>, x: OrphanedWorkspace) -> int
    decreases s.len(),
{
    if s.len() == 0 {
        0
    } else if !(s[0].size_bytes >= x.size_bytes) {
        0
    } else {
        1 + size_insert_pos(s.drop_first(), x)
    }
}

/// `v` in order, each inserted after those before it that it may come after:
/// equal keys keep their order.
pub open spec fn size_sorted(v: Seq<OrphanedWorkspace>) -> Seq<OrphanedWorkspace>
    decreases v.len(),
{
    if v.len() == 0 {
        Seq::empty()
    } else {
        let s = size_sorted(v.drop_last());
        s.insert(size_insert_pos(s, v.last()), v.last())
    }
}

proof fn lemma_size_insert_pos(s: Seq<OrphanedWorkspace>, x: OrphanedWorkspace, j: int)
    requires
        0 <= j <= s.len(),
        forall|m: int| 0 <= m < j ==> s[m].size_bytes >= x.size_bytes,
        j == s.len() || !(s[j].size_bytes >= x.size_bytes),
    ensures
        size_insert_pos(s, x) == j,
    decreases j,
{
    if j > 0 {
        let t = s.drop_first();
        assert forall|m: int| 0 <= m < j - 1 implies t[m].size_bytes >= x.size_bytes by {
            assert(t[m] == s[m + 1]);
        }
        if j < s.len() {
            assert(t[j - 1] == s[j]);
        }
        lemma_size_insert_pos(t, x, j - 1);
    }
}

/// Orders orphaned workspaces from the largest to the smallest.
pub fn sort_by_size_desc(v: Vec<OrphanedWorkspace>) -> (r: Vec<OrphanedWorkspace>)
    ensures
        forall|i: int, j: int| 0 <= i < j < r@.len() ==> r@[i].size_bytes >= r@[j].size_bytes,
        r@.to_multiset() == v@.to_multiset(),
        r@ == size_sorted(v@),
{
    broadcast use vstd::seq_lib::group_to_multiset_ensures;
    let ghost orig = v@;
    let mut rest = v;
    let mut out: Vec<OrphanedWorkspace> = Vec::new();
    let ghost mut k: int = 0;
    assert(orig.take(0) =~= Seq::<OrphanedWorkspace>::empty());
    assert(orig.skip(0) == orig);
    while rest.len() > 0
        invariant
            0 <= k <= orig.len(),
            rest@ == orig.skip(k),
            out@ == size_sorted(orig.take(k)),
            forall|i: int, j: int| 0 <= i < j < out@.len() ==> out@[i].size_bytes >= out@[j].size_bytes,
            out@.to_multiset().add(rest@.to_multiset()) == orig.to_multiset(),
        decreases rest.len(),
    {
        let ghost rest_before = rest@;
        let x = rest.remove(0);
        proof {
            vstd::seq_lib::to_multiset_remove(rest_before, 0);
            assert(orig.take(k + 1).drop_last() == orig.take(k));
            assert(orig.take(k + 1).last() == x);
            k = k + 1;
            assert(rest@ =~= orig.skip(k));
        }
        let k = x.size_bytes;
        let mut j: usize = 0;
        while j < out.len() && out[j].size_bytes >= k
            invariant
                j <= out.len(),
                forall|m: int| 0 <= m < j ==> out@[m].size_bytes >= k,
            decreases out.len() - j,
        {
            j = j + 1;
        }
        let ghost out_before = out@;
        proof {
            lemma_size_insert_pos(out_before, x, j as int);
        }
        out.insert(j, x);
        proof {
            vstd::seq_lib::to_multiset_insert(out_before, j as int, x);
            assert forall|a: int, b: int| 0 <= a < b < out@.len() implies out@[a].size_bytes
                >= out@[b].size_bytes by {
                if j < out_before.len() {
                    assert(out_before[j as int].size_bytes < k);
                }
            }
            let ghost mo = out_before.to_multiset();
            let ghost mr = rest_before.to_multiset();
            assert(rest_before[0] == x);
            assert(rest_before.contains(x));
            rest_before.to_multiset_ensures();
            assert(mr.count(x) > 0);
            assert(mo.insert(x).add(mr.remove(x)) =~= mo.add(mr));
        }
    }
    assert(orig.take(k) == orig);
    out
}

/// The prefix of the keys under which a workspace keeps its chat panels.
pub open spec fn chat_key_prefix() -> Seq<char> {
    "workbench.panel.aichat."@
}

/// The chat-session identifier in a key: the part after the chat-panel prefix
/// up to the next `.`, where the key has the prefix and the part is not empty.
pub open spec fn chat_id_of_key(k: Seq<char>) -> Option<Seq<char>> {
    if has_prefix(k, chat_key_prefix()) {
        let rest = k.skip(chat_key_prefix().len() as int);
        let id = match index_of(rest, '.') {
            Some(i) => rest.take(i),
            None => rest,
        };
        if id.len() > 0 {
            Some(id)
        } else {
            None
        }
    } else {
        None
    }
}

/// The distinct chat-session identifiers in `keys`, in the order in which
/// they first come.
pub open spec fn chat_ids_of_keys(keys: Seq<String>) -> Seq<Seq<char>>
    decreases keys.len(),
{
    if keys.len() == 0 {
        Seq::empty()
    } else {
        let r = chat_ids_of_keys(keys.drop_last());
        match chat_id_of_key(keys.last()@) {
            Some(id) => if r.contains(id) {
                r
            } else {
                r.push(id)
            },
            None => r,
        }
    }
}

fn chat_id_from_key(k: &str) -> (r: Option<String>)
    ensures
        opt_view(r) == chat_id_of_key(k@),
{
    proof {
        reveal_strlit("workbench.panel.aichat.");
    }
    let v = chars_of(k);
    if !starts_with(&v, "workbench.panel.aichat.") {
        return None;
    }
    let p: usize = 23;
    let rest = string_of_range(&v, p, v.len());
    let rv = chars_of(rest.as_str());
    let id = match find_char(&rv, '.') {
        Some(i) => string_of_range(&rv, 0, i),
        None => rest,
    };
    assert(rv@ == k@.skip(23));
    if id.as_str().is_empty() {
        None
    } else {
        Some(id)
    }
}

/// The identifiers of the chat sessions that the keys of a workspace store
/// name, each once, in the order in which they first come.
pub fn chat_ids_in_keys(keys: &Vec<String>) -> (r: Vec<String>)
    ensures
        r@.map_values(|s: String| s@) == chat_ids_of_keys(keys@),
{
    let mut out: Vec<String> = Vec::new();
    let mut i: usize = 0;
    while i < keys.len()
        invariant
            i <= keys.len(),
            out@.map_values(|s: String| s@) == chat_ids_of_keys(keys@.take(i as int)),
        decreases keys.len() - i,
    {
        assert(keys@.take(i + 1).drop_last() == keys@.take(i as int));
        assert(keys@.take(i + 1).last() == keys@[i as int]);
        match chat_id_from_key(keys[i].as_str()) {
            Some(id) => {
                let ghost ids = out@.map_values(|s: String| s@);
                let mut seen = false;
                let mut j: usize = 0;
                while j < out.len()
                    invariant
                        j <= out.len(),
                        ids == out@.map_values(|s: String| s@),
                        seen == exists|m: int| 0 <= m < j && ids[m] == id@,
                    decreases out.len() - j,
                {
                    let same = same_text(out[j].as_str(), id.as_str());
                    assert(ids[j as int] == out@[j as int]@);
                    let ghost was = seen;
                    if same {
                        seen = true;
                    }
                    proof {
                        if seen {
                            if !was {
                                assert(ids[j as int] == id@);
                            }
                        } else {
                            assert forall|m: int| 0 <= m < j + 1 implies ids[m] != id@ by {
                                if m < j {
                                } else {
                                    assert(ids[j as int] != id@);
                                }
                            }
                        }
                    }
                    j = j + 1;
                }
                proof {
                    if ids.contains(id@) {
                        let m = choose|m: int| 0 <= m < ids.len() && ids[m] == id@;
                        assert(seen);
                    }
                    if seen {
                        let m = choose|m: int| 0 <= m < j && ids[m] == id@;
                        assert(ids.contains(id@));
                    }
                }
                if !seen {
                    let ghost idv = id@;
                    out.push(id);
                    assert(out@.map_values(|s: String| s@) =~= ids.push(idv));
                }
            },
            None => {},
        }
        i = i + 1;
    }
    assert(keys@.take(keys.len() as int) == keys@);
    out
}

/// The key prefix under which the chat panels of session `id` are kept.
pub fn chat_panel_prefix(id: &str) -> (r: String)
    ensures
        r@ == chat_key_prefix() + id@ + "."@,
{
    let mut s = String::from_str("workbench.panel.aichat.");
    push_str(&mut s, id);
    push_str(&mut s, ".");
    s
}

/// Whether `a` comes no later than `b` in the order of their characters.
pub open spec fn text_le(a: Seq<char>, b: Seq<char>) -> bool
    decreases a.len(),
{
    if a.len() == 0 {
        true
    } else if b.len() == 0 {
        false
    } else if a[0] != b[0] {
        a[0] < b[0]
    } else {
        text_le(a.skip(1), b.skip(1))
    }
}

proof fn lemma_text_le_total(a: Seq<char>, b: Seq<char>)
    ensures
        text_le(a, b) || text_le(b, a),
    decreases a.len(),
{
    if a.len() > 0 && b.len() > 0 && a[0] == b[0] {
        lemma_text_le_total(a.skip(1), b.skip(1));
    }
}

proof fn lemma_text_le_trans(a: Seq<char>, b: Seq<char>, c: Seq<char>)
    requires
        text_le(a, b),
        text_le(b, c),
    ensures
        text_le(a, c),
    decreases a.len(),
{
    if a.len() > 0 && b.len() > 0 && c.len() > 0 && a[0] == b[0] && b[0] == c[0] {
        lemma_text_le_trans(a.skip(1), b.skip(1), c.skip(1));
    }
}

fn text_le_exec(a: &str, b: &str) -> (r: bool)
    ensures
        r == text_le(a@, b@),
{
    let av = chars_of(a);
    let bv = chars_of(b);
    let mut i: usize = 0;
    assert(a@.skip(0) == a@ && b@.skip(0) == b@);
    while i < av.len() && i < bv.len() && av[i] == bv[i]
        invariant
            i <= av.len(),
            i <= bv.len(),
            av@ == a@,
            bv@ == b@,
            text_le(a@, b@) == text_le(a@.skip(i as int), b@.skip(i as int)),
        decreases av.len() - i,
    {
        assert(a@.skip(i as int).skip(1) == a@.skip(i + 1));
        assert(b@.skip(i as int).skip(1) == b@.skip(i + 1));
        i = i + 1;
    }
    if i == av.len() {
        true
    } else if i == bv.len() {
        false
    } else {
        av[i] < bv[i]
    }
}

/// The orders in which projects can be listed.
#[derive(Clone, Copy, Debug, PartialEq, Eq, Structural)]
pub enum ProjectOrder {
    /// Most recently modified first, then by path.
    Recency,
    /// By path.
    Name,
    /// Most chat sessions first.
    Chats,
}

/// The list order that an option names: `name`, `chats`, or by recency for
/// anything else.
pub open spec fn order_named(s: Seq<char>) -> ProjectOrder {
    if s == "name"@ {
        ProjectOrder::Name
    } else if s == "chats"@ {
        ProjectOrder::Chats
    } else {
        ProjectOrder::Recency
    }
}

/// The list order that an option names.
pub fn project_order(s: &str) -> (r: ProjectOrder)
    ensures
        r == order_named(s@),
{
    if same_text(s, "name") {
        ProjectOrder::Name
    } else if same_text(s, "chats") {
        ProjectOrder::Chats
    } else {
        ProjectOrder::Recency
    }
}

/// A last-modification time as a number that orders projects, a project
/// without one coming before every other.
pub open spec fn modified_rank(m: Option<u64>) -> int {
    match m {
        Some(t) => t as int,
        None => -1,
    }
}

/// Whether project `a` may come before project `b` in order `o`.
pub open spec fn project_le(a: Project, b: Project, o: ProjectOrder) -> bool {
    match o {
        ProjectOrder::Recency => modified_rank(a.last_modified) > modified_rank(b.last_modified) || (
        modified_rank(a.last_modified) == modified_rank(b.last_modified) && text_le(a.path@, b.path@)),
        ProjectOrder::Name => text_le(a.path@, b.path@),
        ProjectOrder::Chats => a.chat_count >= b.chat_count,
    }
}

proof fn lemma_project_le_total(a: Project, b: Project, o: ProjectOrder)
    ensures
        project_le(a, b, o) || project_le(b, a, o),
{
    lemma_text_le_total(a.path@, b.path@);
}

proof fn lemma_project_le_trans(a: Project, b: Project, c: Project, o: ProjectOrder)
    requires
        project_le(a, b, o),
        project_le(b, c, o),
    ensures
        project_le(a, c, o),
{
    if text_le(a.path@, b.path@) && text_le(b.path@, c.path@) {
        lemma_text_le_trans(a.path@, b.path@, c.path@);
    }
}

fn project_le_exec(a: &Project, b: &Project, o: ProjectOrder) -> (r: bool)
    ensures
        r == project_le(*a, *b, o),
{
    match o {
        ProjectOrder::Recency => {
            let ra: i128 = match a.last_modified {
                Some(t) => t as i128,
                None => -1,
            };
            let rb: i128 = match b.last_modified {
                Some(t) => t as i128,
                None => -1,
            };
            ra > rb || (ra == rb && text_le_exec(a.path.as_str(), b.path.as_str()))
        },
        ProjectOrder::Name => text_le_exec(a.path.as_str(), b.path.as_str()),
        ProjectOrder::Chats => a.chat_count >= b.chat_count,
    }
}

/// Whether `v` is in order `o`.
pub open spec fn in_order(v: Seq<Project>, o: ProjectOrder) -> bool {
    forall|i: int, j: int| 0 <= i < j < v.len() ==> project_le(v[i], v[j], o)
}

/// Where `x` goes among `s`: before the first project that `x` may not come
/// after.
pub open spec fn insert_pos(s: Seq<Project>, x: Project, o: ProjectOrder) -> int
    decreases s.len(),
{
    if s.len() == 0 {
        0
    } else if !project_le(s[0], x, o) {
        0
    } else {
        1 + insert_pos(s.drop_first(), x, o)
    }
}

/// The projects `v` in order `o`, each inserted after those before it that
/// it may come after: projects that compare equal keep their order.
pub open spec fn sorted_by(v: Seq<Project>, o: ProjectOrder) -> Seq<Project>
    decreases v.len(),
{
    if v.len() == 0 {
        Seq::empty()
    } else {
        let s = sorted_by(v.drop_last(), o);
        s.insert(insert_pos(s, v.last(), o), v.last())
    }
}

proof fn lemma_insert_pos(s: Seq<Project>, x: Project, o: ProjectOrder, j: int)
    requires
        0 <= j <= s.len(),
        forall|m: int| 0 <= m < j ==> project_le(s[m], x, o),
        j == s.len() || !project_le(s[j], x, o),
    ensures
        insert_pos(s, x, o) == j,
    decreases j,
{
    if j > 0 {
        let t = s.drop_first();
        assert forall|m: int| 0 <= m < j - 1 implies project_le(t[m], x, o) by {
            assert(t[m] == s[m + 1]);
        }
        if j < s.len() {
            assert(t[j - 1] == s[j]);
        }
        lemma_insert_pos(t, x, o, j - 1);
    }
}

/// Orders projects by `o`, projects that compare equal keeping their order.
pub fn sort_projects(v: Vec<Project>, o: ProjectOrder) -> (r: Vec<Project>)
    ensures
        in_order(r@, o),
        r@.to_multiset() == v@.to_multiset(),
        r@ == sorted_by(v@, o),
{
    broadcast use vstd::seq_lib::group_to_multiset_ensures;
    let ghost orig = v@;
    let mut rest = v;
    let mut out: Vec<Project> = Vec::new();
    let ghost mut k: int = 0;
    assert(orig.take(0) =~= Seq::<Project>::empty());
    assert(orig.skip(0) == orig);
    while rest.len() > 0
        invariant
            in_order(out@, o),
            out@.to_multiset().add(rest@.to_multiset()) == orig.to_multiset(),
            0 <= k <= orig.len(),
            rest@ == orig.skip(k),
            out@ == sorted_by(orig.take(k), o),
        decreases rest.len(),
    {
        let ghost rest_before = rest@;
        let x = rest.remove(0);
        proof {
            vstd::seq_lib::to_multiset_remove(rest_before, 0);
            assert(orig.take(k + 1).drop_last() == orig.take(k));
            assert(orig.take(k + 1).last() == x);
            k = k + 1;
            assert(rest@ =~= orig.skip(k));
        }
        let mut j: usize = 0;
        while j < out.len() && project_le_exec(&out[j], &x, o)
            invariant
                j <= out.len(),
                forall|m: int| 0 <= m < j ==> project_le(out@[m], x, o),
            decreases out.len() - j,
        {
            j = j + 1;
        }
        let ghost out_before = out@;
        proof {
            lemma_insert_pos(out_before, x, o, j as int);
            if j < out_before.len() {
                lemma_project_le_total(out_before[j as int], x, o);
                assert forall|m: int| j <= m < out_before.len() implies project_le(
                    x,
                    #[trigger] out_before[m],
                    o,
                ) by {
                    if m > j {
                        lemma_project_le_trans(x, out_before[j as int], out_before[m], o);
                    }
                }
            }
        }
        out.insert(j, x);
        proof {
            vstd::seq_lib::to_multiset_insert(out_before, j as int, x);
            assert forall|a: int, b: int| 0 <= a < b < out@.len() implies project_le(
                out@[a],
                out@[b],
                o,
            ) by {
                if a < j && b > j {
                    assert(project_le(out_before[a], x, o));
                    assert(project_le(x, out_before[b - 1], o));
                    lemma_project_le_trans(out_before[a], x, out_before[b - 1], o);
                } else if a == j {
                    assert(project_le(x, out_before[b - 1], o));
                } else if b == j {
                    assert(project_le(out_before[a], x, o));
                } else if a > j {
                    assert(project_le(out_before[a - 1], out_before[b - 1], o));
                } else {
                    assert(project_le(out_before[a], out_before[b], o));
                }
            }
            let ghost mo = out_before.to_multiset();
            let ghost mr = rest_before.to_multiset();
            assert(rest_before[0] == x);
            assert(rest_before.contains(x));
            rest_before.to_multiset_ensures();
            assert(mr.count(x) > 0);
            assert(mo.insert(x).add(mr.remove(x)) =~= mo.add(mr));
        }
    }
    assert(orig.take(k) == orig);
    out
}

} // verus!
