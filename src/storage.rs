//! The global `storage.json`: which of its references to a folder URI a move
//! of the folder must rewrite.

use vstd::prelude::*;
use crate::json::{Json, field, str_of, array_of, parse_json, json_of_text};

verus! {

/// The references to a folder URI in `storage.json`.
#[derive(Clone, Debug)]
pub struct StorageChanges {
    /// Positions, in `backupWorkspaces.folders`, of the entries whose
    /// `folderUri` is the URI.
    pub folder_entries: Vec<usize>,
    /// Whether `profileAssociations.workspaces` has a member named by the URI,
    /// to be renamed.
    pub association: bool,
}

/// The entries of `backupWorkspaces.folders`, where the document has them.
pub open spec fn backup_folders(doc: Json) -> Option<Seq<Json>> {
    match field(doc, "backupWorkspaces"@) {
        Some(b) => array_of(field(b, "folders"@)),
        None => None,
    }
}

/// The positions of the entries among `es` whose `folderUri` is `uri`.
pub open spec fn entries_with_uri(es: Seq<Json>, uri: Seq<char>) -> Seq<usize>
    decreases es.len(),
{
    if es.len() == 0 {
        Seq::empty()
    } else {
        let r = entries_with_uri(es.drop_last(), uri);
        if str_of(field(es.last(), "folderUri"@)) == Some(uri) {
            r.push((es.len() - 1) as usize)
        } else {
            r
        }
    }
}

/// Whether `profileAssociations.workspaces` is an object with a member `uri`.
pub open spec fn has_association(doc: Json, uri: Seq<char>) -> bool {
    match field(doc, "profileAssociations"@) {
        Some(p) => match field(p, "workspaces"@) {
            Some(w) => field(w, uri) is Some,
            None => false,
        },
        None => false,
    }
}

/// The references to `uri` that a document holds.
pub open spec fn references_in(doc: Json, uri: Seq<char>) -> (Seq<usize>, bool) {
    (
        match backup_folders(doc) {
            Some(es) => entries_with_uri(es, uri),
            None => Seq::empty(),
        },
        has_association(doc, uri),
    )
}

/// Finds the references to `old_uri` in a `storage.json` document.
pub fn references_to(doc: &Json, old_uri: &str) -> (r: StorageChanges)
    ensures
        (r.folder_entries@, r.association) == references_in(*doc, old_uri@),
{
    proof {
        reveal_strlit("backupWorkspaces");
        reveal_strlit("folders");
        reveal_strlit("folderUri");
        reveal_strlit("profileAssociations");
        reveal_strlit("workspaces");
    }
    let mut found: Vec<usize> = Vec::new();
    let folders = match doc.get("backupWorkspaces") {
        Some(b) => match b.get("folders") {
            Some(f) => f.as_array(),
            None => None,
        },
        None => None,
    };
    match folders {
        Some(es) => {
            let mut i: usize = 0;
            assert(es@.take(0) =~= Seq::<Json>::empty());
            while i < es.len()
                invariant
                    i <= es.len(),
                    found@ == entries_with_uri(es@.take(i as int), old_uri@),
                decreases es.len() - i,
            {
                proof {
                    reveal_strlit("folderUri");
                }
                assert(es@.take(i + 1).drop_last() == es@.take(i as int));
                assert(es@.take(i + 1).last() == es@[i as int]);
                let hit = match es[i].get("folderUri") {
                    Some(u) => match u.as_str() {
                        Some(s) => crate::text::same_text(s.as_str(), old_uri),
                        None => false,
                    },
                    None => false,
                };
                if hit {
                    found.push(i);
                }
                i = i + 1;
            }
            assert(es@.take(es.len() as int) == es@);
        },
        None => {},
    }
    let association = match doc.get("profileAssociations") {
        Some(p) => match p.get("workspaces") {
            Some(w) => w.get(old_uri).is_some(),
            None => false,
        },
        None => false,
    };
    StorageChanges { folder_entries: found, association }
}

/// The references to `old_uri` in a `storage.json` text: `None` where the
/// text is not a JSON document, `Some(None)` where it holds none.
pub fn storage_changes(text: &str, old_uri: &str) -> (r: Option<Option<StorageChanges>>)
    ensures
        match json_of_text(text@) {
            Some(doc) => {
                let (es, a) = references_in(doc, old_uri@);
                match r {
                    Some(Some(c)) => (es.len() > 0 || a) && c.folder_entries@ == es && c.association == a,
                    Some(None) => es.len() == 0 && !a,
                    None => false,
                }
            },
            None => r is None,
        },
{
    match parse_json(text) {
        Some(doc) => {
            let c = references_to(&doc, old_uri);
            if c.folder_entries.len() > 0 || c.association {
                Some(Some(c))
            } else {
                Some(None)
            }
        },
        None => None,
    }
}

/// One entry of `backupWorkspaces.folders`.
#[derive(Clone, Debug)]
pub struct FolderEntry {
    pub folder_uri: String,
}

/// The `backupWorkspaces` section.
#[derive(Clone, Debug)]
pub struct BackupWorkspaces {
    pub folders: Option<Vec<FolderEntry>>,
}

/// The `profileAssociations` section: each workspace URI with its profile.
#[derive(Clone, Debug)]
pub struct ProfileAssociations {
    pub workspaces: Option<Vec<(String, String)>>,
}

/// The parts of `storage.json` that this library reads.
#[derive(Clone, Debug)]
pub struct StorageJson {
    pub backup_workspaces: Option<BackupWorkspaces>,
    pub profile_associations: Option<ProfileAssociations>,
}

/// Whether an optional member is missing or `null`.
pub open spec fn absent(v: Option<Json>) -> bool {
    v is None || v matches Some(Json::Null)
}

/// The URI of a folder entry, where it is an object with a string
/// `folderUri`.
pub open spec fn folder_entry_of(e: Json) -> Option<Seq<char>> {
    if e is Object {
        str_of(field(e, "folderUri"@))
    } else {
        None
    }
}

/// The URIs of folder entries, where every entry has one.
pub open spec fn folder_entries_of(es: Seq<Json>) -> Option<Seq<Seq<char>>>
    decreases es.len(),
{
    if es.len() == 0 {
        Some(Seq::empty())
    } else {
        match (folder_entries_of(es.drop_last()), folder_entry_of(es.last())) {
            (Some(r), Some(u)) => Some(r.push(u)),
            _ => None,
        }
    }
}

proof fn lemma_folder_entries_prefix(es: Seq<Json>, k: int)
    requires
        0 <= k <= es.len(),
        folder_entries_of(es.take(k)) is None,
    ensures
        folder_entries_of(es) is None,
    decreases es.len() - k,
{
    if k == es.len() {
        assert(es.take(k) == es);
    } else {
        assert(es.take(k + 1).drop_last() == es.take(k));
        lemma_folder_entries_prefix(es, k + 1);
    }
}

proof fn lemma_text_members_prefix(ms: Seq<(String, Json)>, k: int)
    requires
        0 <= k <= ms.len(),
        text_members_of(ms.take(k)) is None,
    ensures
        text_members_of(ms) is None,
    decreases ms.len() - k,
{
    if k == ms.len() {
        assert(ms.take(k) == ms);
    } else {
        assert(ms.take(k + 1).drop_last() == ms.take(k));
        lemma_text_members_prefix(ms, k + 1);
    }
}

/// The text values of object members, where every value is a text.
pub open spec fn text_members_of(ms: Seq<(String, Json)>) -> Option<Seq<(Seq<char>, Seq<char>)>>
    decreases ms.len(),
{
    if ms.len() == 0 {
        Some(Seq::empty())
    } else {
        match (text_members_of(ms.drop_last()), str_of(Some(ms.last().1))) {
            (Some(r), Some(v)) => Some(r.push((ms.last().0@, v))),
            _ => None,
        }
    }
}

/// What an optional member that should hold an array of folder entries
/// gives: `Some(None)` where it is absent, `None` where it is malformed.
pub open spec fn folders_member(v: Option<Json>) -> Option<Option<Seq<Seq<char>>>> {
    if absent(v) {
        Some(None)
    } else {
        match array_of(v) {
            Some(es) => match folder_entries_of(es) {
                Some(us) => Some(Some(us)),
                None => None,
            },
            None => None,
        }
    }
}

/// What an optional member that should hold an object of texts gives.
pub open spec fn text_map_member(v: Option<Json>) -> Option<Option<Seq<(Seq<char>, Seq<char>)>>> {
    if absent(v) {
        Some(None)
    } else {
        match v {
            Some(Json::Object(ms)) => match text_members_of(ms@) {
                Some(t) => Some(Some(t)),
                None => None,
            },
            _ => None,
        }
    }
}

/// What an optional section gives, read by `read` where it is an object.
pub open spec fn section_member<A>(v: Option<Json>, read: spec_fn(Json) -> Option<A>) -> Option<Option<A>> {
    if absent(v) {
        Some(None)
    } else {
        match v {
            Some(x) => if x is Object {
                match read(x) {
                    Some(a) => Some(Some(a)),
                    None => None,
                }
            } else {
                None
            },
            None => None,
        }
    }
}

pub struct StorageView {
    pub folders: Option<Option<Seq<Seq<char>>>>,
    pub workspaces: Option<Option<Seq<(Seq<char>, Seq<char>)>>>,
}

/// The view of what was read: each section absent, or present with its list
/// absent or present.
pub open spec fn storage_view(s: StorageJson) -> StorageView {
    StorageView {
        folders: match s.backup_workspaces {
            Some(b) => Some(
                match b.folders {
                    Some(fs) => Some(fs@.map_values(|f: FolderEntry| f.folder_uri@)),
                    None => None,
                },
            ),
            None => None,
        },
        workspaces: match s.profile_associations {
            Some(p) => Some(
                match p.workspaces {
                    Some(ws) => Some(ws@.map_values(|w: (String, String)| (w.0@, w.1@))),
                    None => None,
                },
            ),
            None => None,
        },
    }
}

/// What a `storage.json` document holds, where it is an object whose
/// sections, where present, are well formed.
pub open spec fn storage_of(doc: Json) -> Option<StorageView> {
    if !(doc is Object) {
        None
    } else {
        match (
            section_member(field(doc, "backupWorkspaces"@), |b: Json| folders_member(field(b, "folders"@))),
            section_member(
                field(doc, "profileAssociations"@),
                |p: Json| text_map_member(field(p, "workspaces"@)),
            ),
        ) {
            (Some(f), Some(w)) => Some(StorageView { folders: f, workspaces: w }),
            _ => None,
        }
    }
}

fn is_absent(v: Option<&Json>) -> (r: bool)
    ensures
        r == absent(match v {
            Some(x) => Some(*x),
            None => None,
        }),
{
    match v {
        None => true,
        Some(Json::Null) => true,
        Some(_) => false,
    }
}

fn read_folders(v: Option<&Json>) -> (r: Option<Option<Vec<FolderEntry>>>)
    ensures
        match r {
            Some(Some(fs)) => folders_member(match v {
                Some(x) => Some(*x),
                None => None,
            }) == Some(Some(fs@.map_values(|f: FolderEntry| f.folder_uri@))),
            Some(None) => folders_member(match v {
                Some(x) => Some(*x),
                None => None,
            }) == Some(None::<Seq<Seq<char>>>),
            None => folders_member(match v {
                Some(x) => Some(*x),
                None => None,
            }) is None,
        },
{
    if is_absent(v) {
        return Some(None);
    }
    let es = match v {
        Some(x) => match x.as_array() {
            Some(a) => a,
            None => return None,
        },
        None => return None,
    };
    let mut out: Vec<FolderEntry> = Vec::new();
    let mut i: usize = 0;
    assert(es@.take(0) =~= Seq::<Json>::empty());
    assert(out@.map_values(|f: FolderEntry| f.folder_uri@) =~= Seq::<Seq<char>>::empty());
    let ghost vj = match v {
        Some(x) => Some(*x),
        None => None,
    };
    while i < es.len()
        invariant
            i <= es.len(),
            vj == match v {
                Some(x) => Some(*x),
                None => None,
            },
            !absent(vj),
            array_of(vj) == Some(es@),
            folder_entries_of(es@.take(i as int)) == Some(out@.map_values(|f: FolderEntry| f.folder_uri@)),
        decreases es.len() - i,
    {
        proof {
            reveal_strlit("folderUri");
        }
        assert(es@.take(i + 1).drop_last() == es@.take(i as int));
        assert(es@.take(i + 1).last() == es@[i as int]);
        let e = &es[i];
        let found = match e {
            Json::Object(_) => match e.get("folderUri") {
                Some(u) => match u.as_str() {
                    Some(s) => Some(s.clone()),
                    None => None,
                },
                None => None,
            },
            _ => None,
        };
        let uri = match found {
            Some(u) => u,
            None => {
                proof {
                    assert(folder_entry_of(es@[i as int]) is None);
                    assert(folder_entries_of(es@.take(i + 1)) is None);
                    lemma_folder_entries_prefix(es@, i + 1);
                    assert(folders_member(vj) is None);
                }
                return None;
            },
        };
        let ghost before = out@;
        let ghost uv = uri@;
        out.push(FolderEntry { folder_uri: uri });
        assert(out@.map_values(|f: FolderEntry| f.folder_uri@) =~= before.map_values(
            |f: FolderEntry| f.folder_uri@,
        ).push(uv));
        i = i + 1;
    }
    assert(es@.take(es.len() as int) == es@);
    Some(Some(out))
}

fn read_text_map(v: Option<&Json>) -> (r: Option<Option<Vec<(String, String)>>>)
    ensures
        match r {
            Some(Some(ws)) => text_map_member(match v {
                Some(x) => Some(*x),
                None => None,
            }) == Some(Some(ws@.map_values(|w: (String, String)| (w.0@, w.1@)))),
            Some(None) => text_map_member(match v {
                Some(x) => Some(*x),
                None => None,
            }) == Some(None::<Seq<(Seq<char>, Seq<char>)>>),
            None => text_map_member(match v {
                Some(x) => Some(*x),
                None => None,
            }) is None,
        },
{
    if is_absent(v) {
        return Some(None);
    }
    let ms = match v {
        Some(Json::Object(ms)) => ms,
        _ => return None,
    };
    let mut out: Vec<(String, String)> = Vec::new();
    let mut i: usize = 0;
    assert(ms@.take(0) =~= Seq::<(String, Json)>::empty());
    assert(out@.map_values(|w: (String, String)| (w.0@, w.1@)) =~= Seq::<(Seq<char>, Seq<char>)>::empty());
    let ghost vj = match v {
        Some(x) => Some(*x),
        None => None,
    };
    while i < ms.len()
        invariant
            i <= ms.len(),
            vj == match v {
                Some(x) => Some(*x),
                None => None,
            },
            !absent(vj),
            vj == Some(Json::Object(*ms)),
            text_members_of(ms@.take(i as int)) == Some(out@.map_values(|w: (String, String)| (w.0@, w.1@))),
        decreases ms.len() - i,
    {
        assert(ms@.take(i + 1).drop_last() == ms@.take(i as int));
        assert(ms@.take(i + 1).last() == ms@[i as int]);
        let value = match ms[i].1.as_str() {
            Some(s) => s.clone(),
            None => {
                proof {
                    assert(str_of(Some(ms@[i as int].1)) is None);
                    assert(text_members_of(ms@.take(i + 1)) is None);
                    lemma_text_members_prefix(ms@, i + 1);
                    assert(text_map_member(vj) is None);
                }
                return None;
            },
        };
        let key = ms[i].0.clone();
        let ghost before = out@;
        let ghost kv = (key@, value@);
        out.push((key, value));
        assert(out@.map_values(|w: (String, String)| (w.0@, w.1@)) =~= before.map_values(
            |w: (String, String)| (w.0@, w.1@),
        ).push(kv));
        i = i + 1;
    }
    assert(ms@.take(ms.len() as int) == ms@);
    Some(Some(out))
}

impl StorageJson {
    /// Reads the sections of a `storage.json` document that this library
    /// uses: `None` where the document is not an object or a present section
    /// is malformed.
    pub fn from_document(doc: &Json) -> (r: Option<StorageJson>)
        ensures
            match r {
                Some(s) => storage_of(*doc) == Some(storage_view(s)),
                None => storage_of(*doc) is None,
            },
    {
        proof {
            reveal_strlit("backupWorkspaces");
            reveal_strlit("folders");
            reveal_strlit("profileAssociations");
            reveal_strlit("workspaces");
        }
        match doc {
            Json::Object(_) => {},
            _ => return None,
        }
        let b = doc.get("backupWorkspaces");
        let backup_workspaces = if is_absent(b) {
            None
        } else {
            match b {
                Some(x) => match x {
                    Json::Object(_) => match read_folders(x.get("folders")) {
                        Some(folders) => Some(BackupWorkspaces { folders }),
                        None => return None,
                    },
                    _ => return None,
                },
                None => return None,
            }
        };
        let p = doc.get("profileAssociations");
        let profile_associations = if is_absent(p) {
            None
        } else {
            match p {
                Some(x) => match x {
                    Json::Object(_) => match read_text_map(x.get("workspaces")) {
                        Some(workspaces) => Some(ProfileAssociations { workspaces }),
                        None => return None,
                    },
                    _ => return None,
                },
                None => return None,
            }
        };
        let r = StorageJson { backup_workspaces, profile_associations };
        assert(storage_of(*doc) == Some(storage_view(r)));
        Some(r)
    }

    /// Reads a `storage.json` text; `None` where it is not such a document.
    pub fn from_json(text: &str) -> (r: Option<StorageJson>)
        ensures
            match json_of_text(text@) {
                Some(doc) => match r {
                    Some(s) => storage_of(doc) == Some(storage_view(s)),
                    None => storage_of(doc) is None,
                },
                None => r is None,
            },
    {
        match parse_json(text) {
            Some(doc) => StorageJson::from_document(&doc),
            None => None,
        }
    }
}

} // verus!
