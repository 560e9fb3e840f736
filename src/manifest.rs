//! The manifest of a backup: which project it was taken of, under which
//! identifiers, and which kinds of data it holds.

use vstd::prelude::*;
use vstd::string::StringExecFns;
use crate::json::{Json, field, str_of, int_of, bool_of, parse_json, json_of_text, text_member, int_member, bool_member};
use crate::text::{chars_of, push_char, push_str, push_decimal, push_signed_decimal, push_hex_digit, hex_digit, decimal, signed_decimal, opt_view};

verus! {

/// The one manifest version that this library reads and writes.
pub const MANIFEST_VERSION: u32 = 1;

/// Which kinds of data a backup holds.
#[derive(Clone, Copy, Debug, PartialEq, Eq, Structural)]
pub struct BackupContents {
    pub workspace_storage: bool,
    pub projects_data: bool,
}

/// The manifest of a backup.
#[derive(Clone, Debug)]
pub struct BackupManifest {
    pub version: u32,
    pub project_path: String,
    pub folder_id: String,
    pub workspace_hash: String,
    pub created_at: i64,
    pub includes: BackupContents,
}

pub struct BackupManifestView {
    pub version: u32,
    pub project_path: Seq<char>,
    pub folder_id: Seq<char>,
    pub workspace_hash: Seq<char>,
    pub created_at: i64,
    pub includes: BackupContents,
}

impl View for BackupManifest {
    type V = BackupManifestView;

    open spec fn view(&self) -> BackupManifestView {
        BackupManifestView {
            version: self.version,
            project_path: self.project_path@,
            folder_id: self.folder_id@,
            workspace_hash: self.workspace_hash@,
            created_at: self.created_at,
            includes: self.includes,
        }
    }
}

/// Why a manifest cannot be used.
#[derive(Clone, Copy, Debug, PartialEq, Eq, Structural)]
pub enum ManifestError {
    /// The text is not a manifest: not JSON, or a field is missing or of
    /// another type.
    Malformed,
    /// The manifest is of a version that this library does not know.
    UnsupportedVersion(u32),
}

impl BackupManifest {
    /// The manifest, of the current version, of a backup of `project_path`.
    pub fn new(project_path: &str, folder_id: &str, workspace_hash: &str, created_at: i64, includes: BackupContents) -> (r: BackupManifest)
        ensures
            r@ == (BackupManifestView {
                version: MANIFEST_VERSION,
                project_path: project_path@,
                folder_id: folder_id@,
                workspace_hash: workspace_hash@,
                created_at,
                includes,
            }),
    {
        BackupManifest {
            version: MANIFEST_VERSION,
            project_path: String::from_str(project_path),
            folder_id: String::from_str(folder_id),
            workspace_hash: String::from_str(workspace_hash),
            created_at,
            includes,
        }
    }

    /// Accepts a manifest of the known version; any other version is refused.
    pub fn check_version(&self) -> (r: Result<(), ManifestError>)
        ensures
            r is Ok <==> self.version == MANIFEST_VERSION,
            r is Err ==> r == Err::<(), ManifestError>(ManifestError::UnsupportedVersion(self.version)),
    {
        if self.version == MANIFEST_VERSION {
            Ok(())
        } else {
            Err(ManifestError::UnsupportedVersion(self.version))
        }
    }
}

/// A character inside a JSON string: `"` and `\` escaped, the control
/// characters with a short escape where there is one and as `\u00xx`
/// otherwise, every other character as it is.
pub open spec fn json_char(c: char) -> Seq<char> {
    if c == '"' {
        seq!['\\', '"']
    } else if c == '\\' {
        seq!['\\', '\\']
    } else if c == '\n' {
        seq!['\\', 'n']
    } else if c == '\r' {
        seq!['\\', 'r']
    } else if c == '\t' {
        seq!['\\', 't']
    } else if c == '\u{8}' {
        seq!['\\', 'b']
    } else if c == '\u{c}' {
        seq!['\\', 'f']
    } else if c <= '\u{1f}' {
        seq!['\\', 'u', '0', '0', hex_digit(((c as u8) / 16) as u8, true), hex_digit(((c as u8) % 16) as u8, true)]
    } else {
        seq![c]
    }
}

/// The inside of a JSON string holding `s`.
pub open spec fn json_chars(s: Seq<char>) -> Seq<char>
    decreases s.len(),
{
    if s.len() == 0 {
        Seq::empty()
    } else {
        json_chars(s.drop_last()) + json_char(s.last())
    }
}

/// The JSON string holding `s`.
pub open spec fn json_string(s: Seq<char>) -> Seq<char> {
    "\""@ + json_chars(s) + "\""@
}

fn push_json_string(out: &mut String, s: &str)
    ensures
        final(out)@ == old(out)@ + json_string(s@),
{
    let v = chars_of(s);
    push_char(out, '"');
    let ghost start = out@;
    let mut i: usize = 0;
    while i < v.len()
        invariant
            i <= v.len(),
            v@ == s@,
            out@ == start + json_chars(s@.take(i as int)),
        decreases v.len() - i,
    {
        assert(s@.take(i + 1).drop_last() == s@.take(i as int));
        let c = v[i];
        let ghost before = out@;
        if c == '"' {
            push_char(out, '\\');
            push_char(out, '"');
        } else if c == '\\' {
            push_char(out, '\\');
            push_char(out, '\\');
        } else if c == '\n' {
            push_char(out, '\\');
            push_char(out, 'n');
        } else if c == '\r' {
            push_char(out, '\\');
            push_char(out, 'r');
        } else if c == '\t' {
            push_char(out, '\\');
            push_char(out, 't');
        } else if c == '\u{8}' {
            push_char(out, '\\');
            push_char(out, 'b');
        } else if c == '\u{c}' {
            push_char(out, '\\');
            push_char(out, 'f');
        } else if c <= '\u{1f}' {
            push_char(out, '\\');
            push_char(out, 'u');
            push_char(out, '0');
            push_char(out, '0');
            push_hex_digit(out, (c as u8) / 16, true);
            push_hex_digit(out, (c as u8) % 16, true);
        } else {
            push_char(out, c);
        }
        assert(out@ =~= before + json_char(c));
        i = i + 1;
    }
    assert(s@.take(v.len() as int) == s@);
    push_char(out, '"');
    proof {
        reveal_strlit("\"");
    }
    assert(final(out)@ =~= old(out)@ + json_string(s@));
}

/// A JSON boolean.
pub open spec fn json_bool(b: bool) -> Seq<char> {
    if b {
        "true"@
    } else {
        "false"@
    }
}

fn push_json_bool(out: &mut String, b: bool)
    ensures
        final(out)@ == old(out)@ + json_bool(b),
{
    if b {
        push_str(out, "true");
    } else {
        push_str(out, "false");
    }
}

/// The JSON text of a manifest, on one line, its members in a fixed order.
pub open spec fn manifest_json(m: BackupManifestView) -> Seq<char> {
    "{\"version\":"@ + decimal(m.version as u64) + ",\"project_path\":"@ + json_string(m.project_path)
        + ",\"folder_id\":"@ + json_string(m.folder_id) + ",\"workspace_hash\":"@ + json_string(
        m.workspace_hash,
    ) + ",\"created_at\":"@ + signed_decimal(m.created_at) + ",\"includes\":{\"workspace_storage\":"@
        + json_bool(m.includes.workspace_storage) + ",\"projects_data\":"@ + json_bool(
        m.includes.projects_data,
    ) + "}}"@
}

impl BackupManifest {
    /// Writes this manifest as JSON text.
    pub fn to_json(&self) -> (r: String)
        ensures
            r@ == manifest_json(self@),
    {
        let mut s = String::from_str("{\"version\":");
        push_decimal(&mut s, self.version as u64);
        push_str(&mut s, ",\"project_path\":");
        push_json_string(&mut s, self.project_path.as_str());
        push_str(&mut s, ",\"folder_id\":");
        push_json_string(&mut s, self.folder_id.as_str());
        push_str(&mut s, ",\"workspace_hash\":");
        push_json_string(&mut s, self.workspace_hash.as_str());
        push_str(&mut s, ",\"created_at\":");
        push_signed_decimal(&mut s, self.created_at);
        push_str(&mut s, ",\"includes\":{\"workspace_storage\":");
        push_json_bool(&mut s, self.includes.workspace_storage);
        push_str(&mut s, ",\"projects_data\":");
        push_json_bool(&mut s, self.includes.projects_data);
        push_str(&mut s, "}}");
        assert(s@ =~= manifest_json(self@));
        s
    }
}

/// The manifest that a JSON document describes, where each field is there
/// with its type: the version an integer that fits `u32`, the creation time
/// one that fits `i64`.
pub open spec fn manifest_of(doc: Json) -> Option<BackupManifestView> {
    match (int_of(field(doc, "version"@)), str_of(field(doc, "project_path"@)), str_of(
        field(doc, "folder_id"@),
    ), str_of(field(doc, "workspace_hash"@)), int_of(field(doc, "created_at"@)), field(
        doc,
        "includes"@,
    )) {
        (Some(v), Some(p), Some(f), Some(h), Some(c), Some(inc)) => if 0 <= v <= u32::MAX {
            match (bool_of(field(inc, "workspace_storage"@)), bool_of(field(inc, "projects_data"@))) {
                (Some(w), Some(d)) => Some(
                    BackupManifestView {
                        version: v as u32,
                        project_path: p,
                        folder_id: f,
                        workspace_hash: h,
                        created_at: c,
                        includes: BackupContents { workspace_storage: w, projects_data: d },
                    },
                ),
                _ => None,
            }
        } else {
            None
        },
        _ => None,
    }
}

/// What reading a manifest text gives: the manifest, where the text is a
/// manifest of the known version.
pub open spec fn manifest_read(text: Seq<char>) -> Result<BackupManifestView, ManifestError> {
    match json_of_text(text) {
        Some(doc) => match manifest_of(doc) {
            Some(m) => if m.version == MANIFEST_VERSION {
                Ok(m)
            } else {
                Err(ManifestError::UnsupportedVersion(m.version))
            },
            None => Err(ManifestError::Malformed),
        },
        None => Err(ManifestError::Malformed),
    }
}

/// Reads the manifest that a JSON document describes.
pub fn manifest_from_document(doc: &Json) -> (r: Option<BackupManifest>)
    ensures
        match r {
            Some(m) => manifest_of(*doc) == Some(m@),
            None => manifest_of(*doc) is None,
        },
{
    let v = match int_member(doc, "version") {
        Some(v) => v,
        None => return None,
    };
    let p = match text_member(doc, "project_path") {
        Some(p) => p,
        None => return None,
    };
    let f = match text_member(doc, "folder_id") {
        Some(f) => f,
        None => return None,
    };
    let h = match text_member(doc, "workspace_hash") {
        Some(h) => h,
        None => return None,
    };
    let c = match int_member(doc, "created_at") {
        Some(c) => c,
        None => return None,
    };
    let inc = match doc.get("includes") {
        Some(i) => i,
        None => return None,
    };
    if v < 0 || v > u32::MAX as i64 {
        return None;
    }
    let w = match bool_member(inc, "workspace_storage") {
        Some(w) => w,
        None => return None,
    };
    let d = match bool_member(inc, "projects_data") {
        Some(d) => d,
        None => return None,
    };
    Some(BackupManifest {
        version: v as u32,
        project_path: p,
        folder_id: f,
        workspace_hash: h,
        created_at: c,
        includes: BackupContents { workspace_storage: w, projects_data: d },
    })
}

impl BackupManifest {
    /// Reads a manifest from JSON text. A text that is not a manifest is
    /// malformed; a manifest of another version is refused, never read as if
    /// it were of this one.
    pub fn from_json(text: &str) -> (r: Result<BackupManifest, ManifestError>)
        ensures
            match r {
                Ok(m) => manifest_read(text@) == Ok::<BackupManifestView, ManifestError>(m@),
                Err(e) => manifest_read(text@) == Err::<BackupManifestView, ManifestError>(e),
            },
    {
        let doc = match parse_json(text) {
            Some(d) => d,
            None => return Err(ManifestError::Malformed),
        };
        match manifest_from_document(&doc) {
            Some(m) => match m.check_version() {
                Ok(()) => Ok(m),
                Err(e) => Err(e),
            },
            None => Err(ManifestError::Malformed),
        }
    }
}

/// The file name of a backup archive: `name`, with `.tar.gz` added where it
/// does not end so.
pub open spec fn archive_name(name: Seq<char>) -> Seq<char> {
    if name.len() >= 7 && name.skip(name.len() - 7) == ".tar.gz"@ {
        name
    } else {
        name + ".tar.gz"@
    }
}

/// The file name of a backup archive asked for as `name`.
pub fn backup_archive_name(name: &str) -> (r: String)
    ensures
        r@ == archive_name(name@),
{
    proof {
        reveal_strlit(".tar.gz");
    }
    let v = chars_of(name);
    let n = v.len();
    let ends = n >= 7 && v[n - 7] == '.' && v[n - 6] == 't' && v[n - 5] == 'a' && v[n - 4] == 'r'
        && v[n - 3] == '.' && v[n - 2] == 'g' && v[n - 1] == 'z';
    if ends {
        assert(name@.skip(n - 7) =~= ".tar.gz"@);
        String::from_str(name)
    } else {
        proof {
            if n >= 7 && name@.skip(n - 7) == ".tar.gz"@ {
                assert(name@.skip(n - 7)[0] == '.');
                assert(name@.skip(n - 7)[1] == 't');
                assert(name@.skip(n - 7)[2] == 'a');
                assert(name@.skip(n - 7)[3] == 'r');
                assert(name@.skip(n - 7)[4] == '.');
                assert(name@.skip(n - 7)[5] == 'g');
                assert(name@.skip(n - 7)[6] == 'z');
            }
        }
        let mut r = String::from_str(name);
        push_str(&mut r, ".tar.gz");
        r
    }
}

} // verus!
