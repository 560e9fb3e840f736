//! Folder URIs: the `file://` and `vscode-remote://` forms in which the IDE
//! records where a workspace lives, read into a path and an optional remote
//! descriptor, and the `file://` form written for a local path.

use vstd::prelude::*;
use vstd::string::StringExecFns;
use crate::text::{chars_of, find_char, index_of, has_prefix, push_char, starts_with, string_of_range, same_text, opt_view};

verus! {

/// The kind of connection under which a remote folder was opened.
#[derive(Clone, Debug)]
pub enum RemoteType {
    Tunnel,
    SshRemote,
    DevContainer,
    Wsl,
    Unknown(String),
}

/// A remote connection kind, as a value of the specification.
pub enum RemoteKind {
    Tunnel,
    SshRemote,
    DevContainer,
    Wsl,
    Unknown(Seq<char>),
}

impl View for RemoteType {
    type V = RemoteKind;

    open spec fn view(&self) -> RemoteKind {
        match self {
            RemoteType::Tunnel => RemoteKind::Tunnel,
            RemoteType::SshRemote => RemoteKind::SshRemote,
            RemoteType::DevContainer => RemoteKind::DevContainer,
            RemoteType::Wsl => RemoteKind::Wsl,
            RemoteType::Unknown(s) => RemoteKind::Unknown(s@),
        }
    }
}

impl PartialEq for RemoteType {
    fn eq(&self, o: &RemoteType) -> (r: bool) {
        match (self, o) {
            (RemoteType::Tunnel, RemoteType::Tunnel) => true,
            (RemoteType::SshRemote, RemoteType::SshRemote) => true,
            (RemoteType::DevContainer, RemoteType::DevContainer) => true,
            (RemoteType::Wsl, RemoteType::Wsl) => true,
            (RemoteType::Unknown(a), RemoteType::Unknown(b)) => same_text(a.as_str(), b.as_str()),
            _ => false,
        }
    }
}

impl vstd::std_specs::cmp::PartialEqSpecImpl for RemoteType {
    open spec fn obeys_eq_spec() -> bool {
        true
    }

    open spec fn eq_spec(&self, o: &RemoteType) -> bool {
        self@ == o@
    }
}

/// The connection kind that a remote-type token names.
pub open spec fn remote_kind_named(s: Seq<char>) -> RemoteKind {
    if s == "tunnel"@ {
        RemoteKind::Tunnel
    } else if s == "ssh-remote"@ {
        RemoteKind::SshRemote
    } else if s == "dev-container"@ {
        RemoteKind::DevContainer
    } else if s == "wsl"@ {
        RemoteKind::Wsl
    } else {
        RemoteKind::Unknown(s)
    }
}

/// The short label under which a connection kind is shown.
pub open spec fn remote_label(k: RemoteKind) -> Seq<char> {
    match k {
        RemoteKind::Tunnel => "tunnel"@,
        RemoteKind::SshRemote => "ssh"@,
        RemoteKind::DevContainer => "container"@,
        RemoteKind::Wsl => "wsl"@,
        RemoteKind::Unknown(s) => s,
    }
}

impl RemoteType {
    /// The connection kind that a remote-type token names; any other token is
    /// kept as an unknown kind.
    pub fn parse(s: &str) -> (r: RemoteType)
        ensures
            r@ == remote_kind_named(s@),
    {
        proof {
            reveal_strlit("tunnel");
            reveal_strlit("ssh-remote");
            reveal_strlit("dev-container");
            reveal_strlit("wsl");
        }
        if same_text(s, "tunnel") {
            RemoteType::Tunnel
        } else if same_text(s, "ssh-remote") {
            RemoteType::SshRemote
        } else if same_text(s, "dev-container") {
            RemoteType::DevContainer
        } else if same_text(s, "wsl") {
            RemoteType::Wsl
        } else {
            RemoteType::Unknown(String::from_str(s))
        }
    }

    /// The short label under which this kind is shown.
    pub fn label(&self) -> (r: String)
        ensures
            r@ == remote_label(self@),
    {
        proof {
            reveal_strlit("tunnel");
            reveal_strlit("ssh");
            reveal_strlit("container");
            reveal_strlit("wsl");
        }
        match self {
            RemoteType::Tunnel => String::from_str("tunnel"),
            RemoteType::SshRemote => String::from_str("ssh"),
            RemoteType::DevContainer => String::from_str("container"),
            RemoteType::Wsl => String::from_str("wsl"),
            RemoteType::Unknown(s) => s.clone(),
        }
    }
}

/// The remote connection under which a folder was opened.
#[derive(Clone, Debug)]
pub struct RemoteInfo {
    pub remote_type: RemoteType,
    pub name: String,
}

pub struct RemoteInfoView {
    pub remote_type: RemoteKind,
    pub name: Seq<char>,
}

impl View for RemoteInfo {
    type V = RemoteInfoView;

    open spec fn view(&self) -> RemoteInfoView {
        RemoteInfoView { remote_type: self.remote_type@, name: self.name@ }
    }
}

/// Where a workspace folder lives: a path, on this machine where `remote` is
/// `None`, else on the remote that it describes.
#[derive(Clone, Debug)]
pub struct FolderLocation {
    pub path: String,
    pub remote: Option<RemoteInfo>,
}

pub struct FolderLocationView {
    pub path: Seq<char>,
    pub remote: Option<RemoteInfoView>,
}

impl View for FolderLocation {
    type V = FolderLocationView;

    open spec fn view(&self) -> FolderLocationView {
        FolderLocationView {
            path: self.path@,
            remote: match self.remote {
                Some(r) => Some(r@),
                None => None,
            },
        }
    }
}

/// The components of a URL as the `url` crate gives them, not decoded.
#[derive(Clone, Debug)]
pub struct RawUrl {
    pub scheme: String,
    pub username: String,
    pub host: Option<String>,
    pub path: String,
}

/// Whether the `url` crate accepts a text as a URL.
pub uninterp spec fn url_parses(s: Seq<char>) -> bool;

/// The scheme that the `url` crate reads from a text.
pub uninterp spec fn url_scheme_of(s: Seq<char>) -> Seq<char>;

/// The user name that the `url` crate reads from a text.
pub uninterp spec fn url_username_of(s: Seq<char>) -> Seq<char>;

/// The host that the `url` crate reads from a text.
pub uninterp spec fn url_host_of(s: Seq<char>) -> Option<Seq<char>>;

/// The path that the `url` crate reads from a text.
pub uninterp spec fn url_path_of(s: Seq<char>) -> Seq<char>;

/// Relies on `url::Url::parse` and on `Url::scheme`, `Url::username`,
/// `Url::host_str` and `Url::path`: each depends on the text alone.
#[verifier::external_body]
fn parse_url(s: &str) -> (r: Option<RawUrl>)
    ensures
        r is Some == url_parses(s@),
        r matches Some(u) ==> u.scheme@ == url_scheme_of(s@) && u.username@ == url_username_of(s@)
            && opt_view(u.host) == url_host_of(s@) && u.path@ == url_path_of(s@),
{
    url::Url::parse(s).ok().map(
        |u| RawUrl {
            scheme: u.scheme().to_string(),
            username: u.username().to_string(),
            host: u.host_str().map(|h| h.to_string()),
            path: u.path().to_string(),
        },
    )
}

/// What `percent_encoding` makes of a text when it decodes its `%XX`
/// sequences and reads the bytes as UTF-8, replacing what is not.
pub uninterp spec fn percent_decoded_of(s: Seq<char>) -> Seq<char>;

/// Relies on `percent_encoding::percent_decode_str` and
/// `PercentDecode::decode_utf8_lossy`: a text without `%` comes back as it is.
#[verifier::external_body]
fn percent_decode(s: &str) -> (r: String)
    ensures
        r@ == percent_decoded_of(s@),
        !s@.contains('%') ==> r@ == s@,
{
    percent_encoding::percent_decode_str(s).decode_utf8_lossy().into_owned()
}

/// The components of a URL that locating a folder reads: user name and host
/// decoded, the path both as written and decoded.
#[derive(Clone, Debug)]
pub struct UrlParts {
    pub scheme: String,
    pub username: String,
    pub host: Option<String>,
    pub path: String,
    pub decoded_path: String,
}

pub struct UrlPartsView {
    pub scheme: Seq<char>,
    pub username: Seq<char>,
    pub host: Option<Seq<char>>,
    pub path: Seq<char>,
    pub decoded_path: Seq<char>,
}

impl View for UrlParts {
    type V = UrlPartsView;

    open spec fn view(&self) -> UrlPartsView {
        UrlPartsView {
            scheme: self.scheme@,
            username: self.username@,
            host: opt_view(self.host),
            path: self.path@,
            decoded_path: self.decoded_path@,
        }
    }
}

/// The components that are read from a text, where it is a URL.
pub open spec fn url_parts_of(s: Seq<char>) -> Option<UrlPartsView> {
    if url_parses(s) {
        Some(
            UrlPartsView {
                scheme: url_scheme_of(s),
                username: percent_decoded_of(url_username_of(s)),
                host: match url_host_of(s) {
                    Some(h) => Some(percent_decoded_of(h)),
                    None => None,
                },
                path: url_path_of(s),
                decoded_path: percent_decoded_of(url_path_of(s)),
            },
        )
    } else {
        None
    }
}

/// Reads the components of a URL, `None` where the text is not one.
pub fn url_parts(s: &str) -> (r: Option<UrlParts>)
    ensures
        match r {
            Some(u) => url_parts_of(s@) == Some(u@),
            None => url_parts_of(s@) is None,
        },
{
    let raw = match parse_url(s) {
        Some(u) => u,
        None => return None,
    };
    let username = percent_decode(raw.username.as_str());
    let host = match &raw.host {
        Some(h) => Some(percent_decode(h.as_str())),
        None => None,
    };
    let decoded_path = percent_decode(raw.path.as_str());
    Some(UrlParts { scheme: raw.scheme, username, host, path: raw.path, decoded_path })
}

/// Whether `c` is an ASCII letter.
pub open spec fn is_ascii_letter(c: char) -> bool {
    ('a' <= c && c <= 'z') || ('A' <= c && c <= 'Z')
}

/// Whether a URL path names a drive, as `/C:/Users` does.
pub open spec fn is_drive_url_path(p: Seq<char>) -> bool {
    p.len() >= 3 && p[0] == '/' && is_ascii_letter(p[1]) && p[2] == ':'
}

/// `p` with each `from` replaced by `to`.
pub open spec fn replace_char(p: Seq<char>, from: char, to: char) -> Seq<char> {
    p.map_values(|c: char| if c == from { to } else { c })
}

/// The local path that a decoded `file` URL path stands for: a drive path in
/// backslash form, any other path as it is.
pub open spec fn local_path_of(p: Seq<char>) -> Seq<char> {
    if is_drive_url_path(p) {
        replace_char(p.skip(1), '/', '\\')
    } else {
        p
    }
}

/// Whether a `file` URL's host names this machine.
pub open spec fn host_is_local(h: Option<Seq<char>>) -> bool {
    h is None || h == Some(""@) || h == Some("localhost"@)
}

/// The part of `rest` before its first `+`.
pub open spec fn up_to_plus(rest: Seq<char>) -> Seq<char> {
    match index_of(rest, '+') {
        Some(q) => rest.take(q),
        None => rest,
    }
}

/// The remote that a decoded user name and host describe. A user name that
/// begins `dev-container+` marks a container on another remote, whose name is
/// the host's second `+`-separated part; otherwise the host reads
/// `{type}+{name}`. A host without `+` describes no remote.
pub open spec fn remote_of(user: Seq<char>, host: Seq<char>) -> Option<RemoteInfoView> {
    if has_prefix(user, "dev-container+"@) {
        Some(
            RemoteInfoView {
                remote_type: RemoteKind::DevContainer,
                name: match index_of(host, '+') {
                    Some(p) => up_to_plus(host.skip(p + 1)),
                    None => "container"@,
                },
            },
        )
    } else {
        match index_of(host, '+') {
            Some(p) => Some(
                RemoteInfoView { remote_type: remote_kind_named(host.take(p)), name: host.skip(p + 1) },
            ),
            None => None,
        }
    }
}

/// The folder that URL components locate: a `file` URL on this machine gives
/// its local path; a `vscode-remote` URL with a host gives its path, as
/// written, and the remote that it describes; anything else locates nothing.
pub open spec fn location_of_parts(u: UrlPartsView) -> Option<FolderLocationView> {
    if u.scheme == "file"@ {
        if host_is_local(u.host) {
            Some(FolderLocationView { path: local_path_of(u.decoded_path), remote: None })
        } else {
            None
        }
    } else if u.scheme == "vscode-remote"@ {
        match u.host {
            Some(h) => Some(FolderLocationView { path: u.path, remote: remote_of(u.username, h) }),
            None => None,
        }
    } else {
        None
    }
}

/// The folder that a stored URI locates, where it locates one.
pub open spec fn folder_location(s: Seq<char>) -> Option<FolderLocationView> {
    match url_parts_of(s) {
        Some(u) => location_of_parts(u),
        None => None,
    }
}

fn local_path_from(p: &str) -> (r: String)
    ensures
        r@ == local_path_of(p@),
{
    let v = chars_of(p);
    if v.len() >= 3 && v[0] == '/' && (('a' <= v[1] && v[1] <= 'z') || ('A' <= v[1] && v[1] <= 'Z'))
        && v[2] == ':' {
        let mut r = String::new();
        let mut i: usize = 1;
        while i < v.len()
            invariant
                1 <= i <= v.len(),
                v@ == p@,
                r@ == replace_char(p@.skip(1), '/', '\\').take(i - 1),
            decreases v.len() - i,
        {
            let c = if v[i] == '/' {
                '\\'
            } else {
                v[i]
            };
            push_char(&mut r, c);
            i = i + 1;
            assert(replace_char(p@.skip(1), '/', '\\').take(i - 1) =~= replace_char(
                p@.skip(1),
                '/',
                '\\',
            ).take(i - 2).push(c));
        }
        assert(replace_char(p@.skip(1), '/', '\\').take(v.len() - 1) =~= replace_char(
            p@.skip(1),
            '/',
            '\\',
        ));
        r
    } else {
        String::from_str(p)
    }
}

fn remote_from(user: &str, host: &str) -> (r: Option<RemoteInfo>)
    ensures
        match r {
            Some(i) => remote_of(user@, host@) == Some(i@),
            None => remote_of(user@, host@) is None,
        },
{
    proof {
        reveal_strlit("dev-container+");
        reveal_strlit("container");
    }
    let u = chars_of(user);
    let h = chars_of(host);
    let plus = find_char(&h, '+');
    if starts_with(&u, "dev-container+") {
        let name = match plus {
            Some(p) => {
                let rest = string_of_range(&h, p + 1, h.len());
                let rv = chars_of(rest.as_str());
                assert(rv@ == host@.skip(p + 1));
                match find_char(&rv, '+') {
                    Some(q) => string_of_range(&rv, 0, q),
                    None => rest,
                }
            },
            None => String::from_str("container"),
        };
        Some(RemoteInfo { remote_type: RemoteType::DevContainer, name })
    } else {
        match plus {
            Some(p) => {
                let kind = string_of_range(&h, 0, p);
                let name = string_of_range(&h, p + 1, h.len());
                assert(h@.subrange(0, p as int) == host@.take(p as int));
                assert(h@.subrange(p + 1, h.len() as int) == host@.skip(p + 1));
                Some(RemoteInfo { remote_type: RemoteType::parse(kind.as_str()), name })
            },
            None => None,
        }
    }
}

/// The folder that URL components locate.
pub fn location_from_parts(u: &UrlParts) -> (r: Option<FolderLocation>)
    ensures
        match r {
            Some(l) => location_of_parts(u@) == Some(l@),
            None => location_of_parts(u@) is None,
        },
{
    proof {
        reveal_strlit("file");
        reveal_strlit("vscode-remote");
        reveal_strlit("");
        reveal_strlit("localhost");
    }
    if same_text(u.scheme.as_str(), "file") {
        let local = match &u.host {
            Some(h) => same_text(h.as_str(), "") || same_text(h.as_str(), "localhost"),
            None => true,
        };
        if local {
            Some(FolderLocation { path: local_path_from(u.decoded_path.as_str()), remote: None })
        } else {
            None
        }
    } else if same_text(u.scheme.as_str(), "vscode-remote") {
        match &u.host {
            Some(h) => Some(
                FolderLocation {
                    path: u.path.clone(),
                    remote: remote_from(u.username.as_str(), h.as_str()),
                },
            ),
            None => None,
        }
    } else {
        None
    }
}

/// Reads where a stored folder URI points: `None` for a text that is not a
/// URL, for a scheme other than `file` and `vscode-remote`, and for a `file`
/// URL on another host.
pub fn parse_folder_url(s: &str) -> (r: Option<FolderLocation>)
    ensures
        match r {
            Some(l) => folder_location(s@) == Some(l@),
            None => folder_location(s@) is None,
        },
{
    match url_parts(s) {
        Some(u) => location_from_parts(&u),
        None => None,
    }
}

} // verus!
