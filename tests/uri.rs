use cursor_helper::folder_uri::{parse_folder_url, RemoteType};
use cursor_helper::locator::{
    find_workspace, normalize_uri_for_comparison, normalize_uri_windows, LocateError, WorkspaceEntry,
};
use cursor_helper::paths::path_to_file_uri;

#[test]
fn test_parse_local_url() {
    let parsed = parse_folder_url("file:///Users/me/projects/myapp").unwrap();
    assert_eq!(parsed.path, "/Users/me/projects/myapp");
    assert!(parsed.remote.is_none());
}

#[test]
fn test_parse_local_url_with_spaces() {
    let parsed = parse_folder_url("file:///Users/me/my%20project").unwrap();
    assert_eq!(parsed.path, "/Users/me/my project");
    assert!(parsed.remote.is_none());
}

#[test]
fn test_parse_local_url_windows() {
    let parsed = parse_folder_url("file:///C:/Users/me/projects/myapp").unwrap();
    assert_eq!(parsed.path, "C:\\Users\\me\\projects\\myapp");
    assert!(parsed.remote.is_none());
}

#[test]
fn test_parse_local_url_with_spaces_windows() {
    let parsed = parse_folder_url("file:///C:/Users/me/my%20project").unwrap();
    assert_eq!(parsed.path, "C:\\Users\\me\\my project");
    assert!(parsed.remote.is_none());
}

#[test]
fn test_parse_tunnel_url() {
    let parsed = parse_folder_url("vscode-remote://tunnel+myserver/home/user/data/project").unwrap();
    assert_eq!(parsed.path, "/home/user/data/project");
    let remote = parsed.remote.unwrap();
    assert_eq!(remote.remote_type, RemoteType::Tunnel);
    assert_eq!(remote.name, "myserver");
}

#[test]
fn test_parse_ssh_remote_url() {
    let parsed = parse_folder_url("vscode-remote://ssh-remote+myhost/home/user/project").unwrap();
    assert_eq!(parsed.path, "/home/user/project");
    let remote = parsed.remote.unwrap();
    assert_eq!(remote.remote_type, RemoteType::SshRemote);
    assert_eq!(remote.name, "myhost");
}

#[test]
fn test_parse_percent_encoded_tunnel_url() {
    let parsed =
        parse_folder_url("vscode-remote://tunnel%2Bdev-server/home/user/.config/myapp").unwrap();
    assert_eq!(parsed.path, "/home/user/.config/myapp");
    let remote = parsed.remote.unwrap();
    assert_eq!(remote.remote_type, RemoteType::Tunnel);
    assert_eq!(remote.name, "dev-server");
}

#[test]
fn test_parse_dev_container_on_ssh() {
    let parsed = parse_folder_url(
        "vscode-remote://dev-container%2Bconfig@ssh-remote%2Bwin11-wsl/workspaces/project",
    )
    .unwrap();
    assert_eq!(parsed.path, "/workspaces/project");
    let remote = parsed.remote.unwrap();
    assert_eq!(remote.remote_type, RemoteType::DevContainer);
    assert_eq!(remote.name, "win11-wsl");
}

#[test]
fn test_parse_wsl_url() {
    let parsed = parse_folder_url("vscode-remote://wsl+Ubuntu/home/user/project").unwrap();
    assert_eq!(parsed.path, "/home/user/project");
    let remote = parsed.remote.unwrap();
    assert_eq!(remote.remote_type, RemoteType::Wsl);
    assert_eq!(remote.name, "Ubuntu");
}

#[test]
fn test_parse_invalid_scheme() {
    assert!(parse_folder_url("http://example.com/path").is_none());
    assert!(parse_folder_url("ftp://server/path").is_none());
}

#[test]
fn test_parse_invalid_url() {
    assert!(parse_folder_url("not a url at all").is_none());
}

#[test]
fn tunnel_scenario_and_encoded_plus() {
    let a = parse_folder_url("vscode-remote://tunnel+myserver/home/user/project").unwrap();
    let b = parse_folder_url("vscode-remote://tunnel%2Bmyserver/home/user/project").unwrap();
    assert_eq!(a.path, "/home/user/project");
    assert_eq!(b.path, a.path);
    let (ra, rb) = (a.remote.unwrap(), b.remote.unwrap());
    assert_eq!(ra.remote_type, RemoteType::Tunnel);
    assert_eq!(ra.name, "myserver");
    assert_eq!(rb.remote_type, ra.remote_type);
    assert_eq!(rb.name, ra.name);
}

#[test]
fn remote_without_plus_and_unknown_type() {
    let plain = parse_folder_url("vscode-remote://somehost/srv/app").unwrap();
    assert_eq!(plain.path, "/srv/app");
    assert!(plain.remote.is_none());
    let odd = parse_folder_url("vscode-remote://codespaces+abc+def/w").unwrap();
    let r = odd.remote.unwrap();
    assert_eq!(r.remote_type, RemoteType::Unknown("codespaces".to_string()));
    assert_eq!(r.name, "abc+def");
}

#[test]
fn file_url_on_other_host_is_not_local() {
    assert!(parse_folder_url("file://server/share/x").is_none());
    assert_eq!(parse_folder_url("file://localhost/tmp/x").unwrap().path, "/tmp/x");
}

#[test]
fn format_then_parse_round_trip() {
    for p in ["/Users/me/projects/myapp", "/Users/me/my project", "/srv/a-b_c.d~e"] {
        let uri = path_to_file_uri(p).unwrap();
        let back = parse_folder_url(&uri).unwrap();
        assert_eq!(back.path, p);
        assert!(back.remote.is_none());
    }
    assert_eq!(path_to_file_uri("/Users/me/my project").unwrap(), "file:///Users/me/my%20project");
    let win = path_to_file_uri(r"C:\Users\me\my project").unwrap();
    assert_eq!(parse_folder_url(&win).unwrap().path, r"C:\Users\me\my project");
}

#[test]
fn test_remote_type_parse() {
    assert_eq!(RemoteType::parse("tunnel"), RemoteType::Tunnel);
    assert_eq!(RemoteType::parse("ssh-remote"), RemoteType::SshRemote);
    assert_eq!(RemoteType::parse("dev-container"), RemoteType::DevContainer);
    assert_eq!(RemoteType::parse("wsl"), RemoteType::Wsl);
    assert_eq!(
        RemoteType::parse("unknown-type"),
        RemoteType::Unknown("unknown-type".to_string())
    );
}

#[test]
fn test_remote_type_display() {
    assert_eq!(RemoteType::Tunnel.label(), "tunnel");
    assert_eq!(RemoteType::SshRemote.label(), "ssh");
    assert_eq!(RemoteType::DevContainer.label(), "container");
    assert_eq!(RemoteType::Wsl.label(), "wsl");
    assert_eq!(RemoteType::Unknown("custom".to_string()).label(), "custom");
}

#[test]
fn test_normalize_uri_windows_case_insensitive() {
    let upper = normalize_uri_windows("file:///C:/path/to/project");
    let lower = normalize_uri_windows("file:///c:/path/to/project");
    assert_eq!(upper, lower);
}

#[test]
fn test_normalize_uri_windows_percent_encoding() {
    let encoded = normalize_uri_windows("file:///c%3A/path/to/project");
    let decoded = normalize_uri_windows("file:///c:/path/to/project");
    assert_eq!(encoded, decoded);
}

#[test]
fn test_normalize_uri_windows_trailing_slash() {
    let with_slash = normalize_uri_windows("file:///c:/path/");
    let without_slash = normalize_uri_windows("file:///c:/path");
    assert_eq!(with_slash, without_slash);
}

#[test]
fn normalize_uri_exact_forms() {
    assert_eq!(normalize_uri_windows("file:///C%3A/Path//"), "file:///c:/path");
    assert_eq!(normalize_uri_for_comparison("file:///C:/Path//", false), "file:///C:/Path");
    assert_eq!(normalize_uri_for_comparison("file:///C:/Path/", true), "file:///c:/path");
}

fn entry(id: &str, folder: &str) -> WorkspaceEntry {
    WorkspaceEntry { storage_id: id.to_string(), folder: folder.to_string() }
}

#[test]
fn test_find_workspace_dir_nonexistent() {
    let result = find_workspace(&vec![], "/nonexistent/path/that/does/not/exist", false, false);
    assert!(result.is_ok());
    assert!(result.unwrap().is_none());
}

#[test]
fn locator_not_found_for_missing_remote_path() {
    let index = vec![entry("a1", "file:///home/user/other"), entry("b2", "vscode-remote://ssh-remote+h/srv/x")];
    assert_eq!(find_workspace(&index, "/nonexistent/path", false, false), Ok(None));
}

#[test]
fn locator_finds_single_local_entry() {
    let index = vec![entry("abc123", "file:///Users/me/my%20project/")];
    assert_eq!(
        find_workspace(&index, "/Users/me/my project", true, false),
        Ok(Some("abc123".to_string()))
    );
}

#[test]
fn locator_drive_letter_case_on_case_insensitive_platform() {
    let index = vec![entry("win1", "file:///c%3A/Users/me/proj")];
    assert_eq!(
        find_workspace(&index, r"C:\Users\me\proj", true, true),
        Ok(Some("win1".to_string()))
    );
    assert_eq!(find_workspace(&index, r"C:\Users\me\proj", true, false), Ok(None));
}

#[test]
fn locator_remote_full_path_before_name() {
    let index = vec![
        entry("byname", "vscode-remote://tunnel+a/other/project"),
        entry("bypath", "vscode-remote://tunnel+b/home/user/project/"),
    ];
    assert_eq!(
        find_workspace(&index, "/home/user/project", false, false),
        Ok(Some("bypath".to_string()))
    );
    assert_eq!(
        find_workspace(&index, "/elsewhere/project", false, false),
        Ok(Some("byname".to_string()))
    );
}

#[test]
fn locator_relative_local_path_is_an_error() {
    assert_eq!(find_workspace(&vec![], "relative", true, false), Err(LocateError::InvalidPath));
}
