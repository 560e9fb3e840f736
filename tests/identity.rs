use cursor_helper::folder_id::path_to_folder_id;
use cursor_helper::paths::{clean_path, path_to_file_uri, strip_windows_prefix, WorkspaceJson};
use cursor_helper::workspace::{content_hash, creation_millis, normalize_path_for_hash};

#[test]
fn test_simple_path() {
    assert_eq!(
        path_to_folder_id("/Users/me/projects/myapp"),
        "Users-me-projects-myapp"
    );
}

#[test]
fn test_root_path() {
    assert_eq!(path_to_folder_id("/"), "");
}

#[test]
fn test_nested_path() {
    assert_eq!(
        path_to_folder_id("/home/user/dev/rust/cursor-helper"),
        "home-user-dev-rust-cursor-helper"
    );
}

#[test]
fn test_path_with_dots() {
    assert_eq!(
        path_to_folder_id("/Users/me/com.example/my-project"),
        "Users-me-com-example-my-project"
    );
}

#[test]
fn test_hidden_folder() {
    assert_eq!(path_to_folder_id("/Users/me/.config"), "Users-me-config");
}

#[test]
fn test_multiple_dots() {
    assert_eq!(path_to_folder_id("/Users/me/../foo"), "Users-me-foo");
}

#[test]
fn folder_id_is_idempotent() {
    for p in ["/Users/me/.config", "/", "a//b..c--d/", "-x-", "/Users/me/../foo", ""] {
        let once = path_to_folder_id(p);
        assert_eq!(path_to_folder_id(&once), once);
        assert_eq!(path_to_folder_id(p), once);
    }
}

#[test]
fn folder_id_of_cleaned_path() {
    assert_eq!(path_to_folder_id(&clean_path("/Users/me/../foo")), "Users-foo");
}

#[test]
fn folder_id_keeps_multibyte_characters() {
    assert_eq!(path_to_folder_id("/home/usér/projét.v2/"), "home-usér-projét-v2");
}

#[test]
fn test_clean_path_basic() {
    assert_eq!(clean_path("/home/user/project"), "/home/user/project");
}

#[test]
fn test_clean_path_with_current_dir() {
    assert_eq!(clean_path("/home/./user/./project"), "/home/user/project");
}

#[test]
fn test_clean_path_with_parent_dir() {
    assert_eq!(clean_path("/home/user/../admin/project"), "/home/admin/project");
}

#[test]
fn test_clean_path_complex() {
    assert_eq!(
        clean_path("/home/user/./foo/../bar/./baz/../qux"),
        "/home/user/bar/qux"
    );
}

#[test]
fn test_clean_path_windows() {
    assert_eq!(
        clean_path(r"C:\Users\me\..\admin\project"),
        r"C:\Users\admin\project"
    );
}

#[test]
fn clean_path_edges() {
    assert_eq!(clean_path("/"), "/");
    assert_eq!(clean_path("/../a//b/"), "/a/b");
    assert_eq!(clean_path("a/../../b"), "b");
    assert_eq!(clean_path(""), "");
}

#[test]
fn test_strip_windows_prefix() {
    assert_eq!(
        strip_windows_prefix(r"\\?\C:\path\to\project"),
        r"C:\path\to\project"
    );
}

#[test]
fn test_strip_windows_prefix_no_prefix() {
    assert_eq!(strip_windows_prefix(r"C:\path\to\project"), r"C:\path\to\project");
}

#[test]
fn test_strip_windows_prefix_unix() {
    assert_eq!(strip_windows_prefix("/path/to/project"), "/path/to/project");
}

#[test]
fn test_path_to_file_uri_unix() {
    let uri = path_to_file_uri("/home/user/project").unwrap();
    assert_eq!(uri, "file:///home/user/project");
}

#[test]
fn test_path_to_file_uri_with_spaces() {
    let uri = path_to_file_uri("/home/user/my project").unwrap();
    assert_eq!(uri, "file:///home/user/my%20project");
}

#[test]
fn test_path_to_file_uri_windows() {
    let uri = path_to_file_uri(r"C:\Users\me\project").unwrap();
    assert!(uri.starts_with("file:///"));
    assert!(uri.contains("Users"));
}

#[test]
fn file_uri_encodes_reserved_and_multibyte() {
    assert_eq!(
        path_to_file_uri("/a b/#?%/é").unwrap(),
        "file:///a%20b/%23%3F%25/%C3%A9"
    );
    assert_eq!(path_to_file_uri("relative/path"), None);
}

#[test]
fn test_workspace_json_new() {
    let ws = WorkspaceJson::new("/Users/me/projects/myapp").unwrap();
    assert_eq!(ws.folder, "file:///Users/me/projects/myapp");
}

#[test]
fn test_workspace_json_with_spaces() {
    let ws = WorkspaceJson::new("/Users/me/my project").unwrap();
    assert_eq!(ws.folder, "file:///Users/me/my%20project");
}

#[test]
fn test_workspace_json_new_windows() {
    let ws = WorkspaceJson::new("C:\\Users\\me\\projects\\myapp").unwrap();
    assert_eq!(ws.folder, "file:///C:/Users/me/projects/myapp");
}

#[test]
fn test_workspace_json_with_spaces_windows() {
    let ws = WorkspaceJson::new("C:\\Users\\me\\my project").unwrap();
    assert_eq!(ws.folder, "file:///C:/Users/me/my%20project");
}

#[test]
fn test_normalize_path_for_hash_windows() {
    assert_eq!(
        normalize_path_for_hash("C:\\com.github\\project"),
        "c:\\com.github\\project"
    );
    assert_eq!(normalize_path_for_hash("D:\\Users\\me"), "d:\\Users\\me");
}

#[test]
fn test_normalize_path_for_hash_unix() {
    assert_eq!(normalize_path_for_hash("/Users/me/project"), "/Users/me/project");
}

#[test]
fn content_hash_exact_values() {
    assert_eq!(
        content_hash("/Users/me/project", 1700000000123),
        "c7480b5cd6454db2f4f4821a1e396980"
    );
    assert_eq!(
        content_hash("C:\\Users\\me", 1700000000123),
        "064b9c24128f4ef8b51bf9dc5cfd55fe"
    );
}

#[test]
fn content_hash_is_deterministic_and_input_sensitive() {
    let a = content_hash("/Users/me/project", 1700000000123);
    assert_eq!(a, content_hash("/Users/me/project", 1700000000123));
    assert_eq!(
        content_hash("/Users/me/project", 1700000000124),
        "a9ef5dafb22ed332dc708f1738dbbc25"
    );
    assert_eq!(
        content_hash("/Users/me/projecT", 1700000000123),
        "1b2f2fa4c923e6ed8ec051d7a1fa3dd1"
    );
    assert_ne!(a, content_hash("/Users/me/project", 1700000000124));
    assert_eq!(a.len(), 32);
    assert_eq!(
        content_hash("c:\\Users\\me", 1700000000123),
        content_hash("C:\\Users\\me", 1700000000123)
    );
}

#[test]
fn creation_millis_rounds_half_up() {
    assert_eq!(creation_millis(1700000000, 123_400_000), 1700000000123);
    assert_eq!(creation_millis(1700000000, 123_500_000), 1700000000124);
    assert_eq!(creation_millis(0, 999_600_000), 1000);
}
