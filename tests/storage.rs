use std::path::Path;

use cursor_helper::config::{cursor_projects_dir, global_storage_dir, workspace_storage_dir, join_path};
use cursor_helper::folder_uri::{RemoteInfo, RemoteType};
use cursor_helper::manifest::{backup_archive_name, BackupContents, BackupManifest, ManifestError};
use cursor_helper::storage::{storage_changes, StorageJson};
use cursor_helper::projects::{project_order, sort_projects, ProjectOrder};
use cursor_helper::projects::{
    chat_ids_in_keys, chat_panel_prefix, filter_projects, list_summary, orphan_check_path,
    project_from_record, sort_by_size_desc, OrphanedWorkspace, Project,
};

fn last_two(p: &str) -> (String, String) {
    let parts: Vec<String> = Path::new(p)
        .components()
        .map(|c| c.as_os_str().to_string_lossy().to_string())
        .collect();
    let len = parts.len();
    assert!(len >= 2);
    (parts[len - 2].clone(), parts[len - 1].clone())
}

#[test]
fn test_paths_exist() {
    let _ = cursor_projects_dir();
    let _ = workspace_storage_dir();
    let _ = global_storage_dir();
}

#[test]
fn test_cursor_projects_dir_structure() {
    let path = cursor_projects_dir().unwrap();
    let (a, b) = last_two(&path);
    assert_eq!(b, "projects");
    assert_eq!(a, ".cursor");
}

#[test]
fn test_workspace_storage_dir_structure() {
    let path = workspace_storage_dir().unwrap();
    let (a, b) = last_two(&path);
    assert_eq!(b, "workspaceStorage");
    assert_eq!(a, "User");
}

#[test]
fn test_global_storage_dir_structure() {
    let path = global_storage_dir().unwrap();
    let (a, b) = last_two(&path);
    assert_eq!(b, "globalStorage");
    assert_eq!(a, "User");
}

#[test]
fn test_paths_share_common_base() {
    let ws = workspace_storage_dir().unwrap();
    let gs = global_storage_dir().unwrap();
    assert_eq!(Path::new(&ws).parent().unwrap(), Path::new(&gs).parent().unwrap());
}

#[test]
fn joined_paths() {
    assert_eq!(join_path("/home/u/.config", "Cursor"), "/home/u/.config/Cursor");
    assert_eq!(join_path("/home/u/", "x"), "/home/u/x");
}

#[test]
fn test_backup_manifest_serialization() {
    let manifest = BackupManifest {
        version: 1,
        project_path: "/home/user/project".to_string(),
        folder_id: "home-user-project".to_string(),
        workspace_hash: "abc123def456".to_string(),
        created_at: 1704067200,
        includes: BackupContents { workspace_storage: true, projects_data: true },
    };
    let json = manifest.to_json();
    assert!(json.contains("\"version\":1"));
    assert!(json.contains("\"project_path\":\"/home/user/project\""));
    assert!(json.contains("\"workspace_storage\":true"));
}

#[test]
fn test_backup_manifest_deserialization() {
    let json = r#"{
        "version": 1,
        "project_path": "/test/path",
        "folder_id": "test-path",
        "workspace_hash": "hash123",
        "created_at": 1704067200,
        "includes": {
            "workspace_storage": true,
            "projects_data": false
        }
    }"#;
    let manifest = BackupManifest::from_json(json).unwrap();
    assert_eq!(manifest.version, 1);
    assert_eq!(manifest.project_path, "/test/path");
    assert!(manifest.includes.workspace_storage);
    assert!(!manifest.includes.projects_data);
}

#[test]
fn test_backup_contents_default() {
    let contents = BackupContents { workspace_storage: false, projects_data: false };
    assert!(!contents.workspace_storage);
    assert!(!contents.projects_data);
}

#[test]
fn manifest_round_trip_and_errors() {
    let m = BackupManifest::new(
        "/a \"b\"\\\n",
        "a-b",
        "0123",
        -5,
        BackupContents { workspace_storage: false, projects_data: true },
    );
    let text = m.to_json();
    assert_eq!(
        text,
        "{\"version\":1,\"project_path\":\"/a \\\"b\\\"\\\\\\n\",\"folder_id\":\"a-b\",\"workspace_hash\":\"0123\",\"created_at\":-5,\"includes\":{\"workspace_storage\":false,\"projects_data\":true}}"
    );
    let back = BackupManifest::from_json(&text).unwrap();
    assert_eq!(back.project_path, m.project_path);
    assert_eq!(back.created_at, -5);
    assert_eq!(back.includes, m.includes);
    let v2 = text.replacen("\"version\":1", "\"version\":2", 1);
    assert_eq!(BackupManifest::from_json(&v2).unwrap_err(), ManifestError::UnsupportedVersion(2));
    assert_eq!(BackupManifest::from_json("{\"version\":1}").unwrap_err(), ManifestError::Malformed);
    assert_eq!(BackupManifest::from_json("nope").unwrap_err(), ManifestError::Malformed);
    let mut old = m.clone();
    old.version = 0;
    assert_eq!(old.check_version(), Err(ManifestError::UnsupportedVersion(0)));
    assert_eq!(m.check_version(), Ok(()));
}

#[test]
fn archive_names() {
    assert_eq!(backup_archive_name("b"), "b.tar.gz");
    assert_eq!(backup_archive_name("b.tar.gz"), "b.tar.gz");
    assert_eq!(backup_archive_name(".tar.gz"), ".tar.gz");
    assert_eq!(backup_archive_name("b.tar"), "b.tar.tar.gz");
}

#[test]
fn test_orphaned_workspace_struct() {
    let orphaned = OrphanedWorkspace {
        storage_path: "/path/to/storage".to_string(),
        folder_url: "file:///old/project".to_string(),
        size_bytes: 1024 * 1024,
    };
    assert_eq!(orphaned.storage_path, "/path/to/storage");
    assert_eq!(orphaned.folder_url, "file:///old/project");
    assert_eq!(orphaned.size_bytes, 1024 * 1024);
}

#[test]
fn test_orphaned_workspace_debug() {
    let orphaned = OrphanedWorkspace {
        storage_path: "/test".to_string(),
        folder_url: "file:///test".to_string(),
        size_bytes: 0,
    };
    let debug_str = format!("{:?}", orphaned);
    assert!(debug_str.contains("OrphanedWorkspace"));
}

#[test]
fn orphans_checked_and_ordered() {
    assert_eq!(orphan_check_path("file:///old/project"), Some("/old/project".to_string()));
    assert_eq!(orphan_check_path("vscode-remote://ssh-remote+h/x"), None);
    assert_eq!(orphan_check_path("::"), None);
    let o = |p: &str, n: u64| OrphanedWorkspace { storage_path: p.to_string(), folder_url: String::new(), size_bytes: n };
    let sorted = sort_by_size_desc(vec![o("a", 1), o("b", 30), o("c", 2), o("d", 30)]);
    let got: Vec<&str> = sorted.iter().map(|x| x.storage_path.as_str()).collect();
    assert_eq!(got, vec!["b", "d", "c", "a"]);
}

#[test]
fn test_project_struct_fields() {
    let project = Project {
        folder_id: "abc123".to_string(),
        path: "/test/path".to_string(),
        remote: Some(RemoteInfo { remote_type: RemoteType::Tunnel, name: "myserver".to_string() }),
        last_modified: None,
        chat_count: 5,
    };
    assert_eq!(project.folder_id, "abc123");
    assert_eq!(project.chat_count, 5);
    assert!(project.remote.is_some());
}

#[test]
fn projects_from_records_and_filters() {
    let a = project_from_record("h1".to_string(), "file:///home/me/app", Some(5), 2).unwrap();
    let b = project_from_record("h2".to_string(), "vscode-remote://wsl+Ubuntu/home/me/lib", None, 0).unwrap();
    assert!(project_from_record("h3".to_string(), "http://x/y", None, 0).is_none());
    assert_eq!(a.path, "/home/me/app");
    let names = |v: &Vec<Project>| v.iter().map(|p| p.folder_id.clone()).collect::<Vec<_>>();
    let all = vec![a.clone(), b.clone()];
    assert_eq!(names(&filter_projects(all.clone(), "local")), vec!["h1"]);
    assert_eq!(names(&filter_projects(all.clone(), "remote")), vec!["h2"]);
    assert_eq!(names(&filter_projects(all.clone(), "me/l")), vec!["h2"]);
    assert_eq!(names(&filter_projects(all.clone(), "")), vec!["h1", "h2"]);
    assert!(filter_projects(all, "zzz").is_empty());
    assert_eq!(list_summary(2, 5), "Showing 2 of 5 projects");
    assert_eq!(list_summary(5, 5), "5 projects found");
}

#[test]
fn chat_ids_for_clone() {
    let keys: Vec<String> = [
        "workbench.panel.aichat.u1.state",
        "other.key",
        "workbench.panel.aichat.u2",
        "workbench.panel.aichat.u1.more",
        "workbench.panel.aichat..x",
    ]
    .iter()
    .map(|s| s.to_string())
    .collect();
    assert_eq!(chat_ids_in_keys(&keys), vec!["u1".to_string(), "u2".to_string()]);
    assert_eq!(chat_panel_prefix("u1"), "workbench.panel.aichat.u1.");
}

#[test]
fn projects_in_each_order() {
    let p = |id: &str, path: &str, m: Option<u64>, c: usize| Project {
        folder_id: id.to_string(),
        path: path.to_string(),
        remote: None,
        last_modified: m,
        chat_count: c,
    };
    let v = vec![p("a", "/b", Some(1), 3), p("b", "/a", Some(5), 1), p("c", "/c", None, 3), p("d", "/a", Some(1), 0)];
    let ids = |v: Vec<Project>| v.iter().map(|x| x.folder_id.clone()).collect::<Vec<_>>();
    assert_eq!(ids(sort_projects(v.clone(), ProjectOrder::Recency)), vec!["b", "d", "a", "c"]);
    assert_eq!(ids(sort_projects(v.clone(), ProjectOrder::Name)), vec!["b", "d", "a", "c"]);
    assert_eq!(ids(sort_projects(v.clone(), ProjectOrder::Chats)), vec!["a", "c", "b", "d"]);
    assert_eq!(project_order("name"), ProjectOrder::Name);
    assert_eq!(project_order("chats"), ProjectOrder::Chats);
    assert_eq!(project_order("modified"), ProjectOrder::Recency);
    let names = vec![p("1", "/ab", None, 0), p("2", "/a", None, 0), p("3", "/B", None, 0)];
    assert_eq!(ids(sort_projects(names, ProjectOrder::Name)), vec!["3", "2", "1"]);
}

#[test]
fn storage_references_to_a_folder() {
    let text = r#"{
        "backupWorkspaces": {"folders": [
            {"folderUri": "file:///old/path"},
            {"folderUri": "file:///other/path"},
            {"folderUri": "file:///old/path"}
        ]},
        "profileAssociations": {"workspaces": {"file:///old/path": "__default__profile__"}}
    }"#;
    let c = storage_changes(text, "file:///old/path").unwrap().unwrap();
    assert_eq!(c.folder_entries, vec![0, 2]);
    assert!(c.association);
    let other = storage_changes(text, "file:///other/path").unwrap().unwrap();
    assert_eq!(other.folder_entries, vec![1]);
    assert!(!other.association);
    assert!(storage_changes(text, "file:///none").unwrap().is_none());
    assert!(storage_changes("{oops", "x").is_none());
}

#[test]
fn storage_json_sections() {
    let text = r#"{
        "backupWorkspaces": {"folders": [{"folderUri": "file:///a"}, {"folderUri": "file:///b", "x": 1}]},
        "profileAssociations": {"workspaces": {"file:///a": "__default__profile__"}},
        "other": [1, 2]
    }"#;
    let s = StorageJson::from_json(text).unwrap();
    let folders = s.backup_workspaces.unwrap().folders.unwrap();
    let uris: Vec<&str> = folders.iter().map(|f| f.folder_uri.as_str()).collect();
    assert_eq!(uris, vec!["file:///a", "file:///b"]);
    let ws = s.profile_associations.unwrap().workspaces.unwrap();
    assert_eq!(ws, vec![("file:///a".to_string(), "__default__profile__".to_string())]);
    let empty = StorageJson::from_json(r#"{"backupWorkspaces": null}"#).unwrap();
    assert!(empty.backup_workspaces.is_none() && empty.profile_associations.is_none());
    let no_folders = StorageJson::from_json(r#"{"backupWorkspaces": {}}"#).unwrap();
    assert!(no_folders.backup_workspaces.unwrap().folders.is_none());
    assert!(StorageJson::from_json(r#"{"backupWorkspaces": {"folders": [{"folderUri": 3}]}}"#).is_none());
    assert!(StorageJson::from_json(r#"{"profileAssociations": {"workspaces": {"k": 1}}}"#).is_none());
    assert!(StorageJson::from_json("[]").is_none());
}
