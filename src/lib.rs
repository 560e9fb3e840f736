//! Workspace identity resolution and chat-session reconstruction for the
//! metadata that a locally installed IDE keeps per project.
//!
//! - `folder_id`: the path-slug identifier of a project.
//! - `workspace`: the content hash of a project (MD5 of its path and creation
//!   time).
//! - `paths`: drive and POSIX paths, `.`/`..` resolution, `file` URIs.
//! - `folder_uri`: reading stored `file://` and `vscode-remote://` URIs.
//! - `locator`: finding a project's storage among the workspace index.
//! - `json`: the plain JSON model that the record readers work on.
//! - `sessions`: the composer index, message records and conversations.
//! - `markdown`: the human-readable rendering of an export.
//! - `manifest`: the manifest of a backup.
//! - `projects`: listing, ordering and cleaning projects; chat identifiers.
//! - `storage`: references to a folder in the global `storage.json`.
//! - `stats`, `config`, `text`: statistics, data locations, and text helpers.

pub mod text;
pub mod folder_id;
pub mod json;
pub mod sessions;
pub mod folder_uri;
pub mod paths;
pub mod workspace;
pub mod locator;
pub mod markdown;
pub mod stats;
pub mod config;
pub mod manifest;
pub mod projects;
pub mod storage;
