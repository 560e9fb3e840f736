//! Where the IDE keeps its data on this machine.

use vstd::prelude::*;
use vstd::string::StringExecFns;
use crate::text::push_str;

verus! {

/// Relies on `dirs::config_dir`: the directory of this user's configuration,
/// which depends on the platform and the environment.
#[verifier::external_body]
fn user_config_dir() -> (r: Option<String>) {
    dirs::config_dir().map(|p| p.to_string_lossy().into_owned())
}

/// Relies on `dirs::home_dir`: this user's home directory, which depends on
/// the platform and the environment.
#[verifier::external_body]
fn user_home_dir() -> (r: Option<String>) {
    dirs::home_dir().map(|p| p.to_string_lossy().into_owned())
}

/// `base` and `rest` joined by one `/`.
pub open spec fn path_join(base: Seq<char>, rest: Seq<char>) -> Seq<char> {
    if base.len() > 0 && base.last() == '/' {
        base + rest
    } else {
        base + "/"@ + rest
    }
}

/// Joins a directory and a relative path.
pub fn join_path(base: &str, rest: &str) -> (r: String)
    ensures
        r@ == path_join(base@, rest@),
{
    let mut r = String::from_str(base);
    let v = crate::text::chars_of(base);
    if !(v.len() > 0 && v[v.len() - 1] == '/') {
        push_str(&mut r, "/");
    }
    push_str(&mut r, rest);
    r
}

/// The workspace storage under a configuration directory.
pub fn workspace_storage_dir_in(config: &str) -> (r: String)
    ensures
        r@ == path_join(config@, "Cursor/User/workspaceStorage"@),
{
    join_path(config, "Cursor/User/workspaceStorage")
}

/// The global storage under a configuration directory.
pub fn global_storage_dir_in(config: &str) -> (r: String)
    ensures
        r@ == path_join(config@, "Cursor/User/globalStorage"@),
{
    join_path(config, "Cursor/User/globalStorage")
}

/// The projects area under a home directory.
pub fn projects_dir_in(home: &str) -> (r: String)
    ensures
        r@ == path_join(home@, ".cursor/projects"@),
{
    join_path(home, ".cursor/projects")
}

/// The IDE's workspace storage, `Cursor/User/workspaceStorage` under this
/// user's configuration directory, where there is one.
pub fn workspace_storage_dir() -> (r: Option<String>)
    ensures
        r matches Some(p) ==> exists|c: Seq<char>| p@ == path_join(c, "Cursor/User/workspaceStorage"@),
{
    match user_config_dir() {
        Some(c) => Some(workspace_storage_dir_in(c.as_str())),
        None => None,
    }
}

/// The IDE's global storage, `Cursor/User/globalStorage` under this user's
/// configuration directory, where there is one.
pub fn global_storage_dir() -> (r: Option<String>)
    ensures
        r matches Some(p) ==> exists|c: Seq<char>| p@ == path_join(c, "Cursor/User/globalStorage"@),
{
    match user_config_dir() {
        Some(c) => Some(global_storage_dir_in(c.as_str())),
        None => None,
    }
}

/// The IDE's projects area, `.cursor/projects` under this user's home
/// directory, where there is one.
pub fn cursor_projects_dir() -> (r: Option<String>)
    ensures
        r matches Some(p) ==> exists|h: Seq<char>| p@ == path_join(h, ".cursor/projects"@),
{
    match user_home_dir() {
        Some(h) => Some(projects_dir_in(h.as_str())),
        None => None,
    }
}

} // verus!
