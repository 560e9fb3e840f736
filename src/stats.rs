//! Usage statistics of a project, and how sizes are shown.

use vstd::prelude::*;
use crate::markdown::{div_round_even, tenths_text};
use crate::text::{decimal, push_char, push_decimal, push_str};

verus! {

/// Usage statistics of a project.
#[derive(Clone, Debug)]
pub struct Stats {
    pub project_path: String,
    pub chat_sessions: usize,
    pub workspace_size: u64,
    pub projects_size: u64,
    pub folder_id: String,
    pub workspace_hash: Option<String>,
}

impl Default for Stats {
    /// No project, nothing counted.
    fn default() -> (r: Stats)
        ensures
            r.project_path@.len() == 0,
            r.chat_sessions == 0,
            r.workspace_size == 0,
            r.projects_size == 0,
            r.folder_id@.len() == 0,
            r.workspace_hash is None,
    {
        Stats {
            project_path: String::new(),
            chat_sessions: 0,
            workspace_size: 0,
            projects_size: 0,
            folder_id: String::new(),
            workspace_hash: None,
        }
    }
}

/// Bytes in a kilobyte, a megabyte and a gigabyte.
pub const KB: u64 = 1024;
pub const MB: u64 = 1048576;
pub const GB: u64 = 1073741824;

/// A size in `unit`s with one decimal, rounded to the nearest tenth, a tie
/// to the even tenth.
pub open spec fn in_units(bytes: u64, unit: nat, name: Seq<char>) -> Seq<char> {
    tenths_text(div_round_even((bytes * 10) as nat, unit)) + " "@ + name
}

/// How a size in bytes is shown: in the largest of GB, MB and KB that it
/// reaches, with one decimal, and in bytes below a kilobyte.
pub open spec fn size_text(bytes: u64) -> Seq<char> {
    if bytes >= GB {
        in_units(bytes, GB as nat, "GB"@)
    } else if bytes >= MB {
        in_units(bytes, MB as nat, "MB"@)
    } else if bytes >= KB {
        in_units(bytes, KB as nat, "KB"@)
    } else {
        decimal(bytes) + " B"@
    }
}

fn push_in_units(s: &mut String, bytes: u64, unit: u64, name: &str)
    requires
        unit >= 1024,
    ensures
        final(s)@ == old(s)@ + in_units(bytes, unit as nat, name@),
{
    let n: u128 = (bytes as u128) * 10;
    let d: u128 = unit as u128;
    let q = n / d;
    let rem = n % d;
    let t: u128 = if 2 * rem > d || (2 * rem == d && q % 2 == 1) {
        q + 1
    } else {
        q
    };
    assert(t == div_round_even((bytes * 10) as nat, unit as nat));
    assert(q <= n / 1024) by (nonlinear_arith)
        requires
            q == n / d,
            d >= 1024,
    ;
    push_decimal(s, (t / 10) as u64);
    push_char(s, '.');
    push_char(s, ((48 + t % 10) as u8) as char);
    push_str(s, " ");
    push_str(s, name);
    assert(final(s)@ =~= old(s)@ + in_units(bytes, unit as nat, name@));
}

/// Shows a size in bytes: `512 B`, `1.5 KB`, `1.0 GB`.
pub fn format_size(bytes: u64) -> (r: String)
    ensures
        r@ == size_text(bytes),
{
    let mut s = String::new();
    if bytes >= GB {
        push_in_units(&mut s, bytes, GB, "GB");
    } else if bytes >= MB {
        push_in_units(&mut s, bytes, MB, "MB");
    } else if bytes >= KB {
        push_in_units(&mut s, bytes, KB, "KB");
    } else {
        push_decimal(&mut s, bytes);
        push_str(&mut s, " B");
    }
    s
}

/// The lines that show a project's statistics, joined by line breaks.
pub open spec fn stats_text(st: Stats) -> Seq<char> {
    "Project: "@ + st.project_path@ + "\n"@ + "Folder ID: "@ + st.folder_id@ + "\n"@ + match st.workspace_hash {
        Some(h) => "Workspace Hash: "@ + h@,
        None => "Workspace Hash: (not found)"@,
    } + "\n"@ + "\n"@ + "Chat Sessions: "@ + decimal(st.chat_sessions as u64) + "\n"@
        + "Workspace Storage: "@ + size_text(st.workspace_size) + "\n"@ + "Projects Data: "@
        + size_text(st.projects_size) + "\n"@ + "Total Cursor Data: "@ + size_text(
        (st.workspace_size + st.projects_size) as u64,
    )
}

/// Shows a project's statistics, one item per line.
pub fn format_stats(stats: &Stats) -> (r: String)
    requires
        stats.workspace_size + stats.projects_size <= u64::MAX,
    ensures
        r@ == stats_text(*stats),
{
    let mut s = String::new();
    push_str(&mut s, "Project: ");
    push_str(&mut s, stats.project_path.as_str());
    push_str(&mut s, "\n");
    push_str(&mut s, "Folder ID: ");
    push_str(&mut s, stats.folder_id.as_str());
    push_str(&mut s, "\n");
    match &stats.workspace_hash {
        Some(h) => {
            push_str(&mut s, "Workspace Hash: ");
            push_str(&mut s, h.as_str());
        },
        None => push_str(&mut s, "Workspace Hash: (not found)"),
    }
    push_str(&mut s, "\n");
    push_str(&mut s, "\n");
    push_str(&mut s, "Chat Sessions: ");
    push_decimal(&mut s, stats.chat_sessions as u64);
    push_str(&mut s, "\n");
    push_str(&mut s, "Workspace Storage: ");
    let ws = format_size(stats.workspace_size);
    push_str(&mut s, ws.as_str());
    push_str(&mut s, "\n");
    push_str(&mut s, "Projects Data: ");
    let ps = format_size(stats.projects_size);
    push_str(&mut s, ps.as_str());
    push_str(&mut s, "\n");
    push_str(&mut s, "Total Cursor Data: ");
    let total = format_size(stats.workspace_size + stats.projects_size);
    push_str(&mut s, total.as_str());
    assert(s@ =~= stats_text(*stats));
    s
}

} // verus!
