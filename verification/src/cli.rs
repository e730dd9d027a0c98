//! Decisions of the command line: the search target named by an
//! argument and the warning about metadata out of sync.
use vstd::prelude::*;
use crate::config::SyncStatus;
use crate::search::SearchTarget;
use crate::text::{decimal, decimal_string, str_eq};
use crate::types::views;

verus! {

/// The search target that an argument names: `tags`, `aliases` and
/// `name`, anything else all fields.
pub open spec fn target_named(s: Seq<char>) -> SearchTarget {
    if s == "tags"@ {
        SearchTarget::Tags
    } else if s == "aliases"@ {
        SearchTarget::Aliases
    } else if s == "name"@ {
        SearchTarget::Name
    } else {
        SearchTarget::All
    }
}

/// The warning printed before a command when the metadata is out of
/// sync, or none.
pub open spec fn sync_warning_lines(untracked: nat, orphaned: nat) -> Option<Seq<Seq<char>>> {
    if untracked == 0 && orphaned == 0 {
        None
    } else {
        Some(
            seq![
                "Warning: Metadata is out of sync with AWS sources ("@ + decimal(untracked) + " untracked, "@
                    + decimal(orphaned) + " orphaned)."@,
                "Run `awspm sync` to fix.\n"@,
            ],
        )
    }
}

/// The search target that an argument names (see `target_named`).
pub fn search_target_of(s: &str) -> (r: SearchTarget)
    ensures
        r == target_named(s@),
{
    if str_eq(s, "tags") {
        SearchTarget::Tags
    } else if str_eq(s, "aliases") {
        SearchTarget::Aliases
    } else if str_eq(s, "name") {
        SearchTarget::Name
    } else {
        SearchTarget::All
    }
}

/// The warning about metadata out of sync, for a sync status.
pub fn sync_warning(status: &SyncStatus) -> (r: Option<Vec<String>>)
    ensures
        match sync_warning_lines(status.untracked@.len(), status.orphaned@.len()) {
            None => r is None,
            Some(lines) => r matches Some(v) && views(v@) == lines,
        },
{
    let u = status.untracked.len();
    let o = status.orphaned.len();
    if u == 0 && o == 0 {
        return None;
    }
    let mut v: Vec<String> = Vec::new();
    v.push(
        "Warning: Metadata is out of sync with AWS sources (".to_string().concat(decimal_string(u).as_str()).concat(
            " untracked, ",
        ).concat(decimal_string(o).as_str()).concat(" orphaned)."),
    );
    v.push("Run `awspm sync` to fix.\n".to_string());
    assert(views(v@) =~= sync_warning_lines(u as nat, o as nat)->0);
    Some(v)
}

} // verus!
