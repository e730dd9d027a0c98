//! Creating the metadata file, and the shell completion command.
use vstd::prelude::*;

verus! {

/// The contents of a new metadata file: no profiles.
pub open spec fn initial_metadata() -> Seq<char> {
    "profiles: {}\n"@
}

/// Command to initialize the metadata file.
pub struct InitCommand;

impl InitCommand {
    /// What to write to the metadata file: nothing when it already
    /// exists, else a file with no profiles.
    pub fn execute(metadata_exists: bool) -> (r: Option<String>)
        ensures
            metadata_exists ==> r is None,
            !metadata_exists ==> (r matches Some(s) && s@ == initial_metadata()),
    {
        if metadata_exists {
            None
        } else {
            Some("profiles: {}\n".to_string())
        }
    }
}

/// Command to generate shell completions (the script is written by the
/// application).
pub struct CompletionCommand;

} // verus!
