//! The profile that is active in the current environment.
use vstd::prelude::*;

verus! {

/// The name that `current` prints: `env-vars` when raw credentials are
/// in the environment (they take precedence), else `AWS_PROFILE`, else
/// `default`.
pub open spec fn current_spec(access_key_set: bool, aws_profile: Option<Seq<char>>) -> Seq<char> {
    if access_key_set {
        "env-vars"@
    } else {
        match aws_profile {
            Some(p) => p,
            None => "default"@,
        }
    }
}

/// Command to show the current AWS profile.
pub struct CurrentCommand;

impl CurrentCommand {
    /// The current profile name, given whether `AWS_ACCESS_KEY_ID` is set
    /// and the value of `AWS_PROFILE`.
    pub fn current_profile(access_key_set: bool, aws_profile: Option<String>) -> (r: String)
        ensures
            r@ == current_spec(access_key_set, crate::types::opt_view(aws_profile)),
    {
        if access_key_set {
            return "env-vars".to_string();
        }
        match aws_profile {
            Some(p) => p,
            None => "default".to_string(),
        }
    }
}

} // verus!
