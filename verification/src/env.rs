//! Shell export lines for a profile.
use vstd::prelude::*;
use crate::config::{Store, has_name, name_pos, store_profiles};
use crate::error::AppError;
use crate::types::{Profile, ProfileView, effective_region, views};

verus! {

/// The line `export NAME=VALUE`.
pub open spec fn export_line(var: Seq<char>, val: Seq<char>) -> Seq<char> {
    "export "@ + var + "="@ + val
}

/// The export lines for a profile: `AWS_PROFILE`, then `AWS_REGION`
/// when a region applies (the metadata override first, else the region
/// of the AWS config).
pub open spec fn exports_for(p: ProfileView) -> Seq<Seq<char>> {
    seq![export_line("AWS_PROFILE"@, p.name)] + match effective_region(p) {
        Some(r) => seq![export_line("AWS_REGION"@, r)],
        None => Seq::<Seq<char>>::empty(),
    }
}

/// Logic for printing environment variable exports.
pub struct EnvLogic;

/// Command to print environment variables.
pub struct EnvCommand;

impl EnvLogic {
    /// The export lines for the profile of this exact name; an error
    /// when there is none.
    pub fn execute(store: &Store, profile_name: &str) -> (r: Result<Vec<String>, AppError>)
        requires
            store@.wf(),
        ensures
            ({
                let ps = store_profiles(store@);
                if has_name(ps, profile_name@) {
                    r matches Ok(lines) && views(lines@) == exports_for(ps[name_pos(ps, profile_name@)])
                } else {
                    r matches Err(AppError::ProfileNotFound(s)) && s@ == profile_name@
                }
            }),
    {
        match store.find_by_name(profile_name) {
            Some(profile) => Ok(Self::generate_exports(&profile)),
            None => Err(AppError::ProfileNotFound(profile_name.to_string())),
        }
    }

    /// The export lines for the given profile.
    pub fn generate_exports(profile: &Profile) -> (r: Vec<String>)
        ensures
            views(r@) == exports_for(profile@),
    {
        let mut lines: Vec<String> = Vec::new();
        lines.push("export AWS_PROFILE=".to_string().concat(profile.name.as_str()));
        proof {
            reveal_strlit("export AWS_PROFILE=");
            reveal_strlit("export ");
            reveal_strlit("AWS_PROFILE");
            reveal_strlit("=");
            assert("export AWS_PROFILE="@ =~= "export "@ + "AWS_PROFILE"@ + "="@);
        }
        match profile.effective_region() {
            Some(region) => {
                lines.push("export AWS_REGION=".to_string().concat(region.as_str()));
                proof {
                    reveal_strlit("export AWS_REGION=");
                    reveal_strlit("AWS_REGION");
                    assert("export AWS_REGION="@ =~= "export "@ + "AWS_REGION"@ + "="@);
                }
            },
            None => {},
        }
        assert(views(lines@) =~= exports_for(profile@));
        lines
    }
}

impl EnvCommand {
    /// The export lines for a resolved profile name (see
    /// `EnvLogic::execute`).
    pub fn execute(store: &Store, profile_name: &str) -> (r: Result<Vec<String>, AppError>)
        requires
            store@.wf(),
        ensures
            ({
                let ps = store_profiles(store@);
                if has_name(ps, profile_name@) {
                    r matches Ok(lines) && views(lines@) == exports_for(ps[name_pos(ps, profile_name@)])
                } else {
                    r matches Err(AppError::ProfileNotFound(s)) && s@ == profile_name@
                }
            }),
    {
        EnvLogic::execute(store, profile_name)
    }
}

} // verus!
